//! Scenario and scene selection. Precedence for the scenario, highest
//! first: a valid pinned index wins unconditionally; otherwise, with locale
//! filtering off, the whole catalog is the pool; otherwise the scenarios
//! tagged with the user's primary language subtag form the pool, and if none
//! carries that tag the whole catalog is the pool again. The scene honours
//! its own pin when it is a valid position in the selected scenario, and is
//! drawn uniformly otherwise.

use vstd::prelude::*;

use crate::catalog::{LoadedIndex, Scenario, Scene, ScenarioMeta};
use crate::errors::EmptyChoiceError;
use crate::rng::rand_index;
use crate::settings::Settings;

verus! {

/// Whether a scenario carries exactly this locale tag (a primary language
/// subtag, e.g. "en"; the match is plain string equality).
pub open spec fn is_native(m: ScenarioMeta, lang: Seq<char>) -> bool {
    m.lang matches Some(l) && l@ == lang
}

/// The positions in `s`, from `from` on and in order, whose scenario is
/// tagged with `lang`.
pub open spec fn matching_indices(
    s: Seq<(ScenarioMeta, Scenario)>,
    lang: Seq<char>,
    from: int,
) -> Seq<usize>
    decreases s.len() - from,
{
    if from < 0 || from >= s.len() {
        Seq::empty()
    } else if is_native(s[from].0, lang) {
        seq![from as usize] + matching_indices(s, lang, from + 1)
    } else {
        matching_indices(s, lang, from + 1)
    }
}

/// The positions `0, 1, .., n-1`.
pub open spec fn all_indices(n: int) -> Seq<usize> {
    Seq::new(n as nat, |j: int| j as usize)
}

/// Whether the settings pin a scenario position that exists in a catalog of
/// `n` scenarios.
pub open spec fn valid_pin(settings: Settings, n: int) -> bool {
    settings.scenario_index matches Some(i) && (i as int) < n
}

/// The pin that selection honours: the stored one when it is a valid
/// position, and none otherwise (a stale pin is tolerated, not an error).
pub open spec fn effective_pin(settings: Settings, n: int) -> Option<usize> {
    if valid_pin(settings, n) {
        settings.scenario_index
    } else {
        None
    }
}

/// The pool a random scenario is drawn from when no valid pin exists: the
/// whole catalog with locale filtering off, else the native-language
/// positions, else (when no scenario is native) the whole catalog again.
pub open spec fn scenario_pool(
    s: Seq<(ScenarioMeta, Scenario)>,
    settings: Settings,
    lang: Seq<char>,
) -> Seq<usize> {
    if settings.ignore_language {
        all_indices(s.len() as int)
    } else if matching_indices(s, lang, 0).len() > 0 {
        matching_indices(s, lang, 0)
    } else {
        all_indices(s.len() as int)
    }
}

/// The outcome of resolving settings and locale against a catalog: either a
/// pinned position, or the pool of positions a uniform draw chooses from.
pub enum ScenarioChoice {
    Pinned(usize),
    Pool(Vec<usize>),
}

/// Compares two string slices by characters.
pub(crate) fn str_eq(a: &str, b: &str) -> (r: bool)
    ensures
        r == (a@ == b@),
{
    let alen = a.unicode_len();
    let blen = b.unicode_len();
    if alen != blen {
        return false;
    }
    let mut j: usize = 0;
    while j < alen
        invariant
            alen == a@.len(),
            blen == b@.len(),
            alen == blen,
            j <= alen,
            forall|k: int| 0 <= k < j ==> a@[k] == b@[k],
        decreases alen - j,
    {
        if a.get_char(j) != b.get_char(j) {
            return false;
        }
        j = j + 1;
    }
    proof {
        assert(a@ =~= b@);
    }
    true
}

impl LoadedIndex {
    /// Resolves settings and locale to either the pinned position or the
    /// exact pool of candidate positions, deterministically; `pick_scenario`
    /// draws from this.
    pub fn scenario_candidates(&self, settings: &Settings, lang: &str) -> (c: ScenarioChoice)
        ensures
            effective_pin(*settings, self.scenarios@.len() as int) matches Some(i) ==> c
                == ScenarioChoice::Pinned(i),
            effective_pin(*settings, self.scenarios@.len() as int) is None ==> (c matches
                ScenarioChoice::Pool(v) && v@ == scenario_pool(self.scenarios@, *settings, lang@)),
    {
        if let Some(i) = settings.scenario_index {
            if i < self.scenarios.len() {
                return ScenarioChoice::Pinned(i);
            }
        }
        if settings.ignore_language {
            ScenarioChoice::Pool(self.all_idx())
        } else {
            let native = self.matching_idx(lang);
            if native.len() > 0 {
                ScenarioChoice::Pool(native)
            } else {
                ScenarioChoice::Pool(self.all_idx())
            }
        }
    }

    fn all_idx(&self) -> (v: Vec<usize>)
        ensures
            v@ == all_indices(self.scenarios@.len() as int),
    {
        let n = self.scenarios.len();
        let mut v: Vec<usize> = Vec::new();
        let mut i: usize = 0;
        while i < n
            invariant
                i <= n,
                v@ == all_indices(i as int),
            decreases n - i,
        {
            v.push(i);
            proof {
                assert(v@ =~= all_indices(i + 1 as int));
            }
            i = i + 1;
        }
        v
    }

    fn matching_idx(&self, lang: &str) -> (v: Vec<usize>)
        ensures
            v@ == matching_indices(self.scenarios@, lang@, 0),
    {
        let n = self.scenarios.len();
        let mut v: Vec<usize> = Vec::new();
        let mut i: usize = 0;
        while i < n
            invariant
                i <= n,
                n == self.scenarios@.len(),
                v@ + matching_indices(self.scenarios@, lang@, i as int) == matching_indices(
                    self.scenarios@,
                    lang@,
                    0,
                ),
            decreases n - i,
        {
            let native = match &self.scenarios[i].0.lang {
                Some(l) => str_eq(l.as_str(), lang),
                None => false,
            };
            if native {
                v.push(i);
                proof {
                    assert(matching_indices(self.scenarios@, lang@, i as int) == seq![i as usize]
                        + matching_indices(self.scenarios@, lang@, i + 1 as int));
                    assert((v@.drop_last() + seq![i as usize]) + matching_indices(
                        self.scenarios@,
                        lang@,
                        i + 1 as int,
                    ) =~= v@.drop_last() + matching_indices(self.scenarios@, lang@, i as int));
                    assert(v@ =~= v@.drop_last() + seq![i as usize]);
                }
            } else {
                proof {
                    assert(matching_indices(self.scenarios@, lang@, i as int) == matching_indices(
                        self.scenarios@,
                        lang@,
                        i + 1 as int,
                    ));
                }
            }
            i = i + 1;
        }
        proof {
            assert(matching_indices(self.scenarios@, lang@, n as int) =~= Seq::empty());
            assert(v@ + Seq::<usize>::empty() =~= v@);
        }
        v
    }

    /// Picks the scenario: the validly pinned entry when one is set, else a
    /// uniform draw from the pool that `scenario_candidates` resolves
    /// (native-language scenarios when filtering applies and any match, the
    /// whole catalog otherwise). `lang` is the user's primary language
    /// subtag.
    pub fn pick_scenario(&self, settings: &Settings, lang: &str) -> (r: &(ScenarioMeta, Scenario))
        requires
            self.scenarios@.len() > 0,
        ensures
            exists|i: int|
                0 <= i < self.scenarios@.len() && *r == self.scenarios@[i] && #[trigger] picked_ok(
                    self.scenarios@,
                    *settings,
                    lang@,
                    i,
                ),
            valid_pin(*settings, self.scenarios@.len() as int) ==> *r == self.scenarios@[
                settings.scenario_index->0 as int],
            (!valid_pin(*settings, self.scenarios@.len() as int) && !settings.ignore_language
                && matching_indices(self.scenarios@, lang@, 0).len() > 0) ==> is_native(
                r.0,
                lang@,
            ),
    {
        // Taking the length brings the fact that the scenario count fits in
        // usize, which the pool lemmas below need for their index casts.
        let n = self.scenarios.len();
        let choice = self.scenario_candidates(settings, lang);
        match choice {
            ScenarioChoice::Pinned(i) => {
                let r = &self.scenarios[i];
                proof {
                    assert(picked_ok(self.scenarios@, *settings, lang@, i as int));
                }
                r
            },
            ScenarioChoice::Pool(pool) => {
                proof {
                    lemma_pool_sound(self.scenarios@, *settings, lang@);
                    lemma_pool_nonempty(self.scenarios@, *settings, lang@);
                }
                let k = rand_index(pool.len());
                let i = pool[k];
                let r = &self.scenarios[i];
                proof {
                    assert(picked_ok(self.scenarios@, *settings, lang@, i as int));
                }
                r
            },
        }
    }
}

/// Whether position `i` is an acceptable outcome of scenario selection for
/// these settings and this locale: the pinned position when a valid pin is
/// set, any native-language position when filtering applies and any
/// scenario is native, and any position at all otherwise.
pub open spec fn picked_ok(
    s: Seq<(ScenarioMeta, Scenario)>,
    settings: Settings,
    lang: Seq<char>,
    i: int,
) -> bool {
    if valid_pin(settings, s.len() as int) {
        i == settings.scenario_index->0 as int
    } else if !settings.ignore_language && matching_indices(s, lang, 0).len() > 0 {
        is_native(s[i].0, lang)
    } else {
        true
    }
}

/// Every position in `matching_indices` from `from` on lies in `from..len`
/// and is native.
proof fn lemma_matching_sound(
    s: Seq<(ScenarioMeta, Scenario)>,
    lang: Seq<char>,
    from: int,
)
    requires
        s.len() <= usize::MAX,
    ensures
        forall|k: int|
            0 <= k < matching_indices(s, lang, from).len() ==> {
                let i = #[trigger] matching_indices(s, lang, from)[k];
                from <= i as int && (i as int) < s.len() && is_native(s[i as int].0, lang)
            },
    decreases s.len() - from,
{
    if from < 0 || from >= s.len() {
    } else {
        lemma_matching_sound(s, lang, from + 1);
        let m = matching_indices(s, lang, from);
        let rest = matching_indices(s, lang, from + 1);
        assert forall|k: int| 0 <= k < m.len() implies {
            let i = #[trigger] m[k];
            from <= i as int && (i as int) < s.len() && is_native(s[i as int].0, lang)
        } by {
            if is_native(s[from].0, lang) {
                assert(m == seq![from as usize] + rest);
                if k == 0 {
                    assert(m[0] == from as usize);
                } else {
                    assert(m[k] == rest[k - 1]);
                }
            } else {
                assert(m == rest);
            }
        }
    }
}

/// Every position in the pool is a position of the catalog, and an
/// acceptable outcome in the sense of `picked_ok` when no valid pin is set.
proof fn lemma_pool_sound(s: Seq<(ScenarioMeta, Scenario)>, settings: Settings, lang: Seq<char>)
    requires
        s.len() <= usize::MAX,
        !valid_pin(settings, s.len() as int),
    ensures
        forall|k: int|
            0 <= k < scenario_pool(s, settings, lang).len() ==> {
                let i = #[trigger] scenario_pool(s, settings, lang)[k];
                (i as int) < s.len() && picked_ok(s, settings, lang, i as int)
            },
{
    lemma_matching_sound(s, lang, 0);
}

/// With at least one scenario in the catalog, the pool is never empty.
proof fn lemma_pool_nonempty(s: Seq<(ScenarioMeta, Scenario)>, settings: Settings, lang: Seq<char>)
    requires
        s.len() > 0,
    ensures
        scenario_pool(s, settings, lang).len() > 0,
{
}

impl Scenario {
    /// Picks the scene: the validly pinned position when one is set (a pin
    /// out of range for this scenario counts as unset), else a uniform
    /// draw from all scenes. A scenario without scenes yields
    /// `EmptyChoiceError`.
    pub fn pick_scene(&self, settings: &Settings) -> (r: Result<&Scene, EmptyChoiceError>)
        ensures
            r is Ok <==> self.scenes@.len() > 0,
            (settings.scene_index matches Some(i) && (i as int) < self.scenes@.len()) ==> (r matches
                Ok(s) && *s == self.scenes@[settings.scene_index->0 as int]),
            r matches Ok(s) ==> exists|i: int|
                0 <= i < self.scenes@.len() && *s == #[trigger] self.scenes@[i],
    {
        if let Some(i) = settings.scene_index {
            if i < self.scenes.len() {
                return Ok(&self.scenes[i]);
            }
        }
        if self.scenes.len() == 0 {
            return Err(EmptyChoiceError);
        }
        let k = rand_index(self.scenes.len());
        Ok(&self.scenes[k])
    }
}

/// Law: an out-of-range scenario pin selects exactly as no pin at all. Two
/// settings that differ only in that the first pins a position outside the
/// catalog and the second pins nothing resolve to the same (absent)
/// effective pin and the same pool.
pub proof fn lemma_stale_pin_is_unset(
    s: Seq<(ScenarioMeta, Scenario)>,
    pinned: Settings,
    unpinned: Settings,
    lang: Seq<char>,
)
    requires
        pinned.scenario_index matches Some(i) && (i as int) >= s.len(),
        unpinned.scenario_index is None,
        unpinned.ignore_language == pinned.ignore_language,
        unpinned.scene_index == pinned.scene_index,
    ensures
        effective_pin(pinned, s.len() as int) == effective_pin(unpinned, s.len() as int),
        scenario_pool(s, pinned, lang) == scenario_pool(s, unpinned, lang),
{
}

} // verus!
