//! One "generate" action, end to end: pick the scenario (pins first, then
//! locale rules), pick the scene within it, pair up the names, and render
//! every pairing, titling the result after the scenario and the scene.

use vstd::prelude::*;

use crate::catalog::LoadedIndex;
use crate::errors::EmptyChoiceError;
use crate::pairing::paired_from;
use crate::render::replaced;
use crate::select::picked_ok;
use crate::settings::Settings;

verus! {

/// The outcome of one generate action: the dialog title and one rendered
/// line per pairing.
pub struct Generated {
    pub title: String,
    pub lines: Vec<String>,
}

/// Whether scene position `j` honours the scene pin against a scenario of
/// `n_scenes` scenes: the pinned position when it is valid there, any
/// position otherwise (an out-of-range pin counts as unset).
pub open spec fn scene_picked_ok(settings: Settings, n_scenes: int, j: int) -> bool {
    if settings.scene_index matches Some(p) && (p as int) < n_scenes {
        j == settings.scene_index->0 as int
    } else {
        true
    }
}

/// Whether a generated outcome `g` is one that the catalog, settings,
/// locale and names admit: some acceptable scenario position `i` and a
/// scene `j` within it that honours the scene pin supply the title, and the
/// lines render a pairing of the names against that scene's templates.
pub open spec fn generated_ok(
    catalog: LoadedIndex,
    settings: Settings,
    lang: Seq<char>,
    names: Seq<String>,
    g: Generated,
) -> bool {
    exists|i: int, j: int|
        #![trigger picked_ok(catalog.scenarios@, settings, lang, i), catalog.scenarios@[i].1.scenes@[j]]
        {
            &&& 0 <= i < catalog.scenarios@.len()
            &&& picked_ok(catalog.scenarios@, settings, lang, i)
            &&& 0 <= j < catalog.scenarios@[i].1.scenes@.len()
            &&& scene_picked_ok(settings, catalog.scenarios@[i].1.scenes@.len() as int, j)
            &&& g.title@ == catalog.scenarios@[i].0.name@ + " - "@
                + catalog.scenarios@[i].1.scenes@[j].name@
            &&& exists|v: Seq<crate::pairing::RandomizedMsg>|
                {
                    &&& #[trigger] paired_from(
                        v,
                        names,
                        catalog.scenarios@[i].1.scenes@[j].messages@,
                    )
                    &&& g.lines@.len() == v.len()
                    &&& forall|k: int|
                        0 <= k < v.len() ==> (#[trigger] g.lines@[k])@ == replaced(
                            replaced(v[k].message@, "%1$s"@, v[k].names.0@),
                            "%2$s"@,
                            v[k].names.1@,
                        )
                }
        }
}

/// Whether the catalog offers a choice at every level: at least one
/// scenario, every scenario with at least one scene, every scene with at
/// least one template — the shape on which a generate action is guaranteed
/// to succeed.
pub open spec fn catalog_choosable(catalog: LoadedIndex) -> bool {
    &&& catalog.scenarios@.len() > 0
    &&& forall|i: int|
        0 <= i < catalog.scenarios@.len() ==> {
            let sc = (#[trigger] catalog.scenarios@[i]).1;
            sc.scenes@.len() > 0 && forall|j: int|
                0 <= j < sc.scenes@.len() ==> (#[trigger] sc.scenes@[j]).messages@.len() > 0
        }
}

impl LoadedIndex {
    /// Runs one generate action against this catalog. Fails only with
    /// `EmptyChoiceError`, and only when a choice set is empty: a catalog
    /// without scenarios, a selected scenario without scenes, or a selected
    /// scene without templates while at least one pair needs one. On a
    /// catalog where every choice set is non-empty it always succeeds, with
    /// exactly `names.len() / 2` rendered lines.
    pub fn generate(&self, settings: &Settings, lang: &str, names: &Vec<String>) -> (r: Result<
        Generated,
        EmptyChoiceError,
    >)
        ensures
            r matches Ok(g) ==> g.lines@.len() == names@.len() / 2,
            r matches Ok(g) ==> generated_ok(*self, *settings, lang@, names@, g),
            catalog_choosable(*self) ==> r is Ok,
            r is Err ==> self.scenarios@.len() == 0 || exists|i: int|
                {
                    &&& 0 <= i < self.scenarios@.len()
                    &&& #[trigger] picked_ok(self.scenarios@, *settings, lang@, i)
                    &&& (self.scenarios@[i].1.scenes@.len() == 0 || (names@.len() >= 2 && exists|
                        j: int,
                    |
                        0 <= j < self.scenarios@[i].1.scenes@.len() && scene_picked_ok(
                            *settings,
                            self.scenarios@[i].1.scenes@.len() as int,
                            j,
                        ) && (#[trigger] self.scenarios@[i].1.scenes@[j]).messages@.len() == 0))
                },
    {
        if self.scenarios.len() == 0 {
            return Err(EmptyChoiceError);
        }
        let picked = self.pick_scenario(settings, lang);
        let ghost gi = choose|i: int|
            0 <= i < self.scenarios@.len() && *picked == self.scenarios@[i] && #[trigger] picked_ok(
                self.scenarios@,
                *settings,
                lang@,
                i,
            );
        match picked.1.pick_scene(settings) {
            Err(e) => {
                proof {
                    assert(self.scenarios@[gi].1.scenes@.len() == 0);
                }
                Err(e)
            },
            Ok(scene) => {
                proof {
                    assert(exists|j: int|
                        0 <= j < picked.1.scenes@.len() && *scene == #[trigger] picked.1.scenes@[j]
                            && scene_picked_ok(
                            *settings,
                            picked.1.scenes@.len() as int,
                            j,
                        )) by {
                        if settings.scene_index matches Some(p) && (p as int)
                            < picked.1.scenes@.len() {
                            let pj = settings.scene_index->0 as int;
                            assert(*scene == picked.1.scenes@[pj]);
                            assert(scene_picked_ok(*settings, picked.1.scenes@.len() as int, pj));
                        } else {
                            let any = choose|j: int|
                                0 <= j < picked.1.scenes@.len() && *scene
                                    == #[trigger] picked.1.scenes@[j];
                            assert(scene_picked_ok(*settings, picked.1.scenes@.len() as int, any));
                        }
                    }
                }
                let ghost gj = choose|j: int|
                    0 <= j < picked.1.scenes@.len() && *scene == #[trigger] picked.1.scenes@[j]
                        && scene_picked_ok(*settings, picked.1.scenes@.len() as int, j);
                match scene.randomize(names) {
                    Err(e) => {
                        proof {
                            assert(names@.len() >= 2);
                            assert(self.scenarios@[gi].1.scenes@[gj].messages@.len() == 0);
                        }
                        Err(e)
                    },
                    Ok(msgs) => {
                        let title = picked.0.name.clone().concat(" - ").concat(
                            scene.name.as_str(),
                        );
                        let mut lines: Vec<String> = Vec::new();
                        let mut k: usize = 0;
                        while k < msgs.len()
                            invariant
                                k <= msgs@.len(),
                                lines@.len() == k,
                                forall|kk: int|
                                    0 <= kk < k ==> (#[trigger] lines@[kk])@ == replaced(
                                        replaced(
                                            msgs@[kk].message@,
                                            "%1$s"@,
                                            msgs@[kk].names.0@,
                                        ),
                                        "%2$s"@,
                                        msgs@[kk].names.1@,
                                    ),
                            decreases msgs@.len() - k,
                        {
                            let line = msgs[k].render();
                            lines.push(line);
                            k = k + 1;
                        }
                        let g = Generated { title, lines };
                        proof {
                            assert(paired_from(msgs@, names@, self.scenarios@[gi].1.scenes@[gj].messages@));
                            assert(g.lines@.len() == msgs@.len());
                            assert(generated_ok(*self, *settings, lang@, names@, g)) by {
                                assert(g.title@ == self.scenarios@[gi].0.name@ + " - "@
                                    + self.scenarios@[gi].1.scenes@[gj].name@);
                                assert(scene_picked_ok(
                                    *settings,
                                    self.scenarios@[gi].1.scenes@.len() as int,
                                    gj,
                                ));
                            }
                        }
                        Ok(g)
                    },
                }
            },
        }
    }
}

} // verus!
