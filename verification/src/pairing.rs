//! The pairing engine: shuffle the participant names, split them into
//! consecutive pairs (a leftover odd name is dropped silently), and draw one
//! message template per pair, independently and uniformly.

use vstd::prelude::*;

use crate::catalog::{clone_strings, Scene};
use crate::errors::EmptyChoiceError;
use crate::rng::{rand_index, shuffle_strings};

verus! {

/// One generated pairing: a chosen message template together with the two
/// names bound to it, in placeholder order. Ephemeral: rebuilt on every
/// "generate" action, never persisted.
pub struct RandomizedMsg {
    pub message: String,
    pub names: (String, String),
}

/// What `randomize` promises of its output `v`: some ordering `p` of the
/// input names (the same strings, with the same multiplicities) was split
/// into consecutive pairs, and each entry carries one of the scene's message
/// templates.
pub open spec fn pairing_witness(
    v: Seq<RandomizedMsg>,
    p: Seq<String>,
    names: Seq<String>,
    messages: Seq<String>,
) -> bool {
    &&& p.to_multiset() == names.to_multiset()
    &&& p.len() == names.len()
    &&& v.len() == names.len() / 2
    &&& forall|k: int|
        0 <= k < v.len() ==> (#[trigger] v[k]).names.0 == p[2 * k] && v[k].names.1 == p[2 * k + 1]
    &&& forall|k: int| 0 <= k < v.len() ==> messages.contains((#[trigger] v[k]).message)
}

/// The output `v` arises from `names` and `messages` by some shuffle: a
/// witness ordering as in `pairing_witness` exists.
pub open spec fn paired_from(
    v: Seq<RandomizedMsg>,
    names: Seq<String>,
    messages: Seq<String>,
) -> bool {
    exists|perm: Seq<String>| pairing_witness(v, perm, names, messages)
}

/// The name in slot `s` (0 or 1) of pairing `k`.
pub open spec fn pair_name(v: Seq<RandomizedMsg>, k: int, s: int) -> String {
    if s == 0 {
        v[k].names.0
    } else {
        v[k].names.1
    }
}

impl Scene {
    /// Shuffles the names, partitions the shuffled list into consecutive
    /// pairs, and renders each pair against an independently drawn template.
    /// Exactly `names.len() / 2` pairings come back; fewer than two names
    /// give the empty result with no error, since no template is ever drawn
    /// for them. Only a scene without templates that has to serve an actual
    /// pair yields `EmptyChoiceError`.
    pub fn randomize(&self, names: &Vec<String>) -> (r: Result<
        Vec<RandomizedMsg>,
        EmptyChoiceError,
    >)
        ensures
            r is Ok <==> (self.messages@.len() > 0 || names@.len() < 2),
            r matches Ok(v) ==> v@.len() == names@.len() / 2,
            r is Ok ==> paired_from((r->Ok_0)@, names@, self.messages@),
    {
        if names.len() < 2 {
            let empty: Vec<RandomizedMsg> = Vec::new();
            proof {
                assert(paired_from(empty@, names@, self.messages@)) by {
                    assert(pairing_witness(empty@, names@, names@, self.messages@));
                }
            }
            return Ok(empty);
        }
        if self.messages.len() == 0 {
            return Err(EmptyChoiceError);
        }
        let mut shuffled = clone_strings(names);
        shuffle_strings(&mut shuffled);
        let ghost p = shuffled@;
        let mut result: Vec<RandomizedMsg> = Vec::new();
        let mut i: usize = 0;
        while i + 1 < shuffled.len()
            invariant
                shuffled@ == p,
                p.len() == names@.len(),
                self.messages@.len() > 0,
                i % 2 == 0,
                i <= p.len(),
                result@.len() == i / 2,
                forall|k: int|
                    0 <= k < result@.len() ==> (#[trigger] result@[k]).names.0 == p[2 * k]
                        && result@[k].names.1 == p[2 * k + 1],
                forall|k: int|
                    0 <= k < result@.len() ==> self.messages@.contains(
                        (#[trigger] result@[k]).message,
                    ),
            decreases p.len() - i,
        {
            let m = rand_index(self.messages.len());
            let message = self.messages[m].clone();
            let first = shuffled[i].clone();
            let second = shuffled[i + 1].clone();
            result.push(RandomizedMsg { message, names: (first, second) });
            i = i + 2;
        }
        proof {
            assert(i / 2 == p.len() / 2) by {
                assert(p.len() - 1 <= i <= p.len());
                assert(i % 2 == 0);
            }
            assert(paired_from(result@, names@, self.messages@)) by {
                assert(pairing_witness(result@, p, names@, self.messages@));
            }
        }
        Ok(result)
    }
}

/// The witness-level form of `lemma_randomize_names_distinct`, over one
/// concrete ordering `p`.
proof fn lemma_pairing_names_distinct(
    v: Seq<RandomizedMsg>,
    p: Seq<String>,
    names: Seq<String>,
    messages: Seq<String>,
)
    requires
        pairing_witness(v, p, names, messages),
        names.no_duplicates(),
    ensures
        forall|k1: int, s1: int, k2: int, s2: int|
            0 <= k1 < v.len() && 0 <= s1 < 2 && 0 <= k2 < v.len() && 0 <= s2 < 2 && !(k1 == k2 && s1
                == s2) ==> pair_name(v, k1, s1) != pair_name(v, k2, s2),
        forall|k: int, s: int|
            0 <= k < v.len() && 0 <= s < 2 ==> names.contains(#[trigger] pair_name(v, k, s)),
{
    names.lemma_multiset_has_no_duplicates();
    assert forall|x: String| p.to_multiset().contains(x) implies p.to_multiset().count(x) == 1 by {
        assert(names.to_multiset().contains(x));
    }
    p.lemma_multiset_has_no_duplicates_conv();
    assert forall|k1: int, s1: int, k2: int, s2: int|
        0 <= k1 < v.len() && 0 <= s1 < 2 && 0 <= k2 < v.len() && 0 <= s2 < 2 && !(k1 == k2 && s1
            == s2) implies pair_name(v, k1, s1) != pair_name(v, k2, s2) by {
        let a = 2 * k1 + s1;
        let b = 2 * k2 + s2;
        assert(a != b);
        assert(0 <= a < p.len() && 0 <= b < p.len());
        assert(pair_name(v, k1, s1) == p[a]);
        assert(pair_name(v, k2, s2) == p[b]);
    }
    assert forall|k: int, s: int|
        0 <= k < v.len() && 0 <= s < 2 implies names.contains(#[trigger] pair_name(v, k, s)) by {
        let a = 2 * k + s;
        assert(0 <= a < p.len());
        assert(pair_name(v, k, s) == p[a]);
        assert(p.contains(p[a]));
        p.to_multiset_ensures();
        names.to_multiset_ensures();
        assert(p.to_multiset().count(p[a]) > 0);
    }
}

/// Law: when the input names are pairwise distinct, every name a pairing
/// uses comes from the input list and no name is used twice across the
/// pairings of one call — the two names of each pairing differ, and no
/// name reappears in another pairing. `paired_from` is exactly what
/// `randomize` promises of its output, so this holds of every draw.
pub proof fn lemma_randomize_names_distinct(
    v: Seq<RandomizedMsg>,
    names: Seq<String>,
    messages: Seq<String>,
)
    requires
        paired_from(v, names, messages),
        names.no_duplicates(),
    ensures
        forall|k1: int, s1: int, k2: int, s2: int|
            0 <= k1 < v.len() && 0 <= s1 < 2 && 0 <= k2 < v.len() && 0 <= s2 < 2 && !(k1 == k2 && s1
                == s2) ==> pair_name(v, k1, s1) != pair_name(v, k2, s2),
        forall|k: int, s: int|
            0 <= k < v.len() && 0 <= s < 2 ==> names.contains(#[trigger] pair_name(v, k, s)),
{
    let p = choose|p: Seq<String>| pairing_witness(v, p, names, messages);
    lemma_pairing_names_distinct(v, p, names, messages);
}

} // verus!
