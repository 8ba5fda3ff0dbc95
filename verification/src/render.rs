//! Template rendering: the final display string substitutes the first
//! paired name for every `%1$s` and the second for every `%2$s`, a plain
//! text replacement of all occurrences.

use vstd::prelude::*;

use crate::pairing::RandomizedMsg;

verus! {

/// `s` with every occurrence of `pat` replaced by `rep`: matches are found
/// left to right and do not overlap.
pub open spec fn replaced(s: Seq<char>, pat: Seq<char>, rep: Seq<char>) -> Seq<char>
    decreases s.len(),
{
    if pat.len() == 0 || s.len() < pat.len() {
        s
    } else if s.subrange(0, pat.len() as int) == pat {
        rep + replaced(s.skip(pat.len() as int), pat, rep)
    } else {
        seq![s[0]] + replaced(s.skip(1), pat, rep)
    }
}

/// Whether `pat` occurs in `s` at position `i`.
fn matches_at(s: &str, i: usize, pat: &str) -> (r: bool)
    requires
        i + pat@.len() <= s@.len(),
    ensures
        r == (s@.subrange(i as int, i + pat@.len()) == pat@),
{
    let slen = s.unicode_len();
    let plen = pat.unicode_len();
    let ghost sub = s@.subrange(i as int, i + pat@.len());
    let mut j: usize = 0;
    while j < plen
        invariant
            slen == s@.len(),
            plen == pat@.len(),
            i + plen <= slen,
            sub == s@.subrange(i as int, i + plen),
            j <= plen,
            forall|k: int| 0 <= k < j ==> s@[i + k] == pat@[k],
        decreases plen - j,
    {
        if s.get_char(i + j) != pat.get_char(j) {
            proof {
                assert(sub[j as int] == s@[i + j]);
            }
            return false;
        }
        j = j + 1;
    }
    proof {
        assert(sub =~= pat@);
    }
    true
}

/// Replaces every occurrence of `pat` in `s` by `rep`, scanning left to
/// right past each replacement (matches never overlap).
pub fn replace_all(s: &str, pat: &str, rep: &str) -> (r: String)
    requires
        pat@.len() > 0,
    ensures
        r@ == replaced(s@, pat@, rep@),
{
    let n = s.unicode_len();
    let plen = pat.unicode_len();
    let mut r = String::new();
    let mut i: usize = 0;
    proof {
        assert(s@.skip(0) =~= s@);
        assert(Seq::<char>::empty() + replaced(s@, pat@, rep@) =~= replaced(s@, pat@, rep@));
    }
    while i < n
        invariant
            n == s@.len(),
            plen == pat@.len(),
            plen > 0,
            i <= n,
            r@ + replaced(s@.skip(i as int), pat@, rep@) == replaced(s@, pat@, rep@),
        decreases n - i,
    {
        let ghost rem = s@.skip(i as int);
        proof {
            assert(rem.len() == n - i);
        }
        if plen <= n - i && matches_at(s, i, pat) {
            proof {
                assert(rem.subrange(0, plen as int) =~= s@.subrange(i as int, i + plen));
                assert(replaced(rem, pat@, rep@) == rep@ + replaced(
                    rem.skip(plen as int),
                    pat@,
                    rep@,
                ));
                assert(rem.skip(plen as int) =~= s@.skip(i + plen));
                assert((r@ + rep@) + replaced(s@.skip(i + plen), pat@, rep@) =~= r@ + (rep@
                    + replaced(s@.skip(i + plen), pat@, rep@)));
            }
            r.append(rep);
            i = i + plen;
        } else {
            let c = s.substring_char(i, i + 1);
            proof {
                assert(c@ =~= seq![s@[i as int]]);
                if plen <= n - i {
                    assert(rem.subrange(0, plen as int) =~= s@.subrange(i as int, i + plen));
                    assert(replaced(rem, pat@, rep@) == seq![rem[0]] + replaced(
                        rem.skip(1),
                        pat@,
                        rep@,
                    ));
                } else {
                    assert(replaced(rem, pat@, rep@) == rem);
                    assert(rem =~= seq![rem[0]] + rem.skip(1));
                    assert(replaced(rem.skip(1), pat@, rep@) == rem.skip(1));
                }
                assert(seq![rem[0]] =~= c@);
                assert(rem.skip(1) =~= s@.skip(i + 1));
                assert((r@ + c@) + replaced(s@.skip(i + 1), pat@, rep@) =~= r@ + (c@ + replaced(
                    s@.skip(i + 1),
                    pat@,
                    rep@,
                )));
            }
            r.append(c);
            i = i + 1;
        }
    }
    proof {
        assert(s@.skip(n as int) =~= Seq::<char>::empty());
        assert(replaced(Seq::<char>::empty(), pat@, rep@) == Seq::<char>::empty());
        assert(r@ + Seq::<char>::empty() =~= r@);
    }
    r
}

impl RandomizedMsg {
    /// The display string: the template with every `%1$s` replaced by the
    /// first name, then every `%2$s` by the second.
    pub fn render(&self) -> (r: String)
        ensures
            r@ == replaced(
                replaced(self.message@, "%1$s"@, self.names.0@),
                "%2$s"@,
                self.names.1@,
            ),
    {
        proof {
            reveal_strlit("%1$s");
            reveal_strlit("%2$s");
        }
        let step = replace_all(self.message.as_str(), "%1$s", self.names.0.as_str());
        replace_all(step.as_str(), "%2$s", self.names.1.as_str())
    }
}

} // verus!
