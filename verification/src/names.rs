//! The participant name list. Raw input arrives as one name per line; the
//! list keeps each line trimmed, drops blank lines, and keeps only the
//! first occurrence of a name, in input order. Uniqueness is what lets the
//! pairing engine promise that no participant appears twice in one draw.

use vstd::prelude::*;

use crate::select::str_eq;

verus! {

/// The character sequence that trimming yields: the input without its
/// leading and trailing whitespace.
pub uninterp spec fn trimmed(s: Seq<char>) -> Seq<char>;

/// Relies on `str::trim`: it removes leading and trailing whitespace, and
/// the result depends on the input characters alone.
#[verifier::external_body]
fn trim_str(s: &str) -> (r: String)
    ensures
        r@ == trimmed(s@),
{
    s.trim().to_string()
}

/// Whether a name list is normalized: every entry non-empty, no entry
/// repeated.
pub open spec fn normalized(v: Seq<String>) -> bool {
    &&& forall|i: int| 0 <= i < v.len() ==> (#[trigger] v[i])@.len() > 0
    &&& forall|i: int, j: int| 0 <= i < j < v.len() ==> v[i]@ != v[j]@
}

/// Whether some entry of `v` reads `x`.
pub open spec fn appears(v: Seq<String>, x: Seq<char>) -> bool {
    exists|i: int| 0 <= i < v.len() && (#[trigger] v[i])@ == x
}

/// Whether `x` is the trim of one of the first `upto` lines.
pub open spec fn trim_of_some(lines: Seq<String>, upto: int, x: Seq<char>) -> bool {
    exists|j: int| 0 <= j < upto && x == trimmed((#[trigger] lines[j])@)
}

/// The normalized form of the first `upto` lines, exactly: each line
/// trimmed, blanks dropped, and a name kept only at its first occurrence,
/// in input order.
pub open spec fn normalize_lines(lines: Seq<String>, upto: int) -> Seq<Seq<char>>
    decreases upto,
{
    if upto <= 0 {
        Seq::empty()
    } else {
        let prefix = normalize_lines(lines, upto - 1);
        let t = trimmed(lines[upto - 1]@);
        if t.len() == 0 || prefix.contains(t) {
            prefix
        } else {
            prefix.push(t)
        }
    }
}

/// The participant names, in display order. Display order carries no
/// meaning for pairing, which reshuffles on every draw.
pub struct Names(pub Vec<String>);

fn contains_name(v: &Vec<String>, s: &str) -> (r: bool)
    ensures
        r == appears(v@, s@),
{
    let mut i: usize = 0;
    while i < v.len()
        invariant
            i <= v@.len(),
            forall|k: int| 0 <= k < i ==> (#[trigger] v@[k])@ != s@,
        decreases v@.len() - i,
    {
        if str_eq(v[i].as_str(), s) {
            proof {
                assert(appears(v@, s@));
            }
            return true;
        }
        i = i + 1;
    }
    proof {
        assert(!appears(v@, s@));
    }
    false
}

impl Names {
    /// Normalizes raw input lines into the name list: each line trimmed,
    /// blank lines dropped, and only the first occurrence of each name
    /// kept, in input order. Every kept entry is the trim of some line, and
    /// every line that trims to something non-empty is represented.
    pub fn from_lines(lines: &Vec<String>) -> (r: Names)
        ensures
            normalized(r.0@),
            r.0@.map_values(|s: String| s@) == normalize_lines(lines@, lines@.len() as int),
            forall|i: int|
                0 <= i < r.0@.len() ==> trim_of_some(lines@, lines@.len() as int, (#[trigger] r.0@[i])@),
            forall|j: int|
                0 <= j < lines@.len() && trimmed((#[trigger] lines@[j])@).len() > 0 ==> appears(
                    r.0@,
                    trimmed(lines@[j]@),
                ),
    {
        let n = lines.len();
        let mut out: Vec<String> = Vec::new();
        let mut j: usize = 0;
        while j < n
            invariant
                n == lines@.len(),
                j <= n,
                normalized(out@),
                out@.map_values(|s: String| s@) == normalize_lines(lines@, j as int),
                forall|i: int|
                    0 <= i < out@.len() ==> trim_of_some(lines@, j as int, (#[trigger] out@[i])@),
                forall|jj: int|
                    0 <= jj < j && trimmed((#[trigger] lines@[jj])@).len() > 0 ==> appears(
                        out@,
                        trimmed(lines@[jj]@),
                    ),
            decreases n - j,
        {
            let t = trim_str(lines[j].as_str());
            let ghost prev = out@;
            let ghost prev_views = out@.map_values(|s: String| s@);
            if !t.as_str().is_empty() {
                if !contains_name(&out, t.as_str()) {
                    proof {
                        assert forall|i: int|
                            0 <= i < prev_views.len() implies prev_views[i] != t@ by {
                            assert(prev_views[i] == prev[i]@);
                            assert(!appears(prev, t@));
                        }
                        assert(!prev_views.contains(t@));
                    }
                    out.push(t);
                    proof {
                        assert(normalize_lines(lines@, j + 1) == prev_views.push(
                            trimmed(lines@[j as int]@),
                        ));
                        assert(out@.map_values(|s: String| s@) =~= prev_views.push(
                            trimmed(lines@[j as int]@),
                        ));
                        assert(forall|i: int| 0 <= i < prev.len() ==> out@[i] == prev[i]);
                        assert(out@[prev.len() as int]@ == trimmed(lines@[j as int]@));
                        assert forall|i1: int, i2: int| 0 <= i1 < i2 < out@.len() implies out@[i1]@
                            != out@[i2]@ by {
                            if i2 < prev.len() {
                                assert(prev[i1]@ != prev[i2]@);
                            } else {
                                assert(!appears(prev, t@));
                                assert(prev[i1]@ != t@);
                            }
                        }
                        assert forall|jj: int|
                            0 <= jj < j + 1 && trimmed((#[trigger] lines@[jj])@).len()
                                > 0 implies appears(out@, trimmed(lines@[jj]@)) by {
                            if jj < j {
                                assert(appears(prev, trimmed(lines@[jj]@)));
                                let i = choose|i: int|
                                    0 <= i < prev.len() && (#[trigger] prev[i])@ == trimmed(
                                        lines@[jj]@,
                                    );
                                assert(out@[i]@ == trimmed(lines@[jj]@));
                            } else {
                                assert(out@[prev.len() as int]@ == trimmed(lines@[jj]@));
                            }
                        }
                    }
                } else {
                    proof {
                        assert(appears(out@, t@));
                        let i = choose|i: int| 0 <= i < out@.len() && (#[trigger] out@[i])@ == t@;
                        assert(prev_views[i] == t@);
                        assert(prev_views.contains(trimmed(lines@[j as int]@)));
                        assert(normalize_lines(lines@, j + 1) == prev_views);
                        assert forall|jj: int|
                            0 <= jj < j + 1 && trimmed((#[trigger] lines@[jj])@).len()
                                > 0 implies appears(out@, trimmed(lines@[jj]@)) by {
                            if jj == j {
                                assert(t@ == trimmed(lines@[jj]@));
                            }
                        }
                    }
                }
            } else {
                proof {
                    assert(trimmed(lines@[j as int]@).len() == 0);
                    assert(normalize_lines(lines@, j + 1) == prev_views);
                    assert forall|jj: int|
                        0 <= jj < j + 1 && trimmed((#[trigger] lines@[jj])@).len()
                            > 0 implies appears(out@, trimmed(lines@[jj]@)) by {}
                }
            }
            proof {
                assert forall|i: int| 0 <= i < out@.len() implies trim_of_some(
                    lines@,
                    j + 1,
                    (#[trigger] out@[i])@,
                ) by {
                    if i < prev.len() {
                        assert(trim_of_some(lines@, j as int, prev[i]@));
                        let jj = choose|jj: int|
                            0 <= jj < j && prev[i]@ == trimmed((#[trigger] lines@[jj])@);
                        assert(out@[i]@ == trimmed(lines@[jj]@));
                    } else {
                        assert(out@[i]@ == trimmed(lines@[j as int]@));
                    }
                }
            }
            j = j + 1;
        }
        Names(out)
    }
}

} // verus!
