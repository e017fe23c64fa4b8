//! The platform list, parsed out of the list file's text: the maximal runs
//! of letter-range characters, with an empty entry wherever the scan stands
//! on a separator position it has not just left a match at.  Loading the
//! file from disk is the surrounding program's concern.

use vstd::prelude::*;

verus! {

/// A character of the letter range `A` through `z`, the punctuation marks
/// between the capital and small letters included.
pub open spec fn is_letter_range_char(c: char) -> bool {
    0x41 <= c as u32 && c as u32 <= 0x7a
}

/// First index at or after `i` outside the letter range; `i` itself when it
/// is out of bounds.
pub open spec fn letter_run_end(s: Seq<char>, i: int) -> int
    decreases s.len() - i,
{
    if i < 0 || i >= s.len() {
        i
    } else if !is_letter_range_char(s[i]) {
        i
    } else {
        letter_run_end(s, i + 1)
    }
}

/// The matches of a scan for letter runs from `pos`, where `last_match` is
/// the end of the last match reported so far (`-1` before the first): a
/// nonempty run is reported whole; an empty match is reported unless the
/// scan stands exactly where the last match ended, and the scan then moves
/// one character on.
pub open spec fn letter_runs_from(s: Seq<char>, pos: int, last_match: int) -> Seq<Seq<char>>
    decreases s.len() + 1 - pos,
{
    if pos < 0 || pos > s.len() {
        Seq::empty()
    } else {
        let e = letter_run_end(s, pos);
        if pos < e && e <= s.len() {
            seq![s.subrange(pos, e)] + letter_runs_from(s, e, e)
        } else if pos == last_match {
            letter_runs_from(s, pos + 1, last_match)
        } else {
            seq![Seq::<char>::empty()] + letter_runs_from(s, pos + 1, pos)
        }
    }
}

/// What parsing a platform list file's text yields.
pub open spec fn parse_platforms_spec(s: Seq<char>) -> Seq<Seq<char>> {
    letter_runs_from(s, 0, -1)
}

/// The platforms one output file copy can be generated per.
pub struct PlatformList {
    pub platforms: Vec<String>,
}

impl PlatformList {
    /// Parses the list file's text into platform names.
    pub fn parse_platforms(file_contents: &String) -> (r: Vec<String>)
        ensures
            r.deep_view() == parse_platforms_spec(file_contents@),
    {
        split_letter_runs(file_contents.as_str())
    }
}

/// Scans `s` for letter runs, reporting them as `letter_runs_from` does.
pub(crate) fn split_letter_runs(s: &str) -> (r: Vec<String>)
    ensures
        r.deep_view() == letter_runs_from(s@, 0, -1),
{
    let n = s.unicode_len();
    let mut out: Vec<String> = Vec::new();
    let mut pos: usize = 0;
    let mut has_match = false;
    let mut last_match_end: usize = 0;
    proof {
        assert(out.deep_view() =~= Seq::<Seq<char>>::empty());
        assert(Seq::<Seq<char>>::empty() + letter_runs_from(s@, 0, -1) =~= letter_runs_from(
            s@,
            0,
            -1,
        ));
    }
    while pos < n
        invariant
            pos <= n,
            n == s@.len(),
            has_match ==> last_match_end <= n,
            letter_runs_from(s@, 0, -1) == out.deep_view() + letter_runs_from(
                s@,
                pos as int,
                if has_match {
                    last_match_end as int
                } else {
                    -1
                },
            ),
        decreases n - pos,
    {
        let ghost old_dv = out.deep_view();
        let e = letter_run_scan(s, pos);
        if pos < e {
            out.push(String::from_str(s.substring_char(pos, e)));
            proof {
                assert(out.deep_view() =~= old_dv + seq![s@.subrange(pos as int, e as int)]);
                assert((old_dv + seq![s@.subrange(pos as int, e as int)]) + letter_runs_from(
                    s@,
                    e as int,
                    e as int,
                ) =~= old_dv + (seq![s@.subrange(pos as int, e as int)] + letter_runs_from(
                    s@,
                    e as int,
                    e as int,
                )));
            }
            pos = e;
            has_match = true;
            last_match_end = e;
        } else if has_match && pos == last_match_end {
            pos = pos + 1;
        } else {
            out.push(String::new());
            proof {
                assert(out.deep_view() =~= old_dv + seq![Seq::<char>::empty()]);
                assert((old_dv + seq![Seq::<char>::empty()]) + letter_runs_from(
                    s@,
                    pos as int + 1,
                    pos as int,
                ) =~= old_dv + (seq![Seq::<char>::empty()] + letter_runs_from(
                    s@,
                    pos as int + 1,
                    pos as int,
                )));
            }
            has_match = true;
            last_match_end = pos;
            pos = pos + 1;
        }
    }
    let ghost final_lm: int = if has_match {
        last_match_end as int
    } else {
        -1
    };
    if !(has_match && pos == last_match_end) {
        let ghost old_dv = out.deep_view();
        out.push(String::new());
        proof {
            assert(letter_runs_from(s@, n as int, final_lm) =~= seq![Seq::<char>::empty()]
                + letter_runs_from(s@, n as int + 1, n as int));
            assert(letter_runs_from(s@, n as int + 1, n as int) =~= Seq::<Seq<char>>::empty());
            assert(out.deep_view() =~= old_dv + seq![Seq::<char>::empty()]);
            assert(out.deep_view() =~= old_dv + letter_runs_from(s@, n as int, final_lm));
        }
    } else {
        proof {
            assert(letter_runs_from(s@, n as int, final_lm) =~= letter_runs_from(
                s@,
                n as int + 1,
                final_lm,
            ));
            assert(letter_runs_from(s@, n as int + 1, final_lm) =~= Seq::<Seq<char>>::empty());
            assert(out.deep_view() + Seq::<Seq<char>>::empty() =~= out.deep_view());
        }
    }
    out
}

/// Finds the end of the letter run starting at `from`.
fn letter_run_scan(s: &str, from: usize) -> (r: usize)
    requires
        from <= s@.len() + 1,
    ensures
        r as int == letter_run_end(s@, from as int),
        from <= r,
        r <= s@.len() || r == from,
{
    let n = s.unicode_len();
    if from >= n {
        return from;
    }
    let mut e = from;
    while e < n
        invariant
            from <= e <= n,
            n == s@.len(),
            letter_run_end(s@, from as int) == letter_run_end(s@, e as int),
        decreases n - e,
    {
        let u = s.get_char(e) as u32;
        if !(0x41 <= u && u <= 0x7a) {
            return e;
        }
        e += 1;
    }
    e
}

} // verus!
