//! The tokenizer: finds the spans of bracket-delimited tokens in template
//! text.  A token is written `[]NAME[]` or `[]NAME{params}[]`; the parameter
//! section may itself hold balanced `{}` pairs.  The scanner is a small state
//! machine over the characters of the text; its exact transition relation is
//! the specification `scan_from`, and both entry points are proved equal to
//! it.  All indices are character offsets.

use vstd::prelude::*;

verus! {

pub struct Parser;

/// The span of one found token: character offsets, end exclusive.
#[derive(Debug, Eq, PartialEq, Clone)]
pub struct FoundToken {
    pub start: usize,
    pub end: usize,
}

impl View for FoundToken {
    type V = (int, int);

    open spec fn view(&self) -> (int, int) {
        (self.start as int, self.end as int)
    }
}

impl DeepView for FoundToken {
    type V = (int, int);

    open spec fn deep_view(&self) -> (int, int) {
        self.view()
    }
}

/// A name character: an ASCII letter or an underscore.
pub open spec fn is_name_char(c: char) -> bool {
    (0x41 <= c as u32 && c as u32 <= 0x5a) || (0x61 <= c as u32 && c as u32 <= 0x7a) || c == '_'
}

/// The scanner's state between characters.
pub ghost struct ScanState {
    /// An opening square bracket was seen and not yet cancelled.
    pub open_square: bool,
    /// A `[]` pair was closed and a token attempt is in progress.
    pub in_token: bool,
    /// Inside the `{...}` parameter section of the attempt.
    pub in_params: bool,
    /// How many user `{` pairs are open inside the parameter section.
    pub depth: nat,
    /// Where the current attempt started.
    pub start: int,
}

pub open spec fn scan_init() -> ScanState {
    ScanState { open_square: false, in_token: false, in_params: false, depth: 0, start: 0 }
}

/// One transition of the scanner on character `c` at index `i`, for the case
/// where no token is completed at `i`.
pub open spec fn scan_step(st: ScanState, c: char, i: int) -> ScanState {
    if c == '{' {
        if st.in_params {
            ScanState { depth: st.depth + 1, ..st }
        } else if st.in_token {
            ScanState { in_params: true, ..st }
        } else {
            st
        }
    } else if c == '}' {
        if st.in_params {
            if st.depth != 0 {
                ScanState { depth: (st.depth - 1) as nat, ..st }
            } else {
                ScanState { in_params: false, ..st }
            }
        } else {
            st
        }
    } else if c == '[' {
        ScanState { open_square: true, start: if !st.in_token { i } else { st.start }, ..st }
    } else if c == ']' {
        if st.open_square {
            ScanState { in_token: true, ..st }
        } else if !st.in_params {
            ScanState { open_square: false, in_token: false, ..st }
        } else {
            st
        }
    } else if st.in_params {
        st
    } else {
        ScanState {
            open_square: false,
            in_token: if !is_name_char(c) && st.in_token {
                false
            } else {
                st.in_token
            },
            ..st
        }
    }
}

/// Whether the scanner completes a token at index `i`: a `]` closing a `[]`
/// pair while a token attempt is open and outside the parameter section.
pub open spec fn scan_hits(st: ScanState, c: char) -> bool {
    c == ']' && st.open_square && st.in_token && !st.in_params
}

/// The first token span found scanning `s` from index `i` in state `st`.
pub open spec fn scan_from(s: Seq<char>, i: int, st: ScanState) -> Option<(int, int)>
    decreases s.len() - i,
{
    if i < 0 || i >= s.len() {
        None
    } else if scan_hits(st, s[i]) {
        Some((st.start, i + 1))
    } else {
        scan_from(s, i + 1, scan_step(st, s[i], i))
    }
}

/// The span of the first token of `s`, if any.
pub open spec fn find_first_token_spec(s: Seq<char>) -> Option<(int, int)> {
    scan_from(s, 0, scan_init())
}

/// A found span lies within the text, starts no earlier than the scan state's
/// candidate start, and is nonempty.
pub proof fn lemma_scan_bounds(s: Seq<char>, i: int, st: ScanState)
    requires
        0 <= i <= s.len(),
        0 <= st.start <= i,
    ensures
        match scan_from(s, i, st) {
            Some((a, b)) => 0 <= a < b <= s.len(),
            None => true,
        },
    decreases s.len() - i,
{
    if i < s.len() && !scan_hits(st, s[i]) {
        lemma_scan_bounds(s, i + 1, scan_step(st, s[i], i));
    }
}

/// Without a `]` ahead the scanner finds nothing.
pub proof fn lemma_scan_no_close(s: Seq<char>, i: int, st: ScanState)
    requires
        forall|j: int| i <= j < s.len() ==> s[j] != ']',
    ensures
        scan_from(s, i, st) is None,
    decreases s.len() - i,
{
    if 0 <= i && i < s.len() {
        lemma_scan_no_close(s, i + 1, scan_step(st, s[i], i));
    }
}

/// Without a `[` ahead, a scanner that has not already seen one finds nothing:
/// only `[` raises the flag that lets a `]` close a token.
pub proof fn lemma_scan_no_open(s: Seq<char>, i: int, st: ScanState)
    requires
        forall|j: int| i <= j < s.len() ==> s[j] != '[',
        !st.open_square,
    ensures
        scan_from(s, i, st) is None,
    decreases s.len() - i,
{
    if 0 <= i && i < s.len() {
        lemma_scan_no_open(s, i + 1, scan_step(st, s[i], i));
    }
}

/// All spans found in `s`, each shifted by `offset`, scanning remainders in turn.
pub open spec fn find_all_spec(s: Seq<char>, offset: int) -> Seq<(int, int)>
    decreases s.len(),
{
    match find_first_token_spec(s) {
        None => Seq::empty(),
        Some((a, b)) => if 0 <= a < b <= s.len() {
            seq![(a + offset, b + offset)] + find_all_spec(
                s.subrange(b, s.len() as int),
                offset + b,
            )
        } else {
            Seq::empty()
        },
    }
}

/// Every span lies between `offset` and `offset + len`, is nonempty, and the
/// spans are strictly ordered without overlap.
pub open spec fn spans_ok(spans: Seq<(int, int)>, offset: int, len: int) -> bool {
    &&& forall|k: int|
        0 <= k < spans.len() ==> offset <= (#[trigger] spans[k]).0 < spans[k].1 <= offset + len
    &&& forall|k: int, j: int|
        0 <= k < j < spans.len() ==> (#[trigger] spans[k]).1 <= (#[trigger] spans[j]).0
}

/// Spans reported by `find_all_spec` are in bounds, nonempty, strictly
/// ordered and non-overlapping: the scan of each remainder never reaches
/// back into text already consumed.
pub proof fn lemma_find_all_props(s: Seq<char>, offset: int)
    ensures
        spans_ok(find_all_spec(s, offset), offset, s.len() as int),
    decreases s.len(),
{
    match find_first_token_spec(s) {
        None => {},
        Some((a, b)) => {
            if 0 <= a < b <= s.len() {
                let tail_s = s.subrange(b, s.len() as int);
                lemma_find_all_props(tail_s, offset + b);
                let all = find_all_spec(s, offset);
                let tail = find_all_spec(tail_s, offset + b);
                assert(all == seq![(a + offset, b + offset)] + tail);
                assert forall|k: int|
                    0 <= k < all.len() implies offset <= (#[trigger] all[k]).0 < all[k].1 <= offset
                    + s.len() by {
                    if k > 0 {
                        assert(all[k] == tail[k - 1]);
                        assert(offset + b <= tail[k - 1].0 < tail[k - 1].1 <= offset + b
                            + tail_s.len());
                    }
                }
                assert forall|k: int, j: int|
                    0 <= k < j < all.len() implies (#[trigger] all[k]).1 <= (
                #[trigger] all[j]).0 by {
                    assert(all[j] == tail[j - 1]);
                    assert(offset + b <= tail[j - 1].0);
                    if k > 0 {
                        assert(all[k] == tail[k - 1]);
                    }
                }
            }
        },
    }
}

impl Parser {
    /// Scans `string` for the first token span.
    pub fn find_first_token(string: &str) -> (r: Option<FoundToken>)
        ensures
            match r {
                None => find_first_token_spec(string@) is None,
                Some(t) => {
                    &&& find_first_token_spec(string@) == Some((t.start as int, t.end as int))
                    &&& t.start < t.end <= string@.len()
                },
            },
    {
        let n = string.unicode_len();
        let mut open_square_bracket_found: bool = false;
        let mut is_in_token: bool = false;
        let mut is_in_parameters: bool = false;
        let mut user_curly_brackets_count: usize = 0;
        let mut start_index: usize = 0;
        let mut index: usize = 0;

        proof {
            lemma_scan_bounds(string@, 0, scan_init());
        }
        while index < n
            invariant
                index <= n,
                n == string@.len(),
                start_index <= index,
                user_curly_brackets_count <= index,
                find_first_token_spec(string@) == scan_from(
                    string@,
                    index as int,
                    ScanState {
                        open_square: open_square_bracket_found,
                        in_token: is_in_token,
                        in_params: is_in_parameters,
                        depth: user_curly_brackets_count as nat,
                        start: start_index as int,
                    },
                ),
            decreases n - index,
        {
            let ghost st = ScanState {
                open_square: open_square_bracket_found,
                in_token: is_in_token,
                in_params: is_in_parameters,
                depth: user_curly_brackets_count as nat,
                start: start_index as int,
            };
            let character = string.get_char(index);
            proof {
                lemma_scan_bounds(string@, index as int, st);
            }
            if character == '{' {
                if is_in_parameters {
                    user_curly_brackets_count += 1;
                } else if is_in_token {
                    is_in_parameters = true;
                }
            } else if character == '}' {
                if is_in_parameters {
                    if user_curly_brackets_count != 0 {
                        user_curly_brackets_count -= 1;
                    } else {
                        is_in_parameters = false;
                    }
                }
            } else if character == '[' {
                open_square_bracket_found = true;
                if !is_in_token {
                    start_index = index;
                }
            } else if character == ']' {
                if open_square_bracket_found {
                    if is_in_token && !is_in_parameters {
                        return Some(FoundToken { start: start_index, end: index + 1 });
                    } else {
                        is_in_token = true;
                    }
                } else if !is_in_parameters {
                    open_square_bracket_found = false;
                    is_in_token = false;
                }
            } else if !is_in_parameters {
                if !(Parser::is_name_character(character)) && is_in_token {
                    is_in_token = false;
                }
                open_square_bracket_found = false;
            }
            index += 1;
        }
        None
    }

    /// Whether `c` may appear in a token name: an ASCII letter or `_`.
    fn is_name_character(c: char) -> (r: bool)
        ensures
            r == is_name_char(c),
    {
        let u = c as u32;
        (0x41 <= u && u <= 0x5a) || (0x61 <= u && u <= 0x7a) || c == '_'
    }

    /// Scans `string` repeatedly, each time resuming just after the previous
    /// match, and returns every span found, in absolute character offsets.
    /// The spans are strictly increasing and non-overlapping.
    pub fn find_all_tokens(string: &str) -> (r: Vec<FoundToken>)
        ensures
            r.deep_view() == find_all_spec(string@, 0),
            forall|k: int|
                0 <= k < r.len() ==> (#[trigger] r[k]).start < r[k].end <= string@.len(),
            forall|k: int, j: int|
                0 <= k < j < r.len() ==> (#[trigger] r[k]).end <= (#[trigger] r[j]).start,
    {
        let n = string.unicode_len();
        let mut found_tokens: Vec<FoundToken> = Vec::new();
        let mut rest: &str = string;
        let mut offset: usize = 0;

        proof {
            assert(found_tokens.deep_view() =~= Seq::<(int, int)>::empty());
            assert(Seq::<(int, int)>::empty() + find_all_spec(string@, 0) =~= find_all_spec(
                string@,
                0,
            ));
        }
        loop
            invariant
                offset + rest@.len() <= n,
                n == string@.len(),
                find_all_spec(string@, 0) == found_tokens.deep_view() + find_all_spec(
                    rest@,
                    offset as int,
                ),
                forall|k: int|
                    0 <= k < found_tokens.len() ==> (#[trigger] found_tokens[k]).start
                        < found_tokens[k].end <= offset,
                forall|k: int, j: int|
                    0 <= k < j < found_tokens.len() ==> (#[trigger] found_tokens[k]).end <= (
                    #[trigger] found_tokens[j]).start,
            decreases rest@.len(),
        {
            let ghost old_dv = found_tokens.deep_view();
            let first_token = Parser::find_first_token(rest);
            match first_token {
                None => {
                    proof {
                        assert(find_all_spec(rest@, offset as int) =~= Seq::<(int, int)>::empty());
                        assert(found_tokens.deep_view() + Seq::<(int, int)>::empty()
                            =~= found_tokens.deep_view());
                    }
                    return found_tokens;
                },
                Some(token) => {
                    let rest_len = rest.unicode_len();
                    let absolute = FoundToken {
                        start: offset + token.start,
                        end: offset + token.end,
                    };
                    found_tokens.push(absolute);
                    let new_rest = rest.substring_char(token.end, rest_len);
                    proof {
                        assert(found_tokens.deep_view() =~= old_dv + seq![
                            (absolute.start as int, absolute.end as int),
                        ]);
                        assert(find_all_spec(rest@, offset as int) == seq![
                            (absolute.start as int, absolute.end as int),
                        ] + find_all_spec(new_rest@, offset as int + token.end as int));
                        assert((old_dv + seq![(absolute.start as int, absolute.end as int)])
                            + find_all_spec(new_rest@, offset as int + token.end as int) =~= old_dv
                            + (seq![(absolute.start as int, absolute.end as int)] + find_all_spec(
                            new_rest@,
                            offset as int + token.end as int,
                        )));
                    }
                    offset += token.end;
                    rest = new_rest;
                },
            }
        }
    }
}

} // verus!
