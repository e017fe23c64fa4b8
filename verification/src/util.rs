//! Small helpers shared across the library, and the file-name grammar:
//! extracting the extension, the bare name, and the final path component.

use vstd::prelude::*;

use crate::text::find_char;
use crate::text::find_char_at;
use crate::text::rfind_char;
use crate::text::rfind_char_before;

verus! {

/// What `replace_if_not_none` returns, as a function of its inputs.
pub open spec fn replace_if_not_none_spec(default: Seq<char>, replacement: Option<Seq<char>>) -> Seq<char> {
    match replacement {
        Some(s) => s,
        None => default,
    }
}

/// Returns the replacement value when one is present, the default text otherwise.
pub fn replace_if_not_none(default: &str, replacement_val: &Option<String>) -> (r: String)
    ensures
        r@ == replace_if_not_none_spec(default@, replacement_val.deep_view()),
{
    match replacement_val {
        Some(s) => s.clone(),
        None => String::from_str(default),
    }
}

/// Clones an optional string.
pub fn clone_opt_string(o: &Option<String>) -> (r: Option<String>)
    ensures
        r.deep_view() == o.deep_view(),
{
    match o {
        Some(s) => Some(s.clone()),
        None => None,
    }
}

// ---------------------------------------------------------------------------
// the file-name grammar
// ---------------------------------------------------------------------------

/// The extension of a file name: everything after the first `.`, up to the
/// end of the name's first line.  `file.ui.qml` has extension `ui.qml`.
pub open spec fn extension_spec(s: Seq<char>) -> Option<Seq<char>> {
    let dot = find_char_at(s, '.', 0);
    if dot < s.len() {
        Some(s.subrange(dot + 1, find_char_at(s, '\n', dot + 1)))
    } else {
        None
    }
}

/// Extracts the extension of a file name, when it has one.
pub fn extract_extension_from_file_name(file: &str) -> (r: Option<String>)
    ensures
        match r {
            Some(e) => extension_spec(file@) == Some(e@),
            None => extension_spec(file@) is None,
        },
{
    let n = file.unicode_len();
    let dot = find_char(file, '.', 0);
    if dot >= n {
        return None;
    }
    let nl = find_char(file, '\n', dot + 1);
    Some(String::from_str(file.substring_char(dot + 1, nl)))
}

/// A word character of a file name: an ASCII letter (or one of the few
/// punctuation marks between the capital and small letters) or a digit.
pub open spec fn is_word_char(c: char) -> bool {
    (0x41 <= c as u32 && c as u32 <= 0x7a) || (0x30 <= c as u32 && c as u32 <= 0x39)
}

/// First index at or after `i` not holding a word character; `s.len()` when none.
pub open spec fn word_end_at(s: Seq<char>, i: int) -> int
    decreases s.len() - i,
{
    if i < 0 || i >= s.len() {
        s.len() as int
    } else if !is_word_char(s[i]) {
        i
    } else {
        word_end_at(s, i + 1)
    }
}

/// The first word run of `s` (scanning from `p`) that a `.` immediately
/// follows; the run may be empty, as in a name that starts with its dot.
pub open spec fn name_run_spec(s: Seq<char>, p: int) -> Option<Seq<char>>
    decreases s.len() - p,
{
    if p < 0 || p >= s.len() {
        None
    } else {
        let e = word_end_at(s, p);
        if p <= e && e < s.len() && s[e] == '.' {
            Some(s.subrange(p, e))
        } else if e >= s.len() || e < p {
            None
        } else {
            name_run_spec(s, e + 1)
        }
    }
}

/// Extracts the bare file name: the word run that the first dot closes.
/// `file.ui.qml` gives `file`; a name without a dot gives nothing.
pub fn remove_extensions_from_file_name(file: &str) -> (r: Option<String>)
    ensures
        match r {
            Some(t) => name_run_spec(file@, 0) == Some(t@),
            None => name_run_spec(file@, 0) is None,
        },
{
    let n = file.unicode_len();
    let mut p: usize = 0;
    while p < n
        invariant
            p <= n,
            n == file@.len(),
            name_run_spec(file@, 0) == name_run_spec(file@, p as int),
        decreases n - p,
    {
        let e = word_end(file, p);
        if e < n && file.get_char(e) == '.' {
            return Some(String::from_str(file.substring_char(p, e)));
        } else if e >= n {
            return None;
        }
        p = e + 1;
    }
    None
}

/// Finds the end of the word run starting at `from`.
fn word_end(file: &str, from: usize) -> (r: usize)
    requires
        from <= file@.len(),
    ensures
        r == word_end_at(file@, from as int),
        from <= r <= file@.len(),
{
    let n = file.unicode_len();
    let mut e = from;
    while e < n
        invariant
            from <= e <= n,
            n == file@.len(),
            word_end_at(file@, from as int) == word_end_at(file@, e as int),
        decreases n - e,
    {
        let c = file.get_char(e);
        let u = c as u32;
        if !((0x41 <= u && u <= 0x7a) || (0x30 <= u && u <= 0x39)) {
            return e;
        }
        e += 1;
    }
    e
}

/// The final component of a path: everything after the last `/`.
/// A path that ends in `/` has none.
pub open spec fn path_file_spec(s: Seq<char>) -> Option<Seq<char>> {
    let k = rfind_char_before(s, '/', s.len() as int);
    if k + 1 < s.len() {
        Some(s.subrange(k + 1, s.len() as int))
    } else {
        None
    }
}

/// Extracts the file name (with extension) from a path.
pub fn extract_file_name_and_extension_from_path(file: &str) -> (r: Option<String>)
    ensures
        match r {
            Some(t) => path_file_spec(file@) == Some(t@),
            None => path_file_spec(file@) is None,
        },
{
    let n = file.unicode_len();
    let start = match rfind_char(file, '/', n) {
        Some(k) => k + 1,
        None => 0,
    };
    if start < n {
        Some(String::from_str(file.substring_char(start, n)))
    } else {
        None
    }
}

} // verus!
