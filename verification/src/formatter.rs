//! Case transforms and the formatting pipeline: a running value seeded from a
//! base string, processed left to right through suffix-removal (`-`),
//! append (`+`) and named case-transform operations.

use vstd::prelude::*;

use crate::text::push_char;
use crate::text::trim;
use crate::text::trim_spec;

verus! {

broadcast use vstd::string::group_string_axioms;

// ---------------------------------------------------------------------------
// named results of the standard library's Unicode case mappings
// ---------------------------------------------------------------------------

/// The first character of `char::to_uppercase`'s mapping of `c`.
pub uninterp spec fn upper_first_of(c: char) -> char;

/// The full mapping of `c` under `char::to_lowercase`.
pub uninterp spec fn lower_seq_of(c: char) -> Seq<char>;

/// The text under `str::to_lowercase`.
pub uninterp spec fn lower_of(s: Seq<char>) -> Seq<char>;

/// Relies on `char::to_uppercase`: yields the uppercase mapping of `c` as
/// one or more characters, a function of `c` alone; this takes the first.
#[verifier::external_body]
fn char_upper_first(c: char) -> (r: char)
    ensures
        r == upper_first_of(c),
{
    c.to_uppercase().next().unwrap()
}

/// Relies on `char::to_lowercase`: yields the lowercase mapping of `c` as
/// one or more characters, a function of `c` alone.
#[verifier::external_body]
fn char_lower_string(c: char) -> (r: String)
    ensures
        r@ == lower_seq_of(c),
        r@.len() >= 1,
{
    c.to_lowercase().collect()
}

/// Relies on `str::to_lowercase`: the result depends on the characters
/// alone, and an empty string stays empty.
#[verifier::external_body]
fn str_lower(s: &str) -> (r: String)
    ensures
        r@ == lower_of(s@),
        s@.len() == 0 ==> r@.len() == 0,
{
    s.to_lowercase()
}

// ---------------------------------------------------------------------------
// ASCII case folding
// ---------------------------------------------------------------------------

/// ASCII-uppercases one character: `a`..`z` map to `A`..`Z`, all else passes.
pub open spec fn to_ascii_upper_char(c: char) -> char {
    if 0x61 <= c as u32 && c as u32 <= 0x7a {
        (c as u32 - 0x20) as u32 as char
    } else {
        c
    }
}

fn ascii_uppercase(c: char) -> (r: char)
    ensures
        r == to_ascii_upper_char(c),
{
    match c {
        'a' => 'A',
        'b' => 'B',
        'c' => 'C',
        'd' => 'D',
        'e' => 'E',
        'f' => 'F',
        'g' => 'G',
        'h' => 'H',
        'i' => 'I',
        'j' => 'J',
        'k' => 'K',
        'l' => 'L',
        'm' => 'M',
        'n' => 'N',
        'o' => 'O',
        'p' => 'P',
        'q' => 'Q',
        'r' => 'R',
        's' => 'S',
        't' => 'T',
        'u' => 'U',
        'v' => 'V',
        'w' => 'W',
        'x' => 'X',
        'y' => 'Y',
        'z' => 'Z',
        _ => c,
    }
}

// ---------------------------------------------------------------------------
// the transforms
// ---------------------------------------------------------------------------

/// The whole string ASCII-uppercased, as `str::make_ascii_uppercase` folds it.
pub open spec fn caps_spec(s: Seq<char>) -> Seq<char> {
    s.map_values(|c: char| to_ascii_upper_char(c))
}

/// Every `c` in `s` replaced by `sep`; other characters pass through.
/// Splitting on `c` and rejoining with `sep` produces exactly this.
pub open spec fn replace_char_spec(s: Seq<char>, c: char, sep: Seq<char>) -> Seq<char>
    decreases s.len(),
{
    if s.len() == 0 {
        Seq::empty()
    } else if s[0] == c {
        sep + replace_char_spec(s.drop_first(), c, sep)
    } else {
        seq![s[0]] + replace_char_spec(s.drop_first(), c, sep)
    }
}

/// The tail of the Pascal-case transform: each `_` is consumed and the
/// following character uppercased; everything else passes through.
pub open spec fn pascal_tail_spec(s: Seq<char>, was_underscore: bool) -> Seq<char>
    decreases s.len(),
{
    if s.len() == 0 {
        Seq::empty()
    } else if s[0] == '_' {
        pascal_tail_spec(s.drop_first(), true)
    } else if was_underscore {
        seq![upper_first_of(s[0])] + pascal_tail_spec(s.drop_first(), false)
    } else {
        seq![s[0]] + pascal_tail_spec(s.drop_first(), false)
    }
}

/// Pascal case: the first character uppercased, then each `_` consumed with
/// the following character uppercased.  Empty text stays empty.
pub open spec fn pascal_spec(s: Seq<char>) -> Seq<char> {
    if s.len() == 0 {
        Seq::empty()
    } else {
        seq![upper_first_of(s[0])] + pascal_tail_spec(s.drop_first(), false)
    }
}

/// Camel case: Pascal case with the first character's lowercase mapping.
pub open spec fn camel_spec(s: Seq<char>) -> Seq<char> {
    let p = pascal_spec(s);
    if p.len() == 0 {
        Seq::empty()
    } else {
        lower_seq_of(p[0]) + p.drop_first()
    }
}

/// Formats to Pascal case.  Empty text stays empty rather than being an
/// error.
pub fn string_in_pascal_case(string: &str) -> (r: String)
    ensures
        r@ == pascal_spec(string@),
{
    let n = string.unicode_len();
    let mut formatted_name = String::new();
    if n == 0 {
        return formatted_name;
    }
    push_char(&mut formatted_name, char_upper_first(string.get_char(0)));
    let mut was_last_character_a_underscore = false;
    let mut i: usize = 1;
    proof {
        assert(formatted_name@ =~= seq![upper_first_of(string@[0])]);
        assert(pascal_spec(string@) == formatted_name@ + pascal_tail_spec(string@.skip(1), false));
    }
    while i < n
        invariant
            1 <= i <= n,
            n == string@.len(),
            pascal_spec(string@) == formatted_name@ + pascal_tail_spec(
                string@.skip(i as int),
                was_last_character_a_underscore,
            ),
        decreases n - i,
    {
        let ghost pre = formatted_name@;
        let ghost rest = string@.skip(i as int);
        proof {
            assert(rest.drop_first() =~= string@.skip(i as int + 1));
            assert(rest[0] == string@[i as int]);
        }
        let character = string.get_char(i);
        if character == '_' {
            was_last_character_a_underscore = true;
        } else {
            if was_last_character_a_underscore {
                push_char(&mut formatted_name, char_upper_first(character));
                proof {
                    assert(pre + (seq![upper_first_of(character)] + pascal_tail_spec(
                        string@.skip(i as int + 1),
                        false,
                    )) =~= pre.push(upper_first_of(character)) + pascal_tail_spec(
                        string@.skip(i as int + 1),
                        false,
                    ));
                }
            } else {
                push_char(&mut formatted_name, character);
                proof {
                    assert(pre + (seq![character] + pascal_tail_spec(
                        string@.skip(i as int + 1),
                        false,
                    )) =~= pre.push(character) + pascal_tail_spec(
                        string@.skip(i as int + 1),
                        false,
                    ));
                }
            }
            was_last_character_a_underscore = false;
        }
        i += 1;
    }
    proof {
        assert(string@.skip(n as int) =~= Seq::<char>::empty());
        assert(formatted_name@ + Seq::<char>::empty() =~= formatted_name@);
    }
    formatted_name
}

/// Formats to all capitals, folding only ASCII letters.
pub fn string_in_all_caps(string: &str) -> (r: String)
    ensures
        r@ == caps_spec(string@),
{
    let n = string.unicode_len();
    let mut name = String::new();
    let mut i: usize = 0;
    proof {
        assert(name@ =~= string@.take(0).map_values(|c: char| to_ascii_upper_char(c)));
    }
    while i < n
        invariant
            i <= n,
            n == string@.len(),
            name@ == string@.take(i as int).map_values(|c: char| to_ascii_upper_char(c)),
        decreases n - i,
    {
        push_char(&mut name, ascii_uppercase(string.get_char(i)));
        proof {
            assert(string@.take(i as int + 1).map_values(|c: char| to_ascii_upper_char(c))
                =~= string@.take(i as int).map_values(|c: char| to_ascii_upper_char(c)).push(
                to_ascii_upper_char(string@[i as int]),
            ));
        }
        i += 1;
    }
    proof {
        assert(string@.take(n as int) =~= string@);
    }
    name
}

/// Formats to all lowercase, by Unicode case folding.
pub fn string_in_all_lowercase(string: &str) -> (r: String)
    ensures
        r@ == lower_of(string@),
{
    str_lower(string)
}

/// Replaces each `_` with a single space.
pub fn string_split_into_spaces(string: &str) -> (r: String)
    ensures
        r@ == replace_char_spec(string@, '_', seq![' ']),
{
    replace_underscores(string, ' ')
}

/// Formats to camel case: Pascal case, then the first character lowercased.
pub fn string_in_camel_case(string: &str) -> (r: String)
    ensures
        r@ == camel_spec(string@),
{
    let pascal_case = string_in_pascal_case(string);
    let p = pascal_case.as_str();
    let p_len = p.unicode_len();
    if p_len == 0 {
        return String::new();
    }
    let head = char_lower_string(p.get_char(0));
    let rest = p.substring_char(1, p_len);
    head.concat(rest)
}

/// Replaces each `_` with a dash.
pub fn string_in_kebob_case(string: &str) -> (r: String)
    ensures
        r@ == replace_char_spec(string@, '_', seq!['-']),
{
    replace_underscores(string, '-')
}

/// Replaces each `_` of `string` with the character `sep`.
fn replace_underscores(string: &str, sep: char) -> (r: String)
    ensures
        r@ == replace_char_spec(string@, '_', seq![sep]),
{
    let n = string.unicode_len();
    let mut out = String::new();
    let mut i: usize = 0;
    proof {
        assert(string@.skip(0) =~= string@);
        assert(out@ + replace_char_spec(string@, '_', seq![sep]) =~= replace_char_spec(
            string@,
            '_',
            seq![sep],
        ));
    }
    while i < n
        invariant
            i <= n,
            n == string@.len(),
            replace_char_spec(string@, '_', seq![sep]) == out@ + replace_char_spec(
                string@.skip(i as int),
                '_',
                seq![sep],
            ),
        decreases n - i,
    {
        let ghost pre = out@;
        let ghost rest = string@.skip(i as int);
        proof {
            assert(rest.drop_first() =~= string@.skip(i as int + 1));
            assert(rest[0] == string@[i as int]);
        }
        let character = string.get_char(i);
        if character == '_' {
            push_char(&mut out, sep);
            proof {
                assert(pre + (seq![sep] + replace_char_spec(string@.skip(i as int + 1), '_', seq![
                    sep,
                ])) =~= pre.push(sep) + replace_char_spec(string@.skip(i as int + 1), '_', seq![
                    sep,
                ]));
            }
        } else {
            push_char(&mut out, character);
            proof {
                assert(pre + (seq![character] + replace_char_spec(
                    string@.skip(i as int + 1),
                    '_',
                    seq![sep],
                )) =~= pre.push(character) + replace_char_spec(string@.skip(i as int + 1), '_', seq![
                    sep,
                ]));
            }
        }
        i += 1;
    }
    proof {
        assert(string@.skip(n as int) =~= Seq::<char>::empty());
        assert(out@ + Seq::<char>::empty() =~= out@);
    }
    out
}

// ---------------------------------------------------------------------------
// suffix removal
// ---------------------------------------------------------------------------

/// Whether `suffix` ends `s`.
pub open spec fn ends_with_spec(s: Seq<char>, suffix: Seq<char>) -> bool {
    s.len() >= suffix.len() && s.subrange(s.len() - suffix.len(), s.len() as int) == suffix
}

/// Removes `ending` from the end of `base`.  Succeeds exactly when `ending`
/// is a suffix of `base`; the two failure modes carry distinct messages.
pub fn subtract_ending_off_string(base: &str, ending: &str) -> (r: Result<String, String>)
    ensures
        match r {
            Ok(t) => {
                &&& ends_with_spec(base@, ending@)
                &&& t@ == base@.subrange(0, base@.len() - ending@.len())
            },
            Err(e) => {
                &&& !ends_with_spec(base@, ending@)
                &&& if base@.len() < ending@.len() {
                    e@ == "Subtracting an ending that is longer than the base. "@
                } else {
                    e@ == "Subtracting an ending that doesn't exist. "@
                }
            },
        },
{
    let n = base.unicode_len();
    let m = ending.unicode_len();
    if n < m {
        return Err(String::from_str("Subtracting an ending that is longer than the base. "));
    }
    let ending_start = n - m;
    let tail = base.substring_char(ending_start, n);
    if String::from_str(tail) == String::from_str(ending) {
        Ok(String::from_str(base.substring_char(0, ending_start)))
    } else {
        Err(String::from_str("Subtracting an ending that doesn't exist. "))
    }
}

// ---------------------------------------------------------------------------
// the pipeline
// ---------------------------------------------------------------------------

/// The pipeline fold over a running value: each operation is trimmed, then
/// applied in turn.  `-x` removes the suffix `x`, and where `x` is not a
/// suffix the pipeline stops early with the value as of the previous step;
/// `+x` appends `x`; a named transform folds the whole value; anything
/// else, an empty operation included, aborts the pipeline (`None`).  No
/// operations at all leave the running value as it stands.
pub open spec fn apply_ops_spec(cur: Seq<char>, ops: Seq<Seq<char>>) -> Option<Seq<char>>
    decreases ops.len(),
{
    if ops.len() == 0 {
        Some(cur)
    } else {
        let t = trim_spec(ops[0]);
        if t.len() == 0 {
            None
        } else if t[0] == '-' {
            let ending = t.drop_first();
            if ends_with_spec(cur, ending) {
                apply_ops_spec(cur.subrange(0, cur.len() - ending.len()), ops.drop_first())
            } else {
                Some(cur)
            }
        } else if t[0] == '+' {
            apply_ops_spec(cur + t.drop_first(), ops.drop_first())
        } else if t == "caps"@ {
            apply_ops_spec(caps_spec(cur), ops.drop_first())
        } else if t == "lower"@ {
            apply_ops_spec(lower_of(cur), ops.drop_first())
        } else if t == "spaced"@ {
            apply_ops_spec(replace_char_spec(cur, '_', seq![' ']), ops.drop_first())
        } else if t == "pascal"@ {
            apply_ops_spec(pascal_spec(cur), ops.drop_first())
        } else if t == "camel"@ {
            apply_ops_spec(camel_spec(cur), ops.drop_first())
        } else if t == "kabob"@ {
            apply_ops_spec(replace_char_spec(cur, '_', seq!['-']), ops.drop_first())
        } else {
            None
        }
    }
}

/// What `format_append_and_remove` yields: an empty operations list is
/// refused outright, any other list runs the pipeline fold.
pub open spec fn format_append_and_remove_spec(s: Seq<char>, ops: Seq<Seq<char>>) -> Option<
    Seq<char>,
> {
    if ops.len() == 0 {
        None
    } else {
        apply_ops_spec(s, ops)
    }
}

/// Runs the formatting pipeline over `string`.  `None` exactly when the
/// operations list is empty or the pipeline aborts on an unrecognized or
/// empty operation.
pub fn format_append_and_remove(string: &str, operations: &Vec<String>) -> (r: Option<String>)
    ensures
        match r {
            Some(t) => format_append_and_remove_spec(string@, operations.deep_view()) == Some(t@),
            None => format_append_and_remove_spec(string@, operations.deep_view()) is None,
        },
{
    if operations.len() == 0 {
        return None;
    }
    let ghost dv = operations.deep_view();
    let mut formatted_string = String::from_str(string);
    let mut i: usize = 0;
    proof {
        assert(dv.skip(0) =~= dv);
    }
    while i < operations.len()
        invariant
            i <= operations.len(),
            dv == operations.deep_view(),
            apply_ops_spec(string@, dv) == apply_ops_spec(formatted_string@, dv.skip(i as int)),
        decreases operations.len() - i,
    {
        let ghost rest = dv.skip(i as int);
        proof {
            assert(rest.drop_first() =~= dv.skip(i as int + 1));
            assert(rest[0] == dv[i as int]);
        }
        let variable = trim(operations[i].as_str());
        let v = variable.as_str();
        let v_len = v.unicode_len();
        if v_len == 0 {
            return None;
        }
        let first_char = v.get_char(0);
        if first_char == '-' {
            let ending = v.substring_char(1, v_len);
            proof {
                assert(ending@ =~= trim_spec(dv[i as int]).drop_first());
            }
            match subtract_ending_off_string(formatted_string.as_str(), ending) {
                Ok(subtracted_string) => {
                    formatted_string = subtracted_string;
                },
                Err(_) => {
                    return Some(formatted_string);
                },
            }
        } else if first_char == '+' {
            let addition = v.substring_char(1, v_len);
            proof {
                assert(addition@ =~= trim_spec(dv[i as int]).drop_first());
            }
            formatted_string = formatted_string.concat(addition);
        } else if variable == String::from_str("caps") {
            formatted_string = string_in_all_caps(formatted_string.as_str());
        } else if variable == String::from_str("lower") {
            formatted_string = string_in_all_lowercase(formatted_string.as_str());
        } else if variable == String::from_str("spaced") {
            formatted_string = string_split_into_spaces(formatted_string.as_str());
        } else if variable == String::from_str("pascal") {
            formatted_string = string_in_pascal_case(formatted_string.as_str());
        } else if variable == String::from_str("camel") {
            formatted_string = string_in_camel_case(formatted_string.as_str());
        } else if variable == String::from_str("kabob") {
            formatted_string = string_in_kebob_case(formatted_string.as_str());
        } else {
            return None;
        }
        i += 1;
    }
    proof {
        assert(dv.skip(operations.len() as int) =~= Seq::<Seq<char>>::empty());
    }
    Some(formatted_string)
}

/// The pipeline with a default transform prepended to the operations.
pub open spec fn apply_ops_with_default_spec(
    cur: Seq<char>,
    ops: Seq<Seq<char>>,
    default: Seq<char>,
) -> Option<Seq<char>> {
    apply_ops_spec(cur, seq![default] + ops)
}

/// Runs the pipeline with `default_formatting` applied before `operations`.
pub fn format_append_and_remove_but_ensure_formatted_to_type(
    string: &str,
    operations: &Vec<String>,
    default_formatting: String,
) -> (r: Option<String>)
    ensures
        match r {
            Some(t) => apply_ops_with_default_spec(
                string@,
                operations.deep_view(),
                default_formatting@,
            ) == Some(t@),
            None => apply_ops_with_default_spec(
                string@,
                operations.deep_view(),
                default_formatting@,
            ) is None,
        },
{
    let ghost d = default_formatting@;
    let mut with_default: Vec<String> = Vec::new();
    with_default.push(default_formatting);
    let mut i: usize = 0;
    proof {
        assert(with_default.deep_view() =~= seq![d] + operations.deep_view().take(0));
    }
    while i < operations.len()
        invariant
            i <= operations.len(),
            with_default.deep_view() == seq![d] + operations.deep_view().take(i as int),
        decreases operations.len() - i,
    {
        let ghost pre = with_default.deep_view();
        with_default.push(operations[i].clone());
        proof {
            assert(with_default.deep_view() =~= pre.push(operations.deep_view()[i as int]));
            assert((seq![d] + operations.deep_view().take(i as int)).push(
                operations.deep_view()[i as int],
            ) =~= seq![d] + operations.deep_view().take(i as int + 1));
        }
        i += 1;
    }
    proof {
        assert(operations.deep_view().take(operations.len() as int) =~= operations.deep_view());
    }
    format_append_and_remove(string, &with_default)
}

} // verus!
