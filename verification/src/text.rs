//! Character-sequence helpers: searching, splitting, joining, trimming and
//! repetition, with exact specifications over `Seq<char>`.

use vstd::prelude::*;

verus! {

// ---------------------------------------------------------------------------
// searching
// ---------------------------------------------------------------------------

/// Index of the first occurrence of `c` in `s` at or after `i`; `s.len()` when absent.
pub open spec fn find_char_at(s: Seq<char>, c: char, i: int) -> int
    decreases s.len() - i,
{
    if i < 0 || i >= s.len() {
        s.len() as int
    } else if s[i] == c {
        i
    } else {
        find_char_at(s, c, i + 1)
    }
}

pub proof fn lemma_find_char_at(s: Seq<char>, c: char, i: int)
    requires
        0 <= i <= s.len(),
    ensures
        i <= find_char_at(s, c, i) <= s.len(),
        find_char_at(s, c, i) < s.len() ==> s[find_char_at(s, c, i)] == c,
        forall|j: int| i <= j < find_char_at(s, c, i) ==> s[j] != c,
    decreases s.len() - i,
{
    if i < s.len() && s[i] != c {
        lemma_find_char_at(s, c, i + 1);
    }
}

/// Searching the tail `s[start..]` from `j` mirrors searching `s` from `start + j`.
pub proof fn lemma_find_char_shift(s: Seq<char>, c: char, start: int, j: int)
    requires
        0 <= start <= s.len(),
        0 <= j <= s.len() - start,
    ensures
        find_char_at(s.subrange(start, s.len() as int), c, j) == find_char_at(s, c, start + j)
            - start,
    decreases s.len() - start - j,
{
    let rest = s.subrange(start, s.len() as int);
    if j < rest.len() && rest[j] != c {
        lemma_find_char_shift(s, c, start, j + 1);
    }
}

/// Index of the last occurrence of `c` strictly before `j`; `-1` when absent.
pub open spec fn rfind_char_before(s: Seq<char>, c: char, j: int) -> int
    decreases j,
{
    if j <= 0 || j > s.len() {
        -1
    } else if s[j - 1] == c {
        j - 1
    } else {
        rfind_char_before(s, c, j - 1)
    }
}

pub proof fn lemma_rfind_char_before(s: Seq<char>, c: char, j: int)
    requires
        0 <= j <= s.len(),
    ensures
        -1 <= rfind_char_before(s, c, j) < j,
        rfind_char_before(s, c, j) >= 0 ==> s[rfind_char_before(s, c, j)] == c,
        forall|k: int| rfind_char_before(s, c, j) < k < j ==> s[k] != c,
    decreases j,
{
    if j > 0 && s[j - 1] != c {
        lemma_rfind_char_before(s, c, j - 1);
    }
}

/// Finds the last occurrence of `c` strictly before index `j`.
pub fn rfind_char(s: &str, c: char, j: usize) -> (r: Option<usize>)
    requires
        j <= s@.len(),
    ensures
        match r {
            Some(k) => k as int == rfind_char_before(s@, c, j as int) && k < j,
            None => rfind_char_before(s@, c, j as int) == -1,
        },
{
    let mut t = j;
    while t > 0
        invariant
            t <= j,
            j <= s@.len(),
            rfind_char_before(s@, c, j as int) == rfind_char_before(s@, c, t as int),
        decreases t,
    {
        if s.get_char(t - 1) == c {
            return Some(t - 1);
        }
        t -= 1;
    }
    None
}

/// First index at or after `i` where the three-character group separator
/// `|||` begins; `s.len()` when there is none.
pub open spec fn find_pipes_at(s: Seq<char>, i: int) -> int
    decreases s.len() - i,
{
    if i < 0 || i + 3 > s.len() {
        s.len() as int
    } else if s[i] == '|' && s[i + 1] == '|' && s[i + 2] == '|' {
        i
    } else {
        find_pipes_at(s, i + 1)
    }
}

pub proof fn lemma_find_pipes_at(s: Seq<char>, i: int)
    requires
        0 <= i <= s.len(),
    ensures
        i <= find_pipes_at(s, i) <= s.len(),
        find_pipes_at(s, i) < s.len() ==> find_pipes_at(s, i) + 3 <= s.len(),
    decreases s.len() - i,
{
    if !(i + 3 > s.len()) && !(s[i] == '|' && s[i + 1] == '|' && s[i + 2] == '|') {
        lemma_find_pipes_at(s, i + 1);
    }
}

/// Searching the tail `s[start..]` from `j` mirrors searching `s` from `start + j`.
pub proof fn lemma_find_pipes_shift(s: Seq<char>, start: int, j: int)
    requires
        0 <= start <= s.len(),
        0 <= j <= s.len() - start,
    ensures
        find_pipes_at(s.subrange(start, s.len() as int), j) == find_pipes_at(s, start + j) - start,
    decreases s.len() - start - j,
{
    let rest = s.subrange(start, s.len() as int);
    if !(j + 3 > rest.len()) && !(rest[j] == '|' && rest[j + 1] == '|' && rest[j + 2] == '|') {
        lemma_find_pipes_shift(s, start, j + 1);
    }
}

/// Finds the first occurrence of `c` in `s` at or after `from`,
/// returning the character index, or the length of `s` when absent.
pub fn find_char(s: &str, c: char, from: usize) -> (r: usize)
    requires
        from <= s@.len(),
    ensures
        r == find_char_at(s@, c, from as int),
        from <= r <= s@.len(),
{
    let n = s.unicode_len();
    let mut i = from;
    while i < n
        invariant
            from <= i <= n,
            n == s@.len(),
            find_char_at(s@, c, from as int) == find_char_at(s@, c, i as int),
        decreases n - i,
    {
        if s.get_char(i) == c {
            return i;
        }
        i += 1;
    }
    i
}

/// Finds the first `|||` in `s` at or after `from`, returning the character
/// index of its first pipe, or the length of `s` when there is none.
pub fn find_pipes(s: &str, from: usize) -> (r: usize)
    requires
        from <= s@.len(),
    ensures
        r == find_pipes_at(s@, from as int),
        from <= r <= s@.len(),
{
    proof {
        lemma_find_pipes_at(s@, from as int);
    }
    let n = s.unicode_len();
    let mut i = from;
    while i < n
        invariant
            from <= i <= n,
            n == s@.len(),
            find_pipes_at(s@, from as int) == find_pipes_at(s@, i as int),
        decreases n - i,
    {
        if n - i >= 3 && s.get_char(i) == '|' && s.get_char(i + 1) == '|' && s.get_char(i + 2)
            == '|' {
            return i;
        }
        i += 1;
    }
    i
}

// ---------------------------------------------------------------------------
// splitting
// ---------------------------------------------------------------------------

/// `s` split on `c`, keeping empty pieces, as `str::split` does.
pub open spec fn split_char_spec(s: Seq<char>, c: char) -> Seq<Seq<char>>
    decreases s.len(),
{
    let i = find_char_at(s, c, 0);
    if 0 <= i < s.len() {
        seq![s.subrange(0, i)] + split_char_spec(s.subrange(i + 1, s.len() as int), c)
    } else {
        seq![s]
    }
}

/// `s` split on the group separator `|||`, keeping empty pieces.
pub open spec fn split_groups_spec(s: Seq<char>) -> Seq<Seq<char>>
    decreases s.len(),
{
    let i = find_pipes_at(s, 0);
    if 0 <= i && i + 3 <= s.len() {
        seq![s.subrange(0, i)] + split_groups_spec(s.subrange(i + 3, s.len() as int))
    } else {
        seq![s]
    }
}

pub fn split_char(s: &str, c: char) -> (r: Vec<String>)
    ensures
        r.deep_view() == split_char_spec(s@, c),
{
    let n = s.unicode_len();
    let mut pieces: Vec<String> = Vec::new();
    let mut start: usize = 0;
    proof {
        assert(s@.subrange(0, n as int) =~= s@);
        assert(pieces.deep_view() =~= Seq::<Seq<char>>::empty());
        assert(Seq::<Seq<char>>::empty() + split_char_spec(s@, c) =~= split_char_spec(s@, c));
    }
    loop
        invariant
            start <= n,
            n == s@.len(),
            split_char_spec(s@, c) == pieces.deep_view() + split_char_spec(
                s@.subrange(start as int, n as int),
                c,
            ),
        decreases n - start,
    {
        let ghost rest = s@.subrange(start as int, n as int);
        let ghost old_dv = pieces.deep_view();
        let i = find_char(s, c, start);
        proof {
            lemma_find_char_at(s@, c, start as int);
            lemma_find_char_shift(s@, c, start as int, 0);
        }
        if i < n {
            let piece = s.substring_char(start, i);
            pieces.push(String::from_str(piece));
            proof {
                assert(pieces.deep_view() =~= old_dv + seq![piece@]);
                assert(rest.subrange(0, i - start) =~= piece@);
                assert(rest.subrange(i - start + 1, rest.len() as int) =~= s@.subrange(
                    i + 1,
                    n as int,
                ));
                assert(split_char_spec(rest, c) == seq![piece@] + split_char_spec(
                    s@.subrange(i + 1, n as int),
                    c,
                ));
                assert((old_dv + seq![piece@]) + split_char_spec(s@.subrange(i + 1, n as int), c)
                    =~= old_dv + (seq![piece@] + split_char_spec(s@.subrange(i + 1, n as int), c)));
            }
            start = i + 1;
        } else {
            let piece = s.substring_char(start, n);
            pieces.push(String::from_str(piece));
            proof {
                assert(piece@ =~= rest);
                assert(split_char_spec(rest, c) =~= seq![rest]);
                assert(pieces.deep_view() =~= old_dv + seq![rest]);
            }
            return pieces;
        }
    }
}

pub fn split_groups(s: &str) -> (r: Vec<String>)
    ensures
        r.deep_view() == split_groups_spec(s@),
{
    let n = s.unicode_len();
    let mut pieces: Vec<String> = Vec::new();
    let mut start: usize = 0;
    proof {
        assert(s@.subrange(0, n as int) =~= s@);
        assert(pieces.deep_view() =~= Seq::<Seq<char>>::empty());
        assert(Seq::<Seq<char>>::empty() + split_groups_spec(s@) =~= split_groups_spec(s@));
    }
    loop
        invariant
            start <= n,
            n == s@.len(),
            split_groups_spec(s@) == pieces.deep_view() + split_groups_spec(
                s@.subrange(start as int, n as int),
            ),
        decreases n - start,
    {
        let ghost rest = s@.subrange(start as int, n as int);
        let ghost old_dv = pieces.deep_view();
        let i = find_pipes(s, start);
        proof {
            lemma_find_pipes_at(s@, start as int);
            lemma_find_pipes_shift(s@, start as int, 0);
        }
        if i < n {
            let piece = s.substring_char(start, i);
            pieces.push(String::from_str(piece));
            proof {
                assert(pieces.deep_view() =~= old_dv + seq![piece@]);
                assert(rest.subrange(0, i - start) =~= piece@);
                assert(rest.subrange(i - start + 3, rest.len() as int) =~= s@.subrange(
                    i + 3,
                    n as int,
                ));
                assert(split_groups_spec(rest) == seq![piece@] + split_groups_spec(
                    s@.subrange(i + 3, n as int),
                ));
                assert((old_dv + seq![piece@]) + split_groups_spec(s@.subrange(i + 3, n as int))
                    =~= old_dv + (seq![piece@] + split_groups_spec(s@.subrange(i + 3, n as int))));
            }
            start = i + 3;
        } else {
            let piece = s.substring_char(start, n);
            pieces.push(String::from_str(piece));
            proof {
                assert(piece@ =~= rest);
                assert(split_groups_spec(rest) =~= seq![rest]);
                assert(pieces.deep_view() =~= old_dv + seq![rest]);
            }
            return pieces;
        }
    }
}

// ---------------------------------------------------------------------------
// joining and repetition
// ---------------------------------------------------------------------------

/// The pieces joined with `sep` between consecutive pieces.
pub open spec fn join_spec(parts: Seq<Seq<char>>, sep: Seq<char>) -> Seq<char>
    decreases parts.len(),
{
    if parts.len() == 0 {
        Seq::empty()
    } else if parts.len() == 1 {
        parts[0]
    } else {
        parts[0] + sep + join_spec(parts.drop_first(), sep)
    }
}

/// Appending one more piece extends the joined text by the separator and the piece.
pub proof fn lemma_join_snoc(parts: Seq<Seq<char>>, x: Seq<char>, sep: Seq<char>)
    requires
        parts.len() >= 1,
    ensures
        join_spec(parts.push(x), sep) == join_spec(parts, sep) + sep + x,
    decreases parts.len(),
{
    if parts.len() == 1 {
        assert(parts.push(x).drop_first() =~= seq![x]);
        assert(parts.push(x)[0] == parts[0]);
        assert(join_spec(seq![x], sep) == x);
        assert(join_spec(parts.push(x), sep) == parts[0] + sep + x);
        assert(join_spec(parts, sep) == parts[0]);
    } else {
        lemma_join_snoc(parts.drop_first(), x, sep);
        assert(parts.push(x).drop_first() =~= parts.drop_first().push(x));
        assert(parts.push(x)[0] == parts[0]);
        let j = join_spec(parts.drop_first(), sep);
        assert(join_spec(parts.push(x), sep) == parts[0] + sep + join_spec(
            parts.drop_first().push(x),
            sep,
        ));
        assert(join_spec(parts.drop_first().push(x), sep) == j + sep + x);
        assert(join_spec(parts, sep) == parts[0] + sep + j);
        assert(parts[0] + sep + (j + sep + x) =~= ((parts[0] + sep + j) + sep) + x);
    }
}

/// `sym` concatenated `n` times.
pub open spec fn repeat_spec(sym: Seq<char>, n: nat) -> Seq<char>
    decreases n,
{
    if n == 0 {
        Seq::empty()
    } else {
        repeat_spec(sym, (n - 1) as nat) + sym
    }
}

/// Repetition splits over a sum of counts.
pub proof fn lemma_repeat_add(sym: Seq<char>, a: nat, b: nat)
    ensures
        repeat_spec(sym, a + b) == repeat_spec(sym, a) + repeat_spec(sym, b),
    decreases b,
{
    if b == 0 {
        assert(repeat_spec(sym, a) + repeat_spec(sym, 0) =~= repeat_spec(sym, a));
    } else {
        lemma_repeat_add(sym, a, (b - 1) as nat);
        assert(repeat_spec(sym, a) + (repeat_spec(sym, (b - 1) as nat) + sym) =~= (repeat_spec(
            sym,
            a,
        ) + repeat_spec(sym, (b - 1) as nat)) + sym);
    }
}

/// Appends `sym` to `out` `n` times.
pub fn append_repeated(out: &mut String, sym: &str, n: usize)
    ensures
        final(out)@ == old(out)@ + repeat_spec(sym@, n as nat),
{
    let mut k: usize = 0;
    while k < n
        invariant
            k <= n,
            out@ == old(out)@ + repeat_spec(sym@, k as nat),
        decreases n - k,
    {
        out.append(sym);
        k += 1;
        proof {
            assert((old(out)@ + repeat_spec(sym@, (k - 1) as nat)) + sym@ =~= old(out)@ + (
            repeat_spec(sym@, (k - 1) as nat) + sym@));
        }
    }
}

// ---------------------------------------------------------------------------
// trimming
// ---------------------------------------------------------------------------

/// Exactly the characters with the Unicode `White_Space` property,
/// the ones `str::trim` removes.
pub open spec fn is_space_char(c: char) -> bool {
    (0x9 <= c as u32 && c as u32 <= 0xd) || c as u32 == 0x20 || c as u32 == 0x85 || c as u32
        == 0xa0 || c as u32 == 0x1680 || (0x2000 <= c as u32 && c as u32 <= 0x200a) || c as u32
        == 0x2028 || c as u32 == 0x2029 || c as u32 == 0x202f || c as u32 == 0x205f || c as u32
        == 0x3000
}

/// Index of the first non-space character at or after `i`; `s.len()` when all spaces.
pub open spec fn trim_start_at(s: Seq<char>, i: int) -> int
    decreases s.len() - i,
{
    if i < 0 || i >= s.len() {
        s.len() as int
    } else if is_space_char(s[i]) {
        trim_start_at(s, i + 1)
    } else {
        i
    }
}

/// One past the last non-space character strictly before `j`; `0` when all spaces.
pub open spec fn trim_end_at(s: Seq<char>, j: int) -> int
    decreases j,
{
    if j <= 0 || j > s.len() {
        0
    } else if is_space_char(s[j - 1]) {
        trim_end_at(s, j - 1)
    } else {
        j
    }
}

/// `s` without leading and trailing white space, as `str::trim` produces.
pub open spec fn trim_spec(s: Seq<char>) -> Seq<char> {
    let a = trim_start_at(s, 0);
    let b = trim_end_at(s, s.len() as int);
    if a <= b {
        s.subrange(a, b)
    } else {
        Seq::empty()
    }
}

pub proof fn lemma_trim_bounds(s: Seq<char>, i: int)
    requires
        0 <= i <= s.len(),
    ensures
        i <= trim_start_at(s, i) <= s.len(),
        0 <= trim_end_at(s, i) <= i,
    decreases s.len() - i, i,
{
    if i < s.len() && is_space_char(s[i]) {
        lemma_trim_bounds(s, i + 1);
    }
    if i > 0 && is_space_char(s[i - 1]) {
        lemma_trim_bounds_end(s, i - 1);
    }
}

proof fn lemma_trim_bounds_end(s: Seq<char>, j: int)
    requires
        0 <= j <= s.len(),
    ensures
        0 <= trim_end_at(s, j) <= j,
    decreases j,
{
    if j > 0 && is_space_char(s[j - 1]) {
        lemma_trim_bounds_end(s, j - 1);
    }
}

/// Whether `c` carries the Unicode `White_Space` property.
pub fn is_space(c: char) -> (r: bool)
    ensures
        r == is_space_char(c),
{
    let u = c as u32;
    (0x9 <= u && u <= 0xd) || u == 0x20 || u == 0x85 || u == 0xa0 || u == 0x1680 || (0x2000 <= u
        && u <= 0x200a) || u == 0x2028 || u == 0x2029 || u == 0x202f || u == 0x205f || u == 0x3000
}

/// Removes leading and trailing white space.
pub fn trim(s: &str) -> (r: String)
    ensures
        r@ == trim_spec(s@),
{
    let n = s.unicode_len();
    let mut a: usize = 0;
    while a < n && is_space(s.get_char(a))
        invariant
            a <= n,
            n == s@.len(),
            trim_start_at(s@, 0) == trim_start_at(s@, a as int),
        decreases n - a,
    {
        a += 1;
    }
    let mut b: usize = n;
    while b > a && is_space(s.get_char(b - 1))
        invariant
            a <= b <= n,
            n == s@.len(),
            a == trim_start_at(s@, 0),
            trim_end_at(s@, n as int) == trim_end_at(s@, b as int),
            a < b ==> !is_space_char(s@[a as int]),
        decreases b,
    {
        b -= 1;
    }
    proof {
        lemma_trim_bounds(s@, a as int);
        if a < b {
            assert(!is_space_char(s@[b - 1]));
            assert(trim_end_at(s@, b as int) == b);
        } else {
            assert(a == n || b == a);
            if b == a {
                assert(trim_end_at(s@, b as int) <= a) by {
                    lemma_trim_bounds(s@, b as int);
                }
            }
        }
    }
    let piece = s.substring_char(a, b);
    proof {
        assert(piece@ =~= trim_spec(s@));
    }
    String::from_str(piece)
}

// ---------------------------------------------------------------------------
// membership
// ---------------------------------------------------------------------------

pub open spec fn seq_contains_string(v: Seq<Seq<char>>, s: Seq<char>) -> bool {
    exists|i: int| 0 <= i < v.len() && v[i] == s
}

/// Whether some element of `v` equals `s`, character for character.
pub fn vec_contains_string(v: &Vec<String>, s: &String) -> (r: bool)
    ensures
        r == seq_contains_string(v.deep_view(), s@),
{
    let mut i: usize = 0;
    while i < v.len()
        invariant
            i <= v.len(),
            forall|j: int| 0 <= j < i ==> v.deep_view()[j] != s@,
        decreases v.len() - i,
    {
        if v[i] == *s {
            assert(v.deep_view()[i as int] == s@);
            return true;
        }
        i += 1;
    }
    false
}

// ---------------------------------------------------------------------------
// building strings
// ---------------------------------------------------------------------------

/// Relies on `String::push`: appends the given character to the end of the string.
#[verifier::external_body]
pub fn push_char(s: &mut String, c: char)
    ensures
        final(s)@ == old(s)@.push(c),
{
    s.push(c);
}

} // verus!
