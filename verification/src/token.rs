//! The token model: parses the text of one found token into an identifier
//! and optional parameter groups.  The identifier is the first maximal run
//! of `[A-Z_]` characters.  The parameter blob is the text strictly between
//! the first `{` and the last `}` (the blob may span lines and hold balanced
//! braces of its own); it is split into groups on `|||`, and each group into
//! comma-separated items, dropping empty items and keeping the rest verbatim.

use vstd::prelude::*;

use crate::text::find_char;
use crate::text::find_char_at;
use crate::text::join_spec;
use crate::text::lemma_join_snoc;
use crate::text::rfind_char;
use crate::text::rfind_char_before;
use crate::text::split_char;
use crate::text::split_char_spec;
use crate::text::split_groups;
use crate::text::split_groups_spec;

verus! {

broadcast use vstd::string::group_string_axioms;

/// An identifier character: an ASCII capital letter or an underscore.
pub open spec fn is_id_char(c: char) -> bool {
    (0x41 <= c as u32 && c as u32 <= 0x5a) || c == '_'
}

/// First index at or after `i` holding an identifier character; `s.len()` when none.
pub open spec fn id_start_at(s: Seq<char>, i: int) -> int
    decreases s.len() - i,
{
    if i < 0 || i >= s.len() {
        s.len() as int
    } else if is_id_char(s[i]) {
        i
    } else {
        id_start_at(s, i + 1)
    }
}

/// First index at or after `i` not holding an identifier character; `s.len()` when none.
pub open spec fn id_end_at(s: Seq<char>, i: int) -> int
    decreases s.len() - i,
{
    if i < 0 || i >= s.len() {
        s.len() as int
    } else if !is_id_char(s[i]) {
        i
    } else {
        id_end_at(s, i + 1)
    }
}

/// The first maximal `[A-Z_]+` run of `s`, when there is one.
pub open spec fn identifier_spec(s: Seq<char>) -> Option<Seq<char>> {
    let a = id_start_at(s, 0);
    if a < s.len() {
        Some(s.subrange(a, id_end_at(s, a)))
    } else {
        None
    }
}

/// The text strictly between the first `{` of `s` and the last `}` of `s`,
/// when the former precedes the latter.  Braces inside are preserved, so a
/// blob like `a{b}c` keeps its balance.
pub open spec fn brace_blob_spec(s: Seq<char>) -> Option<Seq<char>> {
    let lb = find_char_at(s, '{', 0);
    let rb = rfind_char_before(s, '}', s.len() as int);
    if lb < s.len() && rb > lb {
        Some(s.subrange(lb + 1, rb))
    } else {
        None
    }
}

/// The pieces of `parts` that are not empty, in order.
pub open spec fn raw_items_spec(parts: Seq<Seq<char>>) -> Seq<Seq<char>>
    decreases parts.len(),
{
    if parts.len() == 0 {
        Seq::empty()
    } else {
        let rest = raw_items_spec(parts.drop_first());
        if parts[0].len() != 0 {
            seq![parts[0]] + rest
        } else {
            rest
        }
    }
}

/// One parameter group parsed into items: split on `,`, empty items dropped,
/// the rest kept verbatim.
pub open spec fn token_variable_spec(s: Seq<char>) -> Seq<Seq<char>> {
    raw_items_spec(split_char_spec(s, ','))
}

/// Each group of `gs` parsed into its items.
pub open spec fn groups_items_spec(gs: Seq<Seq<char>>) -> Seq<Seq<Seq<char>>>
    decreases gs.len(),
{
    if gs.len() == 0 {
        Seq::empty()
    } else {
        seq![token_variable_spec(gs[0])] + groups_items_spec(gs.drop_first())
    }
}

/// The mathematical shape of a parsed token.
pub ghost struct TokenView {
    pub id: Seq<char>,
    pub variables: Option<Seq<Seq<Seq<char>>>>,
}

/// What parsing token text yields: the identifier, and the parameter groups
/// when a nonempty brace blob is present.  `None` when no identifier-shaped
/// substring exists.
pub open spec fn token_from_string_spec(s: Seq<char>) -> Option<TokenView> {
    match identifier_spec(s) {
        None => None,
        Some(id) => Some(
            TokenView {
                id,
                variables: match brace_blob_spec(s) {
                    None => None,
                    Some(blob) => if blob.len() == 0 {
                        None
                    } else {
                        Some(groups_items_spec(split_groups_spec(blob)))
                    },
                },
            },
        ),
    }
}

/// What `get_variable_as_string` returns: the indexed group rebuilt with `,`
/// between items, or empty text when there are no variables or the index is
/// out of range.
pub open spec fn token_variable_string_spec(t: TokenView, index: int) -> Seq<char> {
    match t.variables {
        None => Seq::empty(),
        Some(vs) => if 0 <= index < vs.len() {
            join_spec(vs[index], seq![','])
        } else {
            Seq::empty()
        },
    }
}

/// One `|||`-separated parameter group of a token: its comma-separated items.
#[derive(Debug, Clone, Eq, PartialEq)]
pub struct TokenVariable {
    pub variable_list: Vec<String>,
}

impl View for TokenVariable {
    type V = Seq<Seq<char>>;

    open spec fn view(&self) -> Seq<Seq<char>> {
        self.variable_list.deep_view()
    }
}

impl DeepView for TokenVariable {
    type V = Seq<Seq<char>>;

    open spec fn deep_view(&self) -> Seq<Seq<char>> {
        self.view()
    }
}

/// A parsed token: identifier plus optional parameter groups.
#[derive(Debug, Clone, Eq, PartialEq)]
pub struct Token {
    pub id: String,
    pub variables: Option<Vec<TokenVariable>>,
}

impl View for Token {
    type V = TokenView;

    open spec fn view(&self) -> TokenView {
        TokenView {
            id: self.id@,
            variables: match self.variables {
                Some(v) => Some(v.deep_view()),
                None => None,
            },
        }
    }
}

impl TokenVariable {
    /// Splits group text on `,`, dropping empty items and keeping the rest
    /// verbatim, spaces included.
    pub fn from_string(text: &str) -> (r: Self)
        ensures
            r@ == token_variable_spec(text@),
    {
        let items = split_char(text, ',');
        let ghost dv = items.deep_view();
        let mut formatted_items: Vec<String> = Vec::new();
        let mut i: usize = 0;
        proof {
            assert(dv.skip(0) =~= dv);
            assert(formatted_items.deep_view() =~= Seq::<Seq<char>>::empty());
            assert(Seq::<Seq<char>>::empty() + raw_items_spec(dv) =~= raw_items_spec(dv));
        }
        while i < items.len()
            invariant
                i <= items.len(),
                dv == items.deep_view(),
                dv == split_char_spec(text@, ','),
                raw_items_spec(dv) == formatted_items.deep_view() + raw_items_spec(
                    dv.skip(i as int),
                ),
            decreases items.len() - i,
        {
            let ghost old_dv = formatted_items.deep_view();
            proof {
                assert(dv.skip(i as int).drop_first() =~= dv.skip(i as int + 1));
                assert(dv.skip(i as int)[0] == dv[i as int]);
            }
            if !items[i].as_str().is_empty() {
                formatted_items.push(items[i].clone());
                proof {
                    assert(formatted_items.deep_view() =~= old_dv + seq![dv[i as int]]);
                    assert((old_dv + seq![dv[i as int]]) + raw_items_spec(dv.skip(i as int + 1))
                        =~= old_dv + (seq![dv[i as int]] + raw_items_spec(dv.skip(i as int + 1))));
                }
            }
            i += 1;
        }
        proof {
            assert(dv.skip(items.len() as int) =~= Seq::<Seq<char>>::empty());
            assert(formatted_items.deep_view() + Seq::<Seq<char>>::empty()
                =~= formatted_items.deep_view());
        }
        Self { variable_list: formatted_items }
    }

    /// Puts the items of the group back together, `,` between them.
    pub fn rebuild_string(self: &Self) -> (r: String)
        ensures
            r@ == join_spec(self@, seq![',']),
    {
        let ghost sep: Seq<char> = seq![','];
        let list_len = self.variable_list.len();
        if list_len == 1 {
            return self.variable_list[0].clone();
        } else if list_len == 0 {
            return String::new();
        }
        let mut string: String = String::new();
        let mut index: usize = 0;
        while index < list_len - 1
            invariant
                sep == seq![','],
                list_len == self.variable_list.len(),
                2 <= list_len,
                index <= list_len - 1,
                string@ == if index == 0 {
                    Seq::<char>::empty()
                } else {
                    join_spec(self@.take(index as int), sep) + sep
                },
            decreases list_len - index,
        {
            let ghost pre = string@;
            string.append(self.variable_list[index].as_str());
            string.append(",");
            proof {
                reveal_strlit(",");
                assert(","@ =~= sep);
                assert(self@.take(index as int + 1) =~= self@.take(index as int).push(
                    self@[index as int],
                ));
                if index == 0 {
                    assert(self@.take(1) =~= seq![self@[0]]);
                    assert(string@ =~= join_spec(self@.take(1), sep) + sep);
                } else {
                    lemma_join_snoc(self@.take(index as int), self@[index as int], sep);
                    assert(string@ =~= join_spec(self@.take(index as int + 1), sep) + sep);
                }
            }
            index += 1;
        }
        string.append(self.variable_list[list_len - 1].as_str());
        proof {
            lemma_join_snoc(self@.take(list_len - 1), self@[list_len - 1], sep);
            assert(self@.take(list_len as int) =~= self@.take(list_len - 1).push(
                self@[list_len - 1],
            ));
            assert(self@.take(list_len as int) =~= self@);
            assert(string@ =~= join_spec(self@, sep));
        }
        string
    }
}

impl Token {
    /// Whether the token carries parameter groups.
    pub fn has_variables(self: &Self) -> (r: bool)
        ensures
            r == (self@.variables is Some),
    {
        self.variables.is_some()
    }

    /// The indexed parameter group rebuilt as one string; empty when the
    /// token has no variables or the index is out of range.
    pub fn get_variable_as_string(self: &Self, index: usize) -> (r: String)
        ensures
            r@ == token_variable_string_spec(self@, index as int),
    {
        match &self.variables {
            None => String::new(),
            Some(vars) => {
                if index < vars.len() {
                    proof {
                        assert(vars.deep_view()[index as int] == vars[index as int].deep_view());
                    }
                    vars[index].rebuild_string()
                } else {
                    String::new()
                }
            },
        }
    }

    /// The items of the indexed parameter group; empty when the token has no
    /// variables or the index is out of range.
    pub fn get_variable_at(self: &Self, index: usize) -> (r: Vec<String>)
        ensures
            r.deep_view() == match self@.variables {
                None => Seq::<Seq<char>>::empty(),
                Some(vs) => if 0 <= index < vs.len() {
                    vs[index as int]
                } else {
                    Seq::<Seq<char>>::empty()
                },
            },
    {
        match &self.variables {
            None => Vec::new(),
            Some(vars) => {
                if index < vars.len() {
                    proof {
                        assert(vars.deep_view()[index as int] == vars[index as int].deep_view());
                    }
                    clone_string_vec(&vars[index].variable_list)
                } else {
                    Vec::new()
                }
            },
        }
    }

    /// Parses token text: the identifier is the first `[A-Z_]+` run, the
    /// parameter groups come from the brace blob.  Fails only when no
    /// identifier-shaped substring exists.
    pub fn from_string(text: &str) -> (r: Result<Self, String>)
        ensures
            match r {
                Ok(t) => token_from_string_spec(text@) == Some(t@),
                Err(e) => {
                    &&& token_from_string_spec(text@) is None
                    &&& e@ == "Failed to parse identifier for line "@ + text@
                },
            },
    {
        let identifier = match extract_identifier(text) {
            Some(id) => id,
            None => {
                return Err(String::from_str("Failed to parse identifier for line ").concat(text));
            },
        };
        let n = text.unicode_len();
        let lb = find_char(text, '{', 0);
        let rb_opt = rfind_char(text, '}', n);
        if lb < n {
            if let Some(rb) = rb_opt {
                if rb > lb {
                    let blob = text.substring_char(lb + 1, rb);
                    if !blob.is_empty() {
                        let groups = split_groups(blob);
                        let ghost gv = groups.deep_view();
                        let mut variables: Vec<TokenVariable> = Vec::new();
                        let mut i: usize = 0;
                        proof {
                            assert(gv.skip(0) =~= gv);
                            assert(variables.deep_view() =~= Seq::<Seq<Seq<char>>>::empty());
                            assert(Seq::<Seq<Seq<char>>>::empty() + groups_items_spec(gv)
                                =~= groups_items_spec(gv));
                        }
                        while i < groups.len()
                            invariant
                                i <= groups.len(),
                                gv == groups.deep_view(),
                                groups_items_spec(gv) == variables.deep_view()
                                    + groups_items_spec(gv.skip(i as int)),
                            decreases groups.len() - i,
                        {
                            let ghost old_dv = variables.deep_view();
                            proof {
                                assert(gv.skip(i as int).drop_first() =~= gv.skip(i as int + 1));
                                assert(gv.skip(i as int)[0] == gv[i as int]);
                            }
                            variables.push(TokenVariable::from_string(groups[i].as_str()));
                            proof {
                                assert(variables.deep_view() =~= old_dv + seq![
                                    token_variable_spec(gv[i as int]),
                                ]);
                                assert((old_dv + seq![token_variable_spec(gv[i as int])])
                                    + groups_items_spec(gv.skip(i as int + 1)) =~= old_dv + (seq![
                                    token_variable_spec(gv[i as int]),
                                ] + groups_items_spec(gv.skip(i as int + 1))));
                            }
                            i += 1;
                        }
                        proof {
                            assert(gv.skip(groups.len() as int) =~= Seq::<Seq<char>>::empty());
                            assert(variables.deep_view() + Seq::<Seq<Seq<char>>>::empty()
                                =~= variables.deep_view());
                        }
                        return Ok(Token { id: identifier, variables: Some(variables) });
                    }
                }
            }
        }
        Ok(Token { id: identifier, variables: None })
    }
}

/// Extracts the first maximal `[A-Z_]+` run of `text`, when there is one.
pub fn extract_identifier(text: &str) -> (r: Option<String>)
    ensures
        match r {
            Some(id) => identifier_spec(text@) == Some(id@),
            None => identifier_spec(text@) is None,
        },
{
    let n = text.unicode_len();
    let mut a: usize = 0;
    while a < n && !is_identifier_character(text.get_char(a))
        invariant
            a <= n,
            n == text@.len(),
            id_start_at(text@, 0) == id_start_at(text@, a as int),
        decreases n - a,
    {
        a += 1;
    }
    if a >= n {
        return None;
    }
    let mut b: usize = a;
    while b < n && is_identifier_character(text.get_char(b))
        invariant
            a <= b <= n,
            n == text@.len(),
            id_end_at(text@, a as int) == id_end_at(text@, b as int),
        decreases n - b,
    {
        b += 1;
    }
    Some(String::from_str(text.substring_char(a, b)))
}

/// Clones a vector of strings element by element.
pub fn clone_string_vec(v: &Vec<String>) -> (r: Vec<String>)
    ensures
        r.deep_view() == v.deep_view(),
{
    let mut out: Vec<String> = Vec::new();
    let mut i: usize = 0;
    while i < v.len()
        invariant
            i <= v.len(),
            out.deep_view() == v.deep_view().take(i as int),
        decreases v.len() - i,
    {
        let ghost old_dv = out.deep_view();
        out.push(v[i].clone());
        proof {
            assert(out.deep_view() =~= old_dv.push(v.deep_view()[i as int]));
            assert(v.deep_view().take(i as int + 1) =~= v.deep_view().take(i as int).push(
                v.deep_view()[i as int],
            ));
        }
        i += 1;
    }
    proof {
        assert(v.deep_view().take(v.len() as int) =~= v.deep_view());
    }
    out
}

/// Whether `c` may appear in a token identifier: an ASCII capital or `_`.
fn is_identifier_character(c: char) -> (r: bool)
    ensures
        r == is_id_char(c),
{
    let u = c as u32;
    (0x41 <= u && u <= 0x5a) || c == '_'
}

} // verus!
