//! The older token model kept alongside `token`: it differs in that
//! comma-separated items are trimmed of surrounding white space, groups are
//! rebuilt with `", "` between items, and the parameter blob must open and
//! close on one line: the text between the first `{` that still has a `}`
//! on its own line and the last such `}`.

use vstd::prelude::*;

use crate::text::find_char;
use crate::text::find_char_at;
use crate::text::join_spec;
use crate::text::lemma_join_snoc;
use crate::text::rfind_char;
use crate::text::rfind_char_before;
use crate::text::split_char;
use crate::text::split_char_spec;
use crate::text::split_groups;
use crate::text::split_groups_spec;
use crate::text::trim;
use crate::text::trim_spec;
use crate::token::extract_identifier;
use crate::token::identifier_spec;
use crate::token::TokenView;

verus! {

broadcast use vstd::string::group_string_axioms;

/// The pieces of `parts` that are not empty, each trimmed, in order.
pub open spec fn trimmed_items_spec(parts: Seq<Seq<char>>) -> Seq<Seq<char>>
    decreases parts.len(),
{
    if parts.len() == 0 {
        Seq::empty()
    } else {
        let rest = trimmed_items_spec(parts.drop_first());
        if parts[0].len() != 0 {
            seq![trim_spec(parts[0])] + rest
        } else {
            rest
        }
    }
}

/// One parameter group parsed into items: split on `,`, empty items dropped,
/// the rest trimmed.
pub open spec fn replacement_variable_spec(s: Seq<char>) -> Seq<Seq<char>> {
    trimmed_items_spec(split_char_spec(s, ','))
}

/// Each group of `gs` parsed into its trimmed items.
pub open spec fn replacement_groups_spec(gs: Seq<Seq<char>>) -> Seq<Seq<Seq<char>>>
    decreases gs.len(),
{
    if gs.len() == 0 {
        Seq::empty()
    } else {
        seq![replacement_variable_spec(gs[0])] + replacement_groups_spec(gs.drop_first())
    }
}

/// The last `}` strictly after `i - 1` on the same line as `i`: the last `}`
/// before the first newline at or after `i`; `-1`-ish when the line has none.
pub open spec fn line_rbrace(s: Seq<char>, i: int) -> int {
    rfind_char_before(s, '}', find_char_at(s, '\n', i))
}

/// First index at or after `i` holding a `{` that is answered by a `}`
/// later on its own line; `s.len()` when there is none.
pub open spec fn rline_lb_at(s: Seq<char>, i: int) -> int
    decreases s.len() - i,
{
    if i < 0 || i >= s.len() {
        s.len() as int
    } else if s[i] == '{' && line_rbrace(s, i + 1) >= i + 1 {
        i
    } else {
        rline_lb_at(s, i + 1)
    }
}

/// The single-line brace blob of `s`: the text between the first `{` that a
/// `}` answers on the same line and the last such `}` of that line.
pub open spec fn line_blob_spec(s: Seq<char>) -> Option<Seq<char>> {
    let lb = rline_lb_at(s, 0);
    if lb < s.len() {
        Some(s.subrange(lb + 1, line_rbrace(s, lb + 1)))
    } else {
        None
    }
}

/// What parsing replacement-token text yields.
pub open spec fn replacement_from_string_spec(s: Seq<char>) -> Option<TokenView> {
    match identifier_spec(s) {
        None => None,
        Some(id) => Some(
            TokenView {
                id,
                variables: match line_blob_spec(s) {
                    None => None,
                    Some(blob) => if blob.len() == 0 {
                        None
                    } else {
                        Some(replacement_groups_spec(split_groups_spec(blob)))
                    },
                },
            },
        ),
    }
}

/// One `|||`-separated parameter group: its trimmed comma-separated items.
#[derive(Debug, Clone, Eq, PartialEq)]
pub struct ReplacementVariable {
    pub variable_list: Vec<String>,
}

impl View for ReplacementVariable {
    type V = Seq<Seq<char>>;

    open spec fn view(&self) -> Seq<Seq<char>> {
        self.variable_list.deep_view()
    }
}

impl DeepView for ReplacementVariable {
    type V = Seq<Seq<char>>;

    open spec fn deep_view(&self) -> Seq<Seq<char>> {
        self.view()
    }
}

/// A parsed replacement token: identifier plus optional parameter groups.
#[derive(Debug, Clone, Eq, PartialEq)]
pub struct ReplacementToken {
    pub id: String,
    pub variables: Option<Vec<ReplacementVariable>>,
}

impl View for ReplacementToken {
    type V = TokenView;

    open spec fn view(&self) -> TokenView {
        TokenView {
            id: self.id@,
            variables: match self.variables {
                Some(v) => Some(v.deep_view()),
                None => None,
            },
        }
    }
}

impl ReplacementVariable {
    /// Splits group text on `,`, dropping empty items and trimming the rest.
    pub fn from_string(text: &str) -> (r: Self)
        ensures
            r@ == replacement_variable_spec(text@),
    {
        let items = split_char(text, ',');
        let ghost dv = items.deep_view();
        let mut formatted_items: Vec<String> = Vec::new();
        let mut i: usize = 0;
        proof {
            assert(dv.skip(0) =~= dv);
            assert(formatted_items.deep_view() =~= Seq::<Seq<char>>::empty());
            assert(Seq::<Seq<char>>::empty() + trimmed_items_spec(dv) =~= trimmed_items_spec(dv));
        }
        while i < items.len()
            invariant
                i <= items.len(),
                dv == items.deep_view(),
                dv == split_char_spec(text@, ','),
                trimmed_items_spec(dv) == formatted_items.deep_view() + trimmed_items_spec(
                    dv.skip(i as int),
                ),
            decreases items.len() - i,
        {
            let ghost old_dv = formatted_items.deep_view();
            proof {
                assert(dv.skip(i as int).drop_first() =~= dv.skip(i as int + 1));
                assert(dv.skip(i as int)[0] == dv[i as int]);
            }
            if !items[i].as_str().is_empty() {
                formatted_items.push(trim(items[i].as_str()));
                proof {
                    assert(formatted_items.deep_view() =~= old_dv + seq![trim_spec(dv[i as int])]);
                    assert((old_dv + seq![trim_spec(dv[i as int])]) + trimmed_items_spec(
                        dv.skip(i as int + 1),
                    ) =~= old_dv + (seq![trim_spec(dv[i as int])] + trimmed_items_spec(
                        dv.skip(i as int + 1),
                    )));
                }
            }
            i += 1;
        }
        proof {
            assert(dv.skip(items.len() as int) =~= Seq::<Seq<char>>::empty());
            assert(formatted_items.deep_view() + Seq::<Seq<char>>::empty()
                =~= formatted_items.deep_view());
        }
        ReplacementVariable { variable_list: formatted_items }
    }

    /// Puts the items of the group back together, `", "` between them.
    pub fn rebuild_string(self: &Self) -> (r: String)
        ensures
            r@ == join_spec(self@, seq![',', ' ']),
    {
        let ghost sep: Seq<char> = seq![',', ' '];
        let list_len = self.variable_list.len();
        if list_len == 1 {
            return self.variable_list[0].clone();
        } else if list_len == 0 {
            return String::new();
        }
        let mut string: String = String::new();
        let mut index: usize = 0;
        while index < list_len - 1
            invariant
                sep == seq![',', ' '],
                list_len == self.variable_list.len(),
                2 <= list_len,
                index <= list_len - 1,
                string@ == if index == 0 {
                    Seq::<char>::empty()
                } else {
                    join_spec(self@.take(index as int), sep) + sep
                },
            decreases list_len - index,
        {
            string.append(self.variable_list[index].as_str());
            string.append(", ");
            proof {
                reveal_strlit(", ");
                assert(", "@ =~= sep);
                assert(self@.take(index as int + 1) =~= self@.take(index as int).push(
                    self@[index as int],
                ));
                if index == 0 {
                    assert(self@.take(1) =~= seq![self@[0]]);
                    assert(string@ =~= join_spec(self@.take(1), sep) + sep);
                } else {
                    lemma_join_snoc(self@.take(index as int), self@[index as int], sep);
                    assert(string@ =~= join_spec(self@.take(index as int + 1), sep) + sep);
                }
            }
            index += 1;
        }
        string.append(self.variable_list[list_len - 1].as_str());
        proof {
            lemma_join_snoc(self@.take(list_len - 1), self@[list_len - 1], sep);
            assert(self@.take(list_len as int) =~= self@.take(list_len - 1).push(
                self@[list_len - 1],
            ));
            assert(self@.take(list_len as int) =~= self@);
            assert(string@ =~= join_spec(self@, sep));
        }
        string
    }
}

impl ReplacementToken {
    /// Builds a token from an identifier and already-parsed groups.
    pub fn new(id: String, variables: Vec<ReplacementVariable>) -> (r: Self)
        ensures
            r@.id == id@,
            r@.variables == Some(variables.deep_view()),
    {
        ReplacementToken { id, variables: Some(variables) }
    }

    /// Parses replacement-token text: the identifier is the first `[A-Z_]+`
    /// run, the parameter groups come from the single-line brace blob.
    pub fn from_string(text: &str) -> (r: Result<Self, String>)
        ensures
            match r {
                Ok(t) => replacement_from_string_spec(text@) == Some(t@),
                Err(e) => {
                    &&& replacement_from_string_spec(text@) is None
                    &&& e@ == "Failed to parse identifier for line "@ + text@
                },
            },
    {
        let identifier = match extract_identifier(text) {
            Some(id) => id,
            None => {
                return Err(String::from_str("Failed to parse identifier for line ").concat(text));
            },
        };
        if let Some(blob) = line_blob(text) {
            if !blob.as_str().is_empty() {
                let groups = split_groups(blob.as_str());
                let ghost gv = groups.deep_view();
                let mut variables: Vec<ReplacementVariable> = Vec::new();
                let mut i: usize = 0;
                proof {
                    assert(gv.skip(0) =~= gv);
                    assert(variables.deep_view() =~= Seq::<Seq<Seq<char>>>::empty());
                    assert(Seq::<Seq<Seq<char>>>::empty() + replacement_groups_spec(gv)
                        =~= replacement_groups_spec(gv));
                }
                while i < groups.len()
                    invariant
                        i <= groups.len(),
                        gv == groups.deep_view(),
                        replacement_groups_spec(gv) == variables.deep_view()
                            + replacement_groups_spec(gv.skip(i as int)),
                    decreases groups.len() - i,
                {
                    let ghost old_dv = variables.deep_view();
                    proof {
                        assert(gv.skip(i as int).drop_first() =~= gv.skip(i as int + 1));
                        assert(gv.skip(i as int)[0] == gv[i as int]);
                    }
                    variables.push(ReplacementVariable::from_string(groups[i].as_str()));
                    proof {
                        assert(variables.deep_view() =~= old_dv + seq![
                            replacement_variable_spec(gv[i as int]),
                        ]);
                        assert((old_dv + seq![replacement_variable_spec(gv[i as int])])
                            + replacement_groups_spec(gv.skip(i as int + 1)) =~= old_dv + (seq![
                            replacement_variable_spec(gv[i as int]),
                        ] + replacement_groups_spec(gv.skip(i as int + 1))));
                    }
                    i += 1;
                }
                proof {
                    assert(gv.skip(groups.len() as int) =~= Seq::<Seq<char>>::empty());
                    assert(variables.deep_view() + Seq::<Seq<Seq<char>>>::empty()
                        =~= variables.deep_view());
                }
                return Ok(ReplacementToken { id: identifier, variables: Some(variables) });
            }
        }
        Ok(ReplacementToken { id: identifier, variables: None })
    }
}

/// Finds the single-line brace blob of `text`, when there is one.
fn line_blob(text: &str) -> (r: Option<String>)
    ensures
        match r {
            Some(b) => line_blob_spec(text@) == Some(b@),
            None => line_blob_spec(text@) is None,
        },
{
    let n = text.unicode_len();
    let mut i: usize = 0;
    while i < n
        invariant
            i <= n,
            n == text@.len(),
            rline_lb_at(text@, 0) == rline_lb_at(text@, i as int),
        decreases n - i,
    {
        if text.get_char(i) == '{' {
            let nl = find_char(text, '\n', i + 1);
            let rb_opt = rfind_char(text, '}', nl);
            if let Some(rb) = rb_opt {
                if rb >= i + 1 {
                    let b = text.substring_char(i + 1, rb);
                    return Some(String::from_str(b));
                }
            }
        }
        i += 1;
    }
    None
}

} // verus!
