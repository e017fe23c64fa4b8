//! Template files and their selection: which `template.<extensions>` file to
//! use for an output file, and the forced-file-name token a template may
//! open with.  Reading the files from disk is the surrounding program's
//! concern; selection works on the template directory's listing.

use vstd::prelude::*;

use crate::parser::find_first_token_spec;
use crate::parser::Parser;
use crate::text::join_spec;
use crate::text::lemma_join_snoc;
use crate::text::seq_contains_string;
use crate::text::vec_contains_string;
use crate::token::token_from_string_spec;
use crate::token::Token;

verus! {

broadcast use vstd::string::group_string_axioms;

/// One loaded template: the extension part of its file name, its path, and
/// its raw text.
#[derive(Debug)]
pub struct TemplateFile {
    pub template_file_extension: String,
    pub template_file_path: String,
    pub template_file_data: String,
}

/// The mathematical shape of a template file.
pub ghost struct TemplateFileView {
    pub extension: Seq<char>,
    pub path: Seq<char>,
    pub data: Seq<char>,
}

impl View for TemplateFile {
    type V = TemplateFileView;

    open spec fn view(&self) -> TemplateFileView {
        TemplateFileView {
            extension: self.template_file_extension@,
            path: self.template_file_path@,
            data: self.template_file_data@,
        }
    }
}

/// The chosen extension string: the longest suffix of the extension list
/// whose joined name, after the file-name prefix, stands in the directory
/// listing; suffixes are tried dropping the first extension each time.
pub open spec fn template_choice_spec(
    exts: Seq<Seq<char>>,
    start: Seq<char>,
    files: Seq<Seq<char>>,
) -> Option<Seq<char>>
    decreases exts.len(),
{
    if exts.len() == 0 {
        None
    } else {
        let joined = join_spec(exts, seq!['.']);
        if seq_contains_string(files, start + joined) {
            Some(joined)
        } else if exts.len() == 1 {
            None
        } else {
            template_choice_spec(exts.drop_first(), start, files)
        }
    }
}

/// Picks which template file to use: the extension list is joined with dots
/// after `file_name_start` and looked up in the template directory listing,
/// dropping the first extension as long as nothing matches.
pub fn figure_out_which_template_to_use(
    extension_list: &Vec<String>,
    file_name_start: &str,
    template_dir_files: &Vec<String>,
) -> (r: Option<String>)
    ensures
        match r {
            Some(e) => template_choice_spec(
                extension_list.deep_view(),
                file_name_start@,
                template_dir_files.deep_view(),
            ) == Some(e@),
            None => template_choice_spec(
                extension_list.deep_view(),
                file_name_start@,
                template_dir_files.deep_view(),
            ) is None,
        },
{
    let ghost ev = extension_list.deep_view();
    let ghost fv = template_dir_files.deep_view();
    let mut idx: usize = 0;
    proof {
        assert(ev.skip(0) =~= ev);
    }
    while idx < extension_list.len()
        invariant
            idx <= extension_list.len(),
            ev == extension_list.deep_view(),
            fv == template_dir_files.deep_view(),
            template_choice_spec(ev, file_name_start@, fv) == template_choice_spec(
                ev.skip(idx as int),
                file_name_start@,
                fv,
            ),
        decreases extension_list.len() - idx,
    {
        let joined = join_string_suffix(extension_list, idx);
        let file_name = String::from_str(file_name_start).concat(joined.as_str());
        proof {
            assert(ev.skip(idx as int).drop_first() =~= ev.skip(idx as int + 1));
        }
        if vec_contains_string(template_dir_files, &file_name) {
            return Some(joined);
        }
        if extension_list.len() - idx == 1 {
            return None;
        }
        idx += 1;
    }
    None
}

/// Joins the strings of `v` from index `from` on, with `.` between them.
fn join_string_suffix(v: &Vec<String>, from: usize) -> (r: String)
    requires
        from < v.len(),
    ensures
        r@ == join_spec(v.deep_view().skip(from as int), seq!['.']),
{
    let ghost dv = v.deep_view();
    let ghost tail = dv.skip(from as int);
    let mut out = v[from].clone();
    let mut k: usize = from + 1;
    proof {
        assert(tail.take(1) =~= seq![dv[from as int]]);
        assert(out@ == join_spec(tail.take(1), seq!['.']));
    }
    while k < v.len()
        invariant
            from + 1 <= k <= v.len(),
            dv == v.deep_view(),
            tail == dv.skip(from as int),
            out@ == join_spec(tail.take(k - from), seq!['.']),
        decreases v.len() - k,
    {
        out.append(".");
        out = out.concat(v[k].as_str());
        proof {
            reveal_strlit(".");
            assert("."@ =~= seq!['.']);
            lemma_join_snoc(tail.take(k - from), dv[k as int], seq!['.']);
            assert(tail.take(k - from + 1) =~= tail.take(k - from).push(dv[k as int]));
        }
        k += 1;
    }
    proof {
        assert(tail.take(v.len() - from) =~= tail);
    }
    out
}

/// The forced output name a template may open with: the first found token,
/// when it parses to `FORCE_FILE_NAME` and carries a first item in its
/// first parameter group.
pub open spec fn forced_filename_spec(s: Seq<char>) -> Option<Seq<char>> {
    match find_first_token_spec(s) {
        None => None,
        Some((a, b)) => if 0 <= a && a < b && b <= s.len() {
            match token_from_string_spec(s.subrange(a, b)) {
                None => None,
                Some(t) => if t.id != "FORCE_FILE_NAME"@ {
                    None
                } else {
                    match t.variables {
                        None => None,
                        Some(vs) => if vs.len() >= 1 && vs[0].len() >= 1 {
                            Some(vs[0][0])
                        } else {
                            None
                        },
                    }
                },
            }
        } else {
            None
        },
    }
}

/// Reads the forced output file name from a template's first token, where
/// the template forces one.  A `FORCE_FILE_NAME` token anywhere later is
/// ignored.
pub fn does_template_contain_forced_filename(template_data: &str) -> (r: Option<String>)
    ensures
        match r {
            Some(f) => forced_filename_spec(template_data@) == Some(f@),
            None => forced_filename_spec(template_data@) is None,
        },
{
    let first_token = match Parser::find_first_token(template_data) {
        Some(t) => t,
        None => {
            return None;
        },
    };
    let n = template_data.unicode_len();
    let token_text = template_data.substring_char(first_token.start, first_token.end);
    let token = match Token::from_string(token_text) {
        Ok(t) => t,
        Err(_) => {
            return None;
        },
    };
    if token.id != String::from_str("FORCE_FILE_NAME") {
        return None;
    }
    match &token.variables {
        None => None,
        Some(vars) => {
            if vars.len() >= 1 {
                proof {
                    assert(vars.deep_view()[0] == vars[0].deep_view());
                }
                if vars[0].variable_list.len() >= 1 {
                    Some(vars[0].variable_list[0].clone())
                } else {
                    None
                }
            } else {
                None
            }
        },
    }
}

} // verus!
