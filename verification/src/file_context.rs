//! The per-file context: the output file's name, extension and path, plus
//! the enumeration values (platform, language, user-defined) this copy of
//! the file is being generated for.

use vstd::prelude::*;

use crate::util::clone_opt_string;
use crate::util::extension_spec;
use crate::util::extract_extension_from_file_name;
use crate::util::extract_file_name_and_extension_from_path;
use crate::util::name_run_spec;
use crate::util::path_file_spec;
use crate::util::remove_extensions_from_file_name;
use crate::text::push_char;

verus! {

/// The enumeration values of one output file.
#[derive(Clone, Debug, Eq, PartialEq)]
pub struct FileEnumeration {
    pub language: Option<String>,
    pub platform: Option<String>,
    pub user_defined: Option<String>,
}

/// The mathematical shape of a file context.
pub ghost struct FileContextView {
    pub name: Seq<char>,
    pub extension: Seq<char>,
    pub path: Seq<char>,
    pub language: Option<Seq<char>>,
    pub platform: Option<Seq<char>>,
    pub user_defined: Option<Seq<char>>,
}

/// The record describing the output file a template is being evaluated for.
#[derive(Clone, Debug, Eq, PartialEq)]
pub struct FileContext {
    pub name: String,
    pub extension: String,
    pub path: String,
    pub enumerations: FileEnumeration,
}

impl View for FileContext {
    type V = FileContextView;

    open spec fn view(&self) -> FileContextView {
        FileContextView {
            name: self.name@,
            extension: self.extension@,
            path: self.path@,
            language: self.enumerations.language.deep_view(),
            platform: self.enumerations.platform.deep_view(),
            user_defined: self.enumerations.user_defined.deep_view(),
        }
    }
}

impl DeepView for FileContext {
    type V = FileContextView;

    open spec fn deep_view(&self) -> FileContextView {
        self.view()
    }
}

/// A context with every field empty and no enumerations.
pub open spec fn blank_context_view() -> FileContextView {
    FileContextView {
        name: Seq::empty(),
        extension: Seq::empty(),
        path: Seq::empty(),
        language: None,
        platform: None,
        user_defined: None,
    }
}

/// What `from_full_file_path` yields: the last path component split into
/// name and extension; nothing when the path ends in `/` or the component
/// has no dot to close its name.
pub open spec fn from_full_file_path_spec(p: Seq<char>) -> Option<FileContextView> {
    match path_file_spec(p) {
        None => None,
        Some(fnx) => match name_run_spec(fnx, 0) {
            None => None,
            Some(name) => Some(
                FileContextView {
                    name,
                    extension: match extension_spec(fnx) {
                        Some(e) => e,
                        None => Seq::empty(),
                    },
                    path: p,
                    language: None,
                    platform: None,
                    user_defined: None,
                },
            ),
        },
    }
}

/// `_` plus the value, where one is present.
pub open spec fn opt_append_spec(o: Option<Seq<char>>) -> Seq<char> {
    match o {
        Some(v) => seq!['_'] + v,
        None => Seq::empty(),
    }
}

/// The file name expanded with its enumerations: each present enumeration
/// value is appended after an underscore, platform first, then language,
/// then the user-defined value.
pub open spec fn expand_spec(c: FileContextView) -> Seq<char> {
    c.name + opt_append_spec(c.platform) + opt_append_spec(c.language) + opt_append_spec(
        c.user_defined,
    )
}

/// The expanded name followed by `.` and the extension.
pub open spec fn name_with_extension_spec(c: FileContextView) -> Seq<char> {
    expand_spec(c) + seq!['.'] + c.extension
}

pub open spec fn with_platform(c: FileContextView, p: Seq<char>) -> FileContextView {
    FileContextView { platform: Some(p), ..c }
}

pub open spec fn with_language(c: FileContextView, l: Seq<char>) -> FileContextView {
    FileContextView { language: Some(l), ..c }
}

pub open spec fn with_user_defined(c: FileContextView, u: Seq<char>) -> FileContextView {
    FileContextView { user_defined: Some(u), ..c }
}

/// One copy of `c` per platform value, in order.
pub open spec fn platform_copies(c: FileContextView, ps: Seq<Seq<char>>) -> Seq<FileContextView>
    decreases ps.len(),
{
    if ps.len() == 0 {
        Seq::empty()
    } else {
        platform_copies(c, ps.drop_last()).push(with_platform(c, ps.last()))
    }
}

/// One copy per context and language value, context-major.
pub open spec fn language_copies(
    list: Seq<FileContextView>,
    ls: Seq<Seq<char>>,
) -> Seq<FileContextView>
    decreases list.len(),
{
    if list.len() == 0 {
        Seq::empty()
    } else {
        language_copies(list.drop_last(), ls) + language_copies_of_one(list.last(), ls)
    }
}

pub open spec fn language_copies_of_one(c: FileContextView, ls: Seq<Seq<char>>) -> Seq<
    FileContextView,
>
    decreases ls.len(),
{
    if ls.len() == 0 {
        Seq::empty()
    } else {
        language_copies_of_one(c, ls.drop_last()).push(with_language(c, ls.last()))
    }
}

/// One copy per context and user-defined value, context-major.
pub open spec fn user_copies(list: Seq<FileContextView>, us: Seq<Seq<char>>) -> Seq<
    FileContextView,
>
    decreases list.len(),
{
    if list.len() == 0 {
        Seq::empty()
    } else {
        user_copies(list.drop_last(), us) + user_copies_of_one(list.last(), us)
    }
}

pub open spec fn user_copies_of_one(c: FileContextView, us: Seq<Seq<char>>) -> Seq<FileContextView>
    decreases us.len(),
{
    if us.len() == 0 {
        Seq::empty()
    } else {
        user_copies_of_one(c, us.drop_last()).push(with_user_defined(c, us.last()))
    }
}

/// The full enumeration of one context: platforms first (the context alone
/// when the platform list is empty), each then crossed with the languages
/// when any are given, each then crossed with the user-defined values when
/// any are given.  Platform varies slowest, the user-defined value fastest.
pub open spec fn enumerate_spec(
    c: FileContextView,
    ps: Seq<Seq<char>>,
    ls: Seq<Seq<char>>,
    us: Seq<Seq<char>>,
) -> Seq<FileContextView> {
    let after_platform = if ps.len() == 0 {
        seq![c]
    } else {
        platform_copies(c, ps)
    };
    let after_language = if ls.len() == 0 {
        after_platform
    } else {
        language_copies(after_platform, ls)
    };
    if us.len() == 0 {
        after_language
    } else {
        user_copies(after_language, us)
    }
}

impl FileEnumeration {
    /// No enumeration values at all.
    pub fn blank() -> (r: Self)
        ensures
            r.language is None,
            r.platform is None,
            r.user_defined is None,
    {
        Self { language: None, platform: None, user_defined: None }
    }
}

impl FileContext {
    /// A context with every field empty.
    pub fn blank() -> (r: Self)
        ensures
            r@ == blank_context_view(),
    {
        Self {
            name: String::new(),
            extension: String::new(),
            path: String::new(),
            enumerations: FileEnumeration::blank(),
        }
    }

    /// Field-for-field copy.
    pub fn duplicate(&self) -> (r: Self)
        ensures
            r@ == self@,
    {
        Self {
            name: self.name.clone(),
            extension: self.extension.clone(),
            path: self.path.clone(),
            enumerations: FileEnumeration {
                language: clone_opt_string(&self.enumerations.language),
                platform: clone_opt_string(&self.enumerations.platform),
                user_defined: clone_opt_string(&self.enumerations.user_defined),
            },
        }
    }

    /// Builds a context from a full file path: the last path component gives
    /// the name and the extension.  Nothing when the path has no file name.
    pub fn from_full_file_path(path: &str) -> (r: Option<Self>)
        ensures
            match r {
                Some(c) => from_full_file_path_spec(path@) == Some(c@),
                None => from_full_file_path_spec(path@) is None,
            },
    {
        let file_name_and_extension = match extract_file_name_and_extension_from_path(path) {
            Some(f) => f,
            None => {
                return None;
            },
        };
        let file_extension = extract_extension_from_file_name(file_name_and_extension.as_str());
        let file_name = match remove_extensions_from_file_name(file_name_and_extension.as_str()) {
            Some(f) => f,
            None => {
                return None;
            },
        };
        Some(
            Self {
                extension: match file_extension {
                    Some(e) => e,
                    None => String::new(),
                },
                path: String::from_str(path),
                name: file_name,
                enumerations: FileEnumeration::blank(),
            },
        )
    }

    /// The expanded name, a dot, and the extension.
    pub fn name_with_extension(self: &Self) -> (r: String)
        ensures
            r@ == name_with_extension_spec(self@),
    {
        let mut out = self.expand_with_enumerations();
        push_char(&mut out, '.');
        out.concat(self.extension.as_str())
    }

    /// The name with each present enumeration value appended after `_`.
    pub fn expand_with_enumerations(self: &Self) -> (r: String)
        ensures
            r@ == expand_spec(self@),
    {
        let mut out = self.name.clone();
        if let Some(platform) = &self.enumerations.platform {
            push_char(&mut out, '_');
            out = out.concat(platform.as_str());
        }
        if let Some(language) = &self.enumerations.language {
            push_char(&mut out, '_');
            out = out.concat(language.as_str());
        }
        if let Some(user_defined) = &self.enumerations.user_defined {
            push_char(&mut out, '_');
            out = out.concat(user_defined.as_str());
        }
        proof {
            assert(out@ =~= expand_spec(self@));
        }
        out
    }

    /// Expands this context into one copy per combination of the given
    /// platform, language and user-defined values; an empty list leaves its
    /// dimension out.  Platform varies slowest, the user value fastest.
    pub fn enumerate(
        self: &Self,
        platform_list: &Vec<String>,
        language_list: &Vec<String>,
        user_enumeration_list: &Vec<String>,
    ) -> (r: Vec<Self>)
        ensures
            r.deep_view() == enumerate_spec(
                self@,
                platform_list.deep_view(),
                language_list.deep_view(),
                user_enumeration_list.deep_view(),
            ),
    {
        let ghost ps = platform_list.deep_view();
        let ghost ls = language_list.deep_view();
        let ghost us = user_enumeration_list.deep_view();

        let mut files_with_platform: Vec<Self> = Vec::new();
        let mut i: usize = 0;
        while i < platform_list.len()
            invariant
                i <= platform_list.len(),
                ps == platform_list.deep_view(),
                files_with_platform.deep_view() == platform_copies(self@, ps.take(i as int)),
            decreases platform_list.len() - i,
        {
            let ghost pre = files_with_platform.deep_view();
            let mut new_context = self.duplicate();
            new_context.enumerations.platform = Some(platform_list[i].clone());
            files_with_platform.push(new_context);
            proof {
                assert(ps.take(i as int + 1).drop_last() =~= ps.take(i as int));
                assert(files_with_platform.deep_view() =~= pre.push(
                    with_platform(self@, ps[i as int]),
                ));
            }
            i += 1;
        }
        proof {
            assert(ps.take(platform_list.len() as int) =~= ps);
        }

        let mut expanded_list: Vec<Self> = if files_with_platform.len() == 0 {
            let mut start: Vec<Self> = Vec::new();
            start.push(self.duplicate());
            proof {
                assert(start.deep_view() =~= seq![self@]);
            }
            start
        } else {
            files_with_platform
        };
        let ghost after_platform = expanded_list.deep_view();
        proof {
            assert(after_platform == if ps.len() == 0 {
                seq![self@]
            } else {
                platform_copies(self@, ps)
            });
        }

        let mut files_with_language: Vec<Self> = Vec::new();
        let mut f: usize = 0;
        while f < expanded_list.len()
            invariant
                f <= expanded_list.len(),
                after_platform == expanded_list.deep_view(),
                ls == language_list.deep_view(),
                files_with_language.deep_view() == language_copies(
                    after_platform.take(f as int),
                    ls,
                ),
            decreases expanded_list.len() - f,
        {
            let ghost outer_pre = files_with_language.deep_view();
            let mut j: usize = 0;
            while j < language_list.len()
                invariant
                    j <= language_list.len(),
                    f < expanded_list.len(),
                    after_platform == expanded_list.deep_view(),
                    ls == language_list.deep_view(),
                    files_with_language.deep_view() == outer_pre + language_copies_of_one(
                        after_platform[f as int],
                        ls.take(j as int),
                    ),
                decreases language_list.len() - j,
            {
                let ghost pre = files_with_language.deep_view();
                let mut new_context = expanded_list[f].duplicate();
                new_context.enumerations.language = Some(language_list[j].clone());
                files_with_language.push(new_context);
                proof {
                    assert(ls.take(j as int + 1).drop_last() =~= ls.take(j as int));
                    assert(files_with_language.deep_view() =~= pre.push(
                        with_language(after_platform[f as int], ls[j as int]),
                    ));
                }
                j += 1;
            }
            proof {
                assert(ls.take(language_list.len() as int) =~= ls);
                assert(after_platform.take(f as int + 1).drop_last() =~= after_platform.take(
                    f as int,
                ));
                assert(after_platform.take(f as int + 1).last() == after_platform[f as int]);
            }
            f += 1;
        }
        proof {
            assert(after_platform.take(expanded_list.len() as int) =~= after_platform);
        }

        let expanded_list: Vec<Self> = if files_with_language.len() == 0 {
            proof {
                if ls.len() != 0 {
                    lemma_language_copies_len(after_platform, ls);
                }
            }
            expanded_list
        } else {
            proof {
                if ls.len() == 0 {
                    lemma_language_copies_empty(after_platform, ls);
                }
            }
            files_with_language
        };
        let ghost after_language = expanded_list.deep_view();
        proof {
            assert(after_language == if ls.len() == 0 {
                after_platform
            } else {
                language_copies(after_platform, ls)
            });
        }

        let mut files_with_enumeration: Vec<Self> = Vec::new();
        let mut f: usize = 0;
        while f < expanded_list.len()
            invariant
                f <= expanded_list.len(),
                after_language == expanded_list.deep_view(),
                us == user_enumeration_list.deep_view(),
                files_with_enumeration.deep_view() == user_copies(
                    after_language.take(f as int),
                    us,
                ),
            decreases expanded_list.len() - f,
        {
            let ghost outer_pre = files_with_enumeration.deep_view();
            let mut j: usize = 0;
            while j < user_enumeration_list.len()
                invariant
                    j <= user_enumeration_list.len(),
                    f < expanded_list.len(),
                    after_language == expanded_list.deep_view(),
                    us == user_enumeration_list.deep_view(),
                    files_with_enumeration.deep_view() == outer_pre + user_copies_of_one(
                        after_language[f as int],
                        us.take(j as int),
                    ),
                decreases user_enumeration_list.len() - j,
            {
                let ghost pre = files_with_enumeration.deep_view();
                let mut new_context = expanded_list[f].duplicate();
                new_context.enumerations.user_defined = Some(user_enumeration_list[j].clone());
                files_with_enumeration.push(new_context);
                proof {
                    assert(us.take(j as int + 1).drop_last() =~= us.take(j as int));
                    assert(files_with_enumeration.deep_view() =~= pre.push(
                        with_user_defined(after_language[f as int], us[j as int]),
                    ));
                }
                j += 1;
            }
            proof {
                assert(us.take(user_enumeration_list.len() as int) =~= us);
                assert(after_language.take(f as int + 1).drop_last() =~= after_language.take(
                    f as int,
                ));
                assert(after_language.take(f as int + 1).last() == after_language[f as int]);
            }
            f += 1;
        }
        proof {
            assert(after_language.take(expanded_list.len() as int) =~= after_language);
        }

        if files_with_enumeration.len() == 0 {
            proof {
                if us.len() != 0 {
                    lemma_user_copies_len(after_language, us);
                }
            }
            expanded_list
        } else {
            proof {
                if us.len() == 0 {
                    lemma_user_copies_empty(after_language, us);
                }
            }
            files_with_enumeration
        }
    }
}

/// With no user values, no copies at all are made.
proof fn lemma_user_copies_empty(list: Seq<FileContextView>, us: Seq<Seq<char>>)
    requires
        us.len() == 0,
    ensures
        user_copies(list, us).len() == 0,
    decreases list.len(),
{
    if list.len() > 0 {
        lemma_user_copies_empty(list.drop_last(), us);
    }
}

/// With no language values, no copies at all are made.
proof fn lemma_language_copies_empty(list: Seq<FileContextView>, ls: Seq<Seq<char>>)
    requires
        ls.len() == 0,
    ensures
        language_copies(list, ls).len() == 0,
    decreases list.len(),
{
    if list.len() > 0 {
        lemma_language_copies_empty(list.drop_last(), ls);
    }
}

/// With language values given, a nonempty context list yields copies.
proof fn lemma_language_copies_len(list: Seq<FileContextView>, ls: Seq<Seq<char>>)
    requires
        ls.len() >= 1,
    ensures
        language_copies(list, ls).len() == 0 ==> list.len() == 0,
    decreases list.len(),
{
    if list.len() > 0 {
        lemma_language_copies_one_len(list.last(), ls);
    }
}

proof fn lemma_language_copies_one_len(c: FileContextView, ls: Seq<Seq<char>>)
    requires
        ls.len() >= 1,
    ensures
        language_copies_of_one(c, ls).len() >= 1,
    decreases ls.len(),
{
}

/// With user values given, a nonempty context list yields copies.
proof fn lemma_user_copies_len(list: Seq<FileContextView>, us: Seq<Seq<char>>)
    requires
        us.len() >= 1,
    ensures
        user_copies(list, us).len() == 0 ==> list.len() == 0,
    decreases list.len(),
{
    if list.len() > 0 {
        lemma_user_copies_one_len(list.last(), us);
    }
}

proof fn lemma_user_copies_one_len(c: FileContextView, us: Seq<Seq<char>>)
    requires
        us.len() >= 1,
    ensures
        user_copies_of_one(c, us).len() >= 1,
    decreases us.len(),
{
}

} // verus!
