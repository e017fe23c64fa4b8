//! Descriptions of the output files to generate: name, extension, and the
//! enumeration values a copy is made for, with the cross-product expansion
//! over platform, language and enumeration lists.

use vstd::prelude::*;

verus! {

broadcast use vstd::string::group_string_axioms;

/// The mathematical shape of an output file description.
pub ghost struct OutputFileDescriptionView {
    pub name: Seq<char>,
    pub extension: Seq<char>,
    pub enumeration: Option<Seq<char>>,
    pub language: Option<Seq<char>>,
    pub platform: Option<Seq<char>>,
}

/// One output file to generate.
#[derive(Debug, Clone, PartialEq)]
pub struct OutputFileDescription {
    pub name: String,
    pub extension: String,
    pub enumeration: Option<String>,
    pub language: Option<String>,
    pub platform: Option<String>,
}

impl View for OutputFileDescription {
    type V = OutputFileDescriptionView;

    open spec fn view(&self) -> OutputFileDescriptionView {
        OutputFileDescriptionView {
            name: self.name@,
            extension: self.extension@,
            enumeration: self.enumeration.deep_view(),
            language: self.language.deep_view(),
            platform: self.platform.deep_view(),
        }
    }
}

impl DeepView for OutputFileDescription {
    type V = OutputFileDescriptionView;

    open spec fn deep_view(&self) -> OutputFileDescriptionView {
        self.view()
    }
}

/// `_` plus the value, where one is present.
pub open spec fn ofd_opt_append_spec(o: Option<Seq<char>>) -> Seq<char> {
    match o {
        Some(v) => seq!['_'] + v,
        None => Seq::empty(),
    }
}

/// The name with each present enumeration value appended after `_`:
/// platform first, then language, then the user-defined enumeration.
pub open spec fn ofd_expand_spec(c: OutputFileDescriptionView) -> Seq<char> {
    c.name + ofd_opt_append_spec(c.platform) + ofd_opt_append_spec(c.language)
        + ofd_opt_append_spec(c.enumeration)
}

/// The expanded name followed by `.` and the extension.
pub open spec fn ofd_name_with_extension_spec(c: OutputFileDescriptionView) -> Seq<char> {
    ofd_expand_spec(c) + seq!['.'] + c.extension
}

pub open spec fn ofd_with_platform(c: OutputFileDescriptionView, p: Seq<char>) -> OutputFileDescriptionView {
    OutputFileDescriptionView { platform: Some(p), ..c }
}

pub open spec fn ofd_with_language(c: OutputFileDescriptionView, l: Seq<char>) -> OutputFileDescriptionView {
    OutputFileDescriptionView { language: Some(l), ..c }
}

pub open spec fn ofd_with_enumeration(c: OutputFileDescriptionView, e: Seq<char>) -> OutputFileDescriptionView {
    OutputFileDescriptionView { enumeration: Some(e), ..c }
}

pub open spec fn ofd_platform_cross_one(c: OutputFileDescriptionView, ps: Seq<Seq<char>>) -> Seq<
    OutputFileDescriptionView,
>
    decreases ps.len(),
{
    if ps.len() == 0 {
        Seq::empty()
    } else {
        ofd_platform_cross_one(c, ps.drop_last()).push(ofd_with_platform(c, ps.last()))
    }
}

/// One copy per description and platform value, description-major.
pub open spec fn ofd_platform_cross(
    list: Seq<OutputFileDescriptionView>,
    ps: Seq<Seq<char>>,
) -> Seq<OutputFileDescriptionView>
    decreases list.len(),
{
    if list.len() == 0 {
        Seq::empty()
    } else {
        ofd_platform_cross(list.drop_last(), ps) + ofd_platform_cross_one(list.last(), ps)
    }
}

pub open spec fn ofd_language_cross_one(c: OutputFileDescriptionView, ls: Seq<Seq<char>>) -> Seq<
    OutputFileDescriptionView,
>
    decreases ls.len(),
{
    if ls.len() == 0 {
        Seq::empty()
    } else {
        ofd_language_cross_one(c, ls.drop_last()).push(ofd_with_language(c, ls.last()))
    }
}

/// One copy per description and language value, description-major.
pub open spec fn ofd_language_cross(
    list: Seq<OutputFileDescriptionView>,
    ls: Seq<Seq<char>>,
) -> Seq<OutputFileDescriptionView>
    decreases list.len(),
{
    if list.len() == 0 {
        Seq::empty()
    } else {
        ofd_language_cross(list.drop_last(), ls) + ofd_language_cross_one(list.last(), ls)
    }
}

pub open spec fn ofd_enumeration_cross_one(c: OutputFileDescriptionView, es: Seq<Seq<char>>) -> Seq<
    OutputFileDescriptionView,
>
    decreases es.len(),
{
    if es.len() == 0 {
        Seq::empty()
    } else {
        ofd_enumeration_cross_one(c, es.drop_last()).push(ofd_with_enumeration(c, es.last()))
    }
}

/// One copy per description and enumeration value, description-major.
pub open spec fn ofd_enumeration_cross(
    list: Seq<OutputFileDescriptionView>,
    es: Seq<Seq<char>>,
) -> Seq<OutputFileDescriptionView>
    decreases list.len(),
{
    if list.len() == 0 {
        Seq::empty()
    } else {
        ofd_enumeration_cross(list.drop_last(), es) + ofd_enumeration_cross_one(list.last(), es)
    }
}

/// The full expansion: each stage crosses the running list with one value
/// list, and a stage that would produce nothing leaves the list unchanged.
pub open spec fn expand_with_enumerations_spec(
    list: Seq<OutputFileDescriptionView>,
    ps: Seq<Seq<char>>,
    ls: Seq<Seq<char>>,
    es: Seq<Seq<char>>,
) -> Seq<OutputFileDescriptionView> {
    let s1 = ofd_platform_cross(list, ps);
    let r1 = if s1.len() == 0 {
        list
    } else {
        s1
    };
    let s2 = ofd_language_cross(r1, ls);
    let r2 = if s2.len() == 0 {
        r1
    } else {
        s2
    };
    let s3 = ofd_enumeration_cross(r2, es);
    if s3.len() == 0 {
        r2
    } else {
        s3
    }
}

/// The companion files of one description: the description itself, then a
/// header for a `c`/`cpp` source or a `cpp` source for a header.
pub open spec fn matching_chunk_spec(c: OutputFileDescriptionView) -> Seq<OutputFileDescriptionView> {
    if c.extension == "cpp"@ || c.extension == "c"@ {
        seq![c, OutputFileDescriptionView { extension: "h"@, ..c }]
    } else if c.extension == "h"@ {
        seq![c, OutputFileDescriptionView { extension: "cpp"@, ..c }]
    } else {
        seq![c]
    }
}

/// Every description followed by its companion file, where it has one.
pub open spec fn expand_with_matching_files_spec(list: Seq<OutputFileDescriptionView>) -> Seq<
    OutputFileDescriptionView,
>
    decreases list.len(),
{
    if list.len() == 0 {
        Seq::empty()
    } else {
        expand_with_matching_files_spec(list.drop_last()) + matching_chunk_spec(list.last())
    }
}

impl OutputFileDescription {
    /// Field-for-field copy.
    pub fn duplicate(&self) -> (r: Self)
        ensures
            r@ == self@,
    {
        Self {
            name: self.name.clone(),
            extension: self.extension.clone(),
            enumeration: crate::util::clone_opt_string(&self.enumeration),
            language: crate::util::clone_opt_string(&self.language),
            platform: crate::util::clone_opt_string(&self.platform),
        }
    }

    /// The expanded name, a dot, and the extension.
    pub fn name_with_extension(self: &Self) -> (r: String)
        ensures
            r@ == ofd_name_with_extension_spec(self@),
    {
        let mut out = self.name_expanded_with_enumerations();
        crate::text::push_char(&mut out, '.');
        out.concat(self.extension.as_str())
    }

    /// The name with each present enumeration value appended after `_`.
    pub fn name_expanded_with_enumerations(self: &Self) -> (r: String)
        ensures
            r@ == ofd_expand_spec(self@),
    {
        let mut out = self.name.clone();
        if let Some(platform) = &self.platform {
            crate::text::push_char(&mut out, '_');
            out = out.concat(platform.as_str());
        }
        if let Some(language) = &self.language {
            crate::text::push_char(&mut out, '_');
            out = out.concat(language.as_str());
        }
        if let Some(enumeration) = &self.enumeration {
            crate::text::push_char(&mut out, '_');
            out = out.concat(enumeration.as_str());
        }
        proof {
            assert(out@ =~= ofd_expand_spec(self@));
        }
        out
    }
}

/// Expands each description into one copy per combination of the platform,
/// language and enumeration values; an empty list leaves its dimension out.
pub fn expand_with_enumerations(
    output_file_list: &Vec<OutputFileDescription>,
    platform_list: &Vec<String>,
    language_list: &Vec<String>,
    enumeration_list: &Vec<String>,
) -> (r: Vec<OutputFileDescription>)
    ensures
        r.deep_view() == expand_with_enumerations_spec(
            output_file_list.deep_view(),
            platform_list.deep_view(),
            language_list.deep_view(),
            enumeration_list.deep_view(),
        ),
{
    let files_with_platform = cross_platforms(output_file_list, platform_list);
    let results: &Vec<OutputFileDescription> = if files_with_platform.len() == 0 {
        output_file_list
    } else {
        &files_with_platform
    };
    let files_with_language = cross_languages(results, language_list);
    let results: &Vec<OutputFileDescription> = if files_with_language.len() == 0 {
        results
    } else {
        &files_with_language
    };
    let files_with_enumeration = cross_enumerations(results, enumeration_list);
    if files_with_enumeration.len() == 0 {
        duplicate_list(results)
    } else {
        files_with_enumeration
    }
}

/// Every description followed by its companion source or header, for the C
/// family: `c` and `cpp` files gain an `h` partner, `h` files a `cpp` one.
pub fn expand_with_matching_files(output_file_list: &Vec<OutputFileDescription>) -> (r: Vec<
    OutputFileDescription,
>)
    ensures
        r.deep_view() == expand_with_matching_files_spec(output_file_list.deep_view()),
{
    let ghost dv = output_file_list.deep_view();
    let mut results: Vec<OutputFileDescription> = Vec::new();
    let mut i: usize = 0;
    proof {
        assert(results.deep_view() =~= expand_with_matching_files_spec(dv.take(0)));
    }
    while i < output_file_list.len()
        invariant
            i <= output_file_list.len(),
            dv == output_file_list.deep_view(),
            results.deep_view() == expand_with_matching_files_spec(dv.take(i as int)),
        decreases output_file_list.len() - i,
    {
        let ghost pre = results.deep_view();
        let file = &output_file_list[i];
        results.push(file.duplicate());
        if file.extension == String::from_str("cpp") || file.extension == String::from_str("c") {
            let mut matching_file = file.duplicate();
            matching_file.extension = String::from_str("h");
            results.push(matching_file);
            proof {
                assert(results.deep_view() =~= pre + matching_chunk_spec(dv[i as int]));
            }
        } else if file.extension == String::from_str("h") {
            let mut matching_file = file.duplicate();
            matching_file.extension = String::from_str("cpp");
            results.push(matching_file);
            proof {
                assert(results.deep_view() =~= pre + matching_chunk_spec(dv[i as int]));
            }
        } else {
            proof {
                assert(results.deep_view() =~= pre + matching_chunk_spec(dv[i as int]));
            }
        }
        proof {
            assert(dv.take(i as int + 1).drop_last() =~= dv.take(i as int));
            assert(dv.take(i as int + 1).last() == dv[i as int]);
        }
        i += 1;
    }
    proof {
        assert(dv.take(output_file_list.len() as int) =~= dv);
    }
    results
}

/// Field-for-field copy of a whole list.
fn duplicate_list(list: &Vec<OutputFileDescription>) -> (r: Vec<OutputFileDescription>)
    ensures
        r.deep_view() == list.deep_view(),
{
    let mut out: Vec<OutputFileDescription> = Vec::new();
    let mut i: usize = 0;
    while i < list.len()
        invariant
            i <= list.len(),
            out.deep_view() == list.deep_view().take(i as int),
        decreases list.len() - i,
    {
        let ghost pre = out.deep_view();
        out.push(list[i].duplicate());
        proof {
            assert(out.deep_view() =~= pre.push(list.deep_view()[i as int]));
            assert(list.deep_view().take(i as int + 1) =~= list.deep_view().take(i as int).push(
                list.deep_view()[i as int],
            ));
        }
        i += 1;
    }
    proof {
        assert(list.deep_view().take(list.len() as int) =~= list.deep_view());
    }
    out
}

fn cross_platforms(list: &Vec<OutputFileDescription>, ps: &Vec<String>) -> (r: Vec<
    OutputFileDescription,
>)
    ensures
        r.deep_view() == ofd_platform_cross(list.deep_view(), ps.deep_view()),
{
    let ghost lv = list.deep_view();
    let ghost pv = ps.deep_view();
    let mut out: Vec<OutputFileDescription> = Vec::new();
    let mut f: usize = 0;
    proof {
        assert(out.deep_view() =~= ofd_platform_cross(lv.take(0), pv));
    }
    while f < list.len()
        invariant
            f <= list.len(),
            lv == list.deep_view(),
            pv == ps.deep_view(),
            out.deep_view() == ofd_platform_cross(lv.take(f as int), pv),
        decreases list.len() - f,
    {
        let ghost outer_pre = out.deep_view();
        let mut j: usize = 0;
        while j < ps.len()
            invariant
                j <= ps.len(),
                f < list.len(),
                lv == list.deep_view(),
                pv == ps.deep_view(),
                out.deep_view() == outer_pre + ofd_platform_cross_one(
                    lv[f as int],
                    pv.take(j as int),
                ),
            decreases ps.len() - j,
        {
            let ghost pre = out.deep_view();
            let mut output_file = list[f].duplicate();
            output_file.platform = Some(ps[j].clone());
            out.push(output_file);
            proof {
                assert(pv.take(j as int + 1).drop_last() =~= pv.take(j as int));
                assert(out.deep_view() =~= pre.push(ofd_with_platform(lv[f as int], pv[j as int])));
            }
            j += 1;
        }
        proof {
            assert(pv.take(ps.len() as int) =~= pv);
            assert(lv.take(f as int + 1).drop_last() =~= lv.take(f as int));
            assert(lv.take(f as int + 1).last() == lv[f as int]);
        }
        f += 1;
    }
    proof {
        assert(lv.take(list.len() as int) =~= lv);
    }
    out
}

fn cross_languages(list: &Vec<OutputFileDescription>, ls: &Vec<String>) -> (r: Vec<
    OutputFileDescription,
>)
    ensures
        r.deep_view() == ofd_language_cross(list.deep_view(), ls.deep_view()),
{
    let ghost lv = list.deep_view();
    let ghost sv = ls.deep_view();
    let mut out: Vec<OutputFileDescription> = Vec::new();
    let mut f: usize = 0;
    proof {
        assert(out.deep_view() =~= ofd_language_cross(lv.take(0), sv));
    }
    while f < list.len()
        invariant
            f <= list.len(),
            lv == list.deep_view(),
            sv == ls.deep_view(),
            out.deep_view() == ofd_language_cross(lv.take(f as int), sv),
        decreases list.len() - f,
    {
        let ghost outer_pre = out.deep_view();
        let mut j: usize = 0;
        while j < ls.len()
            invariant
                j <= ls.len(),
                f < list.len(),
                lv == list.deep_view(),
                sv == ls.deep_view(),
                out.deep_view() == outer_pre + ofd_language_cross_one(
                    lv[f as int],
                    sv.take(j as int),
                ),
            decreases ls.len() - j,
        {
            let ghost pre = out.deep_view();
            let mut output_file = list[f].duplicate();
            output_file.language = Some(ls[j].clone());
            out.push(output_file);
            proof {
                assert(sv.take(j as int + 1).drop_last() =~= sv.take(j as int));
                assert(out.deep_view() =~= pre.push(ofd_with_language(lv[f as int], sv[j as int])));
            }
            j += 1;
        }
        proof {
            assert(sv.take(ls.len() as int) =~= sv);
            assert(lv.take(f as int + 1).drop_last() =~= lv.take(f as int));
            assert(lv.take(f as int + 1).last() == lv[f as int]);
        }
        f += 1;
    }
    proof {
        assert(lv.take(list.len() as int) =~= lv);
    }
    out
}

fn cross_enumerations(list: &Vec<OutputFileDescription>, es: &Vec<String>) -> (r: Vec<
    OutputFileDescription,
>)
    ensures
        r.deep_view() == ofd_enumeration_cross(list.deep_view(), es.deep_view()),
{
    let ghost lv = list.deep_view();
    let ghost ev = es.deep_view();
    let mut out: Vec<OutputFileDescription> = Vec::new();
    let mut f: usize = 0;
    proof {
        assert(out.deep_view() =~= ofd_enumeration_cross(lv.take(0), ev));
    }
    while f < list.len()
        invariant
            f <= list.len(),
            lv == list.deep_view(),
            ev == es.deep_view(),
            out.deep_view() == ofd_enumeration_cross(lv.take(f as int), ev),
        decreases list.len() - f,
    {
        let ghost outer_pre = out.deep_view();
        let mut j: usize = 0;
        while j < es.len()
            invariant
                j <= es.len(),
                f < list.len(),
                lv == list.deep_view(),
                ev == es.deep_view(),
                out.deep_view() == outer_pre + ofd_enumeration_cross_one(
                    lv[f as int],
                    ev.take(j as int),
                ),
            decreases es.len() - j,
        {
            let ghost pre = out.deep_view();
            let mut output_file = list[f].duplicate();
            output_file.enumeration = Some(es[j].clone());
            out.push(output_file);
            proof {
                assert(ev.take(j as int + 1).drop_last() =~= ev.take(j as int));
                assert(out.deep_view() =~= pre.push(
                    ofd_with_enumeration(lv[f as int], ev[j as int]),
                ));
            }
            j += 1;
        }
        proof {
            assert(ev.take(es.len() as int) =~= ev);
            assert(lv.take(f as int + 1).drop_last() =~= lv.take(f as int));
            assert(lv.take(f as int + 1).last() == lv[f as int]);
        }
        f += 1;
    }
    proof {
        assert(lv.take(list.len() as int) =~= lv);
    }
    out
}

} // verus!
