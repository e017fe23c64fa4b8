//! Harvested files: the directory listing the surrounding program gathers is
//! filtered by an include list, and each kept path is parsed into name,
//! extension and path for the iteration directives.

use vstd::prelude::*;

use crate::text::push_char;
use crate::text::seq_contains_string;
use crate::text::vec_contains_string;
use crate::util::extension_spec;
use crate::util::extract_extension_from_file_name;
use crate::util::extract_file_name_and_extension_from_path;
use crate::util::name_run_spec;
use crate::util::path_file_spec;
use crate::util::replace_if_not_none;
use crate::util::replace_if_not_none_spec;
use crate::util::remove_extensions_from_file_name;

verus! {

broadcast use vstd::string::group_string_axioms;

/// One entry of the harvested directory, as the collaborator reports it:
/// the bare file name, the full path, and whether it is a regular file.
#[derive(Clone, Debug)]
pub struct HarvestEntry {
    pub file_name: String,
    pub path: String,
    pub is_file: bool,
}

/// The mathematical shape of a directory entry.
pub ghost struct HarvestEntryView {
    pub file_name: Seq<char>,
    pub path: Seq<char>,
    pub is_file: bool,
}

impl View for HarvestEntry {
    type V = HarvestEntryView;

    open spec fn view(&self) -> HarvestEntryView {
        HarvestEntryView { file_name: self.file_name@, path: self.path@, is_file: self.is_file }
    }
}

impl DeepView for HarvestEntry {
    type V = HarvestEntryView;

    open spec fn deep_view(&self) -> HarvestEntryView {
        self.view()
    }
}

/// One file kept from the harvest, parsed into its parts.
#[derive(Debug)]
pub struct HarvestedFile {
    pub extension: Option<String>,
    pub file_name: Option<String>,
    pub path: Option<String>,
}

/// The mathematical shape of a harvested file.
pub ghost struct HarvestedFileView {
    pub extension: Option<Seq<char>>,
    pub file_name: Option<Seq<char>>,
    pub path: Option<Seq<char>>,
}

impl View for HarvestedFile {
    type V = HarvestedFileView;

    open spec fn view(&self) -> HarvestedFileView {
        HarvestedFileView {
            extension: self.extension.deep_view(),
            file_name: self.file_name.deep_view(),
            path: self.path.deep_view(),
        }
    }
}

impl DeepView for HarvestedFile {
    type V = HarvestedFileView;

    open spec fn deep_view(&self) -> HarvestedFileView {
        self.view()
    }
}

/// What parsing one harvested path yields: where the path has no file name,
/// only the path itself is kept; otherwise name and extension come from the
/// last path component, empty when absent.
pub open spec fn harvested_from_string_spec(p: Seq<char>) -> HarvestedFileView {
    match path_file_spec(p) {
        None => HarvestedFileView { extension: None, file_name: None, path: Some(p) },
        Some(fnx) => HarvestedFileView {
            extension: Some(
                match extension_spec(fnx) {
                    Some(e) => e,
                    None => Seq::empty(),
                },
            ),
            file_name: Some(
                match name_run_spec(fnx, 0) {
                    Some(n) => n,
                    None => Seq::empty(),
                },
            ),
            path: Some(p),
        },
    }
}

/// What one directory entry contributes to the harvest: nothing unless it is
/// a regular file; its path when its name is explicitly included; otherwise
/// its path when it has an extension and either the include list is empty or
/// holds that extension.
pub open spec fn entry_select_spec(e: HarvestEntryView, included: Seq<Seq<char>>) -> Seq<Seq<char>> {
    if !e.is_file {
        Seq::empty()
    } else if seq_contains_string(included, e.file_name) {
        seq![e.path]
    } else {
        match extension_spec(e.file_name) {
            Some(ext) => if !seq_contains_string(included, ext) && included.len() != 0 {
                Seq::empty()
            } else {
                seq![e.path]
            },
            None => Seq::empty(),
        }
    }
}

/// The paths the whole listing contributes, in order.
pub open spec fn harvest_select_spec(
    entries: Seq<HarvestEntryView>,
    included: Seq<Seq<char>>,
) -> Seq<Seq<char>>
    decreases entries.len(),
{
    if entries.len() == 0 {
        Seq::empty()
    } else {
        harvest_select_spec(entries.drop_last(), included) + entry_select_spec(
            entries.last(),
            included,
        )
    }
}

/// Each selected path parsed into a harvested file, in order.
pub open spec fn harvested_files_spec(paths: Seq<Seq<char>>) -> Seq<HarvestedFileView>
    decreases paths.len(),
{
    if paths.len() == 0 {
        Seq::empty()
    } else {
        harvested_files_spec(paths.drop_last()).push(harvested_from_string_spec(paths.last()))
    }
}

/// The flat listing text: one line per file, with either the short or the
/// fully expanded form.
pub open spec fn harvest_string_spec(files: Seq<HarvestedFileView>, with_path: bool) -> Seq<char>
    decreases files.len(),
{
    if files.len() == 0 {
        Seq::empty()
    } else {
        harvest_string_spec(files.drop_last(), with_path) + (if with_path {
            harvested_full_string_spec(files.last())
        } else {
            harvested_string_spec(files.last())
        }) + seq!['\n']
    }
}

pub open spec fn opt_or_empty(o: Option<Seq<char>>) -> Seq<char> {
    replace_if_not_none_spec(Seq::empty(), o)
}

/// Name, dot, extension.
pub open spec fn harvested_string_spec(f: HarvestedFileView) -> Seq<char> {
    opt_or_empty(f.file_name) + seq!['.'] + opt_or_empty(f.extension)
}

/// Path, name and extension run together.
pub open spec fn harvested_full_string_spec(f: HarvestedFileView) -> Seq<char> {
    opt_or_empty(f.path) + opt_or_empty(f.file_name) + opt_or_empty(f.extension)
}

impl HarvestedFile {
    /// The file as `name.extension`.
    pub fn to_string(self: &Self) -> (r: String)
        ensures
            r@ == harvested_string_spec(self@),
    {
        let mut out = replace_if_not_none("", &self.file_name);
        push_char(&mut out, '.');
        let ext = replace_if_not_none("", &self.extension);
        proof {
            reveal_strlit("");
            assert(""@ =~= Seq::<char>::empty());
        }
        out.concat(ext.as_str())
    }

    /// The file as path, name and extension run together.
    pub fn to_fully_expanded_string(self: &Self) -> (r: String)
        ensures
            r@ == harvested_full_string_spec(self@),
    {
        let out = replace_if_not_none("", &self.path);
        let name = replace_if_not_none("", &self.file_name);
        let ext = replace_if_not_none("", &self.extension);
        proof {
            reveal_strlit("");
            assert(""@ =~= Seq::<char>::empty());
        }
        out.concat(name.as_str()).concat(ext.as_str())
    }

    /// Parses one harvested path into its parts.
    pub fn from_string(path: &str) -> (r: Self)
        ensures
            r@ == harvested_from_string_spec(path@),
    {
        let file_name_and_extension = match extract_file_name_and_extension_from_path(path) {
            Some(f) => f,
            None => {
                return HarvestedFile {
                    extension: None,
                    file_name: None,
                    path: Some(String::from_str(path)),
                };
            },
        };
        let possible_extension = extract_extension_from_file_name(
            file_name_and_extension.as_str(),
        );
        let possible_file_name = remove_extensions_from_file_name(
            file_name_and_extension.as_str(),
        );
        let extension: String = match possible_extension {
            Some(e) => e,
            None => String::new(),
        };
        let file_name: String = match possible_file_name {
            Some(f) => f,
            None => String::new(),
        };
        HarvestedFile {
            extension: Some(extension),
            file_name: Some(file_name),
            path: Some(String::from_str(path)),
        }
    }
}

/// Filters the harvested listing by the include list and keeps the paths of
/// the selected regular files, in listing order.
pub fn harvest_all_files_in_dir(entries: &Vec<HarvestEntry>, include_list: &Vec<String>) -> (r: Vec<
    String,
>)
    ensures
        r.deep_view() == harvest_select_spec(entries.deep_view(), include_list.deep_view()),
{
    let ghost ev = entries.deep_view();
    let ghost iv = include_list.deep_view();
    let include_all_files: bool = include_list.len() == 0;
    let mut file_list: Vec<String> = Vec::new();
    let mut i: usize = 0;
    proof {
        assert(file_list.deep_view() =~= harvest_select_spec(ev.take(0), iv));
    }
    while i < entries.len()
        invariant
            i <= entries.len(),
            ev == entries.deep_view(),
            iv == include_list.deep_view(),
            include_all_files == (iv.len() == 0),
            file_list.deep_view() == harvest_select_spec(ev.take(i as int), iv),
        decreases entries.len() - i,
    {
        let ghost pre = file_list.deep_view();
        let entry = &entries[i];
        if entry.is_file {
            if vec_contains_string(include_list, &entry.file_name) {
                file_list.push(entry.path.clone());
            } else {
                let file_extension = extract_extension_from_file_name(entry.file_name.as_str());
                match file_extension {
                    Some(ext) => {
                        if !vec_contains_string(include_list, &ext) && !include_all_files {
                        } else {
                            file_list.push(entry.path.clone());
                        }
                    },
                    None => {},
                }
            }
        }
        proof {
            assert(ev.take(i as int + 1).drop_last() =~= ev.take(i as int));
            assert(ev.take(i as int + 1).last() == ev[i as int]);
            assert(file_list.deep_view() =~= pre + entry_select_spec(ev[i as int], iv));
        }
        i += 1;
    }
    proof {
        assert(ev.take(entries.len() as int) =~= ev);
    }
    file_list
}

/// Harvests the listing and parses each kept path.
pub fn harvest_files_from_dir(entries: &Vec<HarvestEntry>, include_list: &Vec<String>) -> (r: Vec<
    HarvestedFile,
>)
    ensures
        r.deep_view() == harvested_files_spec(
            harvest_select_spec(entries.deep_view(), include_list.deep_view()),
        ),
{
    let raw_file_list = harvest_all_files_in_dir(entries, include_list);
    let ghost pv = raw_file_list.deep_view();
    let mut harvested_file_list: Vec<HarvestedFile> = Vec::new();
    let mut i: usize = 0;
    proof {
        assert(harvested_file_list.deep_view() =~= harvested_files_spec(pv.take(0)));
    }
    while i < raw_file_list.len()
        invariant
            i <= raw_file_list.len(),
            pv == raw_file_list.deep_view(),
            harvested_file_list.deep_view() == harvested_files_spec(pv.take(i as int)),
        decreases raw_file_list.len() - i,
    {
        let ghost pre = harvested_file_list.deep_view();
        harvested_file_list.push(HarvestedFile::from_string(raw_file_list[i].as_str()));
        proof {
            assert(pv.take(i as int + 1).drop_last() =~= pv.take(i as int));
            assert(pv.take(i as int + 1).last() == pv[i as int]);
            assert(harvested_file_list.deep_view() =~= pre.push(
                harvested_from_string_spec(pv[i as int]),
            ));
        }
        i += 1;
    }
    proof {
        assert(pv.take(raw_file_list.len() as int) =~= pv);
    }
    harvested_file_list
}

/// The flat listing of the harvest, one file per line.
pub fn harvest_files_from_dir_as_string(
    entries: &Vec<HarvestEntry>,
    include_list: &Vec<String>,
    write_file_names_with_path: bool,
) -> (r: String)
    ensures
        r@ == harvest_string_spec(
            harvested_files_spec(
                harvest_select_spec(entries.deep_view(), include_list.deep_view()),
            ),
            write_file_names_with_path,
        ),
{
    let harvested_files = harvest_files_from_dir(entries, include_list);
    let ghost fv = harvested_files.deep_view();
    let mut return_string = String::new();
    let mut i: usize = 0;
    proof {
        assert(return_string@ =~= harvest_string_spec(fv.take(0), write_file_names_with_path));
    }
    while i < harvested_files.len()
        invariant
            i <= harvested_files.len(),
            fv == harvested_files.deep_view(),
            return_string@ == harvest_string_spec(fv.take(i as int), write_file_names_with_path),
        decreases harvested_files.len() - i,
    {
        let ghost pre = return_string@;
        let line = if write_file_names_with_path {
            harvested_files[i].to_fully_expanded_string()
        } else {
            harvested_files[i].to_string()
        };
        return_string = return_string.concat(line.as_str());
        push_char(&mut return_string, '\n');
        proof {
            assert(fv.take(i as int + 1).drop_last() =~= fv.take(i as int));
            assert(fv.take(i as int + 1).last() == fv[i as int]);
            assert(return_string@ =~= harvest_string_spec(
                fv.take(i as int + 1),
                write_file_names_with_path,
            ));
        }
        i += 1;
    }
    proof {
        assert(fv.take(harvested_files.len() as int) =~= fv);
    }
    return_string
}

} // verus!
