//! Where a project's artifacts live under the projects base folder, and which
//! status folder a project belongs in.

use vstd::prelude::*;
use crate::text::{matches_at, occurs_at, same_text};

verus! {

/// Folder of proposals, directly under the base folder.
pub open spec fn proposals_dir_text() -> Seq<char> {
    "01 RFPs"@
}

/// Subfolder of a project folder that holds the export document.
pub open spec fn proposal_subdir_text() -> Seq<char> {
    "02 Proposal"@
}

/// The placeholder that template names carry in place of a project number.
pub open spec fn token_text() -> Seq<char> {
    "yy-cccnn"@
}

/// The template folder copied for each new project, under the proposals folder.
pub open spec fn template_folder_text() -> Seq<char> {
    "_yy-cccnn Project Name"@
}

/// The name of a project's folder: `<number> <short name>`.
pub open spec fn folder_name_text(number: Seq<char>, short_name: Seq<char>) -> Seq<char> {
    number + seq![' '] + short_name
}

/// The stem of the live export document; its extension is `.json`.
pub open spec fn live_stem_text(number: Seq<char>) -> Seq<char> {
    number + "-var"@
}

/// The name of the live export document: `<number>-var.json`.
pub open spec fn live_name_text(number: Seq<char>) -> Seq<char> {
    live_stem_text(number) + ".json"@
}

/// The name of the export document as the template ships it:
/// `<number>-var Default Values.json`.
pub open spec fn template_name_text(number: Seq<char>) -> Seq<char> {
    number + "-var Default Values.json"@
}

/// Which artifact of a project a path is asked for.
#[derive(Debug, Clone, Copy, PartialEq, Eq, Structural)]
pub enum ArtifactKind {
    Folder,
    LiveDocument,
    TemplateDocument,
}

/// The path, as components below the base folder, of an artifact of a project.
pub open spec fn artifact_components(number: Seq<char>, short_name: Seq<char>, kind: ArtifactKind) -> Seq<Seq<char>> {
    let folder = seq![proposals_dir_text(), folder_name_text(number, short_name)];
    match kind {
        ArtifactKind::Folder => folder,
        ArtifactKind::LiveDocument => folder + seq![proposal_subdir_text(), live_name_text(number)],
        ArtifactKind::TemplateDocument => folder + seq![proposal_subdir_text(), template_name_text(number)],
    }
}

/// The texts of a list of path components.
pub open spec fn components_of(v: Seq<String>) -> Seq<Seq<char>> {
    v.map_values(|s: String| s@)
}

/// The placeholder that template names carry in place of a project number.
pub fn placeholder_token() -> (r: &'static str)
    ensures
        r@ == token_text(),
{
    "yy-cccnn"
}

/// The name of a project's folder: `<number> <short name>`.
pub fn project_folder_name(number: &str, short_name: &str) -> (r: String)
    ensures
        r@ == folder_name_text(number@, short_name@),
{
    let mut s = number.to_owned();
    proof { reveal_strlit(" "); }
    s.append(" ");
    s.append(short_name);
    assert(s@ =~= folder_name_text(number@, short_name@));
    s
}

/// The stem of the live export document, `<number>-var`.
pub fn live_document_stem(number: &str) -> (r: String)
    ensures
        r@ == live_stem_text(number@),
{
    let mut s = number.to_owned();
    s.append("-var");
    s
}

/// The name of the live export document, `<number>-var.json`.
pub fn live_document_name(number: &str) -> (r: String)
    ensures
        r@ == live_name_text(number@),
{
    let mut s = live_document_stem(number);
    s.append(".json");
    s
}

/// The name of the export document as the template ships it.
pub fn template_document_name(number: &str) -> (r: String)
    ensures
        r@ == template_name_text(number@),
{
    let mut s = number.to_owned();
    s.append("-var Default Values.json");
    s
}

/// The path of the template folder, as components below the base folder.
pub fn template_source_path() -> (r: Vec<String>)
    ensures
        components_of(r@) == seq![proposals_dir_text(), template_folder_text()],
{
    let mut v: Vec<String> = Vec::new();
    v.push("01 RFPs".to_owned());
    v.push("_yy-cccnn Project Name".to_owned());
    assert(components_of(v@) =~= seq![proposals_dir_text(), template_folder_text()]);
    v
}

/// The path of an artifact of a project, as components below the base folder.
pub fn artifact_path(number: &str, short_name: &str, kind: ArtifactKind) -> (r: Vec<String>)
    ensures
        components_of(r@) == artifact_components(number@, short_name@, kind),
{
    let mut v: Vec<String> = Vec::new();
    v.push("01 RFPs".to_owned());
    v.push(project_folder_name(number, short_name));
    match kind {
        ArtifactKind::Folder => {},
        ArtifactKind::LiveDocument => {
            v.push("02 Proposal".to_owned());
            v.push(live_document_name(number));
        },
        ArtifactKind::TemplateDocument => {
            v.push("02 Proposal".to_owned());
            v.push(template_document_name(number));
        },
    }
    assert(components_of(v@) =~= artifact_components(number@, short_name@, kind));
    v
}

/// What `str::to_lowercase` gives for a text.
pub uninterp spec fn lower_of(s: Seq<char>) -> Seq<char>;

/// Relies on `str::to_lowercase`: the result depends on the characters alone.
#[verifier::external_body]
fn lowercase(s: &str) -> (r: String)
    ensures
        r@ == lower_of(s@),
{
    s.to_lowercase()
}

/// The status folder for a status already in lower case.
pub open spec fn status_folder(l: Seq<char>) -> Option<Seq<char>> {
    if l == "draft"@ || l == "rfp"@ || l == "proposal"@ || l == "submitted"@ {
        Some("01 RFPs"@)
    } else if l == "active"@ || l == "current"@ || l == "awarded"@ || l == "ongoing"@ {
        Some("11 Current"@)
    } else if l == "completed"@ || l == "finished"@ || l == "delivered"@ {
        Some("99 Completed"@)
    } else if l == "cancelled"@ || l == "inactive"@ || l == "lost"@ || l == "on hold"@ {
        Some("00 Inactive"@)
    } else {
        None
    }
}

/// The status folder for a status already in lower case.
pub fn folder_for_lowered_status(l: &str) -> (r: Option<&'static str>)
    ensures
        match status_folder(l@) {
            Some(f) => r matches Some(x) && x@ == f,
            None => r.is_none(),
        },
{
    if same_text(l, "draft") || same_text(l, "rfp") || same_text(l, "proposal") || same_text(l, "submitted") {
        Some("01 RFPs")
    } else if same_text(l, "active") || same_text(l, "current") || same_text(l, "awarded") || same_text(l, "ongoing") {
        Some("11 Current")
    } else if same_text(l, "completed") || same_text(l, "finished") || same_text(l, "delivered") {
        Some("99 Completed")
    } else if same_text(l, "cancelled") || same_text(l, "inactive") || same_text(l, "lost") || same_text(l, "on hold") {
        Some("00 Inactive")
    } else {
        None
    }
}

/// The status folder a project of the given status belongs in, matched without
/// regard to case; an unknown status is refused with `Unknown status: <status>`.
pub fn get_folder_for_status(status: &str) -> (r: Result<&'static str, String>)
    ensures
        match status_folder(lower_of(status@)) {
            Some(f) => r matches Ok(x) && x@ == f,
            None => r matches Err(m) && m@ == "Unknown status: "@ + status@,
        },
{
    let l = lowercase(status);
    match folder_for_lowered_status(l.as_str()) {
        Some(f) => Ok(f),
        None => {
            let mut m = "Unknown status: ".to_owned();
            m.append(status);
            Err(m)
        },
    }
}

/// The status folders under the base folder, in the order they are searched.
pub open spec fn status_dirs_text() -> Seq<Seq<char>> {
    seq!["00 Inactive"@, "01 RFPs"@, "11 Current"@, "99 Completed"@]
}

/// The status folders under the base folder, in the order they are searched.
pub fn status_dirs() -> (r: Vec<&'static str>)
    ensures
        r@.map_values(|s: &str| s@) == status_dirs_text(),
{
    let v = vec!["00 Inactive", "01 RFPs", "11 Current", "99 Completed"];
    assert(v@.map_values(|s: &str| s@) =~= status_dirs_text());
    v
}

/// The first name at or after `from` that starts with `prefix`.
pub open spec fn first_with_prefix(names: Seq<Seq<char>>, prefix: Seq<char>, from: int) -> Option<int>
    decreases names.len() - from,
{
    if from < 0 || from >= names.len() {
        None
    } else if occurs_at(names[from], 0, prefix) {
        Some(from)
    } else {
        first_with_prefix(names, prefix, from + 1)
    }
}

proof fn lemma_first_with_prefix_range(names: Seq<Seq<char>>, prefix: Seq<char>, from: int)
    requires
        0 <= from,
    ensures
        first_with_prefix(names, prefix, from) matches Some(i) ==> from <= i < names.len(),
    decreases names.len() - from,
{
    if from < names.len() && !occurs_at(names[from], 0, prefix) {
        lemma_first_with_prefix_range(names, prefix, from + 1);
    }
}

/// The position of the first folder name of a listing that starts with the project
/// number.
pub fn find_project_entry(names: &Vec<String>, number: &str) -> (r: Option<usize>)
    ensures
        match first_with_prefix(components_of(names@), number@, 0) {
            Some(i) => r matches Some(j) && j as int == i && i < names@.len(),
            None => r.is_none(),
        },
{
    proof {
        lemma_first_with_prefix_range(components_of(names@), number@, 0);
    }
    let mut i: usize = 0;
    while i < names.len()
        invariant
            i <= names@.len(),
            first_with_prefix(components_of(names@), number@, i as int) == first_with_prefix(
                components_of(names@),
                number@,
                0,
            ),
        decreases names.len() - i,
    {
        assert(components_of(names@)[i as int] == names@[i as int]@);
        if matches_at(names[i].as_str(), 0, number) {
            return Some(i);
        }
        i = i + 1;
    }
    None
}

/// A folder name shaped like a project folder: at least eight bytes, with `-` as its
/// third character.
pub open spec fn project_folder_shape(name: &str) -> bool {
    name.len() >= 8 && name@.len() > 2 && name@[2] == '-'
}

/// Whether a folder name is shaped like a project folder.
pub fn looks_like_project_folder(name: &str) -> (r: bool)
    ensures
        r == project_folder_shape(name),
{
    name.len() >= 8 && name.unicode_len() > 2 && name.get_char(2) == '-'
}

/// The folders added to a project when it is awarded, from the additional-folders
/// template under the current-projects folder.
pub open spec fn awarded_folders_text() -> Seq<Seq<char>> {
    seq!["03 Contract"@, "04 Deliverables"@, "05 Submittals"@, "11 SubContractors"@, "98 Outgoing"@, "99 Temp"@]
}

/// The folders added to a project when it is awarded.
pub fn awarded_template_folders() -> (r: Vec<&'static str>)
    ensures
        r@.map_values(|s: &str| s@) == awarded_folders_text(),
{
    let v = vec!["03 Contract", "04 Deliverables", "05 Submittals", "11 SubContractors", "98 Outgoing", "99 Temp"];
    assert(v@.map_values(|s: &str| s@) =~= awarded_folders_text());
    v
}

} // verus!
