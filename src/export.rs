//! The export document: a proposal is joined with its project, company and contact
//! (references matched by their local parts), the fixed list of labelled fields is
//! assembled, and the result is written out as a JSON object.

use vstd::prelude::*;
use crate::calendar::{format_issue_date, issue_date_or_today, issue_date_text, today_like};
use crate::codec::{normalize, normalize_local_part};
use crate::text::{push_signed, signed_decimal};

verus! {

/// A fee proposal as the store holds it.
#[derive(Debug, Clone)]
pub struct FeeRecord {
    pub id: String,
    pub name: String,
    pub number: String,
    pub rev: i32,
    pub status: String,
    pub issue_date: String,
    pub activity: String,
    pub package: String,
    pub project_id: String,
    pub company_id: String,
    pub contact_id: String,
    pub strap_line: String,
}

/// A project as the store holds it; `number` is its `YY-CCCNN` text.
#[derive(Debug, Clone)]
pub struct ProjectRecord {
    pub id: String,
    pub name: String,
    pub name_short: String,
    pub status: String,
    pub area: String,
    pub city: String,
    pub country: String,
    pub number: String,
}

/// A client company as the store holds it.
#[derive(Debug, Clone)]
pub struct CompanyRecord {
    pub id: String,
    pub name: String,
    pub city: String,
    pub country: String,
}

/// A contact as the store holds it; any field may be missing.
#[derive(Debug, Clone)]
pub struct ContactRecord {
    pub id: String,
    pub first_name: Option<String>,
    pub last_name: Option<String>,
    pub full_name: Option<String>,
    pub email: Option<String>,
    pub phone: Option<String>,
    pub position: Option<String>,
    pub company: Option<String>,
}

/// One labelled value of the export document.
#[derive(Debug, Clone)]
pub struct ExportField {
    pub label: String,
    pub value: String,
}

/// The export document before it is written: labelled values in a fixed order.
#[derive(Debug, Clone)]
pub struct ExportRecord {
    pub fields: Vec<ExportField>,
}

/// Why a proposal could not be exported.
#[derive(Debug, Clone, Copy, PartialEq, Eq, Structural)]
pub enum BindError {
    ProposalNotFound,
    ProjectNotFound,
    CompanyNotFound,
    ContactNotFound,
    IoError,
}

/// A record that carries a store identifier.
pub trait Identified {
    spec fn id_text(&self) -> Seq<char>;

    fn id_str(&self) -> (r: &str)
        ensures
            r@ == self.id_text(),
    ;
}

impl Identified for FeeRecord {
    open spec fn id_text(&self) -> Seq<char> {
        self.id@
    }

    fn id_str(&self) -> (r: &str) {
        self.id.as_str()
    }
}

impl Identified for ProjectRecord {
    open spec fn id_text(&self) -> Seq<char> {
        self.id@
    }

    fn id_str(&self) -> (r: &str) {
        self.id.as_str()
    }
}

impl Identified for CompanyRecord {
    open spec fn id_text(&self) -> Seq<char> {
        self.id@
    }

    fn id_str(&self) -> (r: &str) {
        self.id.as_str()
    }
}

impl Identified for ContactRecord {
    open spec fn id_text(&self) -> Seq<char> {
        self.id@
    }

    fn id_str(&self) -> (r: &str) {
        self.id.as_str()
    }
}

/// The first record at or after `from` whose identifier has the local part of `key`.
pub open spec fn first_match<T: Identified>(items: Seq<T>, key: Seq<char>, from: int) -> Option<int>
    decreases items.len() - from,
{
    if from < 0 || from >= items.len() {
        None
    } else if normalize(items[from].id_text()) == normalize(key) {
        Some(from)
    } else {
        first_match(items, key, from + 1)
    }
}

proof fn lemma_first_match_range<T: Identified>(items: Seq<T>, key: Seq<char>, from: int)
    requires
        0 <= from,
    ensures
        first_match(items, key, from) matches Some(i) ==> from <= i < items.len(),
    decreases items.len() - from,
{
    if from < items.len() && normalize(items[from].id_text()) != normalize(key) {
        lemma_first_match_range(items, key, from + 1);
    }
}

/// The position of the first record that `reference` names, whatever the shape of
/// either identifier.
pub fn find_by_reference<T: Identified>(items: &Vec<T>, reference: &str) -> (r: Option<usize>)
    ensures
        match first_match(items@, reference@, 0) {
            Some(i) => r matches Some(j) && j as int == i && 0 <= i < items@.len(),
            None => r.is_none(),
        },
{
    proof {
        lemma_first_match_range(items@, reference@, 0);
    }
    let key = normalize_local_part(reference);
    let mut i: usize = 0;
    while i < items.len()
        invariant
            i <= items@.len(),
            key@ == normalize(reference@),
            first_match(items@, reference@, i as int) == first_match(items@, reference@, 0),
        decreases items.len() - i,
    {
        let k = normalize_local_part(items[i].id_str());
        if k == key {
            return Some(i);
        }
        i = i + 1;
    }
    None
}

/// The text is present and not empty.
pub open spec fn filled(o: Option<String>) -> bool {
    o matches Some(s) && s@.len() > 0
}

/// A contact with every field the proposal documents need.
pub open spec fn contact_complete(c: ContactRecord) -> bool {
    filled(c.first_name) && filled(c.last_name) && filled(c.email) && filled(c.phone) && filled(
        c.position,
    ) && c.company.is_some()
}

/// The complete contacts of a list, in order.
pub open spec fn complete_only(cs: Seq<ContactRecord>) -> Seq<ContactRecord>
    decreases cs.len(),
{
    if cs.len() == 0 {
        cs
    } else {
        let rest = complete_only(cs.subrange(1, cs.len() as int));
        if contact_complete(cs[0]) {
            seq![cs[0]] + rest
        } else {
            rest
        }
    }
}

fn is_filled(o: &Option<String>) -> (r: bool)
    ensures
        r == filled(*o),
{
    match o {
        Some(s) => !s.as_str().is_empty(),
        None => false,
    }
}

/// The contacts that have a first and last name, e-mail, phone, position and
/// company, in their order; the others are left out.
pub fn complete_contacts(contacts: Vec<ContactRecord>) -> (r: Vec<ContactRecord>)
    ensures
        r@ == complete_only(contacts@),
{
    let ghost all = contacts@;
    let mut rest = contacts;
    let mut out: Vec<ContactRecord> = Vec::new();
    while rest.len() > 0
        invariant
            out@ + complete_only(rest@) == complete_only(all),
        decreases rest@.len(),
    {
        let ghost before = rest@;
        let c = rest.remove(0);
        assert(rest@ =~= before.subrange(1, before.len() as int));
        let keep = is_filled(&c.first_name) && is_filled(&c.last_name) && is_filled(&c.email)
            && is_filled(&c.phone) && is_filled(&c.position) && c.company.is_some();
        if keep {
            let ghost prev = out@;
            out.push(c);
            assert(out@ + complete_only(rest@) =~= prev + complete_only(before));
        }
    }
    assert(out@ + complete_only(rest@) =~= out@);
    out
}

/// An optional text, empty when missing.
pub open spec fn opt_text(o: Option<String>) -> Seq<char> {
    match o {
        Some(s) => s@,
        None => Seq::empty(),
    }
}

/// A contact's display name: the stored full name, or first and last name joined by
/// a space.
pub open spec fn contact_name_text(c: ContactRecord) -> Seq<char> {
    match c.full_name {
        Some(f) => f@,
        None => opt_text(c.first_name) + seq![' '] + opt_text(c.last_name),
    }
}

/// The fields of the export document, in order.
pub open spec fn export_fields(
    fee: FeeRecord,
    project: ProjectRecord,
    company: CompanyRecord,
    contact: ContactRecord,
    date: Seq<char>,
) -> Seq<(Seq<char>, Seq<char>)> {
    seq![
        ("01 Document Name"@, fee.name@),
        ("02 Document Number"@, fee.number@),
        ("03 Document Release"@, signed_decimal(fee.rev as int)),
        ("04 Document Issue Date"@, date),
        ("06 Project Name"@, project.name@),
        ("07 Project Activity"@, fee.activity@),
        ("08 Project Package"@, fee.package@),
        ("09 Project Stage"@, project.status@),
        ("11 Project Area"@, project.area@),
        ("12 Project City"@, project.city@),
        ("13 Project Country"@, project.country@),
        ("21 Client Company"@, company.name@),
        ("22 Client City"@, company.city@),
        ("23 Client Country"@, company.country@),
        ("26 Contact Name"@, contact_name_text(contact)),
        ("27 Contact Position"@, opt_text(contact.position)),
        ("28 Contact Phone"@, opt_text(contact.phone)),
        ("29 Contact Email"@, opt_text(contact.email)),
        ("99 Strap Line"@, fee.strap_line@),
    ]
}

/// What an export record says: its labels and values, in order.
pub open spec fn record_view(r: ExportRecord) -> Seq<(Seq<char>, Seq<char>)> {
    r.fields@.map_values(|f: ExportField| (f.label@, f.value@))
}

fn owned_or_empty(o: &Option<String>) -> (r: String)
    ensures
        r@ == opt_text(*o),
{
    match o {
        Some(s) => s.clone(),
        None => String::new(),
    }
}

/// A contact's display name.
pub fn contact_display_name(c: &ContactRecord) -> (r: String)
    ensures
        r@ == contact_name_text(*c),
{
    match &c.full_name {
        Some(f) => f.clone(),
        None => {
            let mut s = owned_or_empty(&c.first_name);
            proof { reveal_strlit(" "); }
            s.append(" ");
            let last = owned_or_empty(&c.last_name);
            s.append(last.as_str());
            assert(s@ =~= contact_name_text(*c));
            s
        },
    }
}

fn push_field(fields: &mut Vec<ExportField>, label: &str, value: String)
    ensures
        final(fields)@.map_values(|f: ExportField| (f.label@, f.value@)) == old(fields)@.map_values(
            |f: ExportField| (f.label@, f.value@),
        ).push((label@, value@)),
{
    let ghost before = fields@;
    fields.push(ExportField { label: label.to_owned(), value });
    assert(fields@.map_values(|f: ExportField| (f.label@, f.value@)) =~= before.map_values(
        |f: ExportField| (f.label@, f.value@),
    ).push((label@, value@)));
}

/// The export document of a proposal joined with its records; `issue_date` is the
/// text the date field takes.
pub fn assemble_export(
    fee: &FeeRecord,
    project: &ProjectRecord,
    company: &CompanyRecord,
    contact: &ContactRecord,
    issue_date: &str,
) -> (r: ExportRecord)
    ensures
        record_view(r) == export_fields(*fee, *project, *company, *contact, issue_date@),
{
    let mut f: Vec<ExportField> = Vec::new();
    push_field(&mut f, "01 Document Name", fee.name.clone());
    push_field(&mut f, "02 Document Number", fee.number.clone());
    let mut release = String::new();
    push_signed(&mut release, fee.rev);
    push_field(&mut f, "03 Document Release", release);
    push_field(&mut f, "04 Document Issue Date", issue_date.to_owned());
    push_field(&mut f, "06 Project Name", project.name.clone());
    push_field(&mut f, "07 Project Activity", fee.activity.clone());
    push_field(&mut f, "08 Project Package", fee.package.clone());
    push_field(&mut f, "09 Project Stage", project.status.clone());
    push_field(&mut f, "11 Project Area", project.area.clone());
    push_field(&mut f, "12 Project City", project.city.clone());
    push_field(&mut f, "13 Project Country", project.country.clone());
    push_field(&mut f, "21 Client Company", company.name.clone());
    push_field(&mut f, "22 Client City", company.city.clone());
    push_field(&mut f, "23 Client Country", company.country.clone());
    push_field(&mut f, "26 Contact Name", contact_display_name(contact));
    push_field(&mut f, "27 Contact Position", owned_or_empty(&contact.position));
    push_field(&mut f, "28 Contact Phone", owned_or_empty(&contact.phone));
    push_field(&mut f, "29 Contact Email", owned_or_empty(&contact.email));
    push_field(&mut f, "99 Strap Line", fee.strap_line.clone());
    let r = ExportRecord { fields: f };
    assert(record_view(r) =~= export_fields(*fee, *project, *company, *contact, issue_date@));
    r
}

/// Which records a proposal reference resolves to, as positions in the four lists:
/// the proposal first, then its project, company and contact, each by local part.
pub open spec fn resolve(
    reference: Seq<char>,
    fees: Seq<FeeRecord>,
    projects: Seq<ProjectRecord>,
    companies: Seq<CompanyRecord>,
    contacts: Seq<ContactRecord>,
) -> Result<(int, int, int, int), BindError> {
    match first_match(fees, reference, 0) {
        None => Err(BindError::ProposalNotFound),
        Some(fi) => {
            let fee = fees[fi];
            match first_match(projects, fee.project_id@, 0) {
                None => Err(BindError::ProjectNotFound),
                Some(pi) => match first_match(companies, fee.company_id@, 0) {
                    None => Err(BindError::CompanyNotFound),
                    Some(ci) => match first_match(contacts, fee.contact_id@, 0) {
                        None => Err(BindError::ContactNotFound),
                        Some(ki) => Ok((fi, pi, ci, ki)),
                    },
                },
            }
        },
    }
}

/// The positions of the proposal that `reference` names and of its project, company
/// and contact.
pub fn resolve_records(
    reference: &str,
    fees: &Vec<FeeRecord>,
    projects: &Vec<ProjectRecord>,
    companies: &Vec<CompanyRecord>,
    contacts: &Vec<ContactRecord>,
) -> (r: Result<(usize, usize, usize, usize), BindError>)
    ensures
        match resolve(reference@, fees@, projects@, companies@, contacts@) {
            Ok((fi, pi, ci, ki)) => r matches Ok((a, b, c, d)) && a as int == fi && b as int == pi
                && c as int == ci && d as int == ki && 0 <= fi < fees@.len() && 0 <= pi < projects@.len() && 0 <= ci < companies@.len()
                && 0 <= ki < contacts@.len(),
            Err(e) => r == Err::<(usize, usize, usize, usize), BindError>(e),
        },
{
    let found_fi = find_by_reference(fees, reference);
    if found_fi.is_none() {
        return Err(BindError::ProposalNotFound);
    }
    let fi = found_fi.unwrap();
    assert(first_match(fees@, reference@, 0).is_some());
    assert(first_match(fees@, reference@, 0) == Some(fi as int));
    let fee = &fees[fi];
    assert(fee.project_id@ == fees@[fi as int].project_id@);
    let found_pi = find_by_reference(projects, fee.project_id.as_str());
    if found_pi.is_none() {
        return Err(BindError::ProjectNotFound);
    }
    let pi = found_pi.unwrap();
    assert(first_match(projects@, fees@[fi as int].project_id@, 0) == Some(pi as int));
    let found_ci = find_by_reference(companies, fee.company_id.as_str());
    if found_ci.is_none() {
        return Err(BindError::CompanyNotFound);
    }
    let ci = found_ci.unwrap();
    assert(first_match(companies@, fees@[fi as int].company_id@, 0) == Some(ci as int));
    let found_ki = find_by_reference(contacts, fee.contact_id.as_str());
    if found_ki.is_none() {
        return Err(BindError::ContactNotFound);
    }
    let ki = found_ki.unwrap();
    Ok((fi, pi, ci, ki))
}

/// The export document of the proposal that `reference` names, with `fallback_date`
/// in the date field when the stored issue date is not a compact date of a real day.
pub fn bind_records(
    reference: &str,
    fees: &Vec<FeeRecord>,
    projects: &Vec<ProjectRecord>,
    companies: &Vec<CompanyRecord>,
    contacts: &Vec<ContactRecord>,
    fallback_date: &str,
) -> (r: Result<ExportRecord, BindError>)
    ensures
        match resolve(reference@, fees@, projects@, companies@, contacts@) {
            Ok((fi, pi, ci, ki)) => r matches Ok(rec) && record_view(rec) == export_fields(
                fees@[fi],
                projects@[pi],
                companies@[ci],
                contacts@[ki],
                issue_date_text(fees@[fi].issue_date@, fallback_date@),
            ),
            Err(e) => r == Err::<ExportRecord, BindError>(e),
        },
{
    match resolve_records(reference, fees, projects, companies, contacts) {
        Ok((fi, pi, ci, ki)) => {
            let fee = &fees[fi];
            let date = format_issue_date(fee.issue_date.as_str(), fallback_date);
            let rec = assemble_export(fee, &projects[pi], &companies[ci], &contacts[ki], date.as_str());
            assert(resolve(reference@, fees@, projects@, companies@, contacts@) == Ok::<(int, int, int, int), BindError>((fi as int, pi as int, ci as int, ki as int)));
            Ok(rec)
        },
        Err(e) => Err(e),
    }
}

/// The export document of the proposal that `reference` names, with today's date in
/// the date field when the stored issue date is not a compact date of a real day.
pub fn bind_export(
    reference: &str,
    fees: &Vec<FeeRecord>,
    projects: &Vec<ProjectRecord>,
    companies: &Vec<CompanyRecord>,
    contacts: &Vec<ContactRecord>,
) -> (r: Result<ExportRecord, BindError>)
    ensures
        match resolve(reference@, fees@, projects@, companies@, contacts@) {
            Ok((fi, pi, ci, ki)) => r matches Ok(rec) && exists|fallback: Seq<char>|
                today_like(fallback) && record_view(rec) == #[trigger] export_fields(
                    fees@[fi],
                    projects@[pi],
                    companies@[ci],
                    contacts@[ki],
                    issue_date_text(fees@[fi].issue_date@, fallback),
                ),
            Err(e) => r == Err::<ExportRecord, BindError>(e),
        },
{
    match resolve_records(reference, fees, projects, companies, contacts) {
        Ok((fi, pi, ci, ki)) => {
            let fee = &fees[fi];
            let date = issue_date_or_today(fee.issue_date.as_str());
            let rec = assemble_export(fee, &projects[pi], &companies[ci], &contacts[ki], date.as_str());
            assert(resolve(reference@, fees@, projects@, companies@, contacts@) == Ok::<(int, int, int, int), BindError>((fi as int, pi as int, ci as int, ki as int)));
            Ok(rec)
        },
        Err(e) => Err(e),
    }
}

/// The fields written into the template document when a proposal populates it:
/// the document number `<number>-FP`, the proposal's name as project name and its
/// status as stage.
pub open spec fn template_updates(number: Seq<char>, fee: FeeRecord) -> Seq<(Seq<char>, Seq<char>)> {
    seq![
        ("02 Document Number"@, number + "-FP"@),
        ("06 Project Name"@, fee.name@),
        ("09 Project Stage"@, fee.status@),
    ]
}

/// The fields written into the template document when a proposal populates it.
pub fn template_field_updates(project_number: &str, fee: &FeeRecord) -> (r: ExportRecord)
    ensures
        record_view(r) == template_updates(project_number@, *fee),
{
    let mut f: Vec<ExportField> = Vec::new();
    let mut number = project_number.to_owned();
    number.append("-FP");
    push_field(&mut f, "02 Document Number", number);
    push_field(&mut f, "06 Project Name", fee.name.clone());
    push_field(&mut f, "09 Project Stage", fee.status.clone());
    let r = ExportRecord { fields: f };
    assert(record_view(r) =~= template_updates(project_number@, *fee));
    r
}

/// The text serde_json writes for a JSON object of the given string fields.
pub uninterp spec fn json_document(fields: Seq<(Seq<char>, Seq<char>)>) -> Seq<char>;

/// Relies on `serde_json::Map::insert` and `serde_json::to_string_pretty`: the record
/// becomes a JSON object of string values and is written in pretty form; the text
/// depends on the labels and values alone. `to_string_pretty` fails only for a
/// failing `Serialize` impl or a map with non-string keys, neither of which a
/// `Value` object of strings has.
#[verifier::external_body]
fn pretty_json_object(record: &ExportRecord) -> (r: Option<String>)
    ensures
        r is Some,
        r matches Some(t) ==> t@ == json_document(record_view(*record)),
{
    let mut map = serde_json::Map::new();
    for f in record.fields.iter() {
        map.insert(f.label.clone(), serde_json::Value::String(f.value.clone()));
    }
    serde_json::to_string_pretty(&serde_json::Value::Object(map)).ok()
}

/// The text of the export document.
pub fn render_export(record: &ExportRecord) -> (r: String)
    ensures
        r@ == json_document(record_view(*record)),
{
    match pretty_json_object(record) {
        Some(t) => t,
        None => String::new(),
    }
}

/// The text serde_json writes for a JSON document after setting the given string
/// fields on its top-level object.
pub uninterp spec fn json_merged(template: Seq<char>, fields: Seq<(Seq<char>, Seq<char>)>) -> Seq<char>;

/// Relies on `serde_json::from_str`, `Map::insert` and `to_string_pretty`: the
/// template is parsed, each field is set on its top-level object (a document that
/// is not an object is left as it is), and the result is written in pretty form;
/// the text depends on the template and the fields alone. `None` when the template
/// is not JSON.
#[verifier::external_body]
fn merge_json_object(template: &str, record: &ExportRecord) -> (r: Option<String>)
    ensures
        r matches Some(t) ==> t@ == json_merged(template@, record_view(*record)),
{
    let mut value: serde_json::Value = match serde_json::from_str(template) {
        Ok(v) => v,
        Err(_) => return None,
    };
    if let serde_json::Value::Object(map) = &mut value {
        for f in record.fields.iter() {
            map.insert(f.label.clone(), serde_json::Value::String(f.value.clone()));
        }
    }
    serde_json::to_string_pretty(&value).ok()
}

/// The template document's text after a proposal populates it: the document number,
/// project name and stage set, every other field kept. `IoError` when the template
/// cannot be read as JSON.
pub fn populate_template(template: &str, project_number: &str, fee: &FeeRecord) -> (r: Result<String, BindError>)
    ensures
        match r {
            Ok(t) => t@ == json_merged(template@, template_updates(project_number@, *fee)),
            Err(e) => e == BindError::IoError,
        },
{
    let fields = template_field_updates(project_number, fee);
    match merge_json_object(template, &fields) {
        Some(t) => Ok(t),
        None => Err(BindError::IoError),
    }
}

/// The seconds within which a template document counts as still being written.
pub const SYNC_GUARD_SECS: u64 = 30;

/// What to do with the template document before the live one is written.
#[derive(Debug, Clone, Copy, PartialEq, Eq, Structural)]
pub enum MigrationStep {
    /// Nothing to move: no template, or the live document is already there.
    Keep,
    /// Rename the template to the live name now.
    RenameNow,
    /// The template was modified moments ago: pause, then rename it.
    WaitThenRename,
}

/// The one-time move of the template document to the live name: only when the
/// template exists and the live document does not, after a pause when the template
/// was modified less than thirty seconds ago.
pub fn migration_step(template_exists: bool, live_exists: bool, modified_secs_ago: Option<u64>) -> (r: MigrationStep)
    ensures
        !template_exists || live_exists ==> r == MigrationStep::Keep,
        template_exists && !live_exists ==> (r == if modified_secs_ago matches Some(s) && s
            < SYNC_GUARD_SECS {
            MigrationStep::WaitThenRename
        } else {
            MigrationStep::RenameNow
        }),
{
    if !template_exists || live_exists {
        MigrationStep::Keep
    } else {
        match modified_secs_ago {
            Some(s) => if s < SYNC_GUARD_SECS {
                MigrationStep::WaitThenRename
            } else {
                MigrationStep::RenameNow
            },
            None => MigrationStep::RenameNow,
        }
    }
}

} // verus!
