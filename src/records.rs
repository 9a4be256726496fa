//! The business records handed between the store, the commands and the engine,
//! with the checks applied before a record is created.

use vstd::prelude::*;
use vstd::utf8::encode_utf8;
use crate::codec::ProjectNumber;
use crate::text::{decimal, push_decimal, push_signed, replace_all, replace_text, signed_decimal};

verus! {

/// Kind of work a project covers.
#[derive(Debug, Clone, Copy, PartialEq, Eq, Structural)]
pub enum ProjectActivity {
    DesignAndConsultancy,
    Management,
    Construction,
    Maintenance,
    Research,
    Other,
}

/// Where a project stands commercially.
#[derive(Debug, Clone, Copy, PartialEq, Eq, Structural)]
pub enum ProjectStatus {
    Draft,
    RFP,
    Active,
    OnHold,
    Completed,
    Cancelled,
}

/// Design stage of a project.
#[derive(Debug, Clone, Copy, PartialEq, Eq, Structural)]
pub enum ProjectStage {
    Concept,
    DesignDevelopment,
    Documentation,
    Tender,
    Construction,
    Handover,
}

/// Where a request for proposal stands.
#[derive(Debug, Clone, Copy, PartialEq, Eq, Structural)]
pub enum RfpStatus {
    Draft,
    Active,
    Sent,
    Awarded,
    Lost,
    Cancelled,
}

/// Stage of a request for proposal.
#[derive(Debug, Clone, Copy, PartialEq, Eq, Structural)]
pub enum RfpStage {
    Draft,
    Prepared,
    Sent,
    UnderReview,
    Clarification,
    Negotiation,
    Awarded,
    Lost,
}

/// The stage a project record without one takes.
pub fn default_project_stage() -> (r: ProjectStage)
    ensures
        r == ProjectStage::Concept,
{
    ProjectStage::Concept
}

/// The status a proposal record without one takes.
pub fn default_rfp_status() -> (r: RfpStatus)
    ensures
        r == RfpStatus::Draft,
{
    RfpStatus::Draft
}

/// The stage a proposal record without one takes.
pub fn default_rfp_stage() -> (r: RfpStage)
    ensures
        r == RfpStage::Draft,
{
    RfpStage::Draft
}

/// Creation and last-change times, as the store writes them.
#[derive(Debug, Clone)]
pub struct TimeStamps {
    pub created_at: String,
    pub updated_at: String,
}

/// A project to create.
#[derive(Debug, Clone)]
pub struct ProjectCreate {
    pub name: String,
    pub name_short: String,
    pub activity: ProjectActivity,
    pub package: String,
    pub status: ProjectStatus,
    pub stage: ProjectStage,
    pub area: String,
    pub city: String,
    pub country: String,
    pub folder: String,
    pub number: ProjectNumber,
}

/// A project to create, as the commands receive it (status as text).
#[derive(Debug, Clone)]
pub struct NewProject {
    pub name: String,
    pub name_short: String,
    pub status: String,
    pub area: String,
    pub city: String,
    pub country: String,
    pub folder: String,
    pub number: ProjectNumber,
}

/// One revision of a proposal.
#[derive(Debug, Clone)]
pub struct Revision {
    pub revision_number: i32,
    pub revision_date: String,
    pub author_email: String,
    pub author_name: String,
    pub notes: String,
}

/// A request for proposal to create; the three references are record keys.
#[derive(Debug, Clone)]
pub struct RfpCreate {
    pub name: String,
    pub number: String,
    pub project_id: String,
    pub company_id: String,
    pub contact_id: String,
    pub status: RfpStatus,
    pub stage: RfpStage,
    pub issue_date: String,
    pub activity: Option<String>,
    pub package: Option<String>,
    pub strap_line: Option<String>,
    pub staff_name: Option<String>,
    pub staff_email: Option<String>,
    pub staff_phone: Option<String>,
    pub staff_position: Option<String>,
    pub revisions: Vec<Revision>,
}

/// A company to create.
#[derive(Debug, Clone)]
pub struct CompanyCreate {
    pub name: String,
    pub name_short: String,
    pub abbreviation: String,
    pub city: String,
    pub country: String,
    pub reg_no: Option<String>,
    pub tax_no: Option<String>,
}

/// A contact to create; `company` is the company's key.
#[derive(Debug, Clone)]
pub struct ContactCreate {
    pub first_name: String,
    pub last_name: String,
    pub email: String,
    pub phone: String,
    pub position: String,
    pub company: String,
}

/// Fields of a company to change; missing ones stay as they are.
#[derive(Debug, Clone)]
pub struct CompanyUpdate {
    pub name: Option<String>,
    pub name_short: Option<String>,
    pub abbreviation: Option<String>,
    pub city: Option<String>,
    pub country: Option<String>,
    pub reg_no: Option<String>,
    pub tax_no: Option<String>,
}

/// Fields of a contact to change; missing ones stay as they are.
#[derive(Debug, Clone)]
pub struct ContactUpdate {
    pub first_name: Option<String>,
    pub last_name: Option<String>,
    pub email: Option<String>,
    pub phone: Option<String>,
    pub position: Option<String>,
    pub company: Option<String>,
}

/// Fields of a project to change; missing ones stay as they are.
#[derive(Debug, Clone)]
pub struct ProjectUpdate {
    pub name: Option<String>,
    pub name_short: Option<String>,
    pub status: Option<String>,
    pub area: Option<String>,
    pub city: Option<String>,
    pub country: Option<String>,
    pub folder: Option<String>,
}

/// The application's settings; `project_folder_path` is the base folder of all
/// project folders.
#[derive(Debug, Clone)]
pub struct AppSettings {
    pub surrealdb_url: Option<String>,
    pub surrealdb_ns: Option<String>,
    pub surrealdb_db: Option<String>,
    pub surrealdb_user: Option<String>,
    pub surrealdb_pass: Option<String>,
    pub staff_name: Option<String>,
    pub staff_email: Option<String>,
    pub staff_phone: Option<String>,
    pub staff_position: Option<String>,
    pub project_folder_path: Option<String>,
}

/// Where the store is and how to sign in.
#[derive(Debug, Clone)]
pub struct DatabaseConfig {
    pub url: String,
    pub namespace: String,
    pub database: String,
    pub username: String,
    pub password: String,
}

/// The text `o` holds, or `default` when it holds none.
pub open spec fn text_or(o: Option<String>, default: Seq<char>) -> Seq<char> {
    match o {
        Some(s) => s@,
        None => default,
    }
}

fn owned_or(o: Option<String>, default: &str) -> (r: String)
    ensures
        r@ == text_or(o, default@),
{
    match o {
        Some(s) => s,
        None => default.to_owned(),
    }
}

impl DatabaseConfig {
    /// The configuration from looked-up settings: each missing one takes its
    /// default, except the password, without which there is no configuration.
    pub fn from_values(
        url: Option<String>,
        namespace: Option<String>,
        database: Option<String>,
        username: Option<String>,
        password: Option<String>,
    ) -> (r: Result<DatabaseConfig, String>)
        ensures
            password is None ==> (r matches Err(m) && m@ == "SURREALDB_PASS environment variable is required"@),
            password matches Some(p) ==> (r matches Ok(c) && c.password@ == p@ && c.url@ == text_or(
                url,
                "ws://10.0.1.17:8000"@,
            ) && c.namespace@ == text_or(namespace, "emittiv"@) && c.database@ == text_or(
                database,
                "projects"@,
            ) && c.username@ == text_or(username, "martin"@)),
    {
        match password {
            None => Err("SURREALDB_PASS environment variable is required".to_owned()),
            Some(p) => Ok(
                DatabaseConfig {
                    url: owned_or(url, "ws://10.0.1.17:8000"),
                    namespace: owned_or(namespace, "emittiv"),
                    database: owned_or(database, "projects"),
                    username: owned_or(username, "martin"),
                    password: p,
                },
            ),
        }
    }
}

/// The store connection as last observed.
#[derive(Debug, Clone)]
pub struct ConnectionStatus {
    pub is_connected: bool,
    pub last_check: Option<String>,
    pub error_message: Option<String>,
}

impl Default for ConnectionStatus {
    /// Not connected, never checked.
    fn default() -> (r: ConnectionStatus)
        ensures
            !r.is_connected,
            r.last_check.is_none(),
            r.error_message.is_none(),
    {
        ConnectionStatus { is_connected: false, last_check: None, error_message: None }
    }
}

/// The outcome of moving a project folder between status folders.
#[derive(Debug, Clone)]
pub struct FolderOperationResult {
    pub success: bool,
    pub message: String,
    pub old_path: Option<String>,
    pub new_path: Option<String>,
}

/// Where a project's folder was found.
#[derive(Debug, Clone)]
pub struct ProjectFolderInfo {
    pub project_number: String,
    pub current_location: String,
    pub full_path: String,
    pub exists: bool,
}

/// The problems a record has before it can be created: each is a sentence for the
/// user, and none means the record may be created.
pub trait Validate {
    spec fn problems(&self) -> Seq<Seq<char>>;

    fn validate(&self) -> (r: Result<(), Vec<String>>)
        ensures
            match r {
                Ok(()) => self.problems().len() == 0,
                Err(v) => v@.map_values(|s: String| s@) == self.problems() && self.problems().len() > 0,
            },
    ;
}

/// `msg` when `bad` holds, nothing otherwise.
pub open spec fn problem_if(bad: bool, msg: Seq<char>) -> Seq<Seq<char>> {
    if bad {
        seq![msg]
    } else {
        Seq::empty()
    }
}

fn note_if(errors: &mut Vec<String>, bad: bool, msg: &str)
    ensures
        final(errors)@.map_values(|s: String| s@) == old(errors)@.map_values(|s: String| s@) + problem_if(
            bad,
            msg@,
        ),
{
    let ghost before = errors@;
    if bad {
        errors.push(msg.to_owned());
    }
    assert(errors@.map_values(|s: String| s@) =~= before.map_values(|s: String| s@) + problem_if(
        bad,
        msg@,
    ));
}

fn verdict(errors: Vec<String>) -> (r: Result<(), Vec<String>>)
    ensures
        match r {
            Ok(()) => errors@.len() == 0,
            Err(v) => v == errors && errors@.len() > 0,
        },
{
    if errors.len() == 0 {
        Ok(())
    } else {
        Err(errors)
    }
}

impl Validate for ProjectCreate {
    open spec fn problems(&self) -> Seq<Seq<char>> {
        problem_if(self.name@.len() == 0, "Project name cannot be empty"@) + problem_if(
            self.number.year < 20 || self.number.year > 50,
            "Year must be between 20 and 50"@,
        ) + problem_if(
            self.number.seq < 1 || self.number.seq > 999,
            "Sequence must be between 1 and 999"@,
        )
    }

    fn validate(&self) -> (r: Result<(), Vec<String>>) {
        let mut errors: Vec<String> = Vec::new();
        note_if(&mut errors, self.name.as_str().is_empty(), "Project name cannot be empty");
        note_if(
            &mut errors,
            self.number.year < 20 || self.number.year > 50,
            "Year must be between 20 and 50",
        );
        note_if(
            &mut errors,
            self.number.seq < 1 || self.number.seq > 999,
            "Sequence must be between 1 and 999",
        );
        assert(errors@.map_values(|s: String| s@) =~= self.problems());
        verdict(errors)
    }
}

impl Validate for CompanyCreate {
    open spec fn problems(&self) -> Seq<Seq<char>> {
        problem_if(self.name@.len() == 0, "Company name cannot be empty"@)
    }

    fn validate(&self) -> (r: Result<(), Vec<String>>) {
        let mut errors: Vec<String> = Vec::new();
        note_if(&mut errors, self.name.as_str().is_empty(), "Company name cannot be empty");
        assert(errors@.map_values(|s: String| s@) =~= self.problems());
        verdict(errors)
    }
}

impl Validate for ContactCreate {
    open spec fn problems(&self) -> Seq<Seq<char>> {
        problem_if(!self.email@.contains('@'), "Invalid email format"@) + problem_if(
            !self.phone@.contains('+') || self.phone@.len() == 0,
            "Phone must contain '+' and not be empty"@,
        )
    }

    fn validate(&self) -> (r: Result<(), Vec<String>>) {
        let mut errors: Vec<String> = Vec::new();
        let has_at = contains_char(self.email.as_str(), '@');
        note_if(&mut errors, !has_at, "Invalid email format");
        let has_plus = contains_char(self.phone.as_str(), '+');
        note_if(
            &mut errors,
            !has_plus || self.phone.as_str().is_empty(),
            "Phone must contain '+' and not be empty",
        );
        assert(errors@.map_values(|s: String| s@) =~= self.problems());
        verdict(errors)
    }
}

/// A text as a quoted store literal: each single quote doubled.
pub open spec fn store_literal(t: Seq<char>) -> Seq<char> {
    seq!['\''] + replace_all(t, "'"@, "''"@) + seq!['\'']
}

/// The store key of a project: its number with `_` for `-`.
pub open spec fn project_key_text(number: Seq<char>) -> Seq<char> {
    replace_all(number, "-"@, "_"@)
}

/// The store key of a project, derived from its number alone, so that a second
/// project with the same number is refused by the store.
pub fn project_key(number: &str) -> (r: String)
    ensures
        r@ == project_key_text(number@),
{
    replace_text(number, "-", "_")
}

/// The store key of a proposal: its project's key and its revision, as in `25_97107_1`.
pub fn fee_key(project_id: &str, rev: i32) -> (r: String)
    ensures
        r@ == project_key_text(project_id@) + seq!['_'] + signed_decimal(rev as int),
{
    let mut k = project_key(project_id);
    proof { reveal_strlit("_"); }
    k.append("_");
    push_signed(&mut k, rev);
    k
}

/// The statement that creates a project under its derived key.
pub open spec fn create_project_text(p: NewProject) -> Seq<char> {
    "CREATE projects:"@ + project_key_text(p.number.id@) + " SET name = "@ + store_literal(p.name@)
        + ", name_short = "@ + store_literal(p.name_short@) + ", status = "@ + store_literal(p.status@)
        + ", area = "@ + store_literal(p.area@) + ", city = "@ + store_literal(p.city@)
        + ", country = "@ + store_literal(p.country@) + ", folder = "@ + store_literal(p.folder@)
        + ", number = { year: "@ + decimal(p.number.year as nat) + ", country: "@ + decimal(
        p.number.country as nat,
    ) + ", seq: "@ + decimal(p.number.seq as nat) + ", id: "@ + store_literal(p.number.id@) + " }"@
}

fn push_literal(s: &mut String, value: &str)
    ensures
        final(s)@ == old(s)@ + store_literal(value@),
{
    let ghost before = s@;
    proof { reveal_strlit("'"); }
    s.append("'");
    let escaped = replace_text(value, "'", "''");
    s.append(escaped.as_str());
    s.append("'");
    assert(s@ =~= before + store_literal(value@));
}

/// The statement that creates a project under its derived key, every text field
/// written as a quoted literal.
pub fn create_project_query(p: &NewProject) -> (r: String)
    ensures
        r@ == create_project_text(*p),
{
    let mut s = "CREATE projects:".to_owned();
    let key = project_key(p.number.id.as_str());
    s.append(key.as_str());
    s.append(" SET name = ");
    push_literal(&mut s, p.name.as_str());
    s.append(", name_short = ");
    push_literal(&mut s, p.name_short.as_str());
    s.append(", status = ");
    push_literal(&mut s, p.status.as_str());
    s.append(", area = ");
    push_literal(&mut s, p.area.as_str());
    s.append(", city = ");
    push_literal(&mut s, p.city.as_str());
    s.append(", country = ");
    push_literal(&mut s, p.country.as_str());
    s.append(", folder = ");
    push_literal(&mut s, p.folder.as_str());
    s.append(", number = { year: ");
    push_decimal(&mut s, p.number.year as u64);
    s.append(", country: ");
    push_decimal(&mut s, p.number.country as u64);
    s.append(", seq: ");
    push_decimal(&mut s, p.number.seq as u64);
    s.append(", id: ");
    push_literal(&mut s, p.number.id.as_str());
    s.append(" }");
    assert(s@ =~= create_project_text(*p));
    s
}

/// What `char::is_numeric` says of a character.
pub uninterp spec fn unicode_numeric(c: char) -> bool;

/// Relies on `char::is_numeric`: characters of the Unicode numeric categories.
#[verifier::external_body]
fn is_numeric(c: char) -> (r: bool)
    ensures
        r == unicode_numeric(c),
{
    c.is_numeric()
}

/// Every character of `t` is numeric.
pub open spec fn all_numeric(t: Seq<char>) -> bool {
    forall|i: int| 0 <= i < t.len() ==> #[trigger] unicode_numeric(t[i])
}

fn all_chars_numeric(s: &str) -> (r: bool)
    ensures
        r == all_numeric(s@),
{
    let n = s.unicode_len();
    let mut i: usize = 0;
    while i < n
        invariant
            n == s@.len(),
            i <= n,
            forall|k: int| 0 <= k < i ==> #[trigger] unicode_numeric(s@[k]),
        decreases n - i,
    {
        if !is_numeric(s.get_char(i)) {
            return false;
        }
        i = i + 1;
    }
    true
}

impl Validate for RfpCreate {
    open spec fn problems(&self) -> Seq<Seq<char>> {
        problem_if(self.name@.len() == 0, "RFP name cannot be empty"@) + problem_if(
            encode_utf8(self.issue_date@).len() as usize != 6 || !all_numeric(self.issue_date@),
            "Issue date must be 6 digits in YYMMDD format"@,
        )
    }

    fn validate(&self) -> (r: Result<(), Vec<String>>) {
        let mut errors: Vec<String> = Vec::new();
        note_if(&mut errors, self.name.as_str().is_empty(), "RFP name cannot be empty");
        let date = self.issue_date.as_str();
        let bad_date = date.len() != 6 || !all_chars_numeric(date);
        note_if(&mut errors, bad_date, "Issue date must be 6 digits in YYMMDD format");
        assert(errors@.map_values(|s: String| s@) =~= self.problems());
        verdict(errors)
    }
}

/// Whether `c` occurs in `s`.
fn contains_char(s: &str, c: char) -> (r: bool)
    ensures
        r == s@.contains(c),
{
    let n = s.unicode_len();
    let mut i: usize = 0;
    while i < n
        invariant
            n == s@.len(),
            i <= n,
            forall|k: int| 0 <= k < i ==> s@[k] != c,
        decreases n - i,
    {
        if s.get_char(i) == c {
            return true;
        }
        i = i + 1;
    }
    false
}

} // verus!
