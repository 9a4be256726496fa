use project_provisioning::allocator::{allocate, allocate_in_year, next_sequence, validate_unique, AllocationError};
use project_provisioning::calendar::{format_issue_date, today, today_text, two_digit_year};
use project_provisioning::codec::{ParseError, ProjectNumber};
use project_provisioning::conflict::{aside_name, choose_aside_name, AsideError};
use project_provisioning::export::{
    assemble_export, bind_export, bind_records, contact_display_name, migration_step, render_export,
    complete_contacts, populate_template, template_field_updates, BindError, CompanyRecord, ContactRecord, FeeRecord, MigrationStep, ProjectRecord,
};
use project_provisioning::layout::{
    find_project_entry, looks_like_project_folder, status_dirs, artifact_path, get_folder_for_status, live_document_name, live_document_stem, placeholder_token,
    project_folder_name, template_document_name, template_source_path, ArtifactKind,
};
use project_provisioning::provision::{plan_renames, TreeEntry};

fn num(y: u32, c: u32, s: u32) -> ProjectNumber {
    ProjectNumber::new(y, c, s)
}

#[test]
fn allocation_starts_at_one() {
    let n = allocate_in_year(971, 25, &vec![]).unwrap();
    assert_eq!(n.seq, 1);
    assert_eq!(n.id, "25-97101");
}

#[test]
fn allocation_follows_the_largest_sequence() {
    let existing = vec![num(25, 971, 98), num(25, 971, 3), num(24, 971, 99), num(25, 966, 99)];
    let n = allocate_in_year(971, 25, &existing).unwrap();
    assert_eq!(n.seq, 99);
    assert_eq!(n.id, "25-97199");
}

#[test]
fn allocation_stops_after_ninety_nine() {
    let existing = vec![num(25, 971, 99)];
    assert_eq!(allocate_in_year(971, 25, &existing).unwrap_err(), AllocationError::SequenceExhausted);
    assert_eq!(next_sequence(&existing, 25, 971), Err(AllocationError::SequenceExhausted));
    assert_eq!(next_sequence(&existing, 25, 972), Ok(1));
}

#[test]
fn allocation_with_explicit_year() {
    let existing = vec![num(25, 971, 4)];
    let n = allocate(971, Some(25), &existing).unwrap();
    assert_eq!(n.id, "25-97105");
}

#[test]
fn allocation_defaults_to_this_year() {
    let n = allocate(971, None, &vec![]).unwrap();
    assert!(n.year <= 99);
    assert_eq!(n.seq, 1);
    assert_eq!(n.country, 971);
}

#[test]
fn uniqueness_check() {
    let existing = vec![num(25, 971, 4)];
    assert_eq!(validate_unique("25-97104", &existing), Ok(false));
    assert_eq!(validate_unique("25-97105", &existing), Ok(true));
    assert_eq!(validate_unique("25-9710", &existing), Err(ParseError::MalformedNumber));
}

fn entry(path: &[&str], is_dir: bool) -> TreeEntry {
    TreeEntry { path: path.iter().map(|s| s.to_string()).collect(), is_dir }
}

#[test]
fn template_renames_replace_every_token() {
    let entries = vec![
        entry(&["Template yy-cccnn Proposal.docx"], false),
        entry(&["02 Proposal"], true),
        entry(&["02 Proposal", "yy-cccnn-var Default Values.json"], false),
        entry(&["yy-cccnn Drawings"], true),
        entry(&["yy-cccnn Drawings", "yy-cccnn yy-cccnn.pdf"], false),
        entry(&["Notes.txt"], false),
    ];
    let steps = plan_renames(&entries, "yy-cccnn", "25-97105");
    let targets: Vec<&str> = steps.iter().map(|s| s.to.as_str()).collect();
    assert_eq!(
        targets,
        vec![
            "25-97105-var Default Values.json",
            "25-97105 25-97105.pdf",
            "Template 25-97105 Proposal.docx",
            "25-97105 Drawings",
        ]
    );
    assert_eq!(steps[0].parent, vec!["02 Proposal".to_string()]);
    assert_eq!(steps[1].parent, vec!["yy-cccnn Drawings".to_string()]);
    assert_eq!(steps[1].from, "yy-cccnn yy-cccnn.pdf");
    assert!(steps.iter().all(|s| !s.to.contains("yy-cccnn")));
    for w in steps.windows(2) {
        assert!(w[0].parent.len() >= w[1].parent.len());
    }
}

#[test]
fn template_renames_with_empty_token_rename_nothing() {
    let entries = vec![entry(&["a"], false)];
    assert!(plan_renames(&entries, "", "x").is_empty());
}

#[test]
fn rename_aside_picks_old_then_old2() {
    let first = choose_aside_name("25-97105 Hotel", "", &vec![]).unwrap();
    assert_eq!(first, "25-97105 Hotel_old");
    let second = choose_aside_name("25-97105 Hotel", "", &vec![first.clone()]).unwrap();
    assert_eq!(second, "25-97105 Hotel_old2");
    let third =
        choose_aside_name("25-97105 Hotel", "", &vec![first, "25-97105 Hotel_old3".to_string(), second]).unwrap();
    assert_eq!(third, "25-97105 Hotel_old4");
}

#[test]
fn rename_aside_keeps_the_extension() {
    let stem = live_document_stem("25-97105");
    assert_eq!(choose_aside_name(&stem, ".json", &vec![]).unwrap(), "25-97105-var_old.json");
    assert_eq!(aside_name("x", ".json", 12), "x_old12.json");
}

#[test]
fn rename_aside_gives_up_when_all_taken() {
    let taken: Vec<String> = (1..=1000).map(|n| aside_name("f", "", n)).collect();
    assert_eq!(choose_aside_name("f", "", &taken), Err(AsideError::Exhausted));
}

#[test]
fn artifact_locations() {
    assert_eq!(project_folder_name("25-97105", "Hotel ABC"), "25-97105 Hotel ABC");
    assert_eq!(live_document_name("25-97105"), "25-97105-var.json");
    assert_eq!(template_document_name("25-97105"), "25-97105-var Default Values.json");
    assert_eq!(placeholder_token(), "yy-cccnn");
    assert_eq!(template_source_path(), vec!["01 RFPs", "_yy-cccnn Project Name"]);
    assert_eq!(artifact_path("25-97105", "Hotel ABC", ArtifactKind::Folder), vec!["01 RFPs", "25-97105 Hotel ABC"]);
    assert_eq!(
        artifact_path("25-97105", "Hotel ABC", ArtifactKind::LiveDocument),
        vec!["01 RFPs", "25-97105 Hotel ABC", "02 Proposal", "25-97105-var.json"]
    );
    assert_eq!(
        artifact_path("25-97105", "Hotel ABC", ArtifactKind::TemplateDocument),
        vec!["01 RFPs", "25-97105 Hotel ABC", "02 Proposal", "25-97105-var Default Values.json"]
    );
}

#[test]
fn status_folders() {
    assert_eq!(get_folder_for_status("draft"), Ok("01 RFPs"));
    assert_eq!(get_folder_for_status("DRAFT"), Ok("01 RFPs"));
    assert_eq!(get_folder_for_status("Awarded"), Ok("11 Current"));
    assert_eq!(get_folder_for_status("Delivered"), Ok("99 Completed"));
    assert_eq!(get_folder_for_status("On Hold"), Ok("00 Inactive"));
    assert_eq!(get_folder_for_status("weird"), Err("Unknown status: weird".to_string()));
}

#[test]
fn issue_dates() {
    assert_eq!(format_issue_date("250719", "X"), "19 Jul 2025");
    assert_eq!(format_issue_date("991231", "X"), "31 Dec 1999");
    assert_eq!(format_issue_date("240229", "X"), "29 Feb 2024");
    assert_eq!(format_issue_date("230229", "X"), "X");
    assert_eq!(format_issue_date("251301", "X"), "X");
    assert_eq!(format_issue_date("25071", "X"), "X");
    assert_eq!(format_issue_date("+50719", "X"), "X");
    assert!(!today_text().is_empty());
}

#[test]
fn migration_decisions() {
    assert_eq!(migration_step(false, false, None), MigrationStep::Keep);
    assert_eq!(migration_step(true, true, Some(1)), MigrationStep::Keep);
    assert_eq!(migration_step(true, false, Some(5)), MigrationStep::WaitThenRename);
    assert_eq!(migration_step(true, false, Some(30)), MigrationStep::RenameNow);
    assert_eq!(migration_step(true, false, None), MigrationStep::RenameNow);
}

fn sample() -> (Vec<FeeRecord>, Vec<ProjectRecord>, Vec<CompanyRecord>, Vec<ContactRecord>) {
    let fee = FeeRecord {
        id: "⟨25_97105_1⟩".to_string(),
        name: "Lighting Design Proposal".to_string(),
        number: "25-97105-FP-01".to_string(),
        rev: 1,
        status: "Draft".to_string(),
        issue_date: "250719".to_string(),
        activity: "Design and Consultancy".to_string(),
        package: "Lighting".to_string(),
        project_id: "projects:⟨25_97105⟩".to_string(),
        company_id: "company:CHE".to_string(),
        contact_id: "contacts:⟨jsmith⟩".to_string(),
        strap_line: "Light matters".to_string(),
    };
    let other = FeeRecord { id: "⟨24_96601_1⟩".to_string(), ..fee.clone() };
    let project = ProjectRecord {
        id: "⟨25_97105⟩".to_string(),
        name: "Hotel Project".to_string(),
        name_short: "Hotel".to_string(),
        status: "RFP".to_string(),
        area: "Marina".to_string(),
        city: "Abu Dhabi".to_string(),
        country: "United Arab Emirates".to_string(),
        number: "25-97105".to_string(),
    };
    let company = CompanyRecord {
        id: "CHE".to_string(),
        name: "Conrad Hotels".to_string(),
        city: "Dubai".to_string(),
        country: "United Arab Emirates".to_string(),
    };
    let contact = ContactRecord {
        id: "jsmith".to_string(),
        first_name: Some("John".to_string()),
        last_name: Some("Smith".to_string()),
        full_name: None,
        email: Some("john@example.com".to_string()),
        phone: Some("+971-50-123-4567".to_string()),
        position: None,
        company: Some("company:CHE".to_string()),
    };
    (vec![other, fee], vec![project], vec![company], vec![contact])
}

#[test]
fn export_fields_in_order() {
    let (fees, projects, companies, contacts) = sample();
    let rec = bind_records("fee:25_97105_1", &fees, &projects, &companies, &contacts, "01 Jan 2000").unwrap();
    let pairs: Vec<(&str, &str)> = rec.fields.iter().map(|f| (f.label.as_str(), f.value.as_str())).collect();
    assert_eq!(pairs.len(), 19);
    assert_eq!(pairs[0], ("01 Document Name", "Lighting Design Proposal"));
    assert_eq!(pairs[2], ("03 Document Release", "1"));
    assert_eq!(pairs[3], ("04 Document Issue Date", "19 Jul 2025"));
    assert_eq!(pairs[4], ("06 Project Name", "Hotel Project"));
    assert_eq!(pairs[7], ("09 Project Stage", "RFP"));
    assert_eq!(pairs[12], ("22 Client City", "Dubai"));
    assert_eq!(pairs[14], ("26 Contact Name", "John Smith"));
    assert_eq!(pairs[15], ("27 Contact Position", ""));
    assert_eq!(pairs[16], ("28 Contact Phone", "+971-50-123-4567"));
    assert_eq!(pairs[18], ("99 Strap Line", "Light matters"));
}

#[test]
fn export_uses_the_fallback_date() {
    let (mut fees, projects, companies, contacts) = sample();
    fees[1].issue_date = "bad".to_string();
    fees[1].rev = -3;
    let rec = bind_records("25_97105_1", &fees, &projects, &companies, &contacts, "01 Jan 2000").unwrap();
    assert_eq!(rec.fields[3].value, "01 Jan 2000");
    assert_eq!(rec.fields[2].value, "-3");
}

#[test]
fn export_reports_what_is_missing() {
    let (fees, projects, companies, contacts) = sample();
    assert_eq!(bind_records("fee:nope", &fees, &projects, &companies, &contacts, "d").unwrap_err(), BindError::ProposalNotFound);
    assert_eq!(bind_records("fee:25_97105_1", &fees, &vec![], &companies, &contacts, "d").unwrap_err(), BindError::ProjectNotFound);
    assert_eq!(bind_records("fee:25_97105_1", &fees, &projects, &vec![], &contacts, "d").unwrap_err(), BindError::CompanyNotFound);
    assert_eq!(bind_records("fee:25_97105_1", &fees, &projects, &companies, &vec![], "d").unwrap_err(), BindError::ContactNotFound);
}

#[test]
fn contact_names() {
    let (_, _, _, contacts) = sample();
    assert_eq!(contact_display_name(&contacts[0]), "John Smith");
    let full = ContactRecord { full_name: Some("Dr. J. Smith".to_string()), ..contacts[0].clone() };
    assert_eq!(contact_display_name(&full), "Dr. J. Smith");
    let bare = ContactRecord { first_name: None, last_name: None, ..contacts[0].clone() };
    assert_eq!(contact_display_name(&bare), " ");
}

#[test]
fn export_document_text() {
    let (fees, projects, companies, contacts) = sample();
    let rec = assemble_export(&fees[1], &projects[0], &companies[0], &contacts[0], "19 Jul 2025");
    let text = render_export(&rec);
    let value: serde_json::Value = serde_json::from_str(&text).unwrap();
    assert_eq!(value["06 Project Name"], "Hotel Project");
    assert_eq!(value["22 Client City"], "Dubai");
    assert_eq!(value["28 Contact Phone"], "+971-50-123-4567");
    assert!(text.contains('\n'));
}

#[test]
fn end_to_end_number_folder_and_document() {
    let existing = vec![num(25, 971, 4)];
    let number = allocate(971, Some(25), &existing).unwrap();
    assert_eq!(number.id, "25-97105");

    let tree = vec![
        entry(&["02 Proposal"], true),
        entry(&["02 Proposal", "yy-cccnn-var Default Values.json"], false),
        entry(&["yy-cccnn-FP-01.indd"], false),
    ];
    let steps = plan_renames(&tree, placeholder_token(), &number.id);
    assert!(steps.iter().all(|s| s.to.contains("25-97105") && !s.to.contains("yy-cccnn")));
    assert_eq!(steps.len(), 2);

    let (fees, projects, companies, contacts) = sample();
    let rec = bind_export("fee:25_97105_1", &fees, &projects, &companies, &contacts).unwrap();
    let text = render_export(&rec);
    assert!(text.contains("\"Hotel Project\""));
    assert!(text.contains("\"Dubai\""));
    assert!(text.contains("\"+971-50-123-4567\""));
}

#[test]
fn template_population_fields() {
    let (fees, _, _, _) = sample();
    let rec = template_field_updates("25-97105", &fees[1]);
    let pairs: Vec<(&str, &str)> = rec.fields.iter().map(|f| (f.label.as_str(), f.value.as_str())).collect();
    assert_eq!(
        pairs,
        vec![
            ("02 Document Number", "25-97105-FP"),
            ("06 Project Name", "Lighting Design Proposal"),
            ("09 Project Stage", "Draft"),
        ]
    );
}

#[test]
fn project_folder_listing_helpers() {
    assert_eq!(status_dirs(), vec!["00 Inactive", "01 RFPs", "11 Current", "99 Completed"]);
    let names = vec!["notes".to_string(), "25-97105 Hotel".to_string(), "25-97105 Hotel_old".to_string()];
    assert_eq!(find_project_entry(&names, "25-97105"), Some(1));
    assert_eq!(find_project_entry(&names, "25-97106"), None);
    assert!(looks_like_project_folder("25-97105 Hotel"));
    assert!(!looks_like_project_folder("2597105 Hotel"));
    assert!(!looks_like_project_folder("25-971"));
}

#[test]
fn only_complete_contacts_are_kept() {
    let (_, _, _, contacts) = sample();
    let full = ContactRecord { position: Some("Director".to_string()), ..contacts[0].clone() };
    let no_company = ContactRecord { company: None, ..full.clone() };
    let empty_phone = ContactRecord { phone: Some(String::new()), ..full.clone() };
    let second = ContactRecord { id: "other".to_string(), ..full.clone() };
    let kept = complete_contacts(vec![contacts[0].clone(), full, no_company, empty_phone, second]);
    let ids: Vec<&str> = kept.iter().map(|c| c.id.as_str()).collect();
    assert_eq!(ids, vec!["jsmith", "other"]);
}

#[test]
fn template_population_keeps_other_fields() {
    let (fees, _, _, _) = sample();
    let template = "{\"01 Document Name\": \"x\", \"06 Project Name\": \"old\"}";
    let text = populate_template(template, "25-97105", &fees[1]).unwrap();
    let value: serde_json::Value = serde_json::from_str(&text).unwrap();
    assert_eq!(value["01 Document Name"], "x");
    assert_eq!(value["02 Document Number"], "25-97105-FP");
    assert_eq!(value["06 Project Name"], "Lighting Design Proposal");
    assert_eq!(value["09 Project Stage"], "Draft");
    assert_eq!(populate_template("not json", "25-97105", &fees[1]), Err(BindError::IoError));
}

#[test]
fn last_two_digits_of_a_year() {
    assert_eq!(two_digit_year(2025), 25);
    assert_eq!(two_digit_year(1999), 99);
    assert_eq!(two_digit_year(2000), 0);
    assert_eq!(two_digit_year(-1), 99);
}

#[test]
fn default_year_is_this_years_last_two_digits() {
    let y = two_digit_year(today().year);
    let n = allocate(971, None, &vec![]).unwrap();
    assert_eq!(n.year, y);
}

#[test]
fn exporting_twice_gives_the_same_text() {
    let (fees, projects, companies, contacts) = sample();
    let a = render_export(&bind_export("fee:25_97105_1", &fees, &projects, &companies, &contacts).unwrap());
    let b = render_export(&bind_export("fee:25_97105_1", &fees, &projects, &companies, &contacts).unwrap());
    assert_eq!(a, b);
}
