use project_provisioning::records::{
    create_project_query, default_project_stage, default_rfp_stage, default_rfp_status, fee_key,
    project_key, CompanyCreate, ConnectionStatus, NewProject,
    ContactCreate, DatabaseConfig, ProjectActivity, ProjectCreate, ProjectStage, ProjectStatus,
    RfpCreate, RfpStage, RfpStatus, Validate,
};
use project_provisioning::codec::ProjectNumber;
use project_provisioning::validation::{InputValidator, ValidationError};

#[test]
fn test_sql_escape_single_quotes() {
    let dangerous = "'; DROP TABLE projects; --";
    let escaped = InputValidator::escape_single_quotes(dangerous);
    assert!(escaped.contains("''"));
    assert_eq!(escaped, "''; DROP TABLE projects; --");
}

#[test]
fn test_sql_escape_special_characters() {
    let cases = vec![
        ("O'Brien", "O''Brien"),
        ("Test ' OR '1'='1", "Test '' OR ''1''=''1"),
        ("Robert'); DROP TABLE students;--", "Robert''); DROP TABLE students;--"),
        ("Normal text", "Normal text"),
        ("", ""),
    ];
    for (input, expected) in cases {
        let result = InputValidator::escape_single_quotes(input);
        assert_eq!(result, expected, "Failed to escape: {}", input);
    }
}

#[test]
fn test_sql_injection_attack_patterns() {
    let attack_patterns = vec![
        "' OR 1=1--",
        "'; DROP TABLE users; --",
        "' UNION SELECT * FROM passwords--",
        "admin'--",
        "' OR 'x'='x",
    ];
    for pattern in attack_patterns {
        let escaped = InputValidator::escape_single_quotes(pattern);
        assert!(
            !escaped.contains("DROP") || escaped.contains("''"),
            "SQL injection pattern not properly escaped: {}",
            pattern
        );
    }
}

#[test]
fn test_project_number_validation_valid_formats() {
    assert!(InputValidator::validate_project_number("25-97105").is_ok());
    assert!(InputValidator::validate_project_number("22-96601").is_ok());
    assert!(InputValidator::validate_project_number("24-97199").is_ok());
    assert!(InputValidator::validate_project_number("20-00001").is_ok());
}

#[test]
fn test_project_number_validation_invalid_formats() {
    assert!(InputValidator::validate_project_number("invalid").is_err());
    assert!(InputValidator::validate_project_number("2025-971").is_err());
    assert!(InputValidator::validate_project_number("25-971").is_err());
    assert!(InputValidator::validate_project_number("25-9710").is_err());
    assert!(InputValidator::validate_project_number("25-97").is_err());
    assert!(InputValidator::validate_project_number("5-97105").is_err());
    assert!(InputValidator::validate_project_number("25971-05").is_err());
    assert!(InputValidator::validate_project_number("").is_err());
    assert!(InputValidator::validate_project_number("25_97105").is_err());
}

#[test]
fn test_validate_email_format() {
    assert!(InputValidator::validate_email("test@example.com").is_ok());
    assert!(InputValidator::validate_email("user.name+tag@example.co.uk").is_ok());
    assert!(InputValidator::validate_email("invalid").is_err());
    assert!(InputValidator::validate_email("@example.com").is_err());
    assert!(InputValidator::validate_email("user@").is_err());
    assert!(InputValidator::validate_email("").is_err());
}

#[test]
fn test_validate_phone_format() {
    assert!(InputValidator::validate_phone("+971-50-123-4567").is_ok());
    assert!(InputValidator::validate_phone("+1-555-123-4567").is_ok());
    assert!(InputValidator::validate_phone("123456").is_err());
    assert!(InputValidator::validate_phone("invalid").is_err());
    assert!(InputValidator::validate_phone("").is_err());
}

#[test]
fn project_names() {
    assert!(InputValidator::validate_project_name("Hotel (Phase 1) & Spa").is_ok());
    match InputValidator::validate_project_name("") {
        Err(ValidationError::RequiredField { field }) => assert_eq!(field, "name"),
        other => panic!("{:?}", other),
    }
    match InputValidator::validate_project_name("A") {
        Err(ValidationError::InvalidLength { field, min, max, actual }) => {
            assert_eq!((field.as_str(), min, max, actual), ("name", 2, 200, 1))
        }
        other => panic!("{:?}", other),
    }
    assert!(matches!(
        InputValidator::validate_project_name("Hotel; DROP"),
        Err(ValidationError::InvalidCharacters { .. })
    ));
}

#[test]
fn record_keys() {
    assert!(InputValidator::validate_id("CHE_01").is_ok());
    assert!(matches!(InputValidator::validate_id(""), Err(ValidationError::RequiredField { .. })));
    assert!(matches!(InputValidator::validate_id("a-b"), Err(ValidationError::InvalidCharacters { .. })));
}

#[test]
fn statuses() {
    let allowed = ["Draft", "Active", "On Hold"];
    assert!(InputValidator::validate_status("Active", &allowed).is_ok());
    match InputValidator::validate_status("Gone", &allowed) {
        Err(ValidationError::InvalidFormat { field, expected }) => {
            assert_eq!(field, "status");
            assert_eq!(expected, "one of: Draft, Active, On Hold");
        }
        other => panic!("{:?}", other),
    }
    assert!(InputValidator::validate_status("x", &[]).is_err());
}

#[test]
fn text_fields() {
    assert!(InputValidator::validate_text_field("name_short", "Hotel", 1, 50).is_ok());
    assert!(matches!(
        InputValidator::validate_text_field("name_short", "", 1, 50),
        Err(ValidationError::RequiredField { .. })
    ));
    assert!(InputValidator::validate_text_field("note", "", 0, 5).is_ok());
    match InputValidator::validate_text_field("note", "abcdef", 0, 5) {
        Err(e) => assert_eq!(e.message(), "Field 'note' length 6 is outside allowed range 0-5"),
        Ok(()) => panic!("accepted"),
    }
}

#[test]
fn error_messages() {
    let e = ValidationError::RequiredField { field: "id".to_string() };
    assert_eq!(e.message(), "Required field 'id' is missing or empty");
    let e = ValidationError::InvalidFormat { field: "email".to_string(), expected: "valid email address".to_string() };
    assert_eq!(e.message(), "Field 'email' has invalid format. Expected: valid email address");
    let e = ValidationError::InvalidCharacters { field: "id".to_string(), pattern: "p".to_string() };
    assert_eq!(e.message(), "Field 'id' contains invalid characters. Expected pattern: p");
}

#[test]
fn sanitizing() {
    assert_eq!(InputValidator::sanitize_for_display("Hello <World>! & Co."), "Hello World & Co.");
    assert_eq!(InputValidator::sanitize_for_display("Café #1 (a@b)"), "Café 1 (a@b)");
    assert_eq!(InputValidator::sanitize_for_display(""), "");
}

fn project_create(name: &str, year: u32, seq: u32) -> ProjectCreate {
    ProjectCreate {
        name: name.to_string(),
        name_short: "H".to_string(),
        activity: ProjectActivity::DesignAndConsultancy,
        package: String::new(),
        status: ProjectStatus::Draft,
        stage: ProjectStage::Concept,
        area: String::new(),
        city: String::new(),
        country: String::new(),
        folder: String::new(),
        number: ProjectNumber::new(year, 971, seq),
    }
}

#[test]
fn project_create_checks() {
    assert!(project_create("Hotel", 25, 5).validate().is_ok());
    assert_eq!(
        project_create("", 19, 0).validate().unwrap_err(),
        vec![
            "Project name cannot be empty".to_string(),
            "Year must be between 20 and 50".to_string(),
            "Sequence must be between 1 and 999".to_string()
        ]
    );
}

#[test]
fn company_and_contact_checks() {
    let c = CompanyCreate {
        name: String::new(),
        name_short: String::new(),
        abbreviation: "X".to_string(),
        city: String::new(),
        country: String::new(),
        reg_no: None,
        tax_no: None,
    };
    assert_eq!(c.validate().unwrap_err(), vec!["Company name cannot be empty".to_string()]);
    let k = ContactCreate {
        first_name: "J".to_string(),
        last_name: "S".to_string(),
        email: "j.example.com".to_string(),
        phone: "050".to_string(),
        position: String::new(),
        company: "CHE".to_string(),
    };
    assert_eq!(
        k.validate().unwrap_err(),
        vec!["Invalid email format".to_string(), "Phone must contain '+' and not be empty".to_string()]
    );
    let ok = ContactCreate { email: "j@x.com".to_string(), phone: "+971".to_string(), ..k };
    assert!(ok.validate().is_ok());
}

#[test]
fn defaults() {
    assert_eq!(default_project_stage(), ProjectStage::Concept);
    assert_eq!(default_rfp_status(), RfpStatus::Draft);
    assert_eq!(default_rfp_stage(), RfpStage::Draft);
    let s = ConnectionStatus::default();
    assert!(!s.is_connected && s.last_check.is_none() && s.error_message.is_none());
}

#[test]
fn database_config_values() {
    let c = DatabaseConfig::from_values(None, Some("test_namespace".to_string()), None, None, Some("pw".to_string())).unwrap();
    assert_eq!(c.url, "ws://10.0.1.17:8000");
    assert_eq!(c.namespace, "test_namespace");
    assert_eq!(c.database, "projects");
    assert_eq!(c.username, "martin");
    assert_eq!(c.password, "pw");
    let e = DatabaseConfig::from_values(None, None, None, None, None).unwrap_err();
    assert!(e.contains("required"));
}

#[test]
fn rfp_create_checks() {
    let r = RfpCreate {
        name: "Lighting".to_string(),
        number: "25-97105-FP-01".to_string(),
        project_id: "25_97105".to_string(),
        company_id: "CHE".to_string(),
        contact_id: "jsmith".to_string(),
        status: RfpStatus::Draft,
        stage: RfpStage::Draft,
        issue_date: "250719".to_string(),
        activity: None,
        package: None,
        strap_line: None,
        staff_name: None,
        staff_email: None,
        staff_phone: None,
        staff_position: None,
        revisions: vec![],
    };
    assert!(r.validate().is_ok());
    let bad = RfpCreate { name: String::new(), issue_date: "25071".to_string(), ..r.clone() };
    assert_eq!(
        bad.validate().unwrap_err(),
        vec!["RFP name cannot be empty".to_string(), "Issue date must be 6 digits in YYMMDD format".to_string()]
    );
    let letters = RfpCreate { issue_date: "25O719".to_string(), ..r.clone() };
    assert!(letters.validate().is_err());
    let wide = RfpCreate { issue_date: "٢٥٠٧١٩".to_string(), ..r };
    assert!(wide.validate().is_err());
}

#[test]
fn store_keys_and_creation_statement() {
    assert_eq!(project_key("25-97105"), "25_97105");
    assert_eq!(fee_key("25-97107", 1), "25_97107_1");
    let p = NewProject {
        name: "O'Brien Tower".to_string(),
        name_short: "Tower".to_string(),
        status: "Draft".to_string(),
        area: "Marina".to_string(),
        city: "Dubai".to_string(),
        country: "UAE".to_string(),
        folder: "25-97105 Tower".to_string(),
        number: ProjectNumber::new(25, 971, 5),
    };
    assert_eq!(
        create_project_query(&p),
        "CREATE projects:25_97105 SET name = 'O''Brien Tower', name_short = 'Tower', status = 'Draft', area = 'Marina', city = 'Dubai', country = 'UAE', folder = '25-97105 Tower', number = { year: 25, country: 971, seq: 5, id: '25-97105' }"
    );
}
