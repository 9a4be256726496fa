use project_provisioning::codec::{
    extract_id_string, format_number, increment_sequence, is_valid_country_code,
    is_valid_sequence, normalize_local_part, same_entity, ParseError, ProjectNumber,
};

#[test]
fn test_fee_id_matching() {
    let test_cases = vec![
        ("⟨22_96601_1⟩", "22_96601_1", true),
        ("⟨22_96601_1⟩", "fee:22_96601_1", true),
        ("⟨25_97107_1⟩", "25_97107_1", true),
        ("⟨25_97107_1⟩", "fee:25_97107_1", true),
        ("⟨22_96601_1⟩", "25_97107_1", false),
        ("⟨25_97107_1⟩", "22_96601_1", false),
    ];
    for (db_id, input_id, expected) in test_cases {
        let matches = same_entity(db_id, input_id);
        assert_eq!(matches, expected, "ID matching failed: db='{}' vs input='{}'", db_id, input_id);
    }
}

#[test]
fn test_angle_bracket_stripping() {
    let test_cases = vec![
        ("⟨22_96601_1⟩", "22_96601_1"),
        ("⟨25_97107_1⟩", "25_97107_1"),
        ("22_96601_1", "22_96601_1"),
        ("", ""),
    ];
    for (input, expected) in test_cases {
        let result = normalize_local_part(input);
        assert_eq!(result, expected, "Bracket stripping failed for '{}'", input);
    }
}

#[test]
fn test_fee_prefix_stripping() {
    let test_cases = vec![
        ("fee:22_96601_1", "22_96601_1"),
        ("fee:25_97107_1", "25_97107_1"),
        ("22_96601_1", "22_96601_1"),
        ("", ""),
    ];
    for (input, expected) in test_cases {
        let result = normalize_local_part(input);
        assert_eq!(result, expected, "Fee prefix stripping failed for '{}'", input);
    }
}

#[test]
fn test_macro_expansion() {
    assert!(true);
}

#[test]
fn test_project_number_parsing_success() {
    let result = ProjectNumber::parse("25-97105");
    assert!(result.is_ok());
    let parsed = result.unwrap();
    assert_eq!(parsed.year, 25);
    assert_eq!(parsed.country, 971);
    assert_eq!(parsed.seq, 5);
}

#[test]
fn test_project_number_parsing_edge_cases() {
    let min = ProjectNumber::parse("00-00001").unwrap();
    assert_eq!(min.year, 0);
    assert_eq!(min.country, 0);
    assert_eq!(min.seq, 1);

    let max = ProjectNumber::parse("99-99999").unwrap();
    assert_eq!(max.year, 99);
    assert_eq!(max.country, 999);
    assert_eq!(max.seq, 99);

    let zeros = ProjectNumber::parse("01-00101").unwrap();
    assert_eq!(zeros.year, 1);
    assert_eq!(zeros.country, 1);
    assert_eq!(zeros.seq, 1);
}

#[test]
fn test_project_number_parsing_errors() {
    assert!(ProjectNumber::parse("invalid").is_err());
    assert!(ProjectNumber::parse("25-971").is_err());
    assert!(ProjectNumber::parse("2025-97105").is_err());
    assert!(ProjectNumber::parse("").is_err());
}

#[test]
fn test_project_number_range_validation() {
    assert!(is_valid_sequence(1));
    assert!(is_valid_sequence(50));
    assert!(is_valid_sequence(99));
    assert!(!is_valid_sequence(0));
    assert!(!is_valid_sequence(100));
    assert!(!is_valid_sequence(200));
}

#[test]
fn test_format_project_number() {
    assert_eq!(format_number(25, 971, 5), "25-97105");
    assert_eq!(format_number(24, 966, 1), "24-96601");
    assert_eq!(format_number(22, 971, 99), "22-97199");
    assert_eq!(format_number(1, 1, 1), "01-00101");
    assert_eq!(format_number(0, 0, 99), "00-00099");
}

#[test]
fn test_increment_sequence() {
    assert_eq!(increment_sequence(1), Some(2));
    assert_eq!(increment_sequence(98), Some(99));
    assert_eq!(increment_sequence(99), None);
    assert_eq!(increment_sequence(0), Some(1));
}

#[test]
fn test_extract_thing_id_from_string() {
    assert_eq!(extract_id_string("contacts:john_doe"), Some("john_doe".to_string()));
    assert_eq!(extract_id_string("company:ABC"), Some("ABC".to_string()));
    assert_eq!(extract_id_string("invalid"), None);
    assert_eq!(extract_id_string(""), None);
}

#[test]
fn test_validate_country_code() {
    assert!(is_valid_country_code(971));
    assert!(is_valid_country_code(966));
    assert!(is_valid_country_code(1));
    assert!(is_valid_country_code(999));
    assert!(!is_valid_country_code(0));
    assert!(!is_valid_country_code(1000));
}

#[test]
fn format_pads_each_part() {
    assert_eq!(format_number(25, 971, 5), "25-97105");
    assert_eq!(format_number(1, 1, 1), "01-00101");
    assert_eq!(ProjectNumber::new(7, 44, 3).id, "07-04403");
}

#[test]
fn format_then_parse_gives_the_parts_back() {
    for &(y, c, s) in &[(0u32, 0u32, 1u32), (25, 971, 5), (99, 999, 99), (1, 1, 1), (50, 7, 42)] {
        let text = format_number(y, c, s);
        let n = ProjectNumber::parse(&text).unwrap();
        assert_eq!((n.year, n.country, n.seq), (y, c, s));
        assert_eq!(n.id, text);
    }
}

#[test]
fn parse_refuses_malformed_numbers() {
    for bad in ["25_97105", "25-9710a", "+5-97105", "2-597105", "25-97105 ", "25--9710", "٢٥-97105"] {
        assert_eq!(ProjectNumber::parse(bad).unwrap_err(), ParseError::MalformedNumber, "{}", bad);
    }
}

#[test]
fn normalize_examples() {
    assert_eq!(normalize_local_part("⟨22_96601_1⟩"), "22_96601_1");
    assert_eq!(normalize_local_part("fee:22_96601_1"), "22_96601_1");
    assert_eq!(normalize_local_part("22_96601_1"), "22_96601_1");
    assert_eq!(normalize_local_part(""), "");
    assert_eq!(normalize_local_part("fee:⟨22_96601_1⟩"), "22_96601_1");
    assert_eq!(normalize_local_part("projects:⟨25_97105⟩"), "25_97105");
    assert_eq!(normalize_local_part("⟨abc"), "⟨abc");
    assert_eq!(normalize_local_part("other:abc"), "other:abc");
}

#[test]
fn normalize_twice_is_normalize_once() {
    for x in ["⟨⟨a⟩⟩", "fee:fee:1", "fee:⟨company:X⟩", "⟨⟩", "contacts:", "plain", "⟨fee:1⟩"] {
        let once = normalize_local_part(x);
        let twice = normalize_local_part(&once);
        assert_eq!(once, twice, "{}", x);
    }
}
