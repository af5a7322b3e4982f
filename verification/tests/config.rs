use simple_interp::{parse_to_map, ConfigError};

#[test]
fn sections_and_properties_build_a_nested_mapping() {
    let m = parse_to_map("a = 1\n[server]\nhost = local\nport = 80\n").expect("should parse");
    assert_eq!(m.get(b"", b"a"), Some(b"1".to_vec()));
    assert_eq!(m.get(b"server", b"host"), Some(b"local".to_vec()));
    assert_eq!(m.get(b"server", b"port"), Some(b"80".to_vec()));
    assert!(m.contains_section(b"server"));
    assert!(m.contains_section(b""));
    assert!(!m.contains_section(b"client"));
}

#[test]
fn duplicate_section_names_are_rejected() {
    match parse_to_map("[s]\nk = 1\n[s]\n") {
        Err(ConfigError::DuplicateSection { name, line, .. }) => {
            assert_eq!(name, b"s".to_vec());
            assert_eq!(line, 3);
        }
        other => panic!("expected DuplicateSection, got {:?}", other),
    }
}

#[test]
fn every_line_must_end_with_a_newline() {
    assert!(parse_to_map("[s]").is_err());
    assert!(parse_to_map("k = v").is_err());
    assert!(parse_to_map("[s]\n").is_ok());
}

#[test]
fn values_may_be_empty() {
    let m = parse_to_map("k =\n").expect("should parse");
    assert_eq!(m.get(b"", b"k"), Some(b"".to_vec()));
}

#[test]
fn later_assignments_to_a_key_win() {
    let m = parse_to_map("k = 1\nk = 2\n").expect("should parse");
    assert_eq!(m.get(b"", b"k"), Some(b"2".to_vec()));
}

#[test]
fn names_and_values_share_the_path_character_class() {
    let m = parse_to_map("[paths]\nbin = /usr/local/bin\nlib.dir = a_b/c.d\n").expect("should parse");
    assert_eq!(m.get(b"paths", b"bin"), Some(b"/usr/local/bin".to_vec()));
    assert_eq!(m.get(b"paths", b"lib.dir"), Some(b"a_b/c.d".to_vec()));
}

#[test]
fn empty_input_has_no_sections() {
    let m = parse_to_map("").expect("should parse");
    assert!(!m.contains_section(b""));
    assert_eq!(m.get(b"", b"k"), None);
}

#[test]
fn blank_lines_and_spaces_are_insignificant() {
    let m = parse_to_map("\n  \n[ s ]\n  k  =  v\n\n").expect("should parse");
    assert_eq!(m.get(b"s", b"k"), Some(b"v".to_vec()));
}

#[test]
fn an_illegal_character_is_a_syntax_error() {
    match parse_to_map("k : v\n") {
        Err(ConfigError::Syntax { line, col, .. }) => {
            assert_eq!(line, 1);
            assert_eq!(col, 3);
        }
        other => panic!("expected a syntax error, got {:?}", other),
    }
}

#[test]
fn carriage_return_line_endings_are_accepted() {
    let m = parse_to_map("a = 1\r\nb = 2\r\n").expect("should parse");
    assert_eq!(m.get(b"", b"a"), Some(b"1".to_vec()));
    assert_eq!(m.get(b"", b"b"), Some(b"2".to_vec()));
}

#[test]
fn properties_go_to_the_most_recent_section() {
    let m = parse_to_map("[one]\nk = 1\n[two]\nk = 2\n").expect("should parse");
    assert_eq!(m.get(b"one", b"k"), Some(b"1".to_vec()));
    assert_eq!(m.get(b"two", b"k"), Some(b"2".to_vec()));
}
