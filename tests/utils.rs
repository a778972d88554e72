use rcli::get_content;

#[test]
fn dash_reads_standard_input() {
    let r: Result<Vec<u8>, String> = get_content(
        "-",
        || Ok(b"from stdin".to_vec()),
        |name: &str| Err(format!("no file {}", name)),
    );
    assert_eq!(r, Ok(b"from stdin".to_vec()));
}

#[test]
fn other_names_read_that_file() {
    let r: Result<Vec<u8>, String> = get_content(
        "notes.txt",
        || Err("stdin".to_string()),
        |name: &str| Ok(format!("contents of {}", name).into_bytes()),
    );
    assert_eq!(r, Ok(b"contents of notes.txt".to_vec()));
}

#[test]
fn reader_errors_pass_through() {
    let r: Result<Vec<u8>, String> =
        get_content("missing", || Ok(Vec::new()), |_: &str| Err("not found".to_string()));
    assert_eq!(r, Err("not found".to_string()));
}
