use admin_console::runner::{assemble_command_output, compose_output, has_placeholder,
    substitute_args};

#[test]
fn placeholder_detection() {
    assert!(has_placeholder(&vec![String::from("-n"), String::from("%INPUT%")]));
    assert!(!has_placeholder(&vec![String::from("-n"), String::from("1")]));
    assert!(!has_placeholder(&Vec::new()));
}

#[test]
fn substitution_replaces_every_placeholder_and_keeps_the_rest() {
    let args = vec![
        String::from("%INPUT%"),
        String::from("-c"),
        String::from("%INPUT%"),
        String::from("input"),
    ];
    let out = substitute_args(&args, "host9");
    assert_eq!(
        out,
        vec![
            String::from("host9"),
            String::from("-c"),
            String::from("host9"),
            String::from("input"),
        ]
    );
}

#[test]
fn stdout_alone_is_trimmed() {
    assert_eq!(compose_output("  hello \n", ""), Some(String::from("hello")));
}

#[test]
fn stderr_gets_a_labeled_section() {
    assert_eq!(
        compose_output("out\n", "bad thing"),
        Some(String::from("out\n\nERROR:\nbad thing"))
    );
}

#[test]
fn whitespace_only_output_is_nothing() {
    assert_eq!(compose_output("  \n ", ""), None);
    assert_eq!(compose_output("", ""), None);
}

#[test]
fn ascii_process_output_decodes_to_itself() {
    assert_eq!(
        assemble_command_output(b"Reply from host\n", b""),
        Some(String::from("Reply from host"))
    );
}

#[test]
fn legacy_console_bytes_decode_as_ibm866() {
    // 0x80 and 0x81 are the first two Cyrillic capitals in the IBM866 table.
    let out = assemble_command_output(&[0x80u8, 0x81u8], b"").unwrap();
    assert_eq!(out, "\u{0410}\u{0411}");
}

#[test]
fn stderr_bytes_are_decoded_and_labeled() {
    let out = assemble_command_output(b"ok", &[0x80u8]).unwrap();
    assert_eq!(out, "ok\nERROR:\n\u{0410}");
}

#[test]
fn empty_capture_delivers_no_log_event() {
    assert_eq!(assemble_command_output(b"", b""), None);
}
