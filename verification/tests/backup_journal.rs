use idevice::backup::journal::{journal_header, journal_line, read_journal_text};

#[test]
fn written_journal_reads_back_its_records_and_drops_a_partial_tail() {
    let mut text = journal_header();
    text.push_str(&journal_line("{\"seq\":1,\"type\":\"begin\",\"tx_id\":\"tx-1\"}"));
    text.push_str(&journal_line("{\"seq\":2,\"type\":\"commit_ready\"}"));
    let complete = text.clone();
    text.push_str("{\"seq\":");
    let read = read_journal_text(&text);
    assert_eq!(
        read.records,
        vec![
            "{\"seq\":1,\"type\":\"begin\",\"tx_id\":\"tx-1\"}".to_string(),
            "{\"seq\":2,\"type\":\"commit_ready\"}".to_string(),
        ]
    );
    assert_eq!(read.complete, complete);
    assert_eq!(read.complete.len(), complete.len());
}

#[test]
fn journal_header_and_line_framing() {
    assert_eq!(journal_header(), "# idevice mobilebackup2 journal v1\n");
    assert_eq!(journal_line("{}"), "{}\n");
}

#[test]
fn journal_lines_lose_carriage_returns_and_blank_lines_are_skipped() {
    let text = "# idevice mobilebackup2 journal v1\r\n  \n{\"a\":1}\r\r\n\t\n# idevice mobilebackup2 journal v1\n";
    let read = read_journal_text(text);
    assert_eq!(
        read.records,
        vec!["{\"a\":1}".to_string(), "# idevice mobilebackup2 journal v1".to_string()]
    );
    assert_eq!(read.complete, text);
}

#[test]
fn journal_without_complete_lines_has_no_records() {
    let read = read_journal_text("");
    assert!(read.records.is_empty());
    assert_eq!(read.complete, "");
    let read = read_journal_text("{\"seq\":1}");
    assert!(read.records.is_empty());
    assert_eq!(read.complete, "");
    let read = read_journal_text("x\n\u{3000}\u{a0}\n");
    assert_eq!(read.records, vec!["x".to_string()]);
}
