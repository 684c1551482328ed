use orion_scheduler::stream::LogStream;

fn section(title: &str, lines: &[&str]) -> String {
    let mut s = format!("\n─── {} ───\n", title);
    for l in lines {
        s.push_str(&format!("  │  {}\n", l));
    }
    s
}

#[test]
fn first_poll_sends_last_fifty_lines_of_each_part() {
    let mut journal = String::new();
    for i in 0..60 {
        journal.push_str(&format!("j{}\n", i));
    }
    let logs = format!("{}========== Orion Log\no1\no2\n", journal);
    let mut st = LogStream::new();
    assert!(st.can_poll(&logs));
    let data = st.poll(&logs).unwrap();
    let jl: Vec<String> = (10..60).map(|i| format!("j{}", i)).collect();
    let jr: Vec<&str> = jl.iter().map(|s| s.as_str()).collect();
    let expected = format!(
        "{}{}",
        section("SYSTEM LOGS", &jr),
        section("ORION LOGS", &["========== Orion Log", "o1", "o2"])
    );
    assert_eq!(data, expected);
    assert!(!st.is_initial);
    assert_eq!(st.last_journal_len, journal.len());
    assert_eq!(st.last_log_len, "========== Orion Log\no1\no2\n".len());
}

#[test]
fn repeated_poll_sends_nothing() {
    let logs = "boot ok\n========== Orion Log\nready\n";
    let mut st = LogStream::new();
    assert!(st.poll(logs).is_some());
    assert!(st.can_poll(logs));
    assert_eq!(st.poll(logs), None);
    assert_eq!(st.poll(logs), None);
}

#[test]
fn later_polls_send_only_appended_text() {
    let mut st = LogStream::new();
    st.poll("a\n========== Orion Log\nx\n");
    let data = st.poll("a\nb\n========== Orion Log\nx\ny\n").unwrap();
    assert_eq!(data, format!("{}{}", section("SYSTEM LOGS", &["b"]), section("ORION LOGS", &["y"])));
    let data = st.poll("a\nb\n========== Orion Log\nx\ny\nz ✅\n").unwrap();
    assert_eq!(data, section("ORION LOGS", &["z ✅"]));
}

#[test]
fn empty_logs_send_nothing() {
    let mut st = LogStream::new();
    assert_eq!(st.poll(""), None);
    assert!(!st.is_initial);
    assert_eq!(st.poll(""), None);
}

#[test]
fn shrunk_logs_send_nothing_and_reset_sizes() {
    let mut st = LogStream::new();
    st.poll("long journal text\n");
    assert_eq!(st.poll("short\n"), None);
    assert_eq!(st.last_journal_len, "short\n".len());
}

#[test]
fn cut_inside_a_character_is_refused() {
    let mut st = LogStream::new();
    st.poll("é");
    // the old size (2 bytes) falls inside the new first character
    assert!(!st.can_poll("✅x"));
    assert!(st.can_poll("éx"));
}
