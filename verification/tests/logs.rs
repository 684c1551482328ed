use orion_scheduler::logs::{
    colorize, format_log_line, format_logs, format_logs_section, split_logs, strip_ansi,
    stream_error_data,
};

const HEADER: &str = "\n╔══════════════════════════════════════════════════════════════════════════════╗\n║                        ORION STARTUP LOGS                                  ║\n╚══════════════════════════════════════════════════════════════════════════════╝\n\n";
const FOOTER: &str = "\n╔══════════════════════════════════════════════════════════════════════════════╗\n║                         END OF LOGS                                        ║\n╚══════════════════════════════════════════════════════════════════════════════╝\n";

#[test]
fn strip_ansi_removes_colour_codes() {
    assert_eq!(strip_ansi("\x1b[31mhello\x1b[0m"), "hello");
    assert_eq!(strip_ansi("\x1b[1;32mbold green\x1b[0m text"), "bold green text");
}

#[test]
fn strip_ansi_keeps_plain_text() {
    assert_eq!(strip_ansi("plain text, no codes"), "plain text, no codes");
    assert_eq!(strip_ansi(""), "");
    assert_eq!(strip_ansi("预检 ok"), "预检 ok");
}

#[test]
fn strip_ansi_edge_cases() {
    // an unterminated sequence swallows the rest
    assert_eq!(strip_ansi("a\x1b[12"), "a");
    // a lone escape stays
    assert_eq!(strip_ansi("x\x1b"), "x\x1b");
    assert_eq!(strip_ansi("\x1bQ"), "\x1bQ");
    // stripping is not idempotent on crafted input
    assert_eq!(strip_ansi("\x1b\x1b[m["), "\x1b[");
}

#[test]
fn colorize_known_and_unknown_colours() {
    assert_eq!(colorize("hi", "red"), "\x1b[31mhi\x1b[0m");
    assert_eq!(colorize("hi", "green"), "\x1b[32mhi\x1b[0m");
    assert_eq!(colorize("hi", "yellow"), "\x1b[33mhi\x1b[0m");
    assert_eq!(colorize("hi", "blue"), "\x1b[34mhi\x1b[0m");
    assert_eq!(colorize("hi", "magenta"), "\x1b[35mhi\x1b[0m");
    assert_eq!(colorize("hi", "cyan"), "\x1b[36mhi\x1b[0m");
    assert_eq!(colorize("hi", "white"), "\x1b[37mhi\x1b[0m");
    assert_eq!(colorize("hi", "bright_white"), "\x1b[97mhi\x1b[0m");
    assert_eq!(colorize("hi", "bright_blue"), "\x1b[94mhi\x1b[0m");
    assert_eq!(colorize("hi", "dim"), "\x1b[90mhi\x1b[0m");
    assert_eq!(colorize("hi", "purple"), "\x1b[37mhi\x1b[0m");
}

#[test]
fn strip_undoes_colorize_on_concrete_text() {
    for color in ["red", "dim", "bright_blue", "unknown"] {
        assert_eq!(strip_ansi(&colorize("some log text", color)), "some log text");
    }
}

#[test]
fn format_log_line_rules() {
    assert_eq!(format_log_line("running preflight.sh"), "  🔍 \x1b[36mrunning preflight.sh\x1b[0m");
    assert_eq!(format_log_line("开始预检"), "  🔍 \x1b[36m开始预检\x1b[0m");
    assert_eq!(format_log_line("cleanup.sh done"), "  🧹 \x1b[33mcleanup.sh done\x1b[0m");
    assert_eq!(format_log_line("清理完成"), "  🧹 \x1b[33m清理完成\x1b[0m");
    assert_eq!(format_log_line("Started orion.service"), "  ✅ \x1b[32mStarted orion.service\x1b[0m");
    assert_eq!(format_log_line("ORION_WORKER_ID=7"), "  🆔 \x1b[35mORION_WORKER_ID=7\x1b[0m");
    assert_eq!(format_log_line("Connecting to server"), "  🌐 \x1b[34mConnecting to server\x1b[0m");
    assert_eq!(format_log_line("Dicfuse mounted"), "  📦 \x1b[94mDicfuse mounted\x1b[0m");
    assert_eq!(format_log_line("fatal error"), "  ❌ \x1b[31mfatal error\x1b[0m");
    assert_eq!(format_log_line("WARN disk"), "  ⚠️  \x1b[33mWARN disk\x1b[0m");
    assert_eq!(format_log_line("INFO ready"), "  ℹ️  \x1b[37mINFO ready\x1b[0m");
    assert_eq!(format_log_line("==> step 1"), "  ▶️  \x1b[97m==> step 1\x1b[0m");
    assert_eq!(format_log_line("DEBUG x=1"), "  🔧 \x1b[90mDEBUG x=1\x1b[0m");
    assert_eq!(format_log_line(""), "  ");
    assert_eq!(format_log_line("just text"), "  │  just text");
}

#[test]
fn format_log_line_first_rule_wins_and_strips() {
    assert_eq!(format_log_line("preflight.sh ERROR"), "  🔍 \x1b[36mpreflight.sh ERROR\x1b[0m");
    assert_eq!(format_log_line("\x1b[32mStarted x\x1b[0m"), "  ✅ \x1b[32mStarted x\x1b[0m");
    assert_eq!(format_log_line("\x1b[0m"), "  ");
    // "==>" only counts at the start
    assert_eq!(format_log_line("a ==> b"), "  │  a ==> b");
}

#[test]
fn format_logs_frames_every_line() {
    let expected = format!("{}  │  a\n  ❌ \x1b[31merror b\x1b[0m\n{}", HEADER, FOOTER);
    assert_eq!(format_logs("a\nerror b\n"), expected);
    assert_eq!(format_logs(""), format!("{}{}", HEADER, FOOTER));
    let expected = format!("{}  │  x\n  \n  │  y\n{}", HEADER, FOOTER);
    assert_eq!(format_logs("x\r\n\ny"), expected);
}

#[test]
fn format_logs_section_skips_blank_lines() {
    assert_eq!(
        format_logs_section("T", "  x  \n\n \t \ny\r\n"),
        "\n─── T ───\n  │  x\n  │  y\n"
    );
    assert_eq!(format_logs_section("EMPTY", ""), "\n─── EMPTY ───\n");
    assert_eq!(
        format_logs_section("SYSTEM LOGS", "\u{3000}INFO ok\u{a0}"),
        "\n─── SYSTEM LOGS ───\n  ℹ️  \x1b[37mINFO ok\x1b[0m\n"
    );
}

#[test]
fn split_logs_at_first_marker() {
    let full = "j1\nj2\n========== Orion Log\no1\n========== Orion Log\no2";
    let (j, o) = split_logs(full);
    assert_eq!(j, "j1\nj2\n");
    assert_eq!(o, "========== Orion Log\no1\n========== Orion Log\no2");
    assert_eq!(format!("{}{}", j, o), full);
}

#[test]
fn split_logs_without_marker() {
    let (j, o) = split_logs("only journal ✅\n");
    assert_eq!(j, "only journal ✅\n");
    assert_eq!(o, "");
    let (j, o) = split_logs("é========== Orion Log");
    assert_eq!(j, "é");
    assert_eq!(o, "========== Orion Log");
}

#[test]
fn stream_error_data_prefix() {
    assert_eq!(stream_error_data("VM has been shut down"), "Error: VM has been shut down");
}
