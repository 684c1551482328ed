//! Turning raw log text into the terminal view that the log endpoints serve:
//! ANSI stripping, colouring, per-line decoration, sections, and the split of
//! the combined log into its journal and Orion parts.
use vstd::prelude::*;
use vstd::string::StringSliceAdditionalSpecFns;
use crate::text::{
    byte_len,    chars_of, contains_seq, ends_line, free_of, law_lines_of_concatenation,
    law_lines_of_terminated_line, law_lines_of_unterminated_line, contains_str, find_chars, is_ascii_alpha, is_ascii_alpha_exec,
    is_first_match, lines_chars, lines_seq, matches_at, starts_with_seq, starts_with_str, str_eq,
    string_from_chars, trim_chars, trim_seq,
};

verus! {

broadcast use vstd::utf8::encode_utf8_valid_utf8, vstd::utf8::encode_utf8_decode_utf8;

/// The line that opens the Orion log file in the combined log output.
pub const ORION_LOG_MARKER: &'static str = "========== Orion Log";

// ---------------------------------------------------------------------------
// Specifications
// ---------------------------------------------------------------------------

/// The index of the first ASCII letter at or after `j`, or `s.len()`.
pub open spec fn csi_end(s: Seq<char>, j: int) -> int
    decreases s.len() - j,
{
    if j < 0 || j >= s.len() {
        s.len() as int
    } else if is_ascii_alpha(s[j]) {
        j
    } else {
        csi_end(s, j + 1)
    }
}

pub proof fn lemma_csi_end_bounds(s: Seq<char>, j: int)
    requires
        0 <= j,
    ensures
        j <= csi_end(s, j) || csi_end(s, j) == s.len(),
        csi_end(s, j) <= s.len(),
        csi_end(s, j) < s.len() ==> j <= csi_end(s, j) && is_ascii_alpha(s[csi_end(s, j)]),
    decreases s.len() - j,
{
    if j < s.len() && !is_ascii_alpha(s[j]) {
        lemma_csi_end_bounds(s, j + 1);
    }
}

/// The text of `s` from index `i` on, with every escape sequence `ESC [`
/// removed together with the characters after it up to and including the
/// first ASCII letter (or up to the end when no letter follows).
pub open spec fn strip_ansi_from(s: Seq<char>, i: int) -> Seq<char>
    decreases s.len() - i,
{
    if i < 0 || i >= s.len() {
        Seq::empty()
    } else if i + 1 < s.len() && s[i] == '\x1b' && s[i + 1] == '[' {
        let e = csi_end(s, i + 2);
        proof {
            lemma_csi_end_bounds(s, i + 2);
        }
        if e < s.len() {
            strip_ansi_from(s, e + 1)
        } else {
            Seq::empty()
        }
    } else {
        seq![s[i]] + strip_ansi_from(s, i + 1)
    }
}

/// `s` with its ANSI escape sequences removed.
pub open spec fn strip_ansi_seq(s: Seq<char>) -> Seq<char> {
    strip_ansi_from(s, 0)
}

/// The ANSI colour number for a colour name; unknown names get white.
pub open spec fn color_code(color: Seq<char>) -> Seq<char> {
    if color == "red"@ {
        "31"@
    } else if color == "green"@ {
        "32"@
    } else if color == "yellow"@ {
        "33"@
    } else if color == "blue"@ {
        "34"@
    } else if color == "magenta"@ {
        "35"@
    } else if color == "cyan"@ {
        "36"@
    } else if color == "white"@ {
        "37"@
    } else if color == "bright_white"@ {
        "97"@
    } else if color == "bright_blue"@ {
        "94"@
    } else if color == "dim"@ {
        "90"@
    } else {
        "37"@
    }
}

/// `text` wrapped in the escape sequence for `color` and a reset.
pub open spec fn colorize_seq(text: Seq<char>, color: Seq<char>) -> Seq<char> {
    "\x1b["@ + color_code(color) + "m"@ + text + "\x1b[0m"@
}

/// Either of two patterns occurs in `s`.
pub open spec fn mentions(s: Seq<char>, a: Seq<char>, b: Seq<char>) -> bool {
    contains_seq(s, a) || contains_seq(s, b)
}

/// The decorated form of one log line: the line without escape sequences,
/// with an icon and a colour chosen by the first rule that its text meets.
pub open spec fn log_line_seq(line: Seq<char>) -> Seq<char> {
    let c = strip_ansi_seq(line);
    if mentions(c, "preflight.sh"@, "预检"@) {
        "  🔍 "@ + colorize_seq(c, "cyan"@)
    } else if mentions(c, "cleanup.sh"@, "清理"@) {
        "  🧹 "@ + colorize_seq(c, "yellow"@)
    } else if mentions(c, "systemd"@, "Started"@) {
        "  ✅ "@ + colorize_seq(c, "green"@)
    } else if mentions(c, "ORION_WORKER_ID"@, "Worker ID"@) {
        "  🆔 "@ + colorize_seq(c, "magenta"@)
    } else if mentions(c, "WebSocket"@, "Connecting"@) {
        "  🌐 "@ + colorize_seq(c, "blue"@)
    } else if mentions(c, "Antares"@, "Dicfuse"@) {
        "  📦 "@ + colorize_seq(c, "bright_blue"@)
    } else if mentions(c, "ERROR"@, "error"@) {
        "  ❌ "@ + colorize_seq(c, "red"@)
    } else if mentions(c, "WARN"@, "warn"@) {
        "  ⚠️  "@ + colorize_seq(c, "yellow"@)
    } else if mentions(c, "INFO"@, "info"@) {
        "  ℹ️  "@ + colorize_seq(c, "white"@)
    } else if starts_with_seq(c, "==>"@) {
        "  ▶️  "@ + colorize_seq(c, "bright_white"@)
    } else if contains_seq(c, "DEBUG"@) {
        "  🔧 "@ + colorize_seq(c, "dim"@)
    } else if c.len() == 0 {
        "  "@
    } else {
        "  │  "@ + c
    }
}

/// The banner above the formatted logs.
pub open spec fn logs_header() -> Seq<char> {
    "\n╔══════════════════════════════════════════════════════════════════════════════╗\n"@ + "║                        ORION STARTUP LOGS                                  ║\n"@ + "╚══════════════════════════════════════════════════════════════════════════════╝\n\n"@
}

/// The banner below the formatted logs.
pub open spec fn logs_footer() -> Seq<char> {
    "\n╔══════════════════════════════════════════════════════════════════════════════╗\n"@ + "║                         END OF LOGS                                        ║\n"@ + "╚══════════════════════════════════════════════════════════════════════════════╝\n"@
}

/// Each line decorated and followed by a newline.
pub open spec fn decorated_lines(ls: Seq<Seq<char>>) -> Seq<char>
    decreases ls.len(),
{
    if ls.len() == 0 {
        Seq::empty()
    } else {
        decorated_lines(ls.drop_last()) + log_line_seq(ls.last()) + seq!['\n']
    }
}

/// The full terminal view of a log text.
pub open spec fn format_logs_seq(logs: Seq<char>) -> Seq<char> {
    logs_header() + decorated_lines(lines_seq(logs)) + logs_footer()
}

/// Each line trimmed; the blank ones dropped, the others decorated and
/// followed by a newline.
pub open spec fn section_lines(ls: Seq<Seq<char>>) -> Seq<char>
    decreases ls.len(),
{
    if ls.len() == 0 {
        Seq::empty()
    } else {
        let t = trim_seq(ls.last());
        section_lines(ls.drop_last()) + if t.len() > 0 {
            log_line_seq(t) + seq!['\n']
        } else {
            Seq::empty()
        }
    }
}

/// A titled section of log lines.
pub open spec fn format_logs_section_seq(title: Seq<char>, content: Seq<char>) -> Seq<char> {
    "\n─── "@ + title + " ───\n"@ + section_lines(lines_seq(content))
}

/// The combined log split before the first Orion log marker: the journal
/// part and the Orion part (empty when there is no marker).
pub open spec fn split_logs_seq(s: Seq<char>) -> (Seq<char>, Seq<char>) {
    if contains_seq(s, ORION_LOG_MARKER@) {
        let i = choose|i: int| is_first_match(s, ORION_LOG_MARKER@, i);
        (s.take(i), s.skip(i))
    } else {
        (s, Seq::empty())
    }
}

// ---------------------------------------------------------------------------
// UTF-8 facts used to cut a `str` at a character index
// ---------------------------------------------------------------------------

/// The encoding of a concatenation is the concatenation of the encodings.
pub proof fn lemma_encode_utf8_concat(a: Seq<char>, b: Seq<char>)
    ensures
        vstd::utf8::encode_utf8(a + b) == vstd::utf8::encode_utf8(a) + vstd::utf8::encode_utf8(b),
    decreases a.len(),
{
    if a.len() == 0 {
        assert(a + b == b);
    } else {
        assert((a + b).drop_first() == a.drop_first() + b);
        assert((a + b)[0] == a[0]);
        lemma_encode_utf8_concat(a.drop_first(), b);
    }
}

/// The end of an encoded prefix is a character boundary of the whole.
pub proof fn lemma_char_boundary_at_prefix(a: Seq<char>, b: Seq<char>)
    ensures
        vstd::utf8::is_char_boundary(
            vstd::utf8::encode_utf8(a + b),
            vstd::utf8::encode_utf8(a).len() as int,
        ),
    decreases a.len(),
{
    let bytes = vstd::utf8::encode_utf8(a + b);
    lemma_encode_utf8_concat(a, b);
    if a.len() == 0 {
        assert(vstd::utf8::encode_utf8(a).len() == 0);
    } else {
        let ab = a + b;
        assert(ab.drop_first() == a.drop_first() + b);
        assert(ab[0] == a[0]);
        vstd::utf8::encode_utf8_first_scalar(ab);
        let k = vstd::utf8::length_of_first_scalar(bytes);
        assert(k == vstd::utf8::encode_scalar(a[0] as u32).len());
        assert(vstd::utf8::pop_first_scalar(bytes) == vstd::utf8::encode_utf8(
            a.drop_first() + b,
        ));
        lemma_char_boundary_at_prefix(a.drop_first(), b);
        assert(vstd::utf8::encode_utf8(a).len() == k + vstd::utf8::encode_utf8(
            a.drop_first(),
        ).len());
    }
}

// ---------------------------------------------------------------------------
// Implementations
// ---------------------------------------------------------------------------

/// `cs` with its ANSI escape sequences removed.
pub fn strip_ansi_chars(cs: &Vec<char>) -> (r: Vec<char>)
    ensures
        r@ == strip_ansi_seq(cs@),
{
    let n = cs.len();
    let mut out: Vec<char> = Vec::new();
    let mut i: usize = 0;
    while i < n
        invariant
            n == cs@.len(),
            i <= n,
            out@ + strip_ansi_from(cs@, i as int) == strip_ansi_seq(cs@),
        decreases n - i,
    {
        if cs[i] == '\x1b' && i + 1 < n && cs[i + 1] == '[' {
            let mut j: usize = i + 2;
            while j < n && !is_ascii_alpha_exec(cs[j])
                invariant
                    n == cs@.len(),
                    i + 2 <= j <= n,
                    csi_end(cs@, j as int) == csi_end(cs@, i + 2),
                decreases n - j,
            {
                j += 1;
            }
            if j < n {
                i = j + 1;
            } else {
                assert(strip_ansi_from(cs@, n as int) == Seq::<char>::empty());
                i = n;
            }
        } else {
            out.push(cs[i]);
            i += 1;
        }
    }
    assert(strip_ansi_from(cs@, n as int) == Seq::<char>::empty());
    out
}

/// Removes ANSI escape sequences (colour codes and the like) from `text`.
pub fn strip_ansi(text: &str) -> (r: String)
    ensures
        r@ == strip_ansi_seq(text@),
{
    let cs = chars_of(text);
    let r = strip_ansi_chars(&cs);
    string_from_chars(r.as_slice())
}

/// Wraps `text` in the ANSI escape sequence for `color` (red, green, yellow,
/// blue, magenta, cyan, white, bright_white, bright_blue, dim; anything else
/// is white) followed by a reset.
pub fn colorize(text: &str, color: &str) -> (r: String)
    ensures
        r@ == colorize_seq(text@, color@),
{
    let code = if str_eq(color, "red") {
        "31"
    } else if str_eq(color, "green") {
        "32"
    } else if str_eq(color, "yellow") {
        "33"
    } else if str_eq(color, "blue") {
        "34"
    } else if str_eq(color, "magenta") {
        "35"
    } else if str_eq(color, "cyan") {
        "36"
    } else if str_eq(color, "white") {
        "37"
    } else if str_eq(color, "bright_white") {
        "97"
    } else if str_eq(color, "bright_blue") {
        "94"
    } else if str_eq(color, "dim") {
        "90"
    } else {
        "37"
    };
    let mut r = String::new();
    r.append("\x1b[");
    r.append(code);
    r.append("m");
    r.append(text);
    r.append("\x1b[0m");
    r
}

fn decorate(prefix: &str, text: &str, color: &str) -> (r: String)
    ensures
        r@ == prefix@ + colorize_seq(text@, color@),
{
    let mut r = String::new();
    r.append(prefix);
    let c = colorize(text, color);
    r.append(c.as_str());
    r
}

fn mentions_exec(cs: &Vec<char>, a: &str, b: &str) -> (r: bool)
    ensures
        r == mentions(cs@, a@, b@),
{
    contains_str(cs, a) || contains_str(cs, b)
}

/// Decorates one log line: escape sequences are removed, then the first rule
/// that the text meets picks an icon and a colour.
pub fn format_log_line(line: &str) -> (r: String)
    ensures
        r@ == log_line_seq(line@),
{
    let raw = chars_of(line);
    let clean = strip_ansi_chars(&raw);
    let text = string_from_chars(clean.as_slice());
    let t = text.as_str();
    if mentions_exec(&clean, "preflight.sh", "预检") {
        decorate("  🔍 ", t, "cyan")
    } else if mentions_exec(&clean, "cleanup.sh", "清理") {
        decorate("  🧹 ", t, "yellow")
    } else if mentions_exec(&clean, "systemd", "Started") {
        decorate("  ✅ ", t, "green")
    } else if mentions_exec(&clean, "ORION_WORKER_ID", "Worker ID") {
        decorate("  🆔 ", t, "magenta")
    } else if mentions_exec(&clean, "WebSocket", "Connecting") {
        decorate("  🌐 ", t, "blue")
    } else if mentions_exec(&clean, "Antares", "Dicfuse") {
        decorate("  📦 ", t, "bright_blue")
    } else if mentions_exec(&clean, "ERROR", "error") {
        decorate("  ❌ ", t, "red")
    } else if mentions_exec(&clean, "WARN", "warn") {
        decorate("  ⚠️  ", t, "yellow")
    } else if mentions_exec(&clean, "INFO", "info") {
        decorate("  ℹ️  ", t, "white")
    } else if starts_with_str(&clean, "==>") {
        decorate("  ▶️  ", t, "bright_white")
    } else if contains_str(&clean, "DEBUG") {
        decorate("  🔧 ", t, "dim")
    } else if clean.len() == 0 {
        let mut r = String::new();
        r.append("  ");
        r
    } else {
        let mut r = String::new();
        r.append("  │  ");
        r.append(t);
        r
    }
}

/// The full terminal view of a log text: a banner, every line decorated on a
/// line of its own, and a closing banner.
pub fn format_logs(logs: &str) -> (r: String)
    ensures
        r@ == format_logs_seq(logs@),
{
    let cs = chars_of(logs);
    let ls = lines_chars(&cs);
    let ghost lv = lines_seq(logs@);
    let mut out = String::new();
    out.append("\n╔══════════════════════════════════════════════════════════════════════════════╗\n");
    out.append("║                        ORION STARTUP LOGS                                  ║\n");
    out.append("╚══════════════════════════════════════════════════════════════════════════════╝\n\n");
    let n = ls.len();
    for i in 0..n
        invariant
            n == ls@.len(),
            n == lv.len(),
            forall|k: int| 0 <= k < n ==> #[trigger] ls@[k]@ == lv[k],
            out@ == logs_header() + decorated_lines(lv.take(i as int)),
    {
        assert(lv.take(i + 1).drop_last() == lv.take(i as int));
        let line = string_from_chars(ls[i].as_slice());
        let f = format_log_line(line.as_str());
        out.append(f.as_str());
        out.append("\n");
        proof {
            reveal_strlit("\n");
        }
    }
    assert(lv.take(n as int) == lv);
    out.append("\n╔══════════════════════════════════════════════════════════════════════════════╗\n");
    out.append("║                         END OF LOGS                                        ║\n");
    out.append("╚══════════════════════════════════════════════════════════════════════════════╝\n");
    out
}

/// A titled section: a title line, then each non-blank line of `content`,
/// trimmed and decorated, on a line of its own.
pub fn format_logs_section(title: &str, content: &str) -> (r: String)
    ensures
        r@ == format_logs_section_seq(title@, content@),
{
    let cs = chars_of(content);
    let ls = lines_chars(&cs);
    let ghost lv = lines_seq(content@);
    let mut out = String::new();
    out.append("\n─── ");
    out.append(title);
    out.append(" ───\n");
    let n = ls.len();
    for i in 0..n
        invariant
            n == ls@.len(),
            n == lv.len(),
            forall|k: int| 0 <= k < n ==> #[trigger] ls@[k]@ == lv[k],
            out@ == "\n─── "@ + title@ + " ───\n"@ + section_lines(lv.take(i as int)),
    {
        assert(lv.take(i + 1).drop_last() == lv.take(i as int));
        let t = trim_chars(&ls[i]);
        if t.len() > 0 {
            let line = string_from_chars(t.as_slice());
            let f = format_log_line(line.as_str());
            out.append(f.as_str());
            out.append("\n");
            proof {
                reveal_strlit("\n");
            }
        }
    }
    assert(lv.take(n as int) == lv);
    out
}

/// The first `n` characters of `cs`.
fn take_chars(cs: &Vec<char>, n: usize) -> (r: Vec<char>)
    requires
        n <= cs@.len(),
    ensures
        r@ == cs@.take(n as int),
{
    let mut r: Vec<char> = Vec::new();
    let mut i: usize = 0;
    while i < n
        invariant
            i <= n <= cs@.len(),
            r@ == cs@.take(i as int),
        decreases n - i,
    {
        r.push(cs[i]);
        assert(cs@.take(i + 1) == cs@.take(i as int).push(cs@[i as int]));
        i += 1;
    }
    r
}

/// Splits the combined log before the first Orion log marker into the
/// journal part and the Orion part; with no marker, everything is journal.
pub fn split_logs(full_logs: &str) -> (parts: (&str, &str))
    ensures
        (parts.0@, parts.1@) == split_logs_seq(full_logs@),
{
    let cs = chars_of(full_logs);
    let marker = chars_of(ORION_LOG_MARKER);
    match find_chars(&cs, &marker) {
        Some(i) => {
            let ghost s = full_logs@;
            let ghost m = ORION_LOG_MARKER@;
            let prefix = take_chars(&cs, i);
            let prefix_str = string_from_chars(prefix.as_slice());
            let mid = byte_len(prefix_str.as_str());
            proof {
                assert(s == s.take(i as int) + s.skip(i as int));
                lemma_encode_utf8_concat(s.take(i as int), s.skip(i as int));
                lemma_char_boundary_at_prefix(s.take(i as int), s.skip(i as int));
                assert(prefix_str@ == s.take(i as int));
                assert(mid == vstd::utf8::encode_utf8(s.take(i as int)).len());
                assert(full_logs.spec_bytes() == vstd::utf8::encode_utf8(s.take(i as int) + s.skip(i as int)));
                let c = choose|c: int| is_first_match(s, m, c);
                assert(is_first_match(s, m, i as int));
                if c < i {
                    assert(!matches_at(s, m, c));
                } else if c > i {
                    assert(!matches_at(s, m, i as int));
                }
            }
            let (journal, orion) = full_logs.split_at(mid);
            proof {
                let bytes = vstd::utf8::encode_utf8(s);
                let head = vstd::utf8::encode_utf8(s.take(i as int));
                let tail = vstd::utf8::encode_utf8(s.skip(i as int));
                assert(bytes.subrange(0, mid as int) == head);
                assert(bytes.subrange(mid as int, bytes.len() as int) == tail);
                assert(vstd::utf8::decode_utf8(vstd::utf8::encode_utf8(journal@)) == journal@);
                assert(vstd::utf8::decode_utf8(vstd::utf8::encode_utf8(orion@)) == orion@);
            }
            (journal, orion)
        },
        None => {
            proof {
                reveal_strlit("");
            }
            (full_logs, "")
        },
    }
}

/// The data of the event sent when fetching the logs failed.
pub fn stream_error_data(message: &str) -> (r: String)
    ensures
        r@ == "Error: "@ + message@,
{
    let mut r = String::new();
    r.append("Error: ");
    r.append(message);
    r
}

// ---------------------------------------------------------------------------
// Laws
// ---------------------------------------------------------------------------

/// Text without escape characters passes through the stripping unchanged.
pub proof fn lemma_strip_copies(s: Seq<char>, i: int, j: int)
    requires
        0 <= i <= j <= s.len(),
        forall|k: int| i <= k < j ==> s[k] != '\x1b',
    ensures
        strip_ansi_from(s, i) == s.subrange(i, j) + strip_ansi_from(s, j),
    decreases j - i,
{
    if i < j {
        lemma_strip_copies(s, i + 1, j);
        assert(s.subrange(i, j) == seq![s[i]] + s.subrange(i + 1, j));
    } else {
        assert(s.subrange(i, j) == Seq::<char>::empty());
    }
}

/// Stripping leaves text that holds no escape character unchanged.
pub proof fn law_strip_ansi_keeps_plain_text(s: Seq<char>)
    requires
        forall|k: int| 0 <= k < s.len() ==> s[k] != '\x1b',
    ensures
        strip_ansi_seq(s) == s,
{
    lemma_strip_copies(s, 0, s.len() as int);
    assert(s.subrange(0, s.len() as int) == s);
}

/// Every colour code is two digits.
pub proof fn lemma_color_code_digits(color: Seq<char>)
    ensures
        color_code(color).len() == 2,
        '0' <= color_code(color)[0] <= '9',
        '0' <= color_code(color)[1] <= '9',
{
    reveal_strlit("31");
    reveal_strlit("32");
    reveal_strlit("33");
    reveal_strlit("34");
    reveal_strlit("35");
    reveal_strlit("36");
    reveal_strlit("37");
    reveal_strlit("97");
    reveal_strlit("94");
    reveal_strlit("90");
}

/// Stripping a coloured text gives the text back, when the text holds no
/// escape character: the codes that colouring adds are exactly what
/// stripping removes.
pub proof fn law_strip_undoes_colorize(t: Seq<char>, color: Seq<char>)
    requires
        forall|k: int| 0 <= k < t.len() ==> t[k] != '\x1b',
    ensures
        strip_ansi_seq(colorize_seq(t, color)) == t,
{
    reveal_strlit("\x1b[");
    reveal_strlit("m");
    reveal_strlit("\x1b[0m");
    lemma_color_code_digits(color);
    let code = color_code(color);
    let s = colorize_seq(t, color);
    let n = t.len() as int;
    assert(s.len() == 5 + n + 4);
    assert(s[0] == '\x1b' && s[1] == '[');
    assert(s[2] == code[0] && s[3] == code[1] && s[4] == 'm');
    assert(csi_end(s, 4) == 4);
    assert(csi_end(s, 3) == 4);
    assert(csi_end(s, 2) == 4);
    assert forall|k: int| 5 <= k < 5 + n implies s[k] != '\x1b' by {
        assert(s[k] == t[k - 5]);
    }
    lemma_strip_copies(s, 5, 5 + n);
    assert(s.subrange(5, 5 + n) == t);
    let e = 5 + n;
    assert(s[e] == '\x1b' && s[e + 1] == '[' && s[e + 2] == '0' && s[e + 3] == 'm');
    assert(csi_end(s, e + 3) == e + 3);
    assert(csi_end(s, e + 2) == e + 3);
    assert(strip_ansi_from(s, e) == strip_ansi_from(s, e + 4));
    assert(strip_ansi_from(s, e + 4) == Seq::<char>::empty());
    assert(t + Seq::<char>::empty() == t);
}

/// Splitting the combined log loses nothing: the journal part followed by
/// the Orion part is the whole; the journal part never holds the marker,
/// and a non-empty Orion part begins with it.
pub proof fn law_split_logs_partition(s: Seq<char>)
    ensures
        split_logs_seq(s).0 + split_logs_seq(s).1 == s,
        !contains_seq(split_logs_seq(s).0, ORION_LOG_MARKER@),
        split_logs_seq(s).1.len() > 0 ==> starts_with_seq(split_logs_seq(s).1, ORION_LOG_MARKER@),
        contains_seq(s, ORION_LOG_MARKER@) <==> split_logs_seq(s).1.len() > 0,
{
    let m = ORION_LOG_MARKER@;
    reveal_strlit("========== Orion Log");
    assert(m.len() > 0);
    if contains_seq(s, m) {
        let w = choose|w: int| matches_at(s, m, w);
        lemma_first_match_exists(s, m, w);
        let i = choose|i: int| is_first_match(s, m, i);
        let (j, o) = split_logs_seq(s);
        assert(j + o == s);
        assert(o.subrange(0, m.len() as int) == s.subrange(i, i + m.len()));
        assert forall|k: int| !matches_at(j, m, k) by {
            if matches_at(j, m, k) {
                assert(s.subrange(k, k + m.len()) == j.subrange(k, k + m.len()));
                assert(matches_at(s, m, k));
            }
        }
    } else {
        assert(s + Seq::<char>::empty() == s);
    }
}

/// When `needle` occurs at or before `w`, it has a first occurrence.
pub proof fn lemma_first_match_exists(hay: Seq<char>, needle: Seq<char>, w: int)
    requires
        matches_at(hay, needle, w),
    ensures
        exists|i: int| is_first_match(hay, needle, i),
    decreases w,
{
    if forall|j: int| 0 <= j < w ==> !matches_at(hay, needle, j) {
        assert(is_first_match(hay, needle, w));
    } else {
        let j = choose|j: int| 0 <= j < w && matches_at(hay, needle, j);
        lemma_first_match_exists(hay, needle, j);
    }
}

/// Every decorated line is indented by two spaces.
pub proof fn law_decorated_lines_are_indented(line: Seq<char>)
    ensures
        starts_with_seq(log_line_seq(line), "  "@),
{
    reveal_strlit("  ");
    reveal_strlit("  🔍 ");
    reveal_strlit("  🧹 ");
    reveal_strlit("  ✅ ");
    reveal_strlit("  🆔 ");
    reveal_strlit("  🌐 ");
    reveal_strlit("  📦 ");
    reveal_strlit("  ❌ ");
    reveal_strlit("  ⚠️  ");
    reveal_strlit("  ℹ️  ");
    reveal_strlit("  ▶️  ");
    reveal_strlit("  🔧 ");
    reveal_strlit("  │  ");
    let r = log_line_seq(line);
    assert(r.subrange(0, 2) == "  "@);
}

proof fn lemma_decorated_lines_append(x: Seq<Seq<char>>, y: Seq<Seq<char>>)
    ensures
        decorated_lines(x + y) == decorated_lines(x) + decorated_lines(y),
    decreases y.len(),
{
    if y.len() == 0 {
        assert(x + y == x);
    } else {
        assert((x + y).drop_last() == x + y.drop_last());
        assert((x + y).last() == y.last());
        lemma_decorated_lines_append(x, y.drop_last());
    }
}

proof fn lemma_section_lines_append(x: Seq<Seq<char>>, y: Seq<Seq<char>>)
    ensures
        section_lines(x + y) == section_lines(x) + section_lines(y),
    decreases y.len(),
{
    if y.len() == 0 {
        assert(x + y == x);
    } else {
        assert((x + y).drop_last() == x + y.drop_last());
        assert((x + y).last() == y.last());
        lemma_section_lines_append(x, y.drop_last());
    }
}

/// The log page of an empty log is the two banners.
pub proof fn law_format_logs_of_empty()
    ensures
        format_logs_seq(Seq::empty()) == logs_header() + logs_footer(),
{
    assert(logs_header() + Seq::<char>::empty() == logs_header());
}

/// The log page of one newline-terminated line: the banners around that
/// line's decoration (without a carriage return before the newline) and a
/// newline.
pub proof fn law_format_logs_of_one_line(l: Seq<char>)
    requires
        free_of(l, '\n'),
    ensures
        format_logs_seq(l.push('\n')) == logs_header() + log_line_seq(
            if l.len() > 0 && l.last() == '\r' {
                l.drop_last()
            } else {
                l
            },
        ) + seq!['\n'] + logs_footer(),
{
    law_lines_of_terminated_line(l);
    let ls = lines_seq(l.push('\n'));
    assert(ls.drop_last() == Seq::<Seq<char>>::empty());
    let d = log_line_seq(ls.last()) + seq!['\n'];
    assert(decorated_lines(ls.drop_last()) == Seq::<char>::empty());
    assert(decorated_lines(ls) =~= d);
    assert(format_logs_seq(l.push('\n')) =~= logs_header() + log_line_seq(ls.last()) + seq!['\n']
        + logs_footer());
}

/// The log page of one line without a newline: the banners around that
/// line's decoration and a newline.
pub proof fn law_format_logs_of_unterminated_line(l: Seq<char>)
    requires
        free_of(l, '\n'),
        l.len() > 0,
    ensures
        format_logs_seq(l) == logs_header() + log_line_seq(l) + seq!['\n'] + logs_footer(),
{
    law_lines_of_unterminated_line(l);
    let ls = lines_seq(l);
    assert(ls.drop_last() == Seq::<Seq<char>>::empty());
    let d = log_line_seq(ls.last()) + seq!['\n'];
    assert(decorated_lines(ls.drop_last()) == Seq::<char>::empty());
    assert(decorated_lines(ls) =~= d);
    assert(format_logs_seq(l) =~= logs_header() + log_line_seq(l) + seq!['\n'] + logs_footer());
}

/// Every line of the log gets its own entry, in order: the page of a log
/// that ends where a line ends, followed by more log, is the first page
/// without its closing banner followed by the second page without its
/// opening banner.
pub proof fn law_format_logs_of_concatenation(a: Seq<char>, b: Seq<char>)
    requires
        ends_line(a),
    ensures
        format_logs_seq(a + b) == format_logs_seq(a).subrange(
            0,
            format_logs_seq(a).len() - logs_footer().len(),
        ) + format_logs_seq(b).subrange(logs_header().len() as int, format_logs_seq(b).len() as int),
{
    law_lines_of_concatenation(a, b);
    lemma_decorated_lines_append(lines_seq(a), lines_seq(b));
    let h = logs_header();
    let f = logs_footer();
    let da = decorated_lines(lines_seq(a));
    let db = decorated_lines(lines_seq(b));
    assert(format_logs_seq(a).subrange(0, format_logs_seq(a).len() - f.len()) == h + da);
    assert(format_logs_seq(b).subrange(h.len() as int, format_logs_seq(b).len() as int) == db + f);
    assert(format_logs_seq(a + b) == (h + da) + (db + f));
}

/// The heading line of a section.
pub open spec fn section_heading(title: Seq<char>) -> Seq<char> {
    "\n─── "@ + title + " ───\n"@
}

/// A section of empty content is its heading alone.
pub proof fn law_section_of_empty(title: Seq<char>)
    ensures
        format_logs_section_seq(title, Seq::empty()) == section_heading(title),
{
    assert(section_heading(title) + Seq::<char>::empty() == section_heading(title));
}

/// A section of one newline-terminated line: the heading, then the trimmed
/// line decorated and followed by a newline, or nothing when the line is
/// blank.
pub proof fn law_section_of_one_line(title: Seq<char>, l: Seq<char>)
    requires
        free_of(l, '\n'),
    ensures
        ({
            let line = if l.len() > 0 && l.last() == '\r' {
                l.drop_last()
            } else {
                l
            };
            let t = trim_seq(line);
            format_logs_section_seq(title, l.push('\n')) == section_heading(title) + if t.len() > 0 {
                log_line_seq(t) + seq!['\n']
            } else {
                Seq::empty()
            }
        }),
{
    law_lines_of_terminated_line(l);
    let ls = lines_seq(l.push('\n'));
    assert(ls.drop_last() == Seq::<Seq<char>>::empty());
    let t = trim_seq(ls.last());
    let d = if t.len() > 0 {
        log_line_seq(t) + seq!['\n']
    } else {
        Seq::empty()
    };
    assert(section_lines(ls.drop_last()) == Seq::<char>::empty());
    assert(section_lines(ls) =~= d);
    assert(format_logs_section_seq(title, l.push('\n')) =~= section_heading(title) + d);
}

/// Every non-blank line of the content gets its own entry, in order,
/// whatever its neighbours are: the section of content that ends where a
/// line ends, followed by more content, is the first section followed by
/// the second one without its heading.
pub proof fn law_section_of_concatenation(title: Seq<char>, a: Seq<char>, b: Seq<char>)
    requires
        ends_line(a),
    ensures
        format_logs_section_seq(title, a + b) == format_logs_section_seq(title, a)
            + format_logs_section_seq(title, b).subrange(
            section_heading(title).len() as int,
            format_logs_section_seq(title, b).len() as int,
        ),
{
    law_lines_of_concatenation(a, b);
    lemma_section_lines_append(lines_seq(a), lines_seq(b));
    let h = section_heading(title);
    let sb = section_lines(lines_seq(b));
    assert(format_logs_section_seq(title, b) == h + sb);
    assert(format_logs_section_seq(title, b).subrange(h.len() as int, (h + sb).len() as int) == sb);
    assert(format_logs_section_seq(title, a + b) == (h + section_lines(lines_seq(a))) + sb);
}

proof fn lemma_csi_end_shift(s: Seq<char>, i: int, j: int)
    requires
        0 <= i <= j,
        i <= s.len(),
    ensures
        csi_end(s, j) == csi_end(s.skip(i), j - i) + i,
    decreases s.len() - j,
{
    if j < s.len() {
        assert(s.skip(i)[j - i] == s[j]);
        if !is_ascii_alpha(s[j]) {
            lemma_csi_end_shift(s, i, j + 1);
        }
    }
}

proof fn lemma_strip_shift(s: Seq<char>, i: int, k: int)
    requires
        0 <= i,
        0 <= k,
        i + k <= s.len(),
    ensures
        strip_ansi_from(s, i + k) == strip_ansi_from(s.skip(i), k),
    decreases s.len() - i - k,
{
    let t = s.skip(i);
    if i + k < s.len() {
        assert(t[k] == s[i + k]);
        if i + k + 1 < s.len() && s[i + k] == '\x1b' && s[i + k + 1] == '[' {
            assert(t[k + 1] == s[i + k + 1]);
            lemma_csi_end_shift(s, i, i + k + 2);
            lemma_csi_end_bounds(s, i + k + 2);
            let e = csi_end(s, i + k + 2);
            if e < s.len() {
                lemma_strip_shift(s, i, e + 1 - i);
            }
        } else {
            lemma_strip_shift(s, i, k + 1);
        }
    }
}

/// An escape sequence ends at the first ASCII letter, whichever letter it
/// is: `ESC [`, parameters without letters, and a letter are dropped, and
/// the rest is stripped on its own.
pub proof fn law_strip_drops_escape_sequence(params: Seq<char>, letter: char, rest: Seq<char>)
    requires
        is_ascii_alpha(letter),
        forall|k: int| 0 <= k < params.len() ==> !is_ascii_alpha(params[k]),
    ensures
        strip_ansi_seq(seq!['\x1b', '['] + params + seq![letter] + rest) == strip_ansi_seq(rest),
{
    let s = seq!['\x1b', '['] + params + seq![letter] + rest;
    let n = params.len() as int;
    assert forall|j: int| 2 <= j <= 2 + n implies csi_end(s, j) == 2 + n by {
        lemma_csi_end_run(s, j, 2 + n);
    }
    assert(s.skip(3 + n) == rest);
    lemma_strip_shift(s, 3 + n, 0);
}

proof fn lemma_csi_end_run(s: Seq<char>, j: int, e: int)
    requires
        0 <= j <= e < s.len(),
        is_ascii_alpha(s[e]),
        forall|k: int| j <= k < e ==> !is_ascii_alpha(s[k]),
    ensures
        csi_end(s, j) == e,
    decreases e - j,
{
    if j < e {
        lemma_csi_end_run(s, j + 1, e);
    }
}

/// An escape sequence that no letter ends swallows the rest of the text.
pub proof fn law_strip_drops_unterminated_sequence(params: Seq<char>)
    requires
        forall|k: int| 0 <= k < params.len() ==> !is_ascii_alpha(params[k]),
    ensures
        strip_ansi_seq(seq!['\x1b', '['] + params) == Seq::<char>::empty(),
{
    let s = seq!['\x1b', '['] + params;
    lemma_csi_end_to_end(s, 2);
}

proof fn lemma_csi_end_to_end(s: Seq<char>, j: int)
    requires
        0 <= j,
        forall|k: int| j <= k < s.len() ==> !is_ascii_alpha(s[k]),
    ensures
        csi_end(s, j) == s.len(),
    decreases s.len() - j,
{
    if j < s.len() {
        lemma_csi_end_to_end(s, j + 1);
    }
}

/// A character that does not open an escape sequence is kept, and the rest
/// is stripped on its own.
pub proof fn law_strip_keeps_other_characters(c: char, rest: Seq<char>)
    requires
        !(c == '\x1b' && rest.len() > 0 && rest[0] == '['),
    ensures
        strip_ansi_seq(seq![c] + rest) == seq![c] + strip_ansi_seq(rest),
{
    let s = seq![c] + rest;
    if rest.len() > 0 {
        assert(s[1] == rest[0]);
    }
    assert(s.skip(1) == rest);
    lemma_strip_shift(s, 1, 0);
}

/// The escape codes of the colours: each named colour has its code, and
/// the coloured text is that code, the text, and a reset.
pub proof fn law_colorize_codes(t: Seq<char>)
    ensures
        colorize_seq(t, "red"@) == "\x1b[31m"@ + t + "\x1b[0m"@,
        colorize_seq(t, "green"@) == "\x1b[32m"@ + t + "\x1b[0m"@,
        colorize_seq(t, "yellow"@) == "\x1b[33m"@ + t + "\x1b[0m"@,
        colorize_seq(t, "blue"@) == "\x1b[34m"@ + t + "\x1b[0m"@,
        colorize_seq(t, "magenta"@) == "\x1b[35m"@ + t + "\x1b[0m"@,
        colorize_seq(t, "cyan"@) == "\x1b[36m"@ + t + "\x1b[0m"@,
        colorize_seq(t, "white"@) == "\x1b[37m"@ + t + "\x1b[0m"@,
        colorize_seq(t, "bright_white"@) == "\x1b[97m"@ + t + "\x1b[0m"@,
        colorize_seq(t, "bright_blue"@) == "\x1b[94m"@ + t + "\x1b[0m"@,
        colorize_seq(t, "dim"@) == "\x1b[90m"@ + t + "\x1b[0m"@,
{
    reveal_strlit("\x1b[");
    reveal_strlit("m");
    reveal_strlit("\x1b[0m");
    reveal_strlit("red");
    reveal_strlit("green");
    reveal_strlit("yellow");
    reveal_strlit("blue");
    reveal_strlit("magenta");
    reveal_strlit("cyan");
    reveal_strlit("white");
    reveal_strlit("bright_white");
    reveal_strlit("bright_blue");
    reveal_strlit("dim");
    reveal_strlit("31");
    reveal_strlit("32");
    reveal_strlit("33");
    reveal_strlit("34");
    reveal_strlit("35");
    reveal_strlit("36");
    reveal_strlit("37");
    reveal_strlit("97");
    reveal_strlit("94");
    reveal_strlit("90");
    reveal_strlit("\x1b[31m");
    reveal_strlit("\x1b[32m");
    reveal_strlit("\x1b[33m");
    reveal_strlit("\x1b[34m");
    reveal_strlit("\x1b[35m");
    reveal_strlit("\x1b[36m");
    reveal_strlit("\x1b[37m");
    reveal_strlit("\x1b[97m");
    reveal_strlit("\x1b[94m");
    reveal_strlit("\x1b[90m");
    assert("\x1b["@ + "31"@ + "m"@ =~= "\x1b[31m"@);
    assert("\x1b["@ + "32"@ + "m"@ =~= "\x1b[32m"@);
    assert("\x1b["@ + "33"@ + "m"@ =~= "\x1b[33m"@);
    assert("\x1b["@ + "34"@ + "m"@ =~= "\x1b[34m"@);
    assert("\x1b["@ + "35"@ + "m"@ =~= "\x1b[35m"@);
    assert("\x1b["@ + "36"@ + "m"@ =~= "\x1b[36m"@);
    assert("\x1b["@ + "37"@ + "m"@ =~= "\x1b[37m"@);
    assert("\x1b["@ + "97"@ + "m"@ =~= "\x1b[97m"@);
    assert("\x1b["@ + "94"@ + "m"@ =~= "\x1b[94m"@);
    assert("\x1b["@ + "90"@ + "m"@ =~= "\x1b[90m"@);
    assert("green"@.len() != "red"@.len());
    assert("yellow"@.len() != "red"@.len());
    assert("yellow"@.len() != "green"@.len());
    assert("blue"@.len() != "red"@.len());
    assert("blue"@.len() != "green"@.len());
    assert("blue"@.len() != "yellow"@.len());
    assert("magenta"@.len() != "red"@.len());
    assert("magenta"@.len() != "green"@.len());
    assert("magenta"@.len() != "yellow"@.len());
    assert("magenta"@.len() != "blue"@.len());
    assert("cyan"@.len() != "red"@.len());
    assert("cyan"@.len() != "green"@.len());
    assert("cyan"@.len() != "yellow"@.len());
    assert("cyan"@[0] != "blue"@[0]);
    assert("cyan"@.len() != "magenta"@.len());
    assert("white"@.len() != "red"@.len());
    assert("white"@[0] != "green"@[0]);
    assert("white"@.len() != "yellow"@.len());
    assert("white"@.len() != "blue"@.len());
    assert("white"@.len() != "magenta"@.len());
    assert("white"@.len() != "cyan"@.len());
    assert("bright_white"@.len() != "red"@.len());
    assert("bright_white"@.len() != "green"@.len());
    assert("bright_white"@.len() != "yellow"@.len());
    assert("bright_white"@.len() != "blue"@.len());
    assert("bright_white"@.len() != "magenta"@.len());
    assert("bright_white"@.len() != "cyan"@.len());
    assert("bright_white"@.len() != "white"@.len());
    assert("bright_blue"@.len() != "red"@.len());
    assert("bright_blue"@.len() != "green"@.len());
    assert("bright_blue"@.len() != "yellow"@.len());
    assert("bright_blue"@.len() != "blue"@.len());
    assert("bright_blue"@.len() != "magenta"@.len());
    assert("bright_blue"@.len() != "cyan"@.len());
    assert("bright_blue"@.len() != "white"@.len());
    assert("bright_blue"@.len() != "bright_white"@.len());
    assert("dim"@[0] != "red"@[0]);
    assert("dim"@.len() != "green"@.len());
    assert("dim"@.len() != "yellow"@.len());
    assert("dim"@.len() != "blue"@.len());
    assert("dim"@.len() != "magenta"@.len());
    assert("dim"@.len() != "cyan"@.len());
    assert("dim"@.len() != "white"@.len());
    assert("dim"@.len() != "bright_white"@.len());
    assert("dim"@.len() != "bright_blue"@.len());
    assert(color_code("red"@) == "31"@);
    assert(color_code("green"@) == "32"@);
    assert(color_code("yellow"@) == "33"@);
    assert(color_code("blue"@) == "34"@);
    assert(color_code("magenta"@) == "35"@);
    assert(color_code("cyan"@) == "36"@);
    assert(color_code("white"@) == "37"@);
    assert(color_code("bright_white"@) == "97"@);
    assert(color_code("bright_blue"@) == "94"@);
    assert(color_code("dim"@) == "90"@);
    assert forall|code: Seq<char>| #![auto] "\x1b["@ + code + "m"@ + t + "\x1b[0m"@ =~= ("\x1b["@ + code + "m"@) + t + "\x1b[0m"@ by {}
}

/// A colour with no name of its own is written as white.
pub proof fn law_colorize_unknown_is_white(t: Seq<char>, color: Seq<char>)
    requires
        color != "red"@,
        color != "green"@,
        color != "yellow"@,
        color != "blue"@,
        color != "magenta"@,
        color != "cyan"@,
        color != "white"@,
        color != "bright_white"@,
        color != "bright_blue"@,
        color != "dim"@,
    ensures
        colorize_seq(t, color) == "\x1b[37m"@ + t + "\x1b[0m"@,
{
    reveal_strlit("\x1b[");
    reveal_strlit("m");
    reveal_strlit("\x1b[0m");
    reveal_strlit("red");
    reveal_strlit("green");
    reveal_strlit("yellow");
    reveal_strlit("blue");
    reveal_strlit("magenta");
    reveal_strlit("cyan");
    reveal_strlit("white");
    reveal_strlit("bright_white");
    reveal_strlit("bright_blue");
    reveal_strlit("dim");
    reveal_strlit("31");
    reveal_strlit("32");
    reveal_strlit("33");
    reveal_strlit("34");
    reveal_strlit("35");
    reveal_strlit("36");
    reveal_strlit("37");
    reveal_strlit("97");
    reveal_strlit("94");
    reveal_strlit("90");
    reveal_strlit("\x1b[31m");
    reveal_strlit("\x1b[32m");
    reveal_strlit("\x1b[33m");
    reveal_strlit("\x1b[34m");
    reveal_strlit("\x1b[35m");
    reveal_strlit("\x1b[36m");
    reveal_strlit("\x1b[37m");
    reveal_strlit("\x1b[97m");
    reveal_strlit("\x1b[94m");
    reveal_strlit("\x1b[90m");
    assert("\x1b["@ + "37"@ + "m"@ =~= "\x1b[37m"@);
    assert("\x1b["@ + "37"@ + "m"@ + t + "\x1b[0m"@ =~= ("\x1b["@ + "37"@ + "m"@) + t + "\x1b[0m"@);
}

/// How a log line is decorated, rule by rule: the escape codes are removed,
/// and the first rule whose patterns the text shows picks the icon and the
/// colour; a blank text becomes two spaces, any other text is shown plain.
pub proof fn law_log_line_rules(line: Seq<char>)
    ensures
        ({
            let c = strip_ansi_seq(line);
            &&& ((contains_seq(c, "preflight.sh"@) || contains_seq(c, "预检"@))) ==> log_line_seq(line) == "  🔍 "@ + "\x1b[36m"@ + c + "\x1b[0m"@
            &&& (!(contains_seq(c, "preflight.sh"@) || contains_seq(c, "预检"@)) && (contains_seq(c, "cleanup.sh"@) || contains_seq(c, "清理"@))) ==> log_line_seq(line) == "  🧹 "@ + "\x1b[33m"@ + c + "\x1b[0m"@
            &&& (!(contains_seq(c, "preflight.sh"@) || contains_seq(c, "预检"@)) && !(contains_seq(c, "cleanup.sh"@) || contains_seq(c, "清理"@)) && (contains_seq(c, "systemd"@) || contains_seq(c, "Started"@))) ==> log_line_seq(line) == "  ✅ "@ + "\x1b[32m"@ + c + "\x1b[0m"@
            &&& (!(contains_seq(c, "preflight.sh"@) || contains_seq(c, "预检"@)) && !(contains_seq(c, "cleanup.sh"@) || contains_seq(c, "清理"@)) && !(contains_seq(c, "systemd"@) || contains_seq(c, "Started"@)) && (contains_seq(c, "ORION_WORKER_ID"@) || contains_seq(c, "Worker ID"@))) ==> log_line_seq(line) == "  🆔 "@ + "\x1b[35m"@ + c + "\x1b[0m"@
            &&& (!(contains_seq(c, "preflight.sh"@) || contains_seq(c, "预检"@)) && !(contains_seq(c, "cleanup.sh"@) || contains_seq(c, "清理"@)) && !(contains_seq(c, "systemd"@) || contains_seq(c, "Started"@)) && !(contains_seq(c, "ORION_WORKER_ID"@) || contains_seq(c, "Worker ID"@)) && (contains_seq(c, "WebSocket"@) || contains_seq(c, "Connecting"@))) ==> log_line_seq(line) == "  🌐 "@ + "\x1b[34m"@ + c + "\x1b[0m"@
            &&& (!(contains_seq(c, "preflight.sh"@) || contains_seq(c, "预检"@)) && !(contains_seq(c, "cleanup.sh"@) || contains_seq(c, "清理"@)) && !(contains_seq(c, "systemd"@) || contains_seq(c, "Started"@)) && !(contains_seq(c, "ORION_WORKER_ID"@) || contains_seq(c, "Worker ID"@)) && !(contains_seq(c, "WebSocket"@) || contains_seq(c, "Connecting"@)) && (contains_seq(c, "Antares"@) || contains_seq(c, "Dicfuse"@))) ==> log_line_seq(line) == "  📦 "@ + "\x1b[94m"@ + c + "\x1b[0m"@
            &&& (!(contains_seq(c, "preflight.sh"@) || contains_seq(c, "预检"@)) && !(contains_seq(c, "cleanup.sh"@) || contains_seq(c, "清理"@)) && !(contains_seq(c, "systemd"@) || contains_seq(c, "Started"@)) && !(contains_seq(c, "ORION_WORKER_ID"@) || contains_seq(c, "Worker ID"@)) && !(contains_seq(c, "WebSocket"@) || contains_seq(c, "Connecting"@)) && !(contains_seq(c, "Antares"@) || contains_seq(c, "Dicfuse"@)) && (contains_seq(c, "ERROR"@) || contains_seq(c, "error"@))) ==> log_line_seq(line) == "  ❌ "@ + "\x1b[31m"@ + c + "\x1b[0m"@
            &&& (!(contains_seq(c, "preflight.sh"@) || contains_seq(c, "预检"@)) && !(contains_seq(c, "cleanup.sh"@) || contains_seq(c, "清理"@)) && !(contains_seq(c, "systemd"@) || contains_seq(c, "Started"@)) && !(contains_seq(c, "ORION_WORKER_ID"@) || contains_seq(c, "Worker ID"@)) && !(contains_seq(c, "WebSocket"@) || contains_seq(c, "Connecting"@)) && !(contains_seq(c, "Antares"@) || contains_seq(c, "Dicfuse"@)) && !(contains_seq(c, "ERROR"@) || contains_seq(c, "error"@)) && (contains_seq(c, "WARN"@) || contains_seq(c, "warn"@))) ==> log_line_seq(line) == "  ⚠️  "@ + "\x1b[33m"@ + c + "\x1b[0m"@
            &&& (!(contains_seq(c, "preflight.sh"@) || contains_seq(c, "预检"@)) && !(contains_seq(c, "cleanup.sh"@) || contains_seq(c, "清理"@)) && !(contains_seq(c, "systemd"@) || contains_seq(c, "Started"@)) && !(contains_seq(c, "ORION_WORKER_ID"@) || contains_seq(c, "Worker ID"@)) && !(contains_seq(c, "WebSocket"@) || contains_seq(c, "Connecting"@)) && !(contains_seq(c, "Antares"@) || contains_seq(c, "Dicfuse"@)) && !(contains_seq(c, "ERROR"@) || contains_seq(c, "error"@)) && !(contains_seq(c, "WARN"@) || contains_seq(c, "warn"@)) && (contains_seq(c, "INFO"@) || contains_seq(c, "info"@))) ==> log_line_seq(line) == "  ℹ️  "@ + "\x1b[37m"@ + c + "\x1b[0m"@
            &&& (!(contains_seq(c, "preflight.sh"@) || contains_seq(c, "预检"@)) && !(contains_seq(c, "cleanup.sh"@) || contains_seq(c, "清理"@)) && !(contains_seq(c, "systemd"@) || contains_seq(c, "Started"@)) && !(contains_seq(c, "ORION_WORKER_ID"@) || contains_seq(c, "Worker ID"@)) && !(contains_seq(c, "WebSocket"@) || contains_seq(c, "Connecting"@)) && !(contains_seq(c, "Antares"@) || contains_seq(c, "Dicfuse"@)) && !(contains_seq(c, "ERROR"@) || contains_seq(c, "error"@)) && !(contains_seq(c, "WARN"@) || contains_seq(c, "warn"@)) && !(contains_seq(c, "INFO"@) || contains_seq(c, "info"@)) && (starts_with_seq(c, "==>"@))) ==> log_line_seq(line) == "  ▶️  "@ + "\x1b[97m"@ + c + "\x1b[0m"@
            &&& (!(contains_seq(c, "preflight.sh"@) || contains_seq(c, "预检"@)) && !(contains_seq(c, "cleanup.sh"@) || contains_seq(c, "清理"@)) && !(contains_seq(c, "systemd"@) || contains_seq(c, "Started"@)) && !(contains_seq(c, "ORION_WORKER_ID"@) || contains_seq(c, "Worker ID"@)) && !(contains_seq(c, "WebSocket"@) || contains_seq(c, "Connecting"@)) && !(contains_seq(c, "Antares"@) || contains_seq(c, "Dicfuse"@)) && !(contains_seq(c, "ERROR"@) || contains_seq(c, "error"@)) && !(contains_seq(c, "WARN"@) || contains_seq(c, "warn"@)) && !(contains_seq(c, "INFO"@) || contains_seq(c, "info"@)) && !(starts_with_seq(c, "==>"@)) && (contains_seq(c, "DEBUG"@))) ==> log_line_seq(line) == "  🔧 "@ + "\x1b[90m"@ + c + "\x1b[0m"@
            &&& (!(contains_seq(c, "preflight.sh"@) || contains_seq(c, "预检"@)) && !(contains_seq(c, "cleanup.sh"@) || contains_seq(c, "清理"@)) && !(contains_seq(c, "systemd"@) || contains_seq(c, "Started"@)) && !(contains_seq(c, "ORION_WORKER_ID"@) || contains_seq(c, "Worker ID"@)) && !(contains_seq(c, "WebSocket"@) || contains_seq(c, "Connecting"@)) && !(contains_seq(c, "Antares"@) || contains_seq(c, "Dicfuse"@)) && !(contains_seq(c, "ERROR"@) || contains_seq(c, "error"@)) && !(contains_seq(c, "WARN"@) || contains_seq(c, "warn"@)) && !(contains_seq(c, "INFO"@) || contains_seq(c, "info"@)) && !(starts_with_seq(c, "==>"@)) && !(contains_seq(c, "DEBUG"@)) && c.len() == 0) ==> log_line_seq(line) == "  "@
            &&& (!(contains_seq(c, "preflight.sh"@) || contains_seq(c, "预检"@)) && !(contains_seq(c, "cleanup.sh"@) || contains_seq(c, "清理"@)) && !(contains_seq(c, "systemd"@) || contains_seq(c, "Started"@)) && !(contains_seq(c, "ORION_WORKER_ID"@) || contains_seq(c, "Worker ID"@)) && !(contains_seq(c, "WebSocket"@) || contains_seq(c, "Connecting"@)) && !(contains_seq(c, "Antares"@) || contains_seq(c, "Dicfuse"@)) && !(contains_seq(c, "ERROR"@) || contains_seq(c, "error"@)) && !(contains_seq(c, "WARN"@) || contains_seq(c, "warn"@)) && !(contains_seq(c, "INFO"@) || contains_seq(c, "info"@)) && !(starts_with_seq(c, "==>"@)) && !(contains_seq(c, "DEBUG"@)) && c.len() > 0) ==> log_line_seq(line) == "  │  "@ + c
        }),
{
    let c = strip_ansi_seq(line);
    law_colorize_codes(c);
}

} // verus!
