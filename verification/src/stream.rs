//! The live log stream: on the first poll it sends the last lines of each
//! part of the combined log, afterwards only what was added since the
//! previous poll. The polling, the fetching of the logs and the sending of
//! events happen outside; this module decides what each poll sends.
use vstd::prelude::*;
use vstd::string::StringSliceAdditionalSpecFns;
use vstd::utf8::{decode_utf8, encode_utf8, is_char_boundary};
use crate::text::{byte_len, chars_of, join_chars_from, join_seq, lines_chars, lines_seq};
use crate::logs::{
    format_logs_section, format_logs_section_seq, lemma_char_boundary_at_prefix,
    lemma_encode_utf8_concat, split_logs, split_logs_seq,
};

verus! {

broadcast use vstd::utf8::encode_utf8_valid_utf8, vstd::utf8::encode_utf8_decode_utf8;

/// How many lines of each part the first poll sends.
pub const INITIAL_LINES: usize = 50;

/// What the stream remembers between polls.
pub struct LogStream {
    /// Byte length of the Orion part at the previous poll.
    pub last_log_len: usize,
    /// Byte length of the journal part at the previous poll.
    pub last_journal_len: usize,
    /// No poll has succeeded yet.
    pub is_initial: bool,
}

// ---------------------------------------------------------------------------
// Specifications
// ---------------------------------------------------------------------------

/// The number of bytes in the UTF-8 encoding of `s`.
pub open spec fn byte_count(s: Seq<char>) -> nat {
    encode_utf8(s).len()
}

/// The text of `s` after its first `seen` bytes; empty when `s` has no more
/// than `seen` bytes.
pub open spec fn tail_after(s: Seq<char>, seen: int) -> Seq<char> {
    if byte_count(s) > seen {
        decode_utf8(encode_utf8(s).subrange(seen, byte_count(s) as int))
    } else {
        Seq::empty()
    }
}

/// Cutting `s` after `seen` bytes, when it has more, falls on a character
/// boundary.
pub open spec fn cuttable(s: Seq<char>, seen: int) -> bool {
    byte_count(s) > seen ==> is_char_boundary(encode_utf8(s), seen)
}

/// The last `n` lines of `s` (all of them when there are fewer), joined by
/// newlines.
pub open spec fn last_lines(s: Seq<char>, n: nat) -> Seq<char> {
    let ls = lines_seq(s);
    let start = if ls.len() > n {
        ls.len() - n
    } else {
        0
    };
    join_seq(ls.skip(start), "\n"@)
}

/// The new journal text and the new Orion text that a poll of `logs` finds.
pub open spec fn fresh_text(st: LogStream, logs: Seq<char>) -> (Seq<char>, Seq<char>) {
    let (journal, orion) = split_logs_seq(logs);
    if st.is_initial {
        (last_lines(journal, INITIAL_LINES as nat), last_lines(orion, INITIAL_LINES as nat))
    } else {
        (tail_after(journal, st.last_journal_len as int), tail_after(orion, st.last_log_len as int))
    }
}

/// The event data for the new texts: a section for each part that has new
/// text, nothing when neither has.
pub open spec fn event_data(new_journal: Seq<char>, new_orion: Seq<char>) -> Option<Seq<char>> {
    if new_journal.len() > 0 || new_orion.len() > 0 {
        Some(
            (if new_journal.len() > 0 {
                format_logs_section_seq("SYSTEM LOGS"@, new_journal)
            } else {
                Seq::empty()
            }) + (if new_orion.len() > 0 {
                format_logs_section_seq("ORION LOGS"@, new_orion)
            } else {
                Seq::empty()
            }),
        )
    } else {
        None
    }
}

/// A poll of `logs` cuts each part on a character boundary (where it does
/// not, the cut is not defined).
pub open spec fn can_poll(st: LogStream, logs: Seq<char>) -> bool {
    let (journal, orion) = split_logs_seq(logs);
    !st.is_initial ==> {
        &&& cuttable(journal, st.last_journal_len as int)
        &&& cuttable(orion, st.last_log_len as int)
    }
}

/// The state after a successful poll of `logs`.
pub open spec fn after_poll(logs: Seq<char>) -> LogStream {
    let (journal, orion) = split_logs_seq(logs);
    LogStream {
        last_log_len: byte_count(orion) as usize,
        last_journal_len: byte_count(journal) as usize,
        is_initial: false,
    }
}

// ---------------------------------------------------------------------------
// Implementation
// ---------------------------------------------------------------------------

/// The text of `s` after its first `seen` bytes.
fn tail_after_exec(s: &str, seen: usize) -> (r: String)
    requires
        cuttable(s@, seen as int),
    ensures
        r@ == tail_after(s@, seen as int),
{
    if byte_len(s) > seen {
        let (_, rest) = s.split_at(seen);
        assert(decode_utf8(encode_utf8(rest@)) == rest@);
        rest.to_owned()
    } else {
        String::new()
    }
}

/// The last `n` lines of `s`, joined by newlines.
fn last_lines_exec(s: &str, n: usize) -> (r: String)
    ensures
        r@ == last_lines(s@, n as nat),
{
    let cs = chars_of(s);
    let ls = lines_chars(&cs);
    let ghost lv = lines_seq(s@);
    assert(ls@.map_values(|p: Vec<char>| p@) == lv);
    let start = if ls.len() > n {
        ls.len() - n
    } else {
        0
    };
    let joined = join_chars_from(&ls, start, "\n");
    crate::text::string_from_chars(joined.as_slice())
}

impl LogStream {
    /// A stream on which no poll has happened yet.
    pub fn new() -> (st: LogStream)
        ensures
            st.is_initial,
            st.last_log_len == 0,
            st.last_journal_len == 0,
    {
        LogStream { last_log_len: 0, last_journal_len: 0, is_initial: true }
    }

    /// Whether a poll of `full_logs` cuts both parts on character boundaries.
    pub fn can_poll(&self, full_logs: &str) -> (b: bool)
        ensures
            b == can_poll(*self, full_logs@),
    {
        if self.is_initial {
            return true;
        }
        let (journal, orion) = split_logs(full_logs);
        let j_ok = byte_len(journal) <= self.last_journal_len || journal.is_char_boundary(
            self.last_journal_len,
        );
        let o_ok = byte_len(orion) <= self.last_log_len || orion.is_char_boundary(
            self.last_log_len,
        );
        j_ok && o_ok
    }

    /// One successful poll that fetched `full_logs`: returns the event data
    /// to send, if any, and remembers the sizes of both parts.
    pub fn poll(&mut self, full_logs: &str) -> (data: Option<String>)
        requires
            can_poll(*old(self), full_logs@),
        ensures
            *final(self) == after_poll(full_logs@),
            match (data, event_data(
                fresh_text(*old(self), full_logs@).0,
                fresh_text(*old(self), full_logs@).1,
            )) {
                (Some(d), Some(e)) => d@ == e,
                (None, None) => true,
                _ => false,
            },
    {
        let (journal, orion) = split_logs(full_logs);
        let (new_journal, new_orion) = if self.is_initial {
            (last_lines_exec(journal, INITIAL_LINES), last_lines_exec(orion, INITIAL_LINES))
        } else {
            (
                tail_after_exec(journal, self.last_journal_len),
                tail_after_exec(orion, self.last_log_len),
            )
        };
        self.is_initial = false;
        self.last_journal_len = byte_len(journal);
        self.last_log_len = byte_len(orion);
        let has_journal = !new_journal.as_str().is_empty();
        let has_orion = !new_orion.as_str().is_empty();
        if has_journal || has_orion {
            let mut out = String::new();
            if has_journal {
                let sec = format_logs_section("SYSTEM LOGS", new_journal.as_str());
                out.append(sec.as_str());
            }
            if has_orion {
                let sec = format_logs_section("ORION LOGS", new_orion.as_str());
                out.append(sec.as_str());
            }
            Some(out)
        } else {
            None
        }
    }
}

// ---------------------------------------------------------------------------
// Laws
// ---------------------------------------------------------------------------

/// A non-empty text has a non-empty encoding.
pub proof fn lemma_encode_utf8_len(s: Seq<char>)
    ensures
        byte_count(s) >= s.len(),
    decreases s.len(),
{
    if s.len() > 0 {
        lemma_encode_utf8_len(s.drop_first());
    }
}

/// What a poll reads of a part that grew by `added` since the previous poll
/// is exactly `added`, and the cut falls on a character boundary.
pub proof fn lemma_tail_after_append(old_part: Seq<char>, added: Seq<char>)
    ensures
        cuttable(old_part + added, byte_count(old_part) as int),
        tail_after(old_part + added, byte_count(old_part) as int) == added,
{
    lemma_encode_utf8_concat(old_part, added);
    lemma_char_boundary_at_prefix(old_part, added);
    lemma_encode_utf8_len(added);
    if added.len() == 0 {
        assert(old_part + added == old_part);
    } else {
        let whole = encode_utf8(old_part + added);
        assert(whole.subrange(byte_count(old_part) as int, whole.len() as int) == encode_utf8(
            added,
        ));
    }
}

/// After a poll, the next poll sends exactly the text appended to each part
/// in between: a section for each part that grew, and nothing at all when
/// neither grew.
pub proof fn law_poll_sends_only_appended_text(
    logs: Seq<char>,
    next_logs: Seq<char>,
    added_journal: Seq<char>,
    added_orion: Seq<char>,
)
    requires
        byte_count(split_logs_seq(logs).0) <= usize::MAX,
        byte_count(split_logs_seq(logs).1) <= usize::MAX,
        split_logs_seq(next_logs) == (
            split_logs_seq(logs).0 + added_journal,
            split_logs_seq(logs).1 + added_orion,
        ),
    ensures
        can_poll(after_poll(logs), next_logs),
        fresh_text(after_poll(logs), next_logs) == (added_journal, added_orion),
        event_data(added_journal, added_orion) is None <==> (added_journal.len() == 0
            && added_orion.len() == 0),
{
    lemma_tail_after_append(split_logs_seq(logs).0, added_journal);
    lemma_tail_after_append(split_logs_seq(logs).1, added_orion);
}

/// Polling the same logs twice in a row sends nothing the second time.
pub proof fn law_repeated_poll_sends_nothing(logs: Seq<char>)
    requires
        byte_count(split_logs_seq(logs).0) <= usize::MAX,
        byte_count(split_logs_seq(logs).1) <= usize::MAX,
    ensures
        can_poll(after_poll(logs), logs),
        event_data(
            fresh_text(after_poll(logs), logs).0,
            fresh_text(after_poll(logs), logs).1,
        ) is None,
{
    let (j, o) = split_logs_seq(logs);
    assert(j + Seq::<char>::empty() == j);
    assert(o + Seq::<char>::empty() == o);
    law_poll_sends_only_appended_text(logs, logs, Seq::empty(), Seq::empty());
}

/// The last `k` elements of `ls`, where `k` is 50 or, for fewer, all.
pub open spec fn last_fifty(ls: Seq<Seq<char>>) -> Seq<Seq<char>> {
    let k: int = if ls.len() > 50 {
        50
    } else {
        ls.len() as int
    };
    ls.subrange(ls.len() - k, ls.len() as int)
}

/// On the first poll, the new text of each part, the journal part and the
/// Orion part alike, is that part's last 50 lines (all of them when there
/// are fewer), in order, joined by newlines.
pub proof fn law_first_poll_sends_last_fifty_lines(st: LogStream, logs: Seq<char>)
    requires
        st.is_initial,
    ensures
        fresh_text(st, logs).0 == join_seq(last_fifty(lines_seq(split_logs_seq(logs).0)), "\n"@),
        fresh_text(st, logs).1 == join_seq(last_fifty(lines_seq(split_logs_seq(logs).1)), "\n"@),
        last_fifty(lines_seq(split_logs_seq(logs).0)).len() <= 50,
        last_fifty(lines_seq(split_logs_seq(logs).1)).len() <= 50,
{
    let lj = lines_seq(split_logs_seq(logs).0);
    let lo = lines_seq(split_logs_seq(logs).1);
    let sj: int = if lj.len() > 50 { lj.len() - 50 } else { 0 };
    let so: int = if lo.len() > 50 { lo.len() - 50 } else { 0 };
    assert(lj.skip(sj) == last_fifty(lj));
    assert(lo.skip(so) == last_fifty(lo));
}

} // verus!
