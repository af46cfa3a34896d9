//! The decisions of the background logger: which message a level makes, how a message is
//! written, when the buffer is flushed and how long the logger waits for the next message.
//!
//! Time is given in nanoseconds.

use vstd::prelude::*;
use std::collections::VecDeque;
use crate::text::{chars_is, push_char, push_str};

verus! {

/// How long buffered messages may wait before they are written.
pub const LOG_FLUSH_INTERVAL_NANOS: u64 = 100_000_000;

/// How many buffered messages are written at once, without waiting.
pub const LOG_FLUSH_BATCH: usize = 10;

/// A message for the logger.
#[derive(Clone, Debug)]
pub enum LogMessage {
    Info(String),
    Warn(String),
    Error(String),
    Debug(String),
    Shutdown,
}

impl LogMessage {
    /// The message for a level name: `INFO`, `WARN`, `ERROR` or `DEBUG`; any other level
    /// logs as information.
    pub fn from_level(level: &str, message: &str) -> (r: LogMessage)
        ensures
            match r {
                LogMessage::Warn(m) => level@ == "WARN"@ && m@ == message@,
                LogMessage::Error(m) => level@ == "ERROR"@ && m@ == message@,
                LogMessage::Debug(m) => level@ == "DEBUG"@ && m@ == message@,
                LogMessage::Info(m) => level@ != "WARN"@ && level@ != "ERROR"@ && level@
                    != "DEBUG"@ && m@ == message@,
                LogMessage::Shutdown => false,
            },
    {
        let l = crate::text::chars_of(level);
        let m = message.to_owned();
        if chars_is(&l, "WARN") {
            LogMessage::Warn(m)
        } else if chars_is(&l, "ERROR") {
            LogMessage::Error(m)
        } else if chars_is(&l, "DEBUG") {
            LogMessage::Debug(m)
        } else {
            LogMessage::Info(m)
        }
    }
}

/// How long the logger waits for a message: a full interval when nothing is buffered, not at
/// all when a batch is buffered, else what is left of the interval since the last flush.
pub open spec fn log_wait_spec(buffer_len: nat, elapsed: int) -> int {
    if buffer_len == 0 {
        LOG_FLUSH_INTERVAL_NANOS as int
    } else if buffer_len >= LOG_FLUSH_BATCH {
        0
    } else if elapsed >= LOG_FLUSH_INTERVAL_NANOS {
        0
    } else {
        LOG_FLUSH_INTERVAL_NANOS - elapsed
    }
}

/// How long the logger waits for the next message (see `log_wait_spec`); never longer than
/// the flush interval.
pub fn log_wait(buffer_len: usize, elapsed_nanos: u128) -> (r: u64)
    ensures
        r == log_wait_spec(buffer_len as nat, elapsed_nanos as int),
        r <= LOG_FLUSH_INTERVAL_NANOS,
{
    if buffer_len == 0 {
        LOG_FLUSH_INTERVAL_NANOS
    } else if buffer_len >= LOG_FLUSH_BATCH {
        0
    } else if elapsed_nanos >= LOG_FLUSH_INTERVAL_NANOS as u128 {
        0
    } else {
        let e: u64 = elapsed_nanos as u64;
        LOG_FLUSH_INTERVAL_NANOS - e
    }
}

/// The line written for a message at `timestamp`: `[LEVEL timestamp] message`.
pub open spec fn log_entry_spec(msg: LogMessage, timestamp: Seq<char>) -> Option<Seq<char>> {
    match msg {
        LogMessage::Info(m) => Some("[INFO "@ + timestamp + "] "@ + m@),
        LogMessage::Warn(m) => Some("[WARN "@ + timestamp + "] "@ + m@),
        LogMessage::Error(m) => Some("[ERROR "@ + timestamp + "] "@ + m@),
        LogMessage::Debug(m) => Some("[DEBUG "@ + timestamp + "] "@ + m@),
        LogMessage::Shutdown => None,
    }
}

/// Buffers a message received at `timestamp`; returns whether it asks the logger to stop
/// (a shutdown, which buffers nothing).
pub fn append_log_entry(buffer: &mut VecDeque<String>, msg: LogMessage, timestamp: &str) -> (r: bool)
    ensures
        r == (msg is Shutdown),
        match log_entry_spec(msg, timestamp@) {
            Some(e) => final(buffer)@.len() == old(buffer)@.len() + 1 && final(buffer)@.take(
                old(buffer)@.len() as int,
            ) == old(buffer)@ && final(buffer)@.last()@ == e,
            None => final(buffer)@ == old(buffer)@,
        },
{
    let (tag, m) = match msg {
        LogMessage::Shutdown => {
            return true;
        },
        LogMessage::Info(m) => ("[INFO ", m),
        LogMessage::Warn(m) => ("[WARN ", m),
        LogMessage::Error(m) => ("[ERROR ", m),
        LogMessage::Debug(m) => ("[DEBUG ", m),
    };
    let mut entry = tag.to_owned();
    push_str(&mut entry, timestamp);
    push_str(&mut entry, "] ");
    push_str(&mut entry, m.as_str());
    let ghost before = buffer@;
    buffer.push_back(entry);
    assert(buffer@.take(before.len() as int) =~= before);
    false
}

/// The buffered lines, each ended by a line break.
pub open spec fn log_text_spec(entries: Seq<String>) -> Seq<char>
    decreases entries.len(),
{
    if entries.len() == 0 {
        Seq::empty()
    } else {
        log_text_spec(entries.drop_last()) + entries.last()@ + seq!['\n']
    }
}

/// Empties the buffer and returns the text to write: its lines in order, each ended by a line
/// break.
pub fn flush_log_buffer(buffer: &mut VecDeque<String>) -> (r: String)
    ensures
        r@ == log_text_spec(old(buffer)@),
        final(buffer)@.len() == 0,
{
    let ghost all = buffer@;
    let mut text = String::new();
    let ghost mut taken: int = 0;
    loop
        invariant
            0 <= taken <= all.len(),
            buffer@ == all.subrange(taken, all.len() as int),
            text@ == log_text_spec(all.take(taken)),
        ensures
            text@ == log_text_spec(all),
            buffer@.len() == 0,
        decreases all.len() - taken,
    {
        match buffer.pop_front() {
            Some(entry) => {
                let ghost pre = all.take(taken + 1);
                assert(pre.drop_last() =~= all.take(taken));
                assert(pre.last() == entry);
                push_str(&mut text, entry.as_str());
                push_char(&mut text, '\n');
                assert(text@ =~= log_text_spec(pre));
                proof {
                    taken = taken + 1;
                }
                assert(buffer@ =~= all.subrange(taken, all.len() as int));
            },
            None => {
                assert(all.take(taken) =~= all);
                break;
            },
        }
    }
    text
}

/// Whether buffered messages are written now: a batch is buffered, or some message has waited
/// a whole interval since the last flush.
pub fn should_flush(buffer_len: usize, elapsed_nanos: u128) -> (r: bool)
    ensures
        r == (buffer_len >= LOG_FLUSH_BATCH || (buffer_len > 0 && elapsed_nanos
            >= LOG_FLUSH_INTERVAL_NANOS)),
{
    buffer_len >= LOG_FLUSH_BATCH || (buffer_len > 0 && elapsed_nanos >= LOG_FLUSH_INTERVAL_NANOS as u128)
}

} // verus!
