//! The last lines of the log.

use vstd::prelude::*;
use std::collections::VecDeque;
use crate::text::{join_texts, joined, views};

verus! {

/// The lines that are kept.
pub const LOG_RING_CAPACITY: usize = 600;

/// A log file that is larger is started anew.
pub const LOG_FILE_LIMIT: u64 = 8388608;

/// Whether a log file is to be started anew.
pub fn log_file_is_full(length: u64) -> (r: bool)
    ensures
        r == (length > LOG_FILE_LIMIT),
{
    length > LOG_FILE_LIMIT
}

/// A line of the log: when, how grave, and what.
pub fn log_line(time: &str, level: &str, message: &str) -> (r: String)
    ensures
        r@ == joined(seq!["["@, time@, "] ["@, level@, "] "@, message@]),
{
    let parts: [&str; 6] = ["[", time, "] [", level, "] ", message];
    assert(views(parts@) =~= seq!["["@, time@, "] ["@, level@, "] "@, message@]);
    join_texts(parts.as_slice())
}

/// The last lines, the oldest first.
pub struct LogRing {
    lines: VecDeque<String>,
}

impl View for LogRing {
    type V = Seq<String>;

    closed spec fn view(&self) -> Seq<String> {
        self.lines@
    }
}

pub open spec fn kept(lines: Seq<String>, line: String) -> Seq<String> {
    let all = lines.push(line);
    if all.len() > LOG_RING_CAPACITY {
        all.skip(1)
    } else {
        all
    }
}

impl LogRing {
    pub open spec fn wf(&self) -> bool {
        self@.len() <= LOG_RING_CAPACITY
    }

    pub fn new() -> (r: LogRing)
        ensures
            r.wf(),
            r@.len() == 0,
    {
        LogRing { lines: VecDeque::new() }
    }

    /// Takes a line in; the oldest makes room for it.
    pub fn push(&mut self, line: String)
        requires
            old(self).wf(),
        ensures
            final(self).wf(),
            final(self)@ == kept(old(self)@, line),
    {
        let ghost before = self@;
        self.lines.push_back(line);
        if self.lines.len() > LOG_RING_CAPACITY {
            let _ = self.lines.pop_front();
        }
        assert(self@ =~= kept(before, line));
    }

    pub fn len(&self) -> (r: usize)
        ensures
            r == self@.len(),
    {
        self.lines.len()
    }

    pub fn line(&self, index: usize) -> (r: Option<&String>)
        ensures
            match r {
                Some(line) => index < self@.len() && *line == self@[index as int],
                None => index >= self@.len(),
            },
    {
        if index < self.lines.len() {
            Some(&self.lines[index])
        } else {
            None
        }
    }
}

/// The newest line is always kept, and only the oldest ever goes.
pub proof fn law_newest_line_is_kept(lines: Seq<String>, line: String)
    requires
        lines.len() <= LOG_RING_CAPACITY,
    ensures
        kept(lines, line).last() == line,
        kept(lines, line).len() <= LOG_RING_CAPACITY,
        lines.len() < LOG_RING_CAPACITY ==> kept(lines, line) == lines.push(line),
        lines.len() == LOG_RING_CAPACITY ==> kept(lines, line) == lines.skip(1).push(line),
{
    if lines.len() == LOG_RING_CAPACITY {
        assert(lines.push(line).skip(1) =~= lines.skip(1).push(line));
    }
}

} // verus!
