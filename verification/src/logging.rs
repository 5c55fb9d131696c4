//! The lines of the log, and the queue of those that wait for the terminal.

use crate::net::{parts_of, split, split_chars, split_is_never_empty};
use crate::text::{chars_of, control, decimal, decimal_text, is_control, joined, texts};
use vstd::prelude::*;

verus! {

pub const MAX_LOG_LINE_CHARS: usize = 4096;

pub const MAX_TERMINAL_LOGS: usize = 2048;

#[derive(Clone, Copy, Debug, PartialEq, Eq, Structural)]
pub enum Level {
    Info,
    Warn,
    Error,
    Fatal,
}

impl Level {
    pub open spec fn text(self) -> Seq<char> {
        match self {
            Level::Info => "INFO"@,
            Level::Warn => "WARN"@,
            Level::Error => "ERROR"@,
            Level::Fatal => "FATAL"@,
        }
    }

    /// The name, filled with blanks to five characters.
    pub open spec fn wide(self) -> Seq<char> {
        match self {
            Level::Info => "INFO "@,
            Level::Warn => "WARN "@,
            Level::Error => "ERROR"@,
            Level::Fatal => "FATAL"@,
        }
    }

    pub fn as_str(self) -> (r: &'static str)
        ensures
            r@ == self.text(),
    {
        match self {
            Level::Info => "INFO",
            Level::Warn => "WARN",
            Level::Error => "ERROR",
            Level::Fatal => "FATAL",
        }
    }

    fn column(self) -> (r: &'static str)
        ensures
            r@ == self.wide(),
    {
        match self {
            Level::Info => "INFO ",
            Level::Warn => "WARN ",
            Level::Error => "ERROR",
            Level::Fatal => "FATAL",
        }
    }
}

/// The text without control characters.
pub open spec fn printable_part(text: Seq<char>) -> Seq<char>
    decreases text.len(),
{
    if text.len() == 0 {
        text
    } else {
        let front = printable_part(text.drop_last());
        if is_control(text.last()) {
            front
        } else {
            front.push(text.last())
        }
    }
}

/// A line as the log holds it: without control characters, and bounded.
pub open spec fn sanitized(text: Seq<char>) -> Seq<char> {
    let line = printable_part(text);
    if line.len() <= MAX_LOG_LINE_CHARS {
        line
    } else {
        line.take(MAX_LOG_LINE_CHARS as int)
    }
}

#[verifier::loop_isolation(false)]
fn sanitize_chars(chars: &Vec<char>) -> (r: String)
    ensures
        r@ == sanitized(chars@),
{
    let mut out: String = String::new();
    let mut n: usize = 0;
    let mut i: usize = 0;
    assert(chars@.take(0) =~= Seq::<char>::empty());
    assert(printable_part(chars@.take(0)).len() == 0);
    while i < chars.len()
        invariant
            i <= chars@.len(),
            n == out@.len() <= MAX_LOG_LINE_CHARS,
            out@ == sanitized(chars@.take(i as int)),
        decreases chars@.len() - i,
    {
        assert(chars@.take(i + 1).drop_last() =~= chars@.take(i as int));
        let ghost front = printable_part(chars@.take(i as int));
        if !control(chars[i]) {
            if n < MAX_LOG_LINE_CHARS {
                out.push(chars[i]);
                n += 1;
            } else {
                assert(front.push(chars@[i as int]).take(MAX_LOG_LINE_CHARS as int)
                    =~= front.take(MAX_LOG_LINE_CHARS as int));
            }
        }
        i += 1;
    }
    assert(chars@.take(i as int) =~= chars@);
    out
}

/// A line as the log holds it.
pub fn sanitize_line(value: &str) -> (r: String)
    ensures
        r@ == sanitized(value@),
{
    sanitize_chars(&chars_of(value))
}

/// The lines of a text. A line feed at the end begins no further line.
pub open spec fn lines_of(text: Seq<char>) -> Seq<Seq<char>> {
    let parts = split(text, '\n');
    if parts.last().len() == 0 {
        parts.drop_last()
    } else {
        parts
    }
}

/// The lines of a message as the log holds them: one at least.
pub open spec fn log_lines(text: Seq<char>) -> Seq<Seq<char>> {
    if lines_of(text).len() == 0 {
        seq![Seq::empty()]
    } else {
        lines_of(text).map_values(|line: Seq<char>| sanitized(line))
    }
}

#[verifier::loop_isolation(false)]
fn read_lines(message: &str) -> (r: Vec<Vec<char>>)
    ensures
        parts_of(r@) == lines_of(message@),
{
    let chars: Vec<char> = chars_of(message);
    assert(chars@.subrange(0, chars@.len() as int) =~= message@);
    let mut parts: Vec<Vec<char>> = split_chars(&chars, 0, chars.len(), '\n');
    proof {
        split_is_never_empty(message@, '\n');
    }
    let ghost all = parts_of(parts@);
    assert(all.len() == parts@.len());
    let n: usize = parts.len();
    assert(all.last() == parts@[n - 1]@);
    if parts[n - 1].len() == 0 {
        let last: Vec<char> = parts.remove(n - 1);
        assert(parts_of(parts@) =~= all.drop_last());
    }
    parts
}

/// The lines of a message as the log holds them.
#[verifier::loop_isolation(false)]
pub fn normalized_lines(message: &str) -> (r: Vec<String>)
    ensures
        texts(r@) == log_lines(message@),
{
    let lines: Vec<Vec<char>> = read_lines(message);
    let ghost all = lines_of(message@);
    assert(all.len() == lines@.len());
    let mut out: Vec<String> = Vec::new();
    if lines.len() == 0 {
        out.push(String::new());
        assert(texts(out@) =~= log_lines(message@));
        return out;
    }
    let mut i: usize = 0;
    while i < lines.len()
        invariant
            i == out@.len() <= lines@.len(),
            forall|k: int| 0 <= k < i ==> (#[trigger] out@[k])@ == sanitized(all[k]),
        decreases lines@.len() - i,
    {
        assert(all[i as int] == lines@[i as int]@);
        out.push(sanitize_chars(&lines[i]));
        i += 1;
    }
    assert(texts(out@) =~= log_lines(message@));
    out
}

/// The lines of a report behind its headline.
#[verifier::loop_isolation(false)]
pub fn report_lines(details: &str) -> (r: Vec<String>)
    ensures
        texts(r@) == lines_of(details@).map_values(
            |line: Seq<char>| sanitized("report "@ + line),
        ),
{
    let lines: Vec<Vec<char>> = read_lines(details);
    let ghost all = lines_of(details@);
    assert(all.len() == lines@.len());
    let mut out: Vec<String> = Vec::new();
    let mut i: usize = 0;
    while i < lines.len()
        invariant
            i == out@.len() <= lines@.len(),
            forall|k: int| 0 <= k < i ==> (#[trigger] out@[k])@ == sanitized("report "@ + all[k]),
        decreases lines@.len() - i,
    {
        assert(all[i as int] == lines@[i as int]@);
        let line: String = crate::text::text_of(&lines[i], 0, lines[i].len());
        assert(line@ =~= lines@[i as int]@);
        out.push(sanitize_line(&joined("report ", &line)));
        i += 1;
    }
    assert(texts(out@) =~= all.map_values(|line: Seq<char>| sanitized("report "@ + line)));
    out
}

/// A line for the file, behind its time and level.
pub fn disk_line(timestamp: &str, level: Level, message: &str) -> (r: String)
    ensures
        r@ == timestamp@ + " "@ + level.wide() + " "@ + message@,
{
    let mut line: String = joined(timestamp, " ");
    line.append(level.column());
    line.append(" ");
    line.append(message);
    line
}

/// A line for the terminal, behind its level.
pub fn sink_line(level: Level, message: &str) -> (r: String)
    ensures
        r@ == level.text() + " "@ + message@,
{
    let mut line: String = joined(level.as_str(), " ");
    line.append(message);
    line
}

/// The lines that wait for the terminal. A full queue drops its oldest line and
/// counts it.
pub struct LogQueue {
    pub lines: Vec<String>,
    pub omitted: usize,
}

impl Default for LogQueue {
    fn default() -> (r: LogQueue)
        ensures
            r.wf(),
            texts(r.lines@) == Seq::<Seq<char>>::empty(),
            r.omitted == 0,
    {
        let r = LogQueue { lines: Vec::new(), omitted: 0 };
        assert(texts(r.lines@) =~= Seq::<Seq<char>>::empty());
        r
    }
}

/// What is told of lines that were dropped.
pub open spec fn omission(omitted: nat) -> Seq<char> {
    "WARN "@ + decimal(omitted) + " terminal log lines omitted; consult the service log"@
}

impl LogQueue {
    pub open spec fn wf(self) -> bool {
        self.lines@.len() <= MAX_TERMINAL_LOGS
    }

    /// Adds a line.
    pub fn push(&mut self, line: String)
        requires
            old(self).wf(),
        ensures
            final(self).wf(),
            ({
                let was = texts(old(self).lines@);
                if was.len() < MAX_TERMINAL_LOGS {
                    &&& texts(final(self).lines@) == was.push(line@)
                    &&& final(self).omitted == old(self).omitted
                } else {
                    &&& texts(final(self).lines@) == was.drop_first().push(line@)
                    &&& final(self).omitted == if old(self).omitted < usize::MAX {
                        old(self).omitted + 1
                    } else {
                        usize::MAX as int
                    }
                }
            }),
    {
        let ghost was = texts(self.lines@);
        if self.lines.len() >= MAX_TERMINAL_LOGS {
            let oldest: String = self.lines.remove(0);
            self.omitted = self.omitted.saturating_add(1);
            assert(texts(self.lines@) =~= was.drop_first());
        }
        let ghost left = texts(self.lines@);
        self.lines.push(line);
        assert(texts(self.lines@) =~= left.push(line@));
    }

    /// Takes all lines out, behind a line that tells of dropped ones.
    pub fn drain(&mut self) -> (r: Vec<String>)
        requires
            old(self).wf(),
        ensures
            final(self).wf(),
            texts(final(self).lines@) == Seq::<Seq<char>>::empty(),
            final(self).omitted == 0,
            texts(r@) == if old(self).omitted == 0 {
                texts(old(self).lines@)
            } else {
                seq![omission(old(self).omitted as nat)] + texts(old(self).lines@)
            },
    {
        let ghost was = texts(self.lines@);
        let mut lines: Vec<String> = Vec::new();
        if self.omitted != 0 {
            let mut text: String = joined("WARN ", &decimal_text(self.omitted as u64));
            text.append(" terminal log lines omitted; consult the service log");
            lines.push(text);
            self.omitted = 0;
        }
        let ghost head = texts(lines@);
        let mut rest: Vec<String> = Vec::new();
        rest.append(&mut self.lines);
        assert(texts(rest@) =~= was);
        lines.append(&mut rest);
        assert(texts(lines@) =~= head + was);
        assert(texts(self.lines@) =~= Seq::<Seq<char>>::empty());
        assert(old(self).omitted == 0 ==> head + was =~= was);
        lines
    }
}

/// The side of the terminal that takes lines out of the queue.
pub struct LogReceiver {
    pub queue: LogQueue,
}

impl LogReceiver {
    /// Takes all lines out, those that were kept for an emergency first.
    pub fn drain(&mut self, emergency: &mut LogQueue) -> (r: Vec<String>)
        requires
            old(self).queue.wf(),
            old(emergency).wf(),
        ensures
            final(self).queue.wf(),
            final(emergency).wf(),
            final(self).queue.lines@.len() == 0,
            final(self).queue.omitted == 0,
            final(emergency).lines@.len() == 0,
            final(emergency).omitted == 0,
            ({
                let shown = |queue: LogQueue|
                    if queue.omitted == 0 {
                        texts(queue.lines@)
                    } else {
                        seq![omission(queue.omitted as nat)] + texts(queue.lines@)
                    };
                texts(r@) == shown(*old(emergency)) + shown(old(self).queue)
            }),
    {
        let mut lines: Vec<String> = emergency.drain();
        let mut rest: Vec<String> = self.queue.drain();
        let ghost first = texts(lines@);
        let ghost second = texts(rest@);
        lines.append(&mut rest);
        assert(texts(lines@) =~= first + second);
        assert(texts(self.queue.lines@).len() == self.queue.lines@.len());
        assert(texts(emergency.lines@).len() == emergency.lines@.len());
        lines
    }
}

/// No line of the log holds a control character or is longer than the bound, so
/// that no message can forge a line or take the terminal over.
pub proof fn a_log_line_holds_no_control_character(text: Seq<char>, i: int)
    requires
        0 <= i < sanitized(text).len(),
    ensures
        !is_control(sanitized(text)[i]),
        sanitized(text).len() <= MAX_LOG_LINE_CHARS,
{
    part_is_printable(text, i);
}

proof fn part_is_printable(text: Seq<char>, i: int)
    requires
        0 <= i < printable_part(text).len(),
    ensures
        !is_control(printable_part(text)[i]),
    decreases text.len(),
{
    if text.len() > 0 {
        let front = printable_part(text.drop_last());
        if i < front.len() {
            part_is_printable(text.drop_last(), i);
        }
    }
}

} // verus!
