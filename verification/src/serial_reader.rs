//! Reader of samples from a serial line.

use vstd::prelude::*;
use vstd::string::StrSliceExecFns;
use crate::queue::pushed;
use crate::types::{DataQueue, SerialConfig, VitalSigns};

verus! {

/// Number of failed reads in a row at which the reader gives up.
pub const MAX_CONSECUTIVE_ERRORS: u32 = 5;

/// Pause after a failed read, in milliseconds.
pub const RETRY_PAUSE_MS: u64 = 1000;

/// What came of one attempt to read a line.
#[derive(Debug, Clone, PartialEq, Eq)]
pub enum ReadOutcome {
    /// The line has ended for good.
    Eof,
    /// A line of text.
    Line(String),
    /// The read failed.
    Failed,
}

/// What the host is to do after an attempt to read a line.
#[derive(Debug, Clone, Copy, PartialEq, Eq, Structural)]
pub enum ReaderAction {
    /// Read the next line.
    Continue,
    /// Read again after so many milliseconds.
    Retry { millis: u64 },
    /// Give up reading.
    Exit,
}

/// State of a reader of one serial line.
#[derive(Debug)]
pub struct SerialReader {
    config: SerialConfig,
    stop_flag: bool,
    consecutive_errors: u32,
}

/// Mathematical content of a [`SerialReader`].
pub struct ReaderModel {
    /// Name of the port that is read.
    pub port_name: Seq<char>,
    /// Speed of the line, in baud.
    pub baud_rate: u32,
    /// Whether the reader has been told to stop.
    pub stopped: bool,
    /// Reads in a row that failed.
    pub consecutive_errors: u32,
}

impl ReaderModel {
    /// A reader of the given line that has read nothing yet.
    pub open spec fn fresh(port_name: Seq<char>, baud_rate: u32) -> ReaderModel {
        ReaderModel { port_name, baud_rate, stopped: false, consecutive_errors: 0 }
    }

    /// The reader after one attempt to read a line: a line ends the run of
    /// failed reads, a failed read lengthens it, and the count stays at its
    /// largest value once it has reached it.
    pub open spec fn after(self, outcome: ReadOutcome) -> ReaderModel {
        match outcome {
            ReadOutcome::Eof => self,
            ReadOutcome::Line(_) => ReaderModel { consecutive_errors: 0, ..self },
            ReadOutcome::Failed => ReaderModel {
                consecutive_errors: if self.consecutive_errors < u32::MAX {
                    (self.consecutive_errors + 1) as u32
                } else {
                    self.consecutive_errors
                },
                ..self
            },
        }
    }

    /// What the host is to do after one attempt to read a line.
    pub open spec fn action(self, outcome: ReadOutcome) -> ReaderAction {
        match outcome {
            ReadOutcome::Eof => ReaderAction::Exit,
            ReadOutcome::Line(_) => ReaderAction::Continue,
            ReadOutcome::Failed => if self.after(outcome).consecutive_errors
                >= MAX_CONSECUTIVE_ERRORS {
                ReaderAction::Exit
            } else {
                ReaderAction::Retry { millis: RETRY_PAUSE_MS }
            },
        }
    }
}

/// The queue after one attempt to read a line: a line that stands for a
/// sample puts it into the queue, and nothing else changes it.
pub open spec fn received(queue: Seq<VitalSigns>, outcome: ReadOutcome) -> Seq<VitalSigns> {
    match outcome {
        ReadOutcome::Line(line) => match parsed_line(line@) {
            Some(sample) => pushed(queue, sample),
            None => queue,
        },
        _ => queue,
    }
}

impl View for SerialReader {
    type V = ReaderModel;

    /// The content of the reader.
    closed spec fn view(&self) -> ReaderModel {
        ReaderModel {
            port_name: self.config.port_name@,
            baud_rate: self.config.baud_rate,
            stopped: self.stop_flag,
            consecutive_errors: self.consecutive_errors,
        }
    }
}

impl SerialReader {
    /// A reader of the given line that has read nothing yet.
    pub fn new(config: SerialConfig) -> (reader: Self)
        ensures
            reader@ == ReaderModel::fresh(config.port_name@, config.baud_rate),
    {
        SerialReader { config, stop_flag: false, consecutive_errors: 0 }
    }

    /// The line that is read.
    pub fn config(&self) -> (config: SerialConfig)
        ensures
            config.port_name@ == self@.port_name,
            config.baud_rate == self@.baud_rate,
    {
        SerialConfig { port_name: self.config.port_name.clone(), baud_rate: self.config.baud_rate }
    }

    /// Tells the reader to stop before its next read.
    pub fn stop(&mut self)
        ensures
            final(self)@ == (ReaderModel { stopped: true, ..old(self)@ }),
    {
        self.stop_flag = true;
    }

    /// Whether the reader has been told to stop.
    pub fn is_stopped(&self) -> (stopped: bool)
        ensures
            stopped == self@.stopped,
    {
        self.stop_flag
    }
}

/// The values that a line has given for the three fields of a sample.
pub struct Fields {
    pub ecg: Option<i32>,
    pub spo2: Option<i32>,
    pub temp: Option<i32>,
}

/// Whether a character is white space.
pub open spec fn is_space(c: char) -> bool {
    let code = c as u32;
    ||| 0x09 <= code <= 0x0d
    ||| code == 0x20
    ||| code == 0x85
    ||| code == 0xa0
    ||| code == 0x1680
    ||| 0x2000 <= code <= 0x200a
    ||| code == 0x2028
    ||| code == 0x2029
    ||| code == 0x202f
    ||| code == 0x205f
    ||| code == 0x3000
}

/// Whether a character is one of the digits 0 to 9.
pub open spec fn is_digit(c: char) -> bool {
    0x30 <= c as u32 <= 0x39
}

/// Index of the first `mark` among the characters at `from..to`; `to` where
/// there is none.
pub open spec fn find(chars: Seq<char>, mark: char, from: int, to: int) -> int
    decreases to - from,
{
    if from >= to {
        to
    } else if chars[from] == mark {
        from
    } else {
        find(chars, mark, from + 1, to)
    }
}

/// Index of the first character at `from..to` that is not white space; `to`
/// where all are.
pub open spec fn trim_start(chars: Seq<char>, from: int, to: int) -> int
    decreases to - from,
{
    if from >= to {
        to
    } else if !is_space(chars[from]) {
        from
    } else {
        trim_start(chars, from + 1, to)
    }
}

/// Index just past the last character at `from..to` that is not white space;
/// `from` where all are.
pub open spec fn trim_end(chars: Seq<char>, from: int, to: int) -> int
    decreases to - from,
{
    if from >= to {
        from
    } else if !is_space(chars[to - 1]) {
        to
    } else {
        trim_end(chars, from, to - 1)
    }
}

/// Every character at `from..to` is a digit.
pub open spec fn all_digits(chars: Seq<char>, from: int, to: int) -> bool {
    forall|i: int| from <= i < to ==> is_digit(#[trigger] chars[i])
}

/// The number that the digits at `from..to` write in base ten.
pub open spec fn digits_value(chars: Seq<char>, from: int, to: int) -> int
    decreases to - from,
{
    if from >= to {
        0
    } else {
        digits_value(chars, from, to - 1) * 10 + (chars[to - 1] as u32 - 0x30)
    }
}

/// The 32-bit number that the characters at `from..to` write: an optional
/// sign and at least one digit, with a value that fits. `None` for anything
/// else.
pub open spec fn number(chars: Seq<char>, from: int, to: int) -> Option<i32> {
    if from >= to {
        None
    } else {
        let negative = chars[from] == '-';
        let start = if chars[from] == '-' || chars[from] == '+' {
            from + 1
        } else {
            from
        };
        let value = if negative {
            -digits_value(chars, start, to)
        } else {
            digits_value(chars, start, to)
        };
        if start < to && all_digits(chars, start, to) && i32::MIN <= value <= i32::MAX {
            Some(value as i32)
        } else {
            None
        }
    }
}

/// The fields after the part at `from..to` has been read.
///
/// A part counts where it holds exactly one `=`. The text before it, without
/// the white space around it, is the key: `A` for the ECG value, `B` for the
/// saturation, `C` for the temperature code. The text after it, without the
/// white space around it, is the number. A key that comes again replaces what
/// came before, also where its number cannot be read.
pub open spec fn apply_part(chars: Seq<char>, from: int, to: int, fields: Fields) -> Fields {
    let eq = find(chars, '=', from, to);
    if eq >= to || find(chars, '=', eq + 1, to) < to {
        fields
    } else {
        let key_start = trim_start(chars, from, eq);
        let key_end = trim_end(chars, key_start, eq);
        let value_start = trim_start(chars, eq + 1, to);
        let value_end = trim_end(chars, value_start, to);
        let value = number(chars, value_start, value_end);
        if key_end != key_start + 1 {
            fields
        } else if chars[key_start] == 'A' {
            Fields { ecg: value, ..fields }
        } else if chars[key_start] == 'B' {
            Fields { spo2: value, ..fields }
        } else if chars[key_start] == 'C' {
            Fields { temp: value, ..fields }
        } else {
            fields
        }
    }
}

/// The fields after every part from index `from` on has been read; parts are
/// set apart by commas.
pub open spec fn scan(chars: Seq<char>, from: int, fields: Fields) -> Fields
    decreases chars.len() - from,
{
    let end = find(chars, ',', from, chars.len() as int);
    let next = apply_part(chars, from, end, fields);
    if from <= end < chars.len() {
        scan(chars, end + 1, next)
    } else {
        next
    }
}

/// The sample that a line of text stands for: its three fields, where the
/// line gives a number for each of them.
pub open spec fn parsed_line(chars: Seq<char>) -> Option<VitalSigns> {
    let fields = scan(chars, 0, Fields { ecg: None, spo2: None, temp: None });
    match (fields.ecg, fields.spo2, fields.temp) {
        (Some(ecg), Some(spo2), Some(temp)) => Some(VitalSigns { ecg, spo2, temp }),
        _ => None,
    }
}

/// More digits never write a smaller number.
proof fn lemma_digits_grow(chars: Seq<char>, from: int, mid: int, to: int)
    requires
        0 <= from <= mid <= to <= chars.len(),
        all_digits(chars, from, to),
    ensures
        0 <= digits_value(chars, from, mid) <= digits_value(chars, from, to),
    decreases to - mid,
{
    if mid < to {
        lemma_digits_grow(chars, from, mid, to - 1);
        assert(is_digit(chars[to - 1]));
    } else {
        lemma_digits_nonnegative(chars, from, mid);
    }
}

/// Digits write a number that is not negative.
proof fn lemma_digits_nonnegative(chars: Seq<char>, from: int, to: int)
    requires
        0 <= from <= to <= chars.len(),
        all_digits(chars, from, to),
    ensures
        0 <= digits_value(chars, from, to),
    decreases to - from,
{
    if from < to {
        lemma_digits_nonnegative(chars, from, to - 1);
        assert(is_digit(chars[to - 1]));
    }
}

/// Decides [`is_space`].
fn space(c: char) -> (b: bool)
    ensures
        b == is_space(c),
{
    let code: u32 = c as u32;
    (0x09 <= code && code <= 0x0d) || code == 0x20 || code == 0x85 || code == 0xa0 || code
        == 0x1680 || (0x2000 <= code && code <= 0x200a) || code == 0x2028 || code == 0x2029
        || code == 0x202f || code == 0x205f || code == 0x3000
}

/// Computes [`find`].
fn find_mark(chars: &Vec<char>, mark: char, from: usize, to: usize) -> (at: usize)
    requires
        from <= to <= chars@.len(),
    ensures
        at == find(chars@, mark, from as int, to as int),
        from <= at <= to,
{
    let mut at: usize = from;
    while at < to && chars[at] != mark
        invariant
            from <= at <= to <= chars@.len(),
            find(chars@, mark, from as int, to as int) == find(chars@, mark, at as int, to as int),
        decreases to - at,
    {
        at = at + 1;
    }
    at
}

/// Computes [`trim_start`].
fn skip_spaces(chars: &Vec<char>, from: usize, to: usize) -> (at: usize)
    requires
        from <= to <= chars@.len(),
    ensures
        at == trim_start(chars@, from as int, to as int),
        from <= at <= to,
{
    let mut at: usize = from;
    while at < to && space(chars[at])
        invariant
            from <= at <= to <= chars@.len(),
            trim_start(chars@, from as int, to as int) == trim_start(
                chars@,
                at as int,
                to as int,
            ),
        decreases to - at,
    {
        at = at + 1;
    }
    at
}

/// Computes [`trim_end`].
fn drop_spaces(chars: &Vec<char>, from: usize, to: usize) -> (at: usize)
    requires
        from <= to <= chars@.len(),
    ensures
        at == trim_end(chars@, from as int, to as int),
        from <= at <= to,
{
    let mut at: usize = to;
    while at > from && space(chars[at - 1])
        invariant
            from <= at <= to <= chars@.len(),
            trim_end(chars@, from as int, to as int) == trim_end(chars@, from as int, at as int),
        decreases at - from,
    {
        at = at - 1;
    }
    at
}

/// Computes [`number`].
fn read_number(chars: &Vec<char>, from: usize, to: usize) -> (value: Option<i32>)
    requires
        from <= to <= chars@.len(),
    ensures
        value == number(chars@, from as int, to as int),
{
    if from >= to {
        return None;
    }
    let negative = chars[from] == '-';
    let start: usize = if chars[from] == '-' || chars[from] == '+' {
        from + 1
    } else {
        from
    };
    if start >= to {
        return None;
    }
    let mut total: i64 = 0;
    let mut at: usize = start;
    while at < to
        invariant
            from < to,
            start == if chars@[from as int] == '-' || chars@[from as int] == '+' {
                from + 1
            } else {
                from as int
            },
            start <= at <= to <= chars@.len(),
            start < to,
            all_digits(chars@, start as int, at as int),
            total == digits_value(chars@, start as int, at as int),
            0 <= total <= 0x8000_0000,
        decreases to - at,
    {
        let code: u32 = chars[at] as u32;
        if code < 0x30 || code > 0x39 {
            assert(!is_digit(chars@[at as int]));
            return None;
        }
        total = total * 10 + (code - 0x30) as i64;
        at = at + 1;
        if total > 0x8000_0000 {
            proof {
                if all_digits(chars@, start as int, to as int) {
                    lemma_digits_grow(chars@, start as int, at as int, to as int);
                }
            }
            return None;
        }
    }
    if negative {
        Some((-total) as i32)
    } else if total <= 0x7fff_ffff {
        Some(total as i32)
    } else {
        None
    }
}

/// Computes [`apply_part`].
fn read_part(chars: &Vec<char>, from: usize, to: usize, fields: &mut Fields)
    requires
        from <= to <= chars@.len(),
    ensures
        *final(fields) == apply_part(chars@, from as int, to as int, *old(fields)),
{
    let eq: usize = find_mark(chars, '=', from, to);
    if eq >= to {
        return ;
    }
    if find_mark(chars, '=', eq + 1, to) < to {
        return ;
    }
    let key_start: usize = skip_spaces(chars, from, eq);
    let key_end: usize = drop_spaces(chars, key_start, eq);
    let value_start: usize = skip_spaces(chars, eq + 1, to);
    let value_end: usize = drop_spaces(chars, value_start, to);
    let value = read_number(chars, value_start, value_end);
    if key_end != key_start + 1 {
        return ;
    }
    let key: char = chars[key_start];
    if key == 'A' {
        fields.ecg = value;
    } else if key == 'B' {
        fields.spo2 = value;
    } else if key == 'C' {
        fields.temp = value;
    }
}

impl SerialReader {
    /// Reads a sample from one line of text of the form `A=<ecg>,B=<spo2>,C=<temp>`.
    ///
    /// The parts may come in any order and with white space around keys and
    /// numbers; parts that are not of this form are passed over. The result
    /// is `Some` exactly where each of the three keys has been given a
    /// number that fits 32 bits, the last part with a key deciding.
    pub fn parse_data_line(line: &str) -> (sample: Option<VitalSigns>)
        ensures
            sample == parsed_line(line@),
    {
        let len: usize = line.unicode_len();
        let mut chars: Vec<char> = Vec::with_capacity(len);
        let mut i: usize = 0;
        while i < len
            invariant
                i <= len,
                len == line@.len(),
                chars@ == line@.subrange(0, i as int),
            decreases len - i,
        {
            chars.push(line.get_char(i));
            i = i + 1;
        }
        assert(chars@ =~= line@);
        let mut fields = Fields { ecg: None, spo2: None, temp: None };
        let mut from: usize = 0;
        loop
            invariant
                from <= len,
                len == chars@.len(),
                chars@ == line@,
                scan(chars@, 0, (Fields { ecg: None, spo2: None, temp: None })) == scan(
                    chars@,
                    from as int,
                    fields,
                ),
            ensures
                fields == scan(chars@, 0, (Fields { ecg: None, spo2: None, temp: None })),
            decreases len - from,
        {
            let end: usize = find_mark(&chars, ',', from, len);
            read_part(&chars, from, end, &mut fields);
            if end >= len {
                break ;
            }
            from = end + 1;
        }
        match (fields.ecg, fields.spo2, fields.temp) {
            (Some(ecg), Some(spo2), Some(temp)) => Some(VitalSigns { ecg, spo2, temp }),
            _ => None,
        }
    }

    /// Takes in what came of one attempt to read a line, and says what to do
    /// next.
    ///
    /// A line that stands for a sample puts it into the queue, and any line
    /// ends a run of failed reads. The end of the input ends the reading. A
    /// failed read is counted; the reader gives up at the fifth in a row and
    /// tries again after a pause before that.
    pub fn handle_read(&mut self, outcome: &ReadOutcome, queue: &mut DataQueue) -> (action:
        ReaderAction)
        ensures
            final(self)@ == old(self)@.after(*outcome),
            action == old(self)@.action(*outcome),
            final(queue)@ == received(old(queue)@, *outcome),
            old(queue).wf() ==> final(queue).wf(),
    {
        match outcome {
            ReadOutcome::Eof => ReaderAction::Exit,
            ReadOutcome::Line(line) => {
                self.consecutive_errors = 0;
                match Self::parse_data_line(line.as_str()) {
                    Some(vital_signs) => {
                        queue.push(vital_signs);
                    },
                    None => {},
                }
                ReaderAction::Continue
            },
            ReadOutcome::Failed => {
                if self.consecutive_errors < u32::MAX {
                    self.consecutive_errors = self.consecutive_errors + 1;
                }
                if self.consecutive_errors >= MAX_CONSECUTIVE_ERRORS {
                    ReaderAction::Exit
                } else {
                    ReaderAction::Retry { millis: RETRY_PAUSE_MS }
                }
            },
        }
    }
}

} // verus!
