//! The `croc` output parser: it cuts the bytes that `croc` writes into lines
//! and turns each line into an event.
use vstd::prelude::*;

use crate::croc::relay::Relay;
use crate::event::{CrocEvent, EventView, FileInfo, FileInfoView, Progress, ProgressView};
use crate::measure::{bytes_measure, metadata, parse_bytes, parse_metadata};
use crate::number::{is_digit, parse_u8, parse_u8_exec};
use crate::text::{
    lemma_find_char, lemma_find_char_after, lemma_trim_idempotent, ascii_letter, begins_with, chars_of, decode_lossy, find, find_ch, find_char, find_seq,
    is_ascii_letter, rfind_ch, rfind_char, same_chars, starts_with, string_from, trim,
    trimmed, utf8_lossy,
};

verus! {

// ---------------------------------------------------------------------------
// Escape sequences
// ---------------------------------------------------------------------------

/// The text with ANSI escape sequences removed, reading from a state that is
/// (`in_escape`) or is not inside a sequence: ESC opens a sequence, and the
/// next ASCII letter closes it; neither they nor what lies between is kept.
pub open spec fn strip_ansi_from(s: Seq<char>, in_escape: bool) -> Seq<char>
    decreases s.len(),
{
    if s.len() == 0 {
        seq![]
    } else if s[0] == '\u{1b}' {
        strip_ansi_from(s.drop_first(), true)
    } else if in_escape {
        strip_ansi_from(s.drop_first(), !is_ascii_letter(s[0]))
    } else {
        seq![s[0]] + strip_ansi_from(s.drop_first(), false)
    }
}

/// The text with ANSI escape sequences removed.
pub open spec fn ansi_stripped(s: Seq<char>) -> Seq<char> {
    strip_ansi_from(s, false)
}

// ---------------------------------------------------------------------------
// Lines
// ---------------------------------------------------------------------------

/// Lines that carry nothing for the caller: `croc`'s instructions for the
/// other side, its version banner and the secret it echoes.
pub open spec fn ignored_line(line: Seq<char>) -> bool {
    ||| line == "On the other computer run:"@
    ||| line == "(For Windows)"@
    ||| line == "(For Linux/macOS)"@
    ||| starts_with(line, "croc "@)
    ||| starts_with(line, "CROC_SECRET="@)
}

/// Progress from the text before `% |` (`head`, holding the file name and the
/// percentage, the last word) and the details at the end of the line. A
/// percentage is a whole number from 0 to 100; a line with any other gives
/// no progress.
pub open spec fn progress_fields(head: Seq<char>, line: Seq<char>) -> Option<ProgressView> {
    let left = trim(head);
    match rfind_char(left, ' ') {
        Some(k) => match parse_u8(trim(left.skip(k))) {
            Some(percentage) => if percentage > 100 {
                None
            } else {
                let meta = metadata(line);
                Some(
                    ProgressView {
                        file_name: trim(left.take(k)),
                        percentage,
                        bytes_sent: meta.0,
                        bytes_total: meta.1,
                        speed: meta.2,
                    },
                )
            },
            None => None,
        },
        None => None,
    }
}

/// A line such as `Hashing file.txt 45% |████| (1.2/2.4 MB, 10 MB/s)`.
pub open spec fn hashing_progress(line: Seq<char>) -> Option<ProgressView> {
    if starts_with(line, "Hashing "@) {
        match find(line, "% |"@) {
            Some(i) => progress_fields(line.subrange("Hashing "@.len() as int, i), line),
            None => None,
        }
    } else {
        None
    }
}

/// A line such as `file.txt 45% |████| (1.2/2.4 MB, 10 MB/s)`.
pub open spec fn transfer_progress(line: Seq<char>) -> Option<ProgressView> {
    match find(line, "% |"@) {
        Some(i) => progress_fields(line.take(i), line),
        None => None,
    }
}

/// The name and size in a line such as `Sending 'file.txt' (2.4 MB)`; the
/// name starts at `start`, right after the opening quote.
pub open spec fn file_info(line: Seq<char>, start: int) -> Option<FileInfoView> {
    match find_char(line.skip(start), '\'') {
        Some(q) => {
            let end = start + q;
            match find_char(line.skip(end), '(') {
                Some(o) => {
                    let size_start = end + o + 1;
                    match find_char(line.skip(size_start), ')') {
                        Some(c) => Some(
                            FileInfoView {
                                name: line.subrange(start, end),
                                size: bytes_measure(line.subrange(size_start, size_start + c)),
                            },
                        ),
                        None => None,
                    }
                },
                None => None,
            }
        },
        None => None,
    }
}

/// What a line gives.
pub enum LineView {
    /// Nothing to report.
    Skip,
    /// An event.
    Event(EventView),
    /// A relay line whose address, the text between the arrow and the last
    /// `)`, is still to be read as a socket address.
    Relay { line: Seq<char>, address: Seq<char>, receiving: bool },
}

/// A line such as `Sending (->1.2.3.4:9009)` (with `delimiter` `->`) or
/// `Receiving (<-1.2.3.4:9009)` (with `<-`). A line without the arrow, or
/// without a `)` after it, holds no address and is reported as unknown.
pub open spec fn relay_line(line: Seq<char>, delimiter: Seq<char>, receiving: bool) -> LineView {
    match find(line, delimiter) {
        Some(s) => match rfind_char(line, ')') {
            Some(e) => if s + delimiter.len() <= e {
                LineView::Relay {
                    line,
                    address: line.subrange(s + delimiter.len(), e),
                    receiving,
                }
            } else {
                LineView::Event(EventView::Unknown(line))
            },
            None => LineView::Event(EventView::Unknown(line)),
        },
        None => LineView::Event(EventView::Unknown(line)),
    }
}

/// A file information line, with the direction it sets: sending for
/// `Sending 'name' (size)`, receiving for `Receiving 'name' (size)`.
pub open spec fn info_event(line: Seq<char>) -> Option<(bool, EventView)> {
    if starts_with(line, "Sending '"@) {
        match file_info(line, "Sending '"@.len() as int) {
            Some(i) => Some((false, EventView::SendingInfo(i))),
            None => None,
        }
    } else if starts_with(line, "Receiving '"@) {
        match file_info(line, "Receiving '"@.len() as int) {
            Some(i) => Some((true, EventView::ReceivingInfo(i))),
            None => None,
        }
    } else {
        None
    }
}

/// The line `Code is: <code>`.
pub open spec fn code_event(line: Seq<char>) -> Option<EventView> {
    if starts_with(line, "Code is: "@) {
        Some(EventView::CodeGenerated(trim(line.skip("Code is: "@.len() as int))))
    } else {
        None
    }
}

/// A relay line, with the direction it sets.
pub open spec fn state_change(line: Seq<char>) -> Option<(bool, LineView)> {
    if starts_with(line, "Receiving ("@) {
        Some((true, relay_line(line, "<-"@, true)))
    } else if starts_with(line, "Sending ("@) {
        Some((false, relay_line(line, "->"@, false)))
    } else {
        None
    }
}

/// What a line of output gives, and whether the transfer is a receiving one
/// afterwards (`receiving` before). The line is read without its surrounding
/// white space. The first kind of line that fits decides: ignored lines,
/// hashing progress, file information, the code, relay lines, then transfer
/// progress, which counts as receiving or sending by the last file
/// information or relay line. Any other line is reported as unknown.
pub open spec fn line_result(receiving: bool, raw: Seq<char>) -> (bool, LineView) {
    let line = trim(raw);
    if ignored_line(line) {
        (receiving, LineView::Skip)
    } else if hashing_progress(line) is Some {
        (receiving, LineView::Event(EventView::Hashing(hashing_progress(line)->0)))
    } else if info_event(line) is Some {
        let found = info_event(line)->0;
        (found.0, LineView::Event(found.1))
    } else if code_event(line) is Some {
        (receiving, LineView::Event(code_event(line)->0))
    } else if state_change(line) is Some {
        state_change(line)->0
    } else if transfer_progress(line) is Some {
        (
            receiving,
            LineView::Event(
                if receiving {
                    EventView::Receiving(transfer_progress(line)->0)
                } else {
                    EventView::Sending(transfer_progress(line)->0)
                },
            ),
        )
    } else {
        (receiving, LineView::Event(EventView::Unknown(line)))
    }
}

// ---------------------------------------------------------------------------
// The byte stream
// ---------------------------------------------------------------------------

/// The state of the parser as the contracts see it: the bytes of the line
/// read so far, and whether the transfer is a receiving one.
#[verifier::ext_equal]
pub struct ParserView {
    pub buf: Seq<u8>,
    pub receiving: bool,
}

/// What a finished line gives: its bytes are decoded (ill-formed UTF-8
/// replaced), escape sequences removed, and a line of white space skipped.
pub open spec fn complete_line(receiving: bool, buf: Seq<u8>) -> (bool, LineView) {
    let text = ansi_stripped(utf8_lossy(buf));
    if trim(text).len() == 0 {
        (receiving, LineView::Skip)
    } else {
        line_result(receiving, text)
    }
}

/// Reading one byte: `\r` and `\n` end a line (and are skipped when no line
/// is pending), any other byte is added to the pending line.
pub open spec fn after_byte(p: ParserView, b: u8) -> (ParserView, LineView) {
    if b == 13 || b == 10 {
        if p.buf.len() == 0 {
            (p, LineView::Skip)
        } else {
            let (r, out) = complete_line(p.receiving, p.buf);
            (ParserView { buf: seq![], receiving: r }, out)
        }
    } else {
        (ParserView { buf: p.buf.push(b), receiving: p.receiving }, LineView::Skip)
    }
}

/// Reaching the end of the output: a pending line is finished, and when it
/// gives nothing to report the result is the end-of-output event.
pub open spec fn at_end(p: ParserView) -> (ParserView, LineView) {
    if p.buf.len() == 0 {
        (p, LineView::Event(EventView::EOF))
    } else {
        let (r, out) = complete_line(p.receiving, p.buf);
        (
            ParserView { buf: seq![], receiving: r },
            if out is Skip {
                LineView::Event(EventView::EOF)
            } else {
                out
            },
        )
    }
}

/// A relay line whose address is still to be read.
#[derive(Debug, Clone, PartialEq, Eq)]
pub struct RelayRequest {
    /// The whole line, reported as unknown when the address cannot be read.
    pub line: String,
    /// The text of the socket address.
    pub address: String,
    /// Whether the line announced receiving (`<-`) rather than sending (`->`).
    pub receiving: bool,
}

/// What a step of the parser gives.
#[derive(Debug, Clone, PartialEq, Eq)]
pub enum LineOutcome {
    /// Nothing to report yet.
    Skip,
    /// An event.
    Event(CrocEvent),
    /// A relay line: its address is to be read as a socket address, and the
    /// result handed to [`CrocParser::resolve_relay`].
    Relay(RelayRequest),
}

impl View for LineOutcome {
    type V = LineView;

    open spec fn view(&self) -> LineView {
        match self {
            LineOutcome::Skip => LineView::Skip,
            LineOutcome::Event(e) => LineView::Event(e@),
            LineOutcome::Relay(r) => LineView::Relay {
                line: r.line@,
                address: r.address@,
                receiving: r.receiving,
            },
        }
    }
}

/// A `croc` output parser that turns the bytes `croc` writes into events.
#[derive(Debug)]
pub struct CrocParser {
    /// Tracks whether the current transfer is a receiving operation.
    is_receiving: bool,
    /// The bytes of the line read so far.
    buf: Vec<u8>,
}

impl View for CrocParser {
    type V = ParserView;

    closed spec fn view(&self) -> ParserView {
        ParserView { buf: self.buf@, receiving: self.is_receiving }
    }
}

impl CrocParser {
    /// Creates a new croc output parser.
    pub fn new() -> (p: Self)
        ensures
            p@ == (ParserView { buf: seq![], receiving: false }),
    {
        let p = Self { is_receiving: false, buf: Vec::new() };
        assert(p@.buf =~= seq![]);
        p
    }

    /// Reads the next byte of output.
    pub fn feed(&mut self, byte: u8) -> (out: LineOutcome)
        ensures
            (final(self)@, out@) == after_byte(old(self)@, byte),
    {
        if byte == 13 || byte == 10 {
            if self.buf.len() == 0 {
                return LineOutcome::Skip;
            }
            let out = self.complete_line();
            out
        } else {
            self.buf.push(byte);
            LineOutcome::Skip
        }
    }

    /// Reaches the end of the output.
    pub fn finish(&mut self) -> (out: LineOutcome)
        ensures
            (final(self)@, out@) == at_end(old(self)@),
    {
        if self.buf.len() == 0 {
            return LineOutcome::Event(CrocEvent::EOF);
        }
        let out = self.complete_line();
        match out {
            LineOutcome::Skip => LineOutcome::Event(CrocEvent::EOF),
            _ => out,
        }
    }

    /// The event a relay line gives once its address has been read: the relay
    /// when the address could be read (`relay`), else the line as unknown.
    pub fn resolve_relay(request: RelayRequest, relay: Option<Relay>) -> (e: CrocEvent)
        ensures
            e@ == match relay {
                Some(r) => if request.receiving {
                    EventView::ReceivingFrom(r@)
                } else {
                    EventView::SendingTo(r@)
                },
                None => EventView::Unknown(request.line@),
            },
    {
        match relay {
            Some(r) => if request.receiving {
                CrocEvent::ReceivingFrom(r)
            } else {
                CrocEvent::SendingTo(r)
            },
            None => CrocEvent::Unknown(request.line),
        }
    }

    /// Finishes the pending line.
    fn complete_line(&mut self) -> (out: LineOutcome)
        ensures
            final(self)@.buf == Seq::<u8>::empty(),
            (final(self)@.receiving, out@) == complete_line(old(self)@.receiving, old(self)@.buf),
    {
        let raw = decode_lossy(self.buf.as_slice());
        self.buf.clear();
        let line = Self::strip_ansi(raw.as_slice());
        if trimmed(line.as_slice()).len() == 0 {
            return LineOutcome::Skip;
        }
        self.parse_line(line.as_slice())
    }

    /// Strips ANSI escape sequences from a string to ensure clean parsing.
    pub fn strip_ansi(s: &[char]) -> (r: Vec<char>)
        ensures
            r@ == ansi_stripped(s@),
    {
        let mut result: Vec<char> = Vec::new();
        let mut in_ansi = false;
        let mut i: usize = 0;
        assert(s@.skip(0) =~= s@);
        while i < s.len()
            invariant
                i <= s@.len(),
                ansi_stripped(s@) == result@ + strip_ansi_from(s@.skip(i as int), in_ansi),
            decreases s@.len() - i,
        {
            let c = s[i];
            assert(s@.skip(i as int).drop_first() =~= s@.skip(i + 1));
            if c == '\u{1b}' {
                in_ansi = true;
            } else if in_ansi {
                if ascii_letter(c) {
                    in_ansi = false;
                }
            } else {
                result.push(c);
            }
            i = i + 1;
        }
        assert(result@ + strip_ansi_from(s@.skip(i as int), in_ansi) =~= result@);
        result
    }

    /// Parses a single line of output from croc.
    pub fn parse_line(&mut self, raw: &[char]) -> (out: LineOutcome)
        ensures
            final(self)@.buf == old(self)@.buf,
            (final(self)@.receiving, out@) == line_result(old(self)@.receiving, raw@),
    {
        let line = trimmed(raw);
        if Self::should_ignore(line) {
            return LineOutcome::Skip;
        }
        if let Some(progress) = Self::parse_hashing(line) {
            return LineOutcome::Event(CrocEvent::Hashing(progress));
        }
        if let Some(event) = self.parse_info(line) {
            return LineOutcome::Event(event);
        }
        if let Some(event) = Self::parse_code(line) {
            return LineOutcome::Event(event);
        }
        if let Some(out) = self.parse_state_change(line) {
            return out;
        }
        if let Some(event) = self.parse_progress(line) {
            return LineOutcome::Event(event);
        }
        LineOutcome::Event(CrocEvent::Unknown(string_from(line)))
    }

    /// Attempts to parse lines describing file transfer info, updating the receiving state.
    pub fn parse_info(&mut self, line: &[char]) -> (r: Option<CrocEvent>)
        ensures
            final(self)@.buf == old(self)@.buf,
            match r {
                Some(e) => info_event(line@) == Some((final(self)@.receiving, e@)),
                None => info_event(line@) is None && final(self)@ == old(self)@,
            },
    {
        let sending = chars_of("Sending '");
        if begins_with(line, sending.as_slice()) {
            return match Self::file_info(line, sending.len()) {
                Some(info) => {
                    self.is_receiving = false;
                    Some(CrocEvent::SendingInfo(info))
                },
                None => None,
            };
        }
        let receiving = chars_of("Receiving '");
        if begins_with(line, receiving.as_slice()) {
            return match Self::file_info(line, receiving.len()) {
                Some(info) => {
                    self.is_receiving = true;
                    Some(CrocEvent::ReceivingInfo(info))
                },
                None => None,
            };
        }
        None
    }

    /// Attempts to parse a line indicating the connection code is ready.
    pub fn parse_code(line: &[char]) -> (r: Option<CrocEvent>)
        ensures
            match r {
                Some(e) => code_event(line@) == Some(e@),
                None => code_event(line@) is None,
            },
    {
        let prefix = chars_of("Code is: ");
        if begins_with(line, prefix.as_slice()) {
            Some(CrocEvent::CodeGenerated(string_from(trimmed(&line[prefix.len()..line.len()]))))
        } else {
            None
        }
    }

    /// Attempts to parse lines that toggle the receiving/sending state without other direct info.
    pub fn parse_state_change(&mut self, line: &[char]) -> (r: Option<LineOutcome>)
        ensures
            final(self)@.buf == old(self)@.buf,
            match r {
                Some(out) => state_change(line@) == Some((final(self)@.receiving, out@)),
                None => state_change(line@) is None && final(self)@ == old(self)@,
            },
    {
        let receiving = chars_of("Receiving (");
        if begins_with(line, receiving.as_slice()) {
            self.is_receiving = true;
            let arrow = chars_of("<-");
            return Some(Self::parse_relay_address(line, arrow.as_slice(), true));
        }
        let sending = chars_of("Sending (");
        if begins_with(line, sending.as_slice()) {
            self.is_receiving = false;
            let arrow = chars_of("->");
            return Some(Self::parse_relay_address(line, arrow.as_slice(), false));
        }
        None
    }

    /// Determines if a specific line of output from `croc` should be completely ignored.
    pub fn should_ignore(line: &[char]) -> (r: bool)
        ensures
            r == ignored_line(line@),
    {
        let run = chars_of("On the other computer run:");
        let windows = chars_of("(For Windows)");
        let unix = chars_of("(For Linux/macOS)");
        let banner = chars_of("croc ");
        let secret = chars_of("CROC_SECRET=");
        same_chars(line, run.as_slice()) || same_chars(line, windows.as_slice()) || same_chars(
            line,
            unix.as_slice(),
        ) || begins_with(line, banner.as_slice()) || begins_with(line, secret.as_slice())
    }

    /// Progress from the text before `% |` and the details at the end of the line.
    fn progress_fields(head: &[char], line: &[char]) -> (r: Option<Progress>)
        ensures
            match r {
                Some(p) => progress_fields(head@, line@) == Some(p@),
                None => progress_fields(head@, line@) is None,
            },
    {
        let left = trimmed(head);
        let n = left.len();
        match rfind_ch(left, ' ') {
            Some(k) => match parse_u8_exec(trimmed(&left[k..n])) {
                Some(percentage) => if percentage > 100 {
                    None
                } else {
                    let (bytes_sent, bytes_total, speed) = parse_metadata(line);
                    let file_name = string_from(trimmed(&left[0..k]));
                    Some(Progress { file_name, percentage, bytes_sent, bytes_total, speed })
                },
                None => None,
            },
            None => None,
        }
    }

    /// Attempts to parse a line containing progress for a "Hashing" operation.
    pub fn parse_hashing(line: &[char]) -> (r: Option<Progress>)
        ensures
            match r {
                Some(p) => hashing_progress(line@) == Some(p@) && p.percentage <= 100,
                None => hashing_progress(line@) is None,
            },
    {
        let prefix = chars_of("Hashing ");
        if !begins_with(line, prefix.as_slice()) {
            return None;
        }
        let bar = chars_of("% |");
        match find_seq(line, bar.as_slice()) {
            Some(i) => {
                proof {
                    reveal_strlit("Hashing ");
                    reveal_strlit("% |");
                    assert(line@[i as int] == line@.subrange(i as int, i + bar@.len())[0]);
                    assert(line@[i as int] == '%');
                    if i < prefix.len() {
                        assert(line@[i as int] == line@.subrange(0, prefix@.len() as int)[i as int]);
                        assert(false);
                    }
                }
                Self::progress_fields(&line[prefix.len()..i], line)
            },
            None => None,
        }
    }

    /// Attempts to parse file transfer progress updates: receiving or
    /// sending progress, by the direction of the transfer.
    pub fn parse_progress(&self, line: &[char]) -> (r: Option<CrocEvent>)
        ensures
            match r {
                Some(e) => transfer_progress(line@) is Some && e@ == (if self@.receiving {
                    EventView::Receiving(transfer_progress(line@)->0)
                } else {
                    EventView::Sending(transfer_progress(line@)->0)
                }) && transfer_progress(line@)->0.percentage <= 100,
                None => transfer_progress(line@) is None,
            },
    {
        let bar = chars_of("% |");
        let progress = match find_seq(line, bar.as_slice()) {
            Some(i) => Self::progress_fields(&line[0..i], line),
            None => None,
        };
        match progress {
            Some(p) => if self.is_receiving {
                Some(CrocEvent::Receiving(p))
            } else {
                Some(CrocEvent::Sending(p))
            },
            None => None,
        }
    }

    /// The name and size of a file, the name starting at `start`.
    fn file_info(line: &[char], start: usize) -> (r: Option<FileInfo>)
        requires
            start <= line@.len(),
        ensures
            match r {
                Some(i) => file_info(line@, start as int) == Some(i@),
                None => file_info(line@, start as int) is None,
            },
    {
        let n = line.len();
        match find_ch(&line[start..n], '\'') {
            Some(q) => {
                let end = start + q;
                match find_ch(&line[end..n], '(') {
                    Some(o) => {
                        let size_start = end + o + 1;
                        match find_ch(&line[size_start..n], ')') {
                            Some(c) => {
                                let name = string_from(&line[start..end]);
                                let size = parse_bytes(&line[size_start..size_start + c]);
                                Some(FileInfo { name, size })
                            },
                            None => None,
                        }
                    },
                    None => None,
                }
            },
            None => None,
        }
    }

    /// Extracts the relay address from a relay line, by the given delimiter (`<-` or `->`).
    pub fn parse_relay_address(line: &[char], delimiter: &[char], receiving: bool) -> (out:
        LineOutcome)
        ensures
            out@ == relay_line(line@, delimiter@, receiving),
    {
        match find_seq(line, delimiter) {
            Some(s) => match rfind_ch(line, ')') {
                Some(e) => {
                    if delimiter.len() <= e && s <= e - delimiter.len() {
                        let address = string_from(&line[s + delimiter.len()..e]);
                        LineOutcome::Relay(
                            RelayRequest { line: string_from(line), address, receiving },
                        )
                    } else {
                        LineOutcome::Event(CrocEvent::Unknown(string_from(line)))
                    }
                },
                None => LineOutcome::Event(CrocEvent::Unknown(string_from(line))),
            },
            None => LineOutcome::Event(CrocEvent::Unknown(string_from(line))),
        }
    }
}

// ---------------------------------------------------------------------------
// Laws
// ---------------------------------------------------------------------------

/// Removing escape sequences leaves no escape character behind.
pub proof fn lemma_stripped_has_no_escape(s: Seq<char>, in_escape: bool)
    ensures
        forall|i: int|
            0 <= i < strip_ansi_from(s, in_escape).len() ==> #[trigger] strip_ansi_from(
                s,
                in_escape,
            )[i] != '\u{1b}',
    decreases s.len(),
{
    if s.len() > 0 {
        let rest = s.drop_first();
        if s[0] == '\u{1b}' {
            lemma_stripped_has_no_escape(rest, true);
            assert(strip_ansi_from(s, in_escape) == strip_ansi_from(rest, true));
        } else if in_escape {
            lemma_stripped_has_no_escape(rest, !is_ascii_letter(s[0]));
            assert(strip_ansi_from(s, in_escape) == strip_ansi_from(rest, !is_ascii_letter(s[0])));
        } else {
            lemma_stripped_has_no_escape(rest, false);
            assert forall|i: int|
                0 <= i < strip_ansi_from(s, in_escape).len() implies #[trigger] strip_ansi_from(
                s,
                in_escape,
            )[i] != '\u{1b}' by {
                if i > 0 {
                    assert(strip_ansi_from(s, in_escape)[i] == strip_ansi_from(rest, false)[i - 1]);
                }
            }
        }
    }
}

/// Text without escape characters comes out of the stripping unchanged.
pub proof fn lemma_plain_text_unchanged(s: Seq<char>)
    requires
        forall|i: int| 0 <= i < s.len() ==> s[i] != '\u{1b}',
    ensures
        ansi_stripped(s) == s,
    decreases s.len(),
{
    if s.len() > 0 {
        let rest = s.drop_first();
        assert forall|i: int| 0 <= i < rest.len() implies rest[i] != '\u{1b}' by {
            assert(rest[i] == s[i + 1]);
        }
        lemma_plain_text_unchanged(rest);
        assert(seq![s[0]] + rest =~= s);
    }
}

/// Removing escape sequences a second time changes nothing.
pub proof fn lemma_strip_ansi_idempotent(s: Seq<char>)
    ensures
        ansi_stripped(ansi_stripped(s)) == ansi_stripped(s),
{
    lemma_stripped_has_no_escape(s, false);
    lemma_plain_text_unchanged(ansi_stripped(s));
}

/// Ending a line with `\r` or with `\n` comes to the same.
pub proof fn lemma_line_endings_agree(p: ParserView)
    ensures
        after_byte(p, 13) == after_byte(p, 10),
{
}

/// A line still pending at the end of the output gives what a newline would
/// have given, with nothing to report turned into the end of the output.
pub proof fn lemma_end_finishes_line(p: ParserView)
    requires
        p.buf.len() > 0,
    ensures
        at_end(p).0 == after_byte(p, 10).0,
        at_end(p).1 == (if after_byte(p, 10).1 is Skip {
            LineView::Event(EventView::EOF)
        } else {
            after_byte(p, 10).1
        }),
{
}

/// Once the output has ended, the parser reports only its end.
pub proof fn lemma_end_is_final(p: ParserView)
    ensures
        at_end(at_end(p).0) == (at_end(p).0, LineView::Event(EventView::EOF)),
{
}

/// The state and the outcomes after reading `bytes` one by one.
pub open spec fn feed_bytes(p: ParserView, bytes: Seq<u8>) -> (ParserView, Seq<LineView>)
    decreases bytes.len(),
{
    if bytes.len() == 0 {
        (p, seq![])
    } else {
        let (q, out) = after_byte(p, bytes[0]);
        let (r, outs) = feed_bytes(q, bytes.drop_first());
        (r, seq![out] + outs)
    }
}

proof fn lemma_feed_plain_bytes(p: ParserView, bytes: Seq<u8>)
    requires
        forall|i: int| 0 <= i < bytes.len() ==> bytes[i] != 10 && bytes[i] != 13,
    ensures
        feed_bytes(p, bytes).0 == (ParserView { buf: p.buf + bytes, receiving: p.receiving }),
        feed_bytes(p, bytes).1 == Seq::new(bytes.len(), |i: int| LineView::Skip),
    decreases bytes.len(),
{
    if bytes.len() > 0 {
        let q = ParserView { buf: p.buf.push(bytes[0]), receiving: p.receiving };
        let rest = bytes.drop_first();
        assert forall|i: int| 0 <= i < rest.len() implies rest[i] != 10 && rest[i] != 13 by {
            assert(rest[i] == bytes[i + 1]);
        }
        lemma_feed_plain_bytes(q, rest);
        assert(q.buf + rest =~= p.buf + bytes);
        assert(seq![LineView::Skip] + Seq::new(rest.len(), |i: int| LineView::Skip) =~= Seq::new(
            bytes.len(),
            |i: int| LineView::Skip,
        ));
    }
}

proof fn lemma_feed_append(p: ParserView, bytes: Seq<u8>, b: u8)
    ensures
        feed_bytes(p, bytes.push(b)) == (
            after_byte(feed_bytes(p, bytes).0, b).0,
            feed_bytes(p, bytes).1.push(after_byte(feed_bytes(p, bytes).0, b).1),
        ),
    decreases bytes.len(),
{
    if bytes.len() == 0 {
        assert(bytes.push(b).drop_first() =~= Seq::<u8>::empty());
        assert(bytes.push(b)[0] == b);
        let (q, out) = after_byte(p, b);
        assert(feed_bytes(q, Seq::<u8>::empty()) == (q, Seq::<LineView>::empty()));
        assert(seq![out] + Seq::<LineView>::empty() =~= Seq::<LineView>::empty().push(out));
    } else {
        let (q, out) = after_byte(p, bytes[0]);
        assert(bytes.push(b)[0] == bytes[0]);
        assert(bytes.push(b).drop_first() =~= bytes.drop_first().push(b));
        lemma_feed_append(q, bytes.drop_first(), b);
        assert(seq![out] + feed_bytes(q, bytes.drop_first()).1.push(
            after_byte(feed_bytes(q, bytes.drop_first()).0, b).1,
        ) =~= (seq![out] + feed_bytes(q, bytes.drop_first()).1).push(
            after_byte(feed_bytes(q, bytes.drop_first()).0, b).1,
        ));
    }
}

/// Each line of output is reported once, when it ends: reading the bytes of
/// a line (none of them `\r` or `\n`) reports nothing, and the newline that
/// follows gives what the line gives.
pub proof fn lemma_line_reported_at_its_end(p: ParserView, line: Seq<u8>)
    requires
        p.buf.len() == 0,
        line.len() > 0,
        forall|i: int| 0 <= i < line.len() ==> line[i] != 10 && line[i] != 13,
    ensures
        feed_bytes(p, line.push(10)) == (
            ParserView { buf: seq![], receiving: complete_line(p.receiving, line).0 },
            Seq::new(line.len(), |i: int| LineView::Skip).push(complete_line(p.receiving, line).1),
        ),
{
    lemma_feed_plain_bytes(p, line);
    lemma_feed_append(p, line, 10);
    assert(p.buf + line =~= line);
}

/// Progress lines are reported in the direction of the last file or relay
/// line, and leave it as it is; a `Receiving` file or relay line turns it to
/// receiving, a `Sending` one to sending.
pub proof fn lemma_progress_follows_direction(receiving: bool, line: Seq<char>)
    ensures
        line_result(receiving, line).1 matches LineView::Event(EventView::Receiving(_)) ==> receiving
            && line_result(receiving, line).0,
        line_result(receiving, line).1 matches LineView::Event(EventView::Sending(_)) ==> !receiving
            && !line_result(receiving, line).0,
        line_result(receiving, line).1 matches LineView::Event(EventView::ReceivingInfo(_))
            ==> line_result(receiving, line).0,
        line_result(receiving, line).1 matches LineView::Event(EventView::SendingInfo(_))
            ==> !line_result(receiving, line).0,
        line_result(receiving, line).1 matches LineView::Relay { receiving: r, .. } ==> line_result(
            receiving,
            line,
        ).0 == r,
{
}

/// Reading output in pieces comes to the same as reading it at once: the
/// parser goes byte by byte, so where the output is split between reads
/// does not matter, and what is left of an unfinished line is carried over
/// in the state.
pub proof fn lemma_feed_in_pieces(p: ParserView, a: Seq<u8>, b: Seq<u8>)
    ensures
        feed_bytes(p, a + b) == (
            feed_bytes(feed_bytes(p, a).0, b).0,
            feed_bytes(p, a).1 + feed_bytes(feed_bytes(p, a).0, b).1,
        ),
    decreases a.len(),
{
    if a.len() == 0 {
        assert(a + b =~= b);
        assert(feed_bytes(p, a).1 + feed_bytes(p, b).1 =~= feed_bytes(p, b).1);
    } else {
        let (q, out) = after_byte(p, a[0]);
        assert((a + b)[0] == a[0]);
        assert((a + b).drop_first() =~= a.drop_first() + b);
        lemma_feed_in_pieces(q, a.drop_first(), b);
        let mid = feed_bytes(q, a.drop_first());
        assert(seq![out] + (mid.1 + feed_bytes(mid.0, b).1) =~= (seq![out] + mid.1) + feed_bytes(
            mid.0,
            b,
        ).1);
    }
}

/// Every percentage the parser reports lies between 0 and 100.
pub proof fn lemma_percentage_at_most_100(receiving: bool, line: Seq<char>)
    ensures
        line_result(receiving, line).1 matches LineView::Event(EventView::Hashing(p)) ==> p.percentage
            <= 100,
        line_result(receiving, line).1 matches LineView::Event(EventView::Sending(p)) ==> p.percentage
            <= 100,
        line_result(receiving, line).1 matches LineView::Event(EventView::Receiving(p))
            ==> p.percentage <= 100,
{
}

/// The direction of the transfer changes only on a file information line
/// (`Sending '…' (…)` or `Receiving '…' (…)`) or a relay line
/// (`Sending (…` or `Receiving (…`); a line of neither kind, an ignored
/// line or a progress line among them, leaves it as it was.
pub proof fn lemma_direction_changes_only_on_file_or_relay_lines(receiving: bool, raw: Seq<char>)
    ensures
        line_result(receiving, raw).0 != receiving ==> info_event(trim(raw)) is Some
            || state_change(trim(raw)) is Some,
        !starts_with(trim(raw), "Sending '"@) && !starts_with(trim(raw), "Receiving '"@)
            ==> info_event(trim(raw)) is None,
        !starts_with(trim(raw), "Sending ("@) && !starts_with(trim(raw), "Receiving ("@)
            ==> state_change(trim(raw)) is None,
{
}

/// A file information line gives an event only when it has the whole shape
/// `'name' (size)`: after its prefix a closing quote, then a `(`, then a `)`;
/// a line that lacks one of them gives none.
pub proof fn lemma_file_info_needs_name_and_size(line: Seq<char>, start: int)
    requires
        0 <= start <= line.len(),
    ensures
        !line.skip(start).contains('\'') ==> file_info(line, start) is None,
        file_info(line, start) is Some ==> ({
            let end = start + find_char(line.skip(start), '\'')->0;
            &&& line.skip(end).contains('(')
            &&& line.skip(end + find_char(line.skip(end), '(')->0 + 1).contains(')')
        }),
{
    lemma_find_char(line.skip(start), '\'');
    if let Some(q) = find_char(line.skip(start), '\'') {
        let end = start + q;
        lemma_find_char(line.skip(end), '(');
        if let Some(o) = find_char(line.skip(end), '(') {
            lemma_find_char(line.skip(end + o + 1), ')');
        }
    }
}

/// A line that starts with `Receiving (` turns the transfer to receiving and
/// gives a relay request marked receiving, or, when it holds no address, is
/// reported as unknown; a line that starts with `Sending (` does the same for
/// sending; no other line is a relay line.
pub proof fn lemma_relay_line_shape(line: Seq<char>)
    ensures
        starts_with(line, "Receiving ("@) ==> (state_change(line) matches Some((r, out)) && r && ((
        out is Relay && out->receiving && out->line == line) || out == LineView::Event(
            EventView::Unknown(line),
        ))),
        !starts_with(line, "Receiving ("@) && starts_with(line, "Sending ("@) ==> (state_change(
            line,
        ) matches Some((r, out)) && !r && ((out is Relay && !out->receiving && out->line == line)
            || out == LineView::Event(EventView::Unknown(line)))),
        !starts_with(line, "Receiving ("@) && !starts_with(line, "Sending ("@) ==> state_change(
            line,
        ) is None,
{
}

proof fn lemma_strip_plain_prefix(u: Seq<char>, rest: Seq<char>)
    requires
        forall|i: int| 0 <= i < u.len() ==> u[i] != '\u{1b}',
    ensures
        strip_ansi_from(u + rest, false) == u + strip_ansi_from(rest, false),
    decreases u.len(),
{
    if u.len() > 0 {
        let v = u.drop_first();
        assert forall|i: int| 0 <= i < v.len() implies v[i] != '\u{1b}' by {
            assert(v[i] == u[i + 1]);
        }
        lemma_strip_plain_prefix(v, rest);
        assert((u + rest)[0] == u[0]);
        assert((u + rest).drop_first() =~= v + rest);
        assert(seq![u[0]] + (v + strip_ansi_from(rest, false)) =~= u + strip_ansi_from(
            rest,
            false,
        ));
    }
}

proof fn lemma_strip_parameters(params: Seq<char>, rest: Seq<char>)
    requires
        forall|i: int|
            0 <= i < params.len() ==> is_digit(#[trigger] params[i]) || params[i] == ';',
    ensures
        strip_ansi_from(params + rest, true) == strip_ansi_from(rest, true),
    decreases params.len(),
{
    if params.len() > 0 {
        let q = params.drop_first();
        assert forall|i: int| 0 <= i < q.len() implies is_digit(#[trigger] q[i]) || q[i] == ';' by {
            assert(q[i] == params[i + 1]);
        }
        lemma_strip_parameters(q, rest);
        assert((params + rest)[0] == params[0]);
        assert(is_digit(params[0]) || params[0] == ';');
        assert((params + rest).drop_first() =~= q + rest);
    }
}

/// An escape sequence such as `ESC [ 2 K` or `ESC [ 1 ; 32 m` (ESC, `[`,
/// parameters made of digits and `;`, then any ASCII letter) is removed
/// whole, and the text around it, which holds no ESC, is kept as it is: for
/// every letter that closes the sequence, the text after it is not lost.
pub proof fn lemma_escape_sequence_removed(
    before: Seq<char>,
    params: Seq<char>,
    letter: char,
    after: Seq<char>,
)
    requires
        forall|i: int| 0 <= i < before.len() ==> before[i] != '\u{1b}',
        forall|i: int| 0 <= i < after.len() ==> after[i] != '\u{1b}',
        forall|i: int|
            0 <= i < params.len() ==> is_digit(#[trigger] params[i]) || params[i] == ';',
        is_ascii_letter(letter),
    ensures
        ansi_stripped(before + seq!['\u{1b}', '['] + params + seq![letter] + after) == before
            + after,
{
    let tail = seq![letter] + after;
    let seq_ = seq!['\u{1b}', '['] + (params + tail);
    assert(before + seq!['\u{1b}', '['] + params + seq![letter] + after =~= before + seq_);
    lemma_strip_plain_prefix(before, seq_);
    assert(seq_[0] == '\u{1b}');
    assert(seq_.drop_first()[0] == '[');
    assert(seq_.drop_first().drop_first() =~= params + tail);
    lemma_strip_parameters(params, tail);
    assert(tail[0] == letter);
    assert(tail.drop_first() =~= after);
    lemma_plain_text_unchanged(after);
    assert(!is_ascii_letter('['));
    assert(strip_ansi_from(tail, true) == strip_ansi_from(after, false));
    assert(strip_ansi_from(seq_.drop_first(), true) == strip_ansi_from(params + tail, true));
    assert(strip_ansi_from(seq_, false) == strip_ansi_from(seq_.drop_first(), true));
    assert(strip_ansi_from(seq_, false) == after);
}

/// The file name a progress line reports has no white space at either end,
/// however the name was padded to line up the percentages.
pub proof fn lemma_progress_name_trimmed(head: Seq<char>, line: Seq<char>, receiving: bool)
    ensures
        progress_fields(head, line) matches Some(p) ==> trim(p.file_name) == p.file_name,
        line_result(receiving, line).1 matches LineView::Event(EventView::Hashing(p)) ==> trim(
            p.file_name,
        ) == p.file_name,
        line_result(receiving, line).1 matches LineView::Event(EventView::Sending(p)) ==> trim(
            p.file_name,
        ) == p.file_name,
        line_result(receiving, line).1 matches LineView::Event(EventView::Receiving(p)) ==> trim(
            p.file_name,
        ) == p.file_name,
{
    lemma_progress_fields_name_trimmed(head, line);
    let t = trim(line);
    if find(t, "% |"@) is Some {
        lemma_progress_fields_name_trimmed(t.take(find(t, "% |"@)->0), t);
        if starts_with(t, "Hashing "@) {
            lemma_progress_fields_name_trimmed(
                t.subrange("Hashing "@.len() as int, find(t, "% |"@)->0),
                t,
            );
        }
    }
}

proof fn lemma_progress_fields_name_trimmed(head: Seq<char>, line: Seq<char>)
    ensures
        progress_fields(head, line) matches Some(p) ==> trim(p.file_name) == p.file_name,
{
    let left = trim(head);
    if let Some(k) = rfind_char(left, ' ') {
        lemma_trim_idempotent(left.take(k));
    }
}

/// A file information line `'name' (size)`: the name is everything from
/// `start` to the closing quote, and the size the text inside the first
/// parentheses after that quote, whatever the name holds (parentheses
/// included) and whatever follows.
pub proof fn lemma_file_info_parts(
    lead: Seq<char>,
    name: Seq<char>,
    gap: Seq<char>,
    size: Seq<char>,
    rest: Seq<char>,
)
    requires
        !name.contains('\''),
        !gap.contains('('),
        !size.contains(')'),
    ensures
        file_info(
            lead + name + seq!['\''] + gap + seq!['('] + size + seq![')'] + rest,
            lead.len() as int,
        ) == Some(FileInfoView { name, size: bytes_measure(size) }),
{
    let line = lead + name + seq!['\''] + gap + seq!['('] + size + seq![')'] + rest;
    let start = lead.len() as int;
    let after_name = gap + seq!['('] + size + seq![')'] + rest;
    assert(line.skip(start) =~= name + seq!['\''] + after_name);
    lemma_find_char_after(name, '\'', after_name);
    let end = start + name.len();
    let qg = seq!['\''] + gap;
    assert(!qg.contains('(')) by {
        if qg.contains('(') {
            let j = choose|j: int| 0 <= j < qg.len() && qg[j] == '(';
            if j > 0 {
                assert(gap[j - 1] == '(');
                assert(gap.contains('('));
            }
        }
    }
    let after_open = size + seq![')'] + rest;
    assert(line.skip(end) =~= qg + seq!['('] + after_open);
    lemma_find_char_after(qg, '(', after_open);
    let size_start = end + qg.len() + 1;
    assert(line.skip(size_start) =~= size + seq![')'] + rest);
    lemma_find_char_after(size, ')', rest);
    assert(line.subrange(start, end) =~= name);
    assert(line.subrange(size_start, size_start + size.len()) =~= size);
}

/// What a `Sending 'name' (size)` or `Receiving 'name' (size)` line gives:
/// that file information, with the direction it names.
pub proof fn lemma_info_line_parts(
    name: Seq<char>,
    gap: Seq<char>,
    size: Seq<char>,
    rest: Seq<char>,
)
    requires
        !name.contains('\''),
        !gap.contains('('),
        !size.contains(')'),
    ensures
        info_event("Sending '"@ + name + seq!['\''] + gap + seq!['('] + size + seq![')'] + rest)
            == Some((false, EventView::SendingInfo(FileInfoView { name, size: bytes_measure(size) }))),
        info_event("Receiving '"@ + name + seq!['\''] + gap + seq!['('] + size + seq![')'] + rest)
            == Some((true, EventView::ReceivingInfo(FileInfoView { name, size: bytes_measure(size) }))),
{
    reveal_strlit("Sending '");
    reveal_strlit("Receiving '");
    let s = "Sending '"@ + name + seq!['\''] + gap + seq!['('] + size + seq![')'] + rest;
    let r = "Receiving '"@ + name + seq!['\''] + gap + seq!['('] + size + seq![')'] + rest;
    lemma_file_info_parts("Sending '"@, name, gap, size, rest);
    lemma_file_info_parts("Receiving '"@, name, gap, size, rest);
    assert(s.subrange(0, "Sending '"@.len() as int) =~= "Sending '"@);
    assert(r.subrange(0, "Receiving '"@.len() as int) =~= "Receiving '"@);
    assert(r[0] == 'R');
    assert("Sending '"@[0] == 'S');
    if starts_with(r, "Sending '"@) {
        assert(r.subrange(0, 9)[0] == r[0]);
    }
}

} // verus!
