//! Quantities in `croc`'s progress output: byte counts such as `1.5 MB` and
//! speeds such as `300 kB/s`.
use vstd::prelude::*;

use crate::event::{Measure, MeasureView};
use crate::text::{
    lemma_find_char, lemma_rfind_char, lemma_trim_contains, chars_of, find_alpha, find_alphabetic, find_ch, find_char, push_all, rfind_ch, rfind_char,
    string_from, trim, trim_end_matches, trimmed, trimmed_end_matches,
};

verus! {

/// The factor a unit letter stands for: `K`, `M`, `G` and `T` are powers of
/// 1024, in either case; any other letter counts as bytes.
pub open spec fn letter_scale(c: char) -> u64 {
    if c == 'K' || c == 'k' {
        1024
    } else if c == 'M' || c == 'm' {
        1048576
    } else if c == 'G' || c == 'g' {
        1073741824
    } else if c == 'T' || c == 't' {
        1099511627776
    } else {
        1
    }
}

/// The factor of a unit, which is compared without regard to case after
/// surrounding white space is removed: `B` and no unit at all are 1, `K` and
/// `KB` are 1024, `M`/`MB`, `G`/`GB` and `T`/`TB` the next powers of 1024.
/// Anything else counts as 1.
pub open spec fn unit_scale(unit: Seq<char>) -> u64 {
    let u = trim(unit);
    if u.len() == 1 || (u.len() == 2 && (u[1] == 'B' || u[1] == 'b')) {
        letter_scale(u[0])
    } else {
        1
    }
}

/// A quantity split at `unit_start`, where its unit starts (`None`: it has
/// no unit): the number before it, without surrounding white space, and the
/// factor of the unit.
pub open spec fn measure_split(t: Seq<char>, unit_start: Option<int>) -> MeasureView {
    match unit_start {
        Some(i) => MeasureView { number: trim(t.take(i)), scale: unit_scale(t.skip(i)) },
        None => MeasureView { number: trim(t), scale: 1 },
    }
}

/// A quantity split where its unit starts, at the first alphabetic character.
pub open spec fn split_measure(t: Seq<char>) -> MeasureView {
    measure_split(t, find_alphabetic(t))
}

/// A byte count such as `1.5 MB`.
pub open spec fn bytes_measure(s: Seq<char>) -> MeasureView {
    split_measure(trim(s))
}

/// A speed such as `1.2 MB/s`; a trailing `/s`, then a trailing `ps`, is
/// dropped before the unit is read.
pub open spec fn speed_measure(s: Seq<char>) -> MeasureView {
    split_measure(trim_end_matches(trim_end_matches(trim(s), "/s"@), "ps"@))
}

fn letter_factor(c: char) -> (r: u64)
    ensures
        r == letter_scale(c),
{
    if c == 'K' || c == 'k' {
        1024
    } else if c == 'M' || c == 'm' {
        1048576
    } else if c == 'G' || c == 'g' {
        1073741824
    } else if c == 'T' || c == 't' {
        1099511627776
    } else {
        1
    }
}

/// The factor of a unit.
pub fn parse_unit_multiplier(unit: &[char]) -> (r: u64)
    ensures
        r == unit_scale(unit@),
{
    let u = trimmed(unit);
    if u.len() == 1 || (u.len() == 2 && (u[1] == 'B' || u[1] == 'b')) {
        letter_factor(u[0])
    } else {
        1
    }
}

/// Splits a quantity at `unit_start`, the position where its unit starts
/// (`None` when it has none).
pub fn measure_at(t: &[char], unit_start: Option<usize>) -> (m: Measure)
    requires
        unit_start matches Some(i) ==> i <= t@.len(),
    ensures
        m@ == measure_split(
            t@,
            match unit_start {
                Some(i) => Some(i as int),
                None => None,
            },
        ),
{
    match unit_start {
        Some(i) => {
            let number = string_from(trimmed(&t[0..i]));
            let scale = parse_unit_multiplier(&t[i..t.len()]);
            Measure { number, scale }
        },
        None => Measure { number: string_from(trimmed(t)), scale: 1 },
    }
}

fn split_at_unit(t: &[char]) -> (m: Measure)
    ensures
        m@ == split_measure(t@),
{
    measure_at(t, find_alpha(t))
}

/// Reads a byte count.
pub fn parse_bytes(s: &[char]) -> (m: Measure)
    ensures
        m@ == bytes_measure(s@),
{
    split_at_unit(trimmed(s))
}

/// Reads a speed.
pub fn parse_speed(s: &[char]) -> (m: Measure)
    ensures
        m@ == speed_measure(s@),
{
    let per_second = chars_of("/s");
    let ps = chars_of("ps");
    let t = trimmed_end_matches(trimmed_end_matches(trimmed(s), per_second.as_slice()), ps.as_slice());
    split_at_unit(t)
}

/// The byte counts of a progress line: `sent/total` or a single count. When
/// the count sent has no unit, the unit of the total is lent to it.
pub open spec fn byte_counts(b: Seq<char>) -> (Option<MeasureView>, Option<MeasureView>) {
    match find_char(b, '/') {
        Some(k) => {
            let sent = trim(b.take(k));
            let total = trim(b.skip(k + 1));
            let unit = match find_alphabetic(total) {
                Some(u) => total.skip(u),
                None => seq![],
            };
            let sent_text = if find_alphabetic(sent) is None && unit.len() > 0 {
                sent + seq![' '] + unit
            } else {
                sent
            };
            (Some(bytes_measure(sent_text)), Some(bytes_measure(total)))
        },
        None => (Some(bytes_measure(b)), None),
    }
}

/// The text inside the last parenthesis of a line: what follows its last
/// `(`, without trailing `)` and surrounding white space (empty when the line
/// has no `(`).
pub open spec fn details_text(line: Seq<char>) -> Seq<char> {
    match rfind_char(line, '(') {
        Some(p) => trim(trim_end_matches(line.skip(p + 1), seq![')'])),
        None => seq![],
    }
}

/// The byte counts among the details: the text up to the first comma.
pub open spec fn counts_text(details: Seq<char>) -> Seq<char> {
    match find_char(details, ',') {
        Some(c) => details.take(c),
        None => details,
    }
}

/// The details of a progress line, taken from its last parenthesis:
/// `(sent/total, speed)`, with both the total and the speed optional.
pub open spec fn metadata(line: Seq<char>) -> (
    Option<MeasureView>,
    Option<MeasureView>,
    Option<MeasureView>,
) {
    match rfind_char(line, '(') {
        None => (None, None, None),
        Some(p) => {
            let meta = details_text(line);
            let counts = byte_counts(trim(counts_text(meta)));
            let speed = match find_char(meta, ',') {
                Some(c) => Some(speed_measure(trim(meta.skip(c + 1)))),
                None => None,
            };
            (counts.0, counts.1, speed)
        },
    }
}

/// How the details of a progress line are read: a line without `(` has
/// none; otherwise the count sent is always there; a total is there only
/// when the details hold a `/`, and a speed only when they hold a comma, in
/// which case it is what follows the first comma; without a `/` the count
/// sent is the whole text before the first comma.
pub proof fn lemma_metadata_shape(line: Seq<char>)
    ensures
        !line.contains('(') ==> metadata(line) == (
            None::<MeasureView>,
            None::<MeasureView>,
            None::<MeasureView>,
        ),
        line.contains('(') ==> metadata(line).0 is Some,
        metadata(line).1 is Some ==> details_text(line).contains('/'),
        metadata(line).2 is Some ==> details_text(line).contains(',') && metadata(line).2 == Some(
            speed_measure(trim(details_text(line).skip(find_char(details_text(line), ',')->0 + 1))),
        ),
        line.contains('(') && !details_text(line).contains('/') ==> metadata(line).0 == Some(
            bytes_measure(trim(counts_text(details_text(line)))),
        ),
{
    lemma_rfind_char(line, '(');
    let meta = details_text(line);
    let first = counts_text(meta);
    lemma_find_char(meta, ',');
    lemma_find_char(trim(first), '/');
    lemma_trim_contains(first, '/');
    if trim(first).contains('/') {
        assert(first.contains('/'));
        let j = choose|j: int| 0 <= j < first.len() && first[j] == '/';
        assert(meta[j] == '/');
    }
}

fn parse_byte_counts(b: &[char]) -> (r: (Option<Measure>, Option<Measure>))
    ensures
        (crate::event::measure_view(r.0), crate::event::measure_view(r.1)) == byte_counts(b@),
{
    let n = b.len();
    match find_ch(b, '/') {
        Some(k) => {
            let sent = trimmed(&b[0..k]);
            let total = trimmed(&b[k + 1..n]);
            let mut unit: Vec<char> = Vec::new();
            match find_alpha(total) {
                Some(u) => push_all(&mut unit, &total[u..total.len()]),
                None => {},
            }
            let ghost unit_view = match find_alphabetic(total@) {
                Some(u) => total@.skip(u),
                None => seq![],
            };
            assert(unit@ =~= unit_view);
            let sent_measure = if find_alpha(sent).is_none() && unit.len() > 0 {
                let mut text: Vec<char> = Vec::new();
                push_all(&mut text, sent);
                text.push(' ');
                push_all(&mut text, unit.as_slice());
                assert(text@ =~= sent@ + seq![' '] + unit_view);
                parse_bytes(text.as_slice())
            } else {
                parse_bytes(sent)
            };
            (Some(sent_measure), Some(parse_bytes(total)))
        },
        None => (Some(parse_bytes(b)), None),
    }
}

/// Reads the details of a progress line.
pub fn parse_metadata(line: &[char]) -> (r: (Option<Measure>, Option<Measure>, Option<Measure>))
    ensures
        (
            crate::event::measure_view(r.0),
            crate::event::measure_view(r.1),
            crate::event::measure_view(r.2),
        ) == metadata(line@),
{
    let n = line.len();
    match rfind_ch(line, '(') {
        None => (None, None, None),
        Some(p) => {
            let close = [')'];
            let ghost close_view: Seq<char> = seq![')'];
            assert(close@ =~= close_view);
            let meta = trimmed(trimmed_end_matches(&line[p + 1..n], close.as_slice()));
            let m = meta.len();
            let (first, rest) = match find_ch(meta, ',') {
                Some(c) => (&meta[0..c], Some(&meta[c + 1..m])),
                None => (meta, None),
            };
            let (sent, total) = parse_byte_counts(trimmed(first));
            let speed = match rest {
                Some(r) => Some(parse_speed(trimmed(r))),
                None => None,
            };
            (sent, total, speed)
        },
    }
}

} // verus!
