//! dmenu mode: one entry for each line of standard input.

use vstd::prelude::*;
use vstd::slice::slice_subrange;
#[allow(unused_imports)]
use vstd::utf8::{decode_utf8, valid_utf8};

verus! {

/// `std`'s `str::from_utf8`: `bytes` as text, where they are valid UTF-8.
#[verifier::external_body]
fn text_from_utf8(bytes: &[u8]) -> (text: Option<&str>)
    ensures
        text is Some <==> valid_utf8(bytes@),
        text matches Some(found) ==> found@ == decode_utf8(bytes@),
{
    std::str::from_utf8(bytes).ok()
}

/// A line to choose from, which is printed to standard output when chosen.
#[derive(Debug, PartialEq, Eq)]
pub struct Entry {
    pub label: String,
}

impl Entry {
    /// The entry of this line.
    pub fn stdout(line: String) -> (entry: Entry)
        ensures
            entry.label == line,
    {
        Entry { label: line }
    }
}

/// The labels of `entries`.
pub open spec fn labels(entries: Seq<Entry>) -> Seq<Seq<char>> {
    entries.map_values(|entry: Entry| entry.label@)
}

/// There is one label for each entry, in the order of the entries.
pub proof fn law_labels_of_entries(entries: Seq<Entry>, i: int)
    requires
        0 <= i < entries.len(),
    ensures
        labels(entries).len() == entries.len(),
        labels(entries)[i] == entries[i].label@,
{
}

/// Why standard input could not be read to its end.
#[derive(Clone, Copy, Debug, PartialEq, Eq, Structural)]
pub enum ReadError {
    /// A line is not valid UTF-8.
    InvalidUtf8,
}

impl ReadError {
    /// The error in words.
    pub fn message(self) -> (text: String)
        ensures
            text@ == "stream did not contain valid UTF-8"@,
    {
        "stream did not contain valid UTF-8".to_owned()
    }
}

// ---------------------------------------------------------------------------
// Lines
// ---------------------------------------------------------------------------

/// `text` without a line break at its end: without `\n`, and without a `\r` before
/// it. A `\r` that no `\n` follows is no line break.
pub open spec fn without_line_break(text: Seq<char>) -> Seq<char> {
    if text.len() >= 2 && text[text.len() - 2] == '\r' && text.last() == '\n' {
        text.take(text.len() - 2)
    } else if text.len() >= 1 && text.last() == '\n' {
        text.drop_last()
    } else {
        text
    }
}

/// The length of the first line of `text`, its line break counted.
pub open spec fn first_line_len(text: Seq<char>) -> int
    decreases text.len(),
{
    if text.len() == 0 {
        0
    } else if text[0] == '\n' {
        1
    } else {
        1 + first_line_len(text.skip(1))
    }
}

/// The lines of `text`, without their line breaks. A `\n` ends a line; the last
/// line may end without one.
pub open spec fn lines(text: Seq<char>) -> Seq<Seq<char>>
    decreases text.len(),
{
    if text.len() == 0 {
        seq![]
    } else {
        let len = first_line_len(text);
        if 0 < len <= text.len() {
            seq![without_line_break(text.take(len))] + lines(text.skip(len))
        } else {
            seq![]
        }
    }
}

/// The labels that `text` gives: its lines, except for the empty ones.
pub open spec fn entry_labels(text: Seq<char>) -> Seq<Seq<char>> {
    lines(text).filter(|line: Seq<char>| line.len() > 0)
}

/// The labels that one line gives: one, or none where it is empty.
pub open spec fn line_labels(line: Seq<char>) -> Seq<Seq<char>> {
    if without_line_break(line).len() > 0 {
        seq![without_line_break(line)]
    } else {
        seq![]
    }
}

/// Where the first line of a text ends: behind its first `\n`, or at the end.
pub proof fn law_first_line(text: Seq<char>)
    requires
        text.len() > 0,
    ensures
        0 < first_line_len(text) <= text.len(),
        forall|i: int| 0 <= i < first_line_len(text) - 1 ==> text[i] != '\n',
        first_line_len(text) < text.len() ==> text[first_line_len(text) - 1] == '\n',
    decreases text.len(),
{
    if text.len() == 1 {
        assert(text.skip(1).len() == 0);
        assert(first_line_len(text.skip(1)) == 0);
    } else if text[0] != '\n' {
        let rest = text.skip(1);
        law_first_line(rest);
        assert forall|i: int| 0 <= i < first_line_len(text) - 1 implies text[i] != '\n' by {
            if i > 0 {
                assert(text[i] == rest[i - 1]);
            }
        }
        if first_line_len(text) < text.len() {
            assert(text[first_line_len(text) - 1] == rest[first_line_len(rest) - 1]);
        }
    }
}

/// A text whose one `\n`, if there is one, stands at its end is a line.
proof fn lemma_single_line(line: Seq<char>)
    requires
        line.len() > 0,
        forall|i: int| 0 <= i < line.len() - 1 ==> line[i] != '\n',
    ensures
        first_line_len(line) == line.len(),
    decreases line.len(),
{
    law_first_line(line);
    let len = first_line_len(line);
    if len < line.len() {
        assert(line[len - 1] == '\n');
    }
}

/// The labels of a text are those of its first line and then those of the rest.
proof fn lemma_entry_labels_step(text: Seq<char>)
    requires
        text.len() > 0,
    ensures
        entry_labels(text) == line_labels(text.take(first_line_len(text))) + entry_labels(
            text.skip(first_line_len(text)),
        ),
{
    law_first_line(text);
    let len = first_line_len(text);
    let head = without_line_break(text.take(len));
    let keep = |line: Seq<char>| line.len() > 0;
    assert(lines(text) == seq![head] + lines(text.skip(len)));
    Seq::filter_distributes_over_add(seq![head], lines(text.skip(len)), keep);
    assert(seq![head].filter(keep) =~= line_labels(text.take(len))) by {
        reveal_with_fuel(Seq::filter, 2);
        assert(seq![head].drop_last() =~= seq![]);
    }
}

/// Where one input ends with a `\n`, an input that goes on behind it gives the
/// labels of the one and then those of the other.
pub proof fn law_labels_of_parts(first: Seq<char>, second: Seq<char>)
    requires
        first.len() > 0,
        first.last() == '\n',
    ensures
        entry_labels(first + second) == entry_labels(first) + entry_labels(second),
    decreases first.len(),
{
    let text = first + second;
    law_first_line(text);
    law_first_line(first);
    let len = first_line_len(first);
    assert(first[first.len() - 1] == '\n');
    assert(text[first.len() - 1] == '\n');
    if first_line_len(text) < len {
        assert(text[first_line_len(text) - 1] == first[first_line_len(text) - 1]);
    }
    if len < first_line_len(text) {
        assert(first[len - 1] == '\n');
        assert(text[len - 1] == '\n');
    }
    assert(first_line_len(text) == len);
    lemma_entry_labels_step(text);
    lemma_entry_labels_step(first);
    assert(text.take(len) =~= first.take(len));
    if len == first.len() {
        assert(text.skip(len) =~= second);
        assert(first.skip(len) =~= seq![]);
        assert(entry_labels(seq![]) =~= seq![]) by {
            reveal(Seq::filter);
        }
        assert(entry_labels(text) =~= entry_labels(first) + entry_labels(second));
    } else {
        let rest = first.skip(len);
        assert(rest.last() == '\n');
        law_labels_of_parts(rest, second);
        assert(text.skip(len) =~= rest + second);
        assert(entry_labels(text) =~= entry_labels(first) + entry_labels(second));
    }
}

/// No label is empty, and none holds a line break.
pub proof fn law_labels_are_non_empty_lines(text: Seq<char>)
    ensures
        forall|i: int|
            #![trigger entry_labels(text)[i]]
            0 <= i < entry_labels(text).len() ==> entry_labels(text)[i].len() > 0
                && !entry_labels(text)[i].contains('\n'),
    decreases text.len(),
{
    if text.len() == 0 {
        reveal(Seq::filter);
    } else {
        law_first_line(text);
        lemma_entry_labels_step(text);
        let len = first_line_len(text);
        law_labels_are_non_empty_lines(text.skip(len));
        let head = without_line_break(text.take(len));
        let own = line_labels(text.take(len));
        let rest = entry_labels(text.skip(len));
        assert(!head.contains('\n')) by {
            if head.contains('\n') {
                let k = choose|k: int| 0 <= k < head.len() && head[k] == '\n';
                assert(text[k] == '\n');
                assert(text.take(len).last() == text[len - 1]);
            }
        }
        assert forall|i: int|
            #![trigger entry_labels(text)[i]]
            0 <= i < entry_labels(text).len() implies entry_labels(text)[i].len() > 0
            && !entry_labels(text)[i].contains('\n') by {
            if i < own.len() {
                assert(entry_labels(text)[i] == head);
            } else {
                assert(entry_labels(text)[i] == rest[i - own.len()]);
            }
        }
    }
}

/// A `\n` at the end of the last line makes no difference, except behind a `\r`.
pub proof fn law_final_newline_is_optional(text: Seq<char>)
    requires
        text.len() > 0 ==> text.last() != '\r',
    ensures
        entry_labels(text.push('\n')) == entry_labels(text),
    decreases text.len(),
{
    let longer = text.push('\n');
    law_first_line(longer);
    let long_len = first_line_len(longer);
    assert(entry_labels(seq![]) =~= seq![]) by {
        reveal(Seq::filter);
    }
    if text.len() == 0 {
        lemma_entry_labels_step(longer);
        assert(longer.skip(long_len) =~= seq![]);
        assert(longer.take(long_len) =~= seq!['\n']);
        assert(entry_labels(longer) =~= entry_labels(text));
    } else {
        law_first_line(text);
        let len = first_line_len(text);
        lemma_entry_labels_step(text);
        lemma_entry_labels_step(longer);
        assert(text.last() == text[text.len() - 1]);
        if long_len <= text.len() {
            // The first line is complete in both.
            assert(longer[long_len - 1] == '\n');
            assert(text[long_len - 1] == '\n');
            if len < long_len {
                assert(longer[len - 1] == '\n');
            }
            assert(len == long_len);
            assert(longer.take(len) =~= text.take(len));
            assert(longer.skip(len) =~= text.skip(len).push('\n'));
            law_final_newline_is_optional(text.skip(len));
        } else {
            assert(forall|i: int| 0 <= i < text.len() ==> text[i] == longer[i]);
            assert(len == text.len());
            assert(longer.take(long_len) =~= longer);
            assert(text.take(len) =~= text);
            assert(longer.skip(long_len) =~= seq![]);
            assert(text.skip(len) =~= seq![]);
            assert(without_line_break(longer) =~= text);
            assert(without_line_break(text) =~= text);
        }
    }
}

/// A text that is one line gives the labels of that line.
proof fn lemma_labels_of_single_line(line: Seq<char>)
    requires
        line.len() > 0,
        forall|i: int| 0 <= i < line.len() - 1 ==> line[i] != '\n',
    ensures
        entry_labels(line) == line_labels(line),
{
    lemma_single_line(line);
    lemma_entry_labels_step(line);
    assert(line.take(line.len() as int) =~= line);
    assert(line.skip(line.len() as int) =~= seq![]);
    assert(entry_labels(seq![]) =~= seq![]) by {
        reveal(Seq::filter);
    }
    assert(entry_labels(line) =~= line_labels(line));
}

/// Every line that is not empty is a label, whatever it holds: the whole of it, and
/// nothing but it. It may stand at the end of the text without a line break, or
/// before `\n` or `\r\n`; a `\r` counts as part of the line only where no `\n`
/// follows.
pub proof fn law_line_is_its_label(line: Seq<char>)
    requires
        line.len() > 0,
        !line.contains('\n'),
    ensures
        entry_labels(line) == seq![line],
        line.last() != '\r' ==> entry_labels(line.push('\n')) == seq![line],
        entry_labels(line.push('\r').push('\n')) == seq![line],
{
    assert forall|i: int| 0 <= i < line.len() implies line[i] != '\n' by {
        assert(line.contains(line[i]));
    }
    lemma_labels_of_single_line(line);
    lemma_labels_of_single_line(line.push('\n'));
    lemma_labels_of_single_line(line.push('\r').push('\n'));
    law_labels_of_line_read(line);
}

/// An empty line, and an empty text, give no label.
pub proof fn law_empty_lines_give_no_label()
    ensures
        entry_labels(seq![]) == Seq::<Seq<char>>::empty(),
        entry_labels(seq!['\n']) == Seq::<Seq<char>>::empty(),
        entry_labels(seq!['\r', '\n']) == Seq::<Seq<char>>::empty(),
{
    assert(entry_labels(seq![]) =~= seq![]) by {
        reveal(Seq::filter);
    }
    let short = seq!['\n'];
    let long = seq!['\r', '\n'];
    law_labels_of_line_read(seq![]);
    assert(entry_labels(short) == line_labels(short)) by {
        lemma_labels_of_single_line(short);
    }
    assert(entry_labels(long) == line_labels(long)) by {
        lemma_labels_of_single_line(long);
    }
}

/// The first line of a text, whatever it holds, gives the first label, and the text
/// behind it the others. A first line that is empty gives none.
pub proof fn law_labels_line_after_line(line: Seq<char>, rest: Seq<char>)
    requires
        !line.contains('\n'),
    ensures
        line.len() > 0 && line.last() != '\r' ==> entry_labels(line.push('\n') + rest) == seq![line]
            + entry_labels(rest),
        line.len() > 0 ==> entry_labels(line.push('\r').push('\n') + rest) == seq![line]
            + entry_labels(rest),
        entry_labels(seq!['\n'] + rest) == entry_labels(rest),
        entry_labels(seq!['\r', '\n'] + rest) == entry_labels(rest),
{
    law_empty_lines_give_no_label();
    law_labels_of_parts(seq!['\n'], rest);
    law_labels_of_parts(seq!['\r', '\n'], rest);
    assert(Seq::<Seq<char>>::empty() + entry_labels(rest) =~= entry_labels(rest));
    if line.len() > 0 {
        law_line_is_its_label(line);
        law_labels_of_parts(line.push('\n'), rest);
        law_labels_of_parts(line.push('\r').push('\n'), rest);
    }
}

/// A line that is read gives one label, which is the whole line without its line
/// break, or none where nothing stands before the line break.
pub proof fn law_labels_of_line_read(line: Seq<char>)
    ensures
        line.len() == 0 ==> line_labels(line) == Seq::<Seq<char>>::empty(),
        line.len() > 0 && line.last() != '\n' ==> line_labels(line) == seq![line],
        line.len() > 0 && line.last() != '\r' ==> line_labels(line.push('\n')) == seq![line],
        line.len() > 0 ==> line_labels(line.push('\r').push('\n')) == seq![line],
        line_labels(seq!['\n']) == Seq::<Seq<char>>::empty(),
        line_labels(seq!['\r', '\n']) == Seq::<Seq<char>>::empty(),
{
    let short = line.push('\n');
    let long = line.push('\r').push('\n');
    assert(long.take(long.len() - 2) =~= line);
    assert(short.drop_last() =~= line);
    if line.len() > 0 {
        assert(short[short.len() - 2] == line.last());
    }
}

// ---------------------------------------------------------------------------
// Lines of bytes
// ---------------------------------------------------------------------------

/// An ASCII byte of a text in UTF-8 is a character of its own.
proof fn lemma_split_at_ascii(bytes: Seq<u8>, k: int)
    requires
        0 <= k < bytes.len(),
        bytes[k] <= 0x7f,
    ensures
        valid_utf8(bytes) <==> valid_utf8(bytes.take(k)) && valid_utf8(bytes.skip(k + 1)),
        valid_utf8(bytes) ==> decode_utf8(bytes) == decode_utf8(bytes.take(k)) + seq![
            bytes[k] as char,
        ] + decode_utf8(bytes.skip(k + 1)),
{
    let before = bytes.take(k);
    let middle = seq![bytes[k]];
    let after = bytes.skip(k + 1);
    let b = bytes[k];
    assert(b & 0x7f == b) by (bit_vector)
        requires
            b <= 0x7f,
    ;
    if valid_utf8(bytes) {
        vstd::utf8::is_char_boundary_iff_not_is_continuation_byte(bytes, k);
        vstd::utf8::valid_utf8_split(bytes, k);
        vstd::utf8::decode_utf8_split(bytes, k);
        let tail = bytes.subrange(k, bytes.len() as int);
        assert(bytes.subrange(0, k) =~= before);
        assert(tail[0] == b);
        assert(vstd::utf8::pop_first_scalar(tail) =~= after);
        assert(decode_utf8(tail) =~= seq![b as char] + decode_utf8(after));
        assert(decode_utf8(bytes) =~= decode_utf8(before) + seq![b as char] + decode_utf8(after));
    }
    if valid_utf8(before) && valid_utf8(after) {
        assert(valid_utf8(middle)) by {
            assert(vstd::utf8::pop_first_scalar(middle) =~= seq![]);
            reveal_with_fuel(valid_utf8, 2);
        }
        vstd::utf8::valid_utf8_concat(before, middle);
        vstd::utf8::valid_utf8_concat(before + middle, after);
        assert(before + middle + after =~= bytes);
    }
}

/// An ASCII character of a text is a byte of its UTF-8 form; the last character
/// is the last byte.
proof fn lemma_ascii_chars_are_bytes(bytes: Seq<u8>, c: char)
    requires
        valid_utf8(bytes),
        c as u32 <= 0x7f,
    ensures
        decode_utf8(bytes).contains(c) ==> bytes.contains(c as u8),
        bytes.len() > 0 ==> decode_utf8(bytes).len() > 0,
        bytes.len() > 0 && decode_utf8(bytes).last() == c ==> bytes.last() == c as u8,
    decreases bytes.len(),
{
    if bytes.len() > 0 {
        let rest = vstd::utf8::pop_first_scalar(bytes);
        let first = vstd::utf8::decode_first_scalar(bytes);
        lemma_ascii_chars_are_bytes(rest, c);
        let b = bytes[0];
        assert(decode_utf8(bytes) == seq![first as char] + decode_utf8(rest));
        vstd::utf8::decode_utf8_first_scalar(bytes);
        let code = c as u32;
        assert((code & 0x7F) as u8 == code as u8) by (bit_vector)
            requires
                code <= 0x7f,
        ;
        if first as char == c {
            let own = vstd::utf8::take_first_scalar(bytes);
            assert(own == seq![c as u8]);
            assert(own[0] == b);
        }
        assert(first as char == c ==> b == c as u8 && rest.len() == bytes.len() - 1);
        if decode_utf8(bytes).contains(c) {
            let k = choose|k: int| 0 <= k < decode_utf8(bytes).len() && decode_utf8(bytes)[k] == c;
            if k == 0 {
                assert(bytes[0] == c as u8);
            } else {
                assert(decode_utf8(rest)[k - 1] == c);
                let j = choose|j: int| 0 <= j < rest.len() && rest[j] == c as u8;
                assert(bytes[j + bytes.len() - rest.len()] == c as u8);
            }
        }
        if decode_utf8(bytes).last() == c {
            if rest.len() == 0 {
                assert(decode_utf8(rest).len() == 0);
            } else {
                assert(decode_utf8(rest).last() == c);
            }
        }
    }
}

/// How many bytes of a line stand before its line break.
fn len_without_line_break(raw: &[u8]) -> (len: usize)
    ensures
        len <= raw@.len(),
        valid_utf8(raw@) <==> valid_utf8(raw@.take(len as int)),
        valid_utf8(raw@) ==> decode_utf8(raw@.take(len as int)) == without_line_break(
            decode_utf8(raw@),
        ),
{
    let len = raw.len();
    let ghost text = decode_utf8(raw@);
    assert(raw@.take(len as int) =~= raw@);
    if len == 0 || raw[len - 1] != 0x0A {
        proof {
            if valid_utf8(raw@) {
                lemma_ascii_chars_are_bytes(raw@, '\n');
            }
        }
        return len;
    }
    let ghost line = raw@.take(len - 1);
    proof {
        lemma_split_at_ascii(raw@, len - 1);
        assert(raw@.skip(len as int) =~= seq![]);
        assert(valid_utf8(raw@.skip(len as int)));
        if valid_utf8(raw@) {
            assert(text =~= decode_utf8(line).push('\n'));
        }
    }
    if len == 1 || raw[len - 2] != 0x0D {
        proof {
            if valid_utf8(raw@) {
                lemma_ascii_chars_are_bytes(line, '\r');
                assert(text.drop_last() =~= decode_utf8(line));
                if text.len() >= 2 {
                    assert(text[text.len() - 2] == decode_utf8(line).last());
                }
            }
        }
        return len - 1;
    }
    proof {
        lemma_split_at_ascii(line, len - 2);
        assert(line.take(len - 2) =~= raw@.take(len - 2));
        assert(line.skip(len - 1) =~= seq![]);
        assert(valid_utf8(line.skip(len - 1)));
        if valid_utf8(raw@) {
            let shorter = decode_utf8(raw@.take(len - 2));
            assert(decode_utf8(line) =~= shorter.push('\r'));
            assert(text =~= shorter.push('\r').push('\n'));
            assert(text.take(text.len() - 2) =~= shorter);
        }
    }
    len - 2
}

// ---------------------------------------------------------------------------
// Reading
// ---------------------------------------------------------------------------

/// The entries of the lines read so far.
#[derive(Debug)]
pub struct EntryReader {
    pub entries: Vec<Entry>,
}

impl View for EntryReader {
    type V = Seq<Seq<char>>;

    open spec fn view(&self) -> Seq<Seq<char>> {
        labels(self.entries@)
    }
}

impl EntryReader {
    /// No line is read yet.
    pub fn new() -> (reader: EntryReader)
        ensures
            reader@ == Seq::<Seq<char>>::empty(),
            reader.entries@.len() == 0,
    {
        let reader = EntryReader { entries: Vec::new() };
        assert(reader@ =~= seq![]);
        reader
    }

    /// Takes one line, with its line break if it has one. An empty line gives no
    /// entry; a line that is not valid UTF-8 is an error and changes nothing.
    pub fn push_line(&mut self, raw: &[u8]) -> (result: Result<(), ReadError>)
        ensures
            result == (if valid_utf8(raw@) {
                Ok::<(), ReadError>(())
            } else {
                Err(ReadError::InvalidUtf8)
            }),
            final(self)@ == (if valid_utf8(raw@) {
                old(self)@ + line_labels(decode_utf8(raw@))
            } else {
                old(self)@
            }),
            !valid_utf8(raw@) ==> final(self).entries@ == old(self).entries@,
            valid_utf8(raw@) && decode_utf8(raw@).len() > 0 && decode_utf8(raw@).last() != '\n'
                ==> final(self)@ == old(self)@.push(decode_utf8(raw@)),
            forall|line: Seq<char>|
                valid_utf8(raw@) && line.len() > 0 && (decode_utf8(raw@) == #[trigger] line.push(
                    '\n',
                ) && line.last() != '\r' || decode_utf8(raw@) == line.push('\r').push('\n'))
                    ==> final(self)@ == old(self)@.push(line),
    {
        let len = len_without_line_break(raw);
        let line = slice_subrange(raw, 0, len);
        assert(line@ =~= raw@.take(len as int));
        match text_from_utf8(line) {
            Some(text) => {
                if !text.is_empty() {
                    self.entries.push(Entry::stdout(text.to_owned()));
                }
                assert(self@ =~= old(self)@ + line_labels(decode_utf8(raw@)));
                proof {
                    assert forall|line: Seq<char>|
                        line.len() > 0 && (decode_utf8(raw@) == #[trigger] line.push('\n')
                            && line.last() != '\r' || decode_utf8(raw@) == line.push('\r').push(
                            '\n',
                        )) implies self@ == old(self)@.push(line) by {
                        law_labels_of_line_read(line);
                        assert(self@ =~= old(self)@.push(line));
                    }
                    law_labels_of_line_read(decode_utf8(raw@));
                }
                Ok(())
            },
            None => Err(ReadError::InvalidUtf8),
        }
    }

    /// The entries, once all lines are read.
    pub fn into_entries(self) -> (entries: Vec<Entry>)
        ensures
            entries == self.entries,
            labels(entries@) == self@,
    {
        self.entries
    }
}

/// Reads one entry from each line of `input` that is not empty. Fails exactly
/// where `input` is not valid UTF-8.
pub fn read_entries(input: &[u8]) -> (result: Result<Vec<Entry>, ReadError>)
    ensures
        match result {
            Ok(entries) => valid_utf8(input@) && labels(entries@) == entry_labels(
                decode_utf8(input@),
            ),
            Err(error) => !valid_utf8(input@) && error == ReadError::InvalidUtf8,
        },
        result is Ok <==> valid_utf8(input@),
{
    let mut reader = EntryReader::new();
    let mut start: usize = 0;
    proof {
        assert(input@.skip(0) =~= input@);
        assert(reader@ + entry_labels(decode_utf8(input@)) =~= entry_labels(decode_utf8(input@)));
    }
    while start < input.len()
        invariant
            start <= input.len(),
            valid_utf8(input@) <==> valid_utf8(input@.skip(start as int)),
            valid_utf8(input@) ==> entry_labels(decode_utf8(input@)) == reader@ + entry_labels(
                decode_utf8(input@.skip(start as int)),
            ),
        decreases input.len() - start,
    {
        let end = line_end(input, start);
        let raw = slice_subrange(input, start, end);
        let ghost rest = input@.skip(start as int);
        let ghost before = reader@;
        proof {
            assert(raw@ =~= rest.take(end - start));
            assert(rest.skip(end - start) =~= input@.skip(end as int));
            assert forall|i: int| 0 <= i < raw@.len() - 1 implies raw@[i] != 0x0A by {
                assert(raw@[i] == input@[start + i]);
            }
            if end < input@.len() {
                assert(rest[end - start - 1] == input@[end - 1]);
            }
            lemma_first_raw_line(rest, end - start);
        }
        match reader.push_line(raw) {
            Ok(_) => {},
            Err(error) => return Err(error),
        }
        proof {
            if valid_utf8(input@) {
                assert(entry_labels(decode_utf8(input@)) =~= reader@ + entry_labels(
                    decode_utf8(input@.skip(end as int)),
                ));
            }
        }
        start = end;
    }
    proof {
        assert(input@.skip(start as int) =~= seq![]);
        assert(valid_utf8(input@.skip(start as int)));
        assert(decode_utf8(input@.skip(start as int)) =~= seq![]);
        assert(entry_labels(seq![]) =~= seq![]) by {
            reveal(Seq::filter);
        }
        assert(reader@ + entry_labels(decode_utf8(input@.skip(start as int))) =~= reader@);
    }
    Ok(reader.into_entries())
}

/// Where the line that starts at `start` ends: behind the first newline, or at
/// the end of `input`.
fn line_end(input: &[u8], start: usize) -> (end: usize)
    requires
        start < input@.len(),
    ensures
        start < end <= input@.len(),
        forall|i: int| start <= i < end - 1 ==> input@[i] != 0x0A,
        end < input@.len() ==> input@[end - 1] == 0x0A,
{
    let mut end = start;
    while end < input.len()
        invariant
            start <= end <= input@.len(),
            forall|i: int| start <= i < end ==> input@[i] != 0x0A,
        decreases input.len() - end,
    {
        if input[end] == 0x0A {
            return end + 1;
        }
        end = end + 1;
    }
    end
}

/// The first line of bytes is valid UTF-8 by itself where the whole is, and gives
/// the first labels of the whole.
proof fn lemma_first_raw_line(bytes: Seq<u8>, len: int)
    requires
        0 < len <= bytes.len(),
        forall|i: int| 0 <= i < len - 1 ==> bytes[i] != 0x0A,
        len < bytes.len() ==> bytes[len - 1] == 0x0A,
    ensures
        valid_utf8(bytes) <==> valid_utf8(bytes.take(len)) && valid_utf8(bytes.skip(len)),
        valid_utf8(bytes) ==> entry_labels(decode_utf8(bytes)) == line_labels(
            decode_utf8(bytes.take(len)),
        ) + entry_labels(decode_utf8(bytes.skip(len))),
{
    let raw = bytes.take(len);
    let rest = bytes.skip(len);
    let line = bytes.take(len - 1);
    if bytes[len - 1] == 0x0A {
        lemma_split_at_ascii(bytes, len - 1);
        lemma_split_at_ascii(raw, len - 1);
        assert(raw.take(len - 1) =~= line);
        assert(raw.skip(len) =~= seq![]);
        assert(valid_utf8(raw.skip(len)));
        if valid_utf8(bytes) {
            let text = decode_utf8(line);
            lemma_ascii_chars_are_bytes(line, '\n');
            assert(decode_utf8(raw) =~= text.push('\n'));
            assert(decode_utf8(bytes) =~= decode_utf8(raw) + decode_utf8(rest));
            assert forall|i: int| 0 <= i < decode_utf8(raw).len() - 1 implies decode_utf8(raw)[i]
                != '\n' by {
                assert(decode_utf8(raw)[i] == text[i]);
                if text[i] == '\n' {
                    assert(text.contains('\n'));
                    let k = choose|k: int| 0 <= k < line.len() && line[k] == '\n' as u8;
                    assert(bytes[k] == 0x0A);
                }
            }
            law_labels_of_parts(decode_utf8(raw), decode_utf8(rest));
            lemma_labels_of_single_line(decode_utf8(raw));
        }
    } else {
        assert(raw =~= bytes);
        assert(rest =~= seq![]);
        assert(valid_utf8(rest));
        if valid_utf8(bytes) {
            let text = decode_utf8(bytes);
            lemma_ascii_chars_are_bytes(bytes, '\n');
            assert forall|i: int| 0 <= i < text.len() - 1 implies text[i] != '\n' by {
                if text[i] == '\n' {
                    assert(text.contains('\n'));
                    let k = choose|k: int| 0 <= k < bytes.len() && bytes[k] == '\n' as u8;
                    assert(bytes[k] == 0x0A);
                }
            }
            lemma_labels_of_single_line(text);
            assert(decode_utf8(rest) =~= seq![]);
            assert(entry_labels(seq![]) =~= seq![]) by {
                reveal(Seq::filter);
            }
            assert(entry_labels(text) =~= line_labels(text) + entry_labels(decode_utf8(rest)));
        }
    }
}

/// The bytes of all lines, one after the other.
pub open spec fn joined(raw_lines: Seq<Seq<u8>>) -> Seq<u8>
    decreases raw_lines.len(),
{
    if raw_lines.len() == 0 {
        seq![]
    } else {
        raw_lines[0] + joined(raw_lines.skip(1))
    }
}

/// The labels of all lines, one after the other.
pub open spec fn joined_labels(raw_lines: Seq<Seq<u8>>) -> Seq<Seq<char>>
    decreases raw_lines.len(),
{
    if raw_lines.len() == 0 {
        seq![]
    } else {
        line_labels(decode_utf8(raw_lines[0])) + joined_labels(raw_lines.skip(1))
    }
}

/// Each is one line: not empty, with a newline at its end and nowhere else. Only
/// the last may lack it.
pub open spec fn are_lines(raw_lines: Seq<Seq<u8>>) -> bool {
    &&& forall|i: int| 0 <= i < raw_lines.len() ==> (#[trigger] raw_lines[i]).len() > 0
    &&& forall|i: int, k: int|
        0 <= i < raw_lines.len() && 0 <= k < raw_lines[i].len() - 1 ==> #[trigger] raw_lines[i][k]
            != 0x0A
    &&& forall|i: int|
        0 <= i < raw_lines.len() - 1 ==> (#[trigger] raw_lines[i])[raw_lines[i].len() - 1] == 0x0A
}

/// Reading line by line gives what reading the whole gives: it fails where the
/// whole is not valid UTF-8, and gives the same labels otherwise.
pub proof fn law_line_by_line(raw_lines: Seq<Seq<u8>>)
    requires
        are_lines(raw_lines),
    ensures
        valid_utf8(joined(raw_lines)) <==> (forall|i: int|
            0 <= i < raw_lines.len() ==> valid_utf8(#[trigger] raw_lines[i])),
        valid_utf8(joined(raw_lines)) ==> entry_labels(decode_utf8(joined(raw_lines)))
            == joined_labels(raw_lines),
    decreases raw_lines.len(),
{
    if raw_lines.len() == 0 {
        assert(decode_utf8(joined(raw_lines)) =~= seq![]);
        assert(entry_labels(seq![]) =~= seq![]) by {
            reveal(Seq::filter);
        }
    } else {
        let first = raw_lines[0];
        let others = raw_lines.skip(1);
        let whole = joined(raw_lines);
        assert(are_lines(others)) by {
            assert forall|i: int, k: int|
                0 <= i < others.len() && 0 <= k < others[i].len() - 1 implies
                #[trigger] others[i][k] != 0x0A by {
                assert(raw_lines[i + 1][k] != 0x0A);
            }
        }
        law_line_by_line(others);
        assert(whole.take(first.len() as int) =~= first);
        assert(whole.skip(first.len() as int) =~= joined(others));
        assert forall|i: int| 0 <= i < first.len() - 1 implies whole[i] != 0x0A by {
            assert(whole[i] == raw_lines[0][i]);
        }
        if others.len() == 0 {
            assert(joined(others) =~= seq![]);
        }
        lemma_first_raw_line(whole, first.len() as int);
        if forall|i: int| 0 <= i < raw_lines.len() ==> valid_utf8(#[trigger] raw_lines[i]) {
            assert forall|i: int| 0 <= i < others.len() implies valid_utf8(
                #[trigger] others[i],
            ) by {
                assert(valid_utf8(raw_lines[i + 1]));
            }
        }
        if valid_utf8(whole) {
            assert forall|i: int| 0 <= i < raw_lines.len() implies valid_utf8(
                #[trigger] raw_lines[i],
            ) by {
                if i > 0 {
                    assert(valid_utf8(others[i - 1]));
                }
            }
        }
    }
}

// ---------------------------------------------------------------------------
// The mode
// ---------------------------------------------------------------------------

/// Standard input is a terminal, so nobody pipes entries into it.
#[derive(Clone, Copy, Debug, PartialEq, Eq, Structural)]
pub struct NotPiped;

impl NotPiped {
    /// The error in words.
    pub fn message(self) -> (text: String)
        ensures
            text@ == "dmenu mode requires entries on stdin"@,
    {
        "dmenu mode requires entries on stdin".to_owned()
    }
}

/// Refuses standard input that is a terminal.
pub fn require_piped_stdin(is_terminal: bool) -> (result: Result<(), NotPiped>)
    ensures
        result == (if is_terminal {
            Err(NotPiped)
        } else {
            Ok::<(), NotPiped>(())
        }),
{
    if is_terminal {
        Err(NotPiped)
    } else {
        Ok(())
    }
}

/// dmenu mode.
#[derive(Debug, Default)]
pub struct Dmenu;

impl Dmenu {
    /// Starts to collect the entries on standard input, before anything is read
    /// from it. A terminal is refused.
    pub fn collect(&mut self, stdin_is_terminal: bool) -> (result: Result<EntryReader, NotPiped>)
        ensures
            result is Err <==> stdin_is_terminal,
            result matches Ok(reader) ==> reader@ == Seq::<Seq<char>>::empty()
                && reader.entries@.len() == 0,
    {
        match require_piped_stdin(stdin_is_terminal) {
            Ok(_) => Ok(EntryReader::new()),
            Err(error) => Err(error),
        }
    }
}

/// What a background reader hands on once standard input is closed.
#[derive(Debug)]
pub struct Delivery {
    /// The entries, of which there are none where reading failed.
    pub entries: Vec<Entry>,
    /// What to report on standard error.
    pub report: Option<String>,
}

/// Decides what a background reader hands on. A failure, in words, is reported
/// and leaves an empty list.
pub fn deliver(read: Result<Vec<Entry>, String>) -> (delivery: Delivery)
    ensures
        match read {
            Ok(entries) => delivery.entries == entries && delivery.report is None,
            Err(reason) => delivery.entries@.len() == 0 && (delivery.report matches Some(report)
                && report@ == "pikr: reading stdin: "@ + reason@),
        },
{
    match read {
        Ok(entries) => Delivery { entries, report: None },
        Err(reason) => {
            let mut report = "pikr: reading stdin: ".to_owned();
            report.append(reason.as_str());
            Delivery { entries: Vec::new(), report: Some(report) }
        },
    }
}

} // verus!
