//! What a verifier reads of what the device prints.

use crate::attestation::{
    field_value, parsed, value_in, value_text, AttestationBytes, PUBLIC_KEY_LEN, SIGNATURE_LEN,
};
use crate::console::{attestation_texts, console, AttestationReport};
use crate::error::Error;
use crate::hex::{hex_digit, hex_pair, hex_text, is_hex, law_hex_text_reads_back, unhexed};
use crate::quiet::{
    clear_of, hides_no_label, lemma_attestation_head_is_quiet, lemma_lacks_char,
    lemma_marked_is_unlabelled, lemma_marked_lacks, marked, one_line, quiet, unlabelled,
};
use crate::text::{
    contains, first_at, is_white_space, lemma_first_at_unique, line_length, lines, occurs_at,
    trim_end, trim_start, without_return,
};
use vstd::prelude::*;

verus! {

/// A line feed ends the line before it.
proof fn lemma_line_length(line: Seq<char>, rest: Seq<char>)
    requires
        forall|i: int| 0 <= i < line.len() ==> line[i] != '\n',
    ensures
        line_length(line + seq!['\n'] + rest) == line.len(),
    decreases line.len(),
{
    let text = line + seq!['\n'] + rest;
    if line.len() > 0 {
        lemma_line_length(line.skip(1), rest);
        assert(text.skip(1) =~= line.skip(1) + seq!['\n'] + rest);
        assert(text[0] == line[0]);
    } else {
        assert(text[0] == '\n');
    }
}

/// The lines of what was printed are the lines that were printed.
pub proof fn law_printed_lines_read_back(printed: Seq<Seq<char>>)
    requires
        forall|k: int| 0 <= k < printed.len() ==> one_line(#[trigger] printed[k]),
    ensures
        lines(console(printed)) == printed,
    decreases printed.len(),
{
    if printed.len() > 0 {
        let first = printed[0];
        let rest = printed.skip(1);
        let text = console(printed);
        assert forall|k: int| 0 <= k < rest.len() implies one_line(#[trigger] rest[k]) by {
            assert(rest[k] == printed[k + 1]);
        }
        law_printed_lines_read_back(rest);
        lemma_line_length(first, console(rest));
        assert(text.take(first.len() as int) =~= first);
        assert(text.skip(first.len() as int + 1) =~= console(rest));
        assert(without_return(first) == first);
        assert(lines(text) =~= seq![first] + lines(console(rest)));
        assert(seq![first] + rest =~= printed);
    }
}

/// Printing two lists of lines puts one text behind the other.
pub(crate) proof fn lemma_console_concat(a: Seq<Seq<char>>, b: Seq<Seq<char>>)
    ensures
        console(a + b) == console(a) + console(b),
    decreases a.len(),
{
    if a.len() > 0 {
        lemma_console_concat(a.skip(1), b);
        assert((a + b).skip(1) =~= a.skip(1) + b);
        assert(console(a + b) =~= console(a) + console(b));
    } else {
        assert(a + b =~= b);
        assert(console(a) + console(b) =~= console(b));
    }
}

/// What was printed ends in a line feed.
pub(crate) proof fn lemma_console_last(a: Seq<Seq<char>>)
    requires
        a.len() > 0,
    ensures
        console(a).len() > 0,
        console(a).last() == '\n',
    decreases a.len(),
{
    if a.len() > 1 {
        lemma_console_last(a.skip(1));
    } else {
        assert(console(a.skip(1)) =~= Seq::<char>::empty());
    }
}

/// A pattern that stands in a part of a text stands in the text.
proof fn lemma_contains_part(a: Seq<char>, b: Seq<char>, c: Seq<char>, pat: Seq<char>)
    requires
        contains(b, pat),
    ensures
        contains(a + b + c, pat),
{
    let i = choose|i: int| occurs_at(b, pat, i);
    assert((a + b + c).subrange(a.len() + i, a.len() + i + pat.len()) =~= b.subrange(
        i,
        i + pat.len(),
    ));
    assert(occurs_at(a + b + c, pat, a.len() + i));
}

/// A text that starts with a pattern behind a mark holds the pattern.
pub(crate) proof fn lemma_marked_contains(mark: Seq<char>, pat: Seq<char>, rest: Seq<char>)
    ensures
        contains(mark + (pat + rest), pat),
{
    let text = mark + (pat + rest);
    assert(text.subrange(mark.len() as int, (mark.len() + pat.len()) as int) =~= pat);
    assert(occurs_at(text, pat, mark.len() as int));
}

/// A pattern that stands in a line stands in what was printed.
pub(crate) proof fn lemma_console_contains(printed: Seq<Seq<char>>, k: int, pat: Seq<char>)
    requires
        0 <= k < printed.len(),
        contains(printed[k], pat),
    ensures
        contains(console(printed), pat),
    decreases printed.len(),
{
    let rest = console(printed.skip(1));
    let head = printed[0] + seq!['\n'];
    if k == 0 {
        lemma_contains_part(Seq::empty(), printed[0], seq!['\n'] + rest, pat);
        assert(Seq::<char>::empty() + printed[0] + (seq!['\n'] + rest) =~= console(printed));
    } else {
        lemma_console_contains(printed.skip(1), k - 1, pat);
        lemma_contains_part(head, rest, Seq::empty(), pat);
        assert(head + rest + Seq::<char>::empty() =~= console(printed));
    }
}

/// The pattern can stand on a line: it holds no line feed and is not empty.
pub(crate) open spec fn line_pattern(pat: Seq<char>) -> bool {
    &&& pat.len() > 0
    &&& forall|i: int| 0 <= i < pat.len() ==> pat[i] != '\n'
}

/// An occurrence of a pattern does not reach over a line feed.
pub(crate) proof fn lemma_occurrence_within(a: Seq<char>, b: Seq<char>, pat: Seq<char>, i: int)
    requires
        line_pattern(pat),
        a.len() > 0,
        a.last() == '\n',
        occurs_at(a + b, pat, i),
    ensures
        i + pat.len() < a.len() ==> occurs_at(a, pat, i) && occurs_at(a.drop_last(), pat, i),
        i + pat.len() >= a.len() ==> i >= a.len() && occurs_at(b, pat, i - a.len()),
{
    let text = a + b;
    if i + pat.len() < a.len() {
        assert(a.subrange(i, i + pat.len()) =~= text.subrange(i, i + pat.len()));
        assert(a.drop_last().subrange(i, i + pat.len()) =~= text.subrange(i, i + pat.len()));
    } else {
        if i < a.len() {
            let k = a.len() - 1 - i;
            assert(text.subrange(i, i + pat.len())[k] == text[a.len() - 1]);
            assert(pat[k] == '\n');
        }
        assert(b.subrange(i - a.len(), i - a.len() + pat.len()) =~= text.subrange(
            i,
            i + pat.len(),
        ));
    }
}

/// A pattern that stands in no line stands nowhere in what was printed.
pub(crate) proof fn lemma_console_lacks(printed: Seq<Seq<char>>, pat: Seq<char>)
    requires
        line_pattern(pat),
        forall|k: int| 0 <= k < printed.len() ==> !contains(#[trigger] printed[k], pat),
    ensures
        !contains(console(printed), pat),
    decreases printed.len(),
{
    if printed.len() > 0 {
        let rest = printed.skip(1);
        let head = printed[0] + seq!['\n'];
        assert forall|k: int| 0 <= k < rest.len() implies !contains(#[trigger] rest[k], pat) by {
            assert(rest[k] == printed[k + 1]);
        }
        lemma_console_lacks(rest, pat);
        assert(head.drop_last() =~= printed[0]);
        assert forall|i: int| !occurs_at(console(printed), pat, i) by {
            if occurs_at(console(printed), pat, i) {
                lemma_occurrence_within(head, console(rest), pat, i);
                assert(contains(printed[0], pat) || contains(console(rest), pat));
            }
        }
    }
}

/// Hex text holds hexadecimal digits.
proof fn lemma_hex_chars(s: Seq<char>, i: int)
    requires
        is_hex(s),
        0 <= i < s.len(),
    ensures
        hex_digit(s[i]) is Some,
{
    let k = i / 2;
    assert(hex_pair(s[2 * k], s[2 * k + 1]) is Some);
}

/// Hex text behind a label fits on one line if the label does.
proof fn lemma_hex_line(label: Seq<char>, hex: Seq<char>)
    requires
        is_hex(hex),
        hex.len() > 0,
        forall|i: int| 0 <= i < label.len() ==> label[i] != '\n',
    ensures
        one_line(label + hex),
{
    let line = label + hex;
    assert forall|i: int| 0 <= i < line.len() implies line[i] != '\n' by {
        if i >= label.len() {
            lemma_hex_chars(hex, i - label.len());
        }
    }
    lemma_hex_chars(hex, hex.len() - 1);
    assert(line.last() == hex[hex.len() - 1]);
}

/// The character does not occur in hex text.
spec fn not_hex(c: char) -> bool {
    hex_digit(c) is None
}

/// A pattern does not stand in a line that shows hex text if one of its
/// characters is no hex and not in the label either.
proof fn lemma_hex_line_lacks(label: Seq<char>, hex: Seq<char>, pat: Seq<char>, k: int)
    requires
        is_hex(hex),
        0 <= k < pat.len(),
        not_hex(pat[k]),
        forall|i: int| 0 <= i < label.len() ==> label[i] != pat[k],
    ensures
        !contains(label + hex, pat),
{
    let line = label + hex;
    assert forall|i: int| 0 <= i < line.len() implies line[i] != pat[k] by {
        if i >= label.len() {
            lemma_hex_chars(hex, i - label.len());
        }
    }
    lemma_lacks_char(line, pat, k);
}

/// Hex text behind blanks is what is left of it once it is trimmed.
proof fn lemma_trim_hex(blanks: Seq<char>, hex: Seq<char>)
    requires
        forall|i: int| 0 <= i < blanks.len() ==> is_white_space(#[trigger] blanks[i]),
        is_hex(hex),
        hex.len() > 0,
    ensures
        value_text(blanks + hex) == Some(hex),
    decreases blanks.len(),
{
    if blanks.len() > 0 {
        lemma_trim_hex(blanks.skip(1), hex);
        assert(is_white_space(blanks[0]));
        assert((blanks + hex)[0] == blanks[0]);
        assert((blanks + hex).skip(1) =~= blanks.skip(1) + hex);
    } else {
        assert(blanks + hex =~= hex);
        lemma_hex_chars(hex, 0);
        lemma_hex_chars(hex, hex.len() - 1);
        assert(trim_start(hex) == hex);
        assert(trim_end(hex) == hex);
    }
}

/// Lines without a label do not change what is found under it.
proof fn lemma_value_behind(before: Seq<Seq<char>>, rest: Seq<Seq<char>>, label: Seq<char>)
    requires
        forall|k: int| 0 <= k < before.len() ==> !contains(#[trigger] before[k], label),
    ensures
        value_in(before + rest, label) == value_in(rest, label),
    decreases before.len(),
{
    if before.len() > 0 {
        assert(!contains(before[0], label));
        assert forall|k: int| 0 <= k < before.skip(1).len() implies !contains(
            #[trigger] before.skip(1)[k],
            label,
        ) by {
            assert(before.skip(1)[k] == before[k + 1]);
        }
        lemma_value_behind(before.skip(1), rest, label);
        assert((before + rest)[0] == before[0]);
        assert((before + rest).skip(1) =~= before.skip(1) + rest);
    } else {
        assert(before + rest =~= rest);
    }
}

/// On the first line that holds a label, blanks and hex text behind the label are
/// the value. A mark in which the label does not start may come before the label.
proof fn lemma_labelled_value(
    printed: Seq<Seq<char>>,
    k: int,
    mark: Seq<char>,
    label: Seq<char>,
    blanks: Seq<char>,
    hex: Seq<char>,
)
    requires
        0 <= k < printed.len(),
        forall|j: int| 0 <= j < k ==> !contains(#[trigger] printed[j], label),
        printed[k] == mark + (label + blanks + hex),
        forall|i: int| 0 <= i < mark.len() ==> !occurs_at(printed[k], label, i),
        forall|i: int| 0 <= i < blanks.len() ==> is_white_space(#[trigger] blanks[i]),
        is_hex(hex),
        hex.len() > 0,
    ensures
        value_in(printed, label) == Some(hex),
{
    let before = printed.take(k);
    let rest = printed.skip(k);
    assert(before + rest =~= printed);
    assert forall|j: int| 0 <= j < before.len() implies !contains(
        #[trigger] before[j],
        label,
    ) by {
        assert(before[j] == printed[j]);
    }
    lemma_value_behind(before, rest, label);
    let line = printed[k];
    assert(rest[0] == line);
    let at = mark.len() as int;
    assert(line.subrange(at, at + label.len()) =~= label);
    assert(first_at(line, label, at));
    lemma_first_at_unique(line, label, at);
    assert(line.skip(at + label.len()) =~= blanks + hex);
    lemma_trim_hex(blanks, hex);
}

/// A line ends before the first line feed, and what is put behind a line feed does
/// not change that.
proof fn lemma_line_end(text: Seq<char>, more: Seq<char>)
    ensures
        line_length(text) <= text.len(),
        line_length(text) < text.len() ==> text[line_length(text) as int] == '\n',
        line_length(text) < text.len() ==> line_length(text + more) == line_length(text),
        text.len() > 0 && text.last() == '\n' ==> line_length(text) < text.len(),
    decreases text.len(),
{
    if text.len() > 0 && text[0] != '\n' {
        let rest = text.skip(1);
        lemma_line_end(rest, more);
        assert((text + more).skip(1) =~= rest + more);
        if text.last() == '\n' {
            assert(rest.len() > 0 && rest.last() == '\n');
        }
    }
}

/// What follows a line feed is split into lines on its own.
proof fn lemma_lines_concat(text: Seq<char>, more: Seq<char>)
    requires
        text.len() > 0 ==> text.last() == '\n',
    ensures
        lines(text + more) == lines(text) + lines(more),
    decreases text.len(),
{
    if text.len() == 0 {
        assert(text + more =~= more);
        assert(lines(text) + lines(more) =~= lines(more));
    } else {
        lemma_line_end(text, more);
        let n = line_length(text) as int;
        let rest = text.skip(n + 1);
        lemma_lines_concat(rest, more);
        assert((text + more).take(n) =~= text.take(n));
        assert((text + more).skip(n + 1) =~= rest + more);
        let first = seq![without_return(text.take(n))];
        assert(first + (lines(rest) + lines(more)) =~= first + lines(rest) + lines(more));
    }
}

/// A pattern that stands in a text stands in one of its lines.
proof fn lemma_some_line_contains(text: Seq<char>, pat: Seq<char>) -> (k: int)
    requires
        line_pattern(pat),
        pat.last() != '\r',
        contains(text, pat),
    ensures
        0 <= k < lines(text).len(),
        contains(lines(text)[k], pat),
    decreases text.len(),
{
    lemma_line_end(text, Seq::empty());
    let n = line_length(text) as int;
    let i = choose|i: int| occurs_at(text, pat, i);
    if n < text.len() {
        let head = text.take(n + 1);
        let rest = text.skip(n + 1);
        assert(head + rest =~= text);
        lemma_occurrence_within(head, rest, pat, i);
        if i + pat.len() < head.len() {
            let line = text.take(n);
            assert(head.drop_last() =~= line);
            assert(line.subrange(i, i + pat.len()).last() == line[i + pat.len() - 1]);
            let kept = without_return(line);
            assert(kept.subrange(i, i + pat.len()) =~= line.subrange(i, i + pat.len()));
            assert(occurs_at(kept, pat, i));
            0
        } else {
            assert(contains(rest, pat));
            1 + lemma_some_line_contains(rest, pat)
        }
    } else {
        0
    }
}

/// Lines behind one that holds a label do not change what is found under it.
proof fn lemma_value_in_front(
    front: Seq<Seq<char>>,
    rest: Seq<Seq<char>>,
    label: Seq<char>,
    k: int,
)
    requires
        0 <= k < front.len(),
        contains(front[k], label),
    ensures
        value_in(front + rest, label) == value_in(front, label),
    decreases front.len(),
{
    assert((front + rest)[0] == front[0]);
    if !contains(front[0], label) {
        lemma_value_in_front(front.skip(1), rest, label, k - 1);
        assert((front + rest).skip(1) =~= front.skip(1) + rest);
    }
}

/// Once a line with a label has been printed, later output does not change what
/// is found under the label.
pub proof fn law_later_output_changes_no_field(log: Seq<char>, more: Seq<char>, label: Seq<char>)
    requires
        log.len() > 0,
        log.last() == '\n',
        contains(log, label),
        label.len() > 0,
        forall|i: int| 0 <= i < label.len() ==> label[i] != '\n' && label[i] != '\r',
    ensures
        field_value(log + more, label) == field_value(log, label),
{
    let k = lemma_some_line_contains(log, label);
    lemma_lines_concat(log, more);
    lemma_value_in_front(lines(log), lines(more), label, k);
}

/// The log ends with a whole line, and each of the three labels stands in it.
pub open spec fn holds_fields(log: Seq<char>) -> bool {
    &&& log.len() > 0
    &&& log.last() == '\n'
    &&& contains(log, "payload:"@)
    &&& contains(log, "pubkey:"@)
    &&& contains(log, "signature:"@)
}

/// Once all fields have been printed, later output does not change what
/// `parse_log` returns.
pub proof fn law_later_output_changes_no_attestation(log: Seq<char>, more: Seq<char>)
    requires
        holds_fields(log),
    ensures
        parsed(log + more) == parsed(log),
{
    reveal_strlit("payload:");
    reveal_strlit("pubkey:");
    reveal_strlit("signature:");
    law_later_output_changes_no_field(log, more, "payload:"@);
    law_later_output_changes_no_field(log, more, "pubkey:"@);
    law_later_output_changes_no_field(log, more, "signature:"@);
}

/// The report can be read back: its three hex texts are hex, the key and the
/// signature have their lengths, and the payload is not empty.
pub open spec fn readable(report: AttestationReport) -> bool {
    &&& is_hex(report.payload_hex@)
    &&& report.payload_hex@.len() > 0
    &&& is_hex(report.public_key_hex@)
    &&& report.public_key_hex@.len() == 2 * PUBLIC_KEY_LEN
    &&& is_hex(report.signature_hex@)
    &&& report.signature_hex@.len() == 2 * SIGNATURE_LEN
}

/// The bytes that a report shows.
pub open spec fn report_bytes(report: AttestationReport) -> AttestationBytes {
    AttestationBytes {
        payload: unhexed(report.payload_hex@)->0,
        public_key: unhexed(report.public_key_hex@)->0,
        signature: unhexed(report.signature_hex@)->0,
    }
}

/// A report that shows an attestation in lower-case hex can be read back, and
/// shows the bytes of that attestation.
pub proof fn law_hex_report_is_readable(report: AttestationReport, a: AttestationBytes)
    requires
        report.payload_hex@ == hex_text(a.payload),
        report.public_key_hex@ == hex_text(a.public_key),
        report.signature_hex@ == hex_text(a.signature),
        a.payload.len() > 0,
        a.public_key.len() == PUBLIC_KEY_LEN,
        a.signature.len() == SIGNATURE_LEN,
    ensures
        readable(report),
        report_bytes(report) == a,
{
    law_hex_text_reads_back(a.payload);
    law_hex_text_reads_back(a.public_key);
    law_hex_text_reads_back(a.signature);
}

/// The last three lines of a printed attestation are a label, blanks and hex text.
proof fn lemma_report_labels(report: AttestationReport)
    ensures
        attestation_texts(report)[3] == "payload:"@ + seq![' ', ' ', ' '] + report.payload_hex@,
        attestation_texts(report)[4] == "pubkey:"@ + seq![' ', ' ', ' ', ' ']
            + report.public_key_hex@,
        attestation_texts(report)[5] == "signature:"@ + seq![' '] + report.signature_hex@,
{
    reveal_strlit("payload:");
    reveal_strlit("pubkey:");
    reveal_strlit("signature:");
    reveal_strlit("payload:   ");
    reveal_strlit("pubkey:    ");
    reveal_strlit("signature: ");
    assert("payload:   "@ =~= "payload:"@ + seq![' ', ' ', ' ']);
    assert("pubkey:    "@ =~= "pubkey:"@ + seq![' ', ' ', ' ', ' ']);
    assert("signature: "@ =~= "signature:"@ + seq![' ']);
}

/// Each line of a printed attestation fits on a line, and no label stands in it
/// that belongs on a later one.
proof fn lemma_report_lines(mark: Seq<char>, report: AttestationReport)
    requires
        hides_no_label(mark, attestation_texts(report)),
        readable(report),
    ensures
        forall|k: int|
            0 <= k < 6 ==> {
                let line = mark + #[trigger] attestation_texts(report)[k];
                &&& one_line(line)
                &&& k < 3 ==> !contains(line, "payload:"@)
                &&& k < 4 ==> !contains(line, "pubkey:"@)
                &&& k < 5 ==> !contains(line, "signature:"@)
            },
{
    let texts = attestation_texts(report);
    reveal_strlit("pubkey:");
    reveal_strlit("signature:");
    reveal_strlit("payload:   ");
    reveal_strlit("pubkey:    ");
    reveal_strlit("signature: ");
    lemma_attestation_head_is_quiet(report);
    lemma_hex_line("payload:   "@, report.payload_hex@);
    lemma_hex_line("pubkey:    "@, report.public_key_hex@);
    lemma_hex_line("signature: "@, report.signature_hex@);
    lemma_hex_line_lacks("payload:   "@, report.payload_hex@, "pubkey:"@, 3);
    lemma_hex_line_lacks("payload:   "@, report.payload_hex@, "signature:"@, 2);
    lemma_hex_line_lacks("pubkey:    "@, report.public_key_hex@, "signature:"@, 2);
    assert forall|k: int| 0 <= k < 6 implies {
        let line = mark + #[trigger] texts[k];
        &&& one_line(line)
        &&& k < 3 ==> !contains(line, "payload:"@)
        &&& k < 4 ==> !contains(line, "pubkey:"@)
        &&& k < 5 ==> !contains(line, "signature:"@)
    } by {
        assert(one_line(texts[k]));
        if k < 3 {
            lemma_marked_is_unlabelled(mark, texts, k);
        } else if k == 3 {
            lemma_marked_lacks(mark, texts, "pubkey:"@, k);
            lemma_marked_lacks(mark, texts, "signature:"@, k);
        } else if k == 4 {
            lemma_marked_lacks(mark, texts, "signature:"@, k);
        }
    }
}

/// A printed attestation holds all fields.
pub(crate) proof fn lemma_report_holds_fields(
    before: Seq<Seq<char>>,
    mark: Seq<char>,
    report: AttestationReport,
)
    ensures
        holds_fields(console(before + marked(mark, attestation_texts(report)))),
{
    let texts = attestation_texts(report);
    let printed = before + marked(mark, texts);
    let at = before.len() as int;
    lemma_report_labels(report);
    let payload = seq![' ', ' ', ' '] + report.payload_hex@;
    let public_key = seq![' ', ' ', ' ', ' '] + report.public_key_hex@;
    let signature = seq![' '] + report.signature_hex@;
    assert(printed[at + 3] =~= mark + ("payload:"@ + payload));
    assert(printed[at + 4] =~= mark + ("pubkey:"@ + public_key));
    assert(printed[at + 5] =~= mark + ("signature:"@ + signature));
    lemma_marked_contains(mark, "payload:"@, payload);
    lemma_marked_contains(mark, "pubkey:"@, public_key);
    lemma_marked_contains(mark, "signature:"@, signature);
    lemma_console_contains(printed, at + 3, "payload:"@);
    lemma_console_contains(printed, at + 4, "pubkey:"@);
    lemma_console_contains(printed, at + 5, "signature:"@);
    lemma_console_last(printed);
}

/// What the device prints of an attestation is what the verifier reads: behind
/// lines without labels, and whatever follows, the parsed log holds the very
/// payload, key and signature that were printed. The capture may put a mark
/// before each line in which no label starts.
pub proof fn law_printed_attestation_parses(
    before: Seq<Seq<char>>,
    mark: Seq<char>,
    report: AttestationReport,
    after: Seq<char>,
)
    requires
        forall|k: int| 0 <= k < before.len() ==> unlabelled(#[trigger] before[k]),
        hides_no_label(mark, attestation_texts(report)),
        readable(report),
    ensures
        parsed(console(before + marked(mark, attestation_texts(report))) + after) == Ok::<
            AttestationBytes,
            Error,
        >(report_bytes(report)),
{
    let texts = attestation_texts(report);
    let printed = before + marked(mark, texts);
    let at = before.len() as int;
    lemma_report_lines(mark, report);
    assert forall|k: int| 0 <= k < printed.len() implies one_line(#[trigger] printed[k]) by {
        if k < at {
            assert(printed[k] == before[k]);
        } else {
            assert(printed[k] == mark + texts[k - at]);
        }
    }
    law_printed_lines_read_back(printed);
    assert forall|j: int| 0 <= j < at + 5 implies {
        &&& j < at + 3 ==> !contains(#[trigger] printed[j], "payload:"@)
        &&& j < at + 4 ==> !contains(printed[j], "pubkey:"@)
        &&& !contains(printed[j], "signature:"@)
    } by {
        if j < at {
            assert(printed[j] == before[j]);
        } else {
            assert(printed[j] == mark + texts[j - at]);
        }
    }
    assert(printed[at + 3] == mark + texts[3]);
    assert(printed[at + 4] == mark + texts[4]);
    assert(printed[at + 5] == mark + texts[5]);
    lemma_report_labels(report);
    let three = seq![' ', ' ', ' '];
    let four = seq![' ', ' ', ' ', ' '];
    let one = seq![' '];
    lemma_labelled_value(printed, at + 3, mark, "payload:"@, three, report.payload_hex@);
    lemma_labelled_value(printed, at + 4, mark, "pubkey:"@, four, report.public_key_hex@);
    lemma_labelled_value(printed, at + 5, mark, "signature:"@, one, report.signature_hex@);
    lemma_report_holds_fields(before, mark, report);
    law_later_output_changes_no_attestation(console(printed), after);
}

/// A printed attestation does not report an unexpected state.
pub(crate) proof fn lemma_report_is_expected(mark: Seq<char>, report: AttestationReport)
    requires
        clear_of(mark, attestation_texts(report), "UNEXPECTED"@),
        readable(report),
    ensures
        forall|k: int|
            0 <= k < 6 ==> !contains(mark + #[trigger] attestation_texts(report)[k], "UNEXPECTED"@),
{
    let texts = attestation_texts(report);
    reveal_strlit("UNEXPECTED");
    reveal_strlit("payload:   ");
    reveal_strlit("pubkey:    ");
    reveal_strlit("signature: ");
    lemma_attestation_head_is_quiet(report);
    lemma_hex_line_lacks("payload:   "@, report.payload_hex@, "UNEXPECTED"@, 3);
    lemma_hex_line_lacks("pubkey:    "@, report.public_key_hex@, "UNEXPECTED"@, 3);
    lemma_hex_line_lacks("signature: "@, report.signature_hex@, "UNEXPECTED"@, 3);
    assert forall|k: int| 0 <= k < 6 implies !contains(
        mark + #[trigger] texts[k],
        "UNEXPECTED"@,
    ) by {
        if k < 3 {
            assert(quiet(texts[k]));
        }
        lemma_marked_lacks(mark, texts, "UNEXPECTED"@, k);
    }
}

} // verus!
