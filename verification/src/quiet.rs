//! Lines of the device that tell a verifier nothing.

use crate::console::{
    attestation_texts, clock_failure_texts, clock_ok_text, closed_gate_text, cooldown_text,
    detail_text, open_gate_text, pins_note_text, pins_text, ready_texts, AttestationEvent,
    AttestationReport, ClockFailure, ClockReading, IsoTime, BUTTON_PIN, SCL_PIN, SDA_PIN,
};
use crate::decimal::{digits, lemma_digits, padded_digits};
use crate::run::boot_texts;
use crate::text::{contains, occurs_at};
use vstd::prelude::*;

verus! {

/// The text fits on one line: it holds no line feed, and it does not end in a
/// carriage return.
pub open spec fn one_line(s: Seq<char>) -> bool {
    &&& forall|i: int| 0 <= i < s.len() ==> s[i] != '\n'
    &&& s.len() > 0 ==> s.last() != '\r'
}

/// Something that a capture may put before each line, such as a log level. It
/// holds no line end.
pub open spec fn is_mark(mark: Seq<char>) -> bool {
    forall|i: int| 0 <= i < mark.len() ==> mark[i] != '\n' && mark[i] != '\r'
}

/// Lines as a capture shows them, each behind the mark.
pub open spec fn marked(mark: Seq<char>, lines: Seq<Seq<char>>) -> Seq<Seq<char>> {
    lines.map_values(|line: Seq<char>| mark + line)
}

/// When the lines are shown behind the mark, the pattern starts nowhere inside
/// the mark.
pub open spec fn clear_of(mark: Seq<char>, lines: Seq<Seq<char>>, pat: Seq<char>) -> bool {
    forall|k: int, i: int|
        0 <= k < lines.len() && 0 <= i < mark.len() ==> !#[trigger] occurs_at(
            mark + lines[k],
            pat,
            i,
        )
}

/// When the lines are shown behind the mark, no label starts inside the mark.
pub open spec fn hides_no_label(mark: Seq<char>, lines: Seq<Seq<char>>) -> bool {
    &&& is_mark(mark)
    &&& clear_of(mark, lines, "payload:"@)
    &&& clear_of(mark, lines, "pubkey:"@)
    &&& clear_of(mark, lines, "signature:"@)
}

/// When the lines are shown behind the mark, no label starts inside the mark, nor
/// does a report of an unexpected gate.
pub open spec fn unobtrusive(mark: Seq<char>, lines: Seq<Seq<char>>) -> bool {
    &&& hides_no_label(mark, lines)
    &&& clear_of(mark, lines, "UNEXPECTED"@)
}

/// What a line lacks it also lacks behind a mark in which the pattern does not
/// start.
pub(crate) proof fn lemma_marked_lacks(
    mark: Seq<char>,
    lines: Seq<Seq<char>>,
    pat: Seq<char>,
    k: int,
)
    requires
        0 <= k < lines.len(),
        clear_of(mark, lines, pat),
        !contains(lines[k], pat),
    ensures
        !contains(mark + lines[k], pat),
{
    let line = lines[k];
    let text = mark + line;
    assert forall|i: int| !occurs_at(text, pat, i) by {
        if occurs_at(text, pat, i) && i >= mark.len() {
            let j = i - mark.len();
            assert(line.subrange(j, j + pat.len()) =~= text.subrange(i, i + pat.len()));
            assert(occurs_at(line, pat, j));
        }
    }
}

/// A pattern does not stand in a text that lacks one of its characters.
pub(crate) proof fn lemma_lacks_char(text: Seq<char>, pat: Seq<char>, k: int)
    requires
        0 <= k < pat.len(),
        forall|i: int| 0 <= i < text.len() ==> text[i] != pat[k],
    ensures
        !contains(text, pat),
{
    assert forall|i: int| !occurs_at(text, pat, i) by {
        if occurs_at(text, pat, i) {
            assert(text.subrange(i, i + pat.len())[k] == text[i + k]);
        }
    }
}

/// A pattern does not stand in a text that lacks two of its characters in a row.
pub(crate) proof fn lemma_lacks_pair(text: Seq<char>, pat: Seq<char>, k: int)
    requires
        0 <= k < pat.len() - 1,
        forall|i: int, j: int|
            0 <= i && j == i + 1 && j < text.len() ==> !(text[i] == pat[k] && text[j] == pat[k
                + 1]),
    ensures
        !contains(text, pat),
{
    assert forall|i: int| !occurs_at(text, pat, i) by {
        if occurs_at(text, pat, i) {
            assert(text.subrange(i, i + pat.len())[k] == text[i + k]);
            assert(text.subrange(i, i + pat.len())[k + 1] == text[i + k + 1]);
        }
    }
}

/// The text fits on one line, and no label stands in it.
pub open spec fn unlabelled(line: Seq<char>) -> bool {
    &&& one_line(line)
    &&& !contains(line, "payload:"@)
    &&& !contains(line, "pubkey:"@)
    &&& !contains(line, "signature:"@)
}

/// The line tells a verifier nothing: no label stands in it, nor does a report
/// of an unexpected gate.
pub open spec fn quiet(line: Seq<char>) -> bool {
    &&& unlabelled(line)
    &&& !contains(line, "UNEXPECTED"@)
}

/// A line without labels has none behind a mark that hides none.
pub(crate) proof fn lemma_marked_is_unlabelled(mark: Seq<char>, lines: Seq<Seq<char>>, k: int)
    requires
        0 <= k < lines.len(),
        hides_no_label(mark, lines),
        unlabelled(lines[k]),
    ensures
        unlabelled(mark + lines[k]),
{
    lemma_marked_lacks(mark, lines, "payload:"@, k);
    lemma_marked_lacks(mark, lines, "pubkey:"@, k);
    lemma_marked_lacks(mark, lines, "signature:"@, k);
}

/// A quiet line is quiet behind an unobtrusive mark.
pub(crate) proof fn lemma_marked_is_quiet(mark: Seq<char>, lines: Seq<Seq<char>>, k: int)
    requires
        0 <= k < lines.len(),
        unobtrusive(mark, lines),
        quiet(lines[k]),
    ensures
        quiet(mark + lines[k]),
{
    lemma_marked_is_unlabelled(mark, lines, k);
    lemma_marked_lacks(mark, lines, "UNEXPECTED"@, k);
}

/// A pattern does not start inside a mark that lacks its first character.
proof fn lemma_clear_of(mark: Seq<char>, lines: Seq<Seq<char>>, pat: Seq<char>)
    requires
        pat.len() > 0,
        forall|i: int| 0 <= i < mark.len() ==> mark[i] != pat[0],
    ensures
        clear_of(mark, lines, pat),
{
    assert forall|k: int, i: int|
        0 <= k < lines.len() && 0 <= i < mark.len() implies !#[trigger] occurs_at(
        mark + lines[k],
        pat,
        i,
    ) by {
        let text = mark + lines[k];
        if occurs_at(text, pat, i) {
            assert(text.subrange(i, i + pat.len())[0] == mark[i]);
        }
    }
}

/// A mark without line ends and without the letters `g`, `p`, `s` and `U` is
/// unobtrusive before any lines, and it does not say that the entropy gate is open.
pub proof fn law_marks_without_initials_are_unobtrusive(mark: Seq<char>, lines: Seq<Seq<char>>)
    requires
        is_mark(mark),
        forall|i: int|
            0 <= i < mark.len() ==> {
                let c = #[trigger] mark[i];
                c != 'g' && c != 'p' && c != 's' && c != 'U'
            },
    ensures
        unobtrusive(mark, lines),
        clear_of(mark, lines, "gate open"@),
{
    reveal_strlit("payload:");
    reveal_strlit("pubkey:");
    reveal_strlit("signature:");
    reveal_strlit("UNEXPECTED");
    reveal_strlit("gate open");
    lemma_clear_of(mark, lines, "payload:"@);
    lemma_clear_of(mark, lines, "pubkey:"@);
    lemma_clear_of(mark, lines, "signature:"@);
    lemma_clear_of(mark, lines, "UNEXPECTED"@);
    lemma_clear_of(mark, lines, "gate open"@);
}

/// The two characters are none of the pairs that give away a pattern that a
/// verifier looks for: each of these pairs stands in a pattern of its own.
spec fn plain_pair(a: char, b: char) -> bool {
    &&& !(a == 'y' && b == 'l')
    &&& !(a == 'b' && b == 'k')
    &&& !(a == 'g' && b == 'n')
    &&& !(a == 'X' && b == 'P')
}

/// A text that is free of line ends and of what sets the patterns apart.
spec fn plain(s: Seq<char>) -> bool {
    &&& forall|i: int| 0 <= i < s.len() ==> s[i] != '\n' && s[i] != '\r'
    &&& forall|i: int, j: int|
        #![trigger s[i], s[j]]
        0 <= i && j == i + 1 && j < s.len() ==> plain_pair(s[i], s[j])
}

/// Two plain texts that meet in a plain pair make a plain text.
proof fn lemma_plain_concat(a: Seq<char>, b: Seq<char>)
    requires
        plain(a),
        plain(b),
        a.len() > 0 && b.len() > 0 ==> plain_pair(a.last(), b[0]),
    ensures
        plain(a + b),
{
    let s = a + b;
    assert forall|i: int, j: int|
        #![trigger s[i], s[j]]
        0 <= i && j == i + 1 && j < s.len() implies plain_pair(s[i], s[j]) by {
        if j < a.len() {
            assert(s[i] == a[i] && s[j] == a[j]);
        } else if i >= a.len() {
            assert(s[i] == b[i - a.len()] && s[j] == b[j - a.len()]);
        }
    }
}

/// Plain text is quiet.
proof fn lemma_plain_is_quiet(text: Seq<char>)
    requires
        plain(text),
    ensures
        quiet(text),
{
    reveal_strlit("payload:");
    reveal_strlit("pubkey:");
    reveal_strlit("signature:");
    reveal_strlit("UNEXPECTED");
    lemma_lacks_pair(text, "payload:"@, 2);
    lemma_lacks_pair(text, "pubkey:"@, 2);
    lemma_lacks_pair(text, "signature:"@, 2);
    lemma_lacks_pair(text, "UNEXPECTED"@, 3);
}

/// Digits with leading zeros are digits.
proof fn lemma_padded_digits(n: nat, width: nat)
    ensures
        padded_digits(n, width).len() > 0,
        forall|i: int|
            0 <= i < padded_digits(n, width).len() ==> '0' <= #[trigger] padded_digits(
                n,
                width,
            )[i] <= '9',
{
    lemma_digits(n);
}

/// A number between plain texts leaves them plain.
proof fn lemma_plain_number(before: Seq<char>, n: nat, after: Seq<char>)
    requires
        plain(before),
        plain(after),
    ensures
        plain(before + digits(n) + after),
{
    lemma_digits(n);
    lemma_plain_concat(before, digits(n));
    lemma_plain_concat(before + digits(n), after);
}

/// A time holds digits, and what stands between them.
proof fn lemma_iso_time(time: IsoTime)
    ensures
        time.text().len() > 0,
        forall|i: int|
            0 <= i < time.text().len() ==> {
                let c = #[trigger] time.text()[i];
                '0' <= c <= '9' || c == '-' || c == ':' || c == 'T' || c == 'Z'
            },
{
    reveal_strlit("-");
    reveal_strlit(":");
    reveal_strlit("T");
    reveal_strlit("Z");
    lemma_padded_digits(time.0.year as nat, 4);
    lemma_padded_digits(time.0.month as nat, 2);
    lemma_padded_digits(time.0.day as nat, 2);
    lemma_padded_digits(time.0.hour as nat, 2);
    lemma_padded_digits(time.0.minute as nat, 2);
    lemma_padded_digits(time.0.second as nat, 2);
}

/// What a boot with a working entropy gate prints first is quiet.
pub(crate) proof fn lemma_boot_is_quiet()
    ensures
        forall|k: int| 0 <= k < 6 ==> quiet(#[trigger] boot_texts(false, true)[k]),
{
    reveal_strlit("IceSickle no_std firmware");
    reveal_strlit("esp_hal::init done");
    reveal_strlit("gate holds: no true entropy available before TrngSource exists");
    reveal_strlit("TrngSource live: SAR-ADC entropy enabled, radio off");
    reveal_strlit("gate open: true entropy available");
    reveal_strlit("note: I2C pins are UNCONFIRMED against the schematic: ");
    reveal_strlit("SDA=GPIO");
    reveal_strlit(" SCL=GPIO");
    let boot = boot_texts(false, true);
    assert(plain("IceSickle no_std firmware"@));
    assert(plain("esp_hal::init done"@));
    assert(plain(closed_gate_text(false)));
    assert(plain("TrngSource live: SAR-ADC entropy enabled, radio off"@));
    assert(plain(open_gate_text(true)));
    assert(plain(pins_note_text())) by {
        lemma_plain_number("SDA=GPIO"@, SDA_PIN as nat, " SCL=GPIO"@);
        lemma_plain_number(
            "SDA=GPIO"@ + digits(SDA_PIN as nat) + " SCL=GPIO"@,
            SCL_PIN as nat,
            Seq::empty(),
        );
        assert("SDA=GPIO"@ + digits(SDA_PIN as nat) + " SCL=GPIO"@ + digits(SCL_PIN as nat)
            + Seq::<char>::empty() =~= pins_text());
        assert(pins_text()[0] == 'S');
        lemma_plain_concat(
            "note: I2C pins are UNCONFIRMED against the schematic: "@,
            pins_text(),
        );
    }
    assert forall|k: int| 0 <= k < 6 implies quiet(#[trigger] boot[k]) by {
        lemma_plain_is_quiet(boot[k]);
    }
}

/// What the device says of a clock that it could read is quiet.
pub(crate) proof fn lemma_clock_ok_is_quiet(reading: ClockReading)
    ensures
        quiet(clock_ok_text(reading)),
{
    reveal_strlit("clock: OK   ");
    reveal_strlit(" (");
    reveal_strlit(" ms)");
    let time = IsoTime(reading.time).text();
    lemma_iso_time(IsoTime(reading.time));
    assert(plain(time)) by {
        assert forall|i: int, j: int|
            #![trigger time[i], time[j]]
            0 <= i && j == i + 1 && j < time.len() implies plain_pair(time[i], time[j]) by {
            assert('0' <= time[i] <= '9' || time[i] == '-' || time[i] == ':' || time[i] == 'T'
                || time[i] == 'Z');
        }
    }
    lemma_plain_concat("clock: OK   "@, time);
    lemma_plain_concat("clock: OK   "@ + time, " ("@);
    lemma_plain_number("clock: OK   "@ + time + " ("@, reading.unix_ms as nat, " ms)"@);
    lemma_plain_is_quiet(clock_ok_text(reading));
}

/// What a failure of the clock adds to the console is quiet.
pub open spec fn quiet_failure(failure: ClockFailure) -> bool {
    &&& quiet("  cause:  "@ + failure.cause@)
    &&& quiet("  action: "@ + failure.advice@)
    &&& quiet(detail_text(failure.detail))
}

/// The report on a quiet failure of the clock is quiet.
pub(crate) proof fn lemma_clock_failure_is_quiet(context: Seq<char>, failure: ClockFailure)
    requires
        context == "clock"@ || context == "attestation refused"@,
        quiet_failure(failure),
    ensures
        forall|k: int|
            0 <= k < 4 ==> quiet(#[trigger] clock_failure_texts(context, failure)[k]),
{
    reveal_strlit("clock");
    reveal_strlit("attestation refused");
    reveal_strlit(": clock unavailable");
    assert(plain(context));
    lemma_plain_concat(context, ": clock unavailable"@);
    lemma_plain_is_quiet(context + ": clock unavailable"@);
}

/// What the device says when it is ready for a press is quiet.
pub(crate) proof fn lemma_ready_is_quiet(held: bool)
    ensures
        forall|k: int|
            0 <= k < ready_texts(held).len() ==> quiet(#[trigger] ready_texts(held)[k]),
{
    reveal_strlit("note: trigger held at boot; a press requires releasing it first");
    reveal_strlit("ready: press GPIO");
    reveal_strlit(" to attest");
    assert(plain("note: trigger held at boot; a press requires releasing it first"@));
    lemma_plain_number("ready: press GPIO"@, BUTTON_PIN as nat, " to attest"@);
    assert forall|k: int| 0 <= k < ready_texts(held).len() implies quiet(
        #[trigger] ready_texts(held)[k],
    ) by {
        lemma_plain_is_quiet(ready_texts(held)[k]);
    }
}

/// What the device says to a press that came too early is quiet.
pub(crate) proof fn lemma_cooldown_is_quiet(remaining_ms: u64)
    ensures
        quiet(cooldown_text(remaining_ms)),
{
    reveal_strlit("cooldown: ");
    reveal_strlit(" ms remaining");
    lemma_plain_number("cooldown: "@, remaining_ms as nat, " ms remaining"@);
    lemma_plain_is_quiet(cooldown_text(remaining_ms));
}

/// The first three lines of an attestation are quiet.
pub(crate) proof fn lemma_attestation_head_is_quiet(report: AttestationReport)
    ensures
        forall|k: int| 0 <= k < 3 ==> quiet(#[trigger] attestation_texts(report)[k]),
{
    reveal_strlit("=== ATTESTATION ===");
    reveal_strlit("event:     ");
    reveal_strlit("ButtonPress { gpio: ");
    reveal_strlit(" }");
    reveal_strlit("timestamp: ");
    reveal_strlit(" (Unix ms)");
    let all = attestation_texts(report);
    assert(plain(all[0]));
    match report.event {
        AttestationEvent::ButtonPress { gpio } => {
            lemma_plain_number("ButtonPress { gpio: "@, gpio as nat, " }"@);
            assert(report.event.text()[0] == 'B');
            lemma_plain_concat("event:     "@, report.event.text());
        },
    }
    lemma_plain_number("timestamp: "@, report.timestamp_ms as nat, " (Unix ms)"@);
    assert forall|k: int| 0 <= k < 3 implies quiet(#[trigger] all[k]) by {
        lemma_plain_is_quiet(all[k]);
    }
}

} // verus!
