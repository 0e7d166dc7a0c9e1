//! Whole sessions: what a verifier finds in the log of a device.

use crate::attestation::{parsed, AttestationBytes, ATTESTATION_PAYLOAD_LEN};
use crate::checks::{check_outcome, log_outcome, verify_outcome};
use crate::console::{
    attestation_failed_text, attestation_texts, closed_gate_text, console, open_gate_text,
    AttestationReport,
};
use crate::device::Event;
use crate::ed25519::{is_public_key, signature_holds};
use crate::error::Error;
use crate::gate::gate_outcome;
use crate::quiet::{
    clear_of, lemma_boot_is_quiet, lemma_clock_failure_is_quiet, lemma_clock_ok_is_quiet,
    lemma_cooldown_is_quiet, lemma_lacks_pair, lemma_marked_is_quiet, lemma_marked_lacks,
    lemma_ready_is_quiet, marked, quiet, quiet_failure, unobtrusive,
};
use crate::readback::{
    holds_fields, law_later_output_changes_no_attestation, law_printed_attestation_parses,
    lemma_console_concat, lemma_console_contains, lemma_console_lacks, lemma_console_last,
    lemma_marked_contains, lemma_occurrence_within, lemma_report_holds_fields,
    lemma_report_is_expected, line_pattern, readable, report_bytes,
};
use crate::run::{boot_texts, is_run, last_step, law_boot_lines, printed, state_after};
use crate::text::{
    contains, first_at, first_occurrence, lemma_first_at_unique, lemma_first_occurrence, occurs_at,
};
use vstd::prelude::*;

verus! {

/// A log is accepted as an attestation if and only if each check accepts it: the
/// entropy gate behaved, the fields hold that attestation, its payload has the
/// fixed length, and its signature holds under its key over that very payload.
pub proof fn law_accepted_means_every_check(log: Seq<char>, a: AttestationBytes)
    ensures
        check_outcome(log) == Ok::<AttestationBytes, Error>(a) <==> {
            &&& gate_outcome(log) is Ok
            &&& parsed(log) == Ok::<AttestationBytes, Error>(a)
            &&& a.payload.len() == ATTESTATION_PAYLOAD_LEN
            &&& is_public_key(a.public_key)
            &&& signature_holds(a.public_key, a.payload, a.signature)
        },
{
}

/// A signature that holds under its key verifies, whatever the length of the
/// payload: that is judged by a check of its own.
pub proof fn law_valid_signature_verifies(a: AttestationBytes)
    requires
        is_public_key(a.public_key),
        signature_holds(a.public_key, a.payload, a.signature),
    ensures
        verify_outcome(a) is Ok,
{
}

/// A fault of the entropy gate outweighs everything else that a log holds.
pub proof fn law_gate_fault_comes_first(log: Seq<char>, e: Error)
    requires
        gate_outcome(log) == Err::<(), Error>(e),
    ensures
        check_outcome(log) == Err::<AttestationBytes, Error>(e),
{
}

/// If the pattern stands in the first of two texts, its first occurrence there is
/// its first occurrence in both.
proof fn lemma_first_in_front(a: Seq<char>, b: Seq<char>, pat: Seq<char>)
    requires
        contains(a, pat),
    ensures
        contains(a + b, pat),
        first_occurrence(a + b, pat) == first_occurrence(a, pat),
        first_occurrence(a, pat) matches Some(i) && occurs_at(a, pat, i),
{
    lemma_first_occurrence(a, pat);
    let i = first_occurrence(a, pat)->0;
    assert((a + b).subrange(i, i + pat.len()) =~= a.subrange(i, i + pat.len()));
    assert forall|j: int| 0 <= j < i implies !occurs_at(a + b, pat, j) by {
        if occurs_at(a + b, pat, j) {
            assert((a + b).subrange(j, j + pat.len()) =~= a.subrange(j, j + pat.len()));
            assert(occurs_at(a, pat, j));
        }
    }
    assert(first_at(a + b, pat, i));
    lemma_first_at_unique(a + b, pat, i);
}

/// If the pattern stands only in the second of two printed texts, its first
/// occurrence in both lies there.
proof fn lemma_first_behind(a: Seq<char>, b: Seq<char>, pat: Seq<char>)
    requires
        line_pattern(pat),
        a.len() > 0,
        a.last() == '\n',
        !contains(a, pat),
        contains(b, pat),
    ensures
        first_occurrence(a + b, pat) matches Some(i) && i >= a.len(),
{
    let k = choose|k: int| occurs_at(b, pat, k);
    assert((a + b).subrange(a.len() + k, a.len() + k + pat.len()) =~= b.subrange(
        k,
        k + pat.len(),
    ));
    assert(occurs_at(a + b, pat, a.len() + k));
    lemma_first_occurrence(a + b, pat);
    let i = first_occurrence(a + b, pat)->0;
    lemma_occurrence_within(a, b, pat, i);
}

/// What a boot prints before its entropy source is live does not say that the
/// entropy gate is open.
proof fn lemma_not_open_yet(line: Seq<char>)
    requires
        line == "IceSickle no_std firmware"@ || line == "esp_hal::init done"@ || line
            == closed_gate_text(false),
    ensures
        !contains(line, "gate open"@),
{
    reveal_strlit("gate open");
    reveal_strlit("IceSickle no_std firmware");
    reveal_strlit("esp_hal::init done");
    reveal_strlit("gate holds: no true entropy available before TrngSource exists");
    lemma_lacks_pair(line, "gate open"@, 4);
}

/// What a boot with a working entropy gate prints of it.
proof fn lemma_gate_lines(mark: Seq<char>)
    ensures
        contains(mark + closed_gate_text(false), "gate holds"@),
        contains(mark + open_gate_text(true), "gate open"@),
{
    reveal_strlit("gate holds");
    reveal_strlit("gate open");
    reveal_strlit("gate holds: no true entropy available before TrngSource exists");
    reveal_strlit("gate open: true entropy available");
    let held = closed_gate_text(false);
    let opened = open_gate_text(true);
    assert(held =~= "gate holds"@ + held.skip(10));
    lemma_marked_contains(mark, "gate holds"@, held.skip(10));
    assert(opened =~= "gate open"@ + opened.skip(9));
    lemma_marked_contains(mark, "gate open"@, opened.skip(9));
}

/// The patterns that `check_gate` looks for fit on a line.
proof fn lemma_gate_patterns()
    ensures
        line_pattern("UNEXPECTED"@),
        line_pattern("gate holds"@),
        line_pattern("gate open"@),
{
    reveal_strlit("UNEXPECTED");
    reveal_strlit("gate holds");
    reveal_strlit("gate open");
}

/// A boot whose entropy gate held before the entropy source came up, and was
/// open after, passes `check_gate`, whatever follows that does not report an
/// unexpected state. The capture may put a mark before each line in which no such
/// report starts, nor, before the entropy source is live, one of an open gate.
pub proof fn law_working_gate_passes(mark: Seq<char>, rest: Seq<Seq<char>>)
    requires
        clear_of(mark, boot_texts(false, true), "UNEXPECTED"@),
        clear_of(mark, boot_texts(false, true).take(3), "gate open"@),
        forall|k: int| 0 <= k < rest.len() ==> !contains(#[trigger] rest[k], "UNEXPECTED"@),
    ensures
        gate_outcome(console(marked(mark, boot_texts(false, true)) + rest)) is Ok,
{
    let texts = boot_texts(false, true);
    let all = marked(mark, texts) + rest;
    let front = all.take(3);
    let back = all.skip(3);
    lemma_gate_patterns();
    lemma_gate_lines(mark);
    lemma_boot_is_quiet();
    assert forall|k: int| 0 <= k < all.len() implies !contains(
        #[trigger] all[k],
        "UNEXPECTED"@,
    ) by {
        if k < 6 {
            assert(all[k] == mark + texts[k]);
            assert(quiet(texts[k]));
            lemma_marked_lacks(mark, texts, "UNEXPECTED"@, k);
        } else {
            assert(all[k] == rest[k - 6]);
        }
    }
    lemma_console_lacks(all, "UNEXPECTED"@);
    assert(front + back =~= all);
    lemma_console_concat(front, back);
    lemma_console_last(front);
    assert(front[2] == mark + texts[2]);
    lemma_console_contains(front, 2, "gate holds"@);
    lemma_first_in_front(console(front), console(back), "gate holds"@);
    assert(back[1] == mark + texts[4]);
    lemma_console_contains(back, 1, "gate open"@);
    assert forall|k: int| 0 <= k < front.len() implies !contains(
        #[trigger] front[k],
        "gate open"@,
    ) by {
        assert(front[k] == mark + texts.take(3)[k]);
        lemma_not_open_yet(texts[k]);
        lemma_marked_lacks(mark, texts.take(3), "gate open"@, k);
    }
    lemma_console_lacks(front, "gate open"@);
    lemma_first_behind(console(front), console(back), "gate open"@);
}

/// A boot whose entropy gate was open too early, or did not open, is refused for
/// that, whatever follows.
pub proof fn law_broken_gate_is_refused(
    before: bool,
    after: bool,
    mark: Seq<char>,
    rest: Seq<Seq<char>>,
)
    requires
        before || !after,
    ensures
        gate_outcome(console(marked(mark, boot_texts(before, after)) + rest)) == Err::<(), Error>(
            Error::Gate("firmware reported an UNEXPECTED gate state"),
        ),
{
    let texts = boot_texts(before, after);
    let all = marked(mark, texts) + rest;
    let k = if before {
        2int
    } else {
        4int
    };
    let unexpected = "UNEXPECTED"@;
    reveal_strlit("UNEXPECTED");
    reveal_strlit("UNEXPECTED: true entropy reported available before TrngSource exists");
    reveal_strlit("UNEXPECTED: TrngSource is live but true entropy is unavailable");
    let line = texts[k];
    assert(line =~= unexpected + line.skip(unexpected.len() as int));
    lemma_marked_contains(mark, unexpected, line.skip(unexpected.len() as int));
    assert(all[k] == mark + line);
    lemma_console_contains(all, k, unexpected);
}

/// An entropy gate that passed stays passed, whatever is printed later, unless
/// that makes a report of an unexpected state.
pub proof fn law_passed_gate_stays_passed(log: Seq<char>, more: Seq<char>)
    requires
        gate_outcome(log) is Ok,
        !contains(log + more, "UNEXPECTED"@),
    ensures
        gate_outcome(log + more) is Ok,
{
    lemma_first_in_front(log, more, "gate holds"@);
    lemma_first_in_front(log, more, "gate open"@);
}

/// A failure of the entropy gate is never excused by later output: neither a
/// report of an unexpected state, nor a gate that was open without having held
/// before. (A log that does not tell of an open gate yet has not failed in that
/// way: the rest of the boot may follow.)
pub proof fn law_failed_gate_is_not_excused(log: Seq<char>, more: Seq<char>)
    requires
        gate_outcome(log) is Err,
        contains(log, "UNEXPECTED"@) || contains(log, "gate open"@),
    ensures
        gate_outcome(log + more) is Err,
        check_outcome(log + more) is Err,
{
    let holds = "gate holds"@;
    let opens = "gate open"@;
    if contains(log, "UNEXPECTED"@) {
        lemma_first_in_front(log, more, "UNEXPECTED"@);
    } else {
        lemma_first_in_front(log, more, opens);
        let open = first_occurrence(log, opens)->0;
        if contains(log, holds) {
            lemma_first_in_front(log, more, holds);
        } else if contains(log + more, holds) {
            lemma_first_occurrence(log + more, holds);
            let closed = first_occurrence(log + more, holds)->0;
            if closed < open {
                reveal_strlit("gate holds");
                reveal_strlit("gate open");
                assert((log + more).subrange(closed, closed + holds.len()) =~= log.subrange(
                    closed,
                    closed + holds.len(),
                ));
                assert(occurs_at(log, holds, closed));
            }
        }
    }
}

/// The log holds everything that a verifier looks for: all fields, and what a boot
/// says of the entropy gate.
pub open spec fn complete(log: Seq<char>) -> bool {
    &&& holds_fields(log)
    &&& contains(log, "gate holds"@)
    &&& contains(log, "gate open"@)
}

/// Once everything that a verifier looks for has been printed, later output
/// changes neither what `check_gate` and `parse_log` return nor what `check_all`
/// does, unless it reports an unexpected state.
pub proof fn law_later_output_changes_nothing(log: Seq<char>, more: Seq<char>)
    requires
        complete(log),
        !contains(more, "UNEXPECTED"@),
    ensures
        gate_outcome(log + more) == gate_outcome(log),
        parsed(log + more) == parsed(log),
        log_outcome(log + more) == log_outcome(log),
        check_outcome(log + more) == check_outcome(log),
{
    law_later_output_changes_no_attestation(log, more);
    lemma_first_in_front(log, more, "gate holds"@);
    lemma_first_in_front(log, more, "gate open"@);
    lemma_gate_patterns();
    let unexpected = "UNEXPECTED"@;
    if contains(log, unexpected) {
        lemma_first_in_front(log, more, unexpected);
    } else if contains(log + more, unexpected) {
        let i = choose|i: int| occurs_at(log + more, unexpected, i);
        lemma_occurrence_within(log, more, unexpected, i);
    }
}

/// Once it has booted, a device does not boot again.
proof fn lemma_booted(events: Seq<Event>)
    requires
        is_run(events),
        events.len() >= 6,
    ensures
        !(state_after(events).0 is Off),
        !(state_after(events).0 is Initialising),
        !(state_after(events).0 is ProbingClosedGate),
        !(state_after(events).0 is StartingEntropy),
        !(state_after(events).0 is ProbingOpenGate),
        !(state_after(events).0 is AttachingClock),
    decreases events.len(),
{
    if events.len() == 6 {
        law_boot_lines(events);
    } else {
        lemma_booted(events.drop_last());
    }
}

/// The run of a device whose entropy gate worked and that has not printed an
/// attestation yet, nor an error message that a verifier could take for a part
/// of one.
pub open spec fn unattested(events: Seq<Event>) -> bool {
    &&& is_run(events)
    &&& events.len() >= 6
    &&& events[2] == (Event::Entropy { available: false })
    &&& events[4] == (Event::Entropy { available: true })
    &&& forall|i: int| 0 <= i < events.len() ==> quiet_event(#[trigger] events[i])
}

/// The event brings neither an attestation to the console nor an error message
/// that a verifier could take for a part of one.
pub open spec fn quiet_event(event: Event) -> bool {
    match event {
        Event::Clock(Err(failure)) => quiet_failure(failure),
        Event::Attested(Ok(_)) => false,
        Event::Attested(Err(error)) => quiet(attestation_failed_text(error@)),
        _ => true,
    }
}

/// What such a run prints is quiet.
proof fn lemma_unattested_is_quiet(events: Seq<Event>)
    requires
        unattested(events),
    ensures
        forall|k: int|
            0 <= k < printed(events).len() ==> quiet(#[trigger] printed(events)[k]),
    decreases events.len(),
{
    let all = printed(events);
    if events.len() == 6 {
        law_boot_lines(events);
        lemma_boot_is_quiet();
        assert(all.take(6) =~= all);
    } else {
        let earlier = events.drop_last();
        let shown = printed(earlier);
        assert forall|i: int| 0 <= i < earlier.len() implies quiet_event(
            #[trigger] earlier[i],
        ) by {
            assert(earlier[i] == events[i]);
        }
        lemma_unattested_is_quiet(earlier);
        lemma_booted(earlier);
        let added = last_step(events).lines;
        let event = events.last();
        assert(quiet_event(events[events.len() - 1]));
        assert(forall|k: int| 0 <= k < added.len() ==> quiet(#[trigger] added[k])) by {
            match event {
                Event::Clock(Ok(reading)) => lemma_clock_ok_is_quiet(reading),
                Event::Clock(Err(failure)) => {
                    lemma_clock_failure_is_quiet("clock"@, failure);
                    lemma_clock_failure_is_quiet("attestation refused"@, failure);
                },
                Event::ButtonAttached { held } => lemma_ready_is_quiet(held),
                Event::Cooldown(Err(remaining_ms)) => lemma_cooldown_is_quiet(remaining_ms),
                _ => {},
            }
        }
        assert forall|k: int| 0 <= k < all.len() implies quiet(#[trigger] all[k]) by {
            if k < shown.len() {
                assert(all[k] == shown[k]);
            } else {
                assert(all[k] == added[k - shown.len()]);
            }
        }
    }
}

/// A mark in which the pattern does not start is as good for a part of the lines.
proof fn lemma_clear_of_part(
    mark: Seq<char>,
    lines: Seq<Seq<char>>,
    at: int,
    part: Seq<Seq<char>>,
    pat: Seq<char>,
)
    requires
        0 <= at <= at + part.len() <= lines.len(),
        forall|k: int| 0 <= k < part.len() ==> #[trigger] part[k] == lines[at + k],
        clear_of(mark, lines, pat),
    ensures
        clear_of(mark, part, pat),
{
    assert forall|k: int, i: int|
        0 <= k < part.len() && 0 <= i < mark.len() implies !#[trigger] occurs_at(
        mark + part[k],
        pat,
        i,
    ) by {
        assert(mark + part[k] == mark + lines[at + k]);
    }
}

/// Every run that got through its boot shows the lines of the boot first.
proof fn lemma_marked_boot(events: Seq<Event>, mark: Seq<char>) -> (gates: (bool, bool))
    requires
        is_run(events),
        events.len() >= 6,
    ensures
        events[2] == (Event::Entropy { available: gates.0 }),
        events[4] == (Event::Entropy { available: gates.1 }),
        printed(events).len() >= 6,
        printed(events).take(6) == boot_texts(gates.0, gates.1),
        marked(mark, printed(events)).take(6) == marked(mark, boot_texts(gates.0, gates.1)),
{
    let gates = law_boot_lines(events);
    let lines = printed(events);
    let boot = boot_texts(gates.0, gates.1);
    assert forall|k: int| 0 <= k < 6 implies lines[k] == #[trigger] boot[k] by {
        assert(lines.take(6)[k] == lines[k]);
    }
    assert(marked(mark, lines).take(6) =~= marked(mark, boot));
    gates
}

/// The log of a device that booted with a working entropy gate and attested
/// passes every check that does not need the signature, and gives back the first
/// attestation that was printed; so all that is left to decide is whether the
/// signature holds. Presses that were refused may have come before, if the error
/// messages hold nothing that a verifier looks for, and anything may follow that
/// does not report an unexpected state. The capture may put a mark before each line
/// in which no label and no such report starts, nor, before the entropy source is
/// live, one of an open gate.
pub proof fn law_first_attestation_is_read_back(
    events: Seq<Event>,
    report: AttestationReport,
    mark: Seq<char>,
    after: Seq<char>,
)
    requires
        events.len() > 0,
        unattested(events.drop_last()),
        is_run(events),
        events.last() == Event::Attested(Ok(report)),
        readable(report),
        report.payload_hex@.len() == 2 * ATTESTATION_PAYLOAD_LEN,
        unobtrusive(mark, printed(events)),
        clear_of(mark, printed(events).take(3), "gate open"@),
        !contains(after, "UNEXPECTED"@),
    ensures
        ({
            let log = console(marked(mark, printed(events))) + after;
            let a = report_bytes(report);
            &&& log_outcome(log) == Ok::<AttestationBytes, Error>(a)
            &&& check_outcome(log) == match verify_outcome(a) {
                Ok(()) => Ok::<AttestationBytes, Error>(a),
                Err(e) => Err::<AttestationBytes, Error>(e),
            }
        }),
{
    let earlier = events.drop_last();
    let shown = printed(earlier);
    let all = printed(events);
    let texts = attestation_texts(report);
    let lines = marked(mark, all);
    let at = shown.len() as int;
    let before = lines.take(at);
    lemma_unattested_is_quiet(earlier);
    assert(all =~= shown + texts);
    assert forall|k: int| 0 <= k < before.len() implies quiet(#[trigger] before[k]) by {
        assert(all[k] == shown[k]);
        lemma_marked_is_quiet(mark, all, k);
    }
    assert(lines =~= before + marked(mark, texts));
    lemma_clear_of_part(mark, all, at, texts, "payload:"@);
    lemma_clear_of_part(mark, all, at, texts, "pubkey:"@);
    lemma_clear_of_part(mark, all, at, texts, "signature:"@);
    lemma_clear_of_part(mark, all, at, texts, "UNEXPECTED"@);
    law_printed_attestation_parses(before, mark, report, Seq::empty());
    lemma_report_holds_fields(before, mark, report);
    lemma_report_is_expected(mark, report);
    lemma_marked_boot(events, mark);
    let rest = lines.skip(6);
    assert(lines.take(6) + rest =~= lines);
    assert forall|k: int| 0 <= k < rest.len() implies !contains(
        #[trigger] rest[k],
        "UNEXPECTED"@,
    ) by {
        let n = k + 6;
        assert(rest[k] == lines[n]);
        if n < at {
            assert(quiet(before[n]));
        } else {
            assert(lines[n] == mark + texts[n - at]);
        }
    }
    let boot = boot_texts(false, true);
    lemma_clear_of_part(mark, all, 0, boot, "UNEXPECTED"@);
    lemma_clear_of_part(mark, all.take(3), 0, boot.take(3), "gate open"@);
    law_working_gate_passes(mark, rest);
    assert(console(lines) + Seq::<char>::empty() =~= console(lines));
    law_later_output_changes_nothing(console(lines), after);
}

/// The log of a device whose entropy gate did not behave is refused for that,
/// whatever else it holds.
pub proof fn law_broken_gate_log_is_refused(events: Seq<Event>, mark: Seq<char>)
    requires
        is_run(events),
        events.len() >= 6,
        events[2] == (Event::Entropy { available: true }) || events[4] == (Event::Entropy {
            available: false,
        }),
    ensures
        check_outcome(console(marked(mark, printed(events)))) == Err::<AttestationBytes, Error>(
            Error::Gate("firmware reported an UNEXPECTED gate state"),
        ),
{
    let (before, after) = lemma_marked_boot(events, mark);
    let lines = marked(mark, printed(events));
    assert(lines.take(6) + lines.skip(6) =~= lines);
    law_broken_gate_is_refused(before, after, mark, lines.skip(6));
}

} // verus!
