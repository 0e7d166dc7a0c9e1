//! Runs of the device: what holds of every sequence of events.

use crate::console::{AttestationEvent, BUTTON_PIN};
use crate::device::{Action, Event, Phase, StepModel, POLL_INTERVAL_MS};
use vstd::prelude::*;

verus! {

/// The phase and the counter of a device after these events.
pub open spec fn state_after(events: Seq<Event>) -> (Phase, u32)
    decreases events.len(),
{
    if events.len() == 0 {
        (Phase::Off, 0u32)
    } else {
        let (phase, counter) = state_after(events.drop_last());
        let step = crate::device::step_model(phase, counter, events.last());
        (step.phase, step.counter)
    }
}

/// The step that a device takes on the last of these events.
pub open spec fn last_step(events: Seq<Event>) -> StepModel {
    let (phase, counter) = state_after(events.drop_last());
    crate::device::step_model(phase, counter, events.last())
}

/// Each event is one that the device awaits when it comes.
pub open spec fn is_run(events: Seq<Event>) -> bool
    decreases events.len(),
{
    events.len() > 0 ==> {
        &&& is_run(events.drop_last())
        &&& crate::device::awaits(state_after(events.drop_last()).0, events.last())
    }
}

/// Everything that a device prints on these events.
pub open spec fn printed(events: Seq<Event>) -> Seq<Seq<char>>
    decreases events.len(),
{
    if events.len() == 0 {
        Seq::empty()
    } else {
        printed(events.drop_last()) + last_step(events).lines
    }
}

/// How many attestations a device starts on these events.
pub open spec fn attestations(events: Seq<Event>) -> nat
    decreases events.len(),
{
    if events.len() == 0 {
        0
    } else {
        attestations(events.drop_last()) + if last_step(events).action is Attest {
            1nat
        } else {
            0nat
        }
    }
}

/// The first lines of every boot. `before` and `after` say whether true entropy
/// was available before and after the entropy source came up.
pub open spec fn boot_texts(before: bool, after: bool) -> Seq<Seq<char>> {
    seq![
        "IceSickle no_std firmware"@,
        "esp_hal::init done"@,
        crate::console::closed_gate_text(before),
        "TrngSource live: SAR-ADC entropy enabled, radio off"@,
        crate::console::open_gate_text(after),
        crate::console::pins_note_text(),
    ]
}

/// The cooldown is asked right after the clock was read with success, and the
/// clock was read right after a press; the cooldown is told the uptime at which
/// that press was sampled. So a clock that cannot be read never spends the
/// cooldown.
pub proof fn law_cooldown_asked_after_clock(events: Seq<Event>, uptime_ms: u64)
    requires
        is_run(events),
        events.len() > 0,
        last_step(events).action == (Action::GateCooldown { uptime_ms }),
    ensures
        events.len() >= 2,
        events.last() matches Event::Clock(Ok(_)),
        events[events.len() - 2] == (Event::Polled { uptime_ms, pressed: true }),
{
    let earlier = events.drop_last();
    assert(is_run(earlier));
    assert(state_after(earlier).0 == (Phase::ReadingClock { uptime_ms }));
    assert(earlier.len() > 0);
    assert(earlier.last() == events[events.len() - 2]);
    assert(crate::device::awaits(state_after(earlier.drop_last()).0, earlier.last()));
}

/// An attestation is started only by a press, followed by a clock that could be
/// read, followed by a cooldown that let it through. It attests to a press of
/// the trigger, and its timestamp is the Unix time that the clock gave.
pub proof fn law_attestation_needs_press_clock_and_cooldown(
    events: Seq<Event>,
    event: AttestationEvent,
    timestamp_ms: u64,
    counter: u32,
)
    requires
        is_run(events),
        events.len() > 0,
        last_step(events).action == (Action::Attest { event, timestamp_ms, counter }),
    ensures
        events.len() >= 3,
        events.last() matches Event::Cooldown(Ok(_)),
        events[events.len() - 2] matches Event::Clock(Ok(reading)) && reading.unix_ms
            == timestamp_ms,
        events[events.len() - 3] matches Event::Polled { pressed: true, .. },
        event == (AttestationEvent::ButtonPress { gpio: BUTTON_PIN }),
{
    let earlier = events.drop_last();
    assert(is_run(earlier));
    assert(state_after(earlier).0 == (Phase::Gating { timestamp_ms }));
    assert(earlier.len() > 0);
    assert(earlier.last() == events[events.len() - 2]);
    assert(crate::device::awaits(state_after(earlier.drop_last()).0, earlier.last()));
    assert(last_step(earlier).action is GateCooldown);
    let uptime_ms = last_step(earlier).action->uptime_ms;
    law_cooldown_asked_after_clock(earlier, uptime_ms);
    assert(earlier[earlier.len() - 2] == events[events.len() - 3]);
}

/// Attestations are numbered in the order in which they are started, from zero
/// on, and the numbers start over after the last one.
pub proof fn law_attestations_are_numbered_in_order(events: Seq<Event>)
    ensures
        state_after(events).1 == attestations(events) % 0x1_0000_0000,
        events.len() > 0 ==> (last_step(events).action matches Action::Attest { counter, .. }
            ==> counter == attestations(events.drop_last()) % 0x1_0000_0000),
    decreases events.len(),
{
    if events.len() > 0 {
        law_attestations_are_numbered_in_order(events.drop_last());
    }
}

/// An attestation that is refused, by the clock or by the cooldown, leads to a
/// pause and leaves the count of attestations as it was. A refusal by the clock
/// is reported with its cause every time.
pub proof fn law_refusals_spend_nothing(events: Seq<Event>)
    requires
        is_run(events),
        events.len() > 0,
        events.last() matches Event::Cooldown(Err(_)) || (state_after(
            events.drop_last(),
        ).0 is ReadingClock && events.last() matches Event::Clock(Err(_))),
    ensures
        last_step(events).action == (Action::Pause { millis: POLL_INTERVAL_MS }),
        state_after(events) == (Phase::Pausing, state_after(events.drop_last()).1),
        attestations(events) == attestations(events.drop_last()),
        events.last() matches Event::Clock(Err(failure)) ==> last_step(events).lines
            == crate::console::clock_failure_texts("attestation refused"@, failure),
{
}

/// The phase of a device after the first events of a boot.
spec fn boot_phase(count: nat) -> Phase {
    if count == 0 {
        Phase::Off
    } else if count == 1 {
        Phase::Initialising
    } else if count == 2 {
        Phase::ProbingClosedGate
    } else if count == 3 {
        Phase::StartingEntropy
    } else if count == 4 {
        Phase::ProbingOpenGate
    } else if count == 5 {
        Phase::AttachingClock
    } else {
        Phase::ReportingClock
    }
}

/// The first events of a boot lead through its phases one by one.
proof fn lemma_boot_phases(events: Seq<Event>)
    requires
        is_run(events),
        events.len() <= 6,
    ensures
        state_after(events).0 == boot_phase(events.len()),
    decreases events.len(),
{
    if events.len() > 0 {
        lemma_boot_phases(events.drop_last());
    }
}

/// Every boot that gets as far as its first clock reading starts with the same
/// six lines, but for what the two probes of the entropy gate found. The
/// reminder that the bus pins are a guess is the last of them.
pub proof fn law_boot_lines(events: Seq<Event>) -> (r: (bool, bool))
    requires
        is_run(events),
        events.len() >= 6,
    ensures
        events[2] == (Event::Entropy { available: r.0 }),
        events[4] == (Event::Entropy { available: r.1 }),
        printed(events).len() >= 6,
        printed(events).take(6) == boot_texts(r.0, r.1),
        events.len() == 6 ==> printed(events).len() == 6,
        events.len() == 6 ==> state_after(events).0 == Phase::ReportingClock,
    decreases events.len(),
{
    let earlier = events.drop_last();
    if events.len() == 6 {
        reveal_with_fuel(is_run, 7);
        reveal_with_fuel(printed, 7);
        let e5 = events.drop_last();
        let e4 = e5.drop_last();
        let e3 = e4.drop_last();
        let e2 = e3.drop_last();
        let e1 = e2.drop_last();
        let e0 = e1.drop_last();
        lemma_boot_phases(e0);
        lemma_boot_phases(e1);
        lemma_boot_phases(e2);
        lemma_boot_phases(e3);
        lemma_boot_phases(e4);
        lemma_boot_phases(e5);
        assert(e3.last() == events[2]);
        assert(e5.last() == events[4]);
        let before = events[2]->available;
        let after = events[4]->available;
        assert(printed(events) =~= boot_texts(before, after));
        assert(printed(events).take(6) =~= printed(events));
        (before, after)
    } else {
        let r = law_boot_lines(earlier);
        assert(printed(events).take(6) =~= printed(earlier).take(6));
        r
    }
}

/// The clock is never read before the reminder about the bus pins is printed.
pub proof fn law_pins_note_precedes_clock_reading(events: Seq<Event>)
    requires
        is_run(events),
        events.len() > 0,
        last_step(events).action == Action::ReadClock,
    ensures
        events.len() >= 6,
        printed(events).len() >= 6,
        printed(events)[5] == crate::console::pins_note_text(),
{
    if events.len() >= 6 {
        law_boot_lines(events);
        assert(printed(events).take(6)[5] == printed(events)[5]);
    } else {
        lemma_boot_phases(events.drop_last());
    }
}

/// A run that has got beyond its boot is in the event loop.
proof fn lemma_in_the_loop(events: Seq<Event>)
    requires
        is_run(events),
        events.len() >= 7,
    ensures
        events.len() == 7 ==> state_after(events).0 == Phase::AttachingButton,
        events.len() == 8 ==> state_after(events).0 == Phase::Polling,
        events.len() >= 8 ==> {
            let phase = state_after(events).0;
            phase is Polling || phase is ReadingClock || phase is Gating || phase is Attesting
                || phase is Pausing
        },
    decreases events.len(),
{
    let earlier = events.drop_last();
    if events.len() == 7 {
        lemma_boot_phases(earlier);
    } else {
        lemma_in_the_loop(earlier);
    }
}

/// A boot goes one way: the chip, the closed gate, the entropy source, the open gate,
/// the clock, a first reading of it, and the trigger, whatever is found on the way. At
/// each step it prints what that step found, and after the last it polls the trigger.
/// A clock that cannot be read stops nothing.
pub proof fn law_boot_takes_its_steps_in_order(events: Seq<Event>)
    requires
        is_run(events),
        1 <= events.len() <= 8,
    ensures
        ({
            let n = events.len();
            let lines = last_step(events).lines;
            let action = last_step(events).action;
            &&& n == 1 ==> events.last() is PowerOn && lines == seq!["IceSickle no_std firmware"@]
                && action == Action::InitHal
            &&& n == 2 ==> events.last() is HalReady && lines == seq!["esp_hal::init done"@]
                && action == Action::ProbeEntropy
            &&& n == 3 ==> (events.last() matches Event::Entropy { available } && lines == seq![
                crate::console::closed_gate_text(available),
            ] && action == Action::StartEntropy)
            &&& n == 4 ==> events.last() is SourceLive && lines == seq![
                "TrngSource live: SAR-ADC entropy enabled, radio off"@,
            ] && action == Action::ProbeEntropy
            &&& n == 5 ==> (events.last() matches Event::Entropy { available } && lines == seq![
                crate::console::open_gate_text(available),
            ] && action == Action::AttachClock)
            &&& n == 6 ==> events.last() is ClockAttached && lines == seq![
                crate::console::pins_note_text(),
            ] && action == Action::ReadClock
            &&& n == 7 ==> action == Action::AttachButton && match events.last() {
                Event::Clock(Ok(reading)) => lines == seq![crate::console::clock_ok_text(reading)],
                Event::Clock(Err(failure)) => lines == crate::console::clock_failure_texts(
                    "clock"@,
                    failure,
                ),
                _ => false,
            }
            &&& n == 8 ==> action == Action::Poll
                && (events.last() matches Event::ButtonAttached { held } && lines
                == crate::console::ready_texts(held))
            &&& state_after(events).1 == 0
        }),
    decreases events.len(),
{
    let earlier = events.drop_last();
    if events.len() > 1 {
        law_boot_takes_its_steps_in_order(earlier);
    }
    if earlier.len() <= 6 {
        lemma_boot_phases(earlier);
    } else {
        lemma_in_the_loop(earlier);
    }
}

/// A press is served, whatever the counter and the uptime: the clock is read for it, and
/// nothing is printed yet.
pub proof fn law_press_is_served(events: Seq<Event>, uptime_ms: u64)
    requires
        is_run(events),
        events.len() > 0,
        events.last() == (Event::Polled { uptime_ms, pressed: true }),
    ensures
        last_step(events).action == Action::ReadClock,
        last_step(events).lines.len() == 0,
{
}

/// Without a press nothing happens but a pause.
pub proof fn law_no_press_no_action(events: Seq<Event>, uptime_ms: u64)
    requires
        is_run(events),
        events.len() > 0,
        events.last() == (Event::Polled { uptime_ms, pressed: false }),
    ensures
        last_step(events).action == (Action::Pause { millis: 10 }),
        last_step(events).lines.len() == 0,
{
}

/// In the event loop the clock is read for a press and for nothing else. If it could be
/// read, the cooldown is asked, at the uptime of that very press, and nothing is printed.
/// If not, the press is refused with a report on the failure, and a pause follows.
pub proof fn law_clock_decides_a_press(events: Seq<Event>)
    requires
        is_run(events),
        events.len() > 8,
        events.last() is Clock,
    ensures
        events[events.len() - 2] matches Event::Polled { uptime_ms, pressed } && pressed
            && match events.last() {
            Event::Clock(Ok(_)) => {
                &&& last_step(events).action == (Action::GateCooldown { uptime_ms })
                &&& last_step(events).lines.len() == 0
            },
            Event::Clock(Err(failure)) => {
                &&& last_step(events).action == (Action::Pause { millis: 10 })
                &&& last_step(events).lines == crate::console::clock_failure_texts(
                    "attestation refused"@,
                    failure,
                )
            },
            _ => false,
        },
{
    let earlier = events.drop_last();
    assert(is_run(earlier));
    assert(earlier.last() == events[events.len() - 2]);
    assert(crate::device::awaits(state_after(earlier.drop_last()).0, earlier.last()));
    lemma_in_the_loop(earlier);
    lemma_in_the_loop(earlier.drop_last());
}

/// The cooldown decides a press for which the clock was read. If it lets the press
/// through, an attestation to a press of the trigger is started, with the Unix time that
/// the clock gave for that press and with the number of attestations that were started
/// before, and nothing is printed. If not, the press is refused with the time that is
/// left, and a pause follows.
pub proof fn law_cooldown_decides_a_press(events: Seq<Event>)
    requires
        is_run(events),
        events.len() > 0,
        events.last() is Cooldown,
    ensures
        events.len() > 2,
        events[events.len() - 3] matches Event::Polled { pressed: true, .. },
        events[events.len() - 2] matches Event::Clock(Ok(reading)) && match events.last() {
            Event::Cooldown(Ok(_)) => {
                &&& last_step(events).action == (Action::Attest {
                    event: AttestationEvent::ButtonPress { gpio: 0 },
                    timestamp_ms: reading.unix_ms,
                    counter: (attestations(events.drop_last()) % 0x1_0000_0000) as u32,
                })
                &&& last_step(events).lines.len() == 0
            },
            Event::Cooldown(Err(remaining_ms)) => {
                &&& last_step(events).action == (Action::Pause { millis: 10 })
                &&& last_step(events).lines == seq![crate::console::cooldown_text(remaining_ms)]
            },
            _ => false,
        },
{
    let earlier = events.drop_last();
    assert(is_run(earlier));
    assert(state_after(earlier).0 is Gating);
    assert(earlier.len() > 0);
    assert(earlier.last() == events[events.len() - 2]);
    assert(crate::device::awaits(state_after(earlier.drop_last()).0, earlier.last()));
    assert(last_step(earlier).action is GateCooldown);
    law_cooldown_asked_after_clock(earlier, last_step(earlier).action->uptime_ms);
    assert(earlier[earlier.len() - 2] == events[events.len() - 3]);
    law_attestations_are_numbered_in_order(earlier);
}

/// An attestation that was made is printed, one that was not is reported with its error,
/// and a pause follows either way.
pub proof fn law_attestation_is_printed(events: Seq<Event>)
    requires
        is_run(events),
        events.len() > 0,
        events.last() is Attested,
    ensures
        last_step(events).action == (Action::Pause { millis: 10 }),
        match events.last() {
            Event::Attested(Ok(report)) => last_step(events).lines
                == crate::console::attestation_texts(report),
            Event::Attested(Err(error)) => last_step(events).lines == seq![
                crate::console::attestation_failed_text(error@),
            ],
            _ => false,
        },
{
}

/// After every pause the trigger is polled again, and nothing is printed: no press, no
/// refusal and no failure ends the event loop.
pub proof fn law_pause_leads_back_to_the_trigger(events: Seq<Event>)
    requires
        is_run(events),
        events.len() > 0,
        events.last() is Paused,
    ensures
        last_step(events).action == Action::Poll,
        last_step(events).lines.len() == 0,
{
}

/// Every run can go on with how the action that the device asked for last ended, and with
/// nothing else. A device that is off can only be switched on.
pub proof fn law_run_goes_on_with_the_end_of_its_action(events: Seq<Event>, next: Event)
    requires
        is_run(events),
    ensures
        events.len() == 0 ==> (is_run(events.push(next)) <==> next is PowerOn),
        events.len() > 0 ==> (is_run(events.push(next)) <==> crate::device::answers(
            last_step(events).action,
            next,
        )),
{
    assert(events.push(next).drop_last() =~= events);
    if events.len() > 0 {
        let (phase, counter) = state_after(events.drop_last());
        crate::device::law_device_awaits_the_end_of_its_action(
            phase,
            counter,
            events.last(),
            next,
        );
    }
}

/// One more event is one more step.
proof fn lemma_one_more(events: Seq<Event>, next: Event)
    requires
        is_run(events),
        crate::device::awaits(state_after(events).0, next),
    ensures
        ({
            let more = events.push(next);
            let (phase, counter) = state_after(events);
            let step = crate::device::step_model(phase, counter, next);
            &&& is_run(more)
            &&& last_step(more) == step
            &&& state_after(more) == (step.phase, step.counter)
            &&& attestations(more) == attestations(events) + if step.action is Attest {
                1nat
            } else {
                0nat
            }
        }),
{
    assert(events.push(next).drop_last() =~= events);
}

/// Whenever a device polls its trigger, a press with a clock that can be read and a
/// cooldown that lets it through gets one attestation, whatever came before: its timestamp
/// is the one that the clock gave, its number that of the attestations before it. Once it
/// has been made or has failed, and the pause is over, the device polls again.
pub proof fn law_every_full_press_gets_one_attestation(
    events: Seq<Event>,
    uptime_ms: u64,
    reading: crate::console::ClockReading,
    made: Result<crate::console::AttestationReport, String>,
)
    requires
        is_run(events),
        events.len() > 0,
        last_step(events).action == Action::Poll,
    ensures
        ({
            let pressed = events.push(Event::Polled { uptime_ms, pressed: true });
            let read = pressed.push(Event::Clock(Ok(reading)));
            let passed = read.push(Event::Cooldown(Ok(())));
            let done = passed.push(Event::Attested(made)).push(Event::Paused);
            &&& is_run(done)
            &&& last_step(pressed).action == Action::ReadClock
            &&& last_step(read).action == (Action::GateCooldown { uptime_ms })
            &&& last_step(passed).action == (Action::Attest {
                event: AttestationEvent::ButtonPress { gpio: 0 },
                timestamp_ms: reading.unix_ms,
                counter: (attestations(events) % 0x1_0000_0000) as u32,
            })
            &&& last_step(done).action == Action::Poll
            &&& attestations(done) == attestations(events) + 1
        }),
{
    let pressed = events.push(Event::Polled { uptime_ms, pressed: true });
    let read = pressed.push(Event::Clock(Ok(reading)));
    let passed = read.push(Event::Cooldown(Ok(())));
    let told = passed.push(Event::Attested(made));
    let done = told.push(Event::Paused);
    let counter = state_after(events).1;
    assert(state_after(events).0 == Phase::Polling);
    law_attestations_are_numbered_in_order(events);
    lemma_one_more(events, pressed.last());
    assert(state_after(pressed) == (Phase::ReadingClock { uptime_ms }, counter));
    lemma_one_more(pressed, read.last());
    assert(state_after(read) == (Phase::Gating { timestamp_ms: reading.unix_ms }, counter));
    lemma_one_more(read, passed.last());
    assert(state_after(passed).0 == Phase::Attesting);
    lemma_one_more(passed, told.last());
    assert(state_after(told).0 == Phase::Pausing);
    lemma_one_more(told, done.last());
}

} // verus!
