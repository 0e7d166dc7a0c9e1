//! What the device does, from power-on through the event loop.
//!
//! The device is a machine that hands out one hardware action at a time and is
//! told how it ended. Two time bases run through it. Uptime drives the debounce
//! and the cooldown, and the clock supplies the timestamp of an attestation;
//! neither ever stands in for the other.

use crate::console::{
    attestation_failed_line, attestation_lines, closed_gate_line, clock_ok_line, cooldown_line,
    open_gate_line, pins_note, ready_lines, report_clock_failure, AttestationEvent,
    AttestationReport, ClockFailure, ClockReading, BUTTON_PIN,
};
use vstd::prelude::*;
use vstd::string::*;

verus! {

/// How long the device pauses between two samples of the trigger, in
/// milliseconds.
pub const POLL_INTERVAL_MS: u32 = 10;

/// What the hardware is to do next.
#[derive(Debug, Clone, Copy, PartialEq, Eq)]
pub enum Action {
    /// Bring up the chip.
    InitHal,
    /// Ask whether true entropy is available.
    ProbeEntropy,
    /// Bring up the entropy source, for good.
    StartEntropy,
    /// Bring up the bus and hand it to the clock.
    AttachClock,
    /// Read the clock.
    ReadClock,
    /// Bring up the trigger.
    AttachButton,
    /// Sample the trigger once.
    Poll,
    /// Ask the cooldown to let an attestation through at this uptime. It
    /// records the attestation if it does.
    GateCooldown { uptime_ms: u64 },
    /// Draw a key and sign an attestation.
    Attest { event: AttestationEvent, timestamp_ms: u64, counter: u32 },
    /// Do nothing for so many milliseconds.
    Pause { millis: u32 },
}

/// How an action ended.
pub enum Event {
    /// The device was switched on.
    PowerOn,
    /// The chip is up.
    HalReady,
    /// True entropy is available, or is not.
    Entropy { available: bool },
    /// The entropy source is live.
    SourceLive,
    /// The clock has the bus.
    ClockAttached,
    /// What the clock said.
    Clock(Result<ClockReading, ClockFailure>),
    /// The trigger is up, and was held down as it came up or was not.
    ButtonAttached { held: bool },
    /// A debounced press ended at this uptime, or none did.
    Polled { uptime_ms: u64, pressed: bool },
    /// The cooldown let an attestation through, or has so many milliseconds left.
    Cooldown(Result<(), u64>),
    /// The attestation that was made, or why none was.
    Attested(Result<AttestationReport, String>),
    /// The pause is over.
    Paused,
}

/// What the device is waiting for.
#[derive(Debug, Clone, Copy, PartialEq, Eq)]
pub enum Phase {
    Off,
    Initialising,
    ProbingClosedGate,
    StartingEntropy,
    ProbingOpenGate,
    AttachingClock,
    ReportingClock,
    AttachingButton,
    Polling,
    ReadingClock { uptime_ms: u64 },
    Gating { timestamp_ms: u64 },
    Attesting,
    Pausing,
}

/// The state of the device.
pub struct Device {
    /// What the device is waiting for.
    pub phase: Phase,
    /// The number that the next attestation gets.
    pub counter: u32,
}

/// What one step of the device amounts to: the lines to print, and the action
/// to perform after that.
pub struct Step {
    pub lines: Vec<String>,
    pub action: Action,
}

/// A step of the device, and the state that it leads to.
pub struct StepModel {
    pub phase: Phase,
    pub counter: u32,
    pub lines: Seq<Seq<char>>,
    pub action: Action,
}

/// The event is one that the phase waits for.
pub open spec fn awaits(phase: Phase, event: Event) -> bool {
    match phase {
        Phase::Off => event is PowerOn,
        Phase::Initialising => event is HalReady,
        Phase::ProbingClosedGate => event is Entropy,
        Phase::StartingEntropy => event is SourceLive,
        Phase::ProbingOpenGate => event is Entropy,
        Phase::AttachingClock => event is ClockAttached,
        Phase::ReportingClock => event is Clock,
        Phase::AttachingButton => event is ButtonAttached,
        Phase::Polling => event is Polled,
        Phase::ReadingClock { .. } => event is Clock,
        Phase::Gating { .. } => event is Cooldown,
        Phase::Attesting => event is Attested,
        Phase::Pausing => event is Paused,
    }
}

/// The step that a device takes on an event that its phase awaits.
pub open spec fn step_model(phase: Phase, counter: u32, event: Event) -> StepModel {
    let go = |next: Phase, lines: Seq<Seq<char>>, action: Action|
        StepModel { phase: next, counter, lines, action };
    let pause = |lines: Seq<Seq<char>>|
        StepModel {
            phase: Phase::Pausing,
            counter,
            lines,
            action: Action::Pause { millis: POLL_INTERVAL_MS },
        };
    match (phase, event) {
        (_, Event::PowerOn) => go(
            Phase::Initialising,
            seq!["IceSickle no_std firmware"@],
            Action::InitHal,
        ),
        (_, Event::HalReady) => go(
            Phase::ProbingClosedGate,
            seq!["esp_hal::init done"@],
            Action::ProbeEntropy,
        ),
        (Phase::ProbingClosedGate, Event::Entropy { available }) => go(
            Phase::StartingEntropy,
            seq![crate::console::closed_gate_text(available)],
            Action::StartEntropy,
        ),
        (_, Event::SourceLive) => go(
            Phase::ProbingOpenGate,
            seq!["TrngSource live: SAR-ADC entropy enabled, radio off"@],
            Action::ProbeEntropy,
        ),
        (_, Event::Entropy { available }) => go(
            Phase::AttachingClock,
            seq![crate::console::open_gate_text(available)],
            Action::AttachClock,
        ),
        (_, Event::ClockAttached) => go(
            Phase::ReportingClock,
            seq![crate::console::pins_note_text()],
            Action::ReadClock,
        ),
        (Phase::ReadingClock { uptime_ms }, Event::Clock(Ok(reading))) => go(
            Phase::Gating { timestamp_ms: reading.unix_ms },
            seq![],
            Action::GateCooldown { uptime_ms },
        ),
        (Phase::ReadingClock { .. }, Event::Clock(Err(failure))) => pause(
            crate::console::clock_failure_texts("attestation refused"@, failure),
        ),
        (_, Event::Clock(Ok(reading))) => go(
            Phase::AttachingButton,
            seq![crate::console::clock_ok_text(reading)],
            Action::AttachButton,
        ),
        (_, Event::Clock(Err(failure))) => go(
            Phase::AttachingButton,
            crate::console::clock_failure_texts("clock"@, failure),
            Action::AttachButton,
        ),
        (_, Event::ButtonAttached { held }) => go(
            Phase::Polling,
            crate::console::ready_texts(held),
            Action::Poll,
        ),
        (_, Event::Polled { uptime_ms, pressed }) => if pressed {
            go(Phase::ReadingClock { uptime_ms }, seq![], Action::ReadClock)
        } else {
            pause(seq![])
        },
        (Phase::Gating { timestamp_ms }, Event::Cooldown(Ok(()))) => StepModel {
            phase: Phase::Attesting,
            counter: counter.wrapping_add(1),
            lines: seq![],
            action: Action::Attest {
                event: AttestationEvent::ButtonPress { gpio: BUTTON_PIN },
                timestamp_ms,
                counter,
            },
        },
        (_, Event::Cooldown(Err(remaining_ms))) => pause(
            seq![crate::console::cooldown_text(remaining_ms)],
        ),
        (_, Event::Attested(Ok(report))) => pause(crate::console::attestation_texts(report)),
        (_, Event::Attested(Err(error))) => pause(
            seq![crate::console::attestation_failed_text(error@)],
        ),
        (_, Event::Paused) => go(Phase::Polling, seq![], Action::Poll),
        // No phase awaits anything else.
        _ => pause(seq![]),
    }
}

/// A list of one line.
fn one_line(line: String) -> (r: Vec<String>)
    ensures
        crate::console::texts(r@) == seq![line@],
{
    let mut r: Vec<String> = Vec::new();
    r.push(line);
    assert(crate::console::texts(r@) =~= seq![line@]);
    r
}

/// A list of no line.
fn no_line() -> (r: Vec<String>)
    ensures
        crate::console::texts(r@) == Seq::<Seq<char>>::empty(),
{
    let r: Vec<String> = Vec::new();
    assert(crate::console::texts(r@) =~= Seq::<Seq<char>>::empty());
    r
}

impl Device {
    /// A device that is switched off and has not attested yet.
    pub fn new() -> (r: Device)
        ensures
            r.phase == Phase::Off,
            r.counter == 0,
    {
        Device { phase: Phase::Off, counter: 0 }
    }

    /// Whether the device waits for this event.
    pub fn awaits_event(&self, event: &Event) -> (r: bool)
        ensures
            r == awaits(self.phase, *event),
    {
        match (self.phase, event) {
            (Phase::Off, Event::PowerOn) => true,
            (Phase::Initialising, Event::HalReady) => true,
            (Phase::ProbingClosedGate, Event::Entropy { .. }) => true,
            (Phase::StartingEntropy, Event::SourceLive) => true,
            (Phase::ProbingOpenGate, Event::Entropy { .. }) => true,
            (Phase::AttachingClock, Event::ClockAttached) => true,
            (Phase::ReportingClock, Event::Clock(_)) => true,
            (Phase::AttachingButton, Event::ButtonAttached { .. }) => true,
            (Phase::Polling, Event::Polled { .. }) => true,
            (Phase::ReadingClock { .. }, Event::Clock(_)) => true,
            (Phase::Gating { .. }, Event::Cooldown(_)) => true,
            (Phase::Attesting, Event::Attested(_)) => true,
            (Phase::Pausing, Event::Paused) => true,
            _ => false,
        }
    }

    /// Print these lines, perform this action, and wait in this phase for how
    /// it ended.
    fn go(&mut self, next: Phase, lines: Vec<String>, action: Action) -> (r: Step)
        ensures
            final(self).phase == next,
            final(self).counter == old(self).counter,
            r == (Step { lines, action }),
    {
        self.phase = next;
        Step { lines, action }
    }

    /// Print these lines, and pause before the trigger is sampled again.
    fn pause(&mut self, lines: Vec<String>) -> (r: Step)
        ensures
            final(self).phase == Phase::Pausing,
            final(self).counter == old(self).counter,
            r == (Step { lines, action: Action::Pause { millis: POLL_INTERVAL_MS } }),
    {
        self.go(Phase::Pausing, lines, Action::Pause { millis: POLL_INTERVAL_MS })
    }

    /// Attest to a press of the trigger at this time, which is Unix
    /// milliseconds, under the next number. Numbers start at zero with every
    /// power-on, and start over after the last one.
    pub fn attest(&mut self, timestamp_ms: u64) -> (r: Step)
        ensures
            final(self).phase == Phase::Attesting,
            final(self).counter == old(self).counter.wrapping_add(1),
            crate::console::texts(r.lines@) == Seq::<Seq<char>>::empty(),
            r.action == (Action::Attest {
                event: AttestationEvent::ButtonPress { gpio: BUTTON_PIN },
                timestamp_ms,
                counter: old(self).counter,
            }),
    {
        let counter: u32 = self.counter;
        self.counter = counter.wrapping_add(1);
        let event: AttestationEvent = AttestationEvent::ButtonPress { gpio: BUTTON_PIN };
        self.go(Phase::Attesting, no_line(), Action::Attest { event, timestamp_ms, counter })
    }

    /// Decide what follows from how the last action ended.
    ///
    /// After a press the clock is read before the cooldown is asked. The
    /// cooldown records what it lets through, so asking it first would spend it
    /// on an attestation that a dead clock then prevents, and the answer to the
    /// next press would hide the one fact worth reporting. No key is drawn
    /// before both have been passed.
    pub fn step(&mut self, event: Event) -> (r: Step)
        requires
            awaits(old(self).phase, event),
        ensures
            ({
                let model = step_model(old(self).phase, old(self).counter, event);
                &&& final(self).phase == model.phase
                &&& final(self).counter == model.counter
                &&& crate::console::texts(r.lines@) == model.lines
                &&& r.action == model.action
            }),
    {
        match (self.phase, event) {
            (_, Event::PowerOn) => self.go(
                Phase::Initialising,
                one_line("IceSickle no_std firmware".to_owned()),
                Action::InitHal,
            ),
            (_, Event::HalReady) => self.go(
                Phase::ProbingClosedGate,
                one_line("esp_hal::init done".to_owned()),
                Action::ProbeEntropy,
            ),
            (Phase::ProbingClosedGate, Event::Entropy { available }) => self.go(
                Phase::StartingEntropy,
                one_line(closed_gate_line(available)),
                Action::StartEntropy,
            ),
            (_, Event::SourceLive) => self.go(
                Phase::ProbingOpenGate,
                one_line("TrngSource live: SAR-ADC entropy enabled, radio off".to_owned()),
                Action::ProbeEntropy,
            ),
            (_, Event::Entropy { available }) => self.go(
                Phase::AttachingClock,
                one_line(open_gate_line(available)),
                Action::AttachClock,
            ),
            (_, Event::ClockAttached) => self.go(
                Phase::ReportingClock,
                one_line(pins_note()),
                Action::ReadClock,
            ),
            (Phase::ReadingClock { uptime_ms }, Event::Clock(Ok(reading))) => self.go(
                Phase::Gating { timestamp_ms: reading.unix_ms },
                no_line(),
                Action::GateCooldown { uptime_ms },
            ),
            (Phase::ReadingClock { .. }, Event::Clock(Err(failure))) => self.pause(
                report_clock_failure("attestation refused", &failure),
            ),
            (_, Event::Clock(Ok(reading))) => self.go(
                Phase::AttachingButton,
                one_line(clock_ok_line(&reading)),
                Action::AttachButton,
            ),
            (_, Event::Clock(Err(failure))) => self.go(
                Phase::AttachingButton,
                report_clock_failure("clock", &failure),
                Action::AttachButton,
            ),
            (_, Event::ButtonAttached { held }) => self.go(
                Phase::Polling,
                ready_lines(held),
                Action::Poll,
            ),
            (_, Event::Polled { uptime_ms, pressed }) => if pressed {
                self.go(Phase::ReadingClock { uptime_ms }, no_line(), Action::ReadClock)
            } else {
                self.pause(no_line())
            },
            (Phase::Gating { timestamp_ms }, Event::Cooldown(Ok(()))) => self.attest(timestamp_ms),
            (_, Event::Cooldown(Err(remaining_ms))) => self.pause(
                one_line(cooldown_line(remaining_ms)),
            ),
            (_, Event::Attested(Ok(report))) => self.pause(attestation_lines(&report)),
            (_, Event::Attested(Err(error))) => self.pause(
                one_line(attestation_failed_line(error.as_str())),
            ),
            (_, Event::Paused) => self.go(Phase::Polling, no_line(), Action::Poll),
            // No phase awaits anything else.
            _ => self.pause(no_line()),
        }
    }
}

/// The number of the next attestation has no say in what a device does: whatever it
/// is, the same event in the same phase gives the same lines, leads to the same phase
/// and asks for the same action, but for the number that an attestation gets.
pub proof fn law_counter_has_no_say(phase: Phase, a: u32, b: u32, event: Event)
    ensures
        ({
            let x = step_model(phase, a, event);
            let y = step_model(phase, b, event);
            &&& x.phase == y.phase
            &&& x.lines == y.lines
            &&& match (x.action, y.action) {
                (
                    Action::Attest { event: e, timestamp_ms: t, counter: n },
                    Action::Attest { event: f, timestamp_ms: u, counter: m },
                ) => e == f && t == u && n == a && m == b,
                _ => x.action == y.action,
            }
        }),
{
}

/// A number is spent if and only if an attestation is started, which gets that number,
/// and the next one follows it; after the last one the numbers start over.
pub proof fn law_only_attestations_spend_numbers(phase: Phase, counter: u32, event: Event)
    ensures
        ({
            let step = step_model(phase, counter, event);
            match step.action {
                Action::Attest { counter: n, .. } => n == counter && step.counter == if counter
                    == 0xffff_ffff {
                    0
                } else {
                    counter + 1
                },
                _ => step.counter == counter,
            }
        }),
{
}

/// The device waits for how the action that it asked for ended, and for nothing else.
pub open spec fn answers(action: Action, event: Event) -> bool {
    match action {
        Action::InitHal => event is HalReady,
        Action::ProbeEntropy => event is Entropy,
        Action::StartEntropy => event is SourceLive,
        Action::AttachClock => event is ClockAttached,
        Action::ReadClock => event is Clock,
        Action::AttachButton => event is ButtonAttached,
        Action::Poll => event is Polled,
        Action::GateCooldown { .. } => event is Cooldown,
        Action::Attest { .. } => event is Attested,
        Action::Pause { .. } => event is Paused,
    }
}

/// A device that is off waits to be switched on, and after every step a device waits
/// for how the action of that step ended, and for nothing else.
pub proof fn law_device_awaits_the_end_of_its_action(
    phase: Phase,
    counter: u32,
    event: Event,
    next: Event,
)
    requires
        awaits(phase, event),
    ensures
        awaits(Phase::Off, next) <==> next is PowerOn,
        awaits(step_model(phase, counter, event).phase, next) <==> answers(
            step_model(phase, counter, event).action,
            next,
        ),
{
}

} // verus!
