//! The device, and what a verifier makes of its console.

use ed25519_dalek::{Signer, SigningKey};
use icesickle::console::{
    AttestationEvent, AttestationReport, CivilTime, ClockFailure, ClockReading, FailureDetail,
    IsoTime,
};
use icesickle::device::{Action, Event, POLL_INTERVAL_MS};
use icesickle::{check_all, Device, Error, ATTESTATION_PAYLOAD_LEN};

const PAUSE: Action = Action::Pause { millis: 10 };

fn reading() -> ClockReading {
    ClockReading {
        time: CivilTime { year: 2026, month: 8, day: 27, hour: 14, minute: 5, second: 9 },
        unix_ms: 1787839509000,
    }
}

fn failure() -> ClockFailure {
    ClockFailure {
        cause: "the coin cell is dead".to_string(),
        advice: "replace it".to_string(),
        detail: FailureDetail::Clock("OscillatorStopped".to_string()),
    }
}

fn report(seed: u8) -> AttestationReport {
    let hex = |bytes: &[u8]| -> String { bytes.iter().map(|b| format!("{b:02x}")).collect() };
    let sk = SigningKey::from_bytes(&[seed; 32]);
    let payload = [seed; ATTESTATION_PAYLOAD_LEN];
    AttestationReport {
        event: AttestationEvent::ButtonPress { gpio: 0 },
        timestamp_ms: 1787839509000,
        payload_hex: hex(&payload),
        public_key_hex: hex(sk.verifying_key().as_bytes()),
        signature_hex: hex(&sk.sign(&payload).to_bytes()),
    }
}

/// A device and everything that it has printed.
struct Bench {
    device: Device,
    log: String,
}

impl Bench {
    fn new() -> Bench {
        Bench { device: Device::new(), log: String::new() }
    }

    fn tell(&mut self, event: Event) -> (Vec<String>, Action) {
        assert!(self.device.awaits_event(&event));
        let step = self.device.step(event);
        for line in &step.lines {
            self.log.push_str(line);
            self.log.push('\n');
        }
        (step.lines, step.action)
    }

    fn boot(before: bool, after: bool, clock: Result<ClockReading, ClockFailure>) -> Bench {
        let mut bench = Bench::new();
        assert_eq!(bench.tell(Event::PowerOn).1, Action::InitHal);
        assert_eq!(bench.tell(Event::HalReady).1, Action::ProbeEntropy);
        assert_eq!(bench.tell(Event::Entropy { available: before }).1, Action::StartEntropy);
        assert_eq!(bench.tell(Event::SourceLive).1, Action::ProbeEntropy);
        assert_eq!(bench.tell(Event::Entropy { available: after }).1, Action::AttachClock);
        assert_eq!(bench.tell(Event::ClockAttached).1, Action::ReadClock);
        assert_eq!(bench.tell(Event::Clock(clock)).1, Action::AttachButton);
        assert_eq!(bench.tell(Event::ButtonAttached { held: false }).1, Action::Poll);
        bench
    }

    fn press(&mut self, uptime_ms: u64) {
        let step = self.tell(Event::Polled { uptime_ms, pressed: true });
        assert_eq!(step, (vec![], Action::ReadClock));
    }
}

#[test]
fn a_healthy_boot_prints_its_story() {
    let bench = Bench::boot(false, true, Ok(reading()));
    assert_eq!(
        bench.log,
        "IceSickle no_std firmware\n\
         esp_hal::init done\n\
         gate holds: no true entropy available before TrngSource exists\n\
         TrngSource live: SAR-ADC entropy enabled, radio off\n\
         gate open: true entropy available\n\
         note: I2C pins are UNCONFIRMED against the schematic: SDA=GPIO8 SCL=GPIO9\n\
         clock: OK   2026-08-27T14:05:09Z (1787839509000 ms)\n\
         ready: press GPIO0 to attest\n"
    );
}

#[test]
fn a_boot_with_a_dead_clock_goes_on() {
    let bench = Bench::boot(false, true, Err(failure()));
    assert!(bench.log.ends_with(
        "clock: clock unavailable\n  \
         cause:  the coin cell is dead\n  \
         action: replace it\n  \
         detail: OscillatorStopped\n\
         ready: press GPIO0 to attest\n"
    ));
}

#[test]
fn a_held_trigger_is_noted() {
    let mut bench = Bench::new();
    for event in [
        Event::PowerOn,
        Event::HalReady,
        Event::Entropy { available: false },
        Event::SourceLive,
        Event::Entropy { available: true },
        Event::ClockAttached,
        Event::Clock(Ok(reading())),
    ] {
        bench.tell(event);
    }
    let (lines, action) = bench.tell(Event::ButtonAttached { held: true });
    assert_eq!(
        lines,
        vec![
            "note: trigger held at boot; a press requires releasing it first".to_string(),
            "ready: press GPIO0 to attest".to_string(),
        ]
    );
    assert_eq!(action, Action::Poll);
}

#[test]
fn a_press_reads_the_clock_then_asks_the_cooldown_then_attests() {
    let mut bench = Bench::boot(false, true, Ok(reading()));
    assert_eq!(bench.tell(Event::Polled { uptime_ms: 5, pressed: false }), (vec![], PAUSE));
    assert_eq!(bench.tell(Event::Paused), (vec![], Action::Poll));
    bench.press(15);
    assert_eq!(
        bench.tell(Event::Clock(Ok(reading()))),
        (vec![], Action::GateCooldown { uptime_ms: 15 })
    );
    assert_eq!(
        bench.tell(Event::Cooldown(Ok(()))),
        (
            vec![],
            Action::Attest {
                event: AttestationEvent::ButtonPress { gpio: 0 },
                timestamp_ms: 1787839509000,
                counter: 0,
            }
        )
    );
    let r = report(7);
    let (lines, action) = bench.tell(Event::Attested(Ok(r.clone())));
    assert_eq!(
        lines,
        vec![
            "=== ATTESTATION ===".to_string(),
            "event:     ButtonPress { gpio: 0 }".to_string(),
            "timestamp: 1787839509000 (Unix ms)".to_string(),
            format!("payload:   {}", r.payload_hex),
            format!("pubkey:    {}", r.public_key_hex),
            format!("signature: {}", r.signature_hex),
        ]
    );
    assert_eq!(action, PAUSE);
}

#[test]
fn a_dead_clock_refuses_every_press_and_never_asks_the_cooldown() {
    let mut bench = Bench::boot(false, true, Err(failure()));
    for uptime_ms in [100, 200, 300] {
        bench.press(uptime_ms);
        let (lines, action) = bench.tell(Event::Clock(Err(failure())));
        assert_eq!(lines[0], "attestation refused: clock unavailable");
        assert_eq!(lines[1], "  cause:  the coin cell is dead");
        assert_eq!(action, PAUSE);
        bench.tell(Event::Paused);
    }
    assert_eq!(bench.device.counter, 0);
}

#[test]
fn a_bus_failure_names_the_pins() {
    let mut bench = Bench::boot(false, true, Ok(reading()));
    bench.press(1);
    let mut f = failure();
    f.detail = FailureDetail::Bus("Timeout".to_string());
    let (lines, _) = bench.tell(Event::Clock(Err(f)));
    assert_eq!(lines[3], "  detail: I2C error on SDA=GPIO8 SCL=GPIO9: Timeout");
}

#[test]
fn the_cooldown_answers_an_early_press() {
    let mut bench = Bench::boot(false, true, Ok(reading()));
    bench.press(1);
    bench.tell(Event::Clock(Ok(reading())));
    assert_eq!(
        bench.tell(Event::Cooldown(Err(900))),
        (vec!["cooldown: 900 ms remaining".to_string()], PAUSE)
    );
    assert_eq!(bench.device.counter, 0);
}

#[test]
fn attestations_are_numbered_even_if_they_fail() {
    let mut bench = Bench::boot(false, true, Ok(reading()));
    for wanted in 0..3 {
        bench.press(1);
        bench.tell(Event::Clock(Ok(reading())));
        let (_, action) = bench.tell(Event::Cooldown(Ok(())));
        assert!(matches!(action, Action::Attest { counter, .. } if counter == wanted));
        assert_eq!(
            bench.tell(Event::Attested(Err("Encode".to_string()))).0,
            vec!["attestation failed: Encode".to_string()]
        );
        bench.tell(Event::Paused);
    }
}

#[test]
fn numbers_start_over() {
    let mut device = Device::new();
    device.counter = u32::MAX;
    let step = device.attest(5);
    assert!(matches!(step.action, Action::Attest { counter: u32::MAX, timestamp_ms: 5, .. }));
    assert_eq!(device.counter, 0);
}

#[test]
fn events_out_of_turn_are_not_awaited() {
    let device = Device::new();
    assert!(device.awaits_event(&Event::PowerOn));
    assert!(!device.awaits_event(&Event::Paused));
    assert!(!device.awaits_event(&Event::Cooldown(Ok(()))));
}

#[test]
fn polls_are_well_inside_the_debounce_window() {
    assert!(POLL_INTERVAL_MS < 50);
}

#[test]
fn a_verifier_reads_back_what_the_device_prints() {
    let mut bench = Bench::boot(false, true, Ok(reading()));
    bench.press(1);
    bench.tell(Event::Clock(Ok(reading())));
    bench.tell(Event::Cooldown(Err(10)));
    bench.tell(Event::Paused);
    bench.press(20);
    bench.tell(Event::Clock(Ok(reading())));
    bench.tell(Event::Cooldown(Ok(())));
    bench.tell(Event::Attested(Ok(report(7))));
    let a = check_all(&bench.log).unwrap();
    assert_eq!(a.payload, vec![7; 64]);
    assert_eq!(a.public_key, SigningKey::from_bytes(&[7; 32]).verifying_key().to_bytes());
    // The same log behind a log level, a source or a time.
    for mark in ["INFO - ", "[info] ", "DEBUG ", "2026-08-27 14:05 esp-println says: ", "gate: "] {
        let marked: String = bench.log.lines().map(|l| format!("{mark}{l}\n")).collect();
        assert_eq!(check_all(&marked).as_ref(), Ok(&a), "{mark}");
    }
}

#[test]
fn a_mark_that_holds_what_a_verifier_looks_for_is_in_its_way() {
    let mut bench = Bench::boot(false, true, Ok(reading()));
    bench.press(1);
    bench.tell(Event::Clock(Ok(reading())));
    bench.tell(Event::Cooldown(Ok(())));
    bench.tell(Event::Attested(Ok(report(7))));
    let behind = |mark: &str| -> String {
        bench.log.lines().map(|l| format!("{mark}{l}\n")).collect()
    };
    assert!(check_all(&behind("")).is_ok());
    assert_eq!(check_all(&behind("payload: ")), Err(Error::BadHex("payload")));
    assert_eq!(
        check_all(&behind("UNEXPECTED ")),
        Err(Error::Gate("firmware reported an UNEXPECTED gate state"))
    );
    assert_eq!(
        check_all(&behind("gate open ")),
        Err(Error::Gate("'gate open' appeared before 'gate holds'"))
    );
}

#[test]
fn only_the_first_attestation_of_a_log_is_read() {
    let mut bench = Bench::boot(false, true, Ok(reading()));
    for seed in [3, 4] {
        bench.press(1);
        bench.tell(Event::Clock(Ok(reading())));
        bench.tell(Event::Cooldown(Ok(())));
        bench.tell(Event::Attested(Ok(report(seed))));
        bench.tell(Event::Paused);
    }
    assert_eq!(check_all(&bench.log).unwrap().payload, vec![3; 64]);
}

#[test]
fn a_verifier_refuses_a_device_with_a_broken_gate() {
    for (before, after) in [(true, true), (true, false), (false, false)] {
        let bench = Bench::boot(before, after, Ok(reading()));
        assert_eq!(
            check_all(&bench.log),
            Err(Error::Gate("firmware reported an UNEXPECTED gate state"))
        );
    }
}

#[test]
fn times_are_printed_as_the_clock_reported_them() {
    let text = |year, month, day, hour, minute, second| {
        IsoTime(CivilTime { year, month, day, hour, minute, second }).render()
    };
    assert_eq!(text(2026, 8, 27, 14, 5, 9), "2026-08-27T14:05:09Z");
    assert_eq!(text(0, 0, 0, 0, 0, 0), "0000-00-00T00:00:00Z");
    assert_eq!(text(65535, 100, 255, 1, 2, 3), "65535-100-255T01:02:03Z");
}

#[test]
fn printed_times_sort_as_the_times_do() {
    // Each differs from the one before in the next field, the last from its
    // neighbour in every field.
    let times = [
        CivilTime { year: 999, month: 12, day: 31, hour: 23, minute: 59, second: 59 },
        CivilTime { year: 2026, month: 1, day: 30, hour: 23, minute: 59, second: 58 },
        CivilTime { year: 2026, month: 10, day: 2, hour: 23, minute: 59, second: 57 },
        CivilTime { year: 2026, month: 10, day: 11, hour: 3, minute: 59, second: 56 },
        CivilTime { year: 2026, month: 10, day: 11, hour: 20, minute: 4, second: 55 },
        CivilTime { year: 2026, month: 10, day: 11, hour: 20, minute: 30, second: 5 },
        CivilTime { year: 2026, month: 10, day: 11, hour: 20, minute: 30, second: 40 },
        CivilTime { year: 9999, month: 0, day: 0, hour: 0, minute: 0, second: 0 },
    ];
    for i in 0..times.len() {
        for j in 0..times.len() {
            let a = IsoTime(times[i]).render();
            let b = IsoTime(times[j]).render();
            assert_eq!(a < b, i < j, "{a} {b}");
        }
    }
}
