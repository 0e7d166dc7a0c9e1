//! What the device prints on its console.

use crate::decimal::{decimal, padded};
use vstd::prelude::*;
use vstd::string::*;

verus! {

/// The pin that the trigger is wired to, and the number that a payload records.
pub const BUTTON_PIN: u8 = 0;

/// The pin that carries the clock's data line.
///
/// **Unconfirmed.** GPIO8 and GPIO9 are the conventional pair on this chip, which
/// makes them the right default and no more than that: the schematic settles it.
/// Wrong pins give a clock that never answers, which reads as a hardware fault on
/// a device whose hardware is fine. For as long as the pair is a guess,
/// [`pins_note`] says so at every boot.
pub const SDA_PIN: u8 = 8;

/// The pin that carries the clock's clock line. **Unconfirmed**, like
/// [`SDA_PIN`].
pub const SCL_PIN: u8 = 9;

/// A date and a time of day, as the clock reported them.
#[derive(Debug, Clone, Copy, PartialEq, Eq)]
pub struct CivilTime {
    pub year: u16,
    pub month: u8,
    pub day: u8,
    pub hour: u8,
    pub minute: u8,
    pub second: u8,
}

/// A time that the clock reported: its fields, and the same instant in Unix
/// milliseconds.
#[derive(Debug, Clone, Copy, PartialEq, Eq)]
pub struct ClockReading {
    pub time: CivilTime,
    pub unix_ms: u64,
}

/// Where the clock could not be read, and the error that says so.
#[derive(Debug, Clone, PartialEq, Eq)]
pub enum FailureDetail {
    /// The bus failed.
    Bus(String),
    /// The bus worked, and what the clock sent must not be believed.
    Clock(String),
}

/// Why the clock could not be read, and what to do about it.
#[derive(Debug, Clone, PartialEq, Eq)]
pub struct ClockFailure {
    pub cause: String,
    pub advice: String,
    pub detail: FailureDetail,
}

/// What an attestation is about.
#[derive(Debug, Clone, Copy, PartialEq, Eq)]
pub enum AttestationEvent {
    /// The trigger on this pin was pressed.
    ButtonPress { gpio: u8 },
}

/// An attestation in the form in which it is printed.
#[derive(Debug, Clone, PartialEq, Eq)]
pub struct AttestationReport {
    pub event: AttestationEvent,
    pub timestamp_ms: u64,
    pub payload_hex: String,
    pub public_key_hex: String,
    pub signature_hex: String,
}

/// The texts of a list of lines.
pub open spec fn texts(lines: Seq<String>) -> Seq<Seq<char>> {
    lines.map_values(|line: String| line@)
}

/// A time as `YYYY-MM-DDTHH:MM:SSZ`.
pub struct IsoTime(pub CivilTime);

impl IsoTime {
    /// The fields in order, each filled with leading zeros to its width. They
    /// are printed as the clock reported them.
    pub open spec fn text(self) -> Seq<char> {
        crate::decimal::padded_digits(self.0.year as nat, 4) + "-"@
            + crate::decimal::padded_digits(self.0.month as nat, 2) + "-"@
            + crate::decimal::padded_digits(self.0.day as nat, 2) + "T"@
            + crate::decimal::padded_digits(self.0.hour as nat, 2) + ":"@
            + crate::decimal::padded_digits(self.0.minute as nat, 2) + ":"@
            + crate::decimal::padded_digits(self.0.second as nat, 2) + "Z"@
    }

    /// The time as `YYYY-MM-DDTHH:MM:SSZ`.
    pub fn render(&self) -> (r: String)
        ensures
            r@ == self.text(),
    {
        let t: CivilTime = self.0;
        let mut r: String = padded(t.year as u64, 4);
        r.append("-");
        r.append(padded(t.month as u64, 2).as_str());
        r.append("-");
        r.append(padded(t.day as u64, 2).as_str());
        r.append("T");
        r.append(padded(t.hour as u64, 2).as_str());
        r.append(":");
        r.append(padded(t.minute as u64, 2).as_str());
        r.append(":");
        r.append(padded(t.second as u64, 2).as_str());
        r.append("Z");
        r
    }
}

impl AttestationEvent {
    /// The event as it is printed.
    pub open spec fn text(self) -> Seq<char> {
        match self {
            AttestationEvent::ButtonPress { gpio } => "ButtonPress { gpio: "@
                + crate::decimal::digits(gpio as nat) + " }"@,
        }
    }

    /// The event as it is printed.
    pub fn render(&self) -> (r: String)
        ensures
            r@ == self.text(),
    {
        match self {
            AttestationEvent::ButtonPress { gpio } => {
                let mut r: String = "ButtonPress { gpio: ".to_owned();
                r.append(decimal(*gpio as u64).as_str());
                r.append(" }");
                r
            },
        }
    }
}

/// What the device says of its entropy gate before an entropy source exists.
pub open spec fn closed_gate_text(available: bool) -> Seq<char> {
    if available {
        "UNEXPECTED: true entropy reported available before TrngSource exists"@
    } else {
        "gate holds: no true entropy available before TrngSource exists"@
    }
}

/// What the device says of its entropy gate before an entropy source exists.
pub fn closed_gate_line(available: bool) -> (r: String)
    ensures
        r@ == closed_gate_text(available),
{
    if available {
        "UNEXPECTED: true entropy reported available before TrngSource exists".to_owned()
    } else {
        "gate holds: no true entropy available before TrngSource exists".to_owned()
    }
}

/// What the device says of its entropy gate once an entropy source is live.
pub open spec fn open_gate_text(available: bool) -> Seq<char> {
    if available {
        "gate open: true entropy available"@
    } else {
        "UNEXPECTED: TrngSource is live but true entropy is unavailable"@
    }
}

/// What the device says of its entropy gate once an entropy source is live.
pub fn open_gate_line(available: bool) -> (r: String)
    ensures
        r@ == open_gate_text(available),
{
    if available {
        "gate open: true entropy available".to_owned()
    } else {
        "UNEXPECTED: TrngSource is live but true entropy is unavailable".to_owned()
    }
}

/// The two bus pins as they are printed.
pub open spec fn pins_text() -> Seq<char> {
    "SDA=GPIO"@ + crate::decimal::digits(SDA_PIN as nat) + " SCL=GPIO"@
        + crate::decimal::digits(SCL_PIN as nat)
}

/// The two bus pins as they are printed.
fn pins() -> (r: String)
    ensures
        r@ == pins_text(),
{
    let mut r: String = "SDA=GPIO".to_owned();
    r.append(decimal(SDA_PIN as u64).as_str());
    r.append(" SCL=GPIO");
    r.append(decimal(SCL_PIN as u64).as_str());
    r
}

/// The reminder that the bus pins are a guess.
pub open spec fn pins_note_text() -> Seq<char> {
    "note: I2C pins are UNCONFIRMED against the schematic: "@ + pins_text()
}

/// The reminder that the bus pins are a guess. It is printed at every boot for
/// as long as they are one: wrong pins and an absent clock look alike, and this
/// line is what tells them apart.
pub fn pins_note() -> (r: String)
    ensures
        r@ == pins_note_text(),
{
    let mut r: String = "note: I2C pins are UNCONFIRMED against the schematic: ".to_owned();
    r.append(pins().as_str());
    r
}

/// What the device says of a clock that it could read.
pub open spec fn clock_ok_text(reading: ClockReading) -> Seq<char> {
    "clock: OK   "@ + IsoTime(reading.time).text() + " ("@
        + crate::decimal::digits(reading.unix_ms as nat) + " ms)"@
}

/// What the device says of a clock that it could read.
pub fn clock_ok_line(reading: &ClockReading) -> (r: String)
    ensures
        r@ == clock_ok_text(*reading),
{
    let mut r: String = "clock: OK   ".to_owned();
    r.append(IsoTime(reading.time).render().as_str());
    r.append(" (");
    r.append(decimal(reading.unix_ms).as_str());
    r.append(" ms)");
    r
}

/// The line from which a bench diagnosis starts.
pub open spec fn detail_text(detail: FailureDetail) -> Seq<char> {
    match detail {
        FailureDetail::Bus(e) => "  detail: I2C error on "@ + pins_text() + ": "@ + e@,
        FailureDetail::Clock(e) => "  detail: "@ + e@,
    }
}

/// The report on a clock that could not be read.
pub open spec fn clock_failure_texts(context: Seq<char>, failure: ClockFailure) -> Seq<
    Seq<char>,
> {
    seq![
        context + ": clock unavailable"@,
        "  cause:  "@ + failure.cause@,
        "  action: "@ + failure.advice@,
        detail_text(failure.detail),
    ]
}

/// Say why the clock could not be read, and what to do about it.
///
/// After the headline stand three lines, because they answer three different
/// questions and get used by different people: `cause` is what is wrong,
/// `action` is what the holder does next, `detail` is the error that a bench
/// diagnosis starts from.
pub fn report_clock_failure(context: &str, failure: &ClockFailure) -> (r: Vec<String>)
    ensures
        texts(r@) == clock_failure_texts(context@, *failure),
{
    let mut headline: String = context.to_owned();
    headline.append(": clock unavailable");
    let mut cause: String = "  cause:  ".to_owned();
    cause.append(failure.cause.as_str());
    let mut action: String = "  action: ".to_owned();
    action.append(failure.advice.as_str());
    let detail: String = match &failure.detail {
        FailureDetail::Bus(e) => {
            let mut line: String = "  detail: I2C error on ".to_owned();
            line.append(pins().as_str());
            line.append(": ");
            line.append(e.as_str());
            line
        },
        FailureDetail::Clock(e) => {
            let mut line: String = "  detail: ".to_owned();
            line.append(e.as_str());
            line
        },
    };
    let mut r: Vec<String> = Vec::new();
    r.push(headline);
    r.push(cause);
    r.push(action);
    r.push(detail);
    assert(texts(r@) =~= clock_failure_texts(context@, *failure));
    r
}

/// What the device says when it is ready for a press.
pub open spec fn ready_texts(held: bool) -> Seq<Seq<char>> {
    let ready = "ready: press GPIO"@ + crate::decimal::digits(BUTTON_PIN as nat) + " to attest"@;
    if held {
        seq!["note: trigger held at boot; a press requires releasing it first"@, ready]
    } else {
        seq![ready]
    }
}

/// What the device says when it is ready for a press.
pub fn ready_lines(held: bool) -> (r: Vec<String>)
    ensures
        texts(r@) == ready_texts(held),
{
    let mut ready: String = "ready: press GPIO".to_owned();
    ready.append(decimal(BUTTON_PIN as u64).as_str());
    ready.append(" to attest");
    let mut r: Vec<String> = Vec::new();
    if held {
        r.push("note: trigger held at boot; a press requires releasing it first".to_owned());
    }
    r.push(ready);
    assert(texts(r@) =~= ready_texts(held));
    r
}

/// What the device says to a press that came too early.
pub open spec fn cooldown_text(remaining_ms: u64) -> Seq<char> {
    "cooldown: "@ + crate::decimal::digits(remaining_ms as nat) + " ms remaining"@
}

/// What the device says to a press that came too early.
pub fn cooldown_line(remaining_ms: u64) -> (r: String)
    ensures
        r@ == cooldown_text(remaining_ms),
{
    let mut r: String = "cooldown: ".to_owned();
    r.append(decimal(remaining_ms).as_str());
    r.append(" ms remaining");
    r
}

/// An attestation on the console.
pub open spec fn attestation_texts(report: AttestationReport) -> Seq<Seq<char>> {
    seq![
        "=== ATTESTATION ==="@,
        "event:     "@ + report.event.text(),
        "timestamp: "@ + crate::decimal::digits(report.timestamp_ms as nat) + " (Unix ms)"@,
        "payload:   "@ + report.payload_hex@,
        "pubkey:    "@ + report.public_key_hex@,
        "signature: "@ + report.signature_hex@,
    ]
}

/// Put an attestation on the console.
pub fn attestation_lines(report: &AttestationReport) -> (r: Vec<String>)
    ensures
        texts(r@) == attestation_texts(*report),
{
    let mut event: String = "event:     ".to_owned();
    event.append(report.event.render().as_str());
    let mut timestamp: String = "timestamp: ".to_owned();
    timestamp.append(decimal(report.timestamp_ms).as_str());
    timestamp.append(" (Unix ms)");
    let mut payload: String = "payload:   ".to_owned();
    payload.append(report.payload_hex.as_str());
    let mut public_key: String = "pubkey:    ".to_owned();
    public_key.append(report.public_key_hex.as_str());
    let mut signature: String = "signature: ".to_owned();
    signature.append(report.signature_hex.as_str());
    let mut r: Vec<String> = Vec::new();
    r.push("=== ATTESTATION ===".to_owned());
    r.push(event);
    r.push(timestamp);
    r.push(payload);
    r.push(public_key);
    r.push(signature);
    assert(texts(r@) =~= attestation_texts(*report));
    r
}

/// What the device says when it could not make an attestation.
pub open spec fn attestation_failed_text(error: Seq<char>) -> Seq<char> {
    "attestation failed: "@ + error
}

/// What the device says when it could not make an attestation.
pub fn attestation_failed_line(error: &str) -> (r: String)
    ensures
        r@ == attestation_failed_text(error@),
{
    let mut r: String = "attestation failed: ".to_owned();
    r.append(error);
    r
}

/// What lines look like once they are printed: each ends in a line feed.
pub open spec fn console(lines: Seq<Seq<char>>) -> Seq<char>
    decreases lines.len(),
{
    if lines.len() == 0 {
        Seq::empty()
    } else {
        lines[0] + seq!['\n'] + console(lines.skip(1))
    }
}

/// The fields of a time stay within their widths.
pub open spec fn printable(time: CivilTime) -> bool {
    &&& time.year <= 9999
    &&& time.month <= 99
    &&& time.day <= 99
    &&& time.hour <= 99
    &&& time.minute <= 99
    &&& time.second <= 99
}

/// A time fills twenty characters, each field in its place.
pub proof fn law_iso_time_has_fixed_form(time: CivilTime)
    requires
        printable(time),
    ensures
        ({
            let text = IsoTime(time).text();
            &&& text.len() == 20
            &&& text.subrange(0, 4) == crate::decimal::padded_digits(time.year as nat, 4)
            &&& text[4] == '-'
            &&& text.subrange(5, 7) == crate::decimal::padded_digits(time.month as nat, 2)
            &&& text[7] == '-'
            &&& text.subrange(8, 10) == crate::decimal::padded_digits(time.day as nat, 2)
            &&& text[10] == 'T'
            &&& text.subrange(11, 13) == crate::decimal::padded_digits(time.hour as nat, 2)
            &&& text[13] == ':'
            &&& text.subrange(14, 16) == crate::decimal::padded_digits(time.minute as nat, 2)
            &&& text[16] == ':'
            &&& text.subrange(17, 19) == crate::decimal::padded_digits(time.second as nat, 2)
            &&& text[19] == 'Z'
        }),
{
    reveal_strlit("-");
    reveal_strlit("T");
    reveal_strlit(":");
    reveal_strlit("Z");
    crate::decimal::lemma_four_digits(time.year as nat);
    crate::decimal::lemma_two_digits(time.month as nat);
    crate::decimal::lemma_two_digits(time.day as nat);
    crate::decimal::lemma_two_digits(time.hour as nat);
    crate::decimal::lemma_two_digits(time.minute as nat);
    crate::decimal::lemma_two_digits(time.second as nat);
}

/// Two characters tell a number below a hundred.
proof fn lemma_two_digits_tell(a: nat, b: nat)
    requires
        a < 100,
        b < 100,
        crate::decimal::padded_digits(a, 2) == crate::decimal::padded_digits(b, 2),
    ensures
        a == b,
{
    let x = crate::decimal::padded_digits(a, 2);
    let y = crate::decimal::padded_digits(b, 2);
    crate::decimal::lemma_two_digits(a);
    crate::decimal::lemma_two_digits(b);
    assert(x[0] == y[0] && x[1] == y[1]);
}

/// Four characters tell a number below ten thousand.
proof fn lemma_four_digits_tell(a: nat, b: nat)
    requires
        a < 10000,
        b < 10000,
        crate::decimal::padded_digits(a, 4) == crate::decimal::padded_digits(b, 4),
    ensures
        a == b,
{
    let x = crate::decimal::padded_digits(a, 4);
    let y = crate::decimal::padded_digits(b, 4);
    crate::decimal::lemma_four_digits(a);
    crate::decimal::lemma_four_digits(b);
    assert(x[0] == y[0] && x[1] == y[1] && x[2] == y[2] && x[3] == y[3]);
    assert(a / 1000 == b / 1000);
    assert(a / 100 % 10 == b / 100 % 10);
    assert(a / 10 % 10 == b / 10 % 10);
    assert(a % 10 == b % 10);
}

/// A printed time tells which time it is: different times print differently.
pub proof fn law_iso_time_tells_the_time(a: CivilTime, b: CivilTime)
    requires
        printable(a),
        printable(b),
        IsoTime(a).text() == IsoTime(b).text(),
    ensures
        a == b,
{
    law_iso_time_has_fixed_form(a);
    law_iso_time_has_fixed_form(b);
    lemma_four_digits_tell(a.year as nat, b.year as nat);
    lemma_two_digits_tell(a.month as nat, b.month as nat);
    lemma_two_digits_tell(a.day as nat, b.day as nat);
    lemma_two_digits_tell(a.hour as nat, b.hour as nat);
    lemma_two_digits_tell(a.minute as nat, b.minute as nat);
    lemma_two_digits_tell(a.second as nat, b.second as nat);
}

/// `a` is an earlier time than `b`.
pub open spec fn earlier(a: CivilTime, b: CivilTime) -> bool {
    if a.year != b.year {
        a.year < b.year
    } else if a.month != b.month {
        a.month < b.month
    } else if a.day != b.day {
        a.day < b.day
    } else if a.hour != b.hour {
        a.hour < b.hour
    } else if a.minute != b.minute {
        a.minute < b.minute
    } else {
        a.second < b.second
    }
}

/// Numbers of two digits sort as the numbers do.
proof fn lemma_two_digits_sort(a: nat, b: nat) -> (k: int)
    requires
        a < b < 100,
    ensures
        0 <= k < 2,
        crate::text::less_at(
            crate::decimal::padded_digits(a, 2),
            crate::decimal::padded_digits(b, 2),
            k,
        ),
{
    crate::decimal::lemma_two_digits(a);
    crate::decimal::lemma_two_digits(b);
    if a / 10 < b / 10 {
        0
    } else {
        1
    }
}

/// Four digits make up the number.
proof fn lemma_four_digit_values(n: nat)
    requires
        n < 10000,
    ensures
        ({
            let s = crate::decimal::padded_digits(n, 4);
            &&& s.len() == 4
            &&& forall|i: int| 0 <= i < 4 ==> '0' <= #[trigger] s[i] <= '9'
            &&& n == 1000 * (s[0] as int - '0' as int) + 100 * (s[1] as int - '0' as int) + 10 * (
            s[2] as int - '0' as int) + (s[3] as int - '0' as int)
        }),
{
    crate::decimal::lemma_four_digits(n);
    assert(n as int / 100 / 10 == n as int / 1000 && n as int / 10 / 10 == n as int / 100);
}

/// Numbers of four digits sort as the numbers do.
proof fn lemma_four_digits_sort(a: nat, b: nat) -> (k: int)
    requires
        a < b < 10000,
    ensures
        0 <= k < 4,
        crate::text::less_at(
            crate::decimal::padded_digits(a, 4),
            crate::decimal::padded_digits(b, 4),
            k,
        ),
{
    let s = crate::decimal::padded_digits(a, 4);
    let t = crate::decimal::padded_digits(b, 4);
    lemma_four_digit_values(a);
    lemma_four_digit_values(b);
    let k = if s[0] < t[0] {
        0int
    } else if s[1] < t[1] {
        1int
    } else if s[2] < t[2] {
        2int
    } else {
        3int
    };
    assert(crate::text::less_at(s, t, k));
    k
}

/// Texts that start the same sort as the parts behind that start do.
proof fn lemma_part_sorts(s: Seq<char>, t: Seq<char>, at: int, end: int, k: int)
    requires
        0 <= at <= end <= s.len(),
        end <= t.len(),
        crate::text::same_start(s, t, at),
        crate::text::less_at(s.subrange(at, end), t.subrange(at, end), k),
    ensures
        crate::text::sorts_before(s, t),
{
    let x = s.subrange(at, end);
    let y = t.subrange(at, end);
    assert forall|i: int| 0 <= i < at + k implies s[i] == t[i] by {
        if i >= at {
            assert(s[i] == x[i - at] && t[i] == y[i - at]);
        }
    }
    assert(s[at + k] == x[k] && t[at + k] == y[k]);
    assert(crate::text::less_at(s, t, at + k));
}

/// Texts that start the same, go on the same and then have the same separator,
/// start the same up to behind the separator.
proof fn lemma_start_grows(s: Seq<char>, t: Seq<char>, at: int, end: int)
    requires
        0 <= at <= end < s.len(),
        end < t.len(),
        crate::text::same_start(s, t, at),
        s.subrange(at, end) == t.subrange(at, end),
        s[end] == t[end],
    ensures
        crate::text::same_start(s, t, end + 1),
{
    let x = s.subrange(at, end);
    let y = t.subrange(at, end);
    assert forall|i: int| 0 <= i < end + 1 implies s[i] == t[i] by {
        if at <= i < end {
            assert(s[i] == x[i - at] && t[i] == y[i - at]);
        }
    }
}

/// The text of an earlier time sorts before that of a later one.
proof fn lemma_earlier_sorts_before(a: CivilTime, b: CivilTime)
    requires
        printable(a),
        printable(b),
        earlier(a, b),
    ensures
        crate::text::sorts_before(IsoTime(a).text(), IsoTime(b).text()),
{
    let s = IsoTime(a).text();
    let t = IsoTime(b).text();
    law_iso_time_has_fixed_form(a);
    law_iso_time_has_fixed_form(b);
    if a.year != b.year {
        let k = lemma_four_digits_sort(a.year as nat, b.year as nat);
        lemma_part_sorts(s, t, 0, 4, k);
    } else {
        lemma_start_grows(s, t, 0, 4);
        if a.month != b.month {
            let k = lemma_two_digits_sort(a.month as nat, b.month as nat);
            lemma_part_sorts(s, t, 5, 7, k);
        } else {
            lemma_start_grows(s, t, 5, 7);
            if a.day != b.day {
                let k = lemma_two_digits_sort(a.day as nat, b.day as nat);
                lemma_part_sorts(s, t, 8, 10, k);
            } else {
                lemma_start_grows(s, t, 8, 10);
                if a.hour != b.hour {
                    let k = lemma_two_digits_sort(a.hour as nat, b.hour as nat);
                    lemma_part_sorts(s, t, 11, 13, k);
                } else {
                    lemma_start_grows(s, t, 11, 13);
                    if a.minute != b.minute {
                        let k = lemma_two_digits_sort(a.minute as nat, b.minute as nat);
                        lemma_part_sorts(s, t, 14, 16, k);
                    } else {
                        lemma_start_grows(s, t, 14, 16);
                        let k = lemma_two_digits_sort(a.second as nat, b.second as nat);
                        lemma_part_sorts(s, t, 17, 19, k);
                    }
                }
            }
        }
    }
}

/// Printed times sort as the times do.
pub proof fn law_iso_times_sort_as_times(a: CivilTime, b: CivilTime)
    requires
        printable(a),
        printable(b),
    ensures
        crate::text::sorts_before(IsoTime(a).text(), IsoTime(b).text()) <==> earlier(a, b),
{
    let s = IsoTime(a).text();
    let t = IsoTime(b).text();
    if earlier(a, b) {
        lemma_earlier_sorts_before(a, b);
    } else if crate::text::sorts_before(s, t) {
        law_iso_time_has_fixed_form(a);
        law_iso_time_has_fixed_form(b);
        let k = choose|k: int| crate::text::less_at(s, t, k);
        if a == b {
            assert(s[k] < t[k]);
        } else {
            lemma_earlier_sorts_before(b, a);
            let j = choose|j: int| crate::text::less_at(t, s, j);
            if k < j {
                assert(t[k] == s[k]);
            } else if j < k {
                assert(s[j] == t[j]);
            }
        }
    }
}

/// Behind the same words, different texts make different lines.
proof fn lemma_tail_tells(words: Seq<char>, a: Seq<char>, b: Seq<char>)
    requires
        words + a == words + b,
    ensures
        a == b,
{
    assert((words + a).skip(words.len() as int) =~= a);
    assert((words + b).skip(words.len() as int) =~= b);
}

/// A report on the clock tells failures apart: the cause and the advice are
/// those of the failure, and so is the detail among failures of the same kind.
pub proof fn law_clock_failures_are_told_apart(
    context: Seq<char>,
    a: ClockFailure,
    b: ClockFailure,
)
    requires
        clock_failure_texts(context, a) == clock_failure_texts(context, b),
    ensures
        a.cause@ == b.cause@,
        a.advice@ == b.advice@,
        match (a.detail, b.detail) {
            (FailureDetail::Bus(x), FailureDetail::Bus(y)) => x@ == y@,
            (FailureDetail::Clock(x), FailureDetail::Clock(y)) => x@ == y@,
            _ => true,
        },
{
    let x = clock_failure_texts(context, a);
    let y = clock_failure_texts(context, b);
    assert(x[1] == y[1] && x[2] == y[2] && x[3] == y[3]);
    lemma_tail_tells("  cause:  "@, a.cause@, b.cause@);
    lemma_tail_tells("  action: "@, a.advice@, b.advice@);
    match (a.detail, b.detail) {
        (FailureDetail::Bus(p), FailureDetail::Bus(q)) => lemma_tail_tells(
            "  detail: I2C error on "@ + pins_text() + ": "@,
            p@,
            q@,
        ),
        (FailureDetail::Clock(p), FailureDetail::Clock(q)) => lemma_tail_tells(
            "  detail: "@,
            p@,
            q@,
        ),
        _ => {},
    }
}

/// The texts of a list of lines are those of its lines, one by one.
pub proof fn law_texts_are_those_of_the_lines(lines: Seq<String>)
    ensures
        texts(lines).len() == lines.len(),
        forall|i: int| 0 <= i < lines.len() ==> #[trigger] texts(lines)[i] == lines[i]@,
{
}

/// Lines are printed one after the other, each with a line feed behind it.
pub proof fn law_each_line_ends_in_a_feed(line: Seq<char>, rest: Seq<Seq<char>>)
    ensures
        console(Seq::empty()) == Seq::<char>::empty(),
        console(seq![line] + rest) == line + seq!['\n'] + console(rest),
{
    assert((seq![line] + rest).skip(1) =~= rest);
}

/// The line is these words, the number in decimal, and those words.
pub open spec fn shows_number(
    line: Seq<char>,
    before: Seq<char>,
    n: int,
    after: Seq<char>,
) -> bool {
    exists|s: Seq<char>| #[trigger]
        crate::decimal::is_numeral(s, n, 0) && line == before + s + after
}

/// A number between words is shown.
proof fn lemma_shows_number(before: Seq<char>, n: nat, after: Seq<char>)
    ensures
        shows_number(before + crate::decimal::digits(n) + after, before, n as int, after),
{
    crate::decimal::law_decimal_reads_back(n);
    assert(crate::decimal::is_numeral(crate::decimal::digits(n), n as int, 0));
}

/// Between the same words, different numbers make different lines.
proof fn lemma_number_tells(before: Seq<char>, a: nat, b: nat, after: Seq<char>)
    requires
        before + crate::decimal::digits(a) + after == before + crate::decimal::digits(b) + after,
    ensures
        a == b,
{
    let x = before + crate::decimal::digits(a) + after;
    let y = before + crate::decimal::digits(b) + after;
    let from = before.len() as int;
    assert(x.len() == y.len());
    assert(x.subrange(from, x.len() - after.len()) =~= crate::decimal::digits(a));
    assert(y.subrange(from, y.len() - after.len()) =~= crate::decimal::digits(b));
    crate::decimal::lemma_digits_tell(a, b);
}

/// Before an entropy source exists, an entropy gate that holds is said to hold, and
/// one that does not is said to be unexpected. Once one is live, an entropy gate that
/// is open is said to be open, and one that is not is said to be unexpected.
pub proof fn law_gate_lines_tell_what_was_found()
    ensures
        closed_gate_text(false)
            == "gate holds: no true entropy available before TrngSource exists"@,
        closed_gate_text(true)
            == "UNEXPECTED: true entropy reported available before TrngSource exists"@,
        open_gate_text(true) == "gate open: true entropy available"@,
        open_gate_text(false) == "UNEXPECTED: TrngSource is live but true entropy is unavailable"@,
{
}

/// The reminder names the pins of the bus, and that they are unconfirmed.
pub proof fn law_pins_note_names_the_pins()
    ensures
        pins_text() == "SDA=GPIO8 SCL=GPIO9"@,
        pins_note_text()
            == "note: I2C pins are UNCONFIRMED against the schematic: SDA=GPIO8 SCL=GPIO9"@,
{
    reveal_strlit("SDA=GPIO");
    reveal_strlit(" SCL=GPIO");
    reveal_strlit("SDA=GPIO8 SCL=GPIO9");
    reveal_strlit("note: I2C pins are UNCONFIRMED against the schematic: ");
    reveal_strlit("note: I2C pins are UNCONFIRMED against the schematic: SDA=GPIO8 SCL=GPIO9");
    assert(pins_text() =~= "SDA=GPIO8 SCL=GPIO9"@);
    assert(pins_note_text()
        =~= "note: I2C pins are UNCONFIRMED against the schematic: SDA=GPIO8 SCL=GPIO9"@);
}

/// A time shows its six fields in order, each in decimal and filled with zeros to its
/// width, with the separators of a time in Universal Time between them. This holds of
/// fields that do not stay within their widths too.
pub proof fn law_iso_time_shows_every_field(time: CivilTime) -> (fields: (
    Seq<char>,
    Seq<char>,
    Seq<char>,
    Seq<char>,
    Seq<char>,
    Seq<char>,
))
    ensures
        crate::decimal::is_numeral(fields.0, time.year as int, 4),
        crate::decimal::is_numeral(fields.1, time.month as int, 2),
        crate::decimal::is_numeral(fields.2, time.day as int, 2),
        crate::decimal::is_numeral(fields.3, time.hour as int, 2),
        crate::decimal::is_numeral(fields.4, time.minute as int, 2),
        crate::decimal::is_numeral(fields.5, time.second as int, 2),
        IsoTime(time).text() == fields.0 + seq!['-'] + fields.1 + seq!['-'] + fields.2 + seq!['T']
            + fields.3 + seq![':'] + fields.4 + seq![':'] + fields.5 + seq!['Z'],
{
    reveal_strlit("-");
    reveal_strlit("T");
    reveal_strlit(":");
    reveal_strlit("Z");
    assert("-"@ =~= seq!['-'] && "T"@ =~= seq!['T'] && ":"@ =~= seq![':'] && "Z"@ =~= seq!['Z']);
    crate::decimal::law_padded_decimal_reads_back(time.year as nat, 4);
    crate::decimal::law_padded_decimal_reads_back(time.month as nat, 2);
    crate::decimal::law_padded_decimal_reads_back(time.day as nat, 2);
    crate::decimal::law_padded_decimal_reads_back(time.hour as nat, 2);
    crate::decimal::law_padded_decimal_reads_back(time.minute as nat, 2);
    crate::decimal::law_padded_decimal_reads_back(time.second as nat, 2);
    (
        crate::decimal::padded_digits(time.year as nat, 4),
        crate::decimal::padded_digits(time.month as nat, 2),
        crate::decimal::padded_digits(time.day as nat, 2),
        crate::decimal::padded_digits(time.hour as nat, 2),
        crate::decimal::padded_digits(time.minute as nat, 2),
        crate::decimal::padded_digits(time.second as nat, 2),
    )
}

/// A clock that could be read is shown with both forms of the time that it gave.
pub proof fn law_clock_line_shows_the_reading(reading: ClockReading)
    ensures
        shows_number(
            clock_ok_text(reading),
            "clock: OK   "@ + IsoTime(reading.time).text() + " ("@,
            reading.unix_ms as int,
            " ms)"@,
        ),
{
    lemma_shows_number(
        "clock: OK   "@ + IsoTime(reading.time).text() + " ("@,
        reading.unix_ms as nat,
        " ms)"@,
    );
}

/// A report on the clock has a headline that starts with the context, and three lines
/// that show the cause, the advice and the error of that failure. An error of the bus
/// names the pins of the bus as well.
pub proof fn law_clock_report_shows_the_failure(context: Seq<char>, failure: ClockFailure)
    ensures
        ({
            let lines = clock_failure_texts(context, failure);
            &&& lines.len() == 4
            &&& lines[0] == context + ": clock unavailable"@
            &&& lines[1] == "  cause:  "@ + failure.cause@
            &&& lines[2] == "  action: "@ + failure.advice@
            &&& match failure.detail {
                FailureDetail::Bus(e) => lines[3]
                    == "  detail: I2C error on SDA=GPIO8 SCL=GPIO9: "@ + e@,
                FailureDetail::Clock(e) => lines[3] == "  detail: "@ + e@,
            }
        }),
{
    law_pins_note_names_the_pins();
    reveal_strlit("SDA=GPIO8 SCL=GPIO9");
    reveal_strlit("  detail: I2C error on ");
    reveal_strlit(": ");
    reveal_strlit("  detail: I2C error on SDA=GPIO8 SCL=GPIO9: ");
    assert("  detail: I2C error on "@ + "SDA=GPIO8 SCL=GPIO9"@ + ": "@
        =~= "  detail: I2C error on SDA=GPIO8 SCL=GPIO9: "@);
}

/// A device that is ready says which pin to press, and only if the trigger was held
/// does a note about that come first.
pub proof fn law_ready_lines_name_the_trigger(held: bool)
    ensures
        ready_texts(held) == if held {
            seq![
                "note: trigger held at boot; a press requires releasing it first"@,
                "ready: press GPIO0 to attest"@,
            ]
        } else {
            seq!["ready: press GPIO0 to attest"@]
        },
{
    reveal_strlit("ready: press GPIO");
    reveal_strlit(" to attest");
    reveal_strlit("ready: press GPIO0 to attest");
    assert("ready: press GPIO"@ + crate::decimal::digits(BUTTON_PIN as nat) + " to attest"@
        =~= "ready: press GPIO0 to attest"@);
}

/// A press that came too early is told how long to wait, and different waits are told
/// apart.
pub proof fn law_cooldown_line_tells_the_wait(a: u64, b: u64)
    ensures
        shows_number(cooldown_text(a), "cooldown: "@, a as int, " ms remaining"@),
        cooldown_text(a) == cooldown_text(b) <==> a == b,
{
    lemma_shows_number("cooldown: "@, a as nat, " ms remaining"@);
    if cooldown_text(a) == cooldown_text(b) {
        lemma_number_tells("cooldown: "@, a as nat, b as nat, " ms remaining"@);
    }
}

/// A printed attestation has six lines, and each but the first shows what the report
/// holds under that name: the pin that was pressed, the Unix time of the press, and
/// the payload, the public key and the signature as they are.
pub proof fn law_attestation_shows_the_report(report: AttestationReport)
    ensures
        ({
            let lines = attestation_texts(report);
            &&& lines.len() == 6
            &&& lines[0] == "=== ATTESTATION ==="@
            &&& match report.event {
                AttestationEvent::ButtonPress { gpio } => shows_number(
                    lines[1],
                    "event:     ButtonPress { gpio: "@,
                    gpio as int,
                    " }"@,
                ),
            }
            &&& shows_number(
                lines[2],
                "timestamp: "@,
                report.timestamp_ms as int,
                " (Unix ms)"@,
            )
            &&& lines[3] == "payload:   "@ + report.payload_hex@
            &&& lines[4] == "pubkey:    "@ + report.public_key_hex@
            &&& lines[5] == "signature: "@ + report.signature_hex@
        }),
{
    let lines = attestation_texts(report);
    match report.event {
        AttestationEvent::ButtonPress { gpio } => {
            let words = "event:     ButtonPress { gpio: "@;
            reveal_strlit("event:     ");
            reveal_strlit("ButtonPress { gpio: ");
            reveal_strlit("event:     ButtonPress { gpio: ");
            assert("event:     "@ + "ButtonPress { gpio: "@ =~= words);
            assert(lines[1] =~= words + crate::decimal::digits(gpio as nat) + " }"@);
            lemma_shows_number(words, gpio as nat, " }"@);
        },
    }
    lemma_shows_number("timestamp: "@, report.timestamp_ms as nat, " (Unix ms)"@);
}

/// The line of the timestamp tells the timestamp: two reports have the same line if
/// and only if they have the same timestamp.
pub proof fn law_timestamp_line_tells_the_timestamp(a: AttestationReport, b: AttestationReport)
    ensures
        attestation_texts(a)[2] == attestation_texts(b)[2] <==> a.timestamp_ms == b.timestamp_ms,
{
    if attestation_texts(a)[2] == attestation_texts(b)[2] {
        lemma_number_tells(
            "timestamp: "@,
            a.timestamp_ms as nat,
            b.timestamp_ms as nat,
            " (Unix ms)"@,
        );
    }
}

/// Printed attestations are told apart: two reports print the same if and only if
/// they hold the same.
pub proof fn law_attestations_are_told_apart(a: AttestationReport, b: AttestationReport)
    ensures
        attestation_texts(a) == attestation_texts(b) <==> {
            &&& a.event == b.event
            &&& a.timestamp_ms == b.timestamp_ms
            &&& a.payload_hex@ == b.payload_hex@
            &&& a.public_key_hex@ == b.public_key_hex@
            &&& a.signature_hex@ == b.signature_hex@
        },
{
    let x = attestation_texts(a);
    let y = attestation_texts(b);
    if x == y {
        assert(x[1] == y[1] && x[2] == y[2] && x[3] == y[3] && x[4] == y[4] && x[5] == y[5]);
        lemma_tail_tells("event:     "@, a.event.text(), b.event.text());
        match (a.event, b.event) {
            (
                AttestationEvent::ButtonPress { gpio },
                AttestationEvent::ButtonPress { gpio: other },
            ) => lemma_number_tells("ButtonPress { gpio: "@, gpio as nat, other as nat, " }"@),
        }
        law_timestamp_line_tells_the_timestamp(a, b);
        lemma_tail_tells("payload:   "@, a.payload_hex@, b.payload_hex@);
        lemma_tail_tells("pubkey:    "@, a.public_key_hex@, b.public_key_hex@);
        lemma_tail_tells("signature: "@, a.signature_hex@, b.signature_hex@);
    }
}

/// An event names its kind and the pin that was pressed.
pub proof fn law_event_names_the_pin(gpio: u8)
    ensures
        shows_number(
            (AttestationEvent::ButtonPress { gpio }).text(),
            "ButtonPress { gpio: "@,
            gpio as int,
            " }"@,
        ),
{
    lemma_shows_number("ButtonPress { gpio: "@, gpio as nat, " }"@);
}

/// An attestation that could not be made is reported with the error that says why.
pub proof fn law_failed_attestation_shows_the_error(error: Seq<char>)
    ensures
        attestation_failed_text(error) == "attestation failed: "@ + error,
{
}

} // verus!
