//! Attestations, and how they are read back from a captured log.

use crate::error::Error;
use crate::hex::unhex;
use crate::text::{chars_of, find, line_feed, trim_bounds};
use vstd::prelude::*;
use vstd::slice::slice_subrange;
use vstd::string::*;

verus! {

/// The length of every signed payload, whatever the event. It must equal the
/// length to which `icesickle_core` pads the payloads that the device signs.
pub const ATTESTATION_PAYLOAD_LEN: usize = 64;

/// The length of an Ed25519 public key.
pub const PUBLIC_KEY_LEN: usize = 32;

/// The length of an Ed25519 signature.
pub const SIGNATURE_LEN: usize = 64;

/// An attestation recovered from a log.
#[derive(Debug, Clone, PartialEq, Eq)]
pub struct Attestation {
    pub payload: Vec<u8>,
    pub public_key: [u8; 32],
    pub signature: [u8; 64],
}

/// The bytes of an attestation.
#[verifier::ext_equal]
pub struct AttestationBytes {
    pub payload: Seq<u8>,
    pub public_key: Seq<u8>,
    pub signature: Seq<u8>,
}

impl View for Attestation {
    type V = AttestationBytes;

    open spec fn view(&self) -> AttestationBytes {
        AttestationBytes {
            payload: self.payload@,
            public_key: self.public_key@,
            signature: self.signature@,
        }
    }
}

/// What is left of a value once it is trimmed, if anything is.
pub open spec fn value_text(s: Seq<char>) -> Option<Seq<char>> {
    if crate::text::trimmed(s).len() == 0 {
        None
    } else {
        Some(crate::text::trimmed(s))
    }
}

/// What follows `label` on the first line that holds it. A value that is all
/// white space is none, even if a later line holds the label too.
pub open spec fn value_in(lines: Seq<Seq<char>>, label: Seq<char>) -> Option<Seq<char>>
    decreases lines.len(),
{
    if lines.len() == 0 {
        None
    } else {
        match crate::text::first_occurrence(lines[0], label) {
            Some(i) => value_text(lines[0].skip(i + label.len())),
            None => value_in(lines.skip(1), label),
        }
    }
}

/// The value of the field `label` in a log.
pub open spec fn field_value(log: Seq<char>, label: Seq<char>) -> Option<Seq<char>> {
    value_in(crate::text::lines(log), label)
}

/// Pull the value following `label` on the first line that holds it.
pub fn field<'a>(log: &'a str, label: &str) -> (r: Option<&'a str>)
    ensures
        match field_value(log@, label@) {
            Some(value) => r matches Some(v) && v@ == value,
            None => r is None,
        },
{
    let chars: Vec<char> = chars_of(log);
    let wanted: Vec<char> = chars_of(label);
    let text: &[char] = chars.as_slice();
    let size: usize = text.len();
    let mut start: usize = 0;
    assert(text@.skip(0) =~= log@);
    while start < size
        invariant
            start <= size,
            size == text@.len(),
            text@ == log@,
            wanted@ == label@,
            field_value(log@, label@) == field_value(text@.skip(start as int), label@),
        decreases size - start,
    {
        let ghost here = text@.skip(start as int);
        let feed: usize = line_feed(text, start);
        let end: usize = if feed < size && feed > start && text[feed - 1] == '\r' {
            feed - 1
        } else {
            feed
        };
        let line: &[char] = slice_subrange(text, start, end);
        proof {
            if feed < size {
                assert(here.take(feed - start) =~= text@.subrange(start as int, feed as int));
                assert(crate::text::without_return(here.take(feed - start)) =~= line@);
                assert(here.skip(feed - start + 1) =~= text@.skip(feed + 1));
            } else {
                assert(line@ =~= here);
            }
            assert(crate::text::lines(here)[0] == line@);
        }
        match find(line, wanted.as_slice()) {
            Some(at) => {
                proof {
                    crate::text::lemma_first_occurrence(line@, label@);
                }
                let from: usize = start + at + wanted.len();
                let (lo, hi) = trim_bounds(text, from, end);
                assert(line@.skip(at + label@.len()) =~= text@.subrange(from as int, end as int));
                if lo == hi {
                    return None;
                }
                return Some(log.substring_char(lo, hi));
            },
            None => {},
        }
        if feed == size {
            assert(crate::text::lines(here).skip(1) =~= Seq::<Seq<char>>::empty());
            assert(value_in(Seq::<Seq<char>>::empty(), label@) is None);
            return None;
        }
        assert(crate::text::lines(here).skip(1) =~= crate::text::lines(text@.skip(feed + 1)));
        start = feed + 1;
    }
    None
}

/// The bytes of the field `label` in a log. Errors call the field `name`.
pub open spec fn field_bytes(log: Seq<char>, label: Seq<char>, name: &'static str) -> Result<
    Seq<u8>,
    Error,
> {
    match field_value(log, label) {
        None => Err(Error::MissingField(name)),
        Some(value) => match crate::hex::unhexed(value) {
            None => Err(Error::BadHex(name)),
            Some(bytes) => Ok(bytes),
        },
    }
}

/// What a log holds of an attestation, or the first thing wrong with it: the
/// three fields in turn, then the two lengths.
pub open spec fn parsed(log: Seq<char>) -> Result<AttestationBytes, Error> {
    match field_bytes(log, "payload:"@, "payload") {
        Err(e) => Err(e),
        Ok(payload) => match field_bytes(log, "pubkey:"@, "pubkey") {
            Err(e) => Err(e),
            Ok(public_key) => match field_bytes(log, "signature:"@, "signature") {
                Err(e) => Err(e),
                Ok(signature) => if public_key.len() != PUBLIC_KEY_LEN {
                    Err(
                        Error::BadLength {
                            field: "pubkey",
                            expected: PUBLIC_KEY_LEN,
                            got: public_key.len() as usize,
                        },
                    )
                } else if signature.len() != SIGNATURE_LEN {
                    Err(
                        Error::BadLength {
                            field: "signature",
                            expected: SIGNATURE_LEN,
                            got: signature.len() as usize,
                        },
                    )
                } else {
                    Ok(AttestationBytes { payload, public_key, signature })
                },
            },
        },
    }
}

/// Decode the field `label` of a log. Errors call the field `name`.
fn decode_field(log: &str, label: &str, name: &'static str) -> (r: Result<Vec<u8>, Error>)
    ensures
        match field_bytes(log@, label@, name) {
            Ok(bytes) => r matches Ok(v) && v@ == bytes,
            Err(e) => r == Err::<Vec<u8>, Error>(e),
        },
{
    match field(log, label) {
        Some(value) => unhex(value, name),
        None => Err(Error::MissingField(name)),
    }
}

/// The bytes of `v` as an array, written over `out`.
fn to_array<const N: usize>(v: &Vec<u8>, mut out: [u8; N]) -> (r: [u8; N])
    requires
        v@.len() == N,
    ensures
        r@ == v@,
{
    let mut i: usize = 0;
    while i < N
        invariant
            i <= N,
            v@.len() == N,
            forall|j: int| 0 <= j < i ==> out@[j] == v@[j],
        decreases N - i,
    {
        out[i] = v[i];
        i += 1;
    }
    assert(out@ =~= v@);
    out
}

/// Recover an attestation from serial output.
pub fn parse_log(log: &str) -> (r: Result<Attestation, Error>)
    ensures
        match parsed(log@) {
            Ok(bytes) => r matches Ok(a) && a@ == bytes,
            Err(e) => r == Err::<Attestation, Error>(e),
        },
{
    let payload: Vec<u8> = match decode_field(log, "payload:", "payload") {
        Ok(v) => v,
        Err(e) => return Err(e),
    };
    let key: Vec<u8> = match decode_field(log, "pubkey:", "pubkey") {
        Ok(v) => v,
        Err(e) => return Err(e),
    };
    let sig: Vec<u8> = match decode_field(log, "signature:", "signature") {
        Ok(v) => v,
        Err(e) => return Err(e),
    };
    if key.len() != PUBLIC_KEY_LEN {
        return Err(
            Error::BadLength { field: "pubkey", expected: PUBLIC_KEY_LEN, got: key.len() },
        );
    }
    if sig.len() != SIGNATURE_LEN {
        return Err(
            Error::BadLength { field: "signature", expected: SIGNATURE_LEN, got: sig.len() },
        );
    }
    let public_key: [u8; 32] = to_array::<32>(&key, [0u8; 32]);
    let signature: [u8; 64] = to_array::<64>(&sig, [0u8; 64]);
    Ok(Attestation { payload, public_key, signature })
}

/// What the length of a payload amounts to.
pub open spec fn payload_length_outcome(got: nat) -> Result<(), Error> {
    if got == ATTESTATION_PAYLOAD_LEN {
        Ok(())
    } else {
        Err(
            Error::BadLength {
                field: "payload",
                expected: ATTESTATION_PAYLOAD_LEN,
                got: got as usize,
            },
        )
    }
}

/// The signed payload must be exactly the fixed length, for every event type.
///
/// If this fails, an attestation's length has started leaking something about
/// its contents.
pub fn check_payload_len(a: &Attestation) -> (r: Result<(), Error>)
    ensures
        r == payload_length_outcome(a@.payload.len()),
{
    if a.payload.len() == ATTESTATION_PAYLOAD_LEN {
        Ok(())
    } else {
        Err(
            Error::BadLength {
                field: "payload",
                expected: ATTESTATION_PAYLOAD_LEN,
                got: a.payload.len(),
            },
        )
    }
}

/// White space is gone from the end of a trimmed text.
proof fn lemma_trim_end(s: Seq<char>)
    ensures
        crate::text::trim_end(s).len() <= s.len(),
        crate::text::trim_end(s) == s.take(crate::text::trim_end(s).len() as int),
        crate::text::trim_end(s).len() > 0 ==> !crate::text::is_white_space(
            crate::text::trim_end(s).last(),
        ),
    decreases s.len(),
{
    if s.len() > 0 && crate::text::is_white_space(s.last()) {
        lemma_trim_end(s.drop_last());
        let n = crate::text::trim_end(s).len() as int;
        assert(s.drop_last().take(n) =~= s.take(n));
    } else {
        assert(s.take(s.len() as int) =~= s);
    }
}

/// White space is gone from the start of a trimmed text.
proof fn lemma_trim_start(s: Seq<char>)
    ensures
        crate::text::trim_start(s).len() > 0 ==> !crate::text::is_white_space(
            crate::text::trim_start(s)[0],
        ),
    decreases s.len(),
{
    if s.len() > 0 && crate::text::is_white_space(s[0]) {
        lemma_trim_start(s.skip(1));
    }
}

/// The value of a field is not empty, has no white space at either end, and
/// stands in a log of which some line holds the label.
pub proof fn law_field_values_are_trimmed(log: Seq<char>, label: Seq<char>, value: Seq<char>)
    requires
        field_value(log, label) == Some(value),
    ensures
        value.len() > 0,
        !crate::text::is_white_space(value[0]),
        !crate::text::is_white_space(value.last()),
        exists|k: int|
            0 <= k < crate::text::lines(log).len() && crate::text::contains(
                #[trigger] crate::text::lines(log)[k],
                label,
            ),
{
    lemma_value_is_trimmed(crate::text::lines(log), label, value);
}

/// So it is among any lines.
proof fn lemma_value_is_trimmed(lines: Seq<Seq<char>>, label: Seq<char>, value: Seq<char>)
    requires
        value_in(lines, label) == Some(value),
    ensures
        value.len() > 0,
        !crate::text::is_white_space(value[0]),
        !crate::text::is_white_space(value.last()),
        exists|k: int|
            0 <= k < lines.len() && crate::text::contains(#[trigger] lines[k], label),
    decreases lines.len(),
{
    match crate::text::first_occurrence(lines[0], label) {
        Some(i) => {
            let rest = lines[0].skip(i + label.len());
            let from = crate::text::trim_start(rest);
            lemma_trim_start(rest);
            lemma_trim_end(from);
            assert(value == crate::text::trim_end(from));
            assert(value[0] == from[0]);
            assert(crate::text::contains(lines[0], label));
        },
        None => {
            lemma_value_is_trimmed(lines.skip(1), label, value);
            let k = choose|k: int|
                0 <= k < lines.skip(1).len() && crate::text::contains(
                    #[trigger] lines.skip(1)[k],
                    label,
                );
            assert(lines[k + 1] == lines.skip(1)[k]);
        },
    }
}

/// The bytes of an attestation are those of its fields.
pub proof fn law_view_shows_the_fields(a: Attestation)
    ensures
        a@.payload == a.payload@,
        a@.public_key == a.public_key@,
        a@.signature == a.signature@,
{
}

/// The value of a field is taken from the first line that holds the label: it is
/// what follows the first place there at which the label stands, up to the end of
/// the line, without white space at either end. If nothing is left, there is none.
pub proof fn law_field_value_follows_the_label(
    log: Seq<char>,
    label: Seq<char>,
    k: int,
    head: Seq<char>,
    before: Seq<char>,
    value: Seq<char>,
    after: Seq<char>,
)
    requires
        0 <= k < crate::text::lines(log).len(),
        crate::text::lines(log)[k] == head + label + before + value + after,
        forall|j: int, i: int|
            0 <= j < k && 0 <= i <= crate::text::lines(log)[j].len() ==> !label.is_prefix_of(
                #[trigger] crate::text::lines(log)[j].skip(i),
            ),
        forall|i: int|
            0 <= i < head.len() ==> !label.is_prefix_of(
                #[trigger] crate::text::lines(log)[k].skip(i),
            ),
        forall|i: int|
            0 <= i < before.len() ==> crate::text::is_white_space(#[trigger] before[i]),
        forall|i: int| 0 <= i < after.len() ==> crate::text::is_white_space(#[trigger] after[i]),
        value.len() > 0 ==> !crate::text::is_white_space(value[0])
            && !crate::text::is_white_space(value.last()),
    ensures
        field_value(log, label) == if value.len() > 0 {
            Some(value)
        } else {
            None
        },
{
    let all = crate::text::lines(log);
    let line = all[k];
    let at = head.len() as int;
    assert forall|j: int| 0 <= j < k implies !crate::text::contains(#[trigger] all[j], label) by {
        crate::text::law_contains_is_somewhere(all[j], label);
    }
    crate::text::law_first_occurrence_is_leftmost(line, label);
    assert(line.skip(at).subrange(0, label.len() as int) =~= label);
    assert(label.is_prefix_of(line.skip(at)));
    assert(crate::text::first_occurrence(line, label) == Some(at));
    lemma_value_of_line(all, label, k);
    assert(line.skip(at + label.len()) =~= before + value + after);
    crate::text::law_trimming_takes_white_space_at_the_ends(before, value, after);
}

/// Lines without the label are passed over.
proof fn lemma_value_of_line(lines: Seq<Seq<char>>, label: Seq<char>, k: int)
    requires
        0 <= k < lines.len(),
        forall|j: int|
            0 <= j < k ==> !crate::text::contains(#[trigger] lines[j], label),
    ensures
        value_in(lines, label) == value_in(lines.skip(k), label),
    decreases k,
{
    if k > 0 {
        let rest = lines.skip(1);
        assert(!crate::text::contains(lines[0], label));
        assert forall|j: int| 0 <= j < k - 1 implies !crate::text::contains(
            #[trigger] rest[j],
            label,
        ) by {
            assert(rest[j] == lines[j + 1]);
        }
        lemma_value_of_line(rest, label, k - 1);
        assert(rest.skip(k - 1) =~= lines.skip(k));
    } else {
        assert(lines.skip(0) =~= lines);
    }
}

/// A log in which no line holds the label has no value for it.
pub proof fn law_no_label_no_value(log: Seq<char>, label: Seq<char>)
    requires
        forall|j: int, i: int|
            0 <= j < crate::text::lines(log).len() && 0 <= i <= crate::text::lines(log)[j].len()
                ==> !label.is_prefix_of(#[trigger] crate::text::lines(log)[j].skip(i)),
    ensures
        field_value(log, label) is None,
{
    let all = crate::text::lines(log);
    assert forall|j: int| 0 <= j < all.len() implies !crate::text::contains(
        #[trigger] all[j],
        label,
    ) by {
        crate::text::law_contains_is_somewhere(all[j], label);
    }
    lemma_no_value(all, label);
}

/// So it is among any lines.
proof fn lemma_no_value(lines: Seq<Seq<char>>, label: Seq<char>)
    requires
        forall|j: int|
            0 <= j < lines.len() ==> !crate::text::contains(#[trigger] lines[j], label),
    ensures
        value_in(lines, label) is None,
    decreases lines.len(),
{
    if lines.len() > 0 {
        let rest = lines.skip(1);
        assert(!crate::text::contains(lines[0], label));
        assert forall|j: int| 0 <= j < rest.len() implies !crate::text::contains(
            #[trigger] rest[j],
            label,
        ) by {
            assert(rest[j] == lines[j + 1]);
        }
        lemma_no_value(rest, label);
    }
}

/// The value of a field is there and spells these bytes.
pub open spec fn field_spells(log: Seq<char>, label: Seq<char>, bytes: Seq<u8>) -> bool {
    field_value(log, label) matches Some(value) && crate::hex::spells(value, bytes)
}

/// A log is parsed into an attestation if and only if its three fields spell the
/// payload, the public key and the signature of that attestation, a key being 32
/// bytes long and a signature 64.
pub proof fn law_parsed_means_the_fields_spell_it(log: Seq<char>, a: AttestationBytes)
    ensures
        parsed(log) == Ok::<AttestationBytes, Error>(a) <==> {
            &&& field_spells(log, "payload:"@, a.payload)
            &&& field_spells(log, "pubkey:"@, a.public_key)
            &&& field_spells(log, "signature:"@, a.signature)
            &&& a.public_key.len() == 32
            &&& a.signature.len() == 64
        },
{
    lemma_field_spells(log, "payload:"@, "payload", a.payload);
    lemma_field_spells(log, "pubkey:"@, "pubkey", a.public_key);
    lemma_field_spells(log, "signature:"@, "signature", a.signature);
}

/// A field is decoded to the bytes that its value spells.
proof fn lemma_field_spells(log: Seq<char>, label: Seq<char>, name: &'static str, bytes: Seq<u8>)
    ensures
        field_bytes(log, label, name) == Ok::<Seq<u8>, Error>(bytes) <==> field_spells(
            log,
            label,
            bytes,
        ),
{
    if let Some(value) = field_value(log, label) {
        crate::hex::law_hex_is_decoded_to_what_it_spells(value, bytes);
    }
}

/// The value of a field is there and made of pairs of hexadecimal digits.
pub open spec fn field_is_hex(log: Seq<char>, label: Seq<char>) -> bool {
    field_value(log, label) matches Some(value) && crate::hex::made_of_digit_pairs(value)
}

/// A log that holds an attestation holds nothing but hexadecimal digits in its
/// three fields.
pub proof fn law_parsed_fields_are_hex(log: Seq<char>)
    requires
        parsed(log) is Ok,
    ensures
        field_is_hex(log, "payload:"@),
        field_is_hex(log, "pubkey:"@),
        field_is_hex(log, "signature:"@),
{
    crate::hex::law_only_hex_is_decoded(field_value(log, "payload:"@)->0);
    crate::hex::law_only_hex_is_decoded(field_value(log, "pubkey:"@)->0);
    crate::hex::law_only_hex_is_decoded(field_value(log, "signature:"@)->0);
}

/// A log that holds no attestation is refused for the first thing wrong with it.
/// The payload is looked at first, the public key and the signature after it, and
/// of each whether it is there and whether it is hex. Only then do the lengths of
/// the key and of the signature count.
pub proof fn law_parse_faults_come_in_order(log: Seq<char>)
    ensures
        ({
            let payload = field_value(log, "payload:"@);
            let key = field_value(log, "pubkey:"@);
            let signature = field_value(log, "signature:"@);
            let payload_ok = field_is_hex(log, "payload:"@);
            let key_ok = field_is_hex(log, "pubkey:"@);
            let signature_ok = field_is_hex(log, "signature:"@);
            let refused = |e: Error| parsed(log) == Err::<AttestationBytes, Error>(e);
            &&& payload is None ==> refused(Error::MissingField("payload"))
            &&& payload is Some && !payload_ok ==> refused(Error::BadHex("payload"))
            &&& payload_ok && key is None ==> refused(Error::MissingField("pubkey"))
            &&& payload_ok && key is Some && !key_ok ==> refused(Error::BadHex("pubkey"))
            &&& payload_ok && key_ok && signature is None ==> refused(
                Error::MissingField("signature"),
            )
            &&& payload_ok && key_ok && signature is Some && !signature_ok ==> refused(
                Error::BadHex("signature"),
            )
            &&& payload_ok && key_ok && signature_ok && key->0.len() != 64 ==> refused(
                Error::BadLength {
                    field: "pubkey",
                    expected: 32,
                    got: (key->0.len() / 2) as usize,
                },
            )
            &&& payload_ok && key_ok && signature_ok && key->0.len() == 64 && signature->0.len()
                != 128 ==> refused(
                Error::BadLength {
                    field: "signature",
                    expected: 64,
                    got: (signature->0.len() / 2) as usize,
                },
            )
            &&& payload_ok && key_ok && signature_ok && key->0.len() == 64 && signature->0.len()
                == 128 ==> parsed(log) is Ok
        }),
{
    if let Some(value) = field_value(log, "payload:"@) {
        crate::hex::law_only_hex_is_decoded(value);
    }
    if let Some(value) = field_value(log, "pubkey:"@) {
        crate::hex::law_only_hex_is_decoded(value);
    }
    if let Some(value) = field_value(log, "signature:"@) {
        crate::hex::law_only_hex_is_decoded(value);
    }
}

/// A payload of 64 bytes has the right length, and one of any other length is
/// refused with its length.
pub proof fn law_payload_has_one_length(got: usize)
    ensures
        payload_length_outcome(got as nat) is Ok <==> got == 64,
        got != 64 ==> payload_length_outcome(got as nat) == Err::<(), Error>(
            Error::BadLength { field: "payload", expected: 64, got },
        ),
{
}

} // verus!
