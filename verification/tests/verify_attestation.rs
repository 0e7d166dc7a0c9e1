//! The verifier on whole logs.

use ed25519_dalek::{Signer, SigningKey};
use icesickle::{
    check_all, check_gate, check_log, check_payload_len, field, judge_signature, parse_log, verify,
    Attestation, Error, ATTESTATION_PAYLOAD_LEN,
};

fn hex(bytes: &[u8]) -> String {
    bytes.iter().map(|b| format!("{b:02x}")).collect()
}

/// Build a log that looks like real firmware output, signed for real.
/// Fixed seed, so this is deterministic.
fn good_log() -> String {
    let sk = SigningKey::from_bytes(&[7u8; 32]);
    let mut payload = [0u8; ATTESTATION_PAYLOAD_LEN];
    payload[..4].copy_from_slice(&[1, 0, 0, 42]); // encoded head, rest is padding
    let sig = sk.sign(&payload);
    format!(
        "INFO - IceSickle no_std firmware\n\
         INFO - gate holds: no true entropy available before TrngSource exists\n\
         INFO - TrngSource live: SAR-ADC entropy enabled, radio off\n\
         INFO - gate open: true entropy available\n\
         INFO - === ATTESTATION ===\n\
         INFO - event:     ButtonPress {{ gpio: 0 }}\n\
         INFO - clock: OK   2026-08-27T14:05:09Z (1787839509000 ms)\n\
         INFO - timestamp: 1787839509000 (Unix ms)\n\
         INFO - payload:   {}\n\
         INFO - pubkey:    {}\n\
         INFO - signature: {}\n",
        hex(&payload),
        hex(sk.verifying_key().as_bytes()),
        hex(&sig.to_bytes()),
    )
}

#[test]
fn accepts_a_genuine_attestation() {
    let a = check_all(&good_log()).expect("genuine attestation should verify");
    assert_eq!(a.payload.len(), ATTESTATION_PAYLOAD_LEN);
}

#[test]
fn rejects_a_tampered_payload() {
    // Flip a bit inside the padding: still the right length, still parses.
    let log = good_log().replace("payload:   0100002a", "payload:   0100002b");
    assert_eq!(check_all(&log), Err(Error::SignatureInvalid));
}

#[test]
fn rejects_a_short_payload() {
    let good = good_log();
    let full = field(&good, "payload:").unwrap().to_string();
    let log = good.replace(&full, &full[..full.len() - 2]);
    assert!(matches!(
        check_all(&log),
        Err(Error::BadLength {
            field: "payload",
            ..
        })
    ));
}

#[test]
fn rejects_a_missing_field() {
    let log = good_log()
        .lines()
        .filter(|l| !l.contains("signature:"))
        .collect::<Vec<_>>()
        .join("\n");
    assert_eq!(check_all(&log), Err(Error::MissingField("signature")));
}

#[test]
fn rejects_an_unexpected_gate_state() {
    let log = good_log().replace(
        "gate holds: no true entropy available before TrngSource exists",
        "UNEXPECTED: true entropy reported available before TrngSource exists",
    );
    assert!(matches!(check_all(&log), Err(Error::Gate(_))));
}

#[test]
fn rejects_a_gate_opening_out_of_order() {
    let mut log = String::from("INFO - gate open: true entropy available\n");
    log.push_str("INFO - gate holds: no true entropy available\n");
    assert!(matches!(check_gate(&log), Err(Error::Gate(_))));
}

#[test]
fn rejects_a_log_with_no_attestation() {
    assert!(check_all("INFO - gate holds\nINFO - gate open\n").is_err());
}

#[test]
fn recovers_the_bytes_that_were_printed() {
    let sk = SigningKey::from_bytes(&[7u8; 32]);
    let a = check_all(&good_log()).unwrap();
    let mut payload = vec![0u8; ATTESTATION_PAYLOAD_LEN];
    payload[0] = 1;
    payload[3] = 42;
    assert_eq!(a.payload, payload);
    assert_eq!(a.public_key, sk.verifying_key().to_bytes());
    assert_eq!(a.signature, sk.sign(&payload).to_bytes());
    assert_eq!(check_log(&good_log()), Ok(a.clone()));
    assert_eq!(parse_log(&good_log()), Ok(a));
}

#[test]
fn signature_is_over_the_exact_payload() {
    let a = check_all(&good_log()).unwrap();
    assert_eq!(verify(&a), Ok(()));
    for i in 0..a.payload.len() {
        let mut bad = a.clone();
        bad.payload[i] ^= 1;
        assert_eq!(verify(&bad), Err(Error::SignatureInvalid));
    }
    let mut bad = a.clone();
    bad.payload.push(0);
    assert_eq!(verify(&bad), Err(Error::SignatureInvalid));
    let mut bad = a.clone();
    bad.signature[0] ^= 1;
    assert_eq!(verify(&bad), Err(Error::SignatureInvalid));
    let mut bad = a;
    bad.public_key = SigningKey::from_bytes(&[8u8; 32]).verifying_key().to_bytes();
    assert_eq!(verify(&bad), Err(Error::SignatureInvalid));
}

#[test]
fn honest_signatures_verify_at_any_length() {
    let sk = SigningKey::from_bytes(&[9u8; 32]);
    for len in [0, 1, 63, 64, 65, 1000] {
        let payload = vec![5u8; len];
        let signature = sk.sign(&payload).to_bytes();
        let public_key = sk.verifying_key().to_bytes();
        assert_eq!(verify(&Attestation { payload, public_key, signature }), Ok(()));
    }
}

#[test]
fn a_key_that_is_no_point_is_refused() {
    // No curve point has the y-coordinate two.
    let mut key = [0u8; 32];
    key[0] = 2;
    let a = Attestation { payload: vec![0; 64], public_key: key, signature: [0; 64] };
    assert_eq!(verify(&a), Err(Error::BadPublicKey));
    let good = good_log();
    let full = field(&good, "pubkey:").unwrap().to_string();
    let log = good.replace(&full, &hex(&key));
    assert_eq!(check_all(&log), Err(Error::BadPublicKey));
}

#[test]
fn signatures_are_judged_key_first() {
    assert_eq!(judge_signature(true, true), Ok(()));
    assert_eq!(judge_signature(true, false), Err(Error::SignatureInvalid));
    assert_eq!(judge_signature(false, true), Err(Error::BadPublicKey));
    assert_eq!(judge_signature(false, false), Err(Error::BadPublicKey));
}

#[test]
fn payload_length_is_fixed() {
    let mut a = Attestation { payload: vec![0; 64], public_key: [0; 32], signature: [0; 64] };
    assert_eq!(check_payload_len(&a), Ok(()));
    a.payload.push(1);
    assert_eq!(
        check_payload_len(&a),
        Err(Error::BadLength { field: "payload", expected: 64, got: 65 })
    );
    a.payload.clear();
    assert_eq!(
        check_payload_len(&a),
        Err(Error::BadLength { field: "payload", expected: 64, got: 0 })
    );
}

#[test]
fn each_field_is_asked_for_in_turn() {
    let key = "00".repeat(32);
    let sig = "00".repeat(64);
    assert_eq!(parse_log(""), Err(Error::MissingField("payload")));
    assert_eq!(parse_log("payload: xx"), Err(Error::BadHex("payload")));
    assert_eq!(parse_log("payload: +f"), Err(Error::BadHex("payload")));
    assert_eq!(parse_log("payload: 00"), Err(Error::MissingField("pubkey")));
    assert_eq!(parse_log("payload: 00\npubkey: 0"), Err(Error::BadHex("pubkey")));
    assert_eq!(parse_log("payload: 00\npubkey: 00"), Err(Error::MissingField("signature")));
    assert_eq!(
        parse_log("payload: 00\npubkey: 00\nsignature: 0g"),
        Err(Error::BadHex("signature"))
    );
    assert_eq!(
        parse_log("payload: 00\npubkey: 00\nsignature: 00"),
        Err(Error::BadLength { field: "pubkey", expected: 32, got: 1 })
    );
    assert_eq!(
        parse_log(&format!("payload: 00\npubkey: {key}\nsignature: 0011")),
        Err(Error::BadLength { field: "signature", expected: 64, got: 2 })
    );
    assert_eq!(
        parse_log(&format!("signature: {sig}\r\npubkey: {key}\r\npayload: 00fF\r\n")),
        Ok(Attestation { payload: vec![0, 255], public_key: [0; 32], signature: [0; 64] })
    );
}

#[test]
fn gate_faults_are_named() {
    assert_eq!(check_gate("gate holds gate open"), Ok(()));
    assert_eq!(
        check_gate("gate holds gate open UNEXPECTED"),
        Err(Error::Gate("firmware reported an UNEXPECTED gate state"))
    );
    assert_eq!(
        check_gate("gate open"),
        Err(Error::Gate("no 'gate holds' line before TrngSource"))
    );
    assert_eq!(
        check_gate("gate holds"),
        Err(Error::Gate("no 'gate open' line after TrngSource"))
    );
    assert_eq!(
        check_gate("gate open gate holds gate open"),
        Err(Error::Gate("'gate open' appeared before 'gate holds'"))
    );
}

#[test]
fn a_gate_fault_comes_before_everything_else() {
    assert_eq!(
        check_all("UNEXPECTED\npayload: zz\n"),
        Err(Error::Gate("firmware reported an UNEXPECTED gate state"))
    );
}

#[test]
fn errors_say_what_went_wrong() {
    assert_eq!(Error::MissingField("payload").message(), "log has no `payload:` line");
    assert_eq!(Error::BadHex("pubkey").message(), "`pubkey` is not valid hex");
    assert_eq!(
        Error::BadLength { field: "signature", expected: 64, got: 120 }.message(),
        "`signature` is 120 bytes, expected 64"
    );
    assert_eq!(Error::BadPublicKey.message(), "public key is not a valid Ed25519 point");
    assert_eq!(Error::SignatureInvalid.message(), "signature does not verify over the payload");
    assert_eq!(
        Error::Gate("no 'gate holds' line before TrngSource").message(),
        "entropy gate: no 'gate holds' line before TrngSource"
    );
}

#[test]
fn distinct_errors_have_distinct_messages() {
    let errors = [
        Error::MissingField("payload"),
        Error::MissingField("pubkey"),
        Error::BadHex("payload"),
        Error::BadHex("payload` is 1 bytes, expected 2"),
        Error::BadLength { field: "payload", expected: 64, got: 6 },
        Error::BadLength { field: "payload", expected: 6, got: 64 },
        Error::BadLength { field: "payload", expected: 4, got: 66 },
        Error::BadLength { field: "signature", expected: 64, got: 6 },
        Error::BadLength { field: "payload` is 1 bytes, expected 2", expected: 64, got: 6 },
        Error::BadPublicKey,
        Error::SignatureInvalid,
        Error::Gate("payload"),
        Error::Gate(""),
    ];
    for (i, a) in errors.iter().enumerate() {
        for (j, b) in errors.iter().enumerate() {
            assert_eq!(a.message() == b.message(), i == j, "{a:?} {b:?}");
        }
    }
}

#[test]
fn later_output_changes_nothing() {
    let log = good_log();
    let accepted = check_all(&log);
    assert!(accepted.is_ok());
    let flipped = log.replace("payload:   0100002a", "payload:   0100002b");
    let empty = log.replace("INFO - payload:", "INFO - payload:\nINFO - ");
    let out_of_order = format!("gate open\n{log}");
    let swapped = "gate open\ngate holds\n";
    for more in ["", "payload: zz", "INFO - pubkey: 00\n", "\r\n", swapped, &log] {
        assert_eq!(check_all(&format!("{log}{more}")), accepted, "{more}");
        for bad in [&flipped, &empty, &out_of_order] {
            let longer = format!("{bad}{more}");
            assert!(check_all(bad).is_err());
            assert_eq!(check_all(&longer), check_all(bad), "{more}");
            assert_eq!(parse_log(&longer), parse_log(bad), "{more}");
            assert_eq!(check_gate(&longer), check_gate(bad), "{more}");
        }
    }
    // A report of an unexpected state is the one thing that counts.
    assert_eq!(
        check_all(&format!("{log}UNEXPECTED")),
        Err(Error::Gate("firmware reported an UNEXPECTED gate state"))
    );
    // Without a line end, what follows belongs to the last line.
    assert_eq!(
        check_all(&format!("{}00", log.trim_end())),
        Err(Error::BadLength { field: "signature", expected: 64, got: 65 })
    );
}

#[test]
fn a_failed_gate_is_not_excused() {
    for log in ["UNEXPECTED", "gate open", "gate open, gate hold", "gate open\ngate holds\n"] {
        assert!(check_gate(log).is_err());
        for more in ["", "s", "\n", "gate holds\ngate open\n", "UNEXPECTED"] {
            assert!(check_gate(&format!("{log}{more}")).is_err(), "{log}{more}");
        }
    }
    // A boot that has not come that far may still pass.
    assert!(check_gate("gate holds\n").is_err());
    assert!(check_gate("gate holds\ngate open").is_ok());
}

#[test]
fn a_passed_gate_stays_passed() {
    for more in ["", "gate open", "\ngate open\ngate holds", "gate closed"] {
        assert!(check_gate(&format!("gate holds\ngate open{more}")).is_ok());
    }
    assert!(check_gate("gate holds\ngate open UN").is_ok());
    assert!(check_gate("gate holds\ngate open UNEXPECTED").is_err());
}
