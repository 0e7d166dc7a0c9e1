//! What a verifier can find wrong with a captured log.

use crate::decimal::{
    decimal, digits, is_numeral, law_decimal_reads_back, lemma_digits, lemma_last_number_tells,
};
use vstd::prelude::*;
use vstd::string::*;

verus! {

/// Why a log was not accepted.
#[derive(Debug, Clone, PartialEq, Eq)]
pub enum Error {
    /// A labelled line was not present in the log.
    MissingField(&'static str),
    /// A field was present but was not valid hex.
    BadHex(&'static str),
    /// A field decoded to the wrong number of bytes.
    BadLength { field: &'static str, expected: usize, got: usize },
    /// The public key was not a valid Ed25519 point.
    BadPublicKey,
    /// The signature did not verify over the signed payload.
    SignatureInvalid,
    /// The boot-time entropy gate did not behave as expected.
    Gate(&'static str),
}

impl Error {
    /// The sentence that tells a reader what went wrong.
    pub open spec fn text(self) -> Seq<char> {
        match self {
            Error::MissingField(x) => "log has no `"@ + x@ + ":` line"@,
            Error::BadHex(x) => "`"@ + x@ + "` is not valid hex"@,
            Error::BadLength { field, expected, got } => "`"@ + field@ + "` is "@
                + crate::decimal::digits(got as nat) + " bytes, expected "@
                + crate::decimal::digits(expected as nat),
            Error::BadPublicKey => "public key is not a valid Ed25519 point"@,
            Error::SignatureInvalid => "signature does not verify over the payload"@,
            Error::Gate(x) => "entropy gate: "@ + x@,
        }
    }

    /// The two errors are of one kind and tell of the same things.
    pub open spec fn alike(self, other: Error) -> bool {
        match (self, other) {
            (Error::MissingField(x), Error::MissingField(y)) => x@ == y@,
            (Error::BadHex(x), Error::BadHex(y)) => x@ == y@,
            (
                Error::BadLength { field, expected, got },
                Error::BadLength { field: other_field, expected: other_expected, got: other_got },
            ) => field@ == other_field@ && expected == other_expected && got == other_got,
            (Error::BadPublicKey, Error::BadPublicKey) => true,
            (Error::SignatureInvalid, Error::SignatureInvalid) => true,
            (Error::Gate(x), Error::Gate(y)) => x@ == y@,
            _ => false,
        }
    }

    /// The sentence that tells a reader what went wrong.
    pub fn message(&self) -> (r: String)
        ensures
            r@ == self.text(),
    {
        match self {
            Error::MissingField(x) => {
                let mut r: String = "log has no `".to_owned();
                r.append(x);
                r.append(":` line");
                r
            },
            Error::BadHex(x) => {
                let mut r: String = "`".to_owned();
                r.append(x);
                r.append("` is not valid hex");
                r
            },
            Error::BadLength { field, expected, got } => {
                let mut r: String = "`".to_owned();
                r.append(field);
                r.append("` is ");
                r.append(decimal(*got as u64).as_str());
                r.append(" bytes, expected ");
                r.append(decimal(*expected as u64).as_str());
                r
            },
            Error::BadPublicKey => "public key is not a valid Ed25519 point".to_owned(),
            Error::SignatureInvalid => "signature does not verify over the payload".to_owned(),
            Error::Gate(x) => {
                let mut r: String = "entropy gate: ".to_owned();
                r.append(x);
                r
            },
        }
    }
}

/// The first and the last character of a message tell the kind of the error.
proof fn lemma_kinds_differ(e: Error)
    ensures
        e.text().len() > 0,
        e is MissingField ==> e.text()[0] == 'l',
        e is BadHex ==> e.text()[0] == '`' && e.text().last() == 'x',
        e is BadLength ==> e.text()[0] == '`' && '0' <= e.text().last() <= '9',
        e is BadPublicKey ==> e.text()[0] == 'p',
        e is SignatureInvalid ==> e.text()[0] == 's',
        e is Gate ==> e.text()[0] == 'e',
{
    reveal_strlit("log has no `");
    reveal_strlit("`");
    reveal_strlit("` is not valid hex");
    reveal_strlit("public key is not a valid Ed25519 point");
    reveal_strlit("signature does not verify over the payload");
    reveal_strlit("entropy gate: ");
    if let Error::BadLength { expected, .. } = e {
        lemma_digits(expected as nat);
        assert(e.text().last() == digits(expected as nat).last());
    }
}

/// What stands between two given texts is told by the whole.
proof fn lemma_middle_tells(before: Seq<char>, a: Seq<char>, b: Seq<char>, after: Seq<char>)
    requires
        before + a + after == before + b + after,
    ensures
        a == b,
{
    let x = before + a + after;
    let y = before + b + after;
    assert(x.len() == y.len());
    assert(a =~= x.subrange(before.len() as int, x.len() - after.len()));
    assert(b =~= y.subrange(before.len() as int, y.len() - after.len()));
}

/// A message about a length tells the field and both lengths.
proof fn lemma_lengths_tell(
    field: Seq<char>,
    expected: nat,
    got: nat,
    other_field: Seq<char>,
    other_expected: nat,
    other_got: nat,
)
    requires
        "`"@ + field + "` is "@ + digits(got) + " bytes, expected "@ + digits(expected) == "`"@
            + other_field + "` is "@ + digits(other_got) + " bytes, expected "@ + digits(
            other_expected,
        ),
    ensures
        field == other_field,
        expected == other_expected,
        got == other_got,
{
    reveal_strlit("` is ");
    reveal_strlit(" bytes, expected ");
    let a = "`"@ + field + "` is "@;
    let b = "`"@ + other_field + "` is "@;
    let x = a + digits(got) + " bytes, expected "@;
    let y = b + digits(other_got) + " bytes, expected "@;
    lemma_last_number_tells(x, expected, y, other_expected);
    let none = Seq::<char>::empty();
    assert(none + (a + digits(got)) + " bytes, expected "@ =~= x);
    assert(none + (b + digits(other_got)) + " bytes, expected "@ =~= y);
    lemma_middle_tells(none, a + digits(got), b + digits(other_got), " bytes, expected "@);
    lemma_last_number_tells(a, got, b, other_got);
    lemma_middle_tells("`"@, field, other_field, "` is "@);
}

/// Distinct errors have distinct messages: two messages are the same if and only
/// if the errors are of one kind and tell of the same things.
pub proof fn law_messages_tell_errors_apart(a: Error, b: Error)
    ensures
        a.text() == b.text() <==> a.alike(b),
{
    lemma_kinds_differ(a);
    lemma_kinds_differ(b);
    if a.text() == b.text() {
        match (a, b) {
            (Error::MissingField(x), Error::MissingField(y)) => {
                lemma_middle_tells("log has no `"@, x@, y@, ":` line"@);
            },
            (Error::BadHex(x), Error::BadHex(y)) => {
                lemma_middle_tells("`"@, x@, y@, "` is not valid hex"@);
            },
            (
                Error::BadLength { field, expected, got },
                Error::BadLength { field: other_field, expected: other_expected, got: other_got },
            ) => {
                lemma_lengths_tell(
                    field@,
                    expected as nat,
                    got as nat,
                    other_field@,
                    other_expected as nat,
                    other_got as nat,
                );
            },
            (Error::Gate(x), Error::Gate(y)) => {
                let none = Seq::<char>::empty();
                assert("entropy gate: "@ + x@ + none =~= "entropy gate: "@ + x@);
                assert("entropy gate: "@ + y@ + none =~= "entropy gate: "@ + y@);
                lemma_middle_tells("entropy gate: "@, x@, y@, none);
            },
            _ => {},
        }
    }
}

/// Each message names what its error is about: the field in the words for its kind,
/// the length that was found before the one that was expected, the fault of the
/// entropy gate at the end.
pub proof fn law_messages_name_what_went_wrong(e: Error)
    ensures
        match e {
            Error::MissingField(x) => e.text() == "log has no `"@ + x@ + ":` line"@,
            Error::BadHex(x) => e.text() == "`"@ + x@ + "` is not valid hex"@,
            Error::BadLength { field, expected, got } => exists|n: Seq<char>, m: Seq<char>|
                {
                    &&& #[trigger] is_numeral(n, got as int, 0)
                    &&& #[trigger] is_numeral(m, expected as int, 0)
                    &&& e.text() == "`"@ + field@ + "` is "@ + n + " bytes, expected "@ + m
                },
            Error::BadPublicKey => e.text() == "public key is not a valid Ed25519 point"@,
            Error::SignatureInvalid => e.text() == "signature does not verify over the payload"@,
            Error::Gate(x) => e.text() == "entropy gate: "@ + x@,
        },
{
    if let Error::BadLength { field, expected, got } = e {
        law_decimal_reads_back(expected as nat);
        law_decimal_reads_back(got as nat);
        let n = digits(got as nat);
        let m = digits(expected as nat);
        assert(is_numeral(n, got as int, 0) && is_numeral(m, expected as int, 0));
    }
}

} // verus!
