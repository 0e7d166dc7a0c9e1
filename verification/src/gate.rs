//! The boot-time entropy gate, as a captured log tells of it.

use crate::error::Error;
use crate::text::{chars_of, find};
use vstd::prelude::*;

verus! {

/// What a log says of the entropy gate, or the first thing wrong with it.
pub open spec fn gate_outcome(log: Seq<char>) -> Result<(), Error> {
    if crate::text::contains(log, "UNEXPECTED"@) {
        Err(Error::Gate("firmware reported an UNEXPECTED gate state"))
    } else {
        match crate::text::first_occurrence(log, "gate holds"@) {
            None => Err(Error::Gate("no 'gate holds' line before TrngSource")),
            Some(closed) => match crate::text::first_occurrence(log, "gate open"@) {
                None => Err(Error::Gate("no 'gate open' line after TrngSource")),
                Some(open) => if closed >= open {
                    Err(Error::Gate("'gate open' appeared before 'gate holds'"))
                } else {
                    Ok(())
                },
            },
        }
    }
}

/// Confirm that the boot-time entropy gate behaved as it should.
///
/// The firmware logs "gate holds" before it creates an entropy source and "gate
/// open" after. Either of the "UNEXPECTED" branches firing means that the entropy gate
/// did not do its work, which matters more than any other check here.
pub fn check_gate(log: &str) -> (r: Result<(), Error>)
    ensures
        r == gate_outcome(log@),
{
    let text: Vec<char> = chars_of(log);
    let unexpected: Vec<char> = chars_of("UNEXPECTED");
    if find(text.as_slice(), unexpected.as_slice()).is_some() {
        return Err(Error::Gate("firmware reported an UNEXPECTED gate state"));
    }
    let holds: Vec<char> = chars_of("gate holds");
    let closed: usize = match find(text.as_slice(), holds.as_slice()) {
        Some(at) => at,
        None => return Err(Error::Gate("no 'gate holds' line before TrngSource")),
    };
    let opens: Vec<char> = chars_of("gate open");
    let open: usize = match find(text.as_slice(), opens.as_slice()) {
        Some(at) => at,
        None => return Err(Error::Gate("no 'gate open' line after TrngSource")),
    };
    if closed >= open {
        return Err(Error::Gate("'gate open' appeared before 'gate holds'"));
    }
    Ok(())
}

/// The log goes on with these words at this place.
pub open spec fn says_at(log: Seq<char>, words: Seq<char>, i: int) -> bool {
    0 <= i <= log.len() && words.is_prefix_of(log.skip(i))
}

/// The log says these words somewhere.
pub open spec fn says(log: Seq<char>, words: Seq<char>) -> bool {
    exists|i: int| says_at(log, words, i)
}

/// What is found in a log is what it says, and the first place is the first.
proof fn lemma_says(log: Seq<char>, words: Seq<char>)
    ensures
        says(log, words) == crate::text::contains(log, words),
        match crate::text::first_occurrence(log, words) {
            Some(i) => says_at(log, words, i) && forall|j: int|
                says_at(log, words, j) ==> i <= j,
            None => !says(log, words),
        },
{
    crate::text::law_first_occurrence_is_leftmost(log, words);
    crate::text::law_contains_is_somewhere(log, words);
    if crate::text::contains(log, words) {
        let j = choose|j: int|
            0 <= j <= log.len() && words.is_prefix_of(#[trigger] log.skip(j));
        assert(says_at(log, words, j));
    }
}

/// The entropy gate passes if and only if the log reports nothing unexpected, says
/// "gate open" somewhere, and says "gate holds" before every place at which it says
/// "gate open".
pub proof fn law_gate_passes_if_it_held_before_it_opened(log: Seq<char>)
    ensures
        gate_outcome(log) is Ok <==> {
            &&& !says(log, "UNEXPECTED"@)
            &&& says(log, "gate open"@)
            &&& forall|j: int| #[trigger]
                says_at(log, "gate open"@, j) ==> exists|i: int|
                    i < j && says_at(log, "gate holds"@, i)
        },
{
    lemma_says(log, "UNEXPECTED"@);
    lemma_says(log, "gate holds"@);
    lemma_says(log, "gate open"@);
    if gate_outcome(log) is Ok {
        let closed = crate::text::first_occurrence(log, "gate holds"@)->0;
        assert forall|j: int| #[trigger] says_at(log, "gate open"@, j) implies exists|i: int|
            i < j && says_at(log, "gate holds"@, i) by {
            assert(closed < j && says_at(log, "gate holds"@, closed));
        }
    } else if !says(log, "UNEXPECTED"@) && says(log, "gate open"@) {
        let open = crate::text::first_occurrence(log, "gate open"@)->0;
        assert(says_at(log, "gate open"@, open));
    }
}

/// A fault of the entropy gate is named: a report of something unexpected before
/// all else, then that it was not said to hold, then that it was not said to open,
/// then that it was said to be open at the latest where it was first said to hold.
pub proof fn law_gate_faults_are_named(log: Seq<char>)
    ensures
        ({
            let refused = |fault: &'static str|
                gate_outcome(log) == Err::<(), Error>(Error::Gate(fault));
            let unexpected = says(log, "UNEXPECTED"@);
            let held = says(log, "gate holds"@);
            let opened = says(log, "gate open"@);
            &&& unexpected ==> refused("firmware reported an UNEXPECTED gate state")
            &&& !unexpected && !held ==> refused("no 'gate holds' line before TrngSource")
            &&& !unexpected && held && !opened ==> refused("no 'gate open' line after TrngSource")
            &&& !unexpected && held && opened && !(gate_outcome(log) is Ok) ==> refused(
                "'gate open' appeared before 'gate holds'",
            )
        }),
{
    lemma_says(log, "UNEXPECTED"@);
    lemma_says(log, "gate holds"@);
    lemma_says(log, "gate open"@);
}

} // verus!
