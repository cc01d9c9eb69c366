//! The system clock.

use vstd::prelude::*;

verus! {

/// The time since the Unix epoch.
pub struct Elapsed {
    pub seconds: u64,
    /// The part of a second, in nanoseconds.
    pub nanos: u32,
}

/// Reads the time since the Unix epoch. Fails with a text when the clock is before the epoch.
///
/// Calls `std::time::SystemTime::elapsed` on the epoch. The contract claims only that the part of a
/// second is less than a second.
#[verifier::external_body]
pub(crate) fn since_epoch() -> (elapsed: Result<Elapsed, String>)
    ensures
        elapsed matches Ok(elapsed) ==> elapsed.nanos < 1_000_000_000,
{
    match std::time::UNIX_EPOCH.elapsed() {
        Ok(elapsed) => Ok(Elapsed { seconds: elapsed.as_secs(), nanos: elapsed.subsec_nanos() }),
        Err(error) => Err(error.to_string()),
    }
}

/// The whole microseconds of a time.
pub open spec fn micros_of(elapsed: Elapsed) -> nat {
    elapsed.seconds as nat * 1_000_000 + elapsed.nanos as nat / 1000
}

/// Converts a time to microseconds. Fails with a text when they do not fit an `i64`.
pub fn to_micros(elapsed: Elapsed) -> (micros: Result<i64, String>)
    ensures
        micros is Ok <==> micros_of(elapsed) <= i64::MAX,
        match micros {
            Ok(micros) => micros == micros_of(elapsed),
            Err(message) => message@ == "out of range integral type conversion attempted"@,
        },
{
    let micros: u128 = elapsed.seconds as u128 * 1_000_000 + elapsed.nanos as u128 / 1000;
    if micros <= i64::MAX as u128 {
        Ok(micros as i64)
    } else {
        Err("out of range integral type conversion attempted".to_owned())
    }
}

/// Reads the clock in microseconds since the Unix epoch. Fails with a text when the clock is before
/// the epoch or too far behind it.
pub fn now_micros() -> (micros: Result<i64, String>)
    ensures
        micros matches Ok(micros) ==> micros >= 0,
        exists|elapsed: Result<Elapsed, String>|
            (elapsed matches Ok(elapsed) ==> elapsed.nanos < 1_000_000_000) && micros_text(micros)
                == #[trigger] micros_of_reading(elapsed),
{
    let elapsed = since_epoch();
    let micros = reading_to_micros(elapsed);
    assert(micros_text(micros) == micros_of_reading(elapsed));
    micros
}

/// The microseconds of a reading of the clock, or the text of why there are none: the clock is before
/// the epoch, or the microseconds do not fit an `i64`.
pub open spec fn micros_of_reading(elapsed: Result<Elapsed, String>) -> Result<i64, Seq<char>> {
    match elapsed {
        Ok(elapsed) => if micros_of(elapsed) <= i64::MAX {
            Ok(micros_of(elapsed) as i64)
        } else {
            Err("out of range integral type conversion attempted"@)
        },
        Err(message) => Err(message@),
    }
}

/// Microseconds, with a failure by its text.
pub open spec fn micros_text(micros: Result<i64, String>) -> Result<i64, Seq<char>> {
    match micros {
        Ok(micros) => Ok(micros),
        Err(message) => Err(message@),
    }
}

/// Converts a reading of the clock to microseconds. A failure of the clock is handed on.
pub fn reading_to_micros(elapsed: Result<Elapsed, String>) -> (micros: Result<i64, String>)
    ensures
        micros_text(micros) == micros_of_reading(elapsed),
{
    match elapsed {
        Ok(elapsed) => to_micros(elapsed),
        Err(message) => Err(message),
    }
}

/// The whole seconds of a time, or zero when the clock is before the epoch.
pub open spec fn seconds_of(elapsed: Result<Elapsed, String>) -> u64 {
    match elapsed {
        Ok(elapsed) => elapsed.seconds,
        Err(_) => 0,
    }
}

/// Converts a time to seconds. A clock which is before the epoch reads as zero.
pub fn to_seconds(elapsed: Result<Elapsed, String>) -> (seconds: u64)
    ensures
        seconds == seconds_of(elapsed),
{
    match elapsed {
        Ok(elapsed) => elapsed.seconds,
        Err(_) => 0,
    }
}

/// The microseconds of a time are the whole thousands of its nanoseconds. A reading has them unless
/// the clock failed or they are too many, and then has the text of why not.
pub proof fn law_microseconds_are_whole_thousands_of_nanoseconds(elapsed: Elapsed, failure: String)
    ensures
        ({
            let nanos = elapsed.seconds * 1_000_000_000 + elapsed.nanos;
            let fits = nanos < 0x8000_0000_0000_0000 * 1000;
            &&& 0 <= nanos - micros_of(elapsed) * 1000 < 1000
            &&& micros_of_reading(Ok(elapsed)) is Ok <==> fits
            &&& fits ==> 0 <= nanos - micros_of_reading(Ok(elapsed))->Ok_0 * 1000 < 1000
            &&& !fits ==> micros_of_reading(Ok(elapsed))->Err_0
                == "out of range integral type conversion attempted"@
        }),
        micros_of_reading(Err(failure)) == Err::<i64, Seq<char>>(failure@),
{
}

/// The seconds of a reading are the whole seconds since the epoch, and zero where the clock failed.
pub proof fn law_seconds_are_whole(elapsed: Elapsed, failure: String)
    requires
        elapsed.nanos < 1_000_000_000,
    ensures
        0 <= elapsed.seconds * 1_000_000_000 + elapsed.nanos - seconds_of(Ok(elapsed))
            * 1_000_000_000 < 1_000_000_000,
        seconds_of(Err(failure)) == 0,
{
}

/// Microseconds stand for themselves, and a failure for its text.
pub proof fn law_microseconds_are_handed_on(micros: i64, failure: String)
    ensures
        micros_text(Ok(micros)) == Ok::<i64, Seq<char>>(micros),
        micros_text(Err(failure)) == Err::<i64, Seq<char>>(failure@),
{
}

} // verus!
