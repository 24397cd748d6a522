//! Creation timestamps of messages, kept as nanoseconds since the Unix epoch
//! within the range of dates that the calendar library represents.
use chrono::TimeZone;
use vstd::prelude::*;

verus! {

/// The earliest representable instant (January 1, 262144 BCE), in microseconds.
pub const MIN_UTC_MICROS: i64 = -8334601228800000000i64;

/// The latest representable instant (December 31, 262142 CE, 23:59:59.999999), in microseconds.
pub const MAX_UTC_MICROS: i64 = 8210266876799999999i64;

/// The earliest representable instant, in milliseconds.
pub const MIN_UTC_MILLIS: i64 = -8334601228800000i64;

/// The latest representable instant, in milliseconds.
pub const MAX_UTC_MILLIS: i64 = 8210266876799999i64;

/// The earliest representable instant, in nanoseconds.
pub open spec fn min_utc_nanos() -> int {
    MIN_UTC_MICROS as int * 1000
}

/// The latest representable instant (its last nanosecond), in nanoseconds.
pub open spec fn max_utc_nanos() -> int {
    MAX_UTC_MICROS as int * 1000 + 999
}

/// Calls `Utc.timestamp_micros(micros)` and tells whether it gave a single
/// instant. Its source turns the count into days since the Common Era and
/// accepts exactly the days of the representable calendar range, which the
/// contract states as bounds in microseconds.
#[verifier::external_body]
fn utc_micros_is_single(micros: i64) -> (b: bool)
    ensures
        b == (MIN_UTC_MICROS <= micros <= MAX_UTC_MICROS),
{
    match chrono::Utc.timestamp_micros(micros) {
        chrono::LocalResult::Single(_) => true,
        _ => false,
    }
}

/// Calls `Utc.timestamp_millis_opt(millis)` and tells whether it gave a single
/// instant; as for microseconds, exactly the counts within the calendar range do.
#[verifier::external_body]
fn utc_millis_is_single(millis: i64) -> (b: bool)
    ensures
        b == (MIN_UTC_MILLIS <= millis <= MAX_UTC_MILLIS),
{
    match chrono::Utc.timestamp_millis_opt(millis) {
        chrono::LocalResult::Single(_) => true,
        _ => false,
    }
}

/// Calls `SystemTime::now().duration_since(UNIX_EPOCH)` and returns the
/// duration's whole seconds and its nanoseconds below one second, which the
/// standard library documents as less than a billion; `None` when the clock
/// reads before the epoch. Which instant the clock gives is not stated.
#[verifier::external_body]
fn system_clock() -> (r: Option<(u64, u32)>)
    ensures
        r matches Some(p) ==> p.1 < 1_000_000_000,
{
    let d = std::time::SystemTime::now().duration_since(std::time::UNIX_EPOCH).ok()?;
    Some((d.as_secs(), d.subsec_nanos()))
}

/// The signed value that a `u64` has when its bits are read as an `i64`.
pub open spec fn as_signed(value: u64) -> int {
    if value <= i64::MAX as u64 {
        value as int
    } else {
        value as int - 0x1_0000_0000_0000_0000
    }
}

/// A timestamp read from the message queue: only the creation time is kept.
#[derive(Debug, Clone, PartialEq, Eq)]
pub enum KafkaTimestamp {
    NotAvailable,
    CreateTime(i64),
    LogAppendTime(i64),
}

/// The creation time that a queue timestamp gives, in nanoseconds: its
/// creation time when it has one in range, else the epoch.
pub open spec fn kafka_created_nanos(ts: KafkaTimestamp) -> int {
    match ts {
        KafkaTimestamp::CreateTime(ms) => if MIN_UTC_MILLIS <= ms <= MAX_UTC_MILLIS {
            ms as int * 1_000_000
        } else {
            0
        },
        _ => 0,
    }
}

/// The instant a message was created.
#[derive(Debug, PartialEq, Eq)]
pub struct Created {
    nanos: i128,
}

impl Created {
    /// Nanoseconds since the Unix epoch.
    pub closed spec fn nanos(&self) -> int {
        self.nanos as int
    }

    /// Every timestamp lies within the representable range.
    #[verifier::type_invariant]
    pub closed spec fn wf(&self) -> bool {
        min_utc_nanos() <= self.nanos <= max_utc_nanos()
    }

    /// The Unix epoch.
    pub fn epoch() -> (c: Created)
        ensures
            c.wf(),
            c.nanos() == 0,
    {
        Created { nanos: 0 }
    }

    /// Nanoseconds since the Unix epoch.
    pub fn unix_nanos(&self) -> (n: i128)
        ensures
            n == self.nanos(),
    {
        self.nanos
    }

    /// The instant `nanos` nanoseconds after the epoch, if it is representable.
    pub fn from_unix_nanos(nanos: i128) -> (c: Option<Created>)
        ensures
            c is Some <==> min_utc_nanos() <= nanos <= max_utc_nanos(),
            c matches Some(t) ==> t.wf() && t.nanos() == nanos,
    {
        if -8334601228800000000000i128 <= nanos && nanos <= 8210266876799999999999i128 {
            Some(Created { nanos })
        } else {
            None
        }
    }

    /// The instant `value` microseconds after the epoch, the bits of `value`
    /// read as a signed count; the epoch when that count is out of range.
    pub fn from_micros(value: u64) -> (c: Created)
        ensures
            c.wf(),
            MIN_UTC_MICROS <= as_signed(value) <= MAX_UTC_MICROS ==> c.nanos() == as_signed(value) * 1000,
            !(MIN_UTC_MICROS <= as_signed(value) <= MAX_UTC_MICROS) ==> c.nanos() == 0,
    {
        let micros: i64 = if value <= 9223372036854775807u64 {
            value as i64
        } else {
            -((18446744073709551615u64 - value) as i64) - 1
        };
        if utc_micros_is_single(micros) {
            Created { nanos: micros as i128 * 1000 }
        } else {
            Created { nanos: 0 }
        }
    }

    /// The creation time of a queue message; the epoch when the queue gives no
    /// creation time or one out of range.
    pub fn from_kafka_timestamp(ts: KafkaTimestamp) -> (c: Created)
        ensures
            c.wf(),
            c.nanos() == kafka_created_nanos(ts),
    {
        match ts {
            KafkaTimestamp::CreateTime(ms) => {
                if utc_millis_is_single(ms) {
                    Created { nanos: ms as i128 * 1_000_000 }
                } else {
                    Created { nanos: 0 }
                }
            },
            _ => Created { nanos: 0 },
        }
    }

    /// The instant `secs` whole seconds and `sub` nanoseconds after the epoch,
    /// as a clock reading gives them.
    pub fn from_unix_parts(secs: i64, sub: u32) -> (c: Created)
        requires
            0 <= secs,
            secs as int * 1_000_000 <= MAX_UTC_MICROS as int,
            sub < 1_000_000_000,
        ensures
            c.wf(),
            c.nanos() == secs as int * 1_000_000_000 + sub as int,
    {
        Created { nanos: secs as i128 * 1_000_000_000 + sub as i128 }
    }

    /// The instant a clock reading gives: `secs` whole seconds and `sub`
    /// nanoseconds after the epoch, when that is representable; `None` for no
    /// reading (a clock before the epoch) or one past the representable range.
    pub fn from_clock_reading(reading: Option<(u64, u32)>) -> (c: Option<Created>)
        requires
            reading matches Some(p) ==> p.1 < 1_000_000_000,
        ensures
            match reading {
                Some((secs, sub)) => if secs as int * 1_000_000 <= MAX_UTC_MICROS as int {
                    c matches Some(t) && t.wf() && t.nanos() == secs as int * 1_000_000_000 + sub as int
                } else {
                    c is None
                },
                None => c is None,
            },
    {
        match reading {
            Some((secs, sub)) => {
                if secs <= 8210266876799u64 {
                    Some(Created::from_unix_parts(secs as i64, sub))
                } else {
                    None
                }
            },
            None => None,
        }
    }

    /// The current instant, as the system clock gives it; `None` when the
    /// clock reads before the epoch or past the representable range.
    pub fn now() -> (c: Option<Created>)
        ensures
            c matches Some(t) ==> t.wf() && t.nanos() >= 0,
            exists|reading: Option<(u64, u32)>| #[trigger] call_ensures(Created::from_clock_reading, (reading,), c),
    {
        Created::from_clock_reading(system_clock())
    }
}

impl Default for Created {
    /// The current instant; the epoch when the clock gives no representable
    /// instant.
    fn default() -> (c: Created)
        ensures
            c.wf(),
            call_ensures(Created::now, (), Some(c)) || (c.nanos() == 0 && call_ensures(Created::now, (), None)),
    {
        match Created::now() {
            Some(t) => t,
            None => Created::epoch(),
        }
    }
}

} // verus!

verus! {

/// The default creation time is the instant of a clock reading: some whole
/// seconds since the epoch within the representable range, plus nanoseconds;
/// the epoch itself only when the clock gives no such reading.
pub proof fn law_default_is_a_clock_reading(c: Created)
    requires
        call_ensures(<Created as Default>::default, (), c),
    ensures
        c.nanos() == 0 || exists|secs: u64, sub: u32|
            secs as int * 1_000_000 <= MAX_UTC_MICROS as int
                && #[trigger] (secs as int * 1_000_000_000 + sub as int) == c.nanos(),
{
    if call_ensures(Created::now, (), Some(c)) {
        let reading = choose|reading: Option<(u64, u32)>|
            #[trigger] call_ensures(Created::from_clock_reading, (reading,), Some(c));
        match reading {
            Some((secs, sub)) => {
                assert(secs as int * 1_000_000 <= MAX_UTC_MICROS as int
                    && (secs as int * 1_000_000_000 + sub as int) == c.nanos());
            },
            None => {},
        }
    }
}

} // verus!

