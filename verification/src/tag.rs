//! Per-file identifier generation.
//!
//! An identifier is a version-1-style UUID combining the host MAC address
//! with a monotone 128-bit sequence value: a process-wide seed, taken from
//! the wall clock when the process first needs one, plus the nanoseconds of a
//! fresh timestamp probe. The seed keeps identifiers apart across processes
//! whose clocks resolve coarsely; the additive composition keeps them ordered
//! within one process.
//!
//! The identifier is written to a side-channel next to the file itself (the
//! path [`tag_stream_path`] names); the host performs that write and the
//! matching read, and this module only mints the value.
use vstd::prelude::*;

verus! {

/// Largest value the clock seed can take: the seed is `10^9 * seconds +
/// nanos` with `seconds` a `u64` and `nanos` below `10^9`, which stays under
/// `2^94`.
pub open spec fn seed_bound() -> int {
    0x4000_0000_0000_0000_0000_0000
}

/// The process-wide identifier clock: a seed taken once from the wall clock,
/// in nanoseconds since the Unix epoch.
pub struct Clock(u128);

/// Why an identifier could not be minted.
#[derive(Debug, PartialEq, Eq, Structural)]
pub enum TagError {
    /// The wall clock reported a moment before the Unix epoch.
    ClockUnavailable,
    /// The host exposes no usable MAC address; identifiers cannot be made
    /// unique across hosts, so the tagger cannot operate.
    MacUnavailable,
}

/// Seconds and nanoseconds of the wall clock, measured from the Unix epoch;
/// `None` when the clock stands before the epoch.
///
/// Relies on `std::time::SystemTime::now` and
/// `SystemTime::duration_since(UNIX_EPOCH)`: the subsecond part of a
/// `Duration` is below one billion.
#[verifier::external_body]
fn current_unix_time() -> (r: Option<(u64, u32)>)
    ensures
        r matches Some(t) ==> t.1 < 1_000_000_000,
{
    match std::time::SystemTime::now().duration_since(std::time::SystemTime::UNIX_EPOCH) {
        Ok(d) => Some((d.as_secs(), d.subsec_nanos())),
        Err(_) => None,
    }
}

/// The six bytes of one of the host's MAC addresses, or `None` when none can
/// be read. The value depends on the machine, so nothing is promised of it.
///
/// Relies on `mac_address::get_mac_address` and `MacAddress::bytes`.
#[verifier::external_body]
fn host_mac_bytes() -> (r: Option<[u8; 6]>) {
    match mac_address::get_mac_address() {
        Ok(Some(m)) => Some(m.bytes()),
        _ => None,
    }
}

/// The canonical hyphenated text of the version-1 UUID made from the given
/// Unix timestamp, 14-bit counter and node bytes. The result depends on the
/// arguments alone.
pub uninterp spec fn uuid_v1_text(seconds: u64, subsec_nanos: u32, counter: u128, node: Seq<u8>) -> Seq<char>;

/// Relies on `uuid::Timestamp::from_unix_time`, `uuid::Uuid::new_v1` and
/// `Uuid`'s `Display`: both are pure functions of their arguments, and the
/// display form is the canonical 8-4-4-4-12 hyphenated rendering, 36
/// characters long.
#[verifier::external_body]
fn uuid_v1_string(seconds: u64, subsec_nanos: u32, counter: u128, node: &[u8; 6]) -> (r: String)
    ensures
        r@ == uuid_v1_text(seconds, subsec_nanos, counter, node@),
        r@.len() == 36,
{
    let ts = uuid::Timestamp::from_unix_time(seconds, subsec_nanos, counter, 14);
    let id = uuid::Uuid::new_v1(ts, node);
    format!("{}", id)
}

/// The sequence value the clock derives from one timestamp probe.
pub open spec fn clock_sequence_of(seed: u128, seconds: u64, subsec_nanos: u32) -> int {
    seed + 1_000_000_000 * (seconds as int) + (subsec_nanos as int)
}

impl Clock {
    /// The seed the clock was created with.
    pub closed spec fn seed(&self) -> u128 {
        self.0
    }

    /// The seed is small enough that every derived sequence value fits a
    /// `u128`.
    pub open spec fn wf(&self) -> bool {
        (self.seed() as int) < seed_bound()
    }

    /// Seeds a clock from the wall clock; `None` when the wall clock stands
    /// before the Unix epoch.
    pub fn new() -> (r: Option<Clock>)
        ensures
            r matches Some(c) ==> c.wf(),
    {
        match current_unix_time() {
            Some((seconds, nanos)) => {
                proof {
                    assert((seconds as int) * 1_000_000_000 + (nanos as int) < seed_bound())
                        by (nonlinear_arith)
                        requires
                            seconds <= u64::MAX,
                            nanos < 1_000_000_000,
                    ;
                }
                let seed: u128 = (seconds as u128) * 1_000_000_000u128 + (nanos as u128);
                Some(Clock(seed))
            },
            None => None,
        }
    }

    /// The monotone sequence value for one fresh timestamp probe: the seed
    /// plus the probe rendered in nanoseconds.
    pub fn generate_sequence(&self, seconds: u64, subsec_nanos: u32) -> (r: u128)
        requires
            self.wf(),
        ensures
            r == clock_sequence_of(self.seed(), seconds, subsec_nanos),
    {
        proof {
            assert(1_000_000_000 * (seconds as int) < seed_bound()) by (nonlinear_arith)
                requires
                    seconds <= u64::MAX,
            ;
        }
        self.0 + 1_000_000_000u128 * (seconds as u128) + (subsec_nanos as u128)
    }
}

/// Mints a fresh identifier over the given node bytes: probes the wall
/// clock, derives the clock's sequence value for the probe, and renders the
/// version-1 UUID.
///
/// The text of a successful result is always the 36-character hyphenated
/// rendering of the UUID the clock's sequence value produces for some probe;
/// which probe depends on the moment of the call.
pub fn mint_file_id_with_node(clock: &Clock, node: &[u8; 6]) -> (r: Result<String, TagError>)
    requires
        clock.wf(),
    ensures
        r matches Ok(id) ==> id@.len() == 36,
        r matches Ok(id) ==> exists|s: u64, n: u32|
            n < 1_000_000_000 && id@ == #[trigger] uuid_v1_text(
                s,
                n,
                clock_sequence_of(clock.seed(), s, n) as u128,
                node@,
            ),
        r is Err ==> r == Err::<String, TagError>(TagError::ClockUnavailable),
{
    let probe = match current_unix_time() {
        Some(t) => t,
        None => {
            return Err(TagError::ClockUnavailable);
        },
    };
    let counter = clock.generate_sequence(probe.0, probe.1);
    let id = uuid_v1_string(probe.0, probe.1, counter, node);
    proof {
        assert(id@ == uuid_v1_text(
            probe.0,
            probe.1,
            clock_sequence_of(clock.seed(), probe.0, probe.1) as u128,
            node@,
        ));
    }
    Ok(id)
}

/// Mints a fresh identifier: [`mint_file_id_with_node`] over the host's MAC
/// address, which ties the identifier to this machine.
pub fn mint_file_id(clock: &Clock) -> (r: Result<String, TagError>)
    requires
        clock.wf(),
    ensures
        r matches Ok(id) ==> id@.len() == 36,
        r matches Ok(id) ==> exists|s: u64, n: u32, node: Seq<u8>|
            n < 1_000_000_000 && id@ == #[trigger] uuid_v1_text(
                s,
                n,
                clock_sequence_of(clock.seed(), s, n) as u128,
                node,
            ),
{
    let mac = match host_mac_bytes() {
        Some(m) => m,
        None => {
            return Err(TagError::MacUnavailable);
        },
    };
    mint_file_id_with_node(clock, &mac)
}

/// The path of the side-channel that carries a file's identifier: the file's
/// own path with the tag stream name appended.
pub fn tag_stream_path(file: &str) -> (r: String)
    ensures
        r@ == file@ + ":dd_tag"@,
{
    String::from_str(file).concat(":dd_tag")
}

} // verus!
