//! Settings, as they are read from the environment.

use crate::text::{chars_of, opt_text, parse_u64, parse_usize, parsed_number};
use vstd::prelude::*;

verus! {

pub const DEFAULT_INITIAL_CHUNK_BYTES: usize = 262_144;

pub const DEFAULT_READ_CHUNK_BYTES: usize = 1_048_576;

pub const MIN_INITIAL_CHUNK_BYTES: usize = 16_384;

pub const MIN_READ_CHUNK_BYTES: usize = 65_536;

pub const MAX_READ_CHUNK_BYTES: usize = 16_777_216;

pub const DEFAULT_PREFETCH_MAX_TASKS: usize = 2;

pub const MAX_PREFETCH_TASKS: usize = 64;

pub const MAX_PREFETCH_BYTES: u64 = 536_870_912;

pub const DEFAULT_PORT: u16 = 8080;

/// The number nearest to `n` from `min` to `max`.
pub open spec fn clamped(n: nat, min: nat, max: nat) -> nat {
    if n < min {
        min
    } else if n > max {
        max
    } else {
        n
    }
}

/// The number that a setting's text gives: the default if the setting is
/// absent or stands for no number up to `limit`, and otherwise the nearest one from `min`
/// to `max`.
pub open spec fn setting(
    value: Option<Seq<char>>,
    limit: nat,
    default: nat,
    min: nat,
    max: nat,
) -> nat {
    match value {
        Some(text) => match parsed_number(text, limit) {
            Some(n) => clamped(n, min, max),
            None => default,
        },
        None => default,
    }
}

/// Reads a setting in bytes or tasks. A number needs limits that can be met.
pub fn env_usize(value: Option<&str>, default: usize, min: usize, max: usize) -> (r: usize)
    requires
        value matches Some(text) && parsed_number(text@, usize::MAX as nat) is Some ==> min <= max,
    ensures
        r == setting(opt_text(value), usize::MAX as nat, default as nat, min as nat, max as nat),
{
    match value {
        Some(text) => match parse_usize(chars_of(text).as_slice()) {
            Some(n) => if n < min {
                min
            } else if n > max {
                max
            } else {
                n
            },
            None => default,
        },
        None => default,
    }
}

/// Reads a setting of 64 bits. A number needs limits that can be met.
pub fn env_u64(value: Option<&str>, default: u64, min: u64, max: u64) -> (r: u64)
    requires
        value matches Some(text) && parsed_number(text@, u64::MAX as nat) is Some ==> min <= max,
    ensures
        r == setting(opt_text(value), u64::MAX as nat, default as nat, min as nat, max as nat),
{
    match value {
        Some(text) => match parse_u64(chars_of(text).as_slice()) {
            Some(n) => if n < min {
                min
            } else if n > max {
                max
            } else {
                n
            },
            None => default,
        },
        None => default,
    }
}

/// Reads the port to listen on: any port number, and the default for whatever
/// is none.
pub fn env_port(value: Option<&str>) -> (r: u16)
    ensures
        r == setting(opt_text(value), u16::MAX as nat, DEFAULT_PORT as nat, 0, u16::MAX as nat),
{
    match value {
        Some(text) => match parse_u64(chars_of(text).as_slice()) {
            Some(n) => if n <= 65_535 {
                n as u16
            } else {
                DEFAULT_PORT
            },
            None => DEFAULT_PORT,
        },
        None => DEFAULT_PORT,
    }
}

/// The settings of the service.
#[derive(Clone, Copy, Debug, PartialEq, Eq)]
pub struct StreamConfig {
    /// How much is read for the first piece of a response.
    pub initial_chunk_bytes: usize,
    /// How much is read for each further piece.
    pub read_chunk_bytes: usize,
    /// How much is read ahead of a range; nothing is if zero.
    pub prefetch_bytes: u64,
    /// How many files are read ahead at a time.
    pub prefetch_max_tasks: usize,
}

impl StreamConfig {
    /// Are the settings within their limits?
    pub open spec fn well_formed(self) -> bool {
        &&& MIN_READ_CHUNK_BYTES <= self.read_chunk_bytes <= MAX_READ_CHUNK_BYTES
        &&& MIN_INITIAL_CHUNK_BYTES <= self.initial_chunk_bytes
        &&& self.initial_chunk_bytes <= self.read_chunk_bytes || self.initial_chunk_bytes
            == DEFAULT_INITIAL_CHUNK_BYTES
        &&& self.prefetch_bytes <= MAX_PREFETCH_BYTES
        &&& 1 <= self.prefetch_max_tasks <= MAX_PREFETCH_TASKS
    }
}

/// Reads the settings. The first piece of a response is never set larger than
/// the further ones; only its default may be.
pub fn load_config(
    initial_chunk: Option<&str>,
    read_chunk: Option<&str>,
    prefetch: Option<&str>,
    prefetch_tasks: Option<&str>,
) -> (r: StreamConfig)
    ensures
        r.well_formed(),
        r.read_chunk_bytes == setting(
            opt_text(read_chunk),
            usize::MAX as nat,
            DEFAULT_READ_CHUNK_BYTES as nat,
            MIN_READ_CHUNK_BYTES as nat,
            MAX_READ_CHUNK_BYTES as nat,
        ),
        r.initial_chunk_bytes == setting(
            opt_text(initial_chunk),
            usize::MAX as nat,
            DEFAULT_INITIAL_CHUNK_BYTES as nat,
            MIN_INITIAL_CHUNK_BYTES as nat,
            r.read_chunk_bytes as nat,
        ),
        r.prefetch_bytes == setting(
            opt_text(prefetch),
            u64::MAX as nat,
            0,
            0,
            MAX_PREFETCH_BYTES as nat,
        ),
        r.prefetch_max_tasks == setting(
            opt_text(prefetch_tasks),
            usize::MAX as nat,
            DEFAULT_PREFETCH_MAX_TASKS as nat,
            1,
            MAX_PREFETCH_TASKS as nat,
        ),
{
    let read_chunk_bytes: usize = env_usize(
        read_chunk,
        DEFAULT_READ_CHUNK_BYTES,
        MIN_READ_CHUNK_BYTES,
        MAX_READ_CHUNK_BYTES,
    );
    let initial_chunk_bytes: usize = env_usize(
        initial_chunk,
        DEFAULT_INITIAL_CHUNK_BYTES,
        MIN_INITIAL_CHUNK_BYTES,
        read_chunk_bytes,
    );
    let prefetch_max_tasks: usize = env_usize(
        prefetch_tasks,
        DEFAULT_PREFETCH_MAX_TASKS,
        1,
        MAX_PREFETCH_TASKS,
    );
    let prefetch_bytes: u64 = env_u64(prefetch, 0, 0, MAX_PREFETCH_BYTES);
    StreamConfig { initial_chunk_bytes, read_chunk_bytes, prefetch_bytes, prefetch_max_tasks }
}

/// A number within the limits is taken as it is, one outside them as the nearer
/// limit, and the default where there is no number.
pub proof fn law_setting(text: Seq<char>, limit: nat, default: nat, min: nat, max: nat)
    requires
        min <= max,
    ensures
        setting(None, limit, default, min, max) == default,
        ({
            let n = setting(Some(text), limit, default, min, max);
            match parsed_number(text, limit) {
                Some(v) => {
                    &&& min <= n <= max
                    &&& min <= v <= max ==> n == v
                    &&& v < min ==> n == min
                    &&& v > max ==> n == max
                },
                None => n == default,
            }
        }),
{
}

} // verus!
