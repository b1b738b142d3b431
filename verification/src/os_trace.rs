//! Log records of the device's os_trace relay.

use vstd::prelude::*;

use chrono::{DateTime, NaiveDateTime};

use crate::error::IdeviceError;
use crate::http2::frame::{lossy_string, utf8_lossy};

verus! {

/// A date and time without a time zone, from chrono; opaque here.
#[verifier::external_type_specification]
#[verifier::external_body]
pub struct ExNaiveDateTime(NaiveDateTime);

/// Whether chrono accepts a sub-second part for a time: below 10^9, or,
/// for a leap second (seconds of the minute 59), below 2 * 10^9.
pub open spec fn valid_subsecond(secs: int, nsecs: u32) -> bool {
    nsecs < 2_000_000_000 && (nsecs < 1_000_000_000 || secs % 60 == 59)
}

/// The UTC date and time of a Unix timestamp.
///
/// Calls chrono's `DateTime::from_timestamp` and takes the naive date and
/// time (`naive_local`, with UTC's zero offset). chrono refuses a
/// sub-second part that [`valid_subsecond`] refuses and seconds whose day
/// lies outside its calendar; every time that a 32-bit count of seconds
/// from the epoch gives lies inside it. Which date and time comes back is
/// not stated: the value is chrono's own type.
#[verifier::external_body]
fn utc_timestamp(secs: i64, nsecs: u32) -> (r: Option<NaiveDateTime>)
    ensures
        r is Some ==> valid_subsecond(secs as int, nsecs),
        (0 <= secs <= u32::MAX && valid_subsecond(secs as int, nsecs)) ==> r is Some,
{
    match DateTime::from_timestamp(secs, nsecs) {
        Some(t) => Some(t.naive_local()),
        None => None,
    }
}

/// The subsystem and category a log record is labelled with.
#[derive(Debug, Clone, PartialEq, Eq)]
pub struct SyslogLabel {
    /// Subsystem.
    pub subsystem: String,
    /// Category.
    pub category: String,
}

/// The level of a log record.
#[derive(Debug, Clone, Copy, PartialEq, Eq, Structural)]
pub enum LogLevel {
    /// Notice.
    Notice,
    /// Info.
    Info,
    /// Debug.
    Debug,
    /// Error.
    Error,
    /// Fault.
    Fault,
}

/// The level a record's level byte stands for: 0, 1 and 2 for notice, info
/// and debug, 0x10 and 0x11 for error and fault.
pub open spec fn log_level_of(b: u8) -> Option<LogLevel> {
    if b == 0 {
        Some(LogLevel::Notice)
    } else if b == 1 {
        Some(LogLevel::Info)
    } else if b == 2 {
        Some(LogLevel::Debug)
    } else if b == 0x10 {
        Some(LogLevel::Error)
    } else if b == 0x11 {
        Some(LogLevel::Fault)
    } else {
        None
    }
}

impl LogLevel {
    /// Reads a record's level byte; any other value is an unexpected response.
    pub fn from_byte(value: u8) -> (r: Result<LogLevel, IdeviceError>)
        ensures
            match log_level_of(value) {
                Some(l) => r == Ok::<LogLevel, IdeviceError>(l),
                None => r matches Err(IdeviceError::UnexpectedResponse),
            },
    {
        match value {
            0 => Ok(LogLevel::Notice),
            1 => Ok(LogLevel::Info),
            2 => Ok(LogLevel::Debug),
            0x10 => Ok(LogLevel::Error),
            0x11 => Ok(LogLevel::Fault),
            _ => Err(IdeviceError::UnexpectedResponse),
        }
    }
}


/// A little-endian 16-bit field.
pub open spec fn le16(p: Seq<u8>, i: int) -> nat {
    (p[i] as nat) + 256 * (p[i + 1] as nat)
}

/// A little-endian 32-bit field.
pub open spec fn le32(p: Seq<u8>, i: int) -> nat {
    (p[i] as nat) + 256 * (p[i + 1] as nat) + 65536 * (p[i + 2] as nat) + 16777216 * (p[i + 3] as nat)
}

/// Where the file name of a record starts.
pub open spec fn filename_start() -> int {
    129
}

/// The first zero byte at or after `from`, if any.
pub open spec fn zero_from(p: Seq<u8>, from: int) -> Option<int>
    decreases p.len() - from,
{
    if from < 0 || from >= p.len() {
        None
    } else if p[from] == 0 {
        Some(from)
    } else {
        zero_from(p, from + 1)
    }
}

/// A log record of the os_trace relay.
#[derive(Debug)]
pub struct OsTraceLog {
    /// The process ID.
    pub pid: u32,
    /// The record's time, from its seconds since the Unix epoch and its
    /// sub-second field (taken as nanoseconds).
    pub timestamp: NaiveDateTime,
    /// The level.
    pub level: LogLevel,
    /// The image name.
    pub image_name: String,
    /// The source file name.
    pub filename: String,
    /// The message.
    pub message: String,
    /// The subsystem and category, when the record has them.
    pub label: Option<SyslogLabel>,
}

/// Whether a record's body (after its type byte and length) can be read
/// without running past its end: it reaches the level byte; when the level
/// is known, the fixed header, then the image name and message (each at
/// least one byte) after the file name, and the label when there is one.
pub open spec fn os_trace_readable(p: Seq<u8>) -> bool {
    &&& p.len() >= 69
    &&& (log_level_of(p[68]) is Some ==> {
        &&& p.len() >= filename_start()
        &&& match zero_from(p, filename_start()) {
            None => true,
            Some(z) => {
                let image = le16(p, 107);
                let message = le16(p, 109);
                let sub = le32(p, 117);
                let cat = le32(p, 121);
                let after = z + 1 + image + message;
                &&& image >= 1
                &&& message >= 1
                &&& after <= p.len()
                &&& (sub > 0 && cat > 0 && after < p.len()) ==> (sub >= 1 && cat >= 1 && after + sub
                    + cat <= p.len())
            },
        }
    })
}

/// The text of a zero-terminated field: its bytes without the last one,
/// decoded.
pub open spec fn field_text(p: Seq<u8>, start: int, size: int) -> Seq<char> {
    utf8_lossy(p.subrange(start, start + size - 1))
}

/// Reads a record's body: process ID, time, level, file name (up to the
/// first zero after the fixed header), image name and message (sized by
/// the header, each ending in one byte that is dropped), and the subsystem
/// and category when both sizes are non-zero and bytes remain.
///
/// Fails with an unexpected-response error for an unknown level, a file
/// name without a terminating zero, or a time chrono refuses.
pub fn parse_os_trace_record(p: &[u8]) -> (r: Result<OsTraceLog, IdeviceError>)
    requires
        os_trace_readable(p@),
    ensures
        log_level_of(p@[68]) is None ==> r matches Err(IdeviceError::UnexpectedResponse),
        log_level_of(p@[68]) is Some ==> match zero_from(p@, filename_start()) {
            None => r matches Err(IdeviceError::UnexpectedResponse),
            Some(z) => if !valid_subsecond(le32(p@, 55) as int, le32(p@, 63) as u32) {
                r matches Err(IdeviceError::UnexpectedResponse)
            } else {
                r matches Ok(log) && {
                    let image = le16(p@, 107) as int;
                    let message = le16(p@, 109) as int;
                    let sub = le32(p@, 117) as int;
                    let cat = le32(p@, 121) as int;
                    let after = z + 1 + image + message;
                    &&& log.pid == le32(p@, 9)
                    &&& Some(log.level) == log_level_of(p@[68])
                    &&& log.filename@ == utf8_lossy(p@.subrange(filename_start(), z))
                    &&& log.image_name@ == field_text(p@, z + 1, image)
                    &&& log.message@ == field_text(p@, z + 1 + image, message)
                    &&& if sub > 0 && cat > 0 && after < p@.len() {
                        log.label matches Some(l) && l.subsystem@ == field_text(p@, after, sub)
                            && l.category@ == field_text(p@, after + sub, cat)
                    } else {
                        log.label is None
                    }
                }
            },
        },
{
    let level = match LogLevel::from_byte(p[68]) {
        Ok(l) => l,
        Err(e) => return Err(e),
    };
    let pid = read_le32(p, 9);
    let seconds = read_le32(p, 55);
    let nanos = read_le32(p, 63);
    let image_size = read_le16(p, 107) as usize;
    let message_size = read_le16(p, 109) as usize;
    let sub_size = read_le32(p, 117) as usize;
    let cat_size = read_le32(p, 121) as usize;
    let mut z: usize = 129;
    assert(zero_from(p@, filename_start()) == zero_from(p@, z as int));
    while z < p.len() && p[z] != 0
        invariant
            129 <= z <= p@.len(),
            zero_from(p@, filename_start()) == zero_from(p@, z as int),
        decreases p@.len() - z,
    {
        z = z + 1;
    }
    if z >= p.len() {
        return Err(IdeviceError::UnexpectedResponse);
    }
    let filename = lossy_string(&p[129..z]);
    let image_start = z + 1;
    let image_name = lossy_string(&p[image_start..image_start + image_size - 1]);
    let message_start = image_start + image_size;
    let message = lossy_string(&p[message_start..message_start + message_size - 1]);
    let after = message_start + message_size;
    let label = if sub_size > 0 && cat_size > 0 && after < p.len() {
        let subsystem = lossy_string(&p[after..after + sub_size - 1]);
        let cat_start = after + sub_size;
        let category = lossy_string(&p[cat_start..cat_start + cat_size - 1]);
        Some(SyslogLabel { subsystem, category })
    } else {
        None
    };
    let timestamp = match utc_timestamp(seconds as i64, nanos) {
        Some(t) => t,
        None => return Err(IdeviceError::UnexpectedResponse),
    };
    Ok(
        OsTraceLog {
            pid,
            timestamp,
            level,
            image_name,
            filename,
            message,
            label,
        },
    )
}

/// A little-endian 16-bit field.
fn read_le16(p: &[u8], i: usize) -> (r: u16)
    requires
        i + 2 <= p@.len(),
    ensures
        r == le16(p@, i as int),
{
    (p[i] as u16) + 256 * (p[i + 1] as u16)
}

/// A little-endian 32-bit field.
fn read_le32(p: &[u8], i: usize) -> (r: u32)
    requires
        i + 4 <= p@.len(),
    ensures
        r == le32(p@, i as int),
{
    (p[i] as u32) + 256 * (p[i + 1] as u32) + 65536 * (p[i + 2] as u32) + 16777216 * (p[i + 3] as u32)
}

} // verus!
