//! Plain data carried between the host application and the services:
//! time-synchronization properties and the connection type of a device.

use vstd::prelude::*;

verus! {

/// How the device link is carried: the classic serial profile or BLE.
#[derive(Debug, Clone, Copy, PartialEq, Eq, Structural)]
pub enum ConnectType {
    SPP,
    BLE,
}

/// A calendar date for time synchronization.
pub struct Date {
    pub year: u32,
    pub month: u32,
    pub day: u32,
}

/// A wall-clock time for time synchronization.
pub struct Time {
    pub hour: u32,
    pub minute: u32,
    pub second: u32,
    pub millisecond: u32,
}

/// A time zone: offset and daylight-saving offset, in minutes, and its
/// identifier.
pub struct TimeZone {
    pub offset: i32,
    pub dst_offset: i32,
    pub id: String,
}

/// Everything the time-synchronization command carries.
pub struct TimeSyncProps {
    pub date: Date,
    pub time: Time,
    pub timezone: TimeZone,
    pub is_12_hour_format: bool,
}

} // verus!
