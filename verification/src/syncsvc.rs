//! The synchronization service: fire-and-forget time and locale
//! commands over the service channel.

use vstd::prelude::*;

use crate::messages::{WearMessage, WearOp, WearPayload, WearType};
use crate::models::TimeSyncProps;

verus! {

/// The synchronization service; it keeps no state of its own.
pub struct SyncSystem {
}

/// The synchronization service's per-device record.
pub struct SyncComponent {
}

impl SyncComponent {
    /// A fresh record.
    pub fn new() -> (r: SyncComponent) {
        SyncComponent {  }
    }
}

impl SyncSystem {
    /// A fresh service.
    pub fn new() -> (r: SyncSystem) {
        SyncSystem {  }
    }

    /// The command that sets the device's clock.
    pub fn sync_time(&self, props: TimeSyncProps) -> (r: WearMessage)
        ensures
            r.msg_type == WearType::System,
            r.id == WearOp::SetSystemTime,
            r.payload matches WearPayload::SystemTime { props: p } && p.date.year
                == props.date.year && p.date.month == props.date.month && p.date.day
                == props.date.day && p.time.hour == props.time.hour && p.time.minute
                == props.time.minute && p.time.second == props.time.second && p.time.millisecond
                == props.time.millisecond && p.timezone.offset == props.timezone.offset
                && p.timezone.dst_offset == props.timezone.dst_offset && p.timezone.id@
                == props.timezone.id@ && p.is_12_hour_format == props.is_12_hour_format,
    {
        build_time_sync_packet(props)
    }

    /// The command that sets the device's locale.
    pub fn set_language(&self, locale: String) -> (r: WearMessage)
        ensures
            r.msg_type == WearType::System,
            r.id == WearOp::SetLanguage,
            r.payload matches WearPayload::Language { locale: l } && l@ == locale@,
    {
        build_set_language_packet(locale)
    }
}

/// Builds the set-locale command.
pub fn build_set_language_packet(lang: String) -> (r: WearMessage)
    ensures
        r.msg_type == WearType::System,
        r.id == WearOp::SetLanguage,
        r.payload matches WearPayload::Language { locale } && locale@ == lang@,
{
    WearMessage {
        msg_type: WearType::System,
        id: WearOp::SetLanguage,
        payload: WearPayload::Language { locale: lang },
    }
}

/// Builds the set-clock command.
pub fn build_time_sync_packet(props: TimeSyncProps) -> (r: WearMessage)
    ensures
        r.msg_type == WearType::System,
        r.id == WearOp::SetSystemTime,
        r.payload matches WearPayload::SystemTime { props: p } && p.date.year == props.date.year
            && p.date.month == props.date.month && p.date.day == props.date.day && p.time.hour
            == props.time.hour && p.time.minute == props.time.minute && p.time.second
            == props.time.second && p.time.millisecond == props.time.millisecond
            && p.timezone.offset == props.timezone.offset && p.timezone.dst_offset
            == props.timezone.dst_offset && p.timezone.id@ == props.timezone.id@
            && p.is_12_hour_format == props.is_12_hour_format,
{
    WearMessage {
        msg_type: WearType::System,
        id: WearOp::SetSystemTime,
        payload: WearPayload::SystemTime { props },
    }
}

} // verus!
