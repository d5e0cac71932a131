//! Per-device configuration: transport chunk sizes, the reliable layer's
//! window overrun allowance, bulk-transfer pacing, and resource-parsing
//! offsets, each with its default.

use vstd::prelude::*;

verus! {

/// Transport write sizing: one in-flight write is split into chunks no
/// larger than the connection type's chunk size.
#[derive(Debug, Clone)]
pub struct TransportConfig {
    pub chunk_size_spp: usize,
    pub chunk_size_ble: usize,
}

impl Default for TransportConfig {
    /// The defaults: 977-byte serial chunks, 244-byte BLE chunks.
    fn default() -> (r: Self)
        ensures
            r.chunk_size_spp == 977,
            r.chunk_size_ble == 244,
    {
        Self { chunk_size_spp: 977, chunk_size_ble: 244 }
    }
}

/// Reliable-layer tuning.
#[derive(Debug, Clone)]
pub struct SarConfig {
    /// How many frames beyond the negotiated window the transmit queue may
    /// hold.
    pub tx_win_overrun_allowance: u8,
}

impl Default for SarConfig {
    /// The default: an allowance of two frames.
    fn default() -> (r: Self)
        ensures
            r.tx_win_overrun_allowance == 2,
    {
        Self { tx_win_overrun_allowance: 2 }
    }
}

/// Bulk-transfer pacing.
#[derive(Debug, Clone)]
pub struct MassConfig {
    pub ack_wait_timeout_secs: u64,
    pub ack_poll_interval_ms: u64,
    pub ack_stall_default_ms: u64,
    pub ack_stall_min_ms: u64,
    pub ack_stall_max_ms: u64,
    pub backlog_multiplier: usize,
    pub max_batch_parts: usize,
    pub fallback_batch_parts: usize,
    pub fallback_backlog_limit: usize,
}

impl Default for MassConfig {
    /// The documented defaults for every pacing knob.
    fn default() -> (r: Self)
        ensures
            r.ack_wait_timeout_secs == 30,
            r.ack_poll_interval_ms == 50,
            r.ack_stall_default_ms == 400,
            r.ack_stall_min_ms == 120,
            r.ack_stall_max_ms == 900,
            r.backlog_multiplier == 6,
            r.max_batch_parts == 32,
            r.fallback_batch_parts == 8,
            r.fallback_backlog_limit == 96,
    {
        Self {
            ack_wait_timeout_secs: 30,
            ack_poll_interval_ms: 50,
            ack_stall_default_ms: 400,
            ack_stall_min_ms: 120,
            ack_stall_max_ms: 900,
            backlog_multiplier: 6,
            max_batch_parts: 32,
            fallback_batch_parts: 8,
            fallback_backlog_limit: 96,
        }
    }
}

/// Where the watchface identifier sits inside a watchface file.
#[derive(Debug, Clone)]
pub struct ResConfig {
    pub watchface_id_offset: usize,
    pub watchface_id_field_len: usize,
}

impl Default for ResConfig {
    /// The defaults: a 24-byte field at offset 34.
    fn default() -> (r: Self)
        ensures
            r.watchface_id_offset == 34,
            r.watchface_id_field_len == 24,
    {
        Self { watchface_id_offset: 34, watchface_id_field_len: 24 }
    }
}

/// Everything configurable on one device.
#[derive(Debug, Clone)]
pub struct XiaomiDeviceConfig {
    pub transport: TransportConfig,
    pub sar: SarConfig,
    pub mass: MassConfig,
    pub res: ResConfig,
}

impl Default for XiaomiDeviceConfig {
    /// Every section at its default.
    fn default() -> (r: Self)
        ensures
            r.transport.chunk_size_spp == 977,
            r.transport.chunk_size_ble == 244,
            r.sar.tx_win_overrun_allowance == 2,
            r.mass.ack_wait_timeout_secs == 30,
            r.res.watchface_id_offset == 34,
    {
        Self {
            transport: TransportConfig::default(),
            sar: SarConfig::default(),
            mass: MassConfig::default(),
            res: ResConfig::default(),
        }
    }
}

} // verus!
