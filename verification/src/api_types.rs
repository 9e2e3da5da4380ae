//! Request and response bodies of the miner's HTTP API, and the decision
//! every board-command endpoint takes before it sends a command.

use vstd::prelude::*;

use crate::hexcodec::{decode_hex_payload, hex_decode_spec, hex_encode, hex_encode_spec};
use crate::text::trim_spec;

verus! {

/// Fan status.
#[derive(Debug, Clone)]
pub struct Fan {
    pub name: String,
    /// Measured RPM, or `None` if the tachometer read failed.
    pub rpm: Option<u32>,
    /// Measured duty cycle, or `None` if the read failed.
    pub percent: Option<u8>,
    /// Target duty cycle, or `None` if the fan is in automatic mode.
    pub target_percent: Option<u8>,
}

/// Per-thread telemetry.
#[derive(Debug, Clone)]
pub struct ThreadTelemetry {
    pub name: String,
    /// Hashrate in hashes per second.
    pub hashrate: u64,
    pub is_active: bool,
}

/// Physical engine coordinate on one ASIC.
#[derive(Debug, Clone, Copy, PartialEq, Eq, Structural)]
pub struct EngineCoordinate {
    pub row: u8,
    pub col: u8,
}

/// Per-ASIC runtime topology or diagnostics state.
#[derive(Debug, Clone)]
pub struct AsicState {
    pub id: u8,
    pub thread_index: Option<usize>,
    pub serial_path: Option<String>,
    pub discovered_engine_count: Option<u16>,
    pub missing_engines: Vec<EngineCoordinate>,
}

/// Validation status of a saved BZM2 operating point.
#[derive(Debug, Clone, Copy, PartialEq, Eq, Structural)]
pub enum Bzm2SavedOperatingPointStatus {
    Pending,
    Validated,
    Invalidated,
}

impl Default for Bzm2SavedOperatingPointStatus {
    fn default() -> (r: Self)
        ensures
            r == Bzm2SavedOperatingPointStatus::Pending,
    {
        Bzm2SavedOperatingPointStatus::Pending
    }
}

/// How a BZM2 board reached its current operating point at start-up.
#[derive(Debug, Clone, Copy, PartialEq, Eq, Structural)]
pub enum Bzm2StartupPath {
    SavedReplay,
    LiveCalibration,
}

/// Writable fields of the miner; only those present are applied.
#[derive(Debug, Clone, Copy, PartialEq, Eq, Structural)]
pub struct MinerPatchRequest {
    pub paused: Option<bool>,
}

impl Default for MinerPatchRequest {
    fn default() -> (r: Self)
        ensures
            r.paused is None,
    {
        MinerPatchRequest { paused: None }
    }
}

/// Request body for setting a fan's target duty cycle.
#[derive(Debug, Clone, Copy, PartialEq, Eq, Structural)]
pub struct SetFanTargetRequest {
    /// Target duty cycle percentage (0--100), or `None` for automatic
    /// control.
    pub target_percent: Option<u8>,
}

/// Request body for an explicit BZM2 ASIC DTS/VS query.
#[derive(Debug, Clone, Copy, PartialEq, Eq, Structural)]
pub struct Bzm2DtsVsQueryRequest {
    pub thread_index: usize,
    pub asic: u8,
}

/// Request body for an explicit BZM2 ASIC engine-discovery scan.
#[derive(Debug, Clone, Copy, PartialEq, Eq, Structural)]
pub struct Bzm2EngineDiscoveryRequest {
    pub thread_index: usize,
    pub asic: u8,
    pub tdm_prediv_raw: u32,
    pub tdm_counter: u8,
    pub timeout_ms: Option<u32>,
}

/// Request body for a live BZM2 NOOP diagnostic query.
#[derive(Debug, Clone, Copy, PartialEq, Eq, Structural)]
pub struct Bzm2NoopRequest {
    pub thread_index: usize,
    pub asic: u8,
}

/// Response body for a live BZM2 NOOP diagnostic query.
#[derive(Debug, Clone)]
pub struct Bzm2NoopResponse {
    /// Hex-encoded three-byte NOOP payload returned by the ASIC.
    pub payload_hex: String,
}

/// Request body for a live BZM2 loopback diagnostic query.
#[derive(Debug, Clone)]
pub struct Bzm2LoopbackRequest {
    pub thread_index: usize,
    pub asic: u8,
    /// Hex-encoded payload to send through the loopback opcode.
    pub payload_hex: String,
}

/// Response body for a live BZM2 loopback diagnostic query.
#[derive(Debug, Clone)]
pub struct Bzm2LoopbackResponse {
    pub payload_hex: String,
}

/// Request body for a live BZM2 register read.
#[derive(Debug, Clone, Copy, PartialEq, Eq, Structural)]
pub struct Bzm2RegisterReadRequest {
    pub thread_index: usize,
    pub asic: u8,
    pub engine_address: u16,
    pub offset: u8,
    pub count: u8,
}

/// Response body for a live BZM2 register read.
#[derive(Debug, Clone)]
pub struct Bzm2RegisterReadResponse {
    pub value_hex: String,
}

/// Request body for a live BZM2 register write.
#[derive(Debug, Clone)]
pub struct Bzm2RegisterWriteRequest {
    pub thread_index: usize,
    pub asic: u8,
    pub engine_address: u16,
    pub offset: u8,
    pub value_hex: String,
}

/// Response body for a live BZM2 register write.
#[derive(Debug, Clone, Copy, PartialEq, Eq, Structural)]
pub struct Bzm2RegisterWriteResponse {
    pub bytes_written: usize,
}

/// Per-bus BZM2 chain layout summary.
#[derive(Debug, Clone)]
pub struct Bzm2BusSummary {
    pub thread_index: usize,
    pub serial_path: String,
    pub asic_start: u16,
    pub asic_count: u16,
}

/// Current BZM2 chain summary for a live board.
#[derive(Debug, Clone)]
pub struct Bzm2ChainSummaryResponse {
    pub total_asics: u16,
    pub startup_path: Option<Bzm2StartupPath>,
    pub saved_operating_point_status: Option<Bzm2SavedOperatingPointStatus>,
    pub buses: Vec<Bzm2BusSummary>,
}

/// Request body for a live BZM2 clock-report query.
#[derive(Debug, Clone, Copy, PartialEq, Eq, Structural)]
pub struct Bzm2ClockReportRequest {
    pub thread_index: usize,
    pub asic: u8,
}

/// One PLL status block in a BZM2 clock report.
#[derive(Debug, Clone, Copy, PartialEq, Eq, Structural)]
pub struct Bzm2PllClockStatus {
    pub enable_register: u32,
    pub misc_register: u32,
    pub enabled: bool,
    pub locked: bool,
}

/// One DLL status block in a BZM2 clock report.
#[derive(Debug, Clone, Copy, PartialEq, Eq, Structural)]
pub struct Bzm2DllClockStatus {
    pub control2: u8,
    pub control5: u8,
    pub coarsecon: u8,
    pub fincon: u8,
    pub freeze_valid: bool,
    pub locked: bool,
    pub fincon_valid: bool,
}

/// Response body for a live BZM2 clock-report query.
#[derive(Debug, Clone, Copy, PartialEq, Eq, Structural)]
pub struct Bzm2ClockReportResponse {
    pub asic: u8,
    pub pll0: Bzm2PllClockStatus,
    pub pll1: Bzm2PllClockStatus,
    pub dll0: Bzm2DllClockStatus,
    pub dll1: Bzm2DllClockStatus,
}

/// Why a board-command endpoint refuses a request before sending it.
#[derive(Debug, Clone, Copy, PartialEq, Eq, Structural)]
pub enum BoardCommandRejection {
    /// No connected board has that name (HTTP 404).
    NotFound,
    /// The board takes no commands (HTTP 400).
    BadRequest,
}

/// A board command is sent only to a connected board that takes commands;
/// an unknown board is reported before a board without commands.
pub fn route_board_command(board_exists: bool, accepts_commands: bool) -> (r: Result<(), BoardCommandRejection>)
    ensures
        !board_exists ==> r == Err::<(), BoardCommandRejection>(BoardCommandRejection::NotFound),
        board_exists && !accepts_commands ==> r == Err::<(), BoardCommandRejection>(
            BoardCommandRejection::BadRequest,
        ),
        board_exists && accepts_commands ==> r is Ok,
{
    if !board_exists {
        return Err(BoardCommandRejection::NotFound);
    }
    if !accepts_commands {
        return Err(BoardCommandRejection::BadRequest);
    }
    Ok(())
}


impl Bzm2NoopResponse {
    /// The response for the three bytes a NOOP returned.
    pub fn from_payload(payload: &[u8]) -> (r: Self)
        ensures
            r.payload_hex@ == hex_encode_spec(payload@),
    {
        Bzm2NoopResponse { payload_hex: hex_encode(payload) }
    }
}

impl Bzm2LoopbackRequest {
    /// The bytes to send: the request's hex text, surrounding whitespace
    /// ignored; `None` when it is not hex, which the endpoint refuses.
    pub fn payload(&self) -> (r: Option<Vec<u8>>)
        ensures
            match r {
                Some(v) => hex_decode_spec(trim_spec(self.payload_hex@)) == Some(v@),
                None => hex_decode_spec(trim_spec(self.payload_hex@)) is None,
            },
    {
        decode_hex_payload(self.payload_hex.as_str())
    }
}

impl Bzm2LoopbackResponse {
    /// The response for the bytes that came back through the loop.
    pub fn from_payload(payload: &[u8]) -> (r: Self)
        ensures
            r.payload_hex@ == hex_encode_spec(payload@),
    {
        Bzm2LoopbackResponse { payload_hex: hex_encode(payload) }
    }
}

impl Bzm2RegisterReadResponse {
    /// The response for the bytes a register read returned.
    pub fn from_value(value: &[u8]) -> (r: Self)
        ensures
            r.value_hex@ == hex_encode_spec(value@),
    {
        Bzm2RegisterReadResponse { value_hex: hex_encode(value) }
    }
}

impl Bzm2RegisterWriteRequest {
    /// The bytes to write: the request's hex text, surrounding whitespace
    /// ignored; `None` when it is not hex, which the endpoint refuses.
    pub fn value(&self) -> (r: Option<Vec<u8>>)
        ensures
            match r {
                Some(v) => hex_decode_spec(trim_spec(self.value_hex@)) == Some(v@),
                None => hex_decode_spec(trim_spec(self.value_hex@)) is None,
            },
    {
        decode_hex_payload(self.value_hex.as_str())
    }
}

impl Bzm2RegisterWriteResponse {
    /// The acknowledgement of a write of `value`.
    pub fn for_value(value: &[u8]) -> (r: Self)
        ensures
            r.bytes_written == value@.len(),
    {
        Bzm2RegisterWriteResponse { bytes_written: value.len() }
    }
}

} // verus!
