//! BZM2 UART wire format: command encoders, the TDM response frame parser
//! and the logical engine grid.

use bitcoin::pow::Target;
use std::collections::HashMap;
use vstd::prelude::*;

use crate::text::{str_eq, str_trim, trim_spec};

verus! {

broadcast use vstd::std_specs::hash::group_hash_axioms;

pub const OPCODE_UART_WRITEJOB: u8 = 0x0;
pub const OPCODE_UART_READRESULT: u8 = 0x1;
pub const OPCODE_UART_WRITEREG: u8 = 0x2;
pub const OPCODE_UART_READREG: u8 = 0x3;
pub const OPCODE_UART_MULTICAST_WRITE: u8 = 0x4;
pub const OPCODE_UART_DTS_VS: u8 = 0x0d;
pub const OPCODE_UART_LOOPBACK: u8 = 0x0e;
pub const OPCODE_UART_NOOP: u8 = 0x0f;

pub const BROADCAST_ASIC: u8 = 0xff;
pub const TARGET_BYTE: u8 = 0x08;

pub const ENGINE_REG_TARGET: u8 = 0x44;
pub const ENGINE_REG_START_NONCE: u8 = 0x3c;
pub const ENGINE_REG_TIMESTAMP_COUNT: u8 = 0x48;
pub const ENGINE_REG_ZEROS_TO_FIND: u8 = 0x49;
pub const ENGINE_REG_END_NONCE: u8 = 0x40;

pub const DEFAULT_TIMESTAMP_COUNT: u8 = 60;
pub const DEFAULT_NONCE_GAP: u32 = 0x28;
pub const DEFAULT_BOARD_END_NONCE: u32 = 0xffff_ffff;
pub const LOGICAL_ENGINE_ROWS: u8 = 20;
pub const LOGICAL_ENGINE_COLS: u8 = 12;

// ---------------------------------------------------------------------------
// Byte-level helpers shared by the encoders.
// ---------------------------------------------------------------------------

/// Little-endian bytes of a 16-bit value.
pub open spec fn le16(x: u16) -> Seq<u8> {
    seq![x as u8, (x >> 8u16) as u8]
}

/// Big-endian bytes of a 16-bit value.
pub open spec fn be16(x: u16) -> Seq<u8> {
    seq![(x >> 8u16) as u8, x as u8]
}

/// Big-endian bytes of a 32-bit value.
pub open spec fn be32(x: u32) -> Seq<u8> {
    seq![(x >> 24u32) as u8, (x >> 16u32) as u8, (x >> 8u32) as u8, x as u8]
}

/// Little-endian bytes of a 32-bit value.
pub open spec fn le32(x: u32) -> Seq<u8> {
    seq![x as u8, (x >> 8u32) as u8, (x >> 16u32) as u8, (x >> 24u32) as u8]
}

/// Header of a short (two-byte) command: ASIC id in the high byte, opcode
/// in the upper nibble of the low byte.
pub open spec fn short_header(asic: u8, opcode: u8) -> u16 {
    (((asic as u16) << 8u16) | ((opcode as u16) << 4u16)) as u16
}

/// Header of an addressed (four-byte) command.
pub open spec fn long_header(asic: u8, opcode: u8, address: u16, offset: u8) -> u32 {
    (((asic as u32) << 24u32) | ((opcode as u32) << 20u32) | ((address as u32) << 8u32)
        | (offset as u32)) as u32
}

/// The length prefix of a frame of `len` bytes, kept to 16 bits.
pub open spec fn length_prefix(len: nat) -> u16 {
    (len % 65536) as u16
}

/// The count byte that precedes a payload: its length minus one, where the
/// length is kept to 8 bits and never goes below zero.
pub open spec fn count_minus_one(len: int) -> u8 {
    if len % 256 == 0 {
        0u8
    } else {
        (len % 256 - 1) as u8
    }
}

/// WRITEREG / MULTICAST_WRITE request frame.
pub open spec fn register_write_frame(
    asic: u8,
    opcode: u8,
    address: u16,
    offset: u8,
    value: Seq<u8>,
) -> Seq<u8> {
    le16(length_prefix(7 + value.len())) + be32(long_header(asic, opcode, address, offset)) + seq![
        count_minus_one(value.len() as int),
    ] + value
}

/// READREG request frame.
pub open spec fn read_register_frame(asic: u8, address: u16, offset: u8, count: u8) -> Seq<u8> {
    le16(8) + be32(long_header(asic, OPCODE_UART_READREG, address, offset)) + seq![
        if count == 0 { 0u8 } else { (count - 1) as u8 },
        TARGET_BYTE,
    ]
}

/// WRITEJOB request frame.
pub open spec fn write_job_frame(
    asic: u8,
    address: u16,
    midstate: Seq<u8>,
    merkle_root_residue: u32,
    ntime: u32,
    sequence_id: u8,
    job_control: u8,
) -> Seq<u8> {
    le16(48) + be32(long_header(asic, OPCODE_UART_WRITEJOB, address, 41)) + midstate + le32(
        merkle_root_residue,
    ) + le32(ntime) + seq![sequence_id, job_control]
}

/// Request frame of a short command (READRESULT, NOOP).
pub open spec fn short_frame(asic: u8, opcode: u8) -> Seq<u8> {
    le16(4) + be16(short_header(asic, opcode))
}

/// LOOPBACK request frame.
pub open spec fn loopback_frame(asic: u8, data: Seq<u8>) -> Seq<u8> {
    le16(length_prefix(5 + data.len())) + be16(short_header(asic, OPCODE_UART_LOOPBACK)) + seq![
        count_minus_one(data.len() as int),
    ] + data
}

/// The 16-bit length that a frame's first two bytes announce.
pub open spec fn announced_length(frame: Seq<u8>) -> int {
    frame[0] as int + 256 * (frame[1] as int)
}

proof fn lemma_le16_value(x: u16)
    ensures
        (x as u8) as int + 256 * ((x >> 8u16) as u8) as int == x as int,
{
    assert((x as u8) as u16 + 256 * ((x >> 8u16) as u8) as u16 == x) by (bit_vector);
}

proof fn lemma_long_header_routing(asic: u8, opcode: u8, address: u16, offset: u8)
    requires
        opcode < 16,
        address < 0x1000,
    ensures
        (long_header(asic, opcode, address, offset) >> 24u32) as u8 == asic,
        ((long_header(asic, opcode, address, offset) >> 16u32) as u8) >> 4u8 == opcode,
{
    assert(opcode < 16 ==> (((((asic as u32) << 24u32) | ((opcode as u32) << 20u32) | ((address
        as u32) << 8u32) | (offset as u32)) as u32) >> 24u32) as u8 == asic) by (bit_vector);
    assert(opcode < 16 && address < 0x1000 ==> ((((((asic as u32) << 24u32) | ((opcode as u32)
        << 20u32) | ((address as u32) << 8u32) | (offset as u32)) as u32) >> 16u32) as u8) >> 4u8
        == opcode) by (bit_vector);
}

proof fn lemma_short_header_routing(asic: u8, opcode: u8)
    requires
        opcode < 16,
    ensures
        (short_header(asic, opcode) >> 8u16) as u8 == asic,
        (short_header(asic, opcode) as u8) >> 4u8 == opcode,
{
    assert(opcode < 16 ==> ((((asic as u16) << 8u16) | ((opcode as u16) << 4u16)) as u16 >> 8u16)
        as u8 == asic) by (bit_vector);
    assert(opcode < 16 ==> ((((asic as u16) << 8u16) | ((opcode as u16) << 4u16)) as u16 as u8)
        >> 4u8 == opcode) by (bit_vector);
}

fn push_le16(bytes: &mut Vec<u8>, x: u16)
    ensures
        final(bytes)@ == old(bytes)@ + le16(x),
{
    bytes.push(x as u8);
    bytes.push((x >> 8u16) as u8);
    assert(final(bytes)@ =~= old(bytes)@ + le16(x)) by {
        assert(bytes@ =~= old(bytes)@ + le16(x));
    }
}

fn push_be16(bytes: &mut Vec<u8>, x: u16)
    ensures
        final(bytes)@ == old(bytes)@ + be16(x),
{
    bytes.push((x >> 8u16) as u8);
    bytes.push(x as u8);
    assert(bytes@ =~= old(bytes)@ + be16(x));
}

fn push_be32(bytes: &mut Vec<u8>, x: u32)
    ensures
        final(bytes)@ == old(bytes)@ + be32(x),
{
    bytes.push((x >> 24u32) as u8);
    bytes.push((x >> 16u32) as u8);
    bytes.push((x >> 8u32) as u8);
    bytes.push(x as u8);
    assert(bytes@ =~= old(bytes)@ + be32(x));
}

fn push_le32(bytes: &mut Vec<u8>, x: u32)
    ensures
        final(bytes)@ == old(bytes)@ + le32(x),
{
    bytes.push(x as u8);
    bytes.push((x >> 8u32) as u8);
    bytes.push((x >> 16u32) as u8);
    bytes.push((x >> 24u32) as u8);
    assert(bytes@ =~= old(bytes)@ + le32(x));
}

fn push_all(bytes: &mut Vec<u8>, data: &[u8])
    ensures
        final(bytes)@ == old(bytes)@ + data@,
{
    let mut i: usize = 0;
    while i < data.len()
        invariant
            i <= data@.len(),
            bytes@ == old(bytes)@ + data@.subrange(0, i as int),
        decreases data@.len() - i,
    {
        bytes.push(data[i]);
        i = i + 1;
        assert(bytes@ =~= old(bytes)@ + data@.subrange(0, i as int));
    }
    assert(data@.subrange(0, i as int) =~= data@);
}

fn exec_length_prefix(len: usize, extra: usize) -> (r: u16)
    requires
        extra < 16,
    ensures
        r == length_prefix((len + extra) as nat),
{
    let low: usize = len % 65536;
    let total: usize = (low + extra) % 65536;
    assert((len + extra) % 65536 == (len % 65536 + extra) % 65536) by {
        vstd::arithmetic::div_mod::lemma_add_mod_noop(len as int, extra as int, 65536);
        vstd::arithmetic::div_mod::lemma_small_mod(extra as nat, 65536);
    }
    total as u16
}

fn exec_count_minus_one(len: usize) -> (r: u8)
    ensures
        r == count_minus_one(len as int),
{
    let low: usize = len % 256;
    if low == 0 {
        0
    } else {
        (low - 1) as u8
    }
}

fn encode_register_write(asic: u8, opcode: u8, address: u16, offset: u8, value: &[u8]) -> (bytes:
    Vec<u8>)
    ensures
        bytes@ == register_write_frame(asic, opcode, address, offset, value@),
{
    let header: u32 = ((asic as u32) << 24u32) | ((opcode as u32) << 20u32) | ((address as u32)
        << 8u32) | (offset as u32);
    let mut bytes: Vec<u8> = Vec::new();
    push_le16(&mut bytes, exec_length_prefix(value.len(), 7));
    push_be32(&mut bytes, header);
    bytes.push(exec_count_minus_one(value.len()));
    push_all(&mut bytes, value);
    assert(bytes@ =~= register_write_frame(asic, opcode, address, offset, value@));
    bytes
}

/// Encodes a WRITEREG command for one register of one engine (or of the
/// ASIC-local block) on one ASIC.
pub fn encode_write_register(asic: u8, engine_address: u16, offset: u8, value: &[u8]) -> (bytes:
    Vec<u8>)
    ensures
        bytes@ == register_write_frame(asic, OPCODE_UART_WRITEREG, engine_address, offset, value@),
        bytes@.len() == 7 + value@.len(),
        bytes@[2] == asic,
        engine_address < 0x1000 ==> bytes@[3] >> 4u8 == OPCODE_UART_WRITEREG,
        value@.len() + 7 < 65536 ==> announced_length(bytes@) == bytes@.len(),
{
    let bytes = encode_register_write(asic, OPCODE_UART_WRITEREG, engine_address, offset, value);
    proof {
        lemma_long_header_routing(asic, OPCODE_UART_WRITEREG, 0, offset);
        lemma_header_facts(asic, OPCODE_UART_WRITEREG, engine_address, offset);
        lemma_le16_value(length_prefix(7 + value@.len()));
    }
    bytes
}

proof fn lemma_header_facts(asic: u8, opcode: u8, address: u16, offset: u8)
    requires
        opcode < 16,
    ensures
        (long_header(asic, opcode, address, offset) >> 24u32) as u8 == asic,
        address < 0x1000 ==> ((long_header(asic, opcode, address, offset) >> 16u32) as u8) >> 4u8
            == opcode,
{
    assert(opcode < 16 ==> (((((asic as u32) << 24u32) | ((opcode as u32) << 20u32) | ((address
        as u32) << 8u32) | (offset as u32)) as u32) >> 24u32) as u8 == asic) by (bit_vector);
    if address < 0x1000 {
        lemma_long_header_routing(asic, opcode, address, offset);
    }
}

/// Encodes a MULTICAST_WRITE command for one register of every engine in an
/// engine group of one ASIC.
pub fn encode_multicast_write(asic: u8, group: u16, offset: u8, value: &[u8]) -> (bytes: Vec<u8>)
    ensures
        bytes@ == register_write_frame(asic, OPCODE_UART_MULTICAST_WRITE, group, offset, value@),
        bytes@.len() == 7 + value@.len(),
        bytes@[2] == asic,
        group < 0x1000 ==> bytes@[3] >> 4u8 == OPCODE_UART_MULTICAST_WRITE,
        value@.len() + 7 < 65536 ==> announced_length(bytes@) == bytes@.len(),
{
    let bytes = encode_register_write(asic, OPCODE_UART_MULTICAST_WRITE, group, offset, value);
    proof {
        lemma_header_facts(asic, OPCODE_UART_MULTICAST_WRITE, group, offset);
        lemma_le16_value(length_prefix(7 + value@.len()));
    }
    bytes
}

/// Encodes a READREG command asking for `count` bytes starting at a
/// register offset.
pub fn encode_read_register(asic: u8, engine_address: u16, offset: u8, count: u8) -> (bytes: Vec<
    u8,
>)
    ensures
        bytes@ == read_register_frame(asic, engine_address, offset, count),
        bytes@.len() == 8,
        bytes@[2] == asic,
        engine_address < 0x1000 ==> bytes@[3] >> 4u8 == OPCODE_UART_READREG,
        announced_length(bytes@) == bytes@.len(),
{
    let header: u32 = ((asic as u32) << 24u32) | ((OPCODE_UART_READREG as u32) << 20u32) | ((
    engine_address as u32) << 8u32) | (offset as u32);
    let mut bytes: Vec<u8> = Vec::new();
    push_le16(&mut bytes, 8);
    push_be32(&mut bytes, header);
    bytes.push(count.saturating_sub(1));
    bytes.push(TARGET_BYTE);
    assert(bytes@ =~= read_register_frame(asic, engine_address, offset, count));
    proof {
        lemma_header_facts(asic, OPCODE_UART_READREG, engine_address, offset);
        lemma_le16_value(8);
    }
    bytes
}

/// Encodes a WRITEJOB command carrying one midstate to one engine.
pub fn encode_write_job(
    asic: u8,
    engine_address: u16,
    midstate: &[u8; 32],
    merkle_root_residue: u32,
    ntime: u32,
    sequence_id: u8,
    job_control: u8,
) -> (bytes: Vec<u8>)
    ensures
        bytes@ == write_job_frame(
            asic,
            engine_address,
            midstate@,
            merkle_root_residue,
            ntime,
            sequence_id,
            job_control,
        ),
        bytes@.len() == 48,
        bytes@[2] == asic,
        engine_address < 0x1000 ==> bytes@[3] >> 4u8 == OPCODE_UART_WRITEJOB,
        announced_length(bytes@) == bytes@.len(),
{
    let header: u32 = ((asic as u32) << 24u32) | ((OPCODE_UART_WRITEJOB as u32) << 20u32) | ((
    engine_address as u32) << 8u32) | 41u32;
    let mut bytes: Vec<u8> = Vec::new();
    push_le16(&mut bytes, 48);
    push_be32(&mut bytes, header);
    push_all(&mut bytes, midstate.as_slice());
    push_le32(&mut bytes, merkle_root_residue);
    push_le32(&mut bytes, ntime);
    bytes.push(sequence_id);
    bytes.push(job_control);
    assert(bytes@ =~= write_job_frame(
        asic,
        engine_address,
        midstate@,
        merkle_root_residue,
        ntime,
        sequence_id,
        job_control,
    ));
    proof {
        lemma_header_facts(asic, OPCODE_UART_WRITEJOB, engine_address, 41);
        lemma_le16_value(48);
    }
    bytes
}

fn encode_short(asic: u8, opcode: u8) -> (bytes: Vec<u8>)
    requires
        opcode < 16,
    ensures
        bytes@ == short_frame(asic, opcode),
        bytes@.len() == 4,
        bytes@[2] == asic,
        bytes@[3] >> 4u8 == opcode,
        announced_length(bytes@) == bytes@.len(),
{
    let header: u16 = ((asic as u16) << 8u16) | ((opcode as u16) << 4u16);
    let mut bytes: Vec<u8> = Vec::new();
    push_le16(&mut bytes, 4);
    push_be16(&mut bytes, header);
    assert(bytes@ =~= short_frame(asic, opcode));
    proof {
        lemma_short_header_routing(asic, opcode);
        lemma_le16_value(4);
    }
    bytes
}

/// Encodes a READRESULT command.
pub fn encode_read_result_command(asic: u8) -> (bytes: Vec<u8>)
    ensures
        bytes@ == short_frame(asic, OPCODE_UART_READRESULT),
        bytes@.len() == 4,
        bytes@[2] == asic,
        bytes@[3] >> 4u8 == OPCODE_UART_READRESULT,
        announced_length(bytes@) == bytes@.len(),
{
    encode_short(asic, OPCODE_UART_READRESULT)
}

/// Encodes a NOOP command.
pub fn encode_noop(asic: u8) -> (bytes: Vec<u8>)
    ensures
        bytes@ == short_frame(asic, OPCODE_UART_NOOP),
        bytes@.len() == 4,
        bytes@[2] == asic,
        bytes@[3] >> 4u8 == OPCODE_UART_NOOP,
        announced_length(bytes@) == bytes@.len(),
{
    encode_short(asic, OPCODE_UART_NOOP)
}

/// Encodes a LOOPBACK command carrying `data`.
pub fn encode_loopback(asic: u8, data: &[u8]) -> (bytes: Vec<u8>)
    ensures
        bytes@ == loopback_frame(asic, data@),
        bytes@.len() == 5 + data@.len(),
        bytes@[2] == asic,
        bytes@[3] >> 4u8 == OPCODE_UART_LOOPBACK,
        data@.len() + 5 < 65536 ==> announced_length(bytes@) == bytes@.len(),
{
    let header: u16 = ((asic as u16) << 8u16) | ((OPCODE_UART_LOOPBACK as u16) << 4u16);
    let mut bytes: Vec<u8> = Vec::new();
    push_le16(&mut bytes, exec_length_prefix(data.len(), 5));
    push_be16(&mut bytes, header);
    bytes.push(exec_count_minus_one(data.len()));
    push_all(&mut bytes, data);
    assert(bytes@ =~= loopback_frame(asic, data@));
    proof {
        lemma_short_header_routing(asic, OPCODE_UART_LOOPBACK);
        lemma_le16_value(length_prefix(5 + data@.len()));
    }
    bytes
}


// ---------------------------------------------------------------------------
// Frames reported by the ASICs in TDM mode.
// ---------------------------------------------------------------------------

/// Layout of the DTS/VS sensor report, which differs between chip
/// generations.
#[derive(Debug, Clone, Copy, PartialEq, Eq, Structural)]
pub enum DtsVsGeneration {
    Gen1,
    Gen2,
}

/// A nonce result reported by one engine.
#[derive(Debug, Clone, Copy, PartialEq, Eq, Structural)]
pub struct TdmResultFrame {
    pub asic: u8,
    pub engine_address: u16,
    pub status: u8,
    pub nonce: u32,
    pub sequence_id: u8,
    pub reported_time: u8,
}

/// Row of the engine that an engine address designates.
pub open spec fn engine_row(address: u16) -> u8 {
    (address & 0x3fu16) as u8
}

/// Column of the engine that an engine address designates.
pub open spec fn engine_col(address: u16) -> u8 {
    (address >> 6u16) as u8
}

impl TdmResultFrame {
    pub fn row(self) -> (r: u8)
        ensures
            r == engine_row(self.engine_address),
    {
        (self.engine_address & 0x3f) as u8
    }

    pub fn col(self) -> (r: u8)
        ensures
            r == engine_col(self.engine_address),
    {
        (self.engine_address >> 6u16) as u8
    }

    pub fn logical_engine_id(self) -> (r: Option<u16>)
        ensures
            r == logical_engine_id_spec(engine_row(self.engine_address), engine_col(self.engine_address)),
    {
        logical_engine_id(self.row(), self.col())
    }

    pub fn nonce_valid(self) -> (r: bool)
        ensures
            r == ((self.status & 0x8u8) != 0),
    {
        (self.status & 0x8) != 0
    }
}

/// The bytes read back by a READREG command.
#[derive(Debug, Clone, PartialEq, Eq)]
pub struct TdmRegisterFrame {
    pub asic: u8,
    pub data: Vec<u8>,
}

/// The three-byte answer to a NOOP command.
#[derive(Debug, Clone, Copy, PartialEq, Eq)]
pub struct TdmNoopFrame {
    pub asic: u8,
    pub data: [u8; 3],
}

/// First-generation temperature / voltage sensor report.
#[derive(Debug, Clone, Copy, PartialEq, Eq, Structural)]
pub struct TdmDtsVsGen1Frame {
    pub asic: u8,
    pub voltage: u16,
    pub voltage_enabled: bool,
    pub thermal_tune_code: u8,
    pub thermal_validity: bool,
    pub thermal_enabled: bool,
}

/// Second-generation temperature / voltage sensor report.
#[derive(Debug, Clone, Copy, PartialEq, Eq, Structural)]
pub struct TdmDtsVsGen2Frame {
    pub asic: u8,
    pub ch0_voltage: u16,
    pub ch1_voltage: u16,
    pub ch2_voltage: u16,
    pub voltage_shutdown_status: bool,
    pub voltage_enabled: bool,
    pub thermal_tune_code: u16,
    pub thermal_trip_status: bool,
    pub thermal_fault: bool,
    pub thermal_validity: bool,
    pub thermal_enabled: bool,
    pub voltage_fault: bool,
    pub dll0_lock: bool,
    pub dll1_lock: bool,
    pub pll_lock: bool,
}

#[derive(Debug, Clone, Copy, PartialEq, Eq, Structural)]
pub enum TdmDtsVsFrame {
    Gen1(TdmDtsVsGen1Frame),
    Gen2(TdmDtsVsGen2Frame),
}

#[derive(Debug, Clone, PartialEq, Eq)]
pub enum TdmFrame {
    Result(TdmResultFrame),
    Register(TdmRegisterFrame),
    DtsVs(TdmDtsVsFrame),
    Noop(TdmNoopFrame),
}

/// Mathematical value of a decoded frame.
pub enum TdmFrameView {
    Result(TdmResultFrame),
    Register(u8, Seq<u8>),
    DtsVs(TdmDtsVsFrame),
    Noop(u8, Seq<u8>),
}

impl View for TdmFrame {
    type V = TdmFrameView;

    open spec fn view(&self) -> TdmFrameView {
        match self {
            TdmFrame::Result(r) => TdmFrameView::Result(*r),
            TdmFrame::Register(f) => TdmFrameView::Register(f.asic, f.data@),
            TdmFrame::DtsVs(d) => TdmFrameView::DtsVs(*d),
            TdmFrame::Noop(n) => TdmFrameView::Noop(n.asic, n.data@),
        }
    }
}

pub open spec fn frames_view(frames: Seq<TdmFrame>) -> Seq<TdmFrameView> {
    frames.map_values(|f: TdmFrame| f@)
}

/// A READRESULT payload: big-endian status/address word, little-endian
/// nonce, sequence id and reported time.
pub open spec fn result_frame_spec(asic: u8, p: Seq<u8>) -> TdmResultFrame {
    let header = (((p[0] as u16) << 8u16) | (p[1] as u16)) as u16;
    TdmResultFrame {
        asic,
        engine_address: header & 0x0fffu16,
        status: (header >> 12u16) as u8,
        nonce: ((p[2] as u32) | ((p[3] as u32) << 8u32) | ((p[4] as u32) << 16u32) | ((p[5] as u32)
            << 24u32)) as u32,
        sequence_id: p[6],
        reported_time: p[7],
    }
}

/// A first-generation DTS/VS payload, read as one big-endian word whose
/// little-endian bytes `b` carry the fields.
pub open spec fn dts_vs_gen1_spec(asic: u8, p: Seq<u8>) -> TdmDtsVsGen1Frame {
    let b = p.reverse();
    TdmDtsVsGen1Frame {
        asic,
        voltage: ((((b[1] & 0x07u8) as u16) << 8u16) | (b[0] as u16)) as u16,
        voltage_enabled: (b[1] & 0x80u8) != 0,
        thermal_tune_code: b[2],
        thermal_validity: (b[3] & 0x40u8) != 0,
        thermal_enabled: (b[3] & 0x80u8) != 0,
    }
}

/// A second-generation DTS/VS payload, read as one big-endian 64-bit word
/// whose little-endian bytes `b` carry the fields.
pub open spec fn dts_vs_gen2_spec(asic: u8, p: Seq<u8>) -> TdmDtsVsGen2Frame {
    let b = p.reverse();
    TdmDtsVsGen2Frame {
        asic,
        ch0_voltage: ((((b[2] & 0x3fu8) as u16) << 8u16) | (b[3] as u16)) as u16,
        ch1_voltage: (((b[4] as u16) << 6u16) | ((b[5] & 0x3fu8) as u16)) as u16,
        ch2_voltage: ((((b[7] & 0x0fu8) as u16) << 10u16) | ((b[6] as u16) << 2u16) | (((b[5]
            >> 6u8) & 0x03u8) as u16)) as u16,
        voltage_shutdown_status: (b[2] & 0x40u8) != 0,
        voltage_enabled: (b[2] & 0x80u8) != 0,
        thermal_tune_code: ((((b[0] & 0x0fu8) as u16) << 8u16) | (b[1] as u16)) as u16,
        thermal_trip_status: (b[0] & 0x10u8) != 0,
        thermal_fault: (b[0] & 0x20u8) != 0,
        thermal_validity: (b[0] & 0x40u8) != 0,
        thermal_enabled: (b[0] & 0x80u8) != 0,
        voltage_fault: (b[7] & 0x10u8) != 0,
        dll0_lock: (b[7] & 0x20u8) != 0,
        dll1_lock: (b[7] & 0x40u8) != 0,
        pll_lock: (b[7] & 0x80u8) != 0,
    }
}

pub open spec fn dts_vs_payload_len(generation: DtsVsGeneration) -> nat {
    match generation {
        DtsVsGeneration::Gen1 => 4,
        DtsVsGeneration::Gen2 => 8,
    }
}

pub open spec fn dts_vs_frame_spec(generation: DtsVsGeneration, asic: u8, p: Seq<u8>) -> TdmDtsVsFrame {
    match generation {
        DtsVsGeneration::Gen1 => TdmDtsVsFrame::Gen1(dts_vs_gen1_spec(asic, p)),
        DtsVsGeneration::Gen2 => TdmDtsVsFrame::Gen2(dts_vs_gen2_spec(asic, p)),
    }
}

/// What the parser does at the head of its buffer.
pub enum ScanStep {
    /// Not enough bytes (or no announced READREG length) to decide: wait.
    Stop,
    /// The head byte starts no frame: drop it and resynchronize.
    Skip,
    /// A frame occupying the given number of bytes.
    Emit(TdmFrameView, nat),
}

/// One step of the TDM grammar on `buf`, given the READREG lengths
/// announced per ASIC.
pub open spec fn scan_step(generation: DtsVsGeneration, expected: Map<u8, usize>, buf: Seq<u8>) -> ScanStep {
    if buf.len() < 2 {
        ScanStep::Stop
    } else {
        let asic = buf[0];
        let opcode = buf[1];
        if asic >= 100 {
            ScanStep::Skip
        } else if opcode == OPCODE_UART_READRESULT {
            if buf.len() < 10 {
                ScanStep::Stop
            } else {
                ScanStep::Emit(TdmFrameView::Result(result_frame_spec(asic, buf.subrange(2, 10))), 10)
            }
        } else if opcode == OPCODE_UART_READREG {
            if !expected.contains_key(asic) {
                ScanStep::Stop
            } else if buf.len() < 2 + expected[asic] {
                ScanStep::Stop
            } else {
                ScanStep::Emit(
                    TdmFrameView::Register(asic, buf.subrange(2, 2 + expected[asic])),
                    (2 + expected[asic]) as nat,
                )
            }
        } else if opcode == OPCODE_UART_DTS_VS {
            let n = dts_vs_payload_len(generation);
            if buf.len() < 2 + n {
                ScanStep::Stop
            } else {
                ScanStep::Emit(
                    TdmFrameView::DtsVs(dts_vs_frame_spec(generation, asic, buf.subrange(2, 2 + n as int))),
                    2 + n,
                )
            }
        } else if opcode == OPCODE_UART_NOOP {
            if buf.len() < 5 {
                ScanStep::Stop
            } else {
                ScanStep::Emit(TdmFrameView::Noop(asic, buf.subrange(2, 5)), 5)
            }
        } else {
            ScanStep::Skip
        }
    }
}

/// A READREG answer consumes the length announced for its ASIC.
pub open spec fn expected_after(expected: Map<u8, usize>, frame: TdmFrameView) -> Map<u8, usize> {
    match frame {
        TdmFrameView::Register(asic, _) => expected.remove(asic),
        _ => expected,
    }
}

/// Result of scanning a buffer: the frames found, the bytes kept for later
/// and the READREG lengths still announced.
pub struct ScanOutcome {
    pub frames: Seq<TdmFrameView>,
    pub rest: Seq<u8>,
    pub expected: Map<u8, usize>,
}

/// Scans `buf` from its head until the grammar has to wait for more bytes.
pub open spec fn scan(generation: DtsVsGeneration, expected: Map<u8, usize>, buf: Seq<u8>) -> ScanOutcome
    decreases buf.len(),
{
    match scan_step(generation, expected, buf) {
        ScanStep::Stop => ScanOutcome { frames: Seq::empty(), rest: buf, expected },
        ScanStep::Skip => if buf.len() > 0 {
            scan(generation, expected, buf.drop_first())
        } else {
            ScanOutcome { frames: Seq::empty(), rest: buf, expected }
        },
        ScanStep::Emit(frame, n) => if 0 < n <= buf.len() {
            let tail = scan(generation, expected_after(expected, frame), buf.skip(n as int));
            ScanOutcome { frames: seq![frame] + tail.frames, rest: tail.rest, expected: tail.expected }
        } else {
            ScanOutcome { frames: Seq::empty(), rest: buf, expected }
        },
    }
}

/// Every announced READREG length leaves room for the two header bytes.
pub open spec fn expected_lengths_fit(expected: Map<u8, usize>) -> bool {
    forall|a: u8| #[trigger] expected.contains_key(a) ==> expected[a] + 2 <= usize::MAX
}

proof fn lemma_step_emits_within(generation: DtsVsGeneration, expected: Map<u8, usize>, buf: Seq<u8>)
    requires
        expected_lengths_fit(expected),
    ensures
        scan_step(generation, expected, buf) matches ScanStep::Emit(_, n) ==> 2 <= n <= buf.len(),
        scan_step(generation, expected, buf) is Skip ==> buf.len() >= 2,
{
}

proof fn lemma_scan_keeps_fit(generation: DtsVsGeneration, expected: Map<u8, usize>, buf: Seq<u8>)
    requires
        expected_lengths_fit(expected),
    ensures
        expected_lengths_fit(scan(generation, expected, buf).expected),
    decreases buf.len(),
{
    lemma_step_emits_within(generation, expected, buf);
    match scan_step(generation, expected, buf) {
        ScanStep::Stop => {},
        ScanStep::Skip => {
            lemma_scan_keeps_fit(generation, expected, buf.drop_first());
        },
        ScanStep::Emit(frame, n) => {
            let e2 = expected_after(expected, frame);
            assert(expected_lengths_fit(e2));
            lemma_scan_keeps_fit(generation, e2, buf.skip(n as int));
        },
    }
}

/// Incremental parser of the byte stream that ASICs send in TDM mode.
pub struct TdmFrameParser {
    dts_vs_generation: DtsVsGeneration,
    buffer: Vec<u8>,
    expected_read_lengths: HashMap<u8, usize>,
}

/// Abstract state of a [`TdmFrameParser`].
pub struct TdmFrameParserView {
    pub generation: DtsVsGeneration,
    pub buffer: Seq<u8>,
    pub expected: Map<u8, usize>,
}

impl View for TdmFrameParser {
    type V = TdmFrameParserView;

    closed spec fn view(&self) -> TdmFrameParserView {
        TdmFrameParserView {
            generation: self.dts_vs_generation,
            buffer: self.buffer@,
            expected: self.expected_read_lengths@,
        }
    }
}

impl TdmFrameParser {
    /// The parser's invariant.
    pub open spec fn wf(&self) -> bool {
        expected_lengths_fit(self@.expected)
    }

    pub fn new(dts_vs_generation: DtsVsGeneration) -> (r: Self)
        ensures
            r.wf(),
            r@.generation == dts_vs_generation,
            r@.buffer == Seq::<u8>::empty(),
            r@.expected == Map::<u8, usize>::empty(),
    {
        let r = TdmFrameParser {
            dts_vs_generation,
            buffer: Vec::new(),
            expected_read_lengths: HashMap::new(),
        };
        assert(r@.expected =~= Map::<u8, usize>::empty());
        r
    }

    /// Announces that the next READREG answer from `asic` carries `count`
    /// data bytes.
    pub fn expect_read_register_bytes(&mut self, asic: u8, count: usize)
        requires
            old(self).wf(),
            count <= usize::MAX - 2,
        ensures
            final(self).wf(),
            final(self)@.generation == old(self)@.generation,
            final(self)@.buffer == old(self)@.buffer,
            final(self)@.expected == old(self)@.expected.insert(asic, count),
    {
        self.expected_read_lengths.insert(asic, count);
    }

    /// Appends `bytes` to the buffered stream and returns every frame that
    /// is now complete, keeping the unfinished tail for the next call.
    pub fn push(&mut self, bytes: &[u8]) -> (frames: Vec<TdmFrame>)
        requires
            old(self).wf(),
            old(self)@.buffer.len() + bytes@.len() <= usize::MAX,
        ensures
            final(self).wf(),
            final(self)@.generation == old(self)@.generation,
            frames_view(frames@) == scan(old(self)@.generation, old(self)@.expected, old(self)@.buffer
                + bytes@).frames,
            final(self)@.buffer == scan(old(self)@.generation, old(self)@.expected, old(self)@.buffer
                + bytes@).rest,
            final(self)@.expected == scan(old(self)@.generation, old(self)@.expected, old(self)@.buffer
                + bytes@).expected,
    {
        self.buffer.extend_from_slice(bytes);
        let ghost total = self.buffer@;
        let ghost generation = self.dts_vs_generation;
        let ghost e0 = self.expected_read_lengths@;
        assert(total =~= old(self)@.buffer + bytes@);
        assert(total.skip(0) =~= total);
        let mut frames: Vec<TdmFrame> = Vec::new();
        let mut cursor: usize = 0;
        loop
            invariant
                self.buffer@ == total,
                self.dts_vs_generation == generation,
                generation == old(self)@.generation,
                total == old(self)@.buffer + bytes@,
                total.len() <= usize::MAX,
                e0 == old(self)@.expected,
                cursor <= total.len(),
                expected_lengths_fit(self.expected_read_lengths@),
                scan(generation, e0, total) == (ScanOutcome {
                    frames: frames_view(frames@) + scan(
                        generation,
                        self.expected_read_lengths@,
                        total.skip(cursor as int),
                    ).frames,
                    rest: scan(generation, self.expected_read_lengths@, total.skip(cursor as int)).rest,
                    expected: scan(
                        generation,
                        self.expected_read_lengths@,
                        total.skip(cursor as int),
                    ).expected,
                }),
            ensures
                cursor <= total.len(),
                self.buffer@ == total,
                self.dts_vs_generation == generation,
                expected_lengths_fit(self.expected_read_lengths@),
                scan(generation, e0, total) == (ScanOutcome {
                    frames: frames_view(frames@),
                    rest: total.skip(cursor as int),
                    expected: self.expected_read_lengths@,
                }),
            decreases total.len() - cursor,
        {
            let ghost exp = self.expected_read_lengths@;
            let ghost cur = total.skip(cursor as int);
            let ghost fv = frames_view(frames@);
            proof {
                lemma_step_emits_within(generation, exp, cur);
            }
            let step = self.step_at(cursor);
            match step {
                ExecStep::Stop => {
                    assert(fv + Seq::<TdmFrameView>::empty() =~= fv);
                    break;
                },
                ExecStep::Skip => {
                    assert(cur.drop_first() =~= total.skip(cursor + 1));
                    cursor = cursor + 1;
                },
                ExecStep::Emit(frame, n) => {
                    let ghost fr = frame@;
                    if let TdmFrame::Register(reg) = &frame {
                        self.expected_read_lengths.remove(&reg.asic);
                    }
                    assert(self.expected_read_lengths@ =~= expected_after(exp, fr));
                    frames.push(frame);
                    assert(cur.skip(n as int) =~= total.skip(cursor + n));
                    cursor = cursor + n;
                    assert(frames_view(frames@) =~= fv.push(fr));
                    let ghost tail = scan(generation, self.expected_read_lengths@, total.skip(cursor as int));
                    assert(fv.push(fr) + tail.frames =~= fv + (seq![fr] + tail.frames));
                },
            }
        }
        let rest = self.buffer.split_off(cursor);
        assert(rest@ =~= total.skip(cursor as int));
        self.buffer = rest;
        frames
    }

    /// Decides what the grammar does at `cursor`, decoding the frame that
    /// starts there if it is complete.
    fn step_at(&self, cursor: usize) -> (r: ExecStep)
        requires
            self.wf(),
            cursor <= self.buffer@.len(),
        ensures
            match r {
                ExecStep::Stop => scan_step(self@.generation, self@.expected, self@.buffer.skip(cursor as int)) is Stop,
                ExecStep::Skip => scan_step(self@.generation, self@.expected, self@.buffer.skip(cursor as int)) is Skip,
                ExecStep::Emit(frame, n) => scan_step(self@.generation, self@.expected, self@.buffer.skip(cursor as int))
                    == ScanStep::Emit(frame@, n as nat),
            },
    {
        let ghost cur = self.buffer@.skip(cursor as int);
        if self.buffer.len() - cursor < 2 {
            return ExecStep::Stop;
        }
        let asic = self.buffer[cursor];
        let opcode = self.buffer[cursor + 1];
        assert(cur[0] == asic && cur[1] == opcode);
        if asic >= 100 {
            return ExecStep::Skip;
        }
        if opcode == OPCODE_UART_READRESULT {
            if self.buffer.len() - cursor < 10 {
                return ExecStep::Stop;
            }
            let frame = decode_result_frame(asic, &self.buffer, cursor + 2);
            assert(cur.subrange(2, 10) =~= self.buffer@.subrange(cursor + 2, cursor + 10));
            ExecStep::Emit(TdmFrame::Result(frame), 10)
        } else if opcode == OPCODE_UART_READREG {
            let found = self.expected_read_lengths.get(&asic);
            if found.is_none() {
                return ExecStep::Stop;
            }
            let count: usize = *found.unwrap();
            assert(self@.expected.contains_key(asic) && self@.expected[asic] == count);
            if self.buffer.len() - cursor < 2 + count {
                return ExecStep::Stop;
            }
            let data = copy_range(&self.buffer, cursor + 2, cursor + 2 + count);
            assert(cur.subrange(2, 2 + count) =~= self.buffer@.subrange(cursor + 2, cursor + 2 + count));
            ExecStep::Emit(TdmFrame::Register(TdmRegisterFrame { asic, data }), 2 + count)
        } else if opcode == OPCODE_UART_DTS_VS {
            let payload_len: usize = match self.dts_vs_generation {
                DtsVsGeneration::Gen1 => 4,
                DtsVsGeneration::Gen2 => 8,
            };
            if self.buffer.len() - cursor < 2 + payload_len {
                return ExecStep::Stop;
            }
            let payload = copy_range(&self.buffer, cursor + 2, cursor + 2 + payload_len);
            assert(cur.subrange(2, 2 + payload_len) =~= self.buffer@.subrange(cursor + 2, cursor + 2 + payload_len));
            let frame = match self.dts_vs_generation {
                DtsVsGeneration::Gen1 => TdmDtsVsFrame::Gen1(parse_dts_vs_gen1(asic, payload.as_slice())),
                DtsVsGeneration::Gen2 => TdmDtsVsFrame::Gen2(parse_dts_vs_gen2(asic, payload.as_slice())),
            };
            ExecStep::Emit(TdmFrame::DtsVs(frame), 2 + payload_len)
        } else if opcode == OPCODE_UART_NOOP {
            if self.buffer.len() - cursor < 5 {
                return ExecStep::Stop;
            }
            let data: [u8; 3] = [self.buffer[cursor + 2], self.buffer[cursor + 3], self.buffer[cursor + 4]];
            assert(data@ =~= cur.subrange(2, 5));
            ExecStep::Emit(TdmFrame::Noop(TdmNoopFrame { asic, data }), 5)
        } else {
            ExecStep::Skip
        }
    }
}

/// Executable counterpart of [`ScanStep`].
enum ExecStep {
    Stop,
    Skip,
    Emit(TdmFrame, usize),
}

impl Default for TdmFrameParser {
    fn default() -> (r: Self)
        ensures
            r.wf(),
            r@.generation == DtsVsGeneration::Gen2,
            r@.buffer == Seq::<u8>::empty(),
            r@.expected == Map::<u8, usize>::empty(),
    {
        Self::new(DtsVsGeneration::Gen2)
    }
}

fn copy_range(v: &Vec<u8>, start: usize, end: usize) -> (r: Vec<u8>)
    requires
        start <= end <= v@.len(),
    ensures
        r@ == v@.subrange(start as int, end as int),
{
    let mut r: Vec<u8> = Vec::new();
    let mut i = start;
    while i < end
        invariant
            start <= i <= end,
            end <= v@.len(),
            r@ == v@.subrange(start as int, i as int),
        decreases end - i,
    {
        r.push(v[i]);
        i = i + 1;
        assert(r@ =~= v@.subrange(start as int, i as int));
    }
    r
}

fn decode_result_frame(asic: u8, buf: &Vec<u8>, start: usize) -> (r: TdmResultFrame)
    requires
        start + 8 <= buf.len(),
    ensures
        r == result_frame_spec(asic, buf@.subrange(start as int, start + 8)),
{
    let header: u16 = ((buf[start] as u16) << 8u16) | (buf[start + 1] as u16);
    let nonce: u32 = (buf[start + 2] as u32) | ((buf[start + 3] as u32) << 8u32) | ((buf[start + 4] as u32)
        << 16u32) | ((buf[start + 5] as u32) << 24u32);
    TdmResultFrame {
        asic,
        engine_address: header & 0x0fff,
        status: (header >> 12u16) as u8,
        nonce,
        sequence_id: buf[start + 6],
        reported_time: buf[start + 7],
    }
}

fn parse_dts_vs_gen1(asic: u8, payload: &[u8]) -> (r: TdmDtsVsGen1Frame)
    requires
        payload@.len() == 4,
    ensures
        r == dts_vs_gen1_spec(asic, payload@),
{
    let b0 = payload[3];
    let b1 = payload[2];
    let b2 = payload[1];
    let b3 = payload[0];
    let ghost b = payload@.reverse();
    assert(b[0] == b0 && b[1] == b1 && b[2] == b2 && b[3] == b3);
    TdmDtsVsGen1Frame {
        asic,
        voltage: (((b1 & 0x07) as u16) << 8u16) | (b0 as u16),
        voltage_enabled: (b1 & 0x80) != 0,
        thermal_tune_code: b2,
        thermal_validity: (b3 & 0x40) != 0,
        thermal_enabled: (b3 & 0x80) != 0,
    }
}

fn parse_dts_vs_gen2(asic: u8, payload: &[u8]) -> (r: TdmDtsVsGen2Frame)
    requires
        payload@.len() == 8,
    ensures
        r == dts_vs_gen2_spec(asic, payload@),
{
    let b0 = payload[7];
    let b1 = payload[6];
    let b2 = payload[5];
    let b3 = payload[4];
    let b4 = payload[3];
    let b5 = payload[2];
    let b6 = payload[1];
    let b7 = payload[0];
    let ghost b = payload@.reverse();
    assert(b[0] == b0 && b[1] == b1 && b[2] == b2 && b[3] == b3);
    assert(b[4] == b4 && b[5] == b5 && b[6] == b6 && b[7] == b7);
    TdmDtsVsGen2Frame {
        asic,
        ch0_voltage: (((b2 & 0x3f) as u16) << 8u16) | (b3 as u16),
        ch1_voltage: ((b4 as u16) << 6u16) | ((b5 & 0x3f) as u16),
        ch2_voltage: (((b7 & 0x0f) as u16) << 10u16) | ((b6 as u16) << 2u16) | (((b5 >> 6u8) & 0x03)
            as u16),
        voltage_shutdown_status: (b2 & 0x40) != 0,
        voltage_enabled: (b2 & 0x80) != 0,
        thermal_tune_code: (((b0 & 0x0f) as u16) << 8u16) | (b1 as u16),
        thermal_trip_status: (b0 & 0x10) != 0,
        thermal_fault: (b0 & 0x20) != 0,
        thermal_validity: (b0 & 0x40) != 0,
        thermal_enabled: (b0 & 0x80) != 0,
        voltage_fault: (b7 & 0x10) != 0,
        dll0_lock: (b7 & 0x20) != 0,
        dll1_lock: (b7 & 0x40) != 0,
        pll_lock: (b7 & 0x80) != 0,
    }
}

/// The nonce results among a sequence of frames, in order.
pub open spec fn result_frames(frames: Seq<TdmFrameView>) -> Seq<TdmResultFrame>
    decreases frames.len(),
{
    if frames.len() == 0 {
        Seq::empty()
    } else {
        let prev = result_frames(frames.drop_last());
        match frames.last() {
            TdmFrameView::Result(r) => prev.push(r),
            _ => prev,
        }
    }
}

/// A TDM parser that reports nonce results only.
pub struct TdmResultParser {
    inner: TdmFrameParser,
}

impl View for TdmResultParser {
    type V = TdmFrameParserView;

    closed spec fn view(&self) -> TdmFrameParserView {
        self.inner@
    }
}

impl TdmResultParser {
    pub open spec fn wf(&self) -> bool {
        expected_lengths_fit(self@.expected)
    }

    /// Appends `bytes` to the stream and returns the nonce results that are
    /// now complete; other frames are consumed and dropped.
    pub fn push(&mut self, bytes: &[u8]) -> (results: Vec<TdmResultFrame>)
        requires
            old(self).wf(),
            old(self)@.buffer.len() + bytes@.len() <= usize::MAX,
        ensures
            final(self).wf(),
            final(self)@.generation == old(self)@.generation,
            results@ == result_frames(scan(old(self)@.generation, old(self)@.expected, old(self)@.buffer
                + bytes@).frames),
            final(self)@.buffer == scan(old(self)@.generation, old(self)@.expected, old(self)@.buffer
                + bytes@).rest,
            final(self)@.expected == scan(old(self)@.generation, old(self)@.expected, old(self)@.buffer
                + bytes@).expected,
    {
        let frames = self.inner.push(bytes);
        let mut results: Vec<TdmResultFrame> = Vec::new();
        let mut i: usize = 0;
        while i < frames.len()
            invariant
                i <= frames@.len(),
                results@ == result_frames(frames_view(frames@).take(i as int)),
            decreases frames@.len() - i,
        {
            let ghost fv = frames_view(frames@);
            assert(fv.take(i + 1).drop_last() =~= fv.take(i as int));
            match &frames[i] {
                TdmFrame::Result(r) => {
                    results.push(*r);
                },
                _ => {},
            }
            i = i + 1;
        }
        assert(frames_view(frames@).take(i as int) =~= frames_view(frames@));
        results
    }
}

impl Default for TdmResultParser {
    fn default() -> (r: Self)
        ensures
            r.wf(),
            r@.generation == DtsVsGeneration::Gen2,
            r@.buffer == Seq::<u8>::empty(),
            r@.expected == Map::<u8, usize>::empty(),
    {
        TdmResultParser { inner: TdmFrameParser::default() }
    }
}

// ---------------------------------------------------------------------------
// The logical engine grid.
// ---------------------------------------------------------------------------

/// Position of an engine in the column-major walk of the 20 x 12 grid.
pub open spec fn grid_index(c: (u8, u8)) -> int {
    20 * (c.1 as int) + (c.0 as int)
}

/// The engine at position `k` of the column-major walk of the grid.
pub open spec fn grid_coord(k: int) -> (u8, u8) {
    ((k % 20) as u8, (k / 20) as u8)
}

pub open spec fn in_grid(c: (u8, u8)) -> bool {
    c.0 < LOGICAL_ENGINE_ROWS && c.1 < LOGICAL_ENGINE_COLS
}

/// The four engines that the default BZM2 layout leaves out.
pub open spec fn is_default_excluded(c: (u8, u8)) -> bool {
    c == (0u8, 4u8) || c == (0u8, 5u8) || c == (19u8, 5u8) || c == (19u8, 11u8)
}

/// The coordinates among the first `k` positions of the column-major walk
/// of the grid that `keep` selects, in walk order.
pub open spec fn grid_select(keep: spec_fn((u8, u8)) -> bool, k: nat) -> Seq<(u8, u8)>
    decreases k,
{
    if k == 0 {
        Seq::empty()
    } else {
        let prev = grid_select(keep, (k - 1) as nat);
        let c = grid_coord(k - 1);
        if keep(c) {
            prev.push(c)
        } else {
            prev
        }
    }
}

/// Every engine of the grid, column by column.
pub open spec fn physical_coordinates_spec() -> Seq<(u8, u8)> {
    Seq::new(240, |k: int| grid_coord(k))
}

pub open spec fn keep_default(c: (u8, u8)) -> bool {
    !is_default_excluded(c)
}

/// The engines of the default layout, column by column.
pub open spec fn default_coordinates_spec() -> Seq<(u8, u8)> {
    default_select(240)
}

/// Number of excluded engines that come before walk position `k`.
pub open spec fn excluded_before(k: int) -> int {
    (if 80 < k { 1int } else { 0int }) + (if 100 < k { 1int } else { 0int }) + (if 119 < k {
        1int
    } else {
        0int
    }) + (if 239 < k { 1int } else { 0int })
}

/// Walk position of the engine with logical id `i` in the default layout.
pub open spec fn default_walk_position(i: int) -> int {
    i + (if i >= 80 { 1int } else { 0int }) + (if i >= 99 { 1int } else { 0int }) + (if i >= 117 {
        1int
    } else {
        0int
    })
}

/// Logical id of an engine in the default layout: its position in the
/// column-major walk, not counting the excluded engines before it.
pub open spec fn logical_engine_id_spec(row: u8, col: u8) -> Option<u16> {
    if in_grid((row, col)) && !is_default_excluded((row, col)) {
        Some((grid_index((row, col)) - excluded_before(grid_index((row, col)))) as u16)
    } else {
        None
    }
}

/// Engine address of a grid coordinate: column above bit 6, row below.
pub open spec fn address_of(c: (u8, u8)) -> u16 {
    (((c.1 as u16) << 6u16) | (c.0 as u16)) as u16
}

/// The logical id that a layout gives to an engine address: the position
/// of the active engine with that address, if there is one.
pub open spec fn position_of_address(active: Seq<(u8, u8)>, address: u16) -> Option<u16> {
    if exists|i: int| 0 <= i < active.len() && #[trigger] address_of(active[i]) == address {
        Some((choose|i: int| 0 <= i < active.len() && #[trigger] address_of(active[i]) == address) as u16)
    } else {
        None
    }
}

pub proof fn lemma_grid_coord(k: int)
    requires
        0 <= k < 240,
    ensures
        in_grid(grid_coord(k)),
        grid_index(grid_coord(k)) == k,
{
    assert(0 <= k / 20 < 12);
    assert(k == 20 * (k / 20) + k % 20);
}

pub proof fn lemma_grid_index(c: (u8, u8))
    requires
        in_grid(c),
    ensures
        0 <= grid_index(c) < 240,
        grid_coord(grid_index(c)) == c,
{
    let k = grid_index(c);
    assert(k / 20 == c.1 as int && k % 20 == c.0 as int) by {
        vstd::arithmetic::div_mod::lemma_fundamental_div_mod_converse(
            k,
            20,
            c.1 as int,
            c.0 as int,
        );
    }
}

/// An engine address stores the row below bit 6 and the column above it.
pub proof fn lemma_address_of(c: (u8, u8))
    requires
        c.0 < 64,
    ensures
        address_of(c) as int == 64 * (c.1 as int) + (c.0 as int),
        engine_row(address_of(c)) == c.0,
        engine_col(address_of(c)) == c.1,
{
    let row = c.0;
    let col = c.1;
    assert(row < 64 ==> ((((col as u16) << 6u16) | (row as u16)) as u16) == 64 * (col as u16) + (row as u16))
        by (bit_vector);
    assert(row < 64 ==> (((((col as u16) << 6u16) | (row as u16)) as u16) & 0x3fu16) as u8 == row)
        by (bit_vector);
    assert(row < 64 ==> (((((col as u16) << 6u16) | (row as u16)) as u16) >> 6u16) as u8 == col)
        by (bit_vector);
}

pub proof fn lemma_default_excluded_positions(k: int)
    requires
        0 <= k < 240,
    ensures
        is_default_excluded(grid_coord(k)) <==> (k == 80 || k == 100 || k == 119 || k == 239),
{
    lemma_grid_coord(k);
    if k == 80 || k == 100 || k == 119 || k == 239 {
    } else {
        if is_default_excluded(grid_coord(k)) {
            let c = grid_coord(k);
            assert(grid_index(c) == k);
        }
    }
}

/// What a grid selection holds: in-grid coordinates before position `k`
/// that `keep` selects, in strictly increasing walk order.
pub proof fn lemma_grid_select(keep: spec_fn((u8, u8)) -> bool, k: nat)
    requires
        k <= 240,
    ensures
        grid_select(keep, k).len() <= k,
        forall|i: int|
            0 <= i < grid_select(keep, k).len() ==> in_grid(#[trigger] grid_select(keep, k)[i])
                && grid_index(grid_select(keep, k)[i]) < k && keep(grid_select(keep, k)[i]),
        forall|i: int, j: int|
            0 <= i < j < grid_select(keep, k).len() ==> grid_index(#[trigger] grid_select(keep, k)[i])
                < grid_index(#[trigger] grid_select(keep, k)[j]),
        forall|c: (u8, u8)|
            #[trigger] grid_select(keep, k).contains(c) <==> (in_grid(c) && grid_index(c) < k && keep(
                c,
            )),
    decreases k,
{
    if k > 0 {
        lemma_grid_select(keep, (k - 1) as nat);
        lemma_grid_coord(k - 1);
        let prev = grid_select(keep, (k - 1) as nat);
        let c = grid_coord(k - 1);
        assert forall|d: (u8, u8)| #[trigger]
            grid_select(keep, k).contains(d) <==> (in_grid(d) && grid_index(d) < k && keep(d)) by {
            if in_grid(d) && grid_index(d) < k && keep(d) {
                if grid_index(d) == k - 1 {
                    lemma_grid_index(d);
                    assert(grid_select(keep, k)[prev.len() as int] == d);
                } else {
                    assert(prev.contains(d));
                    let i = choose|i: int| 0 <= i < prev.len() && prev[i] == d;
                    assert(grid_select(keep, k)[i] == d);
                }
            }
            if grid_select(keep, k).contains(d) {
                let i = choose|i: int| 0 <= i < grid_select(keep, k).len() && grid_select(keep, k)[i] == d;
                if i < prev.len() {
                    assert(prev[i] == d);
                }
            }
        }
    }
}

/// Two selections agree when their filters agree on the grid.
pub proof fn lemma_grid_select_ext(keep1: spec_fn((u8, u8)) -> bool, keep2: spec_fn((u8, u8)) -> bool, k: nat)
    requires
        k <= 240,
        forall|j: int| 0 <= j < k ==> keep1(#[trigger] grid_coord(j)) == keep2(grid_coord(j)),
    ensures
        grid_select(keep1, k) == grid_select(keep2, k),
    decreases k,
{
    if k > 0 {
        lemma_grid_select_ext(keep1, keep2, (k - 1) as nat);
        assert(keep1(grid_coord(k - 1)) == keep2(grid_coord(k - 1)));
    }
}

/// The default layout restricted to the first `k` walk positions.
pub open spec fn default_select(k: nat) -> Seq<(u8, u8)> {
    grid_select(|c: (u8, u8)| keep_default(c), k)
}

/// Closed form of the default layout.
pub proof fn lemma_default_select(k: nat)
    requires
        k <= 240,
    ensures
        default_select(k).len() == k - excluded_before(k as int),
        forall|i: int|
            0 <= i < default_select(k).len() ==> #[trigger] default_select(k)[i] == grid_coord(
                default_walk_position(i),
            ),
    decreases k,
{
    if k > 0 {
        lemma_default_select((k - 1) as nat);
        lemma_default_excluded_positions(k - 1);
    }
}

pub proof fn lemma_default_coordinates()
    ensures
        default_coordinates_spec().len() == 236,
        forall|i: int|
            0 <= i < 236 ==> #[trigger] default_coordinates_spec()[i] == grid_coord(
                default_walk_position(i),
            ),
        forall|c: (u8, u8)|
            #[trigger] default_coordinates_spec().contains(c) <==> (in_grid(c) && keep_default(c)),
{
    lemma_default_select(240);
    lemma_grid_select(|c: (u8, u8)| keep_default(c), 240);
    assert forall|c: (u8, u8)| #[trigger]
        default_coordinates_spec().contains(c) <==> (in_grid(c) && keep_default(c)) by {
        if in_grid(c) {
            lemma_grid_index(c);
        }
    }
}

/// The logical id of an engine is its position in the default layout.
pub proof fn lemma_logical_engine_id_is_position(row: u8, col: u8)
    ensures
        match logical_engine_id_spec(row, col) {
            Some(i) => (i as int) < default_coordinates_spec().len() && default_coordinates_spec()[i
                as int] == (row, col),
            None => !default_coordinates_spec().contains((row, col)),
        },
{
    lemma_default_coordinates();
    if in_grid((row, col)) && !is_default_excluded((row, col)) {
        let k = grid_index((row, col));
        lemma_grid_index((row, col));
        lemma_default_excluded_positions(k);
        let i = k - excluded_before(k);
        assert(default_walk_position(i) == k);
    }
}

/// Within the grid, distinct engines have distinct addresses.
pub proof fn lemma_address_injective(c: (u8, u8), d: (u8, u8))
    requires
        in_grid(c),
        in_grid(d),
        address_of(c) == address_of(d),
    ensures
        c == d,
{
    lemma_address_of(c);
    lemma_address_of(d);
}

/// Engine address of a grid coordinate.
pub fn logical_engine_address(row: u8, col: u8) -> (r: u16)
    ensures
        r == address_of((row, col)),
        row < 64 ==> engine_row(r) == row && engine_col(r) == col,
{
    proof {
        if row < 64 {
            lemma_address_of((row, col));
        }
    }
    ((col as u16) << 6u16) | (row as u16)
}

/// Logical id of an engine in the default layout, or `None` for
/// coordinates outside the grid and for the excluded engines.
pub fn logical_engine_id(row: u8, col: u8) -> (r: Option<u16>)
    ensures
        r == logical_engine_id_spec(row, col),
        match r {
            Some(i) => (i as int) < default_coordinates_spec().len() && default_coordinates_spec()[i
                as int] == (row, col),
            None => !default_coordinates_spec().contains((row, col)),
        },
{
    proof {
        lemma_logical_engine_id_is_position(row, col);
    }
    if row >= LOGICAL_ENGINE_ROWS || col >= LOGICAL_ENGINE_COLS {
        return None;
    }
    if is_excluded(row, col) {
        return None;
    }
    let k: u16 = 20 * (col as u16) + (row as u16);
    let mut before: u16 = 0;
    if k > 80 {
        before = before + 1;
    }
    if k > 100 {
        before = before + 1;
    }
    if k > 119 {
        before = before + 1;
    }
    if k > 239 {
        before = before + 1;
    }
    Some(k - before)
}

fn is_excluded(row: u8, col: u8) -> (r: bool)
    ensures
        r == is_default_excluded((row, col)),
{
    (row == 0 && col == 4) || (row == 0 && col == 5) || (row == 19 && col == 5) || (row == 19 && col
        == 11)
}

/// The engines that the default layout leaves out.
pub fn default_excluded_engines() -> (r: Vec<(u8, u8)>)
    ensures
        r@ == seq![(0u8, 4u8), (0u8, 5u8), (19u8, 5u8), (19u8, 11u8)],
        forall|c: (u8, u8)| #[trigger] r@.contains(c) <==> is_default_excluded(c),
{
    let r = vec![(0u8, 4u8), (0u8, 5u8), (19u8, 5u8), (19u8, 11u8)];
    assert(r@ =~= seq![(0u8, 4u8), (0u8, 5u8), (19u8, 5u8), (19u8, 11u8)]);
    assert forall|c: (u8, u8)| #[trigger] r@.contains(c) <==> is_default_excluded(c) by {
        if is_default_excluded(c) {
            if c == (0u8, 4u8) {
                assert(r@[0] == c);
            } else if c == (0u8, 5u8) {
                assert(r@[1] == c);
            } else if c == (19u8, 5u8) {
                assert(r@[2] == c);
            } else {
                assert(r@[3] == c);
            }
        }
    }
    r
}

/// Every engine position of the grid, column by column.
pub fn physical_engine_coordinates() -> (r: Vec<(u8, u8)>)
    ensures
        r@ == physical_coordinates_spec(),
{
    let mut coords: Vec<(u8, u8)> = Vec::new();
    let mut k: u16 = 0;
    while k < 240
        invariant
            k <= 240,
            coords@ == Seq::new(k as nat, |j: int| grid_coord(j)),
        decreases 240 - k,
    {
        coords.push(((k % 20) as u8, (k / 20) as u8));
        k = k + 1;
        assert(coords@ =~= Seq::new(k as nat, |j: int| grid_coord(j)));
    }
    coords
}

/// The engines of the default layout, column by column.
pub fn default_engine_coordinates() -> (r: Vec<(u8, u8)>)
    ensures
        r@ == default_coordinates_spec(),
{
    let mut coords: Vec<(u8, u8)> = Vec::new();
    let mut k: u16 = 0;
    while k < 240
        invariant
            k <= 240,
            coords@ == grid_select(|c: (u8, u8)| keep_default(c), k as nat),
        decreases 240 - k,
    {
        let row = (k % 20) as u8;
        let col = (k / 20) as u8;
        assert((row, col) == grid_coord(k as int));
        if !is_excluded(row, col) {
            coords.push((row, col));
        }
        k = k + 1;
    }
    coords
}

/// The engines that are active on one ASIC, numbered column by column.
#[derive(Debug)]
pub struct Bzm2EngineLayout {
    active_coordinates: Vec<(u8, u8)>,
    logical_ids_by_address: HashMap<u16, u16>,
}

impl View for Bzm2EngineLayout {
    type V = Seq<(u8, u8)>;

    closed spec fn view(&self) -> Seq<(u8, u8)> {
        self.active_coordinates@
    }
}

/// The layout made of the in-grid engines that a coordinate list names.
pub open spec fn layout_spec(coords: Seq<(u8, u8)>) -> Seq<(u8, u8)> {
    grid_select(|c: (u8, u8)| coords.contains(c), 240)
}

spec fn ids_match(active: Seq<(u8, u8)>, ids: Map<u16, u16>) -> bool {
    &&& forall|i: int|
        0 <= i < active.len() ==> #[trigger] ids.contains_key(address_of(active[i]))
            && ids[address_of(active[i])] == i
    &&& forall|a: u16|
        #[trigger] ids.contains_key(a) ==> ids[a] < active.len() && address_of(active[ids[a] as int])
            == a
}

impl Bzm2EngineLayout {
    #[verifier::type_invariant]
    spec fn layout_invariant(self) -> bool {
        &&& self.active_coordinates@.len() <= 240
        &&& forall|i: int|
            0 <= i < self.active_coordinates@.len() ==> in_grid(#[trigger] self.active_coordinates@[i])
        &&& ids_match(self.active_coordinates@, self.logical_ids_by_address@)
    }

    /// Builds the layout of the in-grid engines that `coords` names, in
    /// column-major order and each once.
    pub fn from_active_coordinates(coords: &[(u8, u8)]) -> (r: Self)
        ensures
            r@ == layout_spec(coords@),
            forall|c: (u8, u8)| #[trigger] r@.contains(c) <==> (in_grid(c) && coords@.contains(c)),
            forall|i: int, j: int| 0 <= i < j < r@.len() ==> grid_index(#[trigger] r@[i]) < grid_index(#[trigger] r@[j]),
    {
        let mut present: Vec<bool> = Vec::new();
        let mut k: usize = 0;
        while k < 240
            invariant
                k <= 240,
                present@.len() == k,
                forall|j: int| 0 <= j < k ==> !#[trigger] present@[j],
            decreases 240 - k,
        {
            present.push(false);
            k = k + 1;
        }
        let mut n: usize = 0;
        while n < coords.len()
            invariant
                n <= coords@.len(),
                present@.len() == 240,
                forall|j: int| 0 <= j < 240 ==> #[trigger] present@[j] == coords@.take(n as int).contains(grid_coord(j)),
            decreases coords@.len() - n,
        {
            let (row, col) = coords[n];
            let ghost prev = coords@.take(n as int);
            assert(coords@.take(n + 1) =~= prev.push((row, col)));
            if row < LOGICAL_ENGINE_ROWS && col < LOGICAL_ENGINE_COLS {
                let g: usize = 20 * (col as usize) + (row as usize);
                proof {
                    lemma_grid_index((row, col));
                }
                present.set(g, true);
                assert forall|j: int| 0 <= j < 240 implies #[trigger] present@[j] == coords@.take(n + 1).contains(grid_coord(j)) by {
                    lemma_grid_coord(j);
                    if j != g {
                        if grid_coord(j) == (row, col) {
                            assert(grid_index(grid_coord(j)) == g);
                        }
                        if prev.push((row, col)).contains(grid_coord(j)) {
                            let i = choose|i: int| 0 <= i < prev.len() + 1 && prev.push((row, col))[i] == grid_coord(j);
                            if i < prev.len() {
                                assert(prev[i] == grid_coord(j));
                            }
                        }
                        if prev.contains(grid_coord(j)) {
                            let i = choose|i: int| 0 <= i < prev.len() && prev[i] == grid_coord(j);
                            assert(prev.push((row, col))[i] == grid_coord(j));
                        }
                    } else {
                        assert(prev.push((row, col))[prev.len() as int] == (row, col));
                    }
                }
            } else {
                assert forall|j: int| 0 <= j < 240 implies #[trigger] present@[j] == coords@.take(n + 1).contains(grid_coord(j)) by {
                    lemma_grid_coord(j);
                    if prev.push((row, col)).contains(grid_coord(j)) {
                        let i = choose|i: int| 0 <= i < prev.len() + 1 && prev.push((row, col))[i] == grid_coord(j);
                        if i < prev.len() {
                            assert(prev[i] == grid_coord(j));
                        }
                    }
                    if prev.contains(grid_coord(j)) {
                        let i = choose|i: int| 0 <= i < prev.len() && prev[i] == grid_coord(j);
                        assert(prev.push((row, col))[i] == grid_coord(j));
                    }
                }
            }
            n = n + 1;
        }
        assert(coords@.take(n as int) =~= coords@);
        let ghost keep = |c: (u8, u8)| coords@.contains(c);
        let mut active: Vec<(u8, u8)> = Vec::new();
        let mut ids: HashMap<u16, u16> = HashMap::new();
        let mut k: u16 = 0;
        while k < 240
            invariant
                k <= 240,
                present@.len() == 240,
                forall|j: int| 0 <= j < 240 ==> #[trigger] present@[j] == keep(grid_coord(j)),
                active@ == grid_select(keep, k as nat),
                ids_match(active@, ids@),
            decreases 240 - k,
        {
            proof {
                lemma_grid_select(keep, k as nat);
                lemma_grid_coord(k as int);
            }
            let row = (k % 20) as u8;
            let col = (k / 20) as u8;
            assert((row, col) == grid_coord(k as int));
            if present[k as usize] {
                let id = active.len() as u16;
                let address = logical_engine_address(row, col);
                let ghost old_active = active@;
                let ghost old_ids = ids@;
                proof {
                    assert forall|i: int| 0 <= i < old_active.len() implies address_of(#[trigger] old_active[i]) != address by {
                        if address_of(old_active[i]) == address {
                            lemma_address_injective(old_active[i], (row, col));
                        }
                    }
                    assert(!old_ids.contains_key(address));
                }
                active.push((row, col));
                ids.insert(address, id);
                assert forall|i: int| 0 <= i < active@.len() implies #[trigger] ids@.contains_key(address_of(active@[i]))
                    && ids@[address_of(active@[i])] == i by {
                    if i < old_active.len() {
                        assert(active@[i] == old_active[i]);
                    }
                }
            }
            k = k + 1;
        }
        proof {
            lemma_grid_select(keep, 240);
            assert forall|i: int| 0 <= i < active@.len() implies in_grid(#[trigger] active@[i]) by {
                assert(active@[i] == grid_select(keep, 240)[i]);
            }
            assert forall|c: (u8, u8)| #[trigger] active@.contains(c) <==> (in_grid(c) && coords@.contains(c)) by {
                if in_grid(c) {
                    lemma_grid_index(c);
                }
            }
        }
        assert(active@.len() <= 240);
        assert(ids_match(active@, ids@));
        Bzm2EngineLayout { active_coordinates: active, logical_ids_by_address: ids }
    }

    pub fn active_coordinates(&self) -> (r: &[(u8, u8)])
        ensures
            r@ == self@,
    {
        self.active_coordinates.as_slice()
    }

    pub fn active_engine_count(&self) -> (r: usize)
        ensures
            r == self@.len(),
    {
        self.active_coordinates.len()
    }

    /// Logical id of the engine at a grid coordinate in this layout.
    pub fn logical_engine_id(&self, row: u8, col: u8) -> (r: Option<u16>)
        ensures
            r == position_of_address(self@, address_of((row, col))),
            row < 64 ==> match r {
                Some(i) => (i as int) < self@.len() && self@[i as int] == (row, col),
                None => !self@.contains((row, col)),
            },
    {
        let r = self.logical_engine_id_from_address(logical_engine_address(row, col));
        proof {
            use_type_invariant(self);
            if row < 64 {
                lemma_address_of((row, col));
                match r {
                    Some(i) => {
                        lemma_address_of(self@[i as int]);
                    },
                    None => {
                        if self@.contains((row, col)) {
                            let i = choose|i: int| 0 <= i < self@.len() && self@[i] == (row, col);
                            assert(address_of(self@[i]) == address_of((row, col)));
                        }
                    },
                }
            }
        }
        r
    }

    /// Logical id of the engine with the given address in this layout.
    pub fn logical_engine_id_from_address(&self, engine_address: u16) -> (r: Option<u16>)
        ensures
            r == position_of_address(self@, engine_address),
            match r {
                Some(i) => (i as int) < self@.len() && address_of(self@[i as int]) == engine_address,
                None => forall|i: int| 0 <= i < self@.len() ==> address_of(#[trigger] self@[i]) != engine_address,
            },
    {
        proof {
            use_type_invariant(self);
        }
        let found = self.logical_ids_by_address.get(&engine_address);
        let r = match found {
            Some(id) => Some(*id),
            None => None,
        };
        proof {
            let active = self@;
            match r {
                Some(i) => {
                    let j = choose|j: int| 0 <= j < active.len() && #[trigger] address_of(active[j]) == engine_address;
                    lemma_address_injective(active[j], active[i as int]);
                    assert(self.logical_ids_by_address@[address_of(active[j])] == j);
                },
                None => {
                    assert forall|i: int| 0 <= i < active.len() implies address_of(#[trigger] active[i]) != engine_address by {
                        assert(self.logical_ids_by_address@.contains_key(address_of(active[i])));
                    }
                },
            }
        }
        r
    }
}

impl Clone for Bzm2EngineLayout {
    fn clone(&self) -> (r: Self)
        ensures
            r@ == self@,
    {
        proof {
            use_type_invariant(self);
        }
        let mut active: Vec<(u8, u8)> = Vec::new();
        let mut i: usize = 0;
        while i < self.active_coordinates.len()
            invariant
                i <= self.active_coordinates@.len(),
                active@ == self.active_coordinates@.take(i as int),
            decreases self.active_coordinates@.len() - i,
        {
            active.push(self.active_coordinates[i]);
            i = i + 1;
            assert(active@ =~= self.active_coordinates@.take(i as int));
        }
        assert(active@ =~= self.active_coordinates@);
        Bzm2EngineLayout {
            active_coordinates: active,
            logical_ids_by_address: self.logical_ids_by_address.clone(),
        }
    }
}

impl Default for Bzm2EngineLayout {
    fn default() -> (r: Self)
        ensures
            r@ == default_coordinates_spec(),
    {
        let coords = default_engine_coordinates();
        let r = Self::from_active_coordinates(coords.as_slice());
        proof {
            lemma_default_coordinates();
            assert forall|j: int| 0 <= j < 240 implies (|c: (u8, u8)| coords@.contains(c))(#[trigger] grid_coord(j))
                == (|c: (u8, u8)| keep_default(c))(grid_coord(j)) by {
                lemma_grid_coord(j);
            }
            lemma_grid_select_ext(|c: (u8, u8)| coords@.contains(c), |c: (u8, u8)| keep_default(c), 240);
        }
        r
    }
}

/// The default layout numbers every engine on the grid exactly as
/// `logical_engine_id` does, for every row an engine address can carry.
pub proof fn lemma_default_layout_numbering(row: u8, col: u8)
    requires
        row < 64,
    ensures
        position_of_address(default_coordinates_spec(), address_of((row, col)))
            == logical_engine_id_spec(row, col),
{
    let d = default_coordinates_spec();
    lemma_default_coordinates();
    lemma_logical_engine_id_is_position(row, col);
    lemma_address_of((row, col));
    lemma_grid_select(|c: (u8, u8)| keep_default(c), 240);
    match logical_engine_id_spec(row, col) {
        Some(i) => {
            assert(address_of(d[i as int]) == address_of((row, col)));
            let j = choose|j: int| 0 <= j < d.len() && #[trigger] address_of(d[j]) == address_of((row, col));
            lemma_address_injective(d[j], (row, col));
            if j != i as int {
                if j < i as int {
                    assert(grid_index(d[j]) < grid_index(d[i as int]));
                } else {
                    assert(grid_index(d[i as int]) < grid_index(d[j]));
                }
            }
        },
        None => {
            if exists|j: int| 0 <= j < d.len() && #[trigger] address_of(d[j]) == address_of((row, col)) {
                let j = choose|j: int| 0 <= j < d.len() && #[trigger] address_of(d[j]) == address_of((row, col));
                lemma_address_of(d[j]);
                assert(d[j] == (row, col));
            }
        },
    }
}

// ---------------------------------------------------------------------------
// Laws of the TDM grammar.
// ---------------------------------------------------------------------------

/// A decision the grammar takes on a buffer does not change when more bytes
/// arrive behind it.
proof fn lemma_step_prefix_stable(
    generation: DtsVsGeneration,
    expected: Map<u8, usize>,
    x: Seq<u8>,
    y: Seq<u8>,
)
    requires
        !(scan_step(generation, expected, x) is Stop),
    ensures
        scan_step(generation, expected, x + y) == scan_step(generation, expected, x),
{
    let xy = x + y;
    assert(xy[0] == x[0] && xy[1] == x[1]);
    if x.len() >= 10 {
        assert(xy.subrange(2, 10) =~= x.subrange(2, 10));
    }
    if x.len() >= 5 {
        assert(xy.subrange(2, 5) =~= x.subrange(2, 5));
    }
    let n = dts_vs_payload_len(generation);
    if x.len() >= 2 + n {
        assert(xy.subrange(2, 2 + n as int) =~= x.subrange(2, 2 + n as int));
    }
    if expected.contains_key(x[0]) && x.len() >= 2 + expected[x[0]] {
        assert(xy.subrange(2, 2 + expected[x[0]]) =~= x.subrange(2, 2 + expected[x[0]]));
    }
}

/// Scanning a buffer that grows behind the point where the scan stopped
/// resumes exactly where it left off.
proof fn lemma_scan_append(generation: DtsVsGeneration, expected: Map<u8, usize>, x: Seq<u8>, y: Seq<u8>)
    ensures
        ({
            let first = scan(generation, expected, x);
            let second = scan(generation, first.expected, first.rest + y);
            let whole = scan(generation, expected, x + y);
            &&& whole.frames == first.frames + second.frames
            &&& whole.rest == second.rest
            &&& whole.expected == second.expected
        }),
    decreases x.len(),
{
    let first = scan(generation, expected, x);
    match scan_step(generation, expected, x) {
        ScanStep::Stop => {
            let second = scan(generation, expected, x + y);
            assert(first.frames + second.frames =~= second.frames);
        },
        ScanStep::Skip => {
            lemma_step_prefix_stable(generation, expected, x, y);
            if x.len() > 0 {
                assert((x + y).drop_first() =~= x.drop_first() + y);
                lemma_scan_append(generation, expected, x.drop_first(), y);
            }
        },
        ScanStep::Emit(frame, n) => {
            lemma_step_prefix_stable(generation, expected, x, y);
            if 0 < n <= x.len() {
                let e2 = expected_after(expected, frame);
                assert((x + y).skip(n as int) =~= x.skip(n as int) + y);
                lemma_scan_append(generation, e2, x.skip(n as int), y);
                let inner = scan(generation, e2, x.skip(n as int));
                let second = scan(generation, inner.expected, inner.rest + y);
                assert(seq![frame] + (inner.frames + second.frames) =~= (seq![frame] + inner.frames)
                    + second.frames);
            }
        },
    }
}

/// The parser does not depend on how the byte stream is cut into chunks:
/// pushing `a` and then `b` yields the frames that pushing `a` followed by
/// `b` at once yields, and leaves the parser in the same state.
pub proof fn lemma_push_chunking(
    generation: DtsVsGeneration,
    expected: Map<u8, usize>,
    buffer: Seq<u8>,
    a: Seq<u8>,
    b: Seq<u8>,
)
    ensures
        ({
            let first = scan(generation, expected, buffer + a);
            let second = scan(generation, first.expected, first.rest + b);
            let whole = scan(generation, expected, buffer + (a + b));
            &&& whole.frames == first.frames + second.frames
            &&& whole.rest == second.rest
            &&& whole.expected == second.expected
        }),
{
    assert(buffer + (a + b) =~= (buffer + a) + b);
    lemma_scan_append(generation, expected, buffer + a, b);
}

/// Bytes that cannot start a frame (an ASIC id of 100 or more) in front of
/// the stream are dropped and the parser resynchronizes on what follows.
pub proof fn lemma_resync_after_noise(
    generation: DtsVsGeneration,
    expected: Map<u8, usize>,
    noise: Seq<u8>,
    x: Seq<u8>,
)
    requires
        forall|i: int| 0 <= i < noise.len() ==> #[trigger] noise[i] >= 100,
        x.len() >= 1,
    ensures
        scan(generation, expected, noise + x) == scan(generation, expected, x),
    decreases noise.len(),
{
    if noise.len() > 0 {
        let nx = noise + x;
        assert(nx[0] == noise[0]);
        assert(scan_step(generation, expected, nx) is Skip);
        assert(nx.drop_first() =~= noise.drop_first() + x);
        lemma_resync_after_noise(generation, expected, noise.drop_first(), x);
    } else {
        assert(noise + x =~= x);
    }
}

/// The sensor report layout that a configuration value names, read after
/// trimming surrounding whitespace.
pub open spec fn generation_for_setting(trimmed: Seq<char>) -> Option<DtsVsGeneration> {
    if trimmed == "1"@ || trimmed == "gen1"@ || trimmed == "GEN1"@ {
        Some(DtsVsGeneration::Gen1)
    } else if trimmed == "2"@ || trimmed == "gen2"@ || trimmed == "GEN2"@ {
        Some(DtsVsGeneration::Gen2)
    } else {
        None
    }
}

impl DtsVsGeneration {
    /// Reads a configuration value: `1`, `gen1` or `GEN1` for the first
    /// generation, `2`, `gen2` or `GEN2` for the second.
    pub fn from_env_value(raw: &str) -> (r: Option<Self>)
        ensures
            r == generation_for_setting(trim_spec(raw@)),
    {
        let value = str_trim(raw);
        if str_eq(value, "1") || str_eq(value, "gen1") || str_eq(value, "GEN1") {
            Some(DtsVsGeneration::Gen1)
        } else if str_eq(value, "2") || str_eq(value, "gen2") || str_eq(value, "GEN2") {
            Some(DtsVsGeneration::Gen2)
        } else {
            None
        }
    }
}

// ---------------------------------------------------------------------------
// Leading-zero threshold of a share target.
// ---------------------------------------------------------------------------

#[verifier::external_type_specification]
#[verifier::external_body]
pub struct ExTarget(Target);

/// The 32 big-endian bytes of a target's 256-bit value, as
/// `bitcoin::pow::Target::to_be_bytes` returns them.
pub uninterp spec fn target_be_bytes(target: Target) -> Seq<u8>;

/// Calls `bitcoin::pow::Target::to_be_bytes`, which returns the target's
/// 256-bit value as 32 big-endian bytes, a function of that value alone.
#[verifier::external_body]
fn target_to_be_bytes(target: Target) -> (r: [u8; 32])
    ensures
        r@ == target_be_bytes(target),
{
    target.to_be_bytes()
}

/// Leading zero bits of a non-zero byte.
pub open spec fn byte_leading_zeros(b: u8) -> nat {
    if b >= 128 {
        0
    } else if b >= 64 {
        1
    } else if b >= 32 {
        2
    } else if b >= 16 {
        3
    } else if b >= 8 {
        4
    } else if b >= 4 {
        5
    } else if b >= 2 {
        6
    } else {
        7
    }
}

/// Leading zero bits of the big-endian number that `bytes` spell.
pub open spec fn leading_zero_bits(bytes: Seq<u8>) -> nat
    decreases bytes.len(),
{
    if bytes.len() == 0 {
        0
    } else if bytes[0] == 0 {
        8 + leading_zero_bits(bytes.drop_first())
    } else {
        byte_leading_zeros(bytes[0])
    }
}

/// The number of leading zero bits that engines are told to look for:
/// the target's leading zero bits, kept between 32 and 64.
pub open spec fn zero_threshold_spec(bytes: Seq<u8>) -> u8 {
    let z = leading_zero_bits(bytes);
    if z < 32 {
        32u8
    } else if z > 64 {
        64u8
    } else {
        z as u8
    }
}

fn exec_byte_leading_zeros(b: u8) -> (r: u16)
    ensures
        r == byte_leading_zeros(b),
{
    if b >= 128 {
        0
    } else if b >= 64 {
        1
    } else if b >= 32 {
        2
    } else if b >= 16 {
        3
    } else if b >= 8 {
        4
    } else if b >= 4 {
        5
    } else if b >= 2 {
        6
    } else {
        7
    }
}

/// Leading-zero threshold of a target, read from its big-endian bytes.
pub fn leading_zero_threshold(target: Target) -> (r: u8)
    ensures
        r == zero_threshold_spec(target_be_bytes(target)),
        32 <= r <= 64,
{
    let bytes = target_to_be_bytes(target);
    leading_zero_threshold_from_be_bytes(&bytes)
}

/// Leading-zero threshold of a target given by its 32 big-endian bytes.
pub fn leading_zero_threshold_from_be_bytes(bytes: &[u8; 32]) -> (r: u8)
    ensures
        r == zero_threshold_spec(bytes@),
        32 <= r <= 64,
{
    let mut zeros: u16 = 0;
    let mut i: usize = 0;
    assert(bytes@.skip(0) =~= bytes@);
    while i < 32 && bytes[i] == 0
        invariant
            0 <= i <= 32,
            bytes@.len() == 32,
            zeros == 8 * i,
            leading_zero_bits(bytes@) == zeros + leading_zero_bits(bytes@.skip(i as int)),
        decreases 32 - i,
    {
        assert(bytes@.skip(i as int).drop_first() =~= bytes@.skip(i + 1));
        zeros = zeros + 8;
        i = i + 1;
    }
    if i < 32 {
        let b = bytes[i];
        let n = exec_byte_leading_zeros(b);
        assert(bytes@.skip(i as int)[0] == b);
        zeros = zeros + n;
    } else {
        assert(bytes@.skip(32) =~= Seq::<u8>::empty());
    }
    if zeros < 32 {
        32
    } else if zeros > 64 {
        64
    } else {
        zeros as u8
    }
}


/// The shape every decoded frame has: an ASIC id below 100; a result with
/// a 12-bit engine address and a 4-bit status; a READREG answer carrying
/// the length announced for its ASIC; a three-byte NOOP answer.
pub open spec fn frame_shape(expected: Map<u8, usize>, frame: TdmFrameView) -> bool {
    match frame {
        TdmFrameView::Result(r) => r.asic < 100 && r.engine_address <= 0x0fff && r.status <= 0x0f,
        TdmFrameView::Register(asic, data) => asic < 100 && expected.contains_key(asic) && data.len()
            == expected[asic],
        TdmFrameView::DtsVs(d) => match d {
            TdmDtsVsFrame::Gen1(g) => g.asic < 100,
            TdmDtsVsFrame::Gen2(g) => g.asic < 100,
        },
        TdmFrameView::Noop(asic, data) => asic < 100 && data.len() == 3,
    }
}

proof fn lemma_result_frame_fields(asic: u8, p: Seq<u8>)
    requires
        p.len() == 8,
    ensures
        result_frame_spec(asic, p).engine_address <= 0x0fff,
        result_frame_spec(asic, p).status <= 0x0f,
{
    let header = (((p[0] as u16) << 8u16) | (p[1] as u16)) as u16;
    assert(header & 0x0fffu16 <= 0x0fffu16) by (bit_vector);
    assert((header >> 12u16) as u8 <= 0x0fu8) by (bit_vector);
}

/// Every frame that a scan of the stream decodes has the shape of
/// [`frame_shape`], with READREG lengths taken from the lengths announced
/// when the scan starts. Since `push` returns exactly these frames, this
/// holds of every frame `push` returns.
pub proof fn lemma_scan_frame_shapes(generation: DtsVsGeneration, expected: Map<u8, usize>, buf: Seq<u8>)
    requires
        expected_lengths_fit(expected),
    ensures
        forall|i: int|
            0 <= i < scan(generation, expected, buf).frames.len() ==> frame_shape(
                expected,
                #[trigger] scan(generation, expected, buf).frames[i],
            ),
    decreases buf.len(),
{
    lemma_step_emits_within(generation, expected, buf);
    match scan_step(generation, expected, buf) {
        ScanStep::Stop => {},
        ScanStep::Skip => {
            lemma_scan_frame_shapes(generation, expected, buf.drop_first());
            assert(scan(generation, expected, buf) == scan(generation, expected, buf.drop_first()));
        },
        ScanStep::Emit(frame, n) => {
            let e2 = expected_after(expected, frame);
            assert(expected_lengths_fit(e2));
            lemma_scan_frame_shapes(generation, e2, buf.skip(n as int));
            if buf[1] == OPCODE_UART_READRESULT {
                lemma_result_frame_fields(buf[0], buf.subrange(2, 10));
            }
            assert(frame_shape(expected, frame));
            let tail = scan(generation, e2, buf.skip(n as int));
            let all = scan(generation, expected, buf);
            assert(all.frames == seq![frame] + tail.frames);
            assert forall|i: int| 0 <= i < all.frames.len() implies frame_shape(
                expected,
                #[trigger] all.frames[i],
            ) by {
                if i > 0 {
                    assert(all.frames[i] == tail.frames[i - 1]);
                    assert(frame_shape(e2, tail.frames[i - 1]));
                }
            }
        },
    }
}


proof fn lemma_result_word_fields(p0: u8, p1: u8, p2: u8, p3: u8, p4: u8, p5: u8)
    ensures
        ((((p0 as u16) << 8u16) | (p1 as u16)) as u16 & 0x0fffu16) as int == (p0 as int % 16) * 256
            + p1 as int,
        ((((((p0 as u16) << 8u16) | (p1 as u16)) as u16) >> 12u16) as u8) as int == p0 as int / 16,
        (((p2 as u32) | ((p3 as u32) << 8u32) | ((p4 as u32) << 16u32) | ((p5 as u32) << 24u32))
            as u32) as int == p2 as int + 256 * (p3 as int) + 65536 * (p4 as int) + 16777216 * (
        p5 as int),
{
    assert(((((p0 as u16) << 8u16) | (p1 as u16)) as u16 & 0x0fffu16) == ((p0 % 16) as u16) * 256
        + p1 as u16) by (bit_vector);
    assert(((((((p0 as u16) << 8u16) | (p1 as u16)) as u16) >> 12u16) as u8) == p0 / 16)
        by (bit_vector);
    assert((((p2 as u32) | ((p3 as u32) << 8u32) | ((p4 as u32) << 16u32) | ((p5 as u32) << 24u32))
        as u32) == (p2 as u32) + 256 * (p3 as u32) + 65536 * (p4 as u32) + 16777216 * (p5 as u32))
        by (bit_vector);
}

/// A complete READRESULT frame at the head of the stream, from any ASIC id
/// below 100, is decoded as the first frame, whatever follows it: the
/// engine address is the low 12 bits of the big-endian first payload word,
/// the status its top 4 bits, the nonce the next four bytes little-endian,
/// then the sequence id and the reported time.
pub proof fn lemma_result_frame_decoded(
    generation: DtsVsGeneration,
    expected: Map<u8, usize>,
    asic: u8,
    payload: Seq<u8>,
    rest: Seq<u8>,
)
    requires
        asic < 100,
        payload.len() == 8,
    ensures
        ({
            let s = scan(generation, expected, seq![asic, 0x01u8] + payload + rest);
            &&& s.frames.len() >= 1
            &&& s.frames[0] matches TdmFrameView::Result(r)
            &&& r.asic == asic
            &&& r.engine_address as int == (payload[0] as int % 16) * 256 + payload[1] as int
            &&& r.status as int == payload[0] as int / 16
            &&& r.nonce as int == payload[2] as int + 256 * (payload[3] as int) + 65536 * (
            payload[4] as int) + 16777216 * (payload[5] as int)
            &&& r.sequence_id == payload[6]
            &&& r.reported_time == payload[7]
        }),
{
    let buf = seq![asic, 0x01u8] + payload + rest;
    assert(buf[0] == asic && buf[1] == 0x01u8);
    assert(buf.subrange(2, 10) =~= payload);
    lemma_result_word_fields(payload[0], payload[1], payload[2], payload[3], payload[4], payload[5]);
    let frame = TdmFrameView::Result(result_frame_spec(asic, buf.subrange(2, 10)));
    assert(scan_step(generation, expected, buf) == ScanStep::Emit(frame, 10));
    let tail = scan(generation, expected_after(expected, frame), buf.skip(10));
    assert(scan(generation, expected, buf).frames == seq![frame] + tail.frames);
    assert((seq![frame] + tail.frames)[0] == frame);
}

/// A complete NOOP answer at the head of the stream, from any ASIC id
/// below 100, is decoded as the first frame and carries the three bytes
/// after the header.
pub proof fn lemma_noop_frame_decoded(
    generation: DtsVsGeneration,
    expected: Map<u8, usize>,
    asic: u8,
    data: Seq<u8>,
    rest: Seq<u8>,
)
    requires
        asic < 100,
        data.len() == 3,
    ensures
        ({
            let s = scan(generation, expected, seq![asic, 0x0fu8] + data + rest);
            &&& s.frames.len() >= 1
            &&& s.frames[0] == TdmFrameView::Noop(asic, data)
        }),
{
    let buf = seq![asic, 0x0fu8] + data + rest;
    assert(buf[0] == asic && buf[1] == 0x0fu8);
    assert(buf.subrange(2, 5) =~= data);
    let frame = TdmFrameView::Noop(asic, data);
    assert(scan_step(generation, expected, buf) == ScanStep::Emit(frame, 5));
    let tail = scan(generation, expected_after(expected, frame), buf.skip(5));
    assert(scan(generation, expected, buf).frames == seq![frame] + tail.frames);
    assert((seq![frame] + tail.frames)[0] == frame);
}


/// A READREG answer at the head of the stream, from an ASIC id below 100
/// whose answer length `data.len()` was announced, is decoded as the first
/// frame and carries exactly the announced bytes after the header.
pub proof fn lemma_register_frame_decoded(
    generation: DtsVsGeneration,
    expected: Map<u8, usize>,
    asic: u8,
    data: Seq<u8>,
    rest: Seq<u8>,
)
    requires
        asic < 100,
        expected.contains_key(asic),
        expected[asic] == data.len(),
    ensures
        ({
            let s = scan(generation, expected, seq![asic, 0x03u8] + data + rest);
            &&& s.frames.len() >= 1
            &&& s.frames[0] == TdmFrameView::Register(asic, data)
        }),
{
    let buf = seq![asic, 0x03u8] + data + rest;
    assert(buf[0] == asic && buf[1] == 0x03u8);
    assert(buf.subrange(2, 2 + data.len() as int) =~= data);
    let frame = TdmFrameView::Register(asic, data);
    assert(scan_step(generation, expected, buf) == ScanStep::Emit(frame, (2 + data.len()) as nat));
    let tail = scan(generation, expected_after(expected, frame), buf.skip(2 + data.len() as int));
    assert(scan(generation, expected, buf).frames == seq![frame] + tail.frames);
    assert((seq![frame] + tail.frames)[0] == frame);
}

} // verus!
