//! BZM2 UART control: request building, response checking and the
//! decisions of the chain, TDM and sensor procedures. The byte transport
//! itself is supplied by the caller.

use vstd::prelude::*;

use crate::protocol::{
    address_of, encode_write_register, physical_coordinates_spec, physical_engine_coordinates,
    register_write_frame, TdmDtsVsFrame, TdmFrame, TdmFrameView, frames_view, BROADCAST_ASIC,
    OPCODE_UART_NOOP, OPCODE_UART_WRITEREG,
};

verus! {

pub const NOTCH_REG: u16 = 0x0fff;
pub const BROADCAST_GROUP_ASIC: u8 = BROADCAST_ASIC;
pub const DEFAULT_DTS_VS_QUERY_TIMEOUT_MS: u64 = 2000;
pub const DEFAULT_ASIC_ID: u8 = 0xfa;
pub const DEFAULT_NOOP_PROBE_TIMEOUT_MS: u64 = 100;

pub const LOCAL_REG_ASIC_ID: u8 = 0x0b;
pub const LOCAL_REG_UART_TDM_CTL: u8 = 0x07;
pub const LOCAL_REG_SLOW_CLK_DIV: u8 = 0x08;
pub const LOCAL_REG_UART_TX: u8 = 0x0a;
pub const LOCAL_REG_SENS_TDM_GAP_CNT: u8 = 0x2d;
pub const LOCAL_REG_DTS_SRST_PD: u8 = 0x2e;
pub const LOCAL_REG_DTS_CFG: u8 = 0x2f;
pub const LOCAL_REG_TEMPSENSOR_TUNE_CODE: u8 = 0x30;
pub const LOCAL_REG_SENSOR_THRS_CNT: u8 = 0x3c;
pub const LOCAL_REG_SENSOR_CLK_DIV: u8 = 0x3d;
pub const LOCAL_REG_VSENSOR_SRST_PD: u8 = 0x3e;
pub const LOCAL_REG_VSENSOR_CFG: u8 = 0x3f;
pub const LOCAL_REG_VOLTAGE_SENSOR_ENABLE: u8 = 0x40;
pub const LOCAL_REG_BANDGAP: u8 = 0x45;

pub const THERMAL_SENSOR_RESOLUTION: u8 = 12;
pub const THERMAL_SENSOR_MODE: u8 = 0;
pub const VOLTAGE_SENSOR_RESOLUTION: u8 = 14;
pub const VOLTAGE_SENSOR_CONVERSION_MODE: u8 = 1;
pub const VOLTAGE_SENSOR_MODE: u8 = 0;
pub const DISCOVERED_ENGINE_END_NONCE: u32 = 0xffff_fffe;

/// Settings of the on-die temperature and voltage sensors.
#[derive(Debug, Clone, Copy, PartialEq, Eq, Structural)]
pub struct Bzm2DtsVsConfig {
    pub tdm_interval: u8,
    pub thermal_trip_c: i32,
    pub voltage_ch0_shutdown_mv: u32,
    pub voltage_ch1_shutdown_mv: u32,
}

impl Default for Bzm2DtsVsConfig {
    fn default() -> (r: Self)
        ensures
            r == (Bzm2DtsVsConfig {
                tdm_interval: 1,
                thermal_trip_c: 115,
                voltage_ch0_shutdown_mv: 500,
                voltage_ch1_shutdown_mv: 500,
            }),
    {
        Bzm2DtsVsConfig {
            tdm_interval: 1,
            thermal_trip_c: 115,
            voltage_ch0_shutdown_mv: 500,
            voltage_ch1_shutdown_mv: 500,
        }
    }
}

#[verifier::external_type_specification]
#[verifier::external_body]
pub struct ExIoError(std::io::Error);

/// Failures of UART requests.
#[derive(Debug)]
pub enum Bzm2UartError {
    Io(std::io::Error),
    ShortResponse { expected: usize, actual: usize },
    UnexpectedHeader { expected_asic: u8, expected_opcode: u8, actual_asic: u8, actual_opcode: u8 },
    UnexpectedNoopPayload { asic: u8, data: [u8; 3] },
    NoopTimeout { asic: u8, timeout_ms: u64 },
    DtsVsTimeout { asic: u8 },
    TdmRegisterTimeout { asic: u8, engine_address: u16, offset: u8 },
}

/// What a response header check decides.
pub open spec fn header_check_spec(expected_asic: u8, expected_opcode: u8, response: Seq<u8>) -> Result<(), Bzm2UartError> {
    if response.len() < 2 {
        Err(Bzm2UartError::ShortResponse { expected: 2, actual: response.len() as usize })
    } else if response[0] != expected_asic || response[1] != expected_opcode {
        Err(
            Bzm2UartError::UnexpectedHeader {
                expected_asic,
                expected_opcode,
                actual_asic: response[0],
                actual_opcode: response[1],
            },
        )
    } else {
        Ok(())
    }
}

/// Checks that a direct response starts with the ASIC id and opcode of the
/// request it answers.
pub fn validate_response_header(expected_asic: u8, expected_opcode: u8, response: &[u8]) -> (r:
    Result<(), Bzm2UartError>)
    ensures
        r == header_check_spec(expected_asic, expected_opcode, response@),
{
    if response.len() < 2 {
        return Err(Bzm2UartError::ShortResponse { expected: 2, actual: response.len() });
    }
    let actual_asic = response[0];
    let actual_opcode = response[1];
    if actual_asic != expected_asic || actual_opcode != expected_opcode {
        return Err(
            Bzm2UartError::UnexpectedHeader {
                expected_asic,
                expected_opcode,
                actual_asic,
                actual_opcode,
            },
        );
    }
    Ok(())
}

/// The payload of a direct response (READREG, LOOPBACK): the bytes after
/// the checked two-byte header.
pub fn response_payload(expected_asic: u8, expected_opcode: u8, response: &[u8]) -> (r: Result<
    Vec<u8>,
    Bzm2UartError,
>)
    ensures
        match header_check_spec(expected_asic, expected_opcode, response@) {
            Ok(()) => r matches Ok(p) && p@ == response@.skip(2),
            Err(e) => r == Err::<Vec<u8>, Bzm2UartError>(e),
        },
{
    match validate_response_header(expected_asic, expected_opcode, response) {
        Err(e) => Err(e),
        Ok(()) => {
            let mut payload: Vec<u8> = Vec::new();
            let mut i: usize = 2;
            while i < response.len()
                invariant
                    2 <= i <= response@.len(),
                    payload@ == response@.subrange(2, i as int),
                decreases response@.len() - i,
            {
                payload.push(response[i]);
                i = i + 1;
                assert(payload@ =~= response@.subrange(2, i as int));
            }
            assert(payload@ =~= response@.skip(2));
            Ok(payload)
        },
    }
}

/// The three payload bytes of a NOOP response.
pub fn noop_response_payload(asic: u8, response: &[u8; 5]) -> (r: Result<[u8; 3], Bzm2UartError>)
    ensures
        match header_check_spec(asic, OPCODE_UART_NOOP, response@) {
            Ok(()) => r matches Ok(d) && d@ == response@.subrange(2, 5),
            Err(e) => r == Err::<[u8; 3], Bzm2UartError>(e),
        },
{
    match validate_response_header(asic, OPCODE_UART_NOOP, response.as_slice()) {
        Err(e) => Err(e),
        Ok(()) => {
            let d: [u8; 3] = [response[2], response[3], response[4]];
            assert(d@ =~= response@.subrange(2, 5));
            Ok(d)
        },
    }
}

/// The NOOP payload that identifies a BZM2 ASIC.
pub open spec fn bz2_tag() -> Seq<u8> {
    seq![0x42u8, 0x5au8, 0x32u8]
}

/// Checks that a NOOP payload reads `BZ2`.
pub fn check_noop_payload(asic: u8, data: [u8; 3]) -> (r: Result<(), Bzm2UartError>)
    ensures
        data@ == bz2_tag() ==> r is Ok,
        data@ != bz2_tag() ==> r == Err::<(), Bzm2UartError>(
            Bzm2UartError::UnexpectedNoopPayload { asic, data },
        ),
{
    if data[0] == 0x42 && data[1] == 0x5a && data[2] == 0x32 {
        assert(data@ =~= bz2_tag());
        Ok(())
    } else {
        Err(Bzm2UartError::UnexpectedNoopPayload { asic, data })
    }
}

/// Little-endian value of four register bytes.
pub open spec fn le_u32_spec(b: Seq<u8>) -> u32 {
    ((b[0] as u32) | ((b[1] as u32) << 8u32) | ((b[2] as u32) << 16u32) | ((b[3] as u32) << 24u32))
        as u32
}

/// The 32-bit value of a four-byte register read.
pub fn register_value_u32(data: &[u8]) -> (r: u32)
    requires
        data@.len() == 4,
    ensures
        r == le_u32_spec(data@),
{
    (data[0] as u32) | ((data[1] as u32) << 8u32) | ((data[2] as u32) << 16u32) | ((data[3] as u32)
        << 24u32)
}

/// Little-endian bytes of a 32-bit register value.
pub open spec fn le_bytes_u32(x: u32) -> Seq<u8> {
    seq![x as u8, (x >> 8u32) as u8, (x >> 16u32) as u8, (x >> 24u32) as u8]
}

/// WRITEREG request for a 32-bit value at an offset of an ASIC's local
/// register block.
pub fn encode_write_local_reg_u32(asic: u8, offset: u8, value: u32) -> (bytes: Vec<u8>)
    ensures
        bytes@ == register_write_frame(asic, OPCODE_UART_WRITEREG, NOTCH_REG, offset, le_bytes_u32(value)),
{
    let le: [u8; 4] = [value as u8, (value >> 8u32) as u8, (value >> 16u32) as u8, (value >> 24u32) as u8];
    assert(le@ =~= le_bytes_u32(value));
    encode_write_register(asic, NOTCH_REG, offset, le.as_slice())
}

/// WRITEREG request for an 8-bit value at an offset of an ASIC's local
/// register block.
pub fn encode_write_local_reg_u8(asic: u8, offset: u8, value: u8) -> (bytes: Vec<u8>)
    ensures
        bytes@ == register_write_frame(asic, OPCODE_UART_WRITEREG, NOTCH_REG, offset, seq![value]),
{
    let one: [u8; 1] = [value];
    assert(one@ =~= seq![value]);
    encode_write_register(asic, NOTCH_REG, offset, one.as_slice())
}

/// WRITEREG request that gives the next ASIC still on the default id the
/// id `new_id`.
pub fn encode_assign_default_asic_id(new_id: u8) -> (bytes: Vec<u8>)
    ensures
        bytes@ == register_write_frame(
            DEFAULT_ASIC_ID,
            OPCODE_UART_WRITEREG,
            NOTCH_REG,
            LOCAL_REG_ASIC_ID,
            le_bytes_u32(new_id as u32),
        ),
{
    encode_write_local_reg_u32(DEFAULT_ASIC_ID, LOCAL_REG_ASIC_ID, new_id as u32)
}

/// Value of the UART TDM control register.
pub open spec fn tdm_control_spec(prediv_raw: u32, counter: u8, enable: bool) -> u32 {
    ((prediv_raw << 9u32) | ((counter as u32) << 1u32) | (if enable { 1u32 } else { 0u32 })) as u32
}

pub fn encode_tdm_control(prediv_raw: u32, counter: u8, enable: bool) -> (r: u32)
    ensures
        r == tdm_control_spec(prediv_raw, counter, enable),
{
    let e: u32 = if enable { 1 } else { 0 };
    (prediv_raw << 9u32) | ((counter as u32) << 1u32) | e
}

/// The broadcast write that switches TDM reporting on or off on every ASIC
/// of a bus.
pub fn encode_set_tdm_enabled(prediv_raw: u32, counter: u8, enable: bool) -> (bytes: Vec<u8>)
    ensures
        bytes@ == register_write_frame(
            BROADCAST_ASIC,
            OPCODE_UART_WRITEREG,
            NOTCH_REG,
            LOCAL_REG_UART_TDM_CTL,
            le_bytes_u32(tdm_control_spec(prediv_raw, counter, enable)),
        ),
{
    encode_write_local_reg_u32(BROADCAST_ASIC, LOCAL_REG_UART_TDM_CTL, encode_tdm_control(prediv_raw, counter, enable))
}

// ---------------------------------------------------------------------------
// Chain enumeration.
// ---------------------------------------------------------------------------

/// Progress of the walk that gives ids to the ASICs of a fresh chain, one
/// by one, while an ASIC still answers on the default id.
pub struct Bzm2ChainEnumeration {
    max_asics: u8,
    start_id: u8,
    assigned: Vec<u8>,
}

/// The id given to the ASIC found at step `offset` of the walk.
pub open spec fn enumeration_id(start_id: u8, offset: int) -> u8 {
    if start_id + offset > 255 {
        255u8
    } else {
        (start_id + offset) as u8
    }
}

impl Bzm2ChainEnumeration {
    pub closed spec fn max_asics(&self) -> u8 {
        self.max_asics
    }

    pub closed spec fn start_id(&self) -> u8 {
        self.start_id
    }

    /// The ids given so far, in order.
    pub closed spec fn assigned_ids(&self) -> Seq<u8> {
        self.assigned@
    }

    pub open spec fn wf(&self) -> bool {
        &&& self.assigned_ids().len() <= self.max_asics()
        &&& forall|i: int|
            0 <= i < self.assigned_ids().len() ==> #[trigger] self.assigned_ids()[i] == enumeration_id(
                self.start_id(),
                i,
            )
    }

    pub fn new(max_asics: u8, start_id: u8) -> (r: Self)
        ensures
            r.wf(),
            r.max_asics() == max_asics,
            r.start_id() == start_id,
            r.assigned_ids() == Seq::<u8>::empty(),
    {
        Bzm2ChainEnumeration { max_asics, start_id, assigned: Vec::new() }
    }

    /// The id for the next ASIC that answers on the default id, or `None`
    /// once `max_asics` ids have been given.
    pub fn next_id(&self) -> (r: Option<u8>)
        requires
            self.wf(),
        ensures
            self.assigned_ids().len() < self.max_asics() ==> r == Some(
                enumeration_id(self.start_id(), self.assigned_ids().len() as int),
            ),
            self.assigned_ids().len() >= self.max_asics() ==> r is None,
            self.assigned_ids().len() < self.max_asics() ==> (r matches Some(id) && id as int == if self.start_id()
                + self.assigned_ids().len() <= 255 {
                self.start_id() + self.assigned_ids().len()
            } else {
                255
            }),
    {
        let n = self.assigned.len();
        if n < self.max_asics as usize {
            Some(self.start_id.saturating_add(n as u8))
        } else {
            None
        }
    }

    /// Records that the ASIC found at this step took the id `next_id` gave.
    pub fn record_assigned(&mut self)
        requires
            old(self).wf(),
            old(self).assigned_ids().len() < old(self).max_asics(),
        ensures
            final(self).wf(),
            final(self).max_asics() == old(self).max_asics(),
            final(self).start_id() == old(self).start_id(),
            final(self).assigned_ids() == old(self).assigned_ids().push(
                enumeration_id(old(self).start_id(), old(self).assigned_ids().len() as int),
            ),
    {
        let n = self.assigned.len();
        let id = self.start_id.saturating_add(n as u8);
        self.assigned.push(id);
    }

    /// The walk gives consecutive ids from the start id, saturating at 255:
    /// the ASIC found at step `k` gets `start_id + k`, or 255 once that
    /// passes 255, so each id is one more than the one before until 255.
    pub proof fn lemma_ids_consecutive(&self)
        requires
            self.wf(),
        ensures
            forall|k: int|
                0 <= k < self.assigned_ids().len() ==> #[trigger] self.assigned_ids()[k] as int == if self.start_id()
                    + k <= 255 {
                    self.start_id() + k
                } else {
                    255
                },
            forall|k: int|
                1 <= k < self.assigned_ids().len() ==> #[trigger] self.assigned_ids()[k] as int == if self.assigned_ids()[k
                    - 1] < 255 {
                    self.assigned_ids()[k - 1] + 1
                } else {
                    255
                },
            self.assigned_ids().len() > 0 ==> self.assigned_ids()[0] == self.start_id(),
    {
        assert forall|k: int| 1 <= k < self.assigned_ids().len() implies #[trigger] self.assigned_ids()[k] as int
            == if self.assigned_ids()[k - 1] < 255 {
            self.assigned_ids()[k - 1] + 1
        } else {
            255
        } by {
            assert(self.assigned_ids()[k - 1] == enumeration_id(self.start_id(), k - 1));
        }
    }

    /// The ids given, in order.
    pub fn into_assigned(self) -> (r: Vec<u8>)
        ensures
            r@ == self.assigned_ids(),
    {
        self.assigned
    }
}

// ---------------------------------------------------------------------------
// Engine discovery.
// ---------------------------------------------------------------------------

/// One engine position of an ASIC.
#[derive(Debug, Clone, Copy, PartialEq, Eq, PartialOrd, Ord, Structural)]
pub struct Bzm2EngineCoordinate {
    pub row: u8,
    pub col: u8,
    pub engine_address: u16,
}

impl Bzm2EngineCoordinate {
    pub fn new(row: u8, col: u8) -> (r: Self)
        ensures
            r.row == row,
            r.col == col,
            r.engine_address == address_of((row, col)),
    {
        Bzm2EngineCoordinate {
            row,
            col,
            engine_address: crate::protocol::logical_engine_address(row, col),
        }
    }
}

pub open spec fn coordinate_spec(c: (u8, u8)) -> Bzm2EngineCoordinate {
    Bzm2EngineCoordinate { row: c.0, col: c.1, engine_address: address_of(c) }
}

/// The engines of an ASIC that a discovery scan found and did not find.
#[derive(Debug, Clone, PartialEq, Eq)]
pub struct Bzm2DiscoveredEngineMap {
    pub asic: u8,
    pub present: Vec<Bzm2EngineCoordinate>,
    pub missing: Vec<Bzm2EngineCoordinate>,
}

impl Bzm2DiscoveredEngineMap {
    pub fn present_count(&self) -> (r: usize)
        ensures
            r == self.present@.len(),
    {
        self.present.len()
    }

    pub fn missing_count(&self) -> (r: usize)
        ensures
            r == self.missing@.len(),
    {
        self.missing.len()
    }
}

/// The engines among the first `k` grid positions whose probe answered
/// `answer`, in walk order.
pub open spec fn probed_engines(probes: Seq<bool>, answer: bool, k: nat) -> Seq<Bzm2EngineCoordinate>
    decreases k,
{
    if k == 0 {
        Seq::empty()
    } else {
        let prev = probed_engines(probes, answer, (k - 1) as nat);
        if probes[k - 1] == answer {
            prev.push(coordinate_spec(physical_coordinates_spec()[k - 1]))
        } else {
            prev
        }
    }
}

proof fn lemma_probed_split(probes: Seq<bool>, k: nat)
    ensures
        probed_engines(probes, true, k).len() + probed_engines(probes, false, k).len() == k,
    decreases k,
{
    if k > 0 {
        lemma_probed_split(probes, (k - 1) as nat);
    }
}

/// Whether the END_NONCE register of an engine holds the marker that a
/// present engine reports during discovery.
pub fn engine_answers_present(data: &[u8]) -> (r: bool)
    requires
        data@.len() == 4,
    ensures
        r == (le_u32_spec(data@) == DISCOVERED_ENGINE_END_NONCE),
{
    register_value_u32(data) == DISCOVERED_ENGINE_END_NONCE
}

/// Sorts the grid positions into present and missing engines, given the
/// probe answer for each position of the column-major walk.
pub fn engine_map_from_probes(asic: u8, probes: &[bool]) -> (r: Bzm2DiscoveredEngineMap)
    requires
        probes@.len() == 240,
    ensures
        r.asic == asic,
        r.present@ == probed_engines(probes@, true, 240),
        r.missing@ == probed_engines(probes@, false, 240),
        r.present@.len() + r.missing@.len() == 240,
{
    let coords = physical_engine_coordinates();
    let mut present: Vec<Bzm2EngineCoordinate> = Vec::new();
    let mut missing: Vec<Bzm2EngineCoordinate> = Vec::new();
    let mut k: usize = 0;
    while k < 240
        invariant
            k <= 240,
            probes@.len() == 240,
            coords@ == physical_coordinates_spec(),
            present@ == probed_engines(probes@, true, k as nat),
            missing@ == probed_engines(probes@, false, k as nat),
        decreases 240 - k,
    {
        let (row, col) = coords[k];
        let coordinate = Bzm2EngineCoordinate::new(row, col);
        if probes[k] {
            present.push(coordinate);
        } else {
            missing.push(coordinate);
        }
        k = k + 1;
    }
    proof {
        lemma_probed_split(probes@, 240);
    }
    Bzm2DiscoveredEngineMap { asic, present, missing }
}

// ---------------------------------------------------------------------------
// Picking answers out of the TDM stream.
// ---------------------------------------------------------------------------

/// The result of an engine-discovery scan, which enables TDM, probes the
/// grid and disables TDM again whatever the probes gave: an error of the
/// probes wins over an error of the disabling write; with neither, the map
/// that the probe answers (one per grid position) spell.
pub fn discovery_result(
    asic: u8,
    probes: &[bool],
    probe_error: Option<Bzm2UartError>,
    disable_error: Option<Bzm2UartError>,
) -> (r: Result<Bzm2DiscoveredEngineMap, Bzm2UartError>)
    requires
        probe_error is None ==> probes@.len() == 240,
    ensures
        probe_error is Some ==> r == Err::<Bzm2DiscoveredEngineMap, Bzm2UartError>(probe_error->0),
        probe_error is None && disable_error is Some ==> r == Err::<
            Bzm2DiscoveredEngineMap,
            Bzm2UartError,
        >(disable_error->0),
        probe_error is None && disable_error is None ==> (r matches Ok(m) && m.asic == asic
            && m.present@ == probed_engines(probes@, true, 240) && m.missing@ == probed_engines(
            probes@,
            false,
            240,
        )),
{
    match probe_error {
        Some(e) => Err(e),
        None => match disable_error {
            Some(e) => Err(e),
            None => Ok(engine_map_from_probes(asic, probes)),
        },
    }
}


/// Position of the first READREG answer from `asic` among `frames`.
pub open spec fn first_register_frame(frames: Seq<TdmFrameView>, asic: u8) -> Option<Seq<u8>>
    decreases frames.len(),
{
    if frames.len() == 0 {
        None
    } else {
        match frames[0] {
            TdmFrameView::Register(a, data) => if a == asic {
                Some(data)
            } else {
                first_register_frame(frames.drop_first(), asic)
            },
            _ => first_register_frame(frames.drop_first(), asic),
        }
    }
}

/// The data of the first READREG answer from `asic` among `frames`.
pub fn find_register_frame(frames: &Vec<TdmFrame>, asic: u8) -> (r: Option<Vec<u8>>)
    ensures
        match first_register_frame(frames_view(frames@), asic) {
            Some(d) => r matches Some(v) && v@ == d,
            None => r is None,
        },
{
    let mut i: usize = 0;
    assert(frames_view(frames@).skip(0) =~= frames_view(frames@));
    while i < frames.len()
        invariant
            i <= frames@.len(),
            first_register_frame(frames_view(frames@), asic) == first_register_frame(
                frames_view(frames@).skip(i as int),
                asic,
            ),
        decreases frames@.len() - i,
    {
        let ghost fv = frames_view(frames@);
        assert(fv.skip(i as int).drop_first() =~= fv.skip(i + 1));
        assert(fv.skip(i as int)[0] == frames@[i as int]@);
        if let TdmFrame::Register(frame) = &frames[i] {
            if frame.asic == asic {
                let data = frame.data.clone();
                assert(data@ =~= frame.data@);
                return Some(data);
            }
        }
        i = i + 1;
    }
    assert(frames_view(frames@).skip(i as int) =~= Seq::<TdmFrameView>::empty());
    None
}

pub open spec fn dts_vs_asic(frame: TdmDtsVsFrame) -> u8 {
    match frame {
        TdmDtsVsFrame::Gen1(f) => f.asic,
        TdmDtsVsFrame::Gen2(f) => f.asic,
    }
}

/// The first sensor report from `asic` among `frames`.
pub open spec fn first_dts_vs_frame(frames: Seq<TdmFrameView>, asic: u8) -> Option<TdmDtsVsFrame>
    decreases frames.len(),
{
    if frames.len() == 0 {
        None
    } else {
        match frames[0] {
            TdmFrameView::DtsVs(f) => if dts_vs_asic(f) == asic {
                Some(f)
            } else {
                first_dts_vs_frame(frames.drop_first(), asic)
            },
            _ => first_dts_vs_frame(frames.drop_first(), asic),
        }
    }
}

/// The first sensor report from `asic` among `frames`.
pub fn find_dts_vs_frame(frames: &Vec<TdmFrame>, asic: u8) -> (r: Option<TdmDtsVsFrame>)
    ensures
        r == first_dts_vs_frame(frames_view(frames@), asic),
{
    let mut i: usize = 0;
    assert(frames_view(frames@).skip(0) =~= frames_view(frames@));
    while i < frames.len()
        invariant
            i <= frames@.len(),
            first_dts_vs_frame(frames_view(frames@), asic) == first_dts_vs_frame(
                frames_view(frames@).skip(i as int),
                asic,
            ),
        decreases frames@.len() - i,
    {
        let ghost fv = frames_view(frames@);
        assert(fv.skip(i as int).drop_first() =~= fv.skip(i + 1));
        assert(fv.skip(i as int)[0] == frames@[i as int]@);
        if let TdmFrame::DtsVs(frame) = &frames[i] {
            let frame_asic = match frame {
                TdmDtsVsFrame::Gen1(g) => g.asic,
                TdmDtsVsFrame::Gen2(g) => g.asic,
            };
            if frame_asic == asic {
                return Some(*frame);
            }
        }
        i = i + 1;
    }
    assert(frames_view(frames@).skip(i as int) =~= Seq::<TdmFrameView>::empty());
    None
}

// ---------------------------------------------------------------------------
// Sensor configuration.
// ---------------------------------------------------------------------------

/// The broadcast local-register writes that set the sensors up before the
/// bandgap register is read back.
pub open spec fn dts_vs_setup_writes_spec(config: Bzm2DtsVsConfig, thermal_trip_code: u32) -> Seq<(u8, u32)> {
    seq![
        (LOCAL_REG_UART_TX, 0x0fu32),
        (LOCAL_REG_SLOW_CLK_DIV, 2u32),
        (LOCAL_REG_SENSOR_CLK_DIV, ((8u32 << 5u32) | 8u32) as u32),
        (LOCAL_REG_DTS_SRST_PD, 0x100u32),
        (LOCAL_REG_SENS_TDM_GAP_CNT, config.tdm_interval as u32),
        (LOCAL_REG_DTS_CFG, 0u32),
        (LOCAL_REG_SENSOR_THRS_CNT, ((10u32 << 16u32) | 10u32) as u32),
        (LOCAL_REG_TEMPSENSOR_TUNE_CODE, (0x8001u32 | (thermal_trip_code << 1u32)) as u32),
    ]
}

/// Local-register writes that set the sensors up, up to the bandgap
/// read-back; `thermal_trip_code` is the tune code of the trip temperature.
pub fn dts_vs_setup_writes(config: &Bzm2DtsVsConfig, thermal_trip_code: u32) -> (r: Vec<(u8, u32)>)
    ensures
        r@ == dts_vs_setup_writes_spec(*config, thermal_trip_code),
{
    let mut writes: Vec<(u8, u32)> = Vec::new();
    writes.push((LOCAL_REG_UART_TX, 0x0f));
    let slow_clk_div: u32 = 2;
    let sensor_clk_div: u32 = 8;
    writes.push((LOCAL_REG_SLOW_CLK_DIV, slow_clk_div));
    writes.push((LOCAL_REG_SENSOR_CLK_DIV, (sensor_clk_div << 5u32) | sensor_clk_div));
    writes.push((LOCAL_REG_DTS_SRST_PD, 1u32 << 8u32));
    writes.push((LOCAL_REG_SENS_TDM_GAP_CNT, config.tdm_interval as u32));
    let cfg0_ts_resolution: u32 = if THERMAL_SENSOR_RESOLUTION == 10 {
        1
    } else if THERMAL_SENSOR_RESOLUTION == 8 {
        2
    } else {
        0
    };
    writes.push((LOCAL_REG_DTS_CFG, (cfg0_ts_resolution << 5u32) | THERMAL_SENSOR_MODE as u32));
    let thermal_threshold_cnt: u32 = 10;
    let voltage_ch0_threshold_cnt: u32 = 10;
    writes.push((LOCAL_REG_SENSOR_THRS_CNT, (thermal_threshold_cnt << 16u32) | voltage_ch0_threshold_cnt));
    writes.push((LOCAL_REG_TEMPSENSOR_TUNE_CODE, 0x8001u32 | (thermal_trip_code << 1u32)));
    proof {
        assert((0u32 << 5u32) | 0u32 == 0u32) by (bit_vector);
        assert(1u32 << 8u32 == 0x100u32) by (bit_vector);
    }
    assert(writes@ =~= dts_vs_setup_writes_spec(*config, thermal_trip_code));
    writes
}

/// The bandgap trim written back after reading the bandgap register: its
/// low nibble set to 3, the rest kept.
pub fn bandgap_trim(bandgap: u32) -> (r: u32)
    ensures
        r == ((bandgap & !0x0fu32) | 0x03u32),
{
    (bandgap & !0x0f) | 0x03
}

/// The broadcast local-register writes that finish the sensor set-up after
/// the bandgap trim.
pub open spec fn dts_vs_enable_writes_spec(ch0_code: u32, ch1_code: u32) -> Seq<(u8, u32)> {
    seq![
        (LOCAL_REG_VSENSOR_SRST_PD, 0x100u32),
        (LOCAL_REG_VSENSOR_CFG, ((8u32 << 28u32) | (1u32 << 24u32)) as u32),
        (LOCAL_REG_VOLTAGE_SENSOR_ENABLE, ((ch1_code << 16u32) | (ch0_code << 1u32) | 1u32) as u32),
    ]
}

/// Local-register writes that finish the sensor set-up; the codes are the
/// tune codes of the two voltage shutdown thresholds.
pub fn dts_vs_enable_writes(ch0_code: u32, ch1_code: u32) -> (r: Vec<(u8, u32)>)
    ensures
        r@ == dts_vs_enable_writes_spec(ch0_code, ch1_code),
{
    let mut writes: Vec<(u8, u32)> = Vec::new();
    writes.push((LOCAL_REG_VSENSOR_SRST_PD, 1u32 << 8u32));
    let cfg0_vs_resolution: u32 = if VOLTAGE_SENSOR_RESOLUTION == 12 {
        1
    } else if VOLTAGE_SENSOR_RESOLUTION == 10 {
        2
    } else if VOLTAGE_SENSOR_RESOLUTION == 8 {
        3
    } else {
        0
    };
    let gap_cnt: u32 = 8;
    writes.push((
        LOCAL_REG_VSENSOR_CFG,
        (gap_cnt << 28u32) | ((VOLTAGE_SENSOR_CONVERSION_MODE as u32) << 24u32) | (cfg0_vs_resolution << 5u32)
            | VOLTAGE_SENSOR_MODE as u32,
    ));
    writes.push((LOCAL_REG_VOLTAGE_SENSOR_ENABLE, (ch1_code << 16u32) | (ch0_code << 1u32) | 1));
    proof {
        assert(1u32 << 8u32 == 0x100u32) by (bit_vector);
        assert((((8u32 << 28u32) | (1u32 << 24u32)) | (0u32 << 5u32)) | 0u32 == ((8u32 << 28u32) | (1u32 << 24u32))) by (bit_vector);
    }
    assert(writes@ =~= dts_vs_enable_writes_spec(ch0_code, ch1_code));
    writes
}

// ---------------------------------------------------------------------------
// The controller.
// ---------------------------------------------------------------------------

/// A BZM2 UART bus: the reading and writing halves of its serial port.
pub struct Bzm2UartController<R, W> {
    reader: R,
    writer: W,
}

impl<R, W> Bzm2UartController<R, W> {
    pub closed spec fn reader(&self) -> R {
        self.reader
    }

    pub closed spec fn writer(&self) -> W {
        self.writer
    }

    pub fn new(reader: R, writer: W) -> (r: Self)
        ensures
            r.reader() == reader,
            r.writer() == writer,
    {
        Bzm2UartController { reader, writer }
    }

    /// The two halves of the port, for the transfers themselves.
    pub fn into_parts(self) -> (r: (R, W))
        ensures
            r == (self.reader(), self.writer()),
    {
        (self.reader, self.writer)
    }
}


/// The last sensor set-up write enables the voltage sensor with both
/// shutdown thresholds: for tune codes below 2^15, the channel-1 code sits
/// from bit 16, the channel-0 code from bit 1, and bit 0 is set.
pub proof fn lemma_voltage_enable_word(ch0_code: u32, ch1_code: u32)
    requires
        ch0_code < 0x8000,
        ch1_code < 0x8000,
    ensures
        ({
            let writes = dts_vs_enable_writes_spec(ch0_code, ch1_code);
            let (reg, word) = writes[writes.len() - 1];
            &&& reg == LOCAL_REG_VOLTAGE_SENSOR_ENABLE
            &&& word >> 16u32 == ch1_code
            &&& (word >> 1u32) & 0x7fffu32 == ch0_code
            &&& word & 1u32 == 1u32
        }),
{
    let writes = dts_vs_enable_writes_spec(ch0_code, ch1_code);
    let word = ((ch1_code << 16u32) | (ch0_code << 1u32) | 1u32) as u32;
    assert(writes[writes.len() - 1] == (LOCAL_REG_VOLTAGE_SENSOR_ENABLE, word));
    assert(ch0_code < 0x8000 && ch1_code < 0x8000 ==> {
        let w = ((ch1_code << 16u32) | (ch0_code << 1u32) | 1u32) as u32;
        &&& w >> 16u32 == ch1_code
        &&& (w >> 1u32) & 0x7fffu32 == ch0_code
        &&& w & 1u32 == 1u32
    }) by (bit_vector);
}

} // verus!
