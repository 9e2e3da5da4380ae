//! Integer part of the BZM2 calibration planner: operating classes and
//! modes, voltage targets and sweeps, voltage clamping, and the engine
//! capacity that throughput is normalized against.

use vstd::prelude::*;

verus! {

pub const CALI_VOLTAGE_MV: u32 = 50;
pub const TARGET_VOLTAGE_MAX_MV: u32 = 21_000;
pub const TARGET_VOLTAGE_MIN_MV: u32 = 16_950;
pub const STARTUP_VOLTAGE_BIAS_MV: i32 = 50;
pub const NOMINAL_ACTIVE_ENGINE_COUNT: u16 = 236;

#[derive(Debug, Clone, Copy, PartialEq, Eq, PartialOrd, Ord, Structural)]
pub enum Bzm2PerformanceMode {
    MaxThroughput,
    Standard,
    Efficiency,
}

#[derive(Debug, Clone, Copy, PartialEq, Eq, Structural)]
pub enum Bzm2OperatingClass {
    Generic,
    EarlyValidation,
    ProductionValidation,
    StackTunedA,
    StackTunedB,
    ExtendedHeadroom,
    ExtendedHeadroomB,
}

/// Which axes a calibration sweep explores.
#[derive(Debug, Clone, Copy, PartialEq, Eq, Structural)]
pub struct Bzm2CalibrationMode {
    pub sweep_strategy: bool,
    pub sweep_voltage: bool,
    pub sweep_frequency: bool,
    pub sweep_pass_rate: bool,
}

impl Default for Bzm2CalibrationMode {
    fn default() -> (r: Self)
        ensures
            r == (Bzm2CalibrationMode {
                sweep_strategy: false,
                sweep_voltage: false,
                sweep_frequency: false,
                sweep_pass_rate: false,
            }),
    {
        Bzm2CalibrationMode {
            sweep_strategy: false,
            sweep_voltage: false,
            sweep_frequency: false,
            sweep_pass_rate: false,
        }
    }
}

#[derive(Debug, Clone, Copy, PartialEq, Eq, Structural)]
pub struct Bzm2CalibrationSweepRequest {
    pub operating_class: Bzm2OperatingClass,
    pub target_mode: Bzm2PerformanceMode,
    pub mode: Bzm2CalibrationMode,
    pub voltage_steps: u8,
    pub frequency_steps: u8,
    pub pass_rate_steps: u8,
}

#[derive(Debug, Clone, Copy, PartialEq, Eq, Structural)]
pub struct Bzm2SavedEngineCoordinate {
    pub row: u8,
    pub col: u8,
}

impl Default for Bzm2SavedEngineCoordinate {
    fn default() -> (r: Self)
        ensures
            r == (Bzm2SavedEngineCoordinate { row: 0, col: 0 }),
    {
        Bzm2SavedEngineCoordinate { row: 0, col: 0 }
    }
}

/// Engine topology of one ASIC as a saved operating point records it.
#[derive(Debug, Clone, PartialEq, Eq)]
pub struct Bzm2SavedEngineTopology {
    pub active_engine_count: u16,
    pub missing_engines: Vec<Bzm2SavedEngineCoordinate>,
}

impl Default for Bzm2SavedEngineTopology {
    fn default() -> (r: Self)
        ensures
            r.active_engine_count == 0,
            r.missing_engines@ == Seq::<Bzm2SavedEngineCoordinate>::empty(),
    {
        Bzm2SavedEngineTopology { active_engine_count: 0, missing_engines: Vec::new() }
    }
}

/// One ASIC of the board being planned.
#[derive(Debug, Clone)]
pub struct Bzm2AsicTopology {
    pub asic_id: u16,
    pub domain_id: u16,
    pub pll_count: usize,
    pub alive: bool,
    pub active_engine_count: u16,
    pub missing_engines: Vec<Bzm2SavedEngineCoordinate>,
}

/// The calibration planner.
#[derive(Debug, Clone, Copy)]
pub struct Bzm2CalibrationPlanner;

impl Default for Bzm2CalibrationPlanner {
    fn default() -> (r: Self) {
        Bzm2CalibrationPlanner
    }
}

/// `value` moved by `offset`, kept within `u32`.
pub open spec fn apply_offset_spec(value: u32, offset: i32) -> u32 {
    let v = value + offset;
    if v < 0 {
        0u32
    } else if v > u32::MAX {
        u32::MAX
    } else {
        v as u32
    }
}

/// Moves a value by a signed offset, saturating at the bounds of `u32`.
pub fn apply_i32(value: u32, offset: i32) -> (r: u32)
    ensures
        r == apply_offset_spec(value, offset),
{
    if offset >= 0 {
        value.saturating_add(offset as u32)
    } else {
        let magnitude: u32 = (0i64 - (offset as i64)) as u32;
        value.saturating_sub(magnitude)
    }
}

/// A voltage kept within the planner's target range.
pub open spec fn clamp_voltage_spec(voltage_mv: u32) -> u32 {
    if voltage_mv < TARGET_VOLTAGE_MIN_MV {
        TARGET_VOLTAGE_MIN_MV
    } else if voltage_mv > TARGET_VOLTAGE_MAX_MV {
        TARGET_VOLTAGE_MAX_MV
    } else {
        voltage_mv
    }
}

pub fn clamp_voltage(voltage_mv: u32) -> (r: u32)
    ensures
        r == clamp_voltage_spec(voltage_mv),
        TARGET_VOLTAGE_MIN_MV <= r <= TARGET_VOLTAGE_MAX_MV,
{
    if voltage_mv < TARGET_VOLTAGE_MIN_MV {
        TARGET_VOLTAGE_MIN_MV
    } else if voltage_mv > TARGET_VOLTAGE_MAX_MV {
        TARGET_VOLTAGE_MAX_MV
    } else {
        voltage_mv
    }
}

/// The voltage offsets of a sweep: `steps` (at most 20) steps of 50 mV on
/// each side of zero, or zero alone when the axis is not swept.
pub open spec fn voltage_offsets_spec(enabled: bool, steps: u8) -> Seq<i32> {
    if !enabled {
        seq![0i32]
    } else {
        let s: int = if steps > 20 { 20 } else { steps as int };
        Seq::new((2 * s + 1) as nat, |i: int| ((i - s) * (CALI_VOLTAGE_MV as int)) as i32)
    }
}

pub fn build_offsets(enabled: bool, steps: u8) -> (r: Vec<i32>)
    ensures
        r@ == voltage_offsets_spec(enabled, steps),
{
    if !enabled {
        let r = vec![0i32];
        assert(r@ =~= seq![0i32]);
        return r;
    }
    let s: i32 = if steps > 20 { 20 } else { steps as i32 };
    let mut offsets: Vec<i32> = Vec::new();
    let mut step: i32 = -s;
    while step <= s
        invariant
            -s <= step <= s + 1,
            0 <= s <= 20,
            offsets@ == Seq::new((step + s) as nat, |i: int| ((i - s) * (CALI_VOLTAGE_MV as int)) as i32),
        decreases s + 1 - step,
    {
        let unit: i32 = CALI_VOLTAGE_MV as i32;
        assert(unit == 50);
        offsets.push(step * unit);
        step = step + 1;
        assert(offsets@ =~= Seq::new((step + s) as nat, |i: int| ((i - s) * (CALI_VOLTAGE_MV as int)) as i32));
    }
    assert(offsets@ =~= voltage_offsets_spec(enabled, steps));
    offsets
}

/// The modes a sweep covers: all three when the strategy is swept, the
/// target mode alone otherwise.
pub fn search_modes(request: &Bzm2CalibrationSweepRequest) -> (r: Vec<Bzm2PerformanceMode>)
    ensures
        request.mode.sweep_strategy ==> r@ == seq![
            Bzm2PerformanceMode::MaxThroughput,
            Bzm2PerformanceMode::Standard,
            Bzm2PerformanceMode::Efficiency,
        ],
        !request.mode.sweep_strategy ==> r@ == seq![request.target_mode],
{
    if request.mode.sweep_strategy {
        let r = vec![
            Bzm2PerformanceMode::MaxThroughput,
            Bzm2PerformanceMode::Standard,
            Bzm2PerformanceMode::Efficiency,
        ];
        assert(r@ =~= seq![
            Bzm2PerformanceMode::MaxThroughput,
            Bzm2PerformanceMode::Standard,
            Bzm2PerformanceMode::Efficiency,
        ]);
        r
    } else {
        let r = vec![request.target_mode];
        assert(r@ =~= seq![request.target_mode]);
        r
    }
}

/// High, balanced and low target voltages of an operating class.
pub open spec fn class_voltages(class: Bzm2OperatingClass) -> (u32, u32, u32) {
    match class {
        Bzm2OperatingClass::Generic => (17_600, 17_500, 17_150),
        Bzm2OperatingClass::EarlyValidation => (17_800, 17_700, 17_350),
        Bzm2OperatingClass::ProductionValidation => (17_550, 17_450, 17_100),
        Bzm2OperatingClass::StackTunedA => (17_300, 17_200, 16_850),
        Bzm2OperatingClass::StackTunedB => (17_600, 17_500, 17_150),
        Bzm2OperatingClass::ExtendedHeadroom => (17_900, 17_450, 17_100),
        Bzm2OperatingClass::ExtendedHeadroomB => (18_050, 17_550, 17_150),
    }
}

/// The target voltage of a class in a mode: high for maximum throughput,
/// balanced for standard, low for efficiency.
pub open spec fn target_voltage_spec(class: Bzm2OperatingClass, mode: Bzm2PerformanceMode) -> u32 {
    let (high, balanced, low) = class_voltages(class);
    match mode {
        Bzm2PerformanceMode::MaxThroughput => high,
        Bzm2PerformanceMode::Standard => balanced,
        Bzm2PerformanceMode::Efficiency => low,
    }
}

/// Whether a class runs its maximum-throughput mode at the raised clock.
pub open spec fn uses_high_plus_clock_spec(class: Bzm2OperatingClass) -> bool {
    class == Bzm2OperatingClass::ExtendedHeadroom || class == Bzm2OperatingClass::ExtendedHeadroomB
}

pub fn operating_target_voltage_mv(class: Bzm2OperatingClass, mode: Bzm2PerformanceMode) -> (r: u32)
    ensures
        r == target_voltage_spec(class, mode),
{
    let (high, balanced, low): (u32, u32, u32) = match class {
        Bzm2OperatingClass::Generic => (17_600, 17_500, 17_150),
        Bzm2OperatingClass::EarlyValidation => (17_800, 17_700, 17_350),
        Bzm2OperatingClass::ProductionValidation => (17_550, 17_450, 17_100),
        Bzm2OperatingClass::StackTunedA => (17_300, 17_200, 16_850),
        Bzm2OperatingClass::StackTunedB => (17_600, 17_500, 17_150),
        Bzm2OperatingClass::ExtendedHeadroom => (17_900, 17_450, 17_100),
        Bzm2OperatingClass::ExtendedHeadroomB => (18_050, 17_550, 17_150),
    };
    match mode {
        Bzm2PerformanceMode::MaxThroughput => high,
        Bzm2PerformanceMode::Standard => balanced,
        Bzm2PerformanceMode::Efficiency => low,
    }
}

/// Whether a class runs its maximum-throughput mode at the raised clock
/// rather than the regular high clock.
pub fn uses_high_plus_clock(class: Bzm2OperatingClass) -> (r: bool)
    ensures
        r == uses_high_plus_clock_spec(class),
{
    match class {
        Bzm2OperatingClass::ExtendedHeadroom | Bzm2OperatingClass::ExtendedHeadroomB => true,
        _ => false,
    }
}

/// Site temperature bands that decide the start-up voltage bias.
#[derive(Debug, Clone, Copy, PartialEq, Eq, Structural)]
pub enum SiteTemperatureBand {
    /// Below -2.5 C.
    ColdSoak,
    /// From -2.5 C to below 7.5 C.
    Cool,
    /// From 7.5 C to below 17.5 C.
    Nominal,
    /// From 17.5 C to below 27.5 C.
    Warm,
    /// 27.5 C and above.
    Hot,
}

pub open spec fn startup_bias_spec(band: SiteTemperatureBand) -> i32 {
    match band {
        SiteTemperatureBand::ColdSoak => 100i32,
        SiteTemperatureBand::Cool => 50i32,
        SiteTemperatureBand::Nominal => 0i32,
        SiteTemperatureBand::Warm => -50i32,
        SiteTemperatureBand::Hot => -100i32,
    }
}

/// Start-up voltage bias of a band: colder sites start higher.
pub fn startup_voltage_bias_mv(band: SiteTemperatureBand) -> (r: i32)
    ensures
        r == startup_bias_spec(band),
{
    match band {
        SiteTemperatureBand::ColdSoak => STARTUP_VOLTAGE_BIAS_MV * 2,
        SiteTemperatureBand::Cool => STARTUP_VOLTAGE_BIAS_MV,
        SiteTemperatureBand::Nominal => 0,
        SiteTemperatureBand::Warm => -STARTUP_VOLTAGE_BIAS_MV,
        SiteTemperatureBand::Hot => -STARTUP_VOLTAGE_BIAS_MV * 2,
    }
}

/// Whether a band uses the low frequency-increase ratio (the two extreme
/// bands) rather than the high one.
pub fn uses_low_increase_ratio(band: SiteTemperatureBand) -> (r: bool)
    ensures
        r == (band == SiteTemperatureBand::ColdSoak || band == SiteTemperatureBand::Hot),
{
    match band {
        SiteTemperatureBand::ColdSoak | SiteTemperatureBand::Hot => true,
        _ => false,
    }
}

/// The start-up voltage: the target moved by the band's bias, within the
/// target range.
pub fn initial_voltage_mv(desired_voltage_mv: u32, band: SiteTemperatureBand) -> (r: u32)
    ensures
        r == clamp_voltage_spec(apply_offset_spec(desired_voltage_mv, startup_bias_spec(band))),
{
    clamp_voltage(apply_i32(desired_voltage_mv, startup_voltage_bias_mv(band)))
}

/// Engines of the alive ASICs, each counted as at least one.
pub open spec fn alive_engine_sum(asics: Seq<Bzm2AsicTopology>) -> nat
    decreases asics.len(),
{
    if asics.len() == 0 {
        0
    } else {
        alive_engine_sum(asics.drop_last()) + if asics.last().alive {
            (if asics.last().active_engine_count == 0 {
                1nat
            } else {
                asics.last().active_engine_count as nat
            })
        } else {
            0nat
        }
    }
}

/// Number of alive ASICs.
pub open spec fn alive_count(asics: Seq<Bzm2AsicTopology>) -> nat
    decreases asics.len(),
{
    if asics.len() == 0 {
        0
    } else {
        alive_count(asics.drop_last()) + if asics.last().alive {
            1nat
        } else {
            0nat
        }
    }
}

proof fn lemma_alive_count_bound(asics: Seq<Bzm2AsicTopology>)
    ensures
        alive_count(asics) <= asics.len(),
    decreases asics.len(),
{
    if asics.len() > 0 {
        lemma_alive_count_bound(asics.drop_last());
    }
}

pub open spec fn at_least_one(n: nat) -> nat {
    if n == 0 {
        1
    } else {
        n
    }
}

/// Active engines of the alive ASICs (an ASIC with none counts as one),
/// and at least one in all.
pub fn total_active_engine_count(asics: &[Bzm2AsicTopology]) -> (r: u32)
    requires
        alive_engine_sum(asics@) <= u32::MAX,
    ensures
        r == at_least_one(alive_engine_sum(asics@)),
{
    let mut total: u32 = 0;
    let mut i: usize = 0;
    while i < asics.len()
        invariant
            i <= asics@.len(),
            alive_engine_sum(asics@) <= u32::MAX,
            total == alive_engine_sum(asics@.take(i as int)),
            alive_engine_sum(asics@.take(i as int)) <= alive_engine_sum(asics@),
        decreases asics@.len() - i,
    {
        assert(asics@.take(i + 1).drop_last() =~= asics@.take(i as int));
        proof {
            lemma_prefix_sum_le(asics@, i + 1);
        }
        let asic = &asics[i];
        if asic.alive {
            let count: u32 = if asic.active_engine_count == 0 { 1 } else { asic.active_engine_count as u32 };
            total = total + count;
        }
        i = i + 1;
    }
    assert(asics@.take(i as int) =~= asics@);
    if total == 0 {
        1
    } else {
        total
    }
}

proof fn lemma_prefix_sum_le(asics: Seq<Bzm2AsicTopology>, k: int)
    requires
        0 <= k <= asics.len(),
    ensures
        alive_engine_sum(asics.take(k)) <= alive_engine_sum(asics),
    decreases asics.len() - k,
{
    if k < asics.len() {
        lemma_prefix_sum_le(asics, k + 1);
        assert(asics.take(k + 1).drop_last() =~= asics.take(k));
    } else {
        assert(asics.take(k) =~= asics);
    }
}

/// Nominal engine capacity of the alive ASICs, and at least one.
pub fn total_nominal_engine_capacity(asics: &[Bzm2AsicTopology]) -> (r: u32)
    requires
        alive_count(asics@) * (NOMINAL_ACTIVE_ENGINE_COUNT as nat) <= u32::MAX,
    ensures
        r == at_least_one(alive_count(asics@) * (NOMINAL_ACTIVE_ENGINE_COUNT as nat)),
{
    let alive = alive_asic_count(asics);
    proof {
        lemma_alive_count_bound(asics@);
    }
    let capacity: u32 = (alive as u32) * (NOMINAL_ACTIVE_ENGINE_COUNT as u32);
    if capacity == 0 {
        1
    } else {
        capacity
    }
}

/// Number of alive ASICs.
pub fn alive_asic_count(asics: &[Bzm2AsicTopology]) -> (r: usize)
    ensures
        r == alive_count(asics@),
{
    let mut n: usize = 0;
    let mut i: usize = 0;
    while i < asics.len()
        invariant
            i <= asics@.len(),
            n == alive_count(asics@.take(i as int)),
            n <= i,
        decreases asics@.len() - i,
    {
        assert(asics@.take(i + 1).drop_last() =~= asics@.take(i as int));
        if asics[i].alive {
            n = n + 1;
        }
        i = i + 1;
    }
    assert(asics@.take(i as int) =~= asics@);
    n
}

/// Engines that saved topologies record, each counted as at least one.
pub open spec fn saved_engine_sum(topologies: Seq<Bzm2SavedEngineTopology>) -> nat
    decreases topologies.len(),
{
    if topologies.len() == 0 {
        0
    } else {
        saved_engine_sum(topologies.drop_last()) + at_least_one(
            topologies.last().active_engine_count as nat,
        )
    }
}

/// The engine capacity a saved operating point was measured with: what its
/// per-ASIC topologies record, or, when it records none, the nominal
/// capacity of the ASICs alive now; at least one in all.
pub fn stored_total_active_engine_count(topologies: &[Bzm2SavedEngineTopology], alive_asics: usize) -> (r: u32)
    requires
        saved_engine_sum(topologies@) <= u32::MAX,
        alive_asics * (NOMINAL_ACTIVE_ENGINE_COUNT as nat) <= u32::MAX,
    ensures
        topologies@.len() == 0 ==> r == at_least_one((alive_asics * (NOMINAL_ACTIVE_ENGINE_COUNT as nat)) as nat),
        topologies@.len() > 0 ==> r == at_least_one(saved_engine_sum(topologies@)),
{
    if topologies.len() == 0 {
        let capacity: u32 = (alive_asics as u32) * (NOMINAL_ACTIVE_ENGINE_COUNT as u32);
        return if capacity == 0 {
            1
        } else {
            capacity
        };
    }
    let mut total: u32 = 0;
    let mut i: usize = 0;
    while i < topologies.len()
        invariant
            i <= topologies@.len(),
            saved_engine_sum(topologies@) <= u32::MAX,
            total == saved_engine_sum(topologies@.take(i as int)),
        decreases topologies@.len() - i,
    {
        assert(topologies@.take(i + 1).drop_last() =~= topologies@.take(i as int));
        proof {
            lemma_saved_prefix_le(topologies@, i + 1);
        }
        let c = topologies[i].active_engine_count;
        let count: u32 = if c == 0 { 1 } else { c as u32 };
        total = total + count;
        i = i + 1;
    }
    assert(topologies@.take(i as int) =~= topologies@);
    if total == 0 {
        1
    } else {
        total
    }
}

proof fn lemma_saved_prefix_le(topologies: Seq<Bzm2SavedEngineTopology>, k: int)
    requires
        0 <= k <= topologies.len(),
    ensures
        saved_engine_sum(topologies.take(k)) <= saved_engine_sum(topologies),
    decreases topologies.len() - k,
{
    if k < topologies.len() {
        lemma_saved_prefix_le(topologies, k + 1);
        assert(topologies.take(k + 1).drop_last() =~= topologies.take(k));
    } else {
        assert(topologies.take(k) =~= topologies);
    }
}

} // verus!
