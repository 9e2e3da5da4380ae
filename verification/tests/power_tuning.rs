use mujina_miner::api_types::{route_board_command, BoardCommandRejection, Bzm2SavedOperatingPointStatus};
use mujina_miner::power::{
    bringup_actions, shutdown_actions, FileGpioPin, GpioResetLine, PinValue, PowerAction,
    Tps546PowerRail,
};
use mujina_miner::tuning::{
    apply_i32, build_offsets, clamp_voltage, initial_voltage_mv, operating_target_voltage_mv,
    search_modes, startup_voltage_bias_mv, stored_total_active_engine_count,
    total_active_engine_count, total_nominal_engine_capacity, uses_high_plus_clock,
    uses_low_increase_ratio, Bzm2AsicTopology, Bzm2CalibrationMode, Bzm2CalibrationSweepRequest,
    Bzm2OperatingClass, Bzm2PerformanceMode, Bzm2SavedEngineTopology, SiteTemperatureBand,
};

#[test]
fn reset_line_levels_follow_polarity() {
    let active_low = GpioResetLine::new(0u8, true);
    assert_eq!(active_low.level_for(true), PinValue::Low);
    assert_eq!(active_low.level_for(false), PinValue::High);
    let active_high = GpioResetLine::new(0u8, false);
    assert_eq!(active_high.level_for(true), PinValue::High);
    assert_eq!(active_high.into_inner(), 0);
    assert_eq!(Tps546PowerRail::new(5u32).into_inner(), 5);
}

#[test]
fn file_pin_reads_and_writes_strings() {
    let pin = FileGpioPin::new("/sys/x/value".to_string(), "1".to_string(), "0".to_string());
    assert_eq!(pin.path(), "/sys/x/value");
    assert_eq!(pin.raw_for(PinValue::High), "1");
    assert_eq!(pin.raw_for(PinValue::Low), "0");
    assert_eq!(pin.value_from_contents("1\n"), PinValue::High);
    assert_eq!(pin.value_from_contents("0\n"), PinValue::Low);
    assert_eq!(pin.value_from_contents("11"), PinValue::Low);
}

#[test]
fn bringup_sequences_rails_then_releases_reset() {
    let actions = bringup_actions(true, true, 2, &[0, 1]);
    assert_eq!(
        actions,
        vec![
            PowerAction::AssertReset,
            PowerAction::PrePowerDelay,
            PowerAction::InitializeRail(0),
            PowerAction::InitializeRail(1),
            PowerAction::ApplyStep(0),
            PowerAction::SettleStep(0),
            PowerAction::ApplyStep(1),
            PowerAction::SettleStep(1),
            PowerAction::PostPowerDelay,
            PowerAction::ReleaseReset,
            PowerAction::ReleaseResetDelay,
        ]
    );
}

#[test]
fn bringup_stops_at_missing_rail() {
    let actions = bringup_actions(false, false, 1, &[0, 3, 0]);
    assert_eq!(
        actions,
        vec![
            PowerAction::InitializeRail(0),
            PowerAction::ApplyStep(0),
            PowerAction::SettleStep(0),
            PowerAction::RailOutOfRange(3),
        ]
    );
}

#[test]
fn shutdown_asserts_reset_then_powers_off_in_reverse() {
    assert_eq!(
        shutdown_actions(true, 3),
        vec![
            PowerAction::AssertReset,
            PowerAction::PowerOffRail(2),
            PowerAction::PowerOffRail(1),
            PowerAction::PowerOffRail(0),
        ]
    );
    assert_eq!(shutdown_actions(false, 0), vec![]);
}

#[test]
fn offsets_and_clamps() {
    assert_eq!(apply_i32(100, -150), 0);
    assert_eq!(apply_i32(u32::MAX - 1, 5), u32::MAX);
    assert_eq!(apply_i32(17_500, -50), 17_450);
    assert_eq!(apply_i32(0, i32::MIN), 0);
    assert_eq!(clamp_voltage(10), 16_950);
    assert_eq!(clamp_voltage(30_000), 21_000);
    assert_eq!(clamp_voltage(17_000), 17_000);
    assert_eq!(build_offsets(false, 9), vec![0]);
    assert_eq!(build_offsets(true, 1), vec![-50, 0, 50]);
    assert_eq!(build_offsets(true, 200).len(), 41);
}

#[test]
fn targets_and_start_up_voltage() {
    assert_eq!(operating_target_voltage_mv(Bzm2OperatingClass::Generic, Bzm2PerformanceMode::Standard), 17_500);
    assert_eq!(
        operating_target_voltage_mv(Bzm2OperatingClass::ExtendedHeadroomB, Bzm2PerformanceMode::MaxThroughput),
        18_050
    );
    assert_eq!(
        operating_target_voltage_mv(Bzm2OperatingClass::StackTunedA, Bzm2PerformanceMode::Efficiency),
        16_850
    );
    assert!(uses_high_plus_clock(Bzm2OperatingClass::ExtendedHeadroom));
    assert!(!uses_high_plus_clock(Bzm2OperatingClass::Generic));
    assert_eq!(startup_voltage_bias_mv(SiteTemperatureBand::ColdSoak), 100);
    assert_eq!(startup_voltage_bias_mv(SiteTemperatureBand::Hot), -100);
    assert!(uses_low_increase_ratio(SiteTemperatureBand::Hot));
    assert!(!uses_low_increase_ratio(SiteTemperatureBand::Nominal));
    assert_eq!(initial_voltage_mv(17_500, SiteTemperatureBand::Warm), 17_450);
    assert_eq!(initial_voltage_mv(16_850, SiteTemperatureBand::Hot), 16_950);
}

#[test]
fn sweep_modes() {
    let mut request = Bzm2CalibrationSweepRequest {
        operating_class: Bzm2OperatingClass::Generic,
        target_mode: Bzm2PerformanceMode::Standard,
        mode: Bzm2CalibrationMode::default(),
        voltage_steps: 1,
        frequency_steps: 1,
        pass_rate_steps: 1,
    };
    assert_eq!(search_modes(&request), vec![Bzm2PerformanceMode::Standard]);
    request.mode.sweep_strategy = true;
    assert_eq!(search_modes(&request).len(), 3);
}

fn asic(alive: bool, engines: u16) -> Bzm2AsicTopology {
    Bzm2AsicTopology {
        asic_id: 0,
        domain_id: 0,
        pll_count: 2,
        alive,
        active_engine_count: engines,
        missing_engines: Vec::new(),
    }
}

#[test]
fn engine_capacity_counts() {
    let asics = vec![asic(true, 236), asic(true, 0), asic(false, 100)];
    assert_eq!(total_active_engine_count(&asics), 237);
    assert_eq!(total_nominal_engine_capacity(&asics), 472);
    assert_eq!(total_active_engine_count(&[]), 1);
    assert_eq!(total_nominal_engine_capacity(&[]), 1);
    assert_eq!(stored_total_active_engine_count(&[], 2), 472);
    let saved = vec![
        Bzm2SavedEngineTopology { active_engine_count: 118, missing_engines: Vec::new() },
        Bzm2SavedEngineTopology::default(),
    ];
    assert_eq!(stored_total_active_engine_count(&saved, 5), 119);
}

#[test]
fn board_command_routing() {
    assert_eq!(route_board_command(false, true), Err(BoardCommandRejection::NotFound));
    assert_eq!(route_board_command(false, false), Err(BoardCommandRejection::NotFound));
    assert_eq!(route_board_command(true, false), Err(BoardCommandRejection::BadRequest));
    assert_eq!(route_board_command(true, true), Ok(()));
    assert_eq!(Bzm2SavedOperatingPointStatus::default(), Bzm2SavedOperatingPointStatus::Pending);
}
