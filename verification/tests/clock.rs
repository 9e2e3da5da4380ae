use mujina_miner::clock::{
    dll_already_frozen, dll_enable_value, dll_lock_poll, dll_program_writes, ensure_fincon_valid,
    fincon_is_valid, packed_post_divider, pll_lock_poll, pll_program_writes, Bzm2ClockController,
    Bzm2ClockError, Bzm2Dll, Bzm2DllConfig, Bzm2DllStatus, Bzm2Pll, Bzm2PllStatus,
};
use mujina_miner::uart::Bzm2UartController;

#[test]
fn dll_duty_cycle_matches_legacy_presets() {
    let duty_55 = Bzm2DllConfig::from_duty_cycle(55).unwrap();
    assert_eq!(duty_55.nde_dll, 0x1d);
    assert_eq!(duty_55.nde_clk, 0x0f);
    assert_eq!(duty_55.npi_clk, 0x4);

    let duty_75 = Bzm2DllConfig::from_duty_cycle(75).unwrap();
    assert_eq!(duty_75.nde_dll, 0x1f);
    assert_eq!(duty_75.nde_clk, 0x17);
    assert_eq!(duty_75.npi_clk, 0x0);
}

#[test]
fn fincon_validation_matches_legacy_rules() {
    assert!(fincon_is_valid(0x9c));
    assert!(!fincon_is_valid(0xf4));
    assert!(!fincon_is_valid(0x0f));
    assert!(!fincon_is_valid(0xe1));
}

#[test]
fn unsupported_duty_cycle_is_rejected() {
    assert!(matches!(
        Bzm2DllConfig::from_duty_cycle(40),
        Err(Bzm2ClockError::InvalidDllDutyCycle(40))
    ));
    let duty_50 = Bzm2DllConfig::from_duty_cycle(50).unwrap();
    assert_eq!(duty_50.control2(), 1 << 2);
    assert_eq!(Bzm2DllConfig::from_duty_cycle(55).unwrap().control2(), (4 << 3) | (1 << 2));
}

#[test]
fn post_divider_packing() {
    assert_eq!(packed_post_divider(0).unwrap(), 0x1001);
    assert_eq!(packed_post_divider(7).unwrap(), 0x1000 | (7 << 6) | 1);
    assert!(matches!(packed_post_divider(8), Err(Bzm2ClockError::InvalidPostDivider(8))));
    assert_eq!(pll_program_writes(Bzm2Pll::Pll1, 12, 0x1001), [(0x1b, 12), (0x1a, 0x1001)]);
}

#[test]
fn register_maps() {
    assert_eq!(Bzm2Pll::Pll0.register_block(), (0x10, 0x11, 0x12, 0x13));
    assert_eq!(Bzm2Dll::Dll1.registers(), (0x5e, 0x5f, 0x60, 0x61, 0x62));
    assert_eq!(Bzm2Dll::Dll0.fincon_register(), 0x5b);
    let config = Bzm2DllConfig::from_duty_cycle(60).unwrap();
    assert_eq!(dll_program_writes(Bzm2Dll::Dll0, config), [(0x57, 0x1d), (0x58, 0x11), (0x56, 0x04)]);
    assert_eq!(dll_enable_value(0x10, false), 0x11);
    assert_eq!(dll_enable_value(0x11, true), 0x15);
    assert!(dll_already_frozen(0x02));
    assert!(!dll_already_frozen(0x05));
}

#[test]
fn status_decoding_and_lock_polls() {
    let status = Bzm2PllStatus::from_registers(Bzm2Pll::Pll0, 0x5, 0x77);
    assert!(status.enabled && status.locked);
    assert!(matches!(pll_lock_poll(1, status, 0x5, false), Some(Ok(s)) if s == status));
    let unlocked = Bzm2PllStatus::from_registers(Bzm2Pll::Pll1, 0x1, 0);
    assert!(pll_lock_poll(1, unlocked, 0x1, false).is_none());
    assert!(matches!(
        pll_lock_poll(1, unlocked, 0x1, true),
        Some(Err(Bzm2ClockError::PllLockTimeout { asic: 1, pll: Bzm2Pll::Pll1, last_enable: 1 }))
    ));

    let dll = Bzm2DllStatus::from_registers(Bzm2Dll::Dll0, 0x06, 0x07, 0xe0, 0x9c);
    assert_eq!(dll.coarsecon, 7);
    assert!(dll.freeze_valid && dll.locked && dll.fincon_valid);
    assert!(ensure_fincon_valid(3, dll).is_ok());
    let bad = Bzm2DllStatus::from_registers(Bzm2Dll::Dll1, 0, 0, 0, 0xf4);
    assert!(matches!(
        ensure_fincon_valid(3, bad),
        Err(Bzm2ClockError::InvalidDllFincon { asic: 3, dll: Bzm2Dll::Dll1, fincon: 0xf4 })
    ));
    assert!(matches!(
        dll_lock_poll(3, bad, 0x4, true),
        Some(Err(Bzm2ClockError::DllLockTimeout { asic: 3, dll: Bzm2Dll::Dll1, last_control: 4 }))
    ));
    assert!(dll_lock_poll(3, bad, 0x4, false).is_none());
}

#[test]
fn clock_controller_wraps_uart() {
    let clock = Bzm2ClockController::new(1u8, 2u8);
    assert_eq!(clock.into_uart().into_parts(), (1, 2));
    let clock = Bzm2ClockController::from_uart(Bzm2UartController::new(3u8, 4u8));
    assert_eq!(clock.into_uart().into_parts(), (3, 4));
}
