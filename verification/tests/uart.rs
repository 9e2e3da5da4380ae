use mujina_miner::uart::discovery_result;
use std::time::Duration;

use mujina_miner::protocol::{
    encode_write_register, TdmDtsVsFrame, TdmDtsVsGen1Frame, TdmFrame, TdmNoopFrame,
    TdmRegisterFrame, BROADCAST_ASIC, OPCODE_UART_LOOPBACK, OPCODE_UART_NOOP, OPCODE_UART_READREG,
};
use mujina_miner::uart::{
    bandgap_trim, check_noop_payload, dts_vs_enable_writes, dts_vs_setup_writes,
    encode_assign_default_asic_id, encode_set_tdm_enabled, encode_tdm_control,
    encode_write_local_reg_u32, encode_write_local_reg_u8, engine_answers_present,
    engine_map_from_probes, find_dts_vs_frame, find_register_frame, noop_response_payload,
    register_value_u32, response_payload, validate_response_header, Bzm2ChainEnumeration,
    Bzm2DiscoveredEngineMap, Bzm2DtsVsConfig, Bzm2EngineCoordinate, Bzm2UartController,
    Bzm2UartError, DEFAULT_ASIC_ID, DEFAULT_NOOP_PROBE_TIMEOUT_MS, LOCAL_REG_ASIC_ID,
    LOCAL_REG_UART_TDM_CTL, NOTCH_REG,
};

#[test]
fn response_header_validation_accepts_matching_unicast_response() {
    validate_response_header(0x12, OPCODE_UART_READREG, &[0x12, OPCODE_UART_READREG]).unwrap();
}

#[test]
fn response_header_validation_rejects_mismatched_response() {
    let err = validate_response_header(0x12, OPCODE_UART_NOOP, &[0x13, OPCODE_UART_LOOPBACK])
        .unwrap_err();
    assert!(matches!(
        err,
        Bzm2UartError::UnexpectedHeader {
            expected_asic: 0x12,
            expected_opcode: OPCODE_UART_NOOP,
            actual_asic: 0x13,
            actual_opcode: OPCODE_UART_LOOPBACK,
        }
    ));
}

#[test]
fn default_asic_id_matches_legacy_value() {
    assert_eq!(DEFAULT_ASIC_ID, 0xfa);
}

#[test]
fn default_noop_probe_timeout_is_bounded() {
    assert_eq!(
        Duration::from_millis(DEFAULT_NOOP_PROBE_TIMEOUT_MS),
        Duration::from_millis(100)
    );
}

#[test]
fn discovered_engine_map_counts_entries() {
    let map = Bzm2DiscoveredEngineMap {
        asic: 2,
        present: vec![
            Bzm2EngineCoordinate::new(0, 0),
            Bzm2EngineCoordinate::new(1, 0),
        ],
        missing: vec![Bzm2EngineCoordinate::new(0, 4)],
    };

    assert_eq!(map.present_count(), 2);
    assert_eq!(map.missing_count(), 1);
}

#[test]
fn short_response_is_reported() {
    let err = validate_response_header(0x12, OPCODE_UART_NOOP, &[0x12]).unwrap_err();
    assert!(matches!(err, Bzm2UartError::ShortResponse { expected: 2, actual: 1 }));
}

#[test]
fn response_payload_strips_header() {
    let payload = response_payload(2, OPCODE_UART_READREG, &[2, OPCODE_UART_READREG, 0xfe, 0xff, 0xff, 0xff]).unwrap();
    assert_eq!(payload, vec![0xfe, 0xff, 0xff, 0xff]);
    assert!(engine_answers_present(&payload));
    assert_eq!(register_value_u32(&payload), 0xffff_fffe);
    assert!(!engine_answers_present(&[0, 0, 0, 0]));
    assert!(response_payload(2, OPCODE_UART_READREG, &[3, OPCODE_UART_READREG, 1]).is_err());
}

#[test]
fn noop_payload_must_read_bz2() {
    let data = noop_response_payload(7, &[7, OPCODE_UART_NOOP, b'B', b'Z', b'2']).unwrap();
    assert_eq!(&data, b"BZ2");
    assert!(check_noop_payload(7, data).is_ok());
    let err = check_noop_payload(7, *b"BZ1").unwrap_err();
    assert!(matches!(err, Bzm2UartError::UnexpectedNoopPayload { asic: 7, data } if data == *b"BZ1"));
}

#[test]
fn local_register_writes_target_the_notch_block() {
    assert_eq!(
        encode_write_local_reg_u32(0x02, 0x12, 1),
        encode_write_register(0x02, NOTCH_REG, 0x12, &[1, 0, 0, 0])
    );
    assert_eq!(
        encode_write_local_reg_u8(0x02, 0x56, 0x1d),
        encode_write_register(0x02, NOTCH_REG, 0x56, &[0x1d])
    );
    assert_eq!(
        encode_assign_default_asic_id(5),
        encode_write_register(DEFAULT_ASIC_ID, NOTCH_REG, LOCAL_REG_ASIC_ID, &[5, 0, 0, 0])
    );
}

#[test]
fn tdm_control_packs_fields() {
    assert_eq!(encode_tdm_control(0x0f, 16, true), (0x0f << 9) | (16 << 1) | 1);
    assert_eq!(encode_tdm_control(0x0f, 16, false), (0x0f << 9) | (16 << 1));
    assert_eq!(
        encode_set_tdm_enabled(0x0f, 16, true),
        encode_write_register(
            BROADCAST_ASIC,
            NOTCH_REG,
            LOCAL_REG_UART_TDM_CTL,
            &encode_tdm_control(0x0f, 16, true).to_le_bytes()
        )
    );
}

#[test]
fn chain_enumeration_assigns_consecutive_ids() {
    let mut walk = Bzm2ChainEnumeration::new(3, 254);
    assert_eq!(walk.next_id(), Some(254));
    walk.record_assigned();
    assert_eq!(walk.next_id(), Some(255));
    walk.record_assigned();
    assert_eq!(walk.next_id(), Some(255));
    walk.record_assigned();
    assert_eq!(walk.next_id(), None);
    assert_eq!(walk.into_assigned(), vec![254, 255, 255]);
}

#[test]
fn engine_map_splits_physical_grid() {
    let mut probes = vec![false; 240];
    probes[0] = true;
    probes[20 * 10 + 19] = true;
    let map = engine_map_from_probes(1, &probes);
    assert_eq!(map.asic, 1);
    assert_eq!(map.present_count(), 2);
    assert_eq!(map.missing_count(), 238);
    assert_eq!(
        map.present,
        vec![Bzm2EngineCoordinate::new(0, 0), Bzm2EngineCoordinate::new(19, 10)]
    );
}

#[test]
fn register_and_sensor_frames_are_picked_by_asic() {
    let frames = vec![
        TdmFrame::Noop(TdmNoopFrame { asic: 2, data: [1, 2, 3] }),
        TdmFrame::Register(TdmRegisterFrame { asic: 3, data: vec![9] }),
        TdmFrame::Register(TdmRegisterFrame { asic: 2, data: vec![7, 8] }),
        TdmFrame::Register(TdmRegisterFrame { asic: 2, data: vec![6] }),
    ];
    assert_eq!(find_register_frame(&frames, 2), Some(vec![7, 8]));
    assert_eq!(find_register_frame(&frames, 4), None);
    let gen1 = TdmDtsVsGen1Frame {
        asic: 5,
        voltage: 1,
        voltage_enabled: true,
        thermal_tune_code: 2,
        thermal_validity: true,
        thermal_enabled: true,
    };
    let frames = vec![TdmFrame::DtsVs(TdmDtsVsFrame::Gen1(gen1))];
    assert_eq!(find_dts_vs_frame(&frames, 5), Some(TdmDtsVsFrame::Gen1(gen1)));
    assert_eq!(find_dts_vs_frame(&frames, 6), None);
}

#[test]
fn sensor_setup_follows_register_sequence() {
    let config = Bzm2DtsVsConfig::default();
    assert_eq!(config.thermal_trip_c, 115);
    let writes = dts_vs_setup_writes(&config, 2650);
    assert_eq!(
        writes,
        vec![
            (0x0a, 0x0f),
            (0x08, 2),
            (0x3d, (8 << 5) | 8),
            (0x2e, 1 << 8),
            (0x2d, 1),
            (0x2f, 0),
            (0x3c, (10 << 16) | 10),
            (0x30, 0x8001 | (2650 << 1)),
        ]
    );
    assert_eq!(bandgap_trim(0x1234_567f), 0x1234_5673);
    assert_eq!(
        dts_vs_enable_writes(7561, 7561),
        vec![
            (0x3e, 1 << 8),
            (0x3f, (8 << 28) | (1 << 24)),
            (0x40, (7561 << 16) | (7561 << 1) | 1),
        ]
    );
}

#[test]
fn controller_hands_back_its_halves() {
    let uart = Bzm2UartController::new(1u8, "writer");
    assert_eq!(uart.into_parts(), (1u8, "writer"));
}

#[test]
fn discovery_probe_error_wins_over_disable_error() {
    let probes = vec![true; 240];
    let r = discovery_result(
        2,
        &probes,
        Some(Bzm2UartError::DtsVsTimeout { asic: 2 }),
        Some(Bzm2UartError::NoopTimeout { asic: 2, timeout_ms: 5 }),
    );
    assert!(matches!(r, Err(Bzm2UartError::DtsVsTimeout { asic: 2 })));
    let r = discovery_result(2, &probes, None, Some(Bzm2UartError::NoopTimeout { asic: 2, timeout_ms: 5 }));
    assert!(matches!(r, Err(Bzm2UartError::NoopTimeout { asic: 2, timeout_ms: 5 })));
    let map = discovery_result(2, &probes, None, None).unwrap();
    assert_eq!(map.present_count(), 240);
    assert_eq!(map.missing_count(), 0);
}
