use mujina_miner::protocol::{
    default_engine_coordinates, default_excluded_engines, encode_loopback, encode_multicast_write,
    encode_noop, encode_read_register, encode_read_result_command, encode_write_job,
    encode_write_register, leading_zero_threshold, leading_zero_threshold_from_be_bytes,
    logical_engine_address, logical_engine_id, physical_engine_coordinates, Bzm2EngineLayout,
    DtsVsGeneration, TdmDtsVsFrame, TdmFrame, TdmFrameParser, TdmResultFrame, TdmResultParser,
    OPCODE_UART_DTS_VS, OPCODE_UART_LOOPBACK, OPCODE_UART_MULTICAST_WRITE, OPCODE_UART_NOOP,
    OPCODE_UART_READREG, OPCODE_UART_READRESULT, OPCODE_UART_WRITEJOB, OPCODE_UART_WRITEREG,
    TARGET_BYTE,
};

#[test]
fn write_register_encoder_matches_legacy_wire_format() {
    let encoded = encode_write_register(0x12, 0x0345, 0x67, &[0x78, 0x56, 0x34, 0x12]);
    assert_eq!(
        encoded,
        vec![0x0b, 0x00, 0x12, 0x23, 0x45, 0x67, 0x03, 0x78, 0x56, 0x34, 0x12]
    );
}

#[test]
fn read_register_encoder_matches_legacy_wire_format() {
    let encoded = encode_read_register(0x12, 0x0345, 0x67, 4);
    assert_eq!(
        encoded,
        vec![0x08, 0x00, 0x12, 0x33, 0x45, 0x67, 0x03, TARGET_BYTE]
    );
}

#[test]
fn noop_and_loopback_encoders_match_legacy_wire_format() {
    assert_eq!(encode_noop(0x12), vec![0x04, 0x00, 0x12, 0xf0]);
    assert_eq!(
        encode_loopback(0x12, &[0xaa, 0xbb, 0xcc]),
        vec![0x08, 0x00, 0x12, 0xe0, 0x02, 0xaa, 0xbb, 0xcc]
    );
}

#[test]
fn parser_decodes_tdm_result() {
    let mut parser = TdmResultParser::default();
    let frame = [
        0x02,
        OPCODE_UART_READRESULT,
        0x41,
        0x23,
        0x78,
        0x56,
        0x34,
        0x12,
        0x05,
        0x09,
    ];

    let parsed = parser.push(&frame);
    assert_eq!(parsed.len(), 1);
    assert_eq!(parsed[0].asic, 0x02);
    assert_eq!(parsed[0].status, 0x4);
    assert_eq!(parsed[0].engine_address, 0x0123);
    assert_eq!(parsed[0].nonce, 0x1234_5678);
    assert_eq!(parsed[0].sequence_id, 0x05);
    assert_eq!(parsed[0].reported_time, 0x09);
}

#[test]
fn parser_decodes_gen2_dts_vs() {
    let mut parser = TdmFrameParser::new(DtsVsGeneration::Gen2);
    let raw = [
        0x02,
        OPCODE_UART_DTS_VS,
        0xD5,
        0xAB,
        0x34,
        0x12,
        0x45,
        0x96,
        0xA9,
        0xF7,
    ];
    let parsed = parser.push(&raw);
    assert_eq!(parsed.len(), 1);
    match &parsed[0] {
        TdmFrame::DtsVs(TdmDtsVsFrame::Gen2(frame)) => {
            assert_eq!(frame.asic, 0x02);
            assert_eq!(frame.thermal_tune_code, 0x07A9);
            assert!(frame.thermal_trip_status);
            assert!(frame.thermal_fault);
            assert!(frame.thermal_validity);
            assert!(frame.thermal_enabled);
            assert_eq!(frame.ch0_voltage, 0x1645);
            assert!(!frame.voltage_shutdown_status);
            assert!(frame.voltage_enabled);
            assert_eq!(frame.ch1_voltage, 0x04B4);
            assert_eq!(frame.ch2_voltage, 0x16AC);
            assert!(frame.voltage_fault);
            assert!(!frame.dll0_lock);
            assert!(frame.dll1_lock);
            assert!(frame.pll_lock);
        }
        other => panic!("unexpected frame: {other:?}"),
    }
}

#[test]
fn parser_decodes_gen1_dts_vs() {
    let mut parser = TdmFrameParser::new(DtsVsGeneration::Gen1);
    let raw = [0x02, OPCODE_UART_DTS_VS, 0x91, 0xab, 0xcd, 0x45];
    let parsed = parser.push(&raw);
    assert_eq!(parsed.len(), 1);
    match &parsed[0] {
        TdmFrame::DtsVs(TdmDtsVsFrame::Gen1(frame)) => {
            assert_eq!(frame.asic, 0x02);
            assert_eq!(frame.voltage, 0x545);
            assert!(frame.voltage_enabled);
            assert_eq!(frame.thermal_tune_code, 0xab);
            assert!(!frame.thermal_validity);
            assert!(frame.thermal_enabled);
        }
        other => panic!("unexpected frame: {other:?}"),
    }
}

#[test]
fn parser_decodes_readreg_and_noop() {
    let mut parser = TdmFrameParser::new(DtsVsGeneration::Gen2);
    parser.expect_read_register_bytes(0x03, 4);
    let parsed = parser.push(&[
        0x03,
        OPCODE_UART_READREG,
        0x78,
        0x56,
        0x34,
        0x12,
        0x01,
        OPCODE_UART_NOOP,
        0xaa,
        0xbb,
        0xcc,
    ]);
    assert_eq!(parsed.len(), 2);
    match &parsed[0] {
        TdmFrame::Register(frame) => assert_eq!(frame.data, vec![0x78, 0x56, 0x34, 0x12]),
        other => panic!("unexpected frame: {other:?}"),
    }
    match &parsed[1] {
        TdmFrame::Noop(frame) => assert_eq!(frame.data, [0xaa, 0xbb, 0xcc]),
        other => panic!("unexpected frame: {other:?}"),
    }
}

#[test]
fn parser_resyncs_after_unknown_prefix_and_partial_frames() {
    let mut parser = TdmFrameParser::new(DtsVsGeneration::Gen2);
    parser.expect_read_register_bytes(0x03, 4);

    let first = parser.push(&[0xfe, 0xaa, 0x03, OPCODE_UART_READREG, 0x78, 0x56]);
    assert!(first.is_empty());

    let second = parser.push(&[0x34, 0x12, 0x01, OPCODE_UART_NOOP, 0xaa, 0xbb, 0xcc]);
    assert_eq!(second.len(), 2);
    match &second[0] {
        TdmFrame::Register(frame) => assert_eq!(frame.data, vec![0x78, 0x56, 0x34, 0x12]),
        other => panic!("unexpected frame: {other:?}"),
    }
    match &second[1] {
        TdmFrame::Noop(frame) => assert_eq!(frame.data, [0xaa, 0xbb, 0xcc]),
        other => panic!("unexpected frame: {other:?}"),
    }
}

#[test]
fn command_encoders_cover_all_uart_opcodes() {
    let writereg = encode_write_register(1, 2, 3, &[0x44]);
    let writejob = encode_write_job(1, 2, &[0u8; 32], 4, 5, 6, 7);
    let readreg = encode_read_register(1, 2, 3, 4);
    let multicast = encode_multicast_write(1, 2, 3, &[0x44]);
    let readresult = encode_read_result_command(1);
    let noop = encode_noop(1);
    let loopback = encode_loopback(1, &[0xaa, 0xbb]);

    assert_eq!(writereg[3] >> 4, OPCODE_UART_WRITEREG);
    assert_eq!(writejob[3] >> 4, OPCODE_UART_WRITEJOB);
    assert_eq!(readreg[3] >> 4, OPCODE_UART_READREG);
    assert_eq!(multicast[3] >> 4, OPCODE_UART_MULTICAST_WRITE);
    assert_eq!(readresult[3] >> 4, OPCODE_UART_READRESULT);
    assert_eq!(noop[3] >> 4, OPCODE_UART_NOOP);
    assert_eq!(loopback[3] >> 4, OPCODE_UART_LOOPBACK);
}

#[test]
fn write_job_frame_layout() {
    let mut midstate = [0u8; 32];
    for (i, b) in midstate.iter_mut().enumerate() {
        *b = i as u8;
    }
    let job = encode_write_job(0x05, 0x0123, &midstate, 0x1122_3344, 0x5566_7788, 9, 0x0f);
    assert_eq!(job.len(), 48);
    assert_eq!(&job[0..2], &[48, 0]);
    assert_eq!(&job[2..6], &[0x05, 0x01, 0x23, 41]);
    assert_eq!(&job[6..38], &midstate[..]);
    assert_eq!(&job[38..42], &[0x44, 0x33, 0x22, 0x11]);
    assert_eq!(&job[42..46], &[0x88, 0x77, 0x66, 0x55]);
    assert_eq!(&job[46..48], &[9, 0x0f]);
}

#[test]
fn frames_announce_their_own_length() {
    for frame in [
        encode_write_register(7, 0x0fff, 0x10, &[1, 2, 3, 4]),
        encode_multicast_write(7, 3, 0x49, &[60]),
        encode_read_register(7, 0x0fff, 0x10, 4),
        encode_noop(7),
        encode_read_result_command(7),
        encode_loopback(7, &[1, 2, 3, 4, 5]),
    ] {
        assert_eq!(frame[0] as usize + 256 * frame[1] as usize, frame.len());
        assert_eq!(frame[2], 7);
    }
}

#[test]
fn empty_payload_count_byte_does_not_underflow() {
    let encoded = encode_write_register(1, 2, 3, &[]);
    assert_eq!(encoded, vec![7, 0, 0x01, 0x20, 0x02, 0x03, 0x00]);
    let encoded = encode_read_register(1, 2, 3, 0);
    assert_eq!(encoded[6], 0);
}

#[test]
fn chunked_pushes_match_a_single_push() {
    let stream: Vec<u8> = vec![
        0xfe, 0x02, OPCODE_UART_READRESULT, 0x41, 0x23, 0x78, 0x56, 0x34, 0x12, 0x05, 0x09, 0x03,
        OPCODE_UART_READREG, 0xde, 0xad, 0x07, OPCODE_UART_NOOP, 0x42, 0x5a, 0x32, 0x04, 0x09,
    ];
    let mut whole = TdmFrameParser::new(DtsVsGeneration::Gen2);
    whole.expect_read_register_bytes(0x03, 2);
    let all = whole.push(&stream);
    assert_eq!(all.len(), 3);

    for cut in 0..=stream.len() {
        let mut split = TdmFrameParser::new(DtsVsGeneration::Gen2);
        split.expect_read_register_bytes(0x03, 2);
        let mut frames = split.push(&stream[..cut]);
        frames.extend(split.push(&stream[cut..]));
        assert_eq!(frames, all, "cut at {cut}");
    }
}

#[test]
fn parser_waits_for_unannounced_register_answer() {
    let mut parser = TdmFrameParser::new(DtsVsGeneration::Gen2);
    let frames = parser.push(&[0x03, OPCODE_UART_READREG, 0x01, 0x02, 0x01, OPCODE_UART_NOOP, 1, 2, 3]);
    assert!(frames.is_empty());
    parser.expect_read_register_bytes(0x03, 2);
    let frames = parser.push(&[]);
    assert_eq!(frames.len(), 2);
}

#[test]
fn result_parser_drops_other_frames() {
    let mut parser = TdmResultParser::default();
    let parsed = parser.push(&[
        0x01, OPCODE_UART_NOOP, 1, 2, 3, 0x02, OPCODE_UART_READRESULT, 0x80, 0x05, 1, 0, 0, 0, 7, 8,
    ]);
    assert_eq!(
        parsed,
        vec![TdmResultFrame {
            asic: 2,
            engine_address: 0x005,
            status: 0x8,
            nonce: 1,
            sequence_id: 7,
            reported_time: 8,
        }]
    );
    assert!(parsed[0].nonce_valid());
}

#[test]
fn engine_address_round_trips() {
    for row in 0..20u8 {
        for col in 0..12u8 {
            let address = logical_engine_address(row, col);
            let frame = TdmResultFrame {
                asic: 0,
                engine_address: address,
                status: 0,
                nonce: 0,
                sequence_id: 0,
                reported_time: 0,
            };
            assert_eq!(frame.row(), row);
            assert_eq!(frame.col(), col);
            assert_eq!(frame.logical_engine_id(), logical_engine_id(row, col));
        }
    }
    assert_eq!(logical_engine_address(3, 4), 0x103);
}

#[test]
fn logical_ids_follow_default_coordinates() {
    let coords = default_engine_coordinates();
    assert_eq!(coords.len(), 236);
    for (i, (row, col)) in coords.iter().enumerate() {
        assert_eq!(logical_engine_id(*row, *col), Some(i as u16));
    }
    for (row, col) in default_excluded_engines() {
        assert_eq!(logical_engine_id(row, col), None);
    }
    assert_eq!(logical_engine_id(20, 0), None);
    assert_eq!(logical_engine_id(0, 12), None);
    assert_eq!(logical_engine_id(0, 0), Some(0));
    assert_eq!(logical_engine_id(1, 4), Some(80));
    assert_eq!(logical_engine_id(19, 10), Some(235 - 19));
    assert_eq!(physical_engine_coordinates().len(), 240);
    assert_eq!(physical_engine_coordinates()[21], (1, 1));
}

#[test]
fn default_layout_matches_logical_ids() {
    let layout = Bzm2EngineLayout::default();
    assert_eq!(layout.active_engine_count(), 236);
    for row in 0..64u8 {
        for col in 0..14u8 {
            assert_eq!(layout.logical_engine_id(row, col), logical_engine_id(row, col));
        }
    }
    let copy = layout.clone();
    assert_eq!(copy.active_coordinates(), layout.active_coordinates());
}

#[test]
fn layout_sorts_dedups_and_drops_out_of_grid_coordinates() {
    let layout = Bzm2EngineLayout::from_active_coordinates(&[(3, 2), (1, 0), (3, 2), (25, 0), (0, 12), (0, 2)]);
    assert_eq!(layout.active_coordinates(), &[(1, 0), (0, 2), (3, 2)]);
    assert_eq!(layout.logical_engine_id(0, 2), Some(1));
    assert_eq!(layout.logical_engine_id_from_address(logical_engine_address(3, 2)), Some(2));
    assert_eq!(layout.logical_engine_id(4, 4), None);
}

#[test]
fn generation_setting_is_read_after_trimming() {
    assert_eq!(DtsVsGeneration::from_env_value(" gen1\n"), Some(DtsVsGeneration::Gen1));
    assert_eq!(DtsVsGeneration::from_env_value("1"), Some(DtsVsGeneration::Gen1));
    assert_eq!(DtsVsGeneration::from_env_value("GEN2"), Some(DtsVsGeneration::Gen2));
    assert_eq!(DtsVsGeneration::from_env_value("\t2 "), Some(DtsVsGeneration::Gen2));
    assert_eq!(DtsVsGeneration::from_env_value("Gen2"), None);
    assert_eq!(DtsVsGeneration::from_env_value("3"), None);
}

#[test]
fn leading_zero_threshold_is_clamped() {
    let mut bytes = [0xffu8; 32];
    assert_eq!(leading_zero_threshold_from_be_bytes(&bytes), 32);
    bytes[..5].fill(0);
    bytes[5] = 0x1f;
    assert_eq!(leading_zero_threshold_from_be_bytes(&bytes), 43);
    let zeros = [0u8; 32];
    assert_eq!(leading_zero_threshold_from_be_bytes(&zeros), 64);
    let target = bitcoin::pow::Target::from_be_bytes(bytes);
    assert_eq!(leading_zero_threshold(target), 43);
    assert_eq!(leading_zero_threshold(bitcoin::pow::Target::MAX), 32);
}
