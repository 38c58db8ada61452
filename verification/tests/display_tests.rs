use led_engine::display::{
    spi_test_pattern, BusOp, DisplayDriver, DriverState, TransmitFault, EXIT_SLEEP_OPCODE,
    SETTLE_MICROS,
};

#[test]
fn bring_up_issues_one_wake_command() {
    let mut d = DisplayDriver::new();
    assert_eq!(d.state, DriverState::Uninitialized);
    let plan = d.initialize();
    assert_eq!(d.state, DriverState::Initializing);
    assert_eq!(plan.settle_micros, SETTLE_MICROS);
    assert_eq!(plan.settle_micros, 200_000);
    // exactly one command frame: the wake opcode with an empty payload
    assert_eq!(
        plan.ops,
        vec![
            BusOp::DcLow,
            BusOp::CsLow,
            BusOp::Transmit(vec![EXIT_SLEEP_OPCODE]),
            BusOp::DcHigh,
            BusOp::Transmit(vec![]),
            BusOp::CsHigh,
        ]
    );
    assert_eq!(EXIT_SLEEP_OPCODE, 0x11);
    // a fault-free channel ran the plan: bring-up reports success
    let r = d.confirm_initialized(Ok(()));
    assert!(r.is_ok());
    assert_eq!(d.state, DriverState::Ready);
}

#[test]
fn bring_up_fault_propagates() {
    let mut d = DisplayDriver::new();
    let _plan = d.initialize();
    let r = d.confirm_initialized(Err(TransmitFault {}));
    assert_eq!(r, Err(TransmitFault {}));
    // the caller may attempt bring-up again
    assert_eq!(d.state, DriverState::Uninitialized);
}

#[test]
fn command_frame_sequence() {
    let mut d = DisplayDriver::new();
    let _ = d.initialize();
    let _ = d.confirm_initialized(Ok(()));
    let ops = d.send_command(0x2A, vec![0, 1, 0, 127]);
    assert_eq!(
        ops,
        vec![
            BusOp::DcLow,
            BusOp::CsLow,
            BusOp::Transmit(vec![0x2A]),
            BusOp::DcHigh,
            BusOp::Transmit(vec![0, 1, 0, 127]),
            BusOp::CsHigh,
        ]
    );
}

#[test]
fn empty_payload_still_sends_a_data_phase() {
    let mut d = DisplayDriver::new();
    let _ = d.initialize();
    let _ = d.confirm_initialized(Ok(()));
    let ops = d.send_command(0x11, vec![]);
    assert_eq!(ops.len(), 6);
    // one opcode byte is transmitted, and the empty data phase is still sent
    assert_eq!(ops[2], BusOp::Transmit(vec![0x11]));
    assert_eq!(ops[4], BusOp::Transmit(vec![]));
    assert_eq!(ops[1], BusOp::CsLow);
    assert_eq!(ops[5], BusOp::CsHigh);
}

#[test]
fn data_frame_sequence() {
    let mut d = DisplayDriver::new();
    let _ = d.initialize();
    let _ = d.confirm_initialized(Ok(()));
    let ops = d.send_data(vec![9, 8, 7]);
    assert_eq!(
        ops,
        vec![
            BusOp::DcHigh,
            BusOp::CsLow,
            BusOp::Transmit(vec![9, 8, 7]),
            BusOp::CsHigh,
        ]
    );
}

#[test]
fn test_pattern_ramps() {
    let buf = spi_test_pattern(64);
    assert_eq!(buf.len(), 64);
    for i in 0..64 {
        assert_eq!(buf[i], i as u8);
    }
    let long = spi_test_pattern(300);
    assert_eq!(long[255], 255);
    assert_eq!(long[256], 0);
    assert_eq!(long[299], 43);
}
