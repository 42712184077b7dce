use lp5521::program::Command;

#[test]
fn test_ramp_ms() {
    // 500ms ramp up 127
    // = 8 cycles * 0.49ms, 127 times
    //                 p stime  s  incr
    let expected = 0b0_0_001000_0_1111111;
    assert_eq!(Command::ramp_ms(500, 127).to_code(), expected);

    // 250ms ramp down 127
    // = 4 cycles * 0.49ms, 127 times
    //                 p stime  s  incr
    let expected = 0b0_0_000100_1_1111111;
    assert_eq!(Command::ramp_ms(250, -127).to_code(), expected);

    // 2000ms ramp up 64
    // = 2 cycles * 15.6ms, 64 times
    //                 p stime  s  incr
    let expected = 0b0_1_000010_0_1000000;
    assert_eq!(Command::ramp_ms(2000, 64).to_code(), expected);
}

#[test]
fn ramp_fields() {
    assert_eq!(
        Command::ramp_ms(500, 127),
        Command::RampWait { prescale: false, step_time: 8, increment: 127 }
    );
    assert_eq!(
        Command::ramp_ms(2000, 64),
        Command::RampWait { prescale: true, step_time: 2, increment: 64 }
    );
}

#[test]
fn ramp_prescaler_boundary() {
    // 3087 ms over 100 steps is exactly 30.87 ms a step: still fast.
    assert_eq!(
        Command::ramp_ms(3087, 100),
        Command::RampWait { prescale: false, step_time: 63, increment: 100 }
    );
    // 3088 ms over 100 steps is just above: slow, 2 cycles of 15.6 ms.
    assert_eq!(
        Command::ramp_ms(3088, 100),
        Command::RampWait { prescale: true, step_time: 2, increment: 100 }
    );
}

#[test]
fn wait_prescaler_boundary() {
    assert_eq!(
        Command::wait_us(30870),
        Command::RampWait { prescale: false, step_time: 63, increment: 0 }
    );
    assert_eq!(
        Command::wait_us(30871),
        Command::RampWait { prescale: true, step_time: 2, increment: 0 }
    );
}

#[test]
fn wait_cycles_round_to_nearest() {
    // 1 ms is 2.04 fast cycles.
    assert_eq!(
        Command::wait_us(1000),
        Command::RampWait { prescale: false, step_time: 2, increment: 0 }
    );
    // 1 s is 64.1 slow cycles.
    assert_eq!(
        Command::wait_us(1_000_000),
        Command::RampWait { prescale: true, step_time: 64, increment: 0 }
    );
    assert_eq!(Command::wait_us(1000).to_code(), 0x0200);
}

#[test]
fn wait_saturates_at_255_cycles() {
    assert_eq!(
        Command::wait_us(10_000_000),
        Command::RampWait { prescale: true, step_time: 255, increment: 0 }
    );
}

#[test]
fn ramp_never_zero_cycles() {
    assert_eq!(
        Command::ramp_ms(0, 5),
        Command::RampWait { prescale: false, step_time: 1, increment: 5 }
    );
    assert_eq!(
        Command::ramp_ms(10, -127),
        Command::RampWait { prescale: false, step_time: 1, increment: -127 }
    );
}

#[test]
fn ramp_long_step_saturates() {
    assert_eq!(
        Command::ramp_ms(65535, 1),
        Command::RampWait { prescale: true, step_time: 255, increment: 1 }
    );
}

#[test]
fn ramp_is_deterministic() {
    let a = Command::ramp_ms(777, -33).to_code();
    let b = Command::ramp_ms(777, -33).to_code();
    assert_eq!(a, b);
    assert_eq!(Command::wait_us(12345).to_code(), Command::wait_us(12345).to_code());
}

#[test]
fn set_pwm_code() {
    assert_eq!(Command::SetPwm { value: 200 }.to_code(), 0b01000000_11001000);
}

#[test]
fn end_code() {
    assert_eq!(Command::End { interrupt: true, reset: false }.to_code(), 0b11100000_00000000);
    assert_eq!(Command::End { interrupt: false, reset: true }.to_code(), 0b11010000_00000000);
    assert_eq!(Command::End { interrupt: false, reset: false }.to_code(), 0b11000000_00000000);
}

#[test]
fn go_to_start_code() {
    assert_eq!(Command::GoToStart.to_code(), 0x0000);
}

#[test]
fn ramp_fields_are_masked() {
    // step_time 67 keeps its low 6 bits (3); magnitude 128 keeps its low 7 bits (0).
    let c = Command::RampWait { prescale: false, step_time: 67, increment: -128 };
    assert_eq!(c.to_code(), 0b0_0_000011_1_0000000);
    let c = Command::RampWait { prescale: true, step_time: 63, increment: -1 };
    assert_eq!(c.to_code(), 0b0_1_111111_1_0000001);
}

#[test]
fn branch_and_trigger_have_no_encoding() {
    assert!(!Command::Branch { loop_times: 1, go_to_step: 0 }.is_encodable());
    assert!(!Command::Trigger.is_encodable());
    assert!(Command::GoToStart.is_encodable());
    assert!(Command::ramp_ms(100, 1).is_encodable());
}
