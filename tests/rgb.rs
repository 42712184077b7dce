use lp5521::program::Command;
use lp5521::recording::RecordingBus;
use lp5521::rgb::{blink_program, rainbow_program, step, Lp5521RGB};
use lp5521::{
    BrightnessMode, ChargepumpMode, ClkMode, Error, PwmMode, ROutputConnection, StaticSettings,
};

fn written(l: &Lp5521RGB<RecordingBus>) -> Vec<Vec<u8>> {
    l.bus().accepted().iter().map(|w| w.1.clone()).collect()
}

fn addresses(l: &Lp5521RGB<RecordingBus>) -> Vec<u8> {
    l.bus().accepted().iter().map(|w| w.0).collect()
}

fn settings() -> StaticSettings {
    StaticSettings {
        cp_mode: ChargepumpMode::Auto,
        clk_mode: ClkMode::Auto,
        pwm_mode: PwmMode::HighFrequency,
        r_output_mode: ROutputConnection::ChargePump,
        brightness_mode: BrightnessMode::Logarithmic,
    }
}

fn led(fail_at: Option<usize>) -> Lp5521RGB<RecordingBus> {
    let bus = match fail_at {
        Some(n) => RecordingBus::failing_at(n),
        None => RecordingBus::new(),
    };
    Lp5521RGB::new(bus, 0x32, settings())
}

fn image(program: &[Command]) -> Vec<u8> {
    let mut out = Vec::new();
    for c in program {
        let w = c.to_code();
        out.push((w >> 8) as u8);
        out.push((w & 0xff) as u8);
    }
    out
}

#[test]
fn new_applies_config() {
    let l = led(None);
    assert_eq!(written(&l), vec![vec![0x08, 0x1A]]);
}

#[test]
fn set_color_direct() {
    let mut l = led(None);
    assert!(l.set_color(10, 20, 30).is_ok());
    assert_eq!(written(&l)[1..].to_vec(), vec![vec![0x01, 0x3F], vec![0x02, 10, 20, 30]]);
}

#[test]
fn blink_program_shape() {
    let p = blink_program(50, 20);
    assert_eq!(
        p,
        vec![
            Command::ramp_ms(50, 20),
            Command::ramp_ms(50, 20),
            Command::ramp_ms(50, -20),
            Command::ramp_ms(50, -20),
            Command::GoToStart
        ]
    );
}

#[test]
fn zero_step_is_a_wait() {
    assert_eq!(step(50, 0), Command::wait_us(50_000));
    assert_eq!(step(50, 0), Command::RampWait { prescale: true, step_time: 3, increment: 0 });
}

#[test]
fn rainbow_program_shape() {
    assert_eq!(
        rainbow_program(166, 1),
        vec![
            Command::ramp_ms(166, -50),
            Command::ramp_ms(166, 50),
            Command::ramp_ms(166, -50),
            Command::GoToStart
        ]
    );
}

#[test]
fn blink_write_sequence() {
    let mut l = led(None);
    assert!(l.blink_color(200, 100, 60, 2).is_ok());
    let w = &written(&l)[1..];
    assert_eq!(w.len(), 7);
    assert_eq!(w[0], vec![0x00, 0xC0]);
    assert_eq!(w[1], vec![0x01, 0x15]);
    let mut r = vec![0x10];
    r.extend(image(&blink_program(50, 25)));
    let mut g = vec![0x30];
    g.extend(image(&blink_program(50, 30)));
    let mut b = vec![0x50];
    b.extend(image(&blink_program(50, 1)));
    assert_eq!(w[2], r);
    assert_eq!(w[3], g);
    assert_eq!(w[4], b);
    assert_eq!(w[5], vec![0x01, 0x2A]);
    assert_eq!(w[6], vec![0x00, 0xEA]);
}

#[test]
fn rainbow_write_sequence() {
    let mut l = led(None);
    assert!(l.rainbow(500).is_ok());
    let w = &written(&l)[1..];
    assert_eq!(w.len(), 7);
    for (i, base) in [0x10u8, 0x30, 0x50].iter().enumerate() {
        let mut expect = vec![*base];
        expect.extend(image(&rainbow_program(166, i)));
        assert_eq!(w[2 + i], expect);
    }
    assert_eq!(w[6], vec![0x00, 0xEA]);
}

#[test]
fn blink_stops_at_failed_upload() {
    // Writes: config (0), enable (1), load mode (2), R upload (3), G upload (4) fails.
    let mut l = led(Some(4));
    let r = l.blink_color(200, 100, 100, 100);
    assert!(matches!(r, Err(Error::I2C(4))));
    assert_eq!(l.bus().attempts(), 5);
    assert_eq!(written(&l).len(), 4);
    assert_eq!(written(&l)[3][0], 0x10);
}

#[test]
fn every_write_goes_to_the_device_address() {
    let mut l = Lp5521RGB::new(
        RecordingBus::new(),
        0x33,
        settings(),
    );
    assert!(l.blink_color(200, 100, 60, 20).is_ok());
    assert!(l.rainbow(300).is_ok());
    assert!(l.set_color(1, 2, 3).is_ok());
    assert_eq!(addresses(&l).len(), 1 + 7 + 7 + 2);
    assert!(addresses(&l).iter().all(|a| *a == 0x33));
}

#[test]
fn set_color_stops_after_failed_mode_write() {
    // Writes: config (0), OP_MODE (1) fails; the colour write must not follow.
    let mut l = led(Some(1));
    assert!(matches!(l.set_color(1, 2, 3), Err(Error::I2C(1))));
    assert_eq!(l.bus().attempts(), 2);
}

#[test]
fn rainbow_stops_at_failed_run_mode() {
    // Writes: config, enable, load, three uploads, run mode (6) fails.
    let mut l = led(Some(6));
    assert!(matches!(l.rainbow(500), Err(Error::I2C(6))));
    assert_eq!(l.bus().attempts(), 7);
}

#[test]
fn new_keeps_going_after_failed_config() {
    let mut l = led(Some(0));
    assert_eq!(l.bus().attempts(), 1);
    assert!(l.set_color(1, 2, 3).is_ok());
    assert_eq!(written(&l), vec![vec![0x01, 0x3F], vec![0x02, 1, 2, 3]]);
}
