use lp5521::program::Command;
use lp5521::recording::RecordingBus;
use lp5521::{
    BrightnessMode, Channel, ChargepumpMode, ClkMode, ControllerMode, Error, Lp5521, PwmMode,
    ROutputConnection, StaticSettings,
};

#[test]
fn upload_rg_go_to_start() {
    let mut dev = Lp5521::new(RecordingBus::new(), 0x32);
    assert!(dev.upload_program(Channel::RG, &[Command::GoToStart]).is_ok());
    assert_eq!(
        *dev.bus().accepted(),
        vec![(0x32, vec![0x10, 0x00, 0x00]), (0x32, vec![0x30, 0x00, 0x00])]
    );
}

#[test]
fn upload_rgb_in_order() {
    let program = [Command::ramp_ms(500, 127), Command::End { interrupt: true, reset: false }];
    let mut dev = Lp5521::new(RecordingBus::new(), 0x32);
    assert!(dev.upload_program(Channel::RGB, &program).is_ok());
    let payload = vec![0b0000_1000, 0b0111_1111, 0b1110_0000, 0x00];
    let bases: Vec<u8> = dev.bus().accepted().iter().map(|w| w.1[0]).collect();
    assert_eq!(bases, vec![0x10, 0x30, 0x50]);
    for w in dev.bus().accepted() {
        assert_eq!(w.0, 0x32);
        assert_eq!(w.1[1..].to_vec(), payload);
    }
}

#[test]
fn upload_gb_skips_red() {
    let mut dev = Lp5521::new(RecordingBus::new(), 0x32);
    assert!(dev.upload_program(Channel::GB, &[Command::SetPwm { value: 200 }]).is_ok());
    assert_eq!(
        *dev.bus().accepted(),
        vec![(0x32, vec![0x30, 0x40, 0xC8]), (0x32, vec![0x50, 0x40, 0xC8])]
    );
}

#[test]
fn upload_to_no_channel_writes_nothing() {
    let mut dev = Lp5521::new(RecordingBus::new(), 0x32);
    assert!(dev.upload_program(Channel::NoChannel, &[Command::GoToStart]).is_ok());
    assert!(dev.bus().accepted().is_empty());
}

#[test]
fn upload_refuses_unencodable() {
    let mut dev = Lp5521::new(RecordingBus::new(), 0x32);
    let r = dev.upload_program(Channel::RGB, &[Command::GoToStart, Command::Trigger]);
    assert!(matches!(r, Err(Error::UnsupportedCommand)));
    let r = dev.upload_program(Channel::R, &[Command::Branch { loop_times: 2, go_to_step: 0 }]);
    assert!(matches!(r, Err(Error::UnsupportedCommand)));
    assert_eq!(dev.bus().attempts(), 0);
}

#[test]
fn upload_stops_at_first_bus_failure() {
    let mut dev = Lp5521::new(RecordingBus::failing_at(1), 0x32);
    let r = dev.upload_program(Channel::RGB, &[Command::GoToStart]);
    assert!(matches!(r, Err(Error::I2C(1))));
    assert_eq!(dev.bus().attempts(), 2);
    assert_eq!(*dev.bus().accepted(), vec![(0x32, vec![0x10, 0x00, 0x00])]);
}

#[test]
fn enable_register() {
    let mut dev = Lp5521::new(RecordingBus::new(), 0x32);
    assert!(dev.set_enable(BrightnessMode::Logarithmic, true, true).is_ok());
    assert!(dev.set_enable(BrightnessMode::Logarithmic, true, false).is_ok());
    assert!(dev.set_enable(BrightnessMode::Linear, false, true).is_ok());
    assert_eq!(
        *dev.bus().accepted(),
        vec![(0x32, vec![0x00, 0xEA]), (0x32, vec![0x00, 0xC0]), (0x32, vec![0x00, 0x2A])]
    );
}

#[test]
fn control_mode_register() {
    let mut dev = Lp5521::new(RecordingBus::new(), 0x32);
    assert!(dev.set_control_mode(ControllerMode::LoadProgram).is_ok());
    assert!(dev.set_control_mode(ControllerMode::RunProgram).is_ok());
    assert!(dev.set_direct().is_ok());
    assert_eq!(
        *dev.bus().accepted(),
        vec![(0x32, vec![0x01, 0x15]), (0x32, vec![0x01, 0x2A]), (0x32, vec![0x01, 0x3F])]
    );
}

#[test]
fn config_register() {
    let mut dev = Lp5521::new(RecordingBus::new(), 0x32);
    assert!(dev
        .set_config(PwmMode::HighFrequency, ChargepumpMode::Auto, ROutputConnection::ChargePump, ClkMode::Auto)
        .is_ok());
    let settings = StaticSettings {
        cp_mode: ChargepumpMode::Force1point5,
        clk_mode: ClkMode::Internal,
        pwm_mode: PwmMode::LowFrequency,
        r_output_mode: ROutputConnection::Battery,
        brightness_mode: BrightnessMode::Logarithmic,
    };
    assert!(dev.init(settings).is_ok());
    assert_eq!(
        *dev.bus().accepted(),
        vec![(0x32, vec![0x08, 0x1A]), (0x32, vec![0x08, 0x55])]
    );
}

#[test]
fn color_registers() {
    let mut dev = Lp5521::new(RecordingBus::new(), 0x30);
    assert!(dev.set_color_value(1, 2, 3).is_ok());
    assert!(dev.write_reg(&[0x05, 0x07]).is_ok());
    assert_eq!(*dev.bus().accepted(), vec![(0x30, vec![0x02, 1, 2, 3]), (0x30, vec![0x05, 0x07])]);
}

#[test]
fn bus_error_is_passed_on() {
    let mut dev = Lp5521::new(RecordingBus::failing_at(0), 0x32);
    assert!(matches!(dev.set_color_value(1, 2, 3), Err(Error::I2C(0))));
}

#[test]
fn upload_failure_on_last_channel_is_reported() {
    let mut dev = Lp5521::new(RecordingBus::failing_at(2), 0x32);
    let r = dev.upload_program(Channel::RGB, &[Command::GoToStart]);
    assert!(matches!(r, Err(Error::I2C(2))));
    assert_eq!(dev.bus().attempts(), 3);
}

#[test]
fn register_errors_are_passed_on() {
    let mut dev = Lp5521::new(RecordingBus::failing_at(0), 0x32);
    assert!(matches!(dev.set_direct(), Err(Error::I2C(0))));
    let mut dev = Lp5521::new(RecordingBus::failing_at(0), 0x32);
    assert!(matches!(
        dev.set_config(PwmMode::HighFrequency, ChargepumpMode::Auto, ROutputConnection::ChargePump, ClkMode::Auto),
        Err(Error::I2C(0))
    ));
    let mut dev = Lp5521::new(RecordingBus::failing_at(0), 0x32);
    assert!(matches!(dev.set_enable(BrightnessMode::Linear, true, false), Err(Error::I2C(0))));
    let mut dev = Lp5521::new(RecordingBus::failing_at(0), 0x32);
    assert!(matches!(dev.write_reg(&[0x05, 1]), Err(Error::I2C(0))));
}
