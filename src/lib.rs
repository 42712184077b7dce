use vstd::prelude::*;

pub mod channel;
pub mod journal;
pub mod linux;
pub mod program;
pub mod recording;
pub mod rgb;
pub mod upload;

pub use channel::Channel;
use program::Command;
use journal::{lemma_runs_empty, lemma_runs_once, lemma_runs_then, runs_plan, wrote_once};
use upload::{all_encodable, program_bytes, upload_writes, word_bytes};

verus! {

/// What a driver call can fail with.
#[derive(Debug)]
pub enum Error<E> {
    /// The bus transaction failed.
    I2C(E),
    /// The program holds an instruction with no defined encoding
    /// (`Branch` or `Trigger`); nothing was written.
    UnsupportedCommand,
}

/// Write access to the bus the controller sits on: one transaction sends
/// `bytes` to the device at `address`.
pub trait RegisterWrite {
    type Error;

    /// Every write transaction made on the bus so far, oldest first: the
    /// device address, the bytes sent, and what the transaction returned.
    spec fn transactions(&self) -> Seq<(u8, Seq<u8>, Result<(), Self::Error>)>;

    /// Sends `bytes` to the device at `address` in one transaction.
    fn write(&mut self, address: u8, bytes: &[u8]) -> (r: Result<(), Self::Error>)
        ensures
            final(self).transactions() == old(self).transactions().push((address, bytes@, r)),
    ;
}

/// Charge pump operating mode.
pub enum ChargepumpMode {
    Off,
    ForceBypass,
    Force1point5,
    Auto,
}

/// Clock source selection.
pub enum ClkMode {
    External,
    Internal,
    Auto,
}

/// PWM frequency.
pub enum PwmMode {
    /// Internal oscillator
    HighFrequency,
    /// External oscillator
    LowFrequency,
}

/// Where the R output draws its supply from.
pub enum ROutputConnection {
    /// R power supply connected to internal charge pump
    ChargePump,
    /// R power supply connected directly to battery
    Battery,
}

/// Brightness response curve.
pub enum BrightnessMode {
    /// Output is linear
    Linear,
    /// Output is logarithmic
    Logarithmic,
}

/// Operating mode of the three engines.
pub enum ControllerMode {
    /// Disabled, reset PC
    Disabled,
    /// Load Program to SRAM, reset PC
    LoadProgram,
    /// Run program
    RunProgram,
    /// Direct control, reset PC
    DirectControl,
}

/// The one-time configuration of the chip.
pub struct StaticSettings {
    pub cp_mode: ChargepumpMode,
    pub clk_mode: ClkMode,
    pub pwm_mode: PwmMode,
    pub r_output_mode: ROutputConnection,
    pub brightness_mode: BrightnessMode,
}

impl ChargepumpMode {
    pub open spec fn spec_bits(&self) -> u8 {
        match self {
            ChargepumpMode::Off => 0,
            ChargepumpMode::ForceBypass => 1,
            ChargepumpMode::Force1point5 => 2,
            ChargepumpMode::Auto => 3,
        }
    }

    /// The mode's 2-bit field value.
    pub fn bits(&self) -> (r: u8)
        ensures
            r == self.spec_bits(),
    {
        match self {
            ChargepumpMode::Off => 0,
            ChargepumpMode::ForceBypass => 1,
            ChargepumpMode::Force1point5 => 2,
            ChargepumpMode::Auto => 3,
        }
    }
}

impl ClkMode {
    pub open spec fn spec_bits(&self) -> u8 {
        match self {
            ClkMode::External => 0,
            ClkMode::Internal => 1,
            ClkMode::Auto => 2,
        }
    }

    /// The mode's 2-bit field value.
    pub fn bits(&self) -> (r: u8)
        ensures
            r == self.spec_bits(),
    {
        match self {
            ClkMode::External => 0,
            ClkMode::Internal => 1,
            ClkMode::Auto => 2,
        }
    }
}

impl PwmMode {
    pub open spec fn spec_bits(&self) -> u8 {
        match self {
            PwmMode::HighFrequency => 0,
            PwmMode::LowFrequency => 1,
        }
    }

    /// The mode's 1-bit field value.
    pub fn bits(&self) -> (r: u8)
        ensures
            r == self.spec_bits(),
    {
        match self {
            PwmMode::HighFrequency => 0,
            PwmMode::LowFrequency => 1,
        }
    }
}

impl ROutputConnection {
    pub open spec fn spec_bits(&self) -> u8 {
        match self {
            ROutputConnection::ChargePump => 0,
            ROutputConnection::Battery => 1,
        }
    }

    /// The connection's 1-bit field value.
    pub fn bits(&self) -> (r: u8)
        ensures
            r == self.spec_bits(),
    {
        match self {
            ROutputConnection::ChargePump => 0,
            ROutputConnection::Battery => 1,
        }
    }
}

impl BrightnessMode {
    pub open spec fn spec_bits(&self) -> u8 {
        match self {
            BrightnessMode::Linear => 0,
            BrightnessMode::Logarithmic => 1,
        }
    }

    /// The mode's 1-bit field value.
    pub fn bits(&self) -> (r: u8)
        ensures
            r == self.spec_bits(),
    {
        match self {
            BrightnessMode::Linear => 0,
            BrightnessMode::Logarithmic => 1,
        }
    }
}

impl ControllerMode {
    pub open spec fn spec_bits(&self) -> u8 {
        match self {
            ControllerMode::Disabled => 0,
            ControllerMode::LoadProgram => 1,
            ControllerMode::RunProgram => 2,
            ControllerMode::DirectControl => 3,
        }
    }

    /// The mode's 2-bit field value.
    pub fn bits(&self) -> (r: u8)
        ensures
            r == self.spec_bits(),
    {
        match self {
            ControllerMode::Disabled => 0,
            ControllerMode::LoadProgram => 1,
            ControllerMode::RunProgram => 2,
            ControllerMode::DirectControl => 3,
        }
    }
}

/// Address of the ENABLE register.
pub const ENABLE_ADDR: u8 = 0x00;

/// Address of the OP_MODE register.
pub const OP_MODE_ADDR: u8 = 0x01;

/// Address of the R_PWM register; G_PWM and B_PWM follow it.
pub const COLOR_0_ADDR: u8 = 0x02;

/// Address of the CONFIG register.
pub const CONFIG_ADDR: u8 = 0x08;

/// ENABLE: brightness curve in bit 7, chip enable in bit 6, and, when the
/// engines run, "run" (0b10) in each engine's 2-bit field below.
pub open spec fn enable_value(brightness_mode: BrightnessMode, chip_en: bool, run_mode: bool) -> int {
    brightness_mode.spec_bits() * 128 + (if chip_en {
        64int
    } else {
        0
    }) + (if run_mode {
        0b101010int
    } else {
        0
    })
}

/// OP_MODE: the same mode in each of the three engines' 2-bit fields.
pub open spec fn control_value(mode: ControllerMode) -> int {
    mode.spec_bits() * 0b010101
}

/// CONFIG: clock in bits 0-1, R supply in bit 2, charge pump in bits 3-4,
/// PWM frequency in bit 6.
pub open spec fn config_value(
    pwm_mode: PwmMode,
    cp_mode: ChargepumpMode,
    r_output: ROutputConnection,
    clk: ClkMode,
) -> int {
    clk.spec_bits() + 4 * r_output.spec_bits() + 8 * cp_mode.spec_bits() + 64 * pwm_mode.spec_bits()
}

/// Driver of an LP5521 on a bus.
pub struct Lp5521<I2C: RegisterWrite> {
    i2c: I2C,
    address: u8,
}

impl<I2C: RegisterWrite> Lp5521<I2C> {
    /// The device's bus address.
    pub closed spec fn device_address(&self) -> u8 {
        self.address
    }

    /// The write transactions made on the bus, oldest first, each with its
    /// device address and outcome; the bytes of a register write are a
    /// register address followed by the data stored from it on.
    pub closed spec fn log(&self) -> Seq<(u8, Seq<u8>, Result<(), I2C::Error>)> {
        self.i2c.transactions()
    }

    /// A driver for the device at `address` on `i2c`; nothing is written yet.
    pub fn new(i2c: I2C, address: u8) -> (r: Self)
        ensures
            r.device_address() == address,
            r.log() == i2c.transactions(),
    {
        Lp5521 { i2c, address }
    }

    /// The bus the driver writes to.
    pub fn bus(&self) -> &I2C {
        &self.i2c
    }

    /// Writes `values` (a register address, then data) to the device in one
    /// transaction.
    pub fn write_reg(&mut self, values: &[u8]) -> (r: Result<(), Error<I2C::Error>>)
        ensures
            final(self).device_address() == old(self).device_address(),
            wrote_once(old(self).log(), final(self).log(), old(self).device_address(), values@, r),
    {
        let r = self.i2c.write(self.address, values);
        match r {
            Ok(()) => Ok(()),
            Err(e) => Err(Error::I2C(e)),
        }
    }

    /// Applies the static configuration.
    pub fn init(&mut self, settings: StaticSettings) -> (r: Result<(), Error<I2C::Error>>)
        ensures
            final(self).device_address() == old(self).device_address(),
            wrote_once(old(self).log(), final(self).log(), old(self).device_address(), seq![CONFIG_ADDR, config_value(settings.pwm_mode, settings.cp_mode, settings.r_output_mode, settings.clk_mode) as u8], r),
    {
        self.set_config(settings.pwm_mode, settings.cp_mode, settings.r_output_mode, settings.clk_mode)
    }

    /// Sets the three PWM outputs directly.
    pub fn set_color_value(&mut self, red: u8, green: u8, blue: u8) -> (r: Result<(), Error<I2C::Error>>)
        ensures
            final(self).device_address() == old(self).device_address(),
            wrote_once(old(self).log(), final(self).log(), old(self).device_address(), seq![COLOR_0_ADDR, red, green, blue], r),
    {
        let values = [COLOR_0_ADDR, red, green, blue];
        assert(values@ == seq![COLOR_0_ADDR, red, green, blue]);
        self.write_reg(&values)
    }

    /// Writes the ENABLE register.
    pub fn set_enable(&mut self, brightness_mode: BrightnessMode, chip_en: bool, run_mode: bool) -> (r:
        Result<(), Error<I2C::Error>>)
        ensures
            final(self).device_address() == old(self).device_address(),
            wrote_once(old(self).log(), final(self).log(), old(self).device_address(), seq![ENABLE_ADDR, enable_value(brightness_mode, chip_en, run_mode) as u8], r),
    {
        let bm = brightness_mode.bits();
        let en: u8 = if chip_en {
            1
        } else {
            0
        };
        let run: u8 = if run_mode {
            0b101010
        } else {
            0
        };
        let value: u8 = (bm << 7) | (en << 6) | run;
        assert(value == bm * 128 + en * 64 + run) by (bit_vector)
            requires
                bm <= 1,
                en <= 1,
                run == 0 || run == 0b101010,
                value == (bm << 7) | (en << 6) | run,
        ;
        let values = [ENABLE_ADDR, value];
        assert(values@ == seq![ENABLE_ADDR, value]);
        self.write_reg(&values)
    }

    /// Puts all three engines in `mode`.
    pub fn set_control_mode(&mut self, mode: ControllerMode) -> (r: Result<(), Error<I2C::Error>>)
        ensures
            final(self).device_address() == old(self).device_address(),
            wrote_once(old(self).log(), final(self).log(), old(self).device_address(), seq![OP_MODE_ADDR, control_value(mode) as u8], r),
    {
        let m = mode.bits();
        let value = m | m << 2 | m << 4;
        assert(value == m * 0b010101) by (bit_vector)
            requires
                m <= 3,
                value == m | m << 2 | m << 4,
        ;
        let values = [OP_MODE_ADDR, value];
        assert(values@ == seq![OP_MODE_ADDR, value]);
        self.write_reg(&values)
    }

    /// Puts all three engines in direct control: the write and the result
    /// of `set_control_mode(ControllerMode::DirectControl)`.
    pub fn set_direct(&mut self) -> (r: Result<(), Error<I2C::Error>>)
        ensures
            final(self).device_address() == old(self).device_address(),
            wrote_once(old(self).log(), final(self).log(), old(self).device_address(), seq![OP_MODE_ADDR, control_value(ControllerMode::DirectControl) as u8], r),
    {
        self.set_control_mode(ControllerMode::DirectControl)
    }

    /// Writes the CONFIG register (power save left off).
    pub fn set_config(
        &mut self,
        pwm_mode: PwmMode,
        cp_mode: ChargepumpMode,
        r_output: ROutputConnection,
        clk: ClkMode,
    ) -> (r: Result<(), Error<I2C::Error>>)
        ensures
            final(self).device_address() == old(self).device_address(),
            wrote_once(old(self).log(), final(self).log(), old(self).device_address(), seq![CONFIG_ADDR, config_value(pwm_mode, cp_mode, r_output, clk) as u8], r),
    {
        let c = clk.bits();
        let o = r_output.bits();
        let p = cp_mode.bits();
        let w = pwm_mode.bits();
        let value: u8 = c | (o << 2) | (p << 3) | (w << 6);
        assert(value == c + 4 * o + 8 * p + 64 * w) by (bit_vector)
            requires
                c <= 2,
                o <= 1,
                p <= 3,
                w <= 1,
                value == c | (o << 2) | (p << 3) | (w << 6),
        ;
        let values = [CONFIG_ADDR, value];
        assert(values@ == seq![CONFIG_ADDR, value]);
        self.write_reg(&values)
    }

    /// Uploads `program` to the program memory of each engine that `led_id`
    /// selects, one write per engine in the order R, G, B, each the engine's
    /// base address followed by the program's words, big-endian.
    ///
    /// A program with an instruction that has no encoding is refused before
    /// anything is written. A failed write ends the upload at once: engines
    /// written before it keep their new program, later ones are not written.
    pub fn upload_program(&mut self, led_id: Channel, program: &[Command]) -> (r: Result<
        (),
        Error<I2C::Error>,
    >)
        requires
            program@.len() * 2 + 1 <= usize::MAX,
        ensures
            final(self).device_address() == old(self).device_address(),
            !all_encodable(program@) ==> r is Err && r->Err_0 is UnsupportedCommand
                && final(self).log() == old(self).log(),
            all_encodable(program@) ==> runs_plan(
                old(self).log(),
                final(self).log(),
                old(self).device_address(),
                upload_writes(led_id, program@),
                r,
            ),
    {
        let mut i: usize = 0;
        while i < program.len()
            invariant
                0 <= i <= program@.len(),
                forall|j: int| 0 <= j < i ==> #[trigger] program@[j].spec_is_encodable(),
            decreases program@.len() - i,
        {
            if !program[i].is_encodable() {
                return Err(Error::UnsupportedCommand);
            }
            i += 1;
        }
        let mut bytes: Vec<u8> = Vec::with_capacity(program.len() * 2 + 1);
        bytes.push(0x00);
        let mut i: usize = 0;
        while i < program.len()
            invariant
                0 <= i <= program@.len(),
                all_encodable(program@),
                bytes@.len() == 2 * i + 1,
                bytes@.subrange(1, bytes@.len() as int) == program_bytes(program@.take(i as int)),
            decreases program@.len() - i,
        {
            let code = program[i].to_code();
            let hi = (code >> 8) as u8;
            let lo = (code & 0xff) as u8;
            assert(hi == (code / 256) as u8 && lo == (code % 256) as u8) by (bit_vector)
                requires
                    hi == (code >> 8) as u8,
                    lo == (code & 0xff) as u8,
            ;
            bytes.push(hi);
            bytes.push(lo);
            proof {
                let t = program@.take(i as int + 1);
                assert(t.drop_last() =~= program@.take(i as int));
                assert(t.last() == program@[i as int]);
                assert(bytes@.subrange(1, bytes@.len() as int) =~= program_bytes(
                    program@.take(i as int),
                ) + word_bytes(code as int));
            }
            i += 1;
        }
        let ghost payload = program_bytes(program@);
        let ghost start = self.log();
        let ghost dev = self.device_address();
        let ghost pr = upload::load_if(led_id.spec_has(Channel::R), upload::R_PROG_ADDR, payload);
        let ghost pg = upload::load_if(led_id.spec_has(Channel::G), upload::G_PROG_ADDR, payload);
        let ghost pb = upload::load_if(led_id.spec_has(Channel::B), upload::B_PROG_ADDR, payload);
        let ghost plan = upload_writes(led_id, program@);
        assert(program@.take(program@.len() as int) =~= program@);
        assert(plan == pr + pg + pb);
        proof {
            lemma_runs_empty(start, dev);
        }
        let ghost mid = self.log();
        if led_id.has(Channel::R) {
            bytes.set(0, upload::R_PROG_ADDR);
            assert(bytes@ =~= upload::load_write(upload::R_PROG_ADDR, payload));
            let w = self.write_reg(bytes.as_slice());
            proof {
                lemma_runs_once(mid, self.log(), dev, bytes@, w);
            }
            if w.is_err() {
                proof {
                    lemma_runs_then(start, mid, self.log(), dev, Seq::empty(), pr, pg + pb, w);
                    assert(Seq::<Seq<u8>>::empty() + pr + (pg + pb) =~= plan);
                }
                return w;
            }
        } else {
            proof {
                lemma_runs_empty(mid, dev);
            }
        }
        proof {
            lemma_runs_then(start, mid, self.log(), dev, Seq::empty(), pr, Seq::empty(), Ok(()));
            assert(Seq::<Seq<u8>>::empty() + pr =~= pr);
        }
        let ghost mid = self.log();
        if led_id.has(Channel::G) {
            bytes.set(0, upload::G_PROG_ADDR);
            assert(bytes@ =~= upload::load_write(upload::G_PROG_ADDR, payload));
            let w = self.write_reg(bytes.as_slice());
            proof {
                lemma_runs_once(mid, self.log(), dev, bytes@, w);
            }
            if w.is_err() {
                proof {
                    lemma_runs_then(start, mid, self.log(), dev, pr, pg, pb, w);
                }
                return w;
            }
        } else {
            proof {
                lemma_runs_empty(mid, dev);
            }
        }
        proof {
            lemma_runs_then(start, mid, self.log(), dev, pr, pg, Seq::empty(), Ok(()));
        }
        let ghost mid = self.log();
        if led_id.has(Channel::B) {
            bytes.set(0, upload::B_PROG_ADDR);
            assert(bytes@ =~= upload::load_write(upload::B_PROG_ADDR, payload));
            let w = self.write_reg(bytes.as_slice());
            proof {
                lemma_runs_once(mid, self.log(), dev, bytes@, w);
                lemma_runs_then(start, mid, self.log(), dev, pr + pg, pb, Seq::empty(), w);
            }
            return w;
        } else {
            proof {
                lemma_runs_empty(mid, dev);
                lemma_runs_then(start, mid, self.log(), dev, pr + pg, pb, Seq::empty(), Ok(()));
            }
        }
        Ok(())
    }
}

} // verus!
