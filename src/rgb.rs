use vstd::prelude::*;

use crate::channel::Channel;
use crate::program::{ramp_spec, wait_spec, Command};
use crate::journal::{lemma_runs_empty, lemma_runs_ok, lemma_runs_once, lemma_runs_stop, lemma_runs_then, runs_plan};
use crate::upload::{all_encodable, upload_writes};
use crate::{
    config_value, control_value, enable_value, BrightnessMode, ControllerMode, Error, Lp5521,
    RegisterWrite, StaticSettings, COLOR_0_ADDR, CONFIG_ADDR, ENABLE_ADDR, OP_MODE_ADDR,
};

verus! {

/// A step of `increment` over `millis` ms; with no step to take, a plain wait
/// over the same span.
pub open spec fn step_spec(millis: u16, increment: i8) -> Command {
    if increment == 0 {
        wait_spec((millis * 1000) as u32)
    } else {
        ramp_spec(millis, increment)
    }
}

/// Up by `level` twice, down by `level` twice, each over `quarter` ms, then loop.
pub open spec fn blink_spec(quarter: u16, level: i8) -> Seq<Command> {
    seq![
        step_spec(quarter, level),
        step_spec(quarter, level),
        step_spec(quarter, (-level) as i8),
        step_spec(quarter, (-level) as i8),
        Command::GoToStart,
    ]
}

/// The step of 50 that is upward at position `rising` and downward elsewhere.
pub open spec fn rainbow_step(i: int, rising: int) -> i8 {
    if i == rising {
        50
    } else {
        -50i8
    }
}

/// Three ramps by 50 over `third` ms each, upward only at position `rising`,
/// then loop.
pub open spec fn rainbow_spec(third: u16, rising: int) -> Seq<Command> {
    seq![
        ramp_spec(third, rainbow_step(0, rising)),
        ramp_spec(third, rainbow_step(1, rising)),
        ramp_spec(third, rainbow_step(2, rising)),
        Command::GoToStart,
    ]
}

/// Output off and engines in load mode, then the three programs uploaded in
/// the order R, G, B.
pub open spec fn load_writes(red: Seq<Command>, green: Seq<Command>, blue: Seq<Command>) -> Seq<Seq<u8>> {
    seq![
        seq![ENABLE_ADDR, enable_value(BrightnessMode::Logarithmic, true, false) as u8],
        seq![OP_MODE_ADDR, control_value(ControllerMode::LoadProgram) as u8],
    ] + upload_writes(Channel::R, red) + upload_writes(Channel::G, green) + upload_writes(
        Channel::B,
        blue,
    )
}

/// The load sequence, then engines running and output on.
pub open spec fn program_run_writes(red: Seq<Command>, green: Seq<Command>, blue: Seq<Command>) -> Seq<
    Seq<u8>,
> {
    load_writes(red, green, blue) + seq![
        seq![OP_MODE_ADDR, control_value(ControllerMode::RunProgram) as u8],
        seq![ENABLE_ADDR, enable_value(BrightnessMode::Logarithmic, true, true) as u8],
    ]
}

proof fn lemma_join(x: Seq<Seq<u8>>, y: Seq<Seq<u8>>, z: Seq<Seq<u8>>)
    ensures
        x + (y + z) == (x + y) + z,
{
    assert(x + (y + z) =~= (x + y) + z);
}

proof fn lemma_regroup(
    a: Seq<Seq<u8>>,
    b: Seq<Seq<u8>>,
    c: Seq<Seq<u8>>,
    d: Seq<Seq<u8>>,
    e: Seq<Seq<u8>>,
)
    ensures
        (((a + b) + c) + d) + e == a + (b + c + d + e),
        (((a + b) + c) + d) + e == (a + b) + (c + d + e),
        (((a + b) + c) + d) + e == ((a + b) + c) + (d + e),
        (((a + b) + c) + d) + e == (((a + b) + c) + d) + e + Seq::<Seq<u8>>::empty(),
{
    assert((((a + b) + c) + d) + e =~= a + (b + c + d + e));
    assert((((a + b) + c) + d) + e =~= (a + b) + (c + d + e));
    assert((((a + b) + c) + d) + e =~= ((a + b) + c) + (d + e));
    assert((((a + b) + c) + d) + e =~= (((a + b) + c) + d) + e + Seq::<Seq<u8>>::empty());
}

proof fn lemma_load_writes_parts(red: Seq<Command>, green: Seq<Command>, blue: Seq<Command>)
    ensures
        ({
            let e0 = seq![ENABLE_ADDR, enable_value(BrightnessMode::Logarithmic, true, false) as u8];
            let l = seq![OP_MODE_ADDR, control_value(ControllerMode::LoadProgram) as u8];
            let ur = upload_writes(Channel::R, red);
            let ug = upload_writes(Channel::G, green);
            let ub = upload_writes(Channel::B, blue);
            let w = load_writes(red, green, blue);
            &&& w == seq![e0] + (seq![l] + ur + ug + ub)
            &&& w == (seq![e0] + seq![l]) + (ur + ug + ub)
            &&& w == ((seq![e0] + seq![l]) + ur) + (ug + ub)
            &&& w == (((seq![e0] + seq![l]) + ur) + ug) + ub
            &&& w == (((seq![e0] + seq![l]) + ur) + ug) + ub + Seq::<Seq<u8>>::empty()
        }),
{
    let e0 = seq![ENABLE_ADDR, enable_value(BrightnessMode::Logarithmic, true, false) as u8];
    let l = seq![OP_MODE_ADDR, control_value(ControllerMode::LoadProgram) as u8];
    assert(seq![e0, l] =~= seq![e0] + seq![l]);
    lemma_regroup(
        seq![e0],
        seq![l],
        upload_writes(Channel::R, red),
        upload_writes(Channel::G, green),
        upload_writes(Channel::B, blue),
    );
}

/// The writes that make the LED blink: red at a quarter of its level, green
/// and blue at half, each phase a quarter of `millis`.
pub open spec fn blink_writes(millis: u16, red: u8, green: u8, blue: u8) -> Seq<Seq<u8>> {
    let q = (millis / 4) as u16;
    program_run_writes(
        blink_spec(q, (red / 4) as i8),
        blink_spec(q, (green / 2) as i8),
        blink_spec(q, (blue / 2) as i8),
    )
}

/// The writes that cycle the LED through the colours, each phase a third of
/// `cycle_time`.
pub open spec fn rainbow_writes(cycle_time: u16) -> Seq<Seq<u8>> {
    let t = (cycle_time / 3) as u16;
    program_run_writes(rainbow_spec(t, 0), rainbow_spec(t, 1), rainbow_spec(t, 2))
}

/// A step of `increment` over `millis` ms, or a plain wait when `increment`
/// is zero.
pub fn step(millis: u16, increment: i8) -> (r: Command)
    ensures
        r == step_spec(millis, increment),
{
    if increment == 0 {
        Command::wait_us(millis as u32 * 1000)
    } else {
        Command::ramp_ms(millis, increment)
    }
}

/// The blink program of one channel.
pub fn blink_program(quarter: u16, level: i8) -> (r: Vec<Command>)
    requires
        level != i8::MIN,
    ensures
        r@ == blink_spec(quarter, level),
{
    let down = -level;
    let r = vec![
        step(quarter, level),
        step(quarter, level),
        step(quarter, down),
        step(quarter, down),
        Command::GoToStart,
    ];
    assert(r@ =~= blink_spec(quarter, level));
    r
}

/// The colour-cycle program of the channel whose ramp rises at position `rising`.
pub fn rainbow_program(third: u16, rising: usize) -> (r: Vec<Command>)
    requires
        rising < 3,
    ensures
        r@ == rainbow_spec(third, rising as int),
{
    let up0: i8 = if rising == 0 {
        50
    } else {
        -50i8
    };
    let up1: i8 = if rising == 1 {
        50
    } else {
        -50i8
    };
    let up2: i8 = if rising == 2 {
        50
    } else {
        -50i8
    };
    let r = vec![
        Command::ramp_ms(third, up0),
        Command::ramp_ms(third, up1),
        Command::ramp_ms(third, up2),
        Command::GoToStart,
    ];
    assert(r@ =~= rainbow_spec(third, rising as int));
    r
}

proof fn lemma_encodable_programs(q: u16, level: i8, t: u16, rising: int)
    ensures
        all_encodable(blink_spec(q, level)),
        all_encodable(rainbow_spec(t, rising)),
{
}

/// An LP5521 driving one RGB LED.
pub struct Lp5521RGB<I2C: RegisterWrite> {
    lp5521: Lp5521<I2C>,
}

impl<I2C: RegisterWrite> Lp5521RGB<I2C> {
    /// The bus address every write goes to.
    pub closed spec fn device_address(&self) -> u8 {
        self.lp5521.device_address()
    }

    /// The write transactions made on the bus, oldest first, each with its
    /// device address and outcome.
    pub closed spec fn log(&self) -> Seq<(u8, Seq<u8>, Result<(), I2C::Error>)> {
        self.lp5521.log()
    }

    /// The driver for the device at `addr`, after one attempt to apply
    /// `settings`; the outcome of that write is kept in the log only.
    pub fn new(i2c: I2C, addr: u8, settings: StaticSettings) -> (r: Self)
        ensures
            r.device_address() == addr,
            r.log().len() == i2c.transactions().len() + 1,
            r.log().drop_last() == i2c.transactions(),
            r.log().last().0 == addr,
            r.log().last().1 == seq![
                CONFIG_ADDR,
                config_value(settings.pwm_mode, settings.cp_mode, settings.r_output_mode, settings.clk_mode) as u8,
            ],
    {
        let mut lp5521 = Lp5521::new(i2c, addr);
        let _ = lp5521.init(settings);
        Lp5521RGB { lp5521 }
    }

    /// The bus the driver writes to.
    pub fn bus(&self) -> &I2C {
        self.lp5521.bus()
    }

    /// Shows a fixed colour: engines in direct control, then the three PWM
    /// values; a failed write ends the call with its error.
    pub fn set_color(&mut self, red: u8, green: u8, blue: u8) -> (r: Result<(), Error<I2C::Error>>)
        ensures
            final(self).device_address() == old(self).device_address(),
            runs_plan(
                old(self).log(),
                final(self).log(),
                old(self).device_address(),
                seq![
                    seq![OP_MODE_ADDR, control_value(ControllerMode::DirectControl) as u8],
                    seq![COLOR_0_ADDR, red, green, blue],
                ],
                r,
            ),
    {
        let ghost s0 = self.log();
        let ghost dev = self.device_address();
        let ghost w0 = seq![OP_MODE_ADDR, control_value(ControllerMode::DirectControl) as u8];
        let ghost w1 = seq![COLOR_0_ADDR, red, green, blue];
        proof {
            lemma_runs_empty(s0, dev);
        }
        let r = self.lp5521.set_direct();
        proof {
            lemma_runs_once(s0, self.log(), dev, w0, r);
            lemma_runs_then(s0, s0, self.log(), dev, Seq::empty(), seq![w0], seq![w1], r);
            assert(Seq::<Seq<u8>>::empty() + seq![w0] =~= seq![w0]);
            assert(seq![w0] + seq![w1] =~= seq![w0, w1]);
        }
        if r.is_err() {
            return r;
        }
        let ghost mid = self.log();
        let r = self.lp5521.set_color_value(red, green, blue);
        proof {
            lemma_runs_once(mid, self.log(), dev, w1, r);
            lemma_runs_then(s0, mid, self.log(), dev, seq![w0], seq![w1], Seq::empty(), r);
        }
        r
    }

    /// Output off, engines in load mode, then one upload per engine in the
    /// order R, G, B; the first failed write ends the sequence with its error.
    fn load_programs(&mut self, red: &[Command], green: &[Command], blue: &[Command]) -> (r: Result<
        (),
        Error<I2C::Error>,
    >)
        requires
            all_encodable(red@),
            all_encodable(green@),
            all_encodable(blue@),
            red@.len() <= 1000,
            green@.len() <= 1000,
            blue@.len() <= 1000,
        ensures
            final(self).device_address() == old(self).device_address(),
            runs_plan(old(self).log(), final(self).log(), old(self).device_address(), load_writes(red@, green@, blue@), r),
    {
        let ghost s0 = self.log();
        let ghost dev = self.device_address();
        let ghost e0 = seq![ENABLE_ADDR, enable_value(BrightnessMode::Logarithmic, true, false) as u8];
        let ghost l = seq![OP_MODE_ADDR, control_value(ControllerMode::LoadProgram) as u8];
        let ghost ur = upload_writes(Channel::R, red@);
        let ghost ug = upload_writes(Channel::G, green@);
        let ghost ub = upload_writes(Channel::B, blue@);
        let ghost d2 = seq![e0] + seq![l];
        let ghost d3 = d2 + ur;
        let ghost d4 = d3 + ug;
        proof {
            lemma_load_writes_parts(red@, green@, blue@);
        }

        let r = self.lp5521.set_enable(BrightnessMode::Logarithmic, true, false);
        proof {
            lemma_runs_once(s0, self.log(), dev, e0, r);
            if r is Err {
                lemma_runs_stop(s0, self.log(), dev, seq![e0], seq![l] + ur + ug + ub, r);
            }
        }
        if r.is_err() {
            return r;
        }
        proof {
            lemma_runs_ok(s0, self.log(), dev, seq![e0], r);
        }

        let ghost mid = self.log();
        let r = self.lp5521.set_control_mode(ControllerMode::LoadProgram);
        proof {
            lemma_runs_once(mid, self.log(), dev, l, r);
            lemma_runs_then(s0, mid, self.log(), dev, seq![e0], seq![l], ur + ug + ub, r);
        }
        if r.is_err() {
            return r;
        }

        let ghost mid = self.log();
        let r = self.lp5521.upload_program(Channel::R, red);
        proof {
            lemma_runs_then(s0, mid, self.log(), dev, d2, ur, ug + ub, r);
        }
        if r.is_err() {
            return r;
        }

        let ghost mid = self.log();
        let r = self.lp5521.upload_program(Channel::G, green);
        proof {
            lemma_runs_then(s0, mid, self.log(), dev, d3, ug, ub, r);
        }
        if r.is_err() {
            return r;
        }

        let ghost mid = self.log();
        let r = self.lp5521.upload_program(Channel::B, blue);
        proof {
            lemma_runs_then(s0, mid, self.log(), dev, d4, ub, Seq::empty(), r);
        }
        r
    }

    /// Loads `red`, `green` and `blue` into the three engines and starts them:
    /// the load sequence, then engines running and output on. The first
    /// failed write ends the sequence with its error.
    fn run_programs(&mut self, red: &[Command], green: &[Command], blue: &[Command]) -> (r: Result<
        (),
        Error<I2C::Error>,
    >)
        requires
            all_encodable(red@),
            all_encodable(green@),
            all_encodable(blue@),
            red@.len() <= 1000,
            green@.len() <= 1000,
            blue@.len() <= 1000,
        ensures
            final(self).device_address() == old(self).device_address(),
            runs_plan(old(self).log(), final(self).log(), old(self).device_address(), program_run_writes(red@, green@, blue@), r),
    {
        let ghost s0 = self.log();
        let ghost dev = self.device_address();
        let ghost lw = load_writes(red@, green@, blue@);
        let ghost run = seq![OP_MODE_ADDR, control_value(ControllerMode::RunProgram) as u8];
        let ghost e1 = seq![ENABLE_ADDR, enable_value(BrightnessMode::Logarithmic, true, true) as u8];
        proof {
            lemma_join(lw, seq![run], seq![e1]);
            assert(seq![run] + seq![e1] =~= seq![run, e1]);
        }
        let r = self.load_programs(red, green, blue);
        proof {
            if r is Err {
                lemma_runs_stop(s0, self.log(), dev, lw, seq![run, e1], r);
            }
        }
        if r.is_err() {
            return r;
        }
        proof {
            lemma_runs_ok(s0, self.log(), dev, lw, r);
        }

        let ghost mid = self.log();
        let r = self.lp5521.set_control_mode(ControllerMode::RunProgram);
        proof {
            lemma_runs_once(mid, self.log(), dev, run, r);
            lemma_runs_then(s0, mid, self.log(), dev, lw, seq![run], seq![e1], r);
        }
        if r.is_err() {
            return r;
        }

        let ghost mid = self.log();
        let r = self.lp5521.set_enable(BrightnessMode::Logarithmic, true, true);
        proof {
            lemma_runs_once(mid, self.log(), dev, e1, r);
            lemma_runs_then(s0, mid, self.log(), dev, lw + seq![run], seq![e1], Seq::empty(), r);
        }
        r
    }

    /// Blinks the LED: each engine ramps up twice and down twice by its level
    /// (a quarter of `red`, half of `green` and of `blue`), each ramp over a
    /// quarter of `millis`, and loops. The first failed write ends the call
    /// with its error.
    pub fn blink_color(&mut self, millis: u16, red: u8, green: u8, blue: u8) -> (r: Result<
        (),
        Error<I2C::Error>,
    >)
        ensures
            final(self).device_address() == old(self).device_address(),
            runs_plan(old(self).log(), final(self).log(), old(self).device_address(), blink_writes(millis, red, green, blue), r),
    {
        let quarter = millis / 4;
        let pr = blink_program(quarter, (red / 4) as i8);
        let pg = blink_program(quarter, (green / 2) as i8);
        let pb = blink_program(quarter, (blue / 2) as i8);
        proof {
            lemma_encodable_programs(quarter, (red / 4) as i8, 0, 0);
            lemma_encodable_programs(quarter, (green / 2) as i8, 0, 0);
            lemma_encodable_programs(quarter, (blue / 2) as i8, 0, 0);
        }
        self.run_programs(pr.as_slice(), pg.as_slice(), pb.as_slice())
    }

    /// Cycles the LED through the colours: each engine ramps by 50 three times
    /// over a third of `cycle_time` each, rising in its own phase (R first,
    /// then G, then B) and falling in the other two, and loops. The first
    /// failed write ends the call with its error.
    pub fn rainbow(&mut self, cycle_time: u16) -> (r: Result<(), Error<I2C::Error>>)
        ensures
            final(self).device_address() == old(self).device_address(),
            runs_plan(old(self).log(), final(self).log(), old(self).device_address(), rainbow_writes(cycle_time), r),
    {
        let third = cycle_time / 3;
        let pr = rainbow_program(third, 0);
        let pg = rainbow_program(third, 1);
        let pb = rainbow_program(third, 2);
        proof {
            lemma_encodable_programs(0, 0, third, 0);
            lemma_encodable_programs(0, 0, third, 1);
            lemma_encodable_programs(0, 0, third, 2);
        }
        self.run_programs(pr.as_slice(), pg.as_slice(), pb.as_slice())
    }
}

} // verus!
