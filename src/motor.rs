use vstd::prelude::*;

use crate::bus::{frames, frames_of, lemma_outcome_ok, BusError, I2cBus, RegWrite};
use crate::driver::{issued, led_off_writes, led_on_writes, Driver, DriverView};

verus! {

/// Largest angle a motor is commanded to, in millidegrees (120 degrees).
pub const MAX_ANGLE: i32 = 120_000;

/// Turn-off count at 0 degrees.
pub const MIN_VALUE: u16 = 0x0074;

/// Turn-off count at `MAX_ANGLE`.
pub const MAX_VALUE: u16 = 0x01A8;

/// The angle actually commanded for a requested `angle`: at most `MAX_ANGLE`.
pub open spec fn commanded_angle(angle: i32) -> i32 {
    if angle > MAX_ANGLE {
        MAX_ANGLE
    } else {
        angle
    }
}

/// The turn-off count for `angle`: the commanded angle mapped linearly from
/// `[0, MAX_ANGLE]` onto `[MIN_VALUE, MAX_VALUE]` and rounded to the nearest
/// count, halves up. `scaled` is `MAX_ANGLE` times the exact count; an angle
/// far enough below zero to give a negative count gives 0.
pub open spec fn duty_of(angle: i32) -> u16 {
    let a = commanded_angle(angle) as int;
    let scaled = a * (MAX_VALUE - MIN_VALUE) + MIN_VALUE * MAX_ANGLE;
    if scaled < 0 {
        0
    } else {
        ((2 * scaled + MAX_ANGLE) / (2 * MAX_ANGLE as int)) as u16
    }
}

/// What commanding `angle` on `channel` sends: turn on at count 0, turn off
/// at the angle's count.
pub open spec fn angle_writes(channel: u8, angle: i32) -> Seq<RegWrite> {
    led_on_writes(channel, 0) + led_off_writes(channel, duty_of(angle))
}

/// A motor: its channel and the last angle it was commanded to.
pub struct MotorView {
    pub port: u8,
    pub angle: i32,
}

/// One call of `set_angle(angle)`, taking the motor from `m0` to `m1` and the
/// driver from `d0` to `d1` with result `r`: the four writes of the angle go
/// out, and the angle is recorded only if none of them failed.
pub open spec fn angle_step(
    m0: MotorView,
    m1: MotorView,
    d0: DriverView,
    d1: DriverView,
    angle: i32,
    r: Result<(), BusError>,
) -> bool {
    &&& issued(d0, d1, angle_writes(m0.port, angle), r)
    &&& m1.port == m0.port
    &&& m1.angle == if r is Ok {
        commanded_angle(angle)
    } else {
        m0.angle
    }
}

/// Any requested angle above `MAX_ANGLE` is commanded as exactly `MAX_ANGLE`.
pub proof fn lemma_clamped(angle: i32)
    requires
        angle > MAX_ANGLE,
    ensures
        commanded_angle(angle) == MAX_ANGLE,
        duty_of(angle) == duty_of(MAX_ANGLE),
{
}

/// The mapping meets the calibration at both ends: 0 degrees gives
/// `MIN_VALUE` and `MAX_ANGLE` gives `MAX_VALUE`.
pub proof fn lemma_duty_endpoints()
    ensures
        duty_of(0) == MIN_VALUE,
        duty_of(MAX_ANGLE) == MAX_VALUE,
{
}

/// For angles from 0 to `MAX_ANGLE` the count is the integer nearest to the
/// exact linear value `MIN_VALUE + angle * (MAX_VALUE - MIN_VALUE) / MAX_ANGLE`,
/// a half rounded up.
pub proof fn lemma_duty_nearest(angle: i32)
    requires
        0 <= angle <= MAX_ANGLE,
    ensures
        ({
            let exact = MIN_VALUE * MAX_ANGLE + angle * (MAX_VALUE - MIN_VALUE);
            &&& 2 * duty_of(angle) * MAX_ANGLE <= 2 * exact + MAX_ANGLE
            &&& 2 * exact + MAX_ANGLE < 2 * (duty_of(angle) + 1) * MAX_ANGLE
        }),
{
    let exact = MIN_VALUE * MAX_ANGLE + angle * (MAX_VALUE - MIN_VALUE);
    let q = (2 * exact + MAX_ANGLE) / (2 * MAX_ANGLE as int);
    assert(0 <= exact <= 50_880_000) by (nonlinear_arith)
        requires
            exact == 13_920_000 + angle * 308,
            0 <= angle <= 120_000,
    ;
    assert(0 <= q <= 424);
    assert(duty_of(angle) == q);
    assert(2 * q * MAX_ANGLE <= 2 * exact + MAX_ANGLE < 2 * (q + 1) * MAX_ANGLE) by (nonlinear_arith)
        requires
            q == (2 * exact + 120_000) / 240_000,
            0 <= exact,
    ;
}

/// Commanding the same angle twice hands the bus the same bytes both times,
/// whatever the first call recorded.
pub proof fn lemma_set_angle_repeatable(
    m0: MotorView,
    m1: MotorView,
    m2: MotorView,
    d0: DriverView,
    d1: DriverView,
    d2: DriverView,
    angle: i32,
    r1: Result<(), BusError>,
    r2: Result<(), BusError>,
)
    requires
        angle_step(m0, m1, d0, d1, angle, r1),
        angle_step(m1, m2, d1, d2, angle, r2),
    ensures
        frames(d1.transcript.skip(d0.transcript.len() as int)) == frames_of(angle_writes(m0.port, angle)),
        frames(d2.transcript.skip(d1.transcript.len() as int)) == frames_of(angle_writes(m0.port, angle)),
{
    assert(frames(d1.transcript.skip(d0.transcript.len() as int)) =~= frames_of(
        angle_writes(m0.port, angle),
    ));
    assert(frames(d2.transcript.skip(d1.transcript.len() as int)) =~= frames_of(
        angle_writes(m0.port, angle),
    ));
}

/// If the bus reports a failure on any write of `set_angle`, the call fails
/// and the recorded angle stays what it was.
pub proof fn lemma_failed_write_keeps_angle(
    m0: MotorView,
    m1: MotorView,
    d0: DriverView,
    d1: DriverView,
    angle: i32,
    r: Result<(), BusError>,
    i: int,
)
    requires
        angle_step(m0, m1, d0, d1, angle, r),
        d0.transcript.len() <= i < d1.transcript.len(),
        d1.transcript[i].3 is Err,
    ensures
        r is Err,
        m1.angle == m0.angle,
{
    let added = d1.transcript.skip(d0.transcript.len() as int);
    if r is Ok {
        lemma_outcome_ok(added, i - d0.transcript.len());
    }
}

/// One servo motor on one channel of the controller.
pub struct Motor {
    port: u8,
    angle: i32,
}

impl View for Motor {
    type V = MotorView;

    closed spec fn view(&self) -> MotorView {
        MotorView { port: self.port, angle: self.angle }
    }
}

impl Motor {
    /// A motor on channel `port` whose angle is taken to be `angle`
    /// millidegrees; nothing is sent to the chip.
    pub fn new(port: u8, angle: i32) -> (r: Motor)
        ensures
            r@ == (MotorView { port, angle }),
    {
        Motor { port, angle }
    }

    pub fn port(&self) -> (r: u8)
        ensures
            r == self@.port,
    {
        self.port
    }

    /// The last angle commanded successfully, in millidegrees.
    pub fn angle(&self) -> (r: i32)
        ensures
            r == self@.angle,
    {
        self.angle
    }

    /// Caps a requested angle at `MAX_ANGLE`.
    pub fn clamp_angle(angle: i32) -> (r: i32)
        ensures
            r == commanded_angle(angle),
            angle > MAX_ANGLE ==> r == MAX_ANGLE,
            angle <= MAX_ANGLE ==> r == angle,
    {
        if angle > MAX_ANGLE {
            MAX_ANGLE
        } else {
            angle
        }
    }

    /// The turn-off count that positions a motor at `angle` millidegrees.
    pub fn off_value(angle: i32) -> (r: u16)
        ensures
            r == duty_of(angle),
            r <= MAX_VALUE,
    {
        let a: i64 = Self::clamp_angle(angle) as i64;
        proof {
            assert(-0x8000_0000 <= a <= MAX_ANGLE);
            assert(-0x8000_0000 * 308 <= a * 308 <= MAX_ANGLE * 308) by (nonlinear_arith)
                requires
                    -0x8000_0000 <= a <= MAX_ANGLE,
            ;
            assert(MIN_VALUE as int * MAX_ANGLE as int == 13_920_000);
        }
        let scaled: i64 = a * (MAX_VALUE - MIN_VALUE) as i64 + MIN_VALUE as i64 * MAX_ANGLE as i64;
        if scaled < 0 {
            0
        } else {
            let r: i64 = (2 * scaled + MAX_ANGLE as i64) / (2 * MAX_ANGLE as i64);
            proof {
                assert(r <= 424) by (nonlinear_arith)
                    requires
                        r == (2 * scaled + 120_000) / 240_000,
                        0 <= scaled <= 50_880_000,
                ;
            }
            r as u16
        }
    }

    /// Moves the motor to `angle` millidegrees, capped at `MAX_ANGLE`: sets
    /// the channel's turn-on count to 0 and its turn-off count to the angle's
    /// count. All four writes are sent; the first failure is returned, and
    /// the recorded angle changes only if none failed.
    pub fn set_angle<B: I2cBus>(&mut self, angle: i32, driver: &mut Driver<B>) -> (r: Result<
        (),
        BusError,
    >)
        ensures
            angle_step(old(self)@, final(self)@, old(driver)@, final(driver)@, angle, r),
    {
        let a = Self::clamp_angle(angle);
        let off = Self::off_value(angle);
        let ghost d0 = driver@;
        let r1 = driver.write_led_on_register(self.port, 0);
        let ghost d1 = driver@;
        let r2 = driver.write_led_off_register(self.port, off);
        proof {
            crate::driver::lemma_issued_then(
                d0,
                d1,
                driver@,
                led_on_writes(self.port, 0),
                led_off_writes(self.port, off),
                r1,
                r2,
            );
        }
        let r = if r1.is_err() {
            r1
        } else {
            r2
        };
        if r.is_ok() {
            self.angle = a;
        }
        r
    }
}

} // verus!
