use vstd::prelude::*;

use crate::bus::{carries, frame, lemma_outcome_append, outcome, BusCall, BusError, I2cBus, RegWrite};

verus! {

/// Mode register; writing `MODE_SLEEP` enters sleep (configuration) mode and
/// `MODE_NORMAL` resumes normal operation.
pub const MODE_REGISTER: u8 = 0x00;

pub const MODE_SLEEP: u8 = 0x11;

pub const MODE_NORMAL: u8 = 0x01;

/// PWM frequency prescaler; only writable in sleep mode.
pub const PRESCALE_REGISTER: u8 = 0xFE;

/// Offsets of a channel's four edge registers from `4 * channel`.
pub const LED_ON_LOW: u8 = 0x06;

pub const LED_ON_HIGH: u8 = 0x07;

pub const LED_OFF_LOW: u8 = 0x08;

pub const LED_OFF_HIGH: u8 = 0x09;

/// Address of the register at `offset` in the block of `channel`. Channels
/// beyond 15 are not checked: their address wraps within the byte.
pub open spec fn channel_register(channel: u8, offset: u8) -> u8 {
    ((4 * channel + offset) % 256) as u8
}

/// Low byte of a 12-bit edge count.
pub open spec fn low_byte(value: u16) -> u8 {
    (value & 0xFF) as u8
}

/// High nibble of a 12-bit edge count; the bits above bit 11 are dropped.
pub open spec fn high_nibble(value: u16) -> u8 {
    ((value >> 8u16) & 0x0F) as u8
}

/// The two writes that set a channel's turn-on count.
pub open spec fn led_on_writes(channel: u8, value: u16) -> Seq<RegWrite> {
    seq![
        RegWrite { register: channel_register(channel, LED_ON_LOW), value: low_byte(value) },
        RegWrite { register: channel_register(channel, LED_ON_HIGH), value: high_nibble(value) },
    ]
}

/// The two writes that set a channel's turn-off count.
pub open spec fn led_off_writes(channel: u8, value: u16) -> Seq<RegWrite> {
    seq![
        RegWrite { register: channel_register(channel, LED_OFF_LOW), value: low_byte(value) },
        RegWrite { register: channel_register(channel, LED_OFF_HIGH), value: high_nibble(value) },
    ]
}

/// The mode sequence that changes the prescaler: sleep, prescale, wake.
pub open spec fn prescale_writes(prescale: u8) -> Seq<RegWrite> {
    seq![
        RegWrite { register: MODE_REGISTER, value: MODE_SLEEP },
        RegWrite { register: PRESCALE_REGISTER, value: prescale },
        RegWrite { register: MODE_REGISTER, value: MODE_NORMAL },
    ]
}

/// What a driver is: its device address, its default timeout, and every
/// call its bus has received.
pub struct DriverView {
    pub address: u8,
    pub default_timeout: u32,
    pub transcript: Seq<BusCall>,
}

/// Going from `before` to `after`, the bus was handed the writes `ws` in
/// order, each to the driver's address with the default timeout, and nothing
/// else; `r` is the first failure among them.
pub open spec fn issued(
    before: DriverView,
    after: DriverView,
    ws: Seq<RegWrite>,
    r: Result<(), BusError>,
) -> bool {
    let n = before.transcript.len() as int;
    let added = after.transcript.skip(n);
    &&& after.address == before.address
    &&& after.default_timeout == before.default_timeout
    &&& after.transcript.len() >= n
    &&& after.transcript.take(n) == before.transcript
    &&& carries(added, before.address, before.default_timeout, ws)
    &&& r == outcome(added)
}

/// For channels 0 to 15, setting the turn-on count to 0 writes 0 to
/// registers `4c + 6` and `4c + 7`.
pub proof fn lemma_led_on_zero(channel: u8)
    requires
        channel < 16,
    ensures
        led_on_writes(channel, 0) == seq![
            RegWrite { register: (4 * channel + 6) as u8, value: 0 },
            RegWrite { register: (4 * channel + 7) as u8, value: 0 },
        ],
{
    assert(low_byte(0) == 0 && high_nibble(0) == 0) by (bit_vector);
    assert(led_on_writes(channel, 0) =~= seq![
        RegWrite { register: (4 * channel + 6) as u8, value: 0 },
        RegWrite { register: (4 * channel + 7) as u8, value: 0 },
    ]);
}

/// For channels 0 to 15, setting the turn-off count to `v` writes
/// `v & 0xFF` to register `4c + 8` and `(v >> 8) & 0x0F` to `4c + 9`.
pub proof fn lemma_led_off(channel: u8, v: u16)
    requires
        channel < 16,
    ensures
        led_off_writes(channel, v) == seq![
            RegWrite { register: (4 * channel + 8) as u8, value: (v & 0xFF) as u8 },
            RegWrite { register: (4 * channel + 9) as u8, value: ((v >> 8u16) & 0x0F) as u8 },
        ],
{
    assert(led_off_writes(channel, v) =~= seq![
        RegWrite { register: (4 * channel + 8) as u8, value: (v & 0xFF) as u8 },
        RegWrite { register: (4 * channel + 9) as u8, value: ((v >> 8u16) & 0x0F) as u8 },
    ]);
}

/// Two operations in a row send the writes of the first, then those of the
/// second, and fail with the first failure among them.
pub proof fn lemma_issued_then(
    d0: DriverView,
    d1: DriverView,
    d2: DriverView,
    w1: Seq<RegWrite>,
    w2: Seq<RegWrite>,
    r1: Result<(), BusError>,
    r2: Result<(), BusError>,
)
    requires
        issued(d0, d1, w1, r1),
        issued(d1, d2, w2, r2),
    ensures
        issued(d0, d2, w1 + w2, if r1 is Err { r1 } else { r2 }),
{
    let n0 = d0.transcript.len() as int;
    let n1 = d1.transcript.len() as int;
    let a = d1.transcript.skip(n0);
    let b = d2.transcript.skip(n1);
    assert(d2.transcript.take(n1) == d1.transcript);
    assert(d2.transcript.take(n0) =~= d0.transcript);
    assert(d2.transcript.skip(n0) =~= a + b);
    lemma_outcome_append(a, b);
    let ws = w1 + w2;
    let added = d2.transcript.skip(n0);
    assert forall|i: int| 0 <= i < ws.len() implies {
        &&& (#[trigger] added[i]).0 == d0.address
        &&& added[i].1 == frame(ws[i])
        &&& added[i].2 == d0.default_timeout
    } by {
        if i < w1.len() {
            assert(added[i] == a[i]);
        } else {
            assert(added[i] == b[i - w1.len()]);
        }
    }
}

fn register_of(channel: u8, offset: u8) -> (r: u8)
    ensures
        r == channel_register(channel, offset),
{
    ((4 * channel as u32 + offset as u32) % 256) as u8
}

/// The low-byte and high-nibble writes of `value` to the registers at
/// `low` and `high` in the block of `channel`.
fn edge_writes(channel: u8, low: u8, high: u8, value: u16) -> (r: Vec<RegWrite>)
    ensures
        r@ == seq![
            RegWrite { register: channel_register(channel, low), value: low_byte(value) },
            RegWrite { register: channel_register(channel, high), value: high_nibble(value) },
        ],
{
    let r = vec![
        RegWrite { register: register_of(channel, low), value: (value & 0xFF) as u8 },
        RegWrite { register: register_of(channel, high), value: ((value >> 8u16) & 0x0F) as u8 },
    ];
    proof {
        assert(r@ =~= seq![
            RegWrite { register: channel_register(channel, low), value: low_byte(value) },
            RegWrite { register: channel_register(channel, high), value: high_nibble(value) },
        ]);
    }
    r
}

/// A driver for one controller chip on a bus that it owns alone.
pub struct Driver<B: I2cBus> {
    bus: B,
    device_address: u8,
    default_timeout: u32,
}

impl<B: I2cBus> View for Driver<B> {
    type V = DriverView;

    open spec fn view(&self) -> DriverView {
        DriverView {
            address: self.spec_address(),
            default_timeout: self.spec_default_timeout(),
            transcript: self.spec_bus().handed(),
        }
    }
}

impl<B: I2cBus> Driver<B> {
    /// The bus the driver owns.
    pub closed spec fn spec_bus(&self) -> B {
        self.bus
    }

    pub closed spec fn spec_address(&self) -> u8 {
        self.device_address
    }

    pub closed spec fn spec_default_timeout(&self) -> u32 {
        self.default_timeout
    }

    /// A driver for the chip at `device_address` on `bus`, waiting
    /// `default_timeout` ticks per transfer unless told otherwise.
    pub fn new(bus: B, device_address: u8, default_timeout: u32) -> (r: Self)
        ensures
            r@.address == device_address,
            r@.default_timeout == default_timeout,
            r.spec_bus() == bus,
    {
        Driver { bus, device_address, default_timeout }
    }

    pub fn device_address(&self) -> (r: u8)
        ensures
            r == self@.address,
    {
        self.device_address
    }

    pub fn default_timeout(&self) -> (r: u32)
        ensures
            r == self@.default_timeout,
    {
        self.default_timeout
    }

    /// The bus, for inspection.
    pub fn bus(&self) -> (r: &B)
        ensures
            *r == self.spec_bus(),
    {
        &self.bus
    }

    /// Writes `value` to `register` in one transfer, waiting `timeout` ticks,
    /// or the default timeout if none is given. A failure of the bus is
    /// returned.
    pub fn write_register(&mut self, register: u8, value: u8, timeout: Option<u32>) -> (r: Result<
        (),
        BusError,
    >)
        ensures
            final(self)@.address == old(self)@.address,
            final(self)@.default_timeout == old(self)@.default_timeout,
            final(self).spec_bus().handed() == old(self).spec_bus().handed().push(
                (
                    old(self)@.address,
                    seq![register, value],
                    timeout.unwrap_or(old(self)@.default_timeout),
                    r,
                ),
            ),
    {
        let wait = timeout.unwrap_or(self.default_timeout);
        let bytes: [u8; 2] = [register, value];
        assert(bytes@ =~= seq![register, value]);
        self.bus.write(self.device_address, bytes.as_slice(), wait)
    }

    /// Sets the turn-on count of `channel` to the 12-bit `value`: its low
    /// byte goes to register `4 * channel + 0x06` and its high nibble to
    /// `4 * channel + 0x07`. Both writes are sent; the first failure is
    /// returned.
    pub fn write_led_on_register(&mut self, channel: u8, value: u16) -> (r: Result<(), BusError>)
        ensures
            issued(old(self)@, final(self)@, led_on_writes(channel, value), r),
    {
        let ws = edge_writes(channel, LED_ON_LOW, LED_ON_HIGH, value);
        proof {
            assert(ws@ =~= led_on_writes(channel, value));
        }
        self.send_all(&ws)
    }

    /// Sets the turn-off count of `channel` to the 12-bit `value`: its low
    /// byte goes to register `4 * channel + 0x08` and its high nibble to
    /// `4 * channel + 0x09`. Both writes are sent; the first failure is
    /// returned.
    pub fn write_led_off_register(&mut self, channel: u8, value: u16) -> (r: Result<(), BusError>)
        ensures
            issued(old(self)@, final(self)@, led_off_writes(channel, value), r),
    {
        let ws = edge_writes(channel, LED_OFF_LOW, LED_OFF_HIGH, value);
        proof {
            assert(ws@ =~= led_off_writes(channel, value));
        }
        self.send_all(&ws)
    }

    /// Changes the PWM prescaler: puts the chip to sleep, writes `prescale`,
    /// and wakes it, in that order. All three writes are sent; the first
    /// failure is returned.
    pub fn write_prescale_value(&mut self, prescale: u8) -> (r: Result<(), BusError>)
        ensures
            issued(old(self)@, final(self)@, prescale_writes(prescale), r),
    {
        let ws = vec![
            RegWrite { register: MODE_REGISTER, value: MODE_SLEEP },
            RegWrite { register: PRESCALE_REGISTER, value: prescale },
            RegWrite { register: MODE_REGISTER, value: MODE_NORMAL },
        ];
        proof {
            assert(ws@ =~= prescale_writes(prescale));
        }
        self.send_all(&ws)
    }

    /// Sends one register write with the default timeout.
    fn send(&mut self, w: RegWrite) -> (r: Result<(), BusError>)
        ensures
            issued(old(self)@, final(self)@, seq![w], r),
    {
        let r = self.write_register(w.register, w.value, None);
        proof {
            let n = old(self)@.transcript.len() as int;
            let added = self@.transcript.skip(n);
            assert(self@.transcript.take(n) =~= old(self)@.transcript);
            assert(added.len() == 1 && added[0].3 == r);
            assert(added.drop_first() =~= Seq::<BusCall>::empty());
            assert(outcome(added.drop_first()) == Ok::<(), BusError>(()));
            match r {
                Ok(u) => {
                    assert(u == ());
                },
                Err(_) => {},
            }
            assert(outcome(added) == r);
            assert(seq![w][0] == w);
            assert(carries(added, old(self)@.address, old(self)@.default_timeout, seq![w]));
        }
        r
    }

    /// Sends `ws` in order, all of them whatever fails, and returns the first
    /// failure.
    fn send_all(&mut self, ws: &Vec<RegWrite>) -> (r: Result<(), BusError>)
        ensures
            issued(old(self)@, final(self)@, ws@, r),
    {
        let mut r: Result<(), BusError> = Ok(());
        let mut i: usize = 0;
        proof {
            assert(self@.transcript.skip(self@.transcript.len() as int) =~= Seq::<BusCall>::empty());
            assert(self@.transcript.take(self@.transcript.len() as int) =~= self@.transcript);
            assert(ws@.take(0) =~= Seq::<RegWrite>::empty());
        }
        while i < ws.len()
            invariant
                i <= ws.len(),
                issued(old(self)@, self@, ws@.take(i as int), r),
            decreases ws.len() - i,
        {
            let ghost before = self@;
            let ri = self.send(ws[i]);
            proof {
                lemma_issued_then(old(self)@, before, self@, ws@.take(i as int), seq![ws@[i as int]], r, ri);
                assert(ws@.take(i as int) + seq![ws@[i as int]] =~= ws@.take(i + 1));
            }
            if r.is_ok() {
                r = ri;
            }
            i = i + 1;
        }
        proof {
            assert(ws@.take(ws.len() as int) =~= ws@);
        }
        r
    }
}

} // verus!
