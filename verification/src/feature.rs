//! Feature operations: fans, LEDs, power, temperature, EuP and USB.
//!
//! Each operation translates a domain request (a fan id, a colour, a
//! mode) into register addresses and bit formulas, then issues the
//! register transactions under the resource lock. The pure translation
//! functions carry exact contracts; the operations pin the frames they
//! emit and how their results derive from the bytes the EC returned.

use vstd::prelude::*;

use crate::device::{get_frame, set_frame, Controller, Device};
use crate::lock::Semaphore;
use crate::platform::Platform;
use crate::port::{data_reads, emits, log_delta, Op, PortPair};
use crate::types::{LedColor, PowerRecoveryMode, ShutdownMode, SwitchState};
use crate::Error;

verus! {

/// The status register observed for a fan id, if the id is legal.
pub open spec fn fan_status_reg_spec(fan_id: u8) -> Option<u16> {
    if fan_id <= 4 {
        Some(0x242)
    } else if fan_id == 6 || fan_id == 7 {
        Some(0x244)
    } else if 0x14 <= fan_id && fan_id <= 0x19 {
        Some(0x259)
    } else if 0x1e <= fan_id && fan_id <= 0x23 {
        Some(0x25a)
    } else {
        None
    }
}

/// Which bit of the status register speaks for a fan id.
pub open spec fn fan_status_bit_spec(fan_id: u8) -> u8 {
    if fan_id <= 4 {
        fan_id
    } else if fan_id == 6 || fan_id == 7 {
        (fan_id - 6) as u8
    } else if 0x14 <= fan_id && fan_id <= 0x19 {
        (fan_id - 0x14) as u8
    } else {
        (fan_id - 0x1e) as u8
    }
}

/// The status register for a fan id, or `InvalidValue` for an unknown
/// id.
pub fn fan_status_reg(fan_id: u8) -> (r: Result<u16, Error>)
    ensures
        match fan_status_reg_spec(fan_id) {
            Some(c) => r == Ok::<u16, Error>(c),
            None => r == Err::<u16, Error>(Error::InvalidValue),
        },
{
    if fan_id <= 4 {
        Ok(0x242)
    } else if fan_id == 6 || fan_id == 7 {
        Ok(0x244)
    } else if 0x14 <= fan_id && fan_id <= 0x19 {
        Ok(0x259)
    } else if 0x1e <= fan_id && fan_id <= 0x23 {
        Ok(0x25a)
    } else {
        Err(Error::InvalidValue)
    }
}

/// The bit of the status register that speaks for a legal fan id.
pub fn fan_status_bit(fan_id: u8) -> (r: u8)
    requires
        fan_status_reg_spec(fan_id) is Some,
    ensures
        r == fan_status_bit_spec(fan_id),
        r <= 7,
{
    if fan_id <= 4 {
        fan_id
    } else if fan_id == 6 || fan_id == 7 {
        fan_id - 6
    } else if fan_id >= 0x14 && fan_id <= 0x19 {
        fan_id - 0x14
    } else {
        fan_id - 0x1e
    }
}

/// The two registers a fan speed is read from, if the id is legal: the
/// high byte's register and the low byte's register.
pub open spec fn fan_speed_regs_spec(fan_id: u8) -> Option<(u16, u16)> {
    if fan_id <= 4 {
        Some((((fan_id + 0x312) * 2) as u16, (fan_id * 2 + 0x625) as u16))
    } else if fan_id == 6 || fan_id == 7 {
        Some((0x223, 0x24b))
    } else if 0x14 <= fan_id && fan_id <= 0x19 {
        Some((((fan_id + 0x30a) * 2) as u16, ((fan_id - 6) * 2 + 0x621) as u16))
    } else if fan_id == 10 {
        Some((0x65b, 0x65a))
    } else if fan_id == 0xb {
        Some((0x65e, 0x65d))
    } else if 0x1e <= fan_id && fan_id <= 0x23 {
        Some((((fan_id + 0x2f8) * 2) as u16, ((fan_id - 0x1e) * 23 + 0x62d) as u16))
    } else {
        None
    }
}

/// The two registers a fan speed is read from, or `InvalidValue`.
pub fn fan_speed_regs(fan_id: u8) -> (r: Result<(u16, u16), Error>)
    ensures
        match fan_speed_regs_spec(fan_id) {
            Some(c) => r == Ok::<(u16, u16), Error>(c),
            None => r == Err::<(u16, u16), Error>(Error::InvalidValue),
        },
{
    let id = fan_id as u16;
    if fan_id <= 4 {
        Ok(((id + 0x312) * 2, id * 2 + 0x625))
    } else if fan_id == 6 || fan_id == 7 {
        Ok((0x223, 0x24b))
    } else if fan_id >= 0x14 && fan_id <= 0x19 {
        Ok(((id + 0x30a) * 2, (id - 6) * 2 + 0x621))
    } else if fan_id == 10 {
        Ok((0x65b, 0x65a))
    } else if fan_id == 0xb {
        Ok((0x65e, 0x65d))
    } else if fan_id >= 0x1e && fan_id <= 0x23 {
        Ok(((id + 0x2f8) * 2, (id - 0x1e) * 23 + 0x62d))
    } else {
        Err(Error::InvalidValue)
    }
}

/// The mode and duty registers a fan's speed is set through, if the id
/// is legal.
pub open spec fn fan_pwm_regs_spec(fan_id: u8) -> Option<(u16, u16)> {
    if fan_id <= 4 {
        Some((0x220, 0x22e))
    } else if fan_id == 6 || fan_id == 7 {
        Some((0x223, 0x24b))
    } else if 0x14 <= fan_id && fan_id <= 0x19 {
        Some((0x221, 0x22f))
    } else if 0x1e <= fan_id && fan_id <= 0x23 {
        Some((0x222, 0x23b))
    } else {
        None
    }
}

/// The mode and duty registers a fan's speed is set through, or
/// `InvalidValue`.
pub fn fan_pwm_regs(fan_id: u8) -> (r: Result<(u16, u16), Error>)
    ensures
        match fan_pwm_regs_spec(fan_id) {
            Some(c) => r == Ok::<(u16, u16), Error>(c),
            None => r == Err::<(u16, u16), Error>(Error::InvalidValue),
        },
{
    if fan_id <= 4 {
        Ok((0x220, 0x22e))
    } else if fan_id == 6 || fan_id == 7 {
        Ok((0x223, 0x24b))
    } else if fan_id >= 0x14 && fan_id <= 0x19 {
        Ok((0x221, 0x22f))
    } else if fan_id >= 0x1e && fan_id <= 0x23 {
        Ok((0x222, 0x23b))
    } else {
        Err(Error::InvalidValue)
    }
}

/// The register a fan's control slope is set through, if the id is
/// legal and the fan is not a power fan.
pub open spec fn fan_slope_reg_spec(fan_id: u8) -> Option<u16> {
    if fan_id <= 4 {
        Some(0x296)
    } else if fan_id == 6 || fan_id == 7 {
        Some(0x295)
    } else {
        None
    }
}

/// The register a fan's control slope is set through; power fans and
/// unknown ids are `InvalidValue`.
pub fn fan_slope_reg(fan_id: u8) -> (r: Result<u16, Error>)
    ensures
        match fan_slope_reg_spec(fan_id) {
            Some(c) => r == Ok::<u16, Error>(c),
            None => r == Err::<u16, Error>(Error::InvalidValue),
        },
{
    if fan_id <= 4 {
        Ok(0x296)
    } else if fan_id == 6 || fan_id == 7 {
        Ok(0x295)
    } else {
        Err(Error::InvalidValue)
    }
}

/// A 0-255 duty request scaled to the EC's 0-100 range.
pub open spec fn pwm_scale_spec(speed: u8) -> u8 {
    ((speed * 0x64) / 0xff) as u8
}

/// Scale a 0-255 duty request to the EC's 0-100 range.
pub fn pwm_scale(speed: u8) -> (r: u8)
    ensures
        r == pwm_scale_spec(speed),
        r <= 100,
{
    let w = ((speed as u16) * 0x64) / 0xff;
    w as u8
}

/// The EC's 0-100 duty value scaled back to 0-255, truncated to the
/// one byte the wire carries.
pub open spec fn pwm_unscale_spec(value: u8) -> u8 {
    (((value * 0x100 - value) / 100) % 0x100) as u8
}

/// Scale the EC's 0-100 duty value back to 0-255.
pub fn pwm_unscale(value: u8) -> (r: u8)
    ensures
        r == pwm_unscale_spec(value),
{
    let w: u32 = ((value as u32) * 0x100 - (value as u32)) / 100;
    (w % 0x100) as u8
}

/// The register value a steady status-LED request encodes to, if the
/// combination is legal.
pub open spec fn status_led_value_spec(color: LedColor, enable: bool) -> Option<u8> {
    if !enable {
        Some(0)
    } else if color is Green {
        Some(2)
    } else if color is Red {
        Some(1)
    } else {
        None
    }
}

/// Encode a steady status-LED request, or `InvalidValue` for an
/// impossible combination.
pub fn status_led_value(color: LedColor, enable: bool) -> (r: Result<u8, Error>)
    ensures
        match status_led_value_spec(color, enable) {
            Some(v) => r == Ok::<u8, Error>(v),
            None => r == Err::<u8, Error>(Error::InvalidValue),
        },
{
    match (color, enable) {
        (LedColor::Green, true) => Ok(2),
        (LedColor::Red, true) => Ok(1),
        (_, true) => Err(Error::InvalidValue),
        (_, false) => Ok(0),
    }
}

/// The register value a blinking status-LED request encodes to.
pub open spec fn blink_led_value_spec(color: LedColor, enable: bool) -> u8 {
    if !enable {
        0
    } else if color is Green {
        4
    } else if color is Red {
        3
    } else {
        5
    }
}

/// Encode a blinking status-LED request.
pub fn blink_led_value(color: LedColor, enable: bool) -> (r: u8)
    ensures
        r == blink_led_value_spec(color, enable),
{
    match (color, enable) {
        (LedColor::Green, true) => 4,
        (LedColor::Red, true) => 3,
        (LedColor::Auto, true) => 5,
        (_, false) => 0,
    }
}

/// The register value a fan-LED request encodes to: the colour's raw
/// encoding, with the high bit forcing it unless the colour is `Auto`.
pub open spec fn fan_led_value_spec(color: LedColor) -> u8 {
    if color is Auto {
        color.raw_spec()
    } else {
        color.raw_spec() | 0x80
    }
}

/// The register a temperature sensor is read from, if the id is legal.
pub open spec fn temp_sensor_reg_spec(sensor_id: u8) -> Option<u16> {
    if sensor_id <= 1 {
        Some((sensor_id + 0x600) as u16)
    } else if 5 <= sensor_id && sensor_id <= 7 {
        Some((sensor_id + 0x5fd) as u16)
    } else if sensor_id == 10 {
        Some(0x659)
    } else if sensor_id == 0xb {
        Some(0x65c)
    } else if 0xf <= sensor_id && sensor_id <= 0x26 {
        Some((sensor_id + 0x5f7) as u16)
    } else {
        None
    }
}

/// The register a temperature sensor is read from, or `InvalidValue`.
pub fn temp_sensor_reg(sensor_id: u8) -> (r: Result<u16, Error>)
    ensures
        match temp_sensor_reg_spec(sensor_id) {
            Some(c) => r == Ok::<u16, Error>(c),
            None => r == Err::<u16, Error>(Error::InvalidValue),
        },
{
    let id = sensor_id as u16;
    if sensor_id <= 1 {
        Ok(id + 0x600)
    } else if sensor_id >= 5 && sensor_id <= 7 {
        Ok(id + 0x5fd)
    } else if sensor_id == 10 {
        Ok(0x659)
    } else if sensor_id == 0xb {
        Ok(0x65c)
    } else if sensor_id >= 0xf && sensor_id <= 0x26 {
        Ok(id + 0x5f7)
    } else {
        Err(Error::InvalidValue)
    }
}

/// The RTC wake register value with its enable bit raised, written
/// before a reboot when the RTC is not usable.
pub open spec fn rtc_fix_spec(v: u8) -> u8 {
    v | 1
}

/// The frames of the firmware-version probe: one register read for
/// each of the first `n` bytes starting at the version base register.
pub open spec fn version_frames(n: int) -> Seq<Op>
    decreases n,
{
    if n <= 0 {
        Seq::<Op>::empty()
    } else {
        version_frames(n - 1) + get_frame((0x308 + n - 1) as u16)
    }
}

/// The brightness-transfer control byte with the hold bit raised.
pub open spec fn led_pwm_hold_spec(t: u8) -> u8 {
    t | 0x10
}

/// The brightness-transfer control byte with the hold bit lowered.
pub open spec fn led_pwm_release_spec(t: u8) -> u8 {
    t & 0xef
}

/// The BBU LED register value derived from its current value and the
/// colour and enable arguments.
pub open spec fn bbu_value_spec(v: u8, arg1: u8, enable: u8) -> u8 {
    if arg1 == 0 && enable != 0 {
        (v | 3) & 0xfe
    } else if arg1 == 1 && enable != 0 {
        (v | 3) & 0xfd
    } else if arg1 == 2 && enable != 0 {
        v & 0xfc
    } else {
        v | 3
    }
}

/// The EuP state register value after a request: bit 3 follows the
/// requested switch state, the other bits keep their current value.
pub open spec fn eup_apply_spec(cur: u8, state: SwitchState) -> u8 {
    (cur & 0xf7) | (if state is On {
        8
    } else {
        0
    })
}

/// The calibration control byte derived from its current value and the
/// two calibration arguments.
pub open spec fn calibrate_ctrl_spec(value: u8, arg1: bool, arg2: u32) -> u8 {
    if !arg1 && arg2 == 0 {
        value & 0xfe
    } else if !arg1 {
        value | 1
    } else if arg2 == 0 {
        value & 0xfd
    } else {
        value | 2
    }
}

/// The register the sensor id of a calibration request goes to.
pub open spec fn calibrate_target_reg_spec(arg1: bool) -> u16 {
    if arg1 {
        0x27f
    } else {
        0x27d
    }
}

/// The outcome of one register write issued under the lock: on success
/// exactly the write frame went out and at most one stale byte was
/// flushed. `inf` says the underlying port operations cannot fail; the
/// only errors then are a busy lock, which touches the bus not at all,
/// or a handshake timeout.
pub open spec fn set_op_outcome(
    pre: Seq<Op>,
    post: Seq<Op>,
    r: Result<(), Error>,
    reg: u16,
    val: u8,
    inf: bool,
) -> bool {
    &&& pre.is_prefix_of(post)
    &&& ({
        let delta = log_delta(pre, post);
        match r {
            Ok(()) => {
                &&& emits(delta) == set_frame(reg, val)
                &&& data_reads(delta).len() <= 1
            },
            Err(e) => {
                &&& emits(delta).is_prefix_of(set_frame(reg, val))
                &&& (inf ==> (e == Error::Lock && delta == Seq::<Op>::empty()) || e
                    == Error::Timeout)
            },
        }
    })
}

/// The outcome of one register read issued under the lock: on success
/// exactly the read frame went out and the returned byte is the one the
/// EC supplied at the end.
pub open spec fn get_op_outcome(
    pre: Seq<Op>,
    post: Seq<Op>,
    r: Result<u8, Error>,
    reg: u16,
    inf: bool,
) -> bool {
    &&& pre.is_prefix_of(post)
    &&& ({
        let delta = log_delta(pre, post);
        match r {
            Ok(b) => {
                &&& emits(delta) == get_frame(reg)
                &&& delta.len() >= 1
                &&& delta.last() == Op::read_data(b)
            },
            Err(e) => {
                &&& emits(delta).is_prefix_of(get_frame(reg))
                &&& (inf ==> (e == Error::Lock && delta == Seq::<Op>::empty()) || e
                    == Error::Timeout)
            },
        }
    })
}

/// What every feature operation needs from its platform: the EC bus
/// operation log, whether the resource lock is held, and whether the
/// underlying port operations can fail. The feature traits build their
/// contracts on these.
pub trait Feature: Sized {
    /// Every port operation the platform's EC has performed.
    spec fn feat_log(&self) -> Seq<Op>;

    /// Whether the resource lock is currently held.
    spec fn feat_held(&self) -> bool;

    /// Whether the underlying port operations always succeed.
    spec fn feat_infallible() -> bool;
}

impl<C: PortPair, S: Semaphore> Feature for Platform<C, S> {
    open spec fn feat_log(&self) -> Seq<Op> {
        self.ec_log()
    }

    open spec fn feat_held(&self) -> bool {
        self.held()
    }

    open spec fn feat_infallible() -> bool {
        C::infallible()
    }
}

impl<C: PortPair, S: Semaphore> Platform<C, S> {
    /// Write `value` to register `reg` while holding the resource lock.
    pub fn locked_set(&mut self, reg: u16, value: u8) -> (r: Result<(), Error>)
        requires
            !old(self).held(),
        ensures
            !final(self).held(),
            set_op_outcome(
                old(self).ec_log(),
                final(self).ec_log(),
                r,
                reg,
                value,
                C::infallible(),
            ),
    {
        match self.lock_ec() {
            Ok(()) => {},
            Err(e) => {
                proof {
                    assert(log_delta(old(self).ec_log(), self.ec_log()) =~= Seq::<Op>::empty());
                    assert(self.ec_log().is_prefix_of(self.ec_log()));
                    assert(emits(Seq::<Op>::empty()) =~= set_frame(reg, value).subrange(0, 0));
                }
                return Err(e);
            },
        }
        let r = self.ec_bus().set_byte(reg, value);
        self.unlock_ec();
        r
    }

    /// Read register `reg` while holding the resource lock.
    pub fn locked_get(&mut self, reg: u16) -> (r: Result<u8, Error>)
        requires
            !old(self).held(),
        ensures
            !final(self).held(),
            get_op_outcome(old(self).ec_log(), final(self).ec_log(), r, reg, C::infallible()),
    {
        match self.lock_ec() {
            Ok(()) => {},
            Err(e) => {
                proof {
                    assert(log_delta(old(self).ec_log(), self.ec_log()) =~= Seq::<Op>::empty());
                    assert(self.ec_log().is_prefix_of(self.ec_log()));
                    assert(emits(Seq::<Op>::empty()) =~= get_frame(reg).subrange(0, 0));
                }
                return Err(e);
            },
        }
        let r = self.ec_bus().get_byte(reg);
        self.unlock_ec();
        r
    }
}

/// Control of EuP, the low-standby-power mode.
pub trait EupControl: Feature {
    /// Whether EuP (the low-standby-power mode) is enabled.
    ///
    /// The EC is first asked whether it supports EuP at all; a chip
    /// that answers no gives `InvalidValue`. Otherwise the state
    /// register's bit 3 decides.
    fn get_eup_state(&mut self) -> (r: Result<SwitchState, Error>)
        requires
            !old(self).feat_held(),
        ensures
            !final(self).feat_held(),
            old(self).feat_log().is_prefix_of(final(self).feat_log()),
            ({
                let delta = log_delta(old(self).feat_log(), final(self).feat_log());
                match r {
                    Ok(s) => {
                        &&& emits(delta) == get_frame(0x101) + get_frame(0x121)
                        &&& delta.len() >= 1
                        &&& delta.last().kind is ReadData
                        &&& (s is On <==> delta.last().val & 8 != 0)
                    },
                    Err(e) => {
                        &&& emits(delta).is_prefix_of(get_frame(0x101) + get_frame(0x121))
                        &&& (Self::feat_infallible() ==> {
                            &&& (e == Error::InvalidValue ==> emits(delta) == get_frame(0x101)
                                && delta.len() >= 1 && delta.last().kind is ReadData
                                && delta.last().val & 8 == 0)
                            &&& (e == Error::InvalidValue || e == Error::Timeout || (e
                                == Error::Lock && delta == Seq::<Op>::empty()))
                        })
                    },
                }
            }),
    ;

    /// Switch EuP on or off, preserving the other bits of the state
    /// register: a read-modify-write of bit 3, refused with
    /// `InvalidValue` on a chip that does not support EuP.
    fn set_eup_state(&mut self, state: SwitchState) -> (r: Result<(), Error>)
        requires
            !old(self).feat_held(),
        ensures
            !final(self).feat_held(),
            old(self).feat_log().is_prefix_of(final(self).feat_log()),
            ({
                let delta = log_delta(old(self).feat_log(), final(self).feat_log());
                match r {
                    Ok(()) => exists|cur: u8|
                        emits(delta) == get_frame(0x101) + get_frame(0x121) + #[trigger] set_frame(
                            0x121,
                            eup_apply_spec(cur, state),
                        ),
                    Err(e) => Self::feat_infallible() ==> {
                        &&& (e == Error::InvalidValue ==> emits(delta) == get_frame(0x101)
                            && delta.len() >= 1 && delta.last().kind is ReadData
                            && delta.last().val & 8 == 0)
                        &&& (e == Error::InvalidValue || e == Error::Timeout || (e == Error::Lock
                            && delta == Seq::<Op>::empty()))
                    },
                }
            }),
    ;
}

impl<C: PortPair, S: Semaphore> EupControl for Platform<C, S> {
    fn get_eup_state(&mut self) -> (r: Result<SwitchState, Error>) {
        let ghost pre = self.ec_log();
        match self.lock_ec() {
            Ok(()) => {},
            Err(e) => {
                proof {
                    assert(log_delta(pre, self.ec_log()) =~= Seq::<Op>::empty());
                    assert(pre.is_prefix_of(pre));
                    assert(emits(Seq::<Op>::empty()) =~= (get_frame(0x101) + get_frame(
                        0x121,
                    )).subrange(0, 0));
                }
                return Err(e);
            },
        }
        let dev = self.ec_bus();
        let ghost l0 = dev.log();
        let support = match dev.get_byte(0x101) {
            Ok(v) => v,
            Err(e) => {
                self.unlock_ec();
                proof {
                    let d = log_delta(pre, self.ec_log());
                    broadcast use vstd::seq_lib::group_filter_ensures;

                    assert(emits(d).is_prefix_of(get_frame(0x101)));
                    lemma_prefix_transfer(emits(d), get_frame(0x101), get_frame(0x121));
                }
                return Err(e);
            },
        };
        let ghost d1 = log_delta(l0, dev.log());
        proof {
            assert(dev.log() =~= l0 + d1);
        }
        if support & 8 == 0 {
            self.unlock_ec();
            proof {
                let d = log_delta(pre, self.ec_log());
                assert(d == d1);
                assert(emits(d) == get_frame(0x101));
                assert(get_frame(0x101).is_prefix_of(get_frame(0x101))) by {
                    assert(get_frame(0x101) =~= get_frame(0x101).subrange(0, 3));
                }
                lemma_prefix_transfer(emits(d), get_frame(0x101), get_frame(0x121));
            }
            return Err(Error::InvalidValue);
        }
        let state = match dev.get_byte(0x121) {
            Ok(v) => v,
            Err(e) => {
                self.unlock_ec();
                proof {
                    let d = log_delta(pre, self.ec_log());
                    assert(self.ec_log() =~= pre + (d1 + log_delta(l0 + d1, self.ec_log())));
                    let d2 = log_delta(l0 + d1, self.ec_log());
                    assert(pre =~= self.ec_log().subrange(0, pre.len() as int));
                    assert(d =~= d1 + d2);
                    broadcast use vstd::seq_lib::group_filter_ensures;

                    assert(emits(d) =~= get_frame(0x101) + emits(d2));
                    lemma_prefix_concat(get_frame(0x101), emits(d2), get_frame(0x121));
                }
                return Err(e);
            },
        };
        self.unlock_ec();
        proof {
            let d = log_delta(pre, self.ec_log());
            let d2 = log_delta(l0 + d1, self.ec_log());
            assert(self.ec_log() =~= pre + (d1 + d2));
            assert(pre =~= self.ec_log().subrange(0, pre.len() as int));
            assert(d =~= d1 + d2);
            broadcast use vstd::seq_lib::group_filter_ensures;

            assert(emits(d) =~= get_frame(0x101) + get_frame(0x121));
            assert(d2.len() >= 1);
            assert(d.last() == d2.last());
            assert(d2.last() == Op::read_data(state));
        }
        if state & 8 != 0 {
            Ok(SwitchState::On)
        } else {
            Ok(SwitchState::Off)
        }
    }

    fn set_eup_state(&mut self, state: SwitchState) -> (r: Result<(), Error>) {
        let ghost pre = self.ec_log();
        match self.lock_ec() {
            Ok(()) => {},
            Err(e) => {
                proof {
                    assert(log_delta(pre, self.ec_log()) =~= Seq::<Op>::empty());
                    assert(pre.is_prefix_of(pre));
                }
                return Err(e);
            },
        }
        let dev = self.ec_bus();
        let ghost l0 = dev.log();
        let support = match dev.get_byte(0x101) {
            Ok(v) => v,
            Err(e) => {
                self.unlock_ec();
                return Err(e);
            },
        };
        let ghost d1 = log_delta(l0, dev.log());
        proof {
            assert(dev.log() =~= l0 + d1);
        }
        if support & 8 == 0 {
            self.unlock_ec();
            proof {
                assert(log_delta(pre, self.ec_log()) == d1);
            }
            return Err(Error::InvalidValue);
        }
        let cur = match dev.get_byte(0x121) {
            Ok(v) => v,
            Err(e) => {
                self.unlock_ec();
                return Err(e);
            },
        };
        let ghost d2 = log_delta(l0 + d1, dev.log());
        proof {
            assert(dev.log() =~= l0 + (d1 + d2));
        }
        let mask: u8 = if state.is_on() {
            8
        } else {
            0
        };
        let dst = (cur & 0xf7) | mask;
        let r = dev.set_byte(0x121, dst);
        self.unlock_ec();
        proof {
            let d3 = log_delta(l0 + (d1 + d2), self.ec_log());
            assert(self.ec_log() =~= pre + (d1 + d2 + d3));
            assert(pre =~= self.ec_log().subrange(0, pre.len() as int));
            let d = log_delta(pre, self.ec_log());
            assert(d =~= d1 + d2 + d3);
            broadcast use vstd::seq_lib::group_filter_ensures;

            if r is Ok {
                assert(dst == eup_apply_spec(cur, state));
                assert(emits(d) =~= get_frame(0x101) + get_frame(0x121) + set_frame(0x121, dst));
                assert(emits(d) == get_frame(0x101) + get_frame(0x121) + set_frame(
                    0x121,
                    eup_apply_spec(cur, state),
                ));
            }
        }
        r
    }
}

/// Fan status, speed and control-curve operations.
pub trait FanControl: Feature {
    /// Whether a fan is turning: reads the fan's status register and
    /// answers `"OK"` when the fan's bit is set, `"NG"` when it is
    /// clear. An unknown fan id is `InvalidValue` and touches the bus
    /// not at all.
    fn get_fan_status(&mut self, fan_id: u8) -> (r: Result<&'static str, Error>)
        requires
            !old(self).feat_held(),
        ensures
            !final(self).feat_held(),
            ({
                let delta = log_delta(old(self).feat_log(), final(self).feat_log());
                match r {
                    Ok(s) => {
                        &&& fan_status_reg_spec(fan_id) matches Some(reg) && get_op_outcome(
                            old(self).feat_log(),
                            final(self).feat_log(),
                            Ok(delta.last().val),
                            reg,
                            Self::feat_infallible(),
                        )
                        &&& (s@ == "NG"@ <==> (delta.last().val >> fan_status_bit_spec(fan_id)) & 1
                            == 0)
                        &&& (s@ == "OK"@ <==> (delta.last().val >> fan_status_bit_spec(fan_id)) & 1
                            != 0)
                    },
                    Err(e) => {
                        &&& (fan_status_reg_spec(fan_id) is None ==> e == Error::InvalidValue
                            && delta == Seq::<Op>::empty())
                        &&& (fan_status_reg_spec(fan_id) matches Some(reg) ==> get_op_outcome(
                            old(self).feat_log(),
                            final(self).feat_log(),
                            Err::<u8, Error>(e),
                            reg,
                            Self::feat_infallible(),
                        ))
                    },
                }
            }),
    ;

    /// The fan's rotation speed in RPM, read as a big-endian pair of
    /// registers. An unknown fan id is `InvalidValue` and touches the
    /// bus not at all.
    fn get_fan_speed(&mut self, fan_id: u8) -> (r: Result<u16, Error>)
        requires
            !old(self).feat_held(),
        ensures
            !final(self).feat_held(),
            old(self).feat_log().is_prefix_of(final(self).feat_log()),
            ({
                let delta = log_delta(old(self).feat_log(), final(self).feat_log());
                match r {
                    Ok(sp) => {
                        &&& fan_speed_regs_spec(fan_id) matches Some((c1, c2)) && emits(delta)
                            == get_frame(c1) + get_frame(c2)
                        &&& delta.len() >= 1
                        &&& delta.last().kind is ReadData
                        &&& sp & 0xff == delta.last().val
                    },
                    Err(e) => {
                        &&& (fan_speed_regs_spec(fan_id) is None ==> e == Error::InvalidValue
                            && delta == Seq::<Op>::empty())
                        &&& (Self::feat_infallible() && fan_speed_regs_spec(fan_id) is Some ==> e
                            == Error::Timeout || (e == Error::Lock && delta == Seq::<Op>::empty()))
                    },
                }
            }),
    ;

    /// Set a fan's speed: select manual control on the mode register,
    /// then write the duty value, scaled from 0-255 to the EC's 0-100
    /// range. An unknown fan id is `InvalidValue` and touches the bus
    /// not at all.
    fn set_fan_speed(&mut self, fan_id: u8, speed: u8) -> (r: Result<(), Error>)
        requires
            !old(self).feat_held(),
        ensures
            !final(self).feat_held(),
            old(self).feat_log().is_prefix_of(final(self).feat_log()),
            ({
                let delta = log_delta(old(self).feat_log(), final(self).feat_log());
                match r {
                    Ok(()) => fan_pwm_regs_spec(fan_id) matches Some((c1, c2)) && emits(delta)
                        == set_frame(c1, 0x10) + set_frame(c2, pwm_scale_spec(speed)),
                    Err(e) => {
                        &&& (fan_pwm_regs_spec(fan_id) is None ==> e == Error::InvalidValue
                            && delta == Seq::<Op>::empty())
                        &&& (Self::feat_infallible() && fan_pwm_regs_spec(fan_id) is Some ==> e
                            == Error::Timeout || (e == Error::Lock && delta == Seq::<Op>::empty()))
                    },
                }
            }),
    ;

    /// The fan's current duty value, scaled back from the EC's 0-100
    /// range to 0-255. An unknown fan id is `InvalidValue` and touches
    /// the bus not at all.
    fn get_fan_pwm(&mut self, fan_id: u8) -> (r: Result<u8, Error>)
        requires
            !old(self).feat_held(),
        ensures
            !final(self).feat_held(),
            ({
                let delta = log_delta(old(self).feat_log(), final(self).feat_log());
                match r {
                    Ok(p) => fan_pwm_regs_spec(fan_id) matches Some((c1, c2)) && get_op_outcome(
                        old(self).feat_log(),
                        final(self).feat_log(),
                        Ok(delta.last().val),
                        c2,
                        Self::feat_infallible(),
                    ) && p == pwm_unscale_spec(delta.last().val),
                    Err(e) => {
                        &&& (fan_pwm_regs_spec(fan_id) is None ==> e == Error::InvalidValue
                            && delta == Seq::<Op>::empty())
                        &&& (fan_pwm_regs_spec(fan_id) matches Some((c1, c2)) ==> get_op_outcome(
                            old(self).feat_log(),
                            final(self).feat_log(),
                            Err::<u8, Error>(e),
                            c2,
                            Self::feat_infallible(),
                        ))
                    },
                }
            }),
    ;

    /// Set the slope of the EC firmware's own fan-control curve. Power
    /// fans and unknown ids are `InvalidValue` and touch the bus not at
    /// all.
    fn set_fan_control_slope(&mut self, fan_id: u8, slope: u8) -> (r: Result<(), Error>)
        requires
            !old(self).feat_held(),
        ensures
            !final(self).feat_held(),
            ({
                let delta = log_delta(old(self).feat_log(), final(self).feat_log());
                match r {
                    Ok(()) => fan_slope_reg_spec(fan_id) matches Some(reg) && set_op_outcome(
                        old(self).feat_log(),
                        final(self).feat_log(),
                        Ok(()),
                        reg,
                        slope,
                        Self::feat_infallible(),
                    ),
                    Err(e) => {
                        &&& (fan_slope_reg_spec(fan_id) is None ==> e == Error::InvalidValue
                            && delta == Seq::<Op>::empty())
                        &&& (fan_slope_reg_spec(fan_id) matches Some(reg) ==> set_op_outcome(
                            old(self).feat_log(),
                            final(self).feat_log(),
                            Err::<(), Error>(e),
                            reg,
                            slope,
                            Self::feat_infallible(),
                        ))
                    },
                }
            }),
    ;
}

impl<C: PortPair, S: Semaphore> FanControl for Platform<C, S> {
    fn get_fan_status(&mut self, fan_id: u8) -> (r: Result<&'static str, Error>) {
        let ghost pre = self.ec_log();
        let reg = match fan_status_reg(fan_id) {
            Ok(c) => c,
            Err(e) => {
                proof {
                    assert(log_delta(pre, self.ec_log()) =~= Seq::<Op>::empty());
                }
                return Err(e);
            },
        };
        let bit = fan_status_bit(fan_id);
        let v = match self.locked_get(reg) {
            Ok(v) => v,
            Err(e) => {
                return Err(e);
            },
        };
        proof {
            reveal_strlit("NG");
            reveal_strlit("OK");
            assert("NG"@ != "OK"@) by {
                reveal_strlit("NG");
                reveal_strlit("OK");
                assert("NG"@[0] != "OK"@[0]);
            }
        }
        if (v >> bit) & 1 == 0 {
            Ok("NG")
        } else {
            Ok("OK")
        }
    }

    fn get_fan_speed(&mut self, fan_id: u8) -> (r: Result<u16, Error>) {
        let ghost pre = self.ec_log();
        let (c1, c2) = match fan_speed_regs(fan_id) {
            Ok(c) => c,
            Err(e) => {
                proof {
                    assert(log_delta(pre, self.ec_log()) =~= Seq::<Op>::empty());
                    assert(pre.is_prefix_of(pre));
                }
                return Err(e);
            },
        };
        match self.lock_ec() {
            Ok(()) => {},
            Err(e) => {
                proof {
                    assert(log_delta(pre, self.ec_log()) =~= Seq::<Op>::empty());
                    assert(pre.is_prefix_of(pre));
                }
                return Err(e);
            },
        }
        let dev = self.ec_bus();
        let ghost l0 = dev.log();
        let v1 = match dev.get_byte(c1) {
            Ok(v) => v,
            Err(e) => {
                self.unlock_ec();
                return Err(e);
            },
        };
        let ghost d1 = log_delta(l0, dev.log());
        proof {
            assert(dev.log() =~= l0 + d1);
        }
        let v2 = match dev.get_byte(c2) {
            Ok(v) => v,
            Err(e) => {
                self.unlock_ec();
                return Err(e);
            },
        };
        self.unlock_ec();
        let speed = ((v1 as u16) << 8) | (v2 as u16);
        proof {
            let d2 = log_delta(l0 + d1, self.ec_log());
            assert(self.ec_log() =~= pre + (d1 + d2));
            assert(pre =~= self.ec_log().subrange(0, pre.len() as int));
            let d = log_delta(pre, self.ec_log());
            assert(d =~= d1 + d2);
            broadcast use vstd::seq_lib::group_filter_ensures;

            assert(emits(d) =~= get_frame(c1) + get_frame(c2));
            assert(d2.len() >= 1);
            assert(d.last() == d2.last());
            assert(d2.last() == Op::read_data(v2));
            assert(speed & 0xff == v2) by {
                assert((((v1 as u16) << 8) | (v2 as u16)) & 0xff == v2 as u16) by (bit_vector);
            }
        }
        Ok(speed)
    }

    fn set_fan_speed(&mut self, fan_id: u8, speed: u8) -> (r: Result<(), Error>) {
        let ghost pre = self.ec_log();
        let (c1, c2) = match fan_pwm_regs(fan_id) {
            Ok(c) => c,
            Err(e) => {
                proof {
                    assert(log_delta(pre, self.ec_log()) =~= Seq::<Op>::empty());
                    assert(pre.is_prefix_of(pre));
                }
                return Err(e);
            },
        };
        let duty = pwm_scale(speed);
        match self.lock_ec() {
            Ok(()) => {},
            Err(e) => {
                proof {
                    assert(log_delta(pre, self.ec_log()) =~= Seq::<Op>::empty());
                    assert(pre.is_prefix_of(pre));
                }
                return Err(e);
            },
        }
        let dev = self.ec_bus();
        let ghost l0 = dev.log();
        match dev.set_byte(c1, 0x10) {
            Ok(()) => {},
            Err(e) => {
                self.unlock_ec();
                return Err(e);
            },
        }
        let ghost d1 = log_delta(l0, dev.log());
        proof {
            assert(dev.log() =~= l0 + d1);
        }
        match dev.set_byte(c2, duty) {
            Ok(()) => {},
            Err(e) => {
                self.unlock_ec();
                return Err(e);
            },
        }
        self.unlock_ec();
        proof {
            let d2 = log_delta(l0 + d1, self.ec_log());
            assert(self.ec_log() =~= pre + (d1 + d2));
            assert(pre =~= self.ec_log().subrange(0, pre.len() as int));
            let d = log_delta(pre, self.ec_log());
            assert(d =~= d1 + d2);
            broadcast use vstd::seq_lib::group_filter_ensures;

            assert(emits(d) =~= set_frame(c1, 0x10) + set_frame(c2, pwm_scale_spec(speed)));
        }
        Ok(())
    }

    fn get_fan_pwm(&mut self, fan_id: u8) -> (r: Result<u8, Error>) {
        let ghost pre = self.ec_log();
        let regs = match fan_pwm_regs(fan_id) {
            Ok(c) => c,
            Err(e) => {
                proof {
                    assert(log_delta(pre, self.ec_log()) =~= Seq::<Op>::empty());
                }
                return Err(e);
            },
        };
        let v = match self.locked_get(regs.1) {
            Ok(v) => v,
            Err(e) => {
                return Err(e);
            },
        };
        Ok(pwm_unscale(v))
    }

    fn set_fan_control_slope(&mut self, fan_id: u8, slope: u8) -> (r: Result<(), Error>) {
        let ghost pre = self.ec_log();
        let reg = match fan_slope_reg(fan_id) {
            Ok(c) => c,
            Err(e) => {
                proof {
                    assert(log_delta(pre, self.ec_log()) =~= Seq::<Op>::empty());
                }
                return Err(e);
            },
        };
        self.locked_set(reg, slope)
    }
}

/// LED colour, blink and brightness operations.
pub trait LedControl: Feature {
    /// Set the LED brightness: write the value to both brightness
    /// registers, raising and then lowering the transfer bit of the
    /// control register around the second write.
    fn set_led_by_pwm(&mut self, val: u8) -> (r: Result<(), Error>)
        requires
            !old(self).feat_held(),
        ensures
            !final(self).feat_held(),
            old(self).feat_log().is_prefix_of(final(self).feat_log()),
            ({
                let delta = log_delta(old(self).feat_log(), final(self).feat_log());
                match r {
                    Ok(()) => exists|t1: u8, t2: u8|
                        #![trigger set_frame(0x245, led_pwm_hold_spec(t1)), set_frame(0x245, led_pwm_release_spec(t2))]
                        emits(delta) == set_frame(0x243, val) + get_frame(0x245) + set_frame(
                            0x245,
                            led_pwm_hold_spec(t1),
                        ) + set_frame(0x246, val) + get_frame(0x245) + set_frame(
                            0x245,
                            led_pwm_release_spec(t2),
                        ),
                    Err(e) => Self::feat_infallible() ==> e == Error::Timeout || (e == Error::Lock && delta
                        == Seq::<Op>::empty()),
                }
            }),
    ;

    /// Colour a fan LED: the colour's raw value, forced unless the
    /// colour is `Auto`. A led index above 7 is `InvalidValue` and
    /// touches the bus not at all.
    fn set_fan_led(&mut self, fan_id: u8, color: LedColor) -> (r: Result<(), Error>)
        requires
            !old(self).feat_held(),
        ensures
            !final(self).feat_held(),
            ({
                let delta = log_delta(old(self).feat_log(), final(self).feat_log());
                match r {
                    Ok(()) => fan_id <= 7 && set_op_outcome(
                        old(self).feat_log(),
                        final(self).feat_log(),
                        Ok(()),
                        0x16e,
                        fan_led_value_spec(color),
                        Self::feat_infallible(),
                    ),
                    Err(e) => {
                        &&& (fan_id > 7 ==> e == Error::InvalidValue && delta == Seq::<Op>::empty())
                        &&& (fan_id <= 7 ==> set_op_outcome(
                            old(self).feat_log(),
                            final(self).feat_log(),
                            Err::<(), Error>(e),
                            0x16e,
                            fan_led_value_spec(color),
                            Self::feat_infallible(),
                        ))
                    },
                }
            }),
    ;

    /// Set the front USB LED register.
    fn set_front_usb_led(&mut self, v: u8) -> (r: Result<(), Error>)
        requires
            !old(self).feat_held(),
        ensures
            !final(self).feat_held(),
            set_op_outcome(
                old(self).feat_log(),
                final(self).feat_log(),
                r,
                0x154,
                v,
                Self::feat_infallible(),
            ),
    ;

    /// Light the status LED steadily in the given colour, or turn it
    /// off. Asking for a steady `Auto` is `InvalidValue` and touches
    /// the bus not at all.
    fn set_status_led(&mut self, color: LedColor, enable: bool) -> (r: Result<(), Error>)
        requires
            !old(self).feat_held(),
        ensures
            !final(self).feat_held(),
            ({
                let delta = log_delta(old(self).feat_log(), final(self).feat_log());
                match r {
                    Ok(()) => status_led_value_spec(color, enable) matches Some(v)
                        && set_op_outcome(
                        old(self).feat_log(),
                        final(self).feat_log(),
                        Ok(()),
                        0x155,
                        v,
                        Self::feat_infallible(),
                    ),
                    Err(e) => {
                        &&& (status_led_value_spec(color, enable) is None ==> e
                            == Error::InvalidValue && delta == Seq::<Op>::empty())
                        &&& (status_led_value_spec(color, enable) matches Some(v)
                            ==> set_op_outcome(
                            old(self).feat_log(),
                            final(self).feat_log(),
                            Err::<(), Error>(e),
                            0x155,
                            v,
                            Self::feat_infallible(),
                        ))
                    },
                }
            }),
    ;

    /// Blink the status LED in the given colour, or stop blinking.
    fn blink_status_led(&mut self, color: LedColor, enable: bool) -> (r: Result<(), Error>)
        requires
            !old(self).feat_held(),
        ensures
            !final(self).feat_held(),
            set_op_outcome(
                old(self).feat_log(),
                final(self).feat_log(),
                r,
                0x155,
                blink_led_value_spec(color, enable),
                Self::feat_infallible(),
            ),
    ;

    /// Light or clear the enclosure identification LED.
    fn set_enclosure_ident_led(&mut self, enable: bool) -> (r: Result<(), Error>)
        requires
            !old(self).feat_held(),
        ensures
            !final(self).feat_held(),
            set_op_outcome(
                old(self).feat_log(),
                final(self).feat_log(),
                r,
                0x15e,
                if enable {
                    1
                } else {
                    2
                },
                Self::feat_infallible(),
            ),
    ;

    /// Switch a disk's activity LED on or off.
    fn set_disk_active_led(&mut self, port_id: u8, enable: bool) -> (r: Result<(), Error>)
        requires
            !old(self).feat_held(),
        ensures
            !final(self).feat_held(),
            set_op_outcome(
                old(self).feat_log(),
                final(self).feat_log(),
                r,
                if enable {
                    0x15f
                } else {
                    0x157
                },
                port_id,
                Self::feat_infallible(),
            ),
    ;

    /// Switch a disk's identification LED on or off.
    fn set_disk_ident_led(&mut self, port_id: u8, enable: bool) -> (r: Result<(), Error>)
        requires
            !old(self).feat_held(),
        ensures
            !final(self).feat_held(),
            set_op_outcome(
                old(self).feat_log(),
                final(self).feat_log(),
                r,
                if enable {
                    0x158
                } else {
                    0x159
                },
                port_id,
                Self::feat_infallible(),
            ),
    ;

    /// Switch a disk's presence LED on or off.
    fn set_present_led(&mut self, port_id: u8, enable: bool) -> (r: Result<(), Error>)
        requires
            !old(self).feat_held(),
        ensures
            !final(self).feat_held(),
            set_op_outcome(
                old(self).feat_log(),
                final(self).feat_log(),
                r,
                if enable {
                    0x15a
                } else {
                    0x15b
                },
                port_id,
                Self::feat_infallible(),
            ),
    ;

    /// Set the GPIO BBU status LED: a read-modify-write of the BBU
    /// register, or a write of zero if the read fails.
    fn set_bbu_led(&mut self, arg1: u8, enable: u8) -> (r: Result<(), Error>)
        requires
            !old(self).feat_held(),
        ensures
            !final(self).feat_held(),
            old(self).feat_log().is_prefix_of(final(self).feat_log()),
            ({
                let delta = log_delta(old(self).feat_log(), final(self).feat_log());
                match r {
                    Ok(()) => {
                        ||| exists|v: u8|
                            emits(delta) == get_frame(0x7d) + #[trigger] set_frame(
                                0x7d,
                                bbu_value_spec(v, arg1, enable),
                            )
                        ||| exists|p: Seq<Op>|
                            p.is_prefix_of(get_frame(0x7d)) && emits(delta) == #[trigger] (p
                                + set_frame(0x7d, 0))
                    },
                    Err(e) => Self::feat_infallible() ==> e == Error::Timeout || (e == Error::Lock && delta
                        == Seq::<Op>::empty()),
                }
            }),
    ;

    /// Switch a disk's error LED on or off.
    fn set_disk_err_led(&mut self, port_id: u8, enable: bool) -> (r: Result<(), Error>)
        requires
            !old(self).feat_held(),
        ensures
            !final(self).feat_held(),
            set_op_outcome(
                old(self).feat_log(),
                final(self).feat_log(),
                r,
                if enable {
                    0x15c
                } else {
                    0x15d
                },
                port_id,
                Self::feat_infallible(),
            ),
    ;

    /// Turn the 10G NIC presence LED on or off.
    #[allow(non_snake_case)]
    fn set_10G_led(&mut self, enable: bool) -> (r: Result<(), Error>)
        requires
            !old(self).feat_held(),
        ensures
            !final(self).feat_held(),
            set_op_outcome(
                old(self).feat_log(),
                final(self).feat_log(),
                r,
                0x167,
                if enable {
                    1
                } else {
                    0
                },
                Self::feat_infallible(),
            ),
    ;
}

impl<C: PortPair, S: Semaphore> LedControl for Platform<C, S> {
    fn set_led_by_pwm(&mut self, val: u8) -> (r: Result<(), Error>) {
        let ghost pre = self.ec_log();
        match self.lock_ec() {
            Ok(()) => {},
            Err(e) => {
                proof {
                    assert(log_delta(pre, self.ec_log()) =~= Seq::<Op>::empty());
                    assert(pre.is_prefix_of(pre));
                }
                return Err(e);
            },
        }
        let dev = self.ec_bus();
        let ghost l0 = dev.log();
        match dev.set_byte(0x243, val) {
            Ok(()) => {},
            Err(e) => {
                self.unlock_ec();
                return Err(e);
            },
        }
        let ghost d1 = log_delta(l0, dev.log());
        proof {
            assert(dev.log() =~= l0 + d1);
        }
        let t1 = match dev.get_byte(0x245) {
            Ok(v) => v,
            Err(e) => {
                self.unlock_ec();
                return Err(e);
            },
        };
        let ghost d2 = log_delta(l0 + d1, dev.log());
        proof {
            assert(dev.log() =~= l0 + (d1 + d2));
        }
        match dev.set_byte(0x245, t1 | 0x10) {
            Ok(()) => {},
            Err(e) => {
                self.unlock_ec();
                return Err(e);
            },
        }
        let ghost d3 = log_delta(l0 + (d1 + d2), dev.log());
        proof {
            assert(dev.log() =~= l0 + (d1 + d2 + d3));
        }
        match dev.set_byte(0x246, val) {
            Ok(()) => {},
            Err(e) => {
                self.unlock_ec();
                return Err(e);
            },
        }
        let ghost d4 = log_delta(l0 + (d1 + d2 + d3), dev.log());
        proof {
            assert(dev.log() =~= l0 + (d1 + d2 + d3 + d4));
        }
        let t2 = match dev.get_byte(0x245) {
            Ok(v) => v,
            Err(e) => {
                self.unlock_ec();
                return Err(e);
            },
        };
        let ghost d5 = log_delta(l0 + (d1 + d2 + d3 + d4), dev.log());
        proof {
            assert(dev.log() =~= l0 + (d1 + d2 + d3 + d4 + d5));
        }
        match dev.set_byte(0x245, t2 & 0xef) {
            Ok(()) => {},
            Err(e) => {
                self.unlock_ec();
                return Err(e);
            },
        }
        self.unlock_ec();
        proof {
            let d6 = log_delta(l0 + (d1 + d2 + d3 + d4 + d5), self.ec_log());
            assert(self.ec_log() =~= pre + (d1 + d2 + d3 + d4 + d5 + d6));
            assert(pre =~= self.ec_log().subrange(0, pre.len() as int));
            let d = log_delta(pre, self.ec_log());
            assert(d =~= d1 + d2 + d3 + d4 + d5 + d6);
            broadcast use vstd::seq_lib::group_filter_ensures;

            assert(t1 | 0x10 == led_pwm_hold_spec(t1));
            assert(t2 & 0xef == led_pwm_release_spec(t2));
            assert(emits(d) =~= set_frame(0x243, val) + get_frame(0x245) + set_frame(
                0x245,
                led_pwm_hold_spec(t1),
            ) + set_frame(0x246, val) + get_frame(0x245) + set_frame(
                0x245,
                led_pwm_release_spec(t2),
            ));
        }
        Ok(())
    }

    fn set_fan_led(&mut self, fan_id: u8, color: LedColor) -> (r: Result<(), Error>) {
        let ghost pre = self.ec_log();
        if fan_id > 7 {
            proof {
                assert(log_delta(pre, self.ec_log()) =~= Seq::<Op>::empty());
            }
            return Err(Error::InvalidValue);
        }
        let raw: u8 = color.into();
        let value = if matches!(color, LedColor::Auto) {
            raw
        } else {
            raw | 0x80
        };
        self.locked_set(0x16e, value)
    }

    fn set_front_usb_led(&mut self, v: u8) -> (r: Result<(), Error>) {
        self.locked_set(0x154, v)
    }

    fn set_status_led(&mut self, color: LedColor, enable: bool) -> (r: Result<(), Error>) {
        let ghost pre = self.ec_log();
        let v = match status_led_value(color, enable) {
            Ok(v) => v,
            Err(e) => {
                proof {
                    assert(log_delta(pre, self.ec_log()) =~= Seq::<Op>::empty());
                }
                return Err(e);
            },
        };
        self.locked_set(0x155, v)
    }

    fn blink_status_led(&mut self, color: LedColor, enable: bool) -> (r: Result<(), Error>) {
        let v = blink_led_value(color, enable);
        self.locked_set(0x155, v)
    }

    fn set_enclosure_ident_led(&mut self, enable: bool) -> (r: Result<(), Error>) {
        let status: u8 = if enable {
            1
        } else {
            2
        };
        self.locked_set(0x15e, status)
    }

    fn set_disk_active_led(&mut self, port_id: u8, enable: bool) -> (r: Result<(), Error>) {
        let cmd: u16 = if enable {
            0x15f
        } else {
            0x157
        };
        self.locked_set(cmd, port_id)
    }

    fn set_disk_ident_led(&mut self, port_id: u8, enable: bool) -> (r: Result<(), Error>) {
        let cmd: u16 = if enable {
            0x158
        } else {
            0x159
        };
        self.locked_set(cmd, port_id)
    }

    fn set_present_led(&mut self, port_id: u8, enable: bool) -> (r: Result<(), Error>) {
        let cmd: u16 = if enable {
            0x15a
        } else {
            0x15b
        };
        self.locked_set(cmd, port_id)
    }

    fn set_bbu_led(&mut self, arg1: u8, enable: u8) -> (r: Result<(), Error>) {
        let ghost pre = self.ec_log();
        match self.lock_ec() {
            Ok(()) => {},
            Err(e) => {
                proof {
                    assert(log_delta(pre, self.ec_log()) =~= Seq::<Op>::empty());
                    assert(pre.is_prefix_of(pre));
                }
                return Err(e);
            },
        }
        let dev = self.ec_bus();
        let ghost l0 = dev.log();
        let probe = dev.get_byte(0x7d);
        let ghost d1 = log_delta(l0, dev.log());
        proof {
            assert(dev.log() =~= l0 + d1);
        }
        let t = match probe {
            Ok(v) => {
                let held = v | 3;
                if arg1 == 0 && enable != 0 {
                    held & 0xfe
                } else if arg1 == 1 && enable != 0 {
                    held & 0xfd
                } else if arg1 == 2 && enable != 0 {
                    v & 0xfc
                } else {
                    held
                }
            },
            Err(_) => 0,
        };
        let r = dev.set_byte(0x7d, t);
        self.unlock_ec();
        proof {
            let d2 = log_delta(l0 + d1, self.ec_log());
            assert(self.ec_log() =~= pre + (d1 + d2));
            assert(pre =~= self.ec_log().subrange(0, pre.len() as int));
            let d = log_delta(pre, self.ec_log());
            assert(d =~= d1 + d2);
            broadcast use vstd::seq_lib::group_filter_ensures;

            if r is Ok {
                match probe {
                    Ok(v) => {
                        assert(t == bbu_value_spec(v, arg1, enable));
                        assert(emits(d) =~= get_frame(0x7d) + set_frame(0x7d, bbu_value_spec(
                            v,
                            arg1,
                            enable,
                        )));
                    },
                    Err(_) => {
                        assert(t == 0);
                        assert(emits(d) =~= emits(d1) + set_frame(0x7d, 0));
                    },
                }
            }
        }
        r
    }

    fn set_disk_err_led(&mut self, port_id: u8, enable: bool) -> (r: Result<(), Error>) {
        let cmd: u16 = if enable {
            0x15c
        } else {
            0x15d
        };
        self.locked_set(cmd, port_id)
    }

    #[allow(non_snake_case)]
    fn set_10G_led(&mut self, enable: bool) -> (r: Result<(), Error>) {
        let v: u8 = if enable {
            1
        } else {
            0
        };
        self.locked_set(0x167, v)
    }
}

/// Power buttons, supplies, recovery mode and forced shutdown.
pub trait Power: Feature {
    /// Whether the reset button is currently pressed: bit 1 of the
    /// button register.
    fn get_reset_button(&mut self) -> (r: Result<bool, Error>)
        requires
            !old(self).feat_held(),
        ensures
            !final(self).feat_held(),
            ({
                let delta = log_delta(old(self).feat_log(), final(self).feat_log());
                match r {
                    Ok(b) => get_op_outcome(
                        old(self).feat_log(),
                        final(self).feat_log(),
                        Ok(delta.last().val),
                        0x143,
                        Self::feat_infallible(),
                    ) && b == (delta.last().val & 2 != 0),
                    Err(e) => get_op_outcome(
                        old(self).feat_log(),
                        final(self).feat_log(),
                        Err(e),
                        0x143,
                        Self::feat_infallible(),
                    ),
                }
            }),
    ;

    /// Force a shutdown or reboot after `timeout`: arm the action, fix
    /// up the RTC wake register if a reboot was asked for and the RTC
    /// is not usable, then write the timeout.
    fn force_shutdown(&mut self, mode: ShutdownMode, timeout: u8, rtc_ok: bool) -> (r: Result<
        (),
        Error,
    >)
        requires
            !old(self).feat_held(),
        ensures
            !final(self).feat_held(),
            old(self).feat_log().is_prefix_of(final(self).feat_log()),
            ({
                let delta = log_delta(old(self).feat_log(), final(self).feat_log());
                match r {
                    Ok(()) => {
                        &&& (!(mode is Reboot) || rtc_ok ==> emits(delta) == set_frame(
                            0x245,
                            mode.raw_spec(),
                        ) + set_frame(0x248, timeout))
                        &&& (mode is Reboot && !rtc_ok ==> exists|v: u8|
                            emits(delta) == set_frame(0x245, mode.raw_spec()) + get_frame(0x249)
                                + #[trigger] set_frame(0x249, rtc_fix_spec(v)) + set_frame(
                                0x248,
                                timeout,
                            ))
                    },
                    Err(e) => Self::feat_infallible() ==> e == Error::Timeout || (e == Error::Lock && delta
                        == Seq::<Op>::empty()),
                }
            }),
    ;

    /// Check one power supply: its bit in the supply status register
    /// must be set. A supply index outside 1-2 is `InvalidValue` and
    /// touches the bus not at all; a clear bit is also surfaced as
    /// `InvalidValue`, then with the status register read in the log.
    fn get_power_supply_status(&mut self, arg1: u8) -> (r: Result<(), Error>)
        requires
            !old(self).feat_held(),
        ensures
            !final(self).feat_held(),
            ({
                let delta = log_delta(old(self).feat_log(), final(self).feat_log());
                match r {
                    Ok(()) => {
                        &&& 1 <= arg1 <= 2
                        &&& get_op_outcome(
                            old(self).feat_log(),
                            final(self).feat_log(),
                            Ok(delta.last().val),
                            0x45,
                            Self::feat_infallible(),
                        )
                        &&& (delta.last().val >> arg1) & 1 != 0
                    },
                    Err(e) => {
                        &&& ((arg1 < 1 || arg1 > 2) ==> e == Error::InvalidValue && delta
                            == Seq::<Op>::empty())
                        &&& (1 <= arg1 <= 2 && Self::feat_infallible() ==> {
                            &&& (e == Error::InvalidValue ==> get_op_outcome(
                                old(self).feat_log(),
                                final(self).feat_log(),
                                Ok(delta.last().val),
                                0x45,
                                true,
                            ) && (delta.last().val >> arg1) & 1 == 0)
                            &&& (e == Error::InvalidValue || e == Error::Timeout || (e
                                == Error::Lock && delta == Seq::<Op>::empty()))
                        })
                    },
                }
            }),
    ;

    /// The power recovery mode the EC currently holds; a register value
    /// outside the legal domain is `InvalidValue`.
    fn get_power_recovery_mode(&mut self) -> (r: Result<PowerRecoveryMode, Error>)
        requires
            !old(self).feat_held(),
        ensures
            !final(self).feat_held(),
            ({
                let delta = log_delta(old(self).feat_log(), final(self).feat_log());
                match r {
                    Ok(m) => get_op_outcome(
                        old(self).feat_log(),
                        final(self).feat_log(),
                        Ok(delta.last().val),
                        0x16,
                        Self::feat_infallible(),
                    ) && m.raw_spec() == delta.last().val,
                    Err(e) => e == Error::InvalidValue || get_op_outcome(
                        old(self).feat_log(),
                        final(self).feat_log(),
                        Err(e),
                        0x16,
                        Self::feat_infallible(),
                    ),
                }
            }),
    ;

    /// Set the power recovery mode.
    fn set_power_recovery_mode(&mut self, mode: PowerRecoveryMode) -> (r: Result<(), Error>)
        requires
            !old(self).feat_held(),
        ensures
            !final(self).feat_held(),
            set_op_outcome(
                old(self).feat_log(),
                final(self).feat_log(),
                r,
                0x16,
                mode.raw_spec(),
                Self::feat_infallible(),
            ),
    ;

    /// Power a SATA port on.
    fn sata_power_on(&mut self, port_id: u8) -> (r: Result<(), Error>)
        requires
            !old(self).feat_held(),
        ensures
            !final(self).feat_held(),
            set_op_outcome(
                old(self).feat_log(),
                final(self).feat_log(),
                r,
                0x260,
                port_id,
                Self::feat_infallible(),
            ),
    ;

    /// Power a SATA port off.
    fn sata_power_off(&mut self, port_id: u8) -> (r: Result<(), Error>)
        requires
            !old(self).feat_held(),
        ensures
            !final(self).feat_held(),
            set_op_outcome(
                old(self).feat_log(),
                final(self).feat_log(),
                r,
                0x261,
                port_id,
                Self::feat_infallible(),
            ),
    ;
}

impl<C: PortPair, S: Semaphore> Power for Platform<C, S> {
    fn get_reset_button(&mut self) -> (r: Result<bool, Error>) {
        let v = match self.locked_get(0x143) {
            Ok(v) => v,
            Err(e) => {
                return Err(e);
            },
        };
        Ok(v & 2 != 0)
    }

    fn force_shutdown(&mut self, mode: ShutdownMode, timeout: u8, rtc_ok: bool) -> (r: Result<
        (),
        Error,
    >) {
        let ghost pre = self.ec_log();
        let flag: u8 = mode.into();
        match self.lock_ec() {
            Ok(()) => {},
            Err(e) => {
                proof {
                    assert(log_delta(pre, self.ec_log()) =~= Seq::<Op>::empty());
                    assert(pre.is_prefix_of(pre));
                }
                return Err(e);
            },
        }
        let dev = self.ec_bus();
        let ghost l0 = dev.log();
        match dev.set_byte(0x245, flag) {
            Ok(()) => {},
            Err(e) => {
                self.unlock_ec();
                return Err(e);
            },
        }
        let ghost d1 = log_delta(l0, dev.log());
        proof {
            assert(dev.log() =~= l0 + d1);
        }
        if matches!(mode, ShutdownMode::Reboot) && !rtc_ok {
            let v = match dev.get_byte(0x249) {
                Ok(v) => v,
                Err(e) => {
                    self.unlock_ec();
                    return Err(e);
                },
            };
            let ghost d2 = log_delta(l0 + d1, dev.log());
            proof {
                assert(dev.log() =~= l0 + (d1 + d2));
            }
            match dev.set_byte(0x249, v | 1) {
                Ok(()) => {},
                Err(e) => {
                    self.unlock_ec();
                    return Err(e);
                },
            }
            let ghost d3 = log_delta(l0 + (d1 + d2), dev.log());
            proof {
                assert(dev.log() =~= l0 + (d1 + d2 + d3));
            }
            match dev.set_byte(0x248, timeout) {
                Ok(()) => {},
                Err(e) => {
                    self.unlock_ec();
                    return Err(e);
                },
            }
            self.unlock_ec();
            proof {
                let d4 = log_delta(l0 + (d1 + d2 + d3), self.ec_log());
                assert(self.ec_log() =~= pre + (d1 + d2 + d3 + d4));
                assert(pre =~= self.ec_log().subrange(0, pre.len() as int));
                let d = log_delta(pre, self.ec_log());
                assert(d =~= d1 + d2 + d3 + d4);
                broadcast use vstd::seq_lib::group_filter_ensures;

                assert(v | 1 == rtc_fix_spec(v));
                assert(emits(d) =~= set_frame(0x245, mode.raw_spec()) + get_frame(0x249)
                    + set_frame(0x249, rtc_fix_spec(v)) + set_frame(0x248, timeout));
            }
            return Ok(());
        }
        match dev.set_byte(0x248, timeout) {
            Ok(()) => {},
            Err(e) => {
                self.unlock_ec();
                return Err(e);
            },
        }
        self.unlock_ec();
        proof {
            let d2 = log_delta(l0 + d1, self.ec_log());
            assert(self.ec_log() =~= pre + (d1 + d2));
            assert(pre =~= self.ec_log().subrange(0, pre.len() as int));
            let d = log_delta(pre, self.ec_log());
            assert(d =~= d1 + d2);
            broadcast use vstd::seq_lib::group_filter_ensures;

            assert(emits(d) =~= set_frame(0x245, mode.raw_spec()) + set_frame(0x248, timeout));
        }
        Ok(())
    }

    fn get_power_supply_status(&mut self, arg1: u8) -> (r: Result<(), Error>) {
        let ghost pre = self.ec_log();
        if arg1 < 1 || arg1 > 2 {
            proof {
                assert(log_delta(pre, self.ec_log()) =~= Seq::<Op>::empty());
            }
            return Err(Error::InvalidValue);
        }
        let v = match self.locked_get(0x45) {
            Ok(v) => v,
            Err(e) => {
                return Err(e);
            },
        };
        if (v >> arg1) & 1 == 0 {
            return Err(Error::InvalidValue);
        }
        Ok(())
    }

    fn get_power_recovery_mode(&mut self) -> (r: Result<PowerRecoveryMode, Error>) {
        let v = match self.locked_get(0x16) {
            Ok(v) => v,
            Err(e) => {
                return Err(e);
            },
        };
        match PowerRecoveryMode::from_raw(v) {
            Some(m) => Ok(m),
            None => Err(Error::InvalidValue),
        }
    }

    fn set_power_recovery_mode(&mut self, mode: PowerRecoveryMode) -> (r: Result<(), Error>) {
        let raw: u8 = mode.into();
        self.locked_set(0x16, raw)
    }

    fn sata_power_on(&mut self, port_id: u8) -> (r: Result<(), Error>) {
        self.locked_set(0x260, port_id)
    }

    fn sata_power_off(&mut self, port_id: u8) -> (r: Result<(), Error>) {
        self.locked_set(0x261, port_id)
    }
}

/// Temperature sensors and their calibration.
pub trait Temperature: Feature {
    /// The raw temperature byte of a sensor. An unknown sensor id is
    /// `InvalidValue` and touches the bus not at all.
    fn get_temperature(&mut self, sensor_id: u8) -> (r: Result<u8, Error>)
        requires
            !old(self).feat_held(),
        ensures
            !final(self).feat_held(),
            ({
                let delta = log_delta(old(self).feat_log(), final(self).feat_log());
                match temp_sensor_reg_spec(sensor_id) {
                    Some(reg) => get_op_outcome(
                        old(self).feat_log(),
                        final(self).feat_log(),
                        r,
                        reg,
                        Self::feat_infallible(),
                    ),
                    None => r == Err::<u8, Error>(Error::InvalidValue) && delta
                        == Seq::<Op>::empty(),
                }
            }),
    ;

    /// Calibrate a temperature sensor: a read-modify-write of the
    /// calibration control register, then the sensor id written to the
    /// channel the first argument selects.
    fn temperature_calibrate(&mut self, sensor_id: u8, arg1: bool, arg2: u32) -> (r: Result<
        (),
        Error,
    >)
        requires
            !old(self).feat_held(),
        ensures
            !final(self).feat_held(),
            old(self).feat_log().is_prefix_of(final(self).feat_log()),
            ({
                let delta = log_delta(old(self).feat_log(), final(self).feat_log());
                match r {
                    Ok(()) => exists|v: u8|
                        emits(delta) == get_frame(0x2e2) + #[trigger] set_frame(
                            0x2e2,
                            calibrate_ctrl_spec(v, arg1, arg2),
                        ) + set_frame(calibrate_target_reg_spec(arg1), sensor_id),
                    Err(e) => Self::feat_infallible() ==> e == Error::Timeout || (e == Error::Lock && delta
                        == Seq::<Op>::empty()),
                }
            }),
    ;
}

impl<C: PortPair, S: Semaphore> Temperature for Platform<C, S> {
    fn get_temperature(&mut self, sensor_id: u8) -> (r: Result<u8, Error>) {
        let ghost pre = self.ec_log();
        let reg = match temp_sensor_reg(sensor_id) {
            Ok(c) => c,
            Err(e) => {
                proof {
                    assert(log_delta(pre, self.ec_log()) =~= Seq::<Op>::empty());
                }
                return Err(e);
            },
        };
        self.locked_get(reg)
    }

    fn temperature_calibrate(&mut self, sensor_id: u8, arg1: bool, arg2: u32) -> (r: Result<
        (),
        Error,
    >) {
        let ghost pre = self.ec_log();
        match self.lock_ec() {
            Ok(()) => {},
            Err(e) => {
                proof {
                    assert(log_delta(pre, self.ec_log()) =~= Seq::<Op>::empty());
                    assert(pre.is_prefix_of(pre));
                }
                return Err(e);
            },
        }
        let dev = self.ec_bus();
        let ghost l0 = dev.log();
        let v = match dev.get_byte(0x2e2) {
            Ok(v) => v,
            Err(e) => {
                self.unlock_ec();
                return Err(e);
            },
        };
        let ghost d1 = log_delta(l0, dev.log());
        proof {
            assert(dev.log() =~= l0 + d1);
        }
        let ctrl = match (arg1, arg2) {
            (false, 0) => v & 0xfe,
            (false, _) => v | 1,
            (true, 0) => v & 0xfd,
            (true, _) => v | 2,
        };
        match dev.set_byte(0x2e2, ctrl) {
            Ok(()) => {},
            Err(e) => {
                self.unlock_ec();
                return Err(e);
            },
        }
        let ghost d2 = log_delta(l0 + d1, dev.log());
        proof {
            assert(dev.log() =~= l0 + (d1 + d2));
        }
        let target: u16 = if arg1 {
            0x27f
        } else {
            0x27d
        };
        match dev.set_byte(target, sensor_id) {
            Ok(()) => {},
            Err(e) => {
                self.unlock_ec();
                return Err(e);
            },
        }
        self.unlock_ec();
        proof {
            let d3 = log_delta(l0 + (d1 + d2), self.ec_log());
            assert(self.ec_log() =~= pre + (d1 + d2 + d3));
            assert(pre =~= self.ec_log().subrange(0, pre.len() as int));
            let d = log_delta(pre, self.ec_log());
            assert(d =~= d1 + d2 + d3);
            broadcast use vstd::seq_lib::group_filter_ensures;

            assert(ctrl == calibrate_ctrl_spec(v, arg1, arg2));
            assert(target == calibrate_target_reg_spec(arg1));
            assert(emits(d) =~= get_frame(0x2e2) + set_frame(0x2e2, calibrate_ctrl_spec(
                v,
                arg1,
                arg2,
            )) + set_frame(calibrate_target_reg_spec(arg1), sensor_id));
        }
        Ok(())
    }
}

/// The USB copy button.
pub trait UsbControl: Feature {
    /// Whether the USB copy button is currently pressed: bit 2 of the
    /// button register.
    fn get_usb_button(&mut self) -> (r: Result<bool, Error>)
        requires
            !old(self).feat_held(),
        ensures
            !final(self).feat_held(),
            ({
                let delta = log_delta(old(self).feat_log(), final(self).feat_log());
                match r {
                    Ok(b) => get_op_outcome(
                        old(self).feat_log(),
                        final(self).feat_log(),
                        Ok(delta.last().val),
                        0x143,
                        Self::feat_infallible(),
                    ) && b == (delta.last().val & 4 != 0),
                    Err(e) => get_op_outcome(
                        old(self).feat_log(),
                        final(self).feat_log(),
                        Err(e),
                        0x143,
                        Self::feat_infallible(),
                    ),
                }
            }),
    ;
}

impl<C: PortPair, S: Semaphore> UsbControl for Platform<C, S> {
    fn get_usb_button(&mut self) -> (r: Result<bool, Error>) {
        let v = match self.locked_get(0x143) {
            Ok(v) => v,
            Err(e) => {
                return Err(e);
            },
        };
        Ok(v & 4 != 0)
    }
}

/// The EC firmware identity.
pub trait Firmware: Feature {
    /// The EC firmware version: the eight raw bytes of the version
    /// string, read from consecutive registers.
    fn get_version(&mut self) -> (r: Result<Vec<u8>, Error>)
        requires
            !old(self).feat_held(),
        ensures
            !final(self).feat_held(),
            old(self).feat_log().is_prefix_of(final(self).feat_log()),
            ({
                let delta = log_delta(old(self).feat_log(), final(self).feat_log());
                match r {
                    Ok(bytes) => bytes.len() == 8 && emits(delta) == version_frames(8),
                    Err(e) => Self::feat_infallible() ==> e == Error::Timeout || (e == Error::Lock && delta
                        == Seq::<Op>::empty()),
                }
            }),
    ;
}

impl<C: PortPair, S: Semaphore> Firmware for Platform<C, S> {
    fn get_version(&mut self) -> (r: Result<Vec<u8>, Error>) {
        let ghost pre = self.ec_log();
        match self.lock_ec() {
            Ok(()) => {},
            Err(e) => {
                proof {
                    assert(log_delta(pre, self.ec_log()) =~= Seq::<Op>::empty());
                    assert(pre.is_prefix_of(pre));
                }
                return Err(e);
            },
        }
        let dev = self.ec_bus();
        let ghost l0 = dev.log();
        let mut bytes: Vec<u8> = Vec::new();
        let mut failed: Option<Error> = None;
        let mut i: usize = 0;
        while i < 8
            invariant_except_break
                i <= 8,
                bytes.len() == i,
                failed is None,
                l0.is_prefix_of(dev.log()),
                emits(log_delta(l0, dev.log())) == version_frames(i as int),
            ensures
                l0.is_prefix_of(dev.log()),
                match failed {
                    None => bytes.len() == 8 && emits(log_delta(l0, dev.log())) == version_frames(
                        8,
                    ),
                    Some(e) => C::infallible() ==> e == Error::Timeout,
                },
            decreases 8 - i,
        {
            let ghost li = dev.log();
            let reg: u16 = 0x308 + (i as u16);
            match dev.get_byte(reg) {
                Ok(b) => {
                    bytes.push(b);
                },
                Err(e) => {
                    failed = Some(e);
                    proof {
                        let dprev = log_delta(l0, li);
                        assert(li =~= l0 + dprev);
                        assert(dev.log() =~= l0 + (dprev + log_delta(li, dev.log())));
                        assert(l0 =~= dev.log().subrange(0, l0.len() as int));
                    }
                    break ;
                },
            }
            proof {
                let di = log_delta(li, dev.log());
                let dprev = log_delta(l0, li);
                assert(li =~= l0 + dprev);
                assert(dev.log() =~= l0 + (dprev + di));
                assert(l0 =~= dev.log().subrange(0, l0.len() as int));
                assert(log_delta(l0, dev.log()) =~= dprev + di);
                broadcast use vstd::seq_lib::group_filter_ensures;

                assert(emits(dprev + di) =~= version_frames(i as int) + get_frame(reg));
                assert(emits(log_delta(l0, dev.log())) == version_frames(i + 1 as int));
            }
            i = i + 1;
        }
        self.unlock_ec();
        match failed {
            Some(e) => {
                proof {
                    assert(pre =~= self.ec_log().subrange(0, pre.len() as int));
                }
                Err(e)
            },
            None => {
                proof {
                    assert(pre =~= self.ec_log().subrange(0, pre.len() as int));
                    assert(log_delta(pre, self.ec_log()) == log_delta(l0, self.ec_log()));
                }
                Ok(bytes)
            },
        }
    }
}

/// A prefix of `a` is a prefix of `a + b`.
proof fn lemma_prefix_concat(a: Seq<Op>, p: Seq<Op>, b: Seq<Op>)
    requires
        p.is_prefix_of(b),
    ensures
        (a + p).is_prefix_of(a + b),
{
    assert(a + p =~= (a + b).subrange(0, (a + p).len() as int));
}

/// A prefix of `a` is a prefix of `a + b`.
proof fn lemma_prefix_transfer(p: Seq<Op>, a: Seq<Op>, b: Seq<Op>)
    requires
        p.is_prefix_of(a),
    ensures
        p.is_prefix_of(a + b),
{
    assert(p =~= (a + b).subrange(0, p.len() as int));
}

} // verus!
