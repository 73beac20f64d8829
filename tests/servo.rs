use pca9685_servo::{BusError, Driver, Motor, RecordingBus, MAX_ANGLE, MAX_VALUE, MIN_VALUE};

fn pairs(driver: &Driver<RecordingBus>) -> Vec<(u8, u8)> {
    driver.bus().calls().iter().map(|c| (c.bytes[0], c.bytes[1])).collect()
}

#[test]
fn angle_above_max_is_clamped() {
    assert_eq!(Motor::clamp_angle(150_000), MAX_ANGLE);
    assert_eq!(Motor::clamp_angle(120_001), 120_000);
    assert_eq!(Motor::clamp_angle(120_000), 120_000);
    assert_eq!(Motor::clamp_angle(45_000), 45_000);
    assert_eq!(Motor::off_value(150_000), 424);

    let mut driver = Driver::new(RecordingBus::new(Vec::new()), 0x40, 100);
    let mut motor = Motor::new(2, 0);
    assert_eq!(motor.set_angle(150_000, &mut driver), Ok(()));
    assert_eq!(motor.angle(), 120_000);
    assert_eq!(pairs(&driver), vec![(14, 0), (15, 0), (16, 0xA8), (17, 0x01)]);
}

#[test]
fn duty_at_endpoints() {
    assert_eq!(Motor::off_value(0), 116);
    assert_eq!(Motor::off_value(0), MIN_VALUE);
    assert_eq!(Motor::off_value(120_000), 424);
    assert_eq!(Motor::off_value(MAX_ANGLE), MAX_VALUE);
}

#[test]
fn duty_at_sixty_degrees() {
    assert_eq!(Motor::off_value(60_000), 270);
}

#[test]
fn duty_rounds_to_nearest() {
    // 15 degrees is exactly 154.5 counts: the half goes up.
    assert_eq!(Motor::off_value(15_000), 155);
    // 30 degrees is exactly 193 counts.
    assert_eq!(Motor::off_value(30_000), 193);
    // 1 degree is 118.566... counts.
    assert_eq!(Motor::off_value(1_000), 119);
    // 119.9 degrees is 423.743... counts.
    assert_eq!(Motor::off_value(119_900), 424);
}

#[test]
fn duty_below_zero() {
    // -10 degrees is 90.33... counts.
    assert_eq!(Motor::off_value(-10_000), 90);
    assert_eq!(Motor::off_value(-50_000), 0);
    assert_eq!(Motor::off_value(i32::MIN), 0);
}

#[test]
fn led_on_zero_writes_both_registers() {
    for c in 0u8..16 {
        let mut driver = Driver::new(RecordingBus::new(Vec::new()), 0x40, 100);
        assert_eq!(driver.write_led_on_register(c, 0), Ok(()));
        assert_eq!(pairs(&driver), vec![(4 * c + 6, 0), (4 * c + 7, 0)]);
    }
}

#[test]
fn led_on_splits_value() {
    let mut driver = Driver::new(RecordingBus::new(Vec::new()), 0x40, 100);
    assert_eq!(driver.write_led_on_register(1, 0x0ABC), Ok(()));
    assert_eq!(pairs(&driver), vec![(10, 0xBC), (11, 0x0A)]);
}

#[test]
fn led_off_splits_value() {
    for c in 0u8..16 {
        let mut driver = Driver::new(RecordingBus::new(Vec::new()), 0x40, 100);
        assert_eq!(driver.write_led_off_register(c, 0x01A8), Ok(()));
        assert_eq!(pairs(&driver), vec![(4 * c + 8, 0xA8), (4 * c + 9, 0x01)]);
    }
    let mut driver = Driver::new(RecordingBus::new(Vec::new()), 0x40, 100);
    assert_eq!(driver.write_led_off_register(15, 0xFFFF), Ok(()));
    assert_eq!(pairs(&driver), vec![(68, 0xFF), (69, 0x0F)]);
}

#[test]
fn channel_out_of_range_wraps() {
    let mut driver = Driver::new(RecordingBus::new(Vec::new()), 0x40, 100);
    assert_eq!(driver.write_led_off_register(64, 0x0123), Ok(()));
    assert_eq!(pairs(&driver), vec![(8, 0x23), (9, 0x01)]);
}

#[test]
fn prescale_sequence_in_order() {
    let mut driver = Driver::new(RecordingBus::new(Vec::new()), 0x40, 100);
    assert_eq!(driver.write_prescale_value(0x79), Ok(()));
    assert_eq!(pairs(&driver), vec![(0x00, 0x11), (0xFE, 0x79), (0x00, 0x01)]);
}

#[test]
fn prescale_sends_all_writes_after_failure() {
    let mut driver = Driver::new(RecordingBus::new(vec![(0, 0x107)]), 0x40, 100);
    assert_eq!(driver.write_prescale_value(3), Err(BusError { code: 0x107 }));
    assert_eq!(pairs(&driver), vec![(0x00, 0x11), (0xFE, 3), (0x00, 0x01)]);
}

#[test]
fn write_register_timeouts() {
    let mut driver = Driver::new(RecordingBus::new(Vec::new()), 0x41, 100);
    assert_eq!(driver.device_address(), 0x41);
    assert_eq!(driver.default_timeout(), 100);
    assert_eq!(driver.write_register(0x05, 0x66, None), Ok(()));
    assert_eq!(driver.write_register(0x07, 0x77, Some(9)), Ok(()));
    let calls: Vec<(u8, Vec<u8>, u32)> = driver
        .bus()
        .calls()
        .iter()
        .map(|c| (c.address, c.bytes.clone(), c.timeout))
        .collect();
    assert_eq!(calls, vec![(0x41, vec![0x05, 0x66], 100), (0x41, vec![0x07, 0x77], 9)]);
}

#[test]
fn write_register_reports_failure() {
    let mut driver = Driver::new(RecordingBus::new(vec![(1, 0x108)]), 0x40, 100);
    assert_eq!(driver.write_register(0x01, 0x02, None), Ok(()));
    assert_eq!(driver.write_register(0x03, 0x04, None), Err(BusError { code: 0x108 }));
    assert_eq!(driver.bus().calls()[1].result, Err(BusError { code: 0x108 }));
}

#[test]
fn default_and_explicit_timeout_calls() {
    let mut driver = Driver::new(RecordingBus::new(Vec::new()), 0x40, 1000);
    assert_eq!(driver.write_register(0xFE, 0x79, None), Ok(()));
    assert_eq!(driver.write_register(0x06, 0x00, Some(5)), Ok(()));
    let calls = driver.bus().calls();
    assert_eq!((calls[0].address, calls[0].bytes.clone(), calls[0].timeout), (0x40, vec![0xFE, 0x79], 1000));
    assert_eq!((calls[1].address, calls[1].bytes.clone(), calls[1].timeout), (0x40, vec![0x06, 0x00], 5));
}

#[test]
fn set_angle_twice_sends_same_writes() {
    let mut driver = Driver::new(RecordingBus::new(Vec::new()), 0x40, 100);
    let mut motor = Motor::new(5, 10_000);
    assert_eq!(motor.set_angle(60_000, &mut driver), Ok(()));
    assert_eq!(motor.set_angle(60_000, &mut driver), Ok(()));
    let sent: Vec<(u8, Vec<u8>, u32)> = driver
        .bus()
        .calls()
        .iter()
        .map(|c| (c.address, c.bytes.clone(), c.timeout))
        .collect();
    assert_eq!(sent.len(), 8);
    assert_eq!(sent[0..4], sent[4..8]);
    assert_eq!(
        pairs(&driver)[0..4],
        [(26, 0), (27, 0), (28, 0x0E), (29, 0x01)]
    );
    assert_eq!(motor.angle(), 60_000);
    assert_eq!(motor.port(), 5);
}

#[test]
fn new_motor_sends_nothing() {
    let driver = Driver::new(RecordingBus::new(Vec::new()), 0x40, 100);
    let motor = Motor::new(7, 200_000);
    assert_eq!(motor.angle(), 200_000);
    assert_eq!(motor.port(), 7);
    assert!(driver.bus().calls().is_empty());
}

#[test]
fn failed_write_keeps_angle() {
    for k in 0usize..4 {
        let mut driver = Driver::new(RecordingBus::new(vec![(k, 0x107 + k as i32)]), 0x40, 100);
        let mut motor = Motor::new(0, 30_000);
        assert_eq!(
            motor.set_angle(90_000, &mut driver),
            Err(BusError { code: 0x107 + k as i32 })
        );
        assert_eq!(motor.angle(), 30_000);
        assert_eq!(driver.bus().calls().len(), 4);
    }
}

#[test]
fn first_failure_is_returned() {
    let mut driver = Driver::new(RecordingBus::new(vec![(1, 0x108), (3, 0x10A)]), 0x40, 100);
    let mut motor = Motor::new(0, 30_000);
    assert_eq!(motor.set_angle(90_000, &mut driver), Err(BusError { code: 0x108 }));
    assert_eq!(motor.angle(), 30_000);
    assert_eq!(motor.set_angle(90_000, &mut driver), Ok(()));
    assert_eq!(motor.angle(), 90_000);
}
