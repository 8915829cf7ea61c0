//! Behaviour of the plain-value device logic: ports, errors, status
//! bits, colors, the screen writer and the logger's prefix parts.

use pros::adi::{AdiDigitalIn, AdiDigitalOut, AdiError, AdiPort};
use pros::display::V5BrainDisplay;
use pros::distance::DistanceSensor;
use pros::color::Rgb;
use pros::competition::{is_autonomous, is_connected, is_disabled, CompetitionStatus};
use pros::errors::{ErrnoError, FromErrno, PortError};
use pros::lcd::{word_wrap, ConsoleLcd};
use pros::logger::{level_label, split_uptime, LogLevel};
use pros::controller::ControllerError;
use pros::serial::{SerialError, SerialPort};
use pros::vision::{LedMode, VisionError, WhiteBalance};

#[test]
fn adi_port_range_is_checked() {
    assert!(AdiPort::try_new(0).is_none());
    assert_eq!(AdiPort::try_new(1).unwrap().port_number(), 1);
    assert_eq!(AdiPort::try_new(7).unwrap().port_number(), 7);
    assert!(AdiPort::try_new(8).is_none());
    assert_eq!(AdiPort::new_unchecked(9).port_number(), 9);
}

#[test]
fn adi_digital_in_range_is_checked() {
    assert!(matches!(AdiDigitalIn::try_new(0), Err(AdiError::InvalidPort)));
    assert!(AdiDigitalIn::try_new(1).is_ok());
    assert!(AdiDigitalIn::try_new(8).is_ok());
    assert!(matches!(AdiDigitalIn::try_new(9), Err(AdiError::InvalidPort)));
}

#[test]
fn adi_digital_out_range_is_checked() {
    assert!(matches!(AdiDigitalOut::new(0), Err(AdiError::InvalidPort)));
    assert!(AdiDigitalOut::new(8).is_ok());
    assert!(matches!(AdiDigitalOut::new(9), Err(AdiError::InvalidPort)));
}

#[test]
fn port_error_maps_its_error_numbers() {
    assert_eq!(PortError::from_errno(6), PortError::PortOutOfRange);
    assert_eq!(PortError::from_errno(19), PortError::PortCannotBeConfigured);
    assert_eq!(
        PortError::from_errno(99),
        PortError::Unknown(ErrnoError { errno: 99 })
    );
    assert_eq!(PortError::try_from_errno(5), None);
}

#[test]
fn adi_error_maps_its_error_numbers() {
    assert_eq!(AdiError::from_errno(13), AdiError::AlreadyInUse);
    assert_eq!(AdiError::from_errno(98), AdiError::DigitalInputNotConfigured);
    assert_eq!(
        AdiError::from_errno(6),
        AdiError::Port(PortError::PortOutOfRange)
    );
    assert_eq!(
        AdiError::from_errno(50),
        AdiError::Port(PortError::Unknown(ErrnoError { errno: 50 }))
    );
}

#[test]
fn errno_error_keeps_the_number() {
    assert_eq!(ErrnoError::from_errno(7), ErrnoError { errno: 7 });
    assert_eq!(ErrnoError::try_from_errno(7), None);
}

#[test]
fn competition_status_bits() {
    let status = CompetitionStatus(0b101);
    assert!(status.autonomous());
    assert!(!status.disabled());
    assert!(status.connected());
    assert!(is_autonomous(status));
    assert!(!is_disabled(status));
    assert!(is_connected(status));
    let idle = CompetitionStatus(0);
    assert!(!is_autonomous(idle));
    assert!(!is_disabled(idle));
    assert!(!is_connected(idle));
}

#[test]
fn rgb_packs_red_high_blue_low() {
    assert_eq!(Rgb::new(0x01, 0x02, 0x03).to_u32(), 0x010203);
    assert_eq!(Rgb::new(0xff, 0, 0).to_u32(), 0xff0000);
}

#[test]
fn rgb_unpacks_the_low_three_bytes() {
    let c = Rgb::from_u32(0xaabbcc);
    assert_eq!((c.r, c.g, c.b), (0xaa, 0xbb, 0xcc));
    let high_bits_ignored = Rgb::from_u32(0xff010203);
    assert_eq!(
        (high_bits_ignored.r, high_bits_ignored.g, high_bits_ignored.b),
        (0x01, 0x02, 0x03)
    );
}

#[test]
fn rgb_roundtrip() {
    let c = Rgb::new(12, 34, 56);
    assert_eq!(Rgb::from_u32(c.to_u32()), c);
}

#[test]
fn word_wrap_keeps_a_fitting_line() {
    let wrapped = word_wrap(&b"hello world".to_vec());
    assert_eq!(wrapped, b"hello world ".to_vec());
}

#[test]
fn word_wrap_breaks_before_a_word_that_does_not_fit() {
    let word = [b'a'; 15];
    let mut text = Vec::new();
    text.extend_from_slice(&word);
    text.push(b' ');
    text.extend_from_slice(&word);
    text.push(b' ');
    text.extend_from_slice(&word);
    let wrapped = word_wrap(&text);
    let mut expected = Vec::new();
    expected.extend_from_slice(&word);
    expected.push(b' ');
    expected.extend_from_slice(&word);
    expected.push(b' ');
    expected.push(b'\n');
    expected.extend_from_slice(&word);
    expected.push(b' ');
    assert_eq!(wrapped, expected);
}

#[test]
fn word_wrap_of_empty_text_is_one_space() {
    assert_eq!(word_wrap(&Vec::new()), b" ".to_vec());
}

#[test]
fn console_gathers_until_a_line_completes() {
    let mut console = ConsoleLcd::new();
    assert!(!console.write_str(&b"hi".to_vec()));
    // A word too wide for the room left forces a newline, completing
    // the gathered line.
    let long = [b'x'; 45];
    assert!(console.write_str(&long.to_vec()));
    let rows = console.display_rows();
    assert_eq!(rows.len(), 8);
    assert_eq!(rows[7], b"hi ".to_vec());
    assert_eq!(rows[6], Vec::<u8>::new());
}

#[test]
fn adi_motor_range_is_checked() {
    assert!(matches!(pros::adi::AdiMotor::new(0), Err(AdiError::InvalidPort)));
    assert!(pros::adi::AdiMotor::new(8).is_ok());
    assert!(matches!(pros::adi::AdiMotor::new(9), Err(AdiError::InvalidPort)));
}

#[test]
fn analog_pins_keep_their_port() {
    assert_eq!(pros::adi::AdiAnalogIn::new(3).port_number(), 3);
    assert_eq!(pros::adi::AdiAnalogOut::new(4).port_number(), 4);
}

#[test]
fn serial_error_maps_its_error_numbers() {
    assert_eq!(SerialError::from_errno(5), SerialError::InternalWriteError);
    assert_eq!(
        SerialError::from_errno(6),
        SerialError::Port(PortError::PortOutOfRange)
    );
    assert_eq!(
        SerialError::from_errno(70),
        SerialError::Port(PortError::Unknown(ErrnoError { errno: 70 }))
    );
    assert_eq!(SerialPort::new(12).port_index(), 12);
}

#[test]
fn vision_error_maps_its_error_numbers() {
    assert_eq!(VisionError::from_errno(112), VisionError::ReadingFailed);
    assert_eq!(VisionError::from_errno(11), VisionError::ReadingFailed);
    assert_eq!(VisionError::from_errno(33), VisionError::IndexTooHigh);
    assert_eq!(VisionError::from_errno(22), VisionError::InvalidIdentifier);
    assert_eq!(VisionError::from_errno(13), VisionError::ConcurrentAccess);
    assert_eq!(
        VisionError::from_errno(19),
        VisionError::Port(PortError::PortCannotBeConfigured)
    );
    assert_eq!(WhiteBalance::default(), WhiteBalance::Auto);
    assert_eq!(LedMode::default(), LedMode::Auto);
    assert_eq!(
        WhiteBalance::Manual(Rgb::new(1, 2, 3)),
        WhiteBalance::Manual(Rgb::new(1, 2, 3))
    );
}

#[test]
fn controller_error_maps_its_error_numbers() {
    assert_eq!(
        ControllerError::try_from_errno(13),
        Some(ControllerError::ConcurrentAccess)
    );
    assert_eq!(
        ControllerError::try_from_errno(22),
        Some(ControllerError::InvalidControllerId)
    );
    assert_eq!(ControllerError::try_from_errno(5), None);
    assert_eq!(ControllerError::from_errno(13), ControllerError::ConcurrentAccess);
}

#[test]
fn distance_sensor_checks_the_smart_port_range() {
    assert!(matches!(
        DistanceSensor::new(0),
        Err(PortError::PortOutOfRange)
    ));
    assert_eq!(DistanceSensor::new(1).unwrap().port_number(), 1);
    assert_eq!(DistanceSensor::new(21).unwrap().port_number(), 21);
    assert!(matches!(
        DistanceSensor::new(22),
        Err(PortError::PortOutOfRange)
    ));
}

#[test]
fn gyro_and_potentiometer_keep_port_and_handle() {
    let gyro = pros::adi::AdiGyro::new(2, 17);
    assert_eq!(gyro.device_handle(), 17);
    let pot = pros::adi::AdiPotentiometer::new(3, 9).unwrap();
    assert_eq!(pot.device_handle(), 9);
    assert!(matches!(
        pros::adi::AdiPotentiometer::new(0, 9),
        Err(AdiError::InvalidPort)
    ));
}

#[test]
fn display_draws_on_screen_pixels_only() {
    let mut display = V5BrainDisplay::new();
    display.draw_pixel(3, 2, Rgb::new(0x01, 0x02, 0x03));
    assert_eq!(display.pixel(3, 2), 0x010203);
    assert_eq!(display.pixel(2, 3), 0);
    // Off-screen coordinates change nothing and nothing panics.
    display.draw_pixel(-1, 0, Rgb::new(9, 9, 9));
    display.draw_pixel(480, 0, Rgb::new(9, 9, 9));
    display.draw_pixel(0, 272, Rgb::new(9, 9, 9));
    assert_eq!(display.pixel(0, 0), 0);
    assert_eq!(display.pixel(479, 271), 0);
}

#[test]
fn uptime_splits_into_minutes_and_seconds() {
    assert_eq!(split_uptime(125_000), (2, 5, 125));
    assert_eq!(split_uptime(59_999), (0, 59, 59));
    assert_eq!(split_uptime(0), (0, 0, 0));
}

#[test]
fn level_labels_are_single_letters() {
    assert_eq!(level_label(LogLevel::Error), "E");
    assert_eq!(level_label(LogLevel::Warn), "W");
    assert_eq!(level_label(LogLevel::Info), "I");
    assert_eq!(level_label(LogLevel::Debug), "D");
    assert_eq!(level_label(LogLevel::Trace), "T");
}
