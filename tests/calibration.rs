use cu_feetech::calibration::{CalibrationData, ServoCalibration, Units};

#[test]
fn units_parse_known_names() {
    assert_eq!("raw".parse::<Units>(), Ok(Units::Raw));
    assert_eq!("deg".parse::<Units>(), Ok(Units::Deg));
    assert_eq!("rad".parse::<Units>(), Ok(Units::Rad));
    assert_eq!("normalize".parse::<Units>(), Ok(Units::Normalize));
    assert_eq!(Units::parse("norm"), Ok(Units::Normalize));
}

#[test]
fn units_refuse_unknown_names() {
    assert_eq!("degrees".parse::<Units>(), Err(()));
    assert_eq!(Units::parse(""), Err(()));
    assert_eq!(Units::parse("RAW"), Err(()));
    assert_eq!(Units::parse("nor"), Err(()));
}

#[test]
fn units_default_to_raw() {
    assert_eq!(Units::default(), Units::Raw);
}

#[test]
fn range_is_max_minus_min() {
    let s = ServoCalibration { id: 1, min: 100, max: 4000 };
    assert_eq!(s.range(), 3900);
}

#[test]
fn range_of_unsampled_servo_is_zero() {
    let s = ServoCalibration { id: 3, min: u16::MAX, max: u16::MIN };
    assert_eq!(s.range(), 0);
}

#[test]
fn lookup_first_match_wins() {
    let data = CalibrationData {
        servos: vec![
            ServoCalibration { id: 1, min: 100, max: 4000 },
            ServoCalibration { id: 2, min: 50, max: 3900 },
            ServoCalibration { id: 1, min: 7, max: 8 },
        ],
    };
    assert_eq!(data.lookup(1), Some(ServoCalibration { id: 1, min: 100, max: 4000 }));
    assert_eq!(data.lookup(2), Some(ServoCalibration { id: 2, min: 50, max: 3900 }));
    assert_eq!(data.lookup(9), None);
    assert_eq!(CalibrationData::default().lookup(1), None);
}
