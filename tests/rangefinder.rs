use cu_feetech::calibration::ServoCalibration;
use cu_feetech::rangefinder::RangeFinder;

#[test]
fn range_finder_tracks_extrema() {
    let mut f = RangeFinder::new(vec![5]);
    for pos in [100u16, 150, 90, 200, 90] {
        f.sample_cycle(&vec![Some(pos)]);
    }
    assert_eq!(f.cycles(), 5);
    let data = f.calibration();
    assert_eq!(data.servos, vec![ServoCalibration { id: 5, min: 90, max: 200 }]);
}

#[test]
fn range_finder_skips_failed_reads() {
    let mut f = RangeFinder::new(vec![4]);
    for reading in [Some(100u16), None, Some(300), None] {
        f.sample_cycle(&vec![reading]);
    }
    let data = f.calibration();
    assert_eq!(data.servos, vec![ServoCalibration { id: 4, min: 100, max: 300 }]);
}

#[test]
fn range_finder_keeps_sentinels_without_reads() {
    let mut f = RangeFinder::new(vec![1, 2]);
    f.sample_cycle(&vec![None, Some(512)]);
    let data = f.calibration();
    assert_eq!(
        data.servos,
        vec![
            ServoCalibration { id: 1, min: u16::MAX, max: 0 },
            ServoCalibration { id: 2, min: 512, max: 512 },
        ]
    );
    assert_eq!(data.servos[0].range(), 0);
    assert_eq!(f.ids(), &vec![1, 2]);
}

#[test]
fn range_finder_summary_every_thirty_cycles() {
    let mut f = RangeFinder::new(vec![1]);
    for n in 1..=60u64 {
        let due = f.sample_cycle(&vec![Some(n as u16)]);
        assert_eq!(due, n % 30 == 0);
    }
    let data = f.calibration();
    assert_eq!(data.servos, vec![ServoCalibration { id: 1, min: 1, max: 60 }]);
}

#[test]
fn range_finder_record_single_servo() {
    let mut f = RangeFinder::new(vec![1, 2]);
    f.record(1, Some(70));
    f.record(1, None);
    f.record(0, Some(65535));
    let data = f.calibration();
    assert_eq!(
        data.servos,
        vec![
            ServoCalibration { id: 1, min: 65535, max: 65535 },
            ServoCalibration { id: 2, min: 70, max: 70 },
        ]
    );
    assert_eq!(f.cycles(), 0);
}
