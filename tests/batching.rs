use goster::protocol::{MAX_SAMPLES, SENSOR_TYPE_HUMI, SENSOR_TYPE_LUX, SENSOR_TYPE_TEMP};
use goster::sensor_manager::SensorManager;

fn sample(m: &mut SensorManager, sec: u32, t: f32, h: f32, l: f32) {
    m.do_sample(sec, Some((t.to_bits(), h.to_bits())), l.to_bits());
}

#[test]
fn small_batch_scenario() {
    let mut m = SensorManager::with_capacity(4).unwrap();
    for sec in [100u32, 101, 102] {
        sample(&mut m, sec, 1.0, 50.0, 10.0);
    }
    assert_eq!(m.len(), 3);
    assert!(m.is_almost_full());
    assert!(!m.is_full());
    let reports = m.take_reports(1000);
    assert_eq!(reports.len(), 3);
    for r in reports.iter() {
        assert_eq!(r.start_timestamp, 100_000);
        assert_eq!(r.sample_interval, 1000);
        assert_eq!(r.count, 3);
        assert_eq!(r.data_blob.len(), 3);
    }
    let one = 1.0f32.to_bits();
    assert_eq!(reports[0].data_blob.as_slice(), &[one, one, one]);
    assert_eq!(reports[0].data_type, SENSOR_TYPE_TEMP);
    assert_eq!(reports[1].data_blob.as_slice(), &[50.0f32.to_bits(); 3]);
    assert_eq!(reports[1].data_type, SENSOR_TYPE_HUMI);
    assert_eq!(reports[2].data_blob.as_slice(), &[10.0f32.to_bits(); 3]);
    assert_eq!(reports[2].data_type, SENSOR_TYPE_LUX);
    assert_eq!(m.len(), 0);
    assert!(!m.is_almost_full());
}

#[test]
fn drain_leaves_buffers_empty_with_equal_counts() {
    let mut m = SensorManager::new();
    for i in 0..10u32 {
        sample(&mut m, 1000 + i, i as f32, 2.0 * i as f32, 0.5);
    }
    let reports = m.take_reports(60_000);
    assert!(reports.iter().all(|r| r.count == 10 && r.data_blob.len() == 10));
    assert!(reports.iter().all(|r| r.start_timestamp == 1_000_000));
    assert_eq!(m.len(), 0);
    let again = m.take_reports(60_000);
    assert!(again.iter().all(|r| r.count == 0 && r.data_blob.is_empty()));
}

#[test]
fn batch_start_is_first_sample_time() {
    let mut m = SensorManager::new();
    sample(&mut m, 7, 1.0, 1.0, 1.0);
    sample(&mut m, 9, 1.0, 1.0, 1.0);
    assert_eq!(m.take_reports(1)[0].start_timestamp, 7000);
    sample(&mut m, u32::MAX, 1.0, 1.0, 1.0);
    assert_eq!(m.take_reports(1)[0].start_timestamp, u32::MAX as u64 * 1000);
}

#[test]
fn failed_climate_read_records_zero() {
    let mut m = SensorManager::new();
    m.do_sample(5, None, 3.5f32.to_bits());
    let reports = m.take_reports(1);
    assert_eq!(reports[0].data_blob.as_slice(), &[0.0f32.to_bits()]);
    assert_eq!(reports[1].data_blob.as_slice(), &[0.0f32.to_bits()]);
    assert_eq!(reports[2].data_blob.as_slice(), &[3.5f32.to_bits()]);
}

#[test]
fn almost_full_threshold_at_default_capacity() {
    let mut m = SensorManager::new();
    for i in 0..47u32 {
        sample(&mut m, i, 1.0, 1.0, 1.0);
    }
    assert_eq!(m.len(), 47);
    assert!(!m.is_almost_full());
    sample(&mut m, 47, 1.0, 1.0, 1.0);
    assert!(m.is_almost_full());
    assert!(!m.is_full());
}

#[test]
fn almost_full_threshold_at_odd_capacity() {
    let mut m = SensorManager::with_capacity(5).unwrap();
    sample(&mut m, 0, 1.0, 1.0, 1.0);
    sample(&mut m, 1, 1.0, 1.0, 1.0);
    sample(&mut m, 2, 1.0, 1.0, 1.0);
    assert!(!m.is_almost_full());
    sample(&mut m, 3, 1.0, 1.0, 1.0);
    assert!(m.is_almost_full());
}

#[test]
fn full_buffers_drop_further_samples() {
    let mut m = SensorManager::new();
    for i in 0..(MAX_SAMPLES as u32 + 3) {
        sample(&mut m, i, i as f32, 0.0, 0.0);
    }
    assert!(m.is_full());
    assert_eq!(m.len(), MAX_SAMPLES);
    let reports = m.take_reports(1);
    assert_eq!(reports[0].count as usize, MAX_SAMPLES);
    assert_eq!(*reports[0].data_blob.last().unwrap(), (MAX_SAMPLES as f32 - 1.0).to_bits());
}

#[test]
fn capacity_must_be_in_range() {
    assert!(SensorManager::with_capacity(0).is_none());
    assert!(SensorManager::with_capacity(MAX_SAMPLES + 1).is_none());
    assert!(SensorManager::with_capacity(MAX_SAMPLES).is_some());
}
