use fin_esp::dht22::{
    phase_is_high, read, slot_index, store_due, Activity, ChartCache, ChartRefresher, Dht22Error,
    Dht22Reading, LastReading, NO_READING, PHASES,
};
use fin_esp::volume::{
    calibrate, is_silent, publish, trimmed_mean, VolumeFilter, FINE_MAX, NO_VALUE,
};

/// The phases of an answer with these five bytes, most significant bit first.
fn answer(bytes: [u8; 5]) -> Vec<Option<i64>> {
    let mut p = vec![Some(20), Some(80), Some(80)];
    for b in bytes {
        for k in (0..8).rev() {
            p.push(Some(50));
            p.push(Some(if b >> k & 1 == 1 { 70 } else { 27 }));
        }
    }
    p
}

#[test]
fn readings_come_back() {
    let p = answer([0x02, 0x8C, 0x01, 0x5F, 0xEE]);
    assert_eq!(p.len(), PHASES);
    assert_eq!(
        read(Ok(()), &p),
        Ok(Dht22Reading { temp_tenths: 351, negative: false, humidity_tenths: 652 })
    );
    let p = answer([0x02, 0x8C, 0x80, 0x65, 0x73]);
    assert_eq!(
        read(Ok(()), &p),
        Ok(Dht22Reading { temp_tenths: 101, negative: true, humidity_tenths: 652 })
    );
}

#[test]
fn bad_readings_are_refused() {
    assert_eq!(read(Ok(()), &answer([1, 2, 3, 4, 11])), Err(Dht22Error::ChecksumMismatch));
    // The sum wraps.
    assert!(read(Ok(()), &answer([200, 100, 0, 0, 44])).is_ok());
    let mut p = answer([0; 5]);
    p[2] = None;
    assert_eq!(read(Ok(()), &p), Err(Dht22Error::Timeout));
    let mut p = answer([0; 5]);
    p[82] = None;
    assert_eq!(read(Ok(()), &p), Err(Dht22Error::Timeout));
    assert_eq!(read(Err(-7), &answer([0; 5])), Err(Dht22Error::Gpio(-7)));
    assert!(phase_is_high(0) && !phase_is_high(1) && phase_is_high(82));
    // A phase of forty microseconds is still a zero.
    let mut p = answer([0; 5]);
    p[4] = Some(40);
    assert!(read(Ok(()), &p).is_ok());
}

#[test]
fn the_last_reading_is_whole_or_missing() {
    let mut l = LastReading::new();
    assert_eq!(l.last_reading(), None);
    l.temp_c = 26.5f32.to_bits();
    assert_eq!(l.last_reading(), None);
    l.humidity_pct = 60.0f32.to_bits();
    assert_eq!(l.last_reading(), Some((26.5f32.to_bits(), 60.0f32.to_bits())));
    l.temp_c = NO_READING;
    assert_eq!(l.last_reading(), None);
}

#[test]
fn an_open_dashboard_speeds_up_reading() {
    let mut a = Activity::new();
    assert_eq!(a.read_interval(3_000), 2_000);
    assert_eq!(a.read_interval(60_000), 30_000);
    a.mark_dashboard_active(60_000);
    assert_eq!(a.read_interval(66_000), 2_000);
    assert_eq!(a.read_interval(66_001), 30_000);
    // A stamp from the future counts as now.
    assert_eq!(a.read_interval(59_000), 2_000);
    assert!(store_due(30_000, 0));
    assert!(!store_due(29_999, 0));
    assert!(!store_due(5, 10));
}

#[test]
fn a_silent_refresher_is_noticed() {
    let mut a = Activity::new();
    assert_eq!(a.refresher_stuck_for_ms(29_999), None);
    assert_eq!(a.refresher_stuck_for_ms(30_000), Some(30_000));
    a.beat(40_000);
    assert_eq!(a.refresher_stuck_for_ms(45_000), Some(5_000));
    a.beat(u32::MAX);
    assert_eq!(a.refresher_stuck_for_ms(4), Some(5));
}

#[test]
fn ranges_are_fetched_on_demand() {
    let mut c = ChartCache::new();
    assert_eq!(slot_index(1), Some(0));
    assert_eq!(slot_index(6), Some(1));
    assert_eq!(slot_index(24), Some(2));
    assert_eq!(slot_index(2), None);
    assert!(!c.request_range(2));
    assert!(c.request_range(6));
    assert!(!c.take_wanted(0));
    assert!(c.take_wanted(1));
    assert!(!c.take_wanted(1));
    assert!(c.with_cached_range_json(6, |s| s.is_none()));
    c.store_range(1, Some("six".to_string()));
    assert_eq!(c.with_cached_range_json(6, |s| s.map(|t| t.len())), Some(3));
    c.store_range(1, None);
    assert_eq!(c.with_cached_range_json(6, |s| s.map(|t| t.to_string())).as_deref(), Some("six"));
    assert!(c.with_cached_range_json(5, |s| s.is_none()));
    assert!(c.with_cached_chart_json(|s| s.is_none()));
}

#[test]
fn the_live_chart_is_refreshed() {
    let mut c = ChartCache::new();
    let mut r = ChartRefresher::new();
    assert!(r.due());
    r.fetched(&mut c, None);
    for _ in 0..5 {
        assert!(!r.due());
        r.advance();
    }
    assert!(r.due());
    r.fetched(&mut c, Some("live".to_string()));
    assert_eq!(c.with_cached_chart_json(|s| s.map(|t| t.to_string())).as_deref(), Some("live"));
    for _ in 0..30 {
        assert!(!r.due());
        r.advance();
    }
    assert!(r.due());
}

#[test]
fn outliers_do_not_count() {
    let mut s = [1_000u16; 15];
    assert_eq!(trimmed_mean(&s), 1_000);
    for i in 0..4 {
        s[i] = 4_095;
        s[14 - i] = 0;
    }
    assert_eq!(trimmed_mean(&s), 1_000);
    let s = [15, 1, 14, 2, 13, 3, 12, 4, 11, 5, 10, 6, 9, 7, 8];
    assert_eq!(trimmed_mean(&s), 8);
    let s = [0, 0, 0, 0, 1, 2, 3, 4, 5, 6, 8, 9, 9, 9, 9];
    assert_eq!(trimmed_mean(&s), 29 / 7);
}

#[test]
fn the_knob_is_calibrated() {
    assert_eq!(calibrate(0), 0);
    assert_eq!(calibrate(285), 0);
    assert_eq!(calibrate(3_063), 4_095);
    assert_eq!(calibrate(4_095), 4_095);
    assert_eq!(calibrate(1_674), 1_389 * 4_095 / 2_778);
    assert!(is_silent(9));
    assert!(!is_silent(10));
}

#[test]
fn the_volume_stands_still_while_the_knob_does() {
    let mut f = VolumeFilter::new();
    assert_eq!(f.smoothed, NO_VALUE);
    assert_eq!(f.track(20_000), 78);
    assert_eq!(f.track(21_279), 78);
    assert_eq!(f.track(18_721), 78);
    assert_eq!(f.smoothed, 20_000);
    // One spike is invisible.
    assert_eq!(f.track(FINE_MAX), 78);
    assert_eq!(f.track(20_100), 78);
    assert_eq!(f.smoothed, 20_000);
}

#[test]
fn the_volume_follows_a_move() {
    let mut f = VolumeFilter::new();
    f.track(20_000);
    f.track(30_000);
    f.track(30_000);
    assert_eq!(f.smoothed, (20_000 * 56 + 30_000 * 200) / 256);
    let mut f = VolumeFilter::new();
    f.track(20_000);
    f.track(22_560);
    f.track(22_560);
    // Half way between slow and fast: 80 + 1280 * 120 / 2560.
    assert_eq!(f.smoothed, (20_000 * 116 + 22_560 * 140) / 256);
    assert_eq!(f.move_count, 2);
    let mut f = VolumeFilter::new();
    f.track(0);
    for _ in 0..50 {
        f.track(FINE_MAX);
    }
    assert!(f.smoothed <= FINE_MAX && FINE_MAX - f.smoothed < 1_280);
}

#[test]
fn small_changes_are_not_published() {
    assert_eq!(publish(50, 255, true), 50);
    assert_eq!(publish(54, 50, true), 50);
    assert_eq!(publish(55, 50, true), 55);
    assert_eq!(publish(45, 50, true), 45);
    assert_eq!(publish(99, 50, false), 50);
}
