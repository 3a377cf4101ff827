use nbs_decoder::normalize_tick;

#[test]
fn ten_ticks_at_ten_per_second() {
    assert_eq!(normalize_tick(1000, 10), 20);
}

#[test]
fn zero_ticks_take_no_time() {
    for tempo in [1u16, 250, 1000, 2000, 65535] {
        assert_eq!(normalize_tick(tempo, 0), 0);
    }
}

#[test]
fn twenty_per_second_needs_no_conversion() {
    for ticks in [0u16, 1, 2, 19, 20, 1000, 65535] {
        assert_eq!(normalize_tick(2000, ticks), ticks);
    }
}

#[test]
fn exact_delays() {
    assert_eq!(normalize_tick(1000, 1), 2);
    assert_eq!(normalize_tick(500, 1), 4);
    assert_eq!(normalize_tick(250, 3), 24);
    assert_eq!(normalize_tick(4000, 8), 4);
    assert_eq!(normalize_tick(1500, 3), 4);
    assert_eq!(normalize_tick(100, 7), 140);
    assert_eq!(normalize_tick(1, 1), 2000);
}

#[test]
fn delays_round_to_the_nearest() {
    // 2000 / 3000 = 0.67
    assert_eq!(normalize_tick(3000, 1), 1);
    // 2000 / 6000 = 0.33
    assert_eq!(normalize_tick(6000, 1), 0);
    // 2 * 2000 / 3000 = 1.33
    assert_eq!(normalize_tick(3000, 2), 1);
    // 7 * 2000 / 1200 = 11.67
    assert_eq!(normalize_tick(1200, 7), 12);
}

#[test]
fn halves_round_up() {
    // 2000 / 4000 = 0.5
    assert_eq!(normalize_tick(4000, 1), 1);
    // 3 * 2000 / 4000 = 1.5
    assert_eq!(normalize_tick(4000, 3), 2);
    // 5 * 2000 / 4000 = 2.5
    assert_eq!(normalize_tick(4000, 5), 3);
    // 15 * 2000 / 480 = 62.5
    assert_eq!(normalize_tick(480, 15), 63);
    // 2000 / 16000 = 0.125, 4 * 0.125 = 0.5
    assert_eq!(normalize_tick(16000, 4), 1);
    assert_eq!(normalize_tick(16000, 3), 0);
}

#[test]
fn long_delays_are_capped() {
    assert_eq!(normalize_tick(1, 33), 65535);
    assert_eq!(normalize_tick(1, 65535), 65535);
    assert_eq!(normalize_tick(1000, 65535), 65535);
    assert_eq!(normalize_tick(1000, 32768), 65535);
    assert_eq!(normalize_tick(1000, 32767), 65534);
    assert_eq!(normalize_tick(1999, 65535), 65535);
    assert_eq!(normalize_tick(2001, 65535), 65502);
}

#[test]
fn tempo_zero() {
    assert_eq!(normalize_tick(0, 0), 0);
    assert_eq!(normalize_tick(0, 1), 65535);
    assert_eq!(normalize_tick(0, 65535), 65535);
}

#[test]
fn delay_agrees_with_the_formula_in_floating_point() {
    for tempo in [100u16, 200, 250, 400, 500, 800, 1000, 1250, 1600, 2000, 2500, 4000, 5000] {
        for ticks in 0u16..400 {
            let expected = (ticks as f64 * (20.0 / (tempo as f64 / 100.0))).round();
            let expected = if expected > 65535.0 { 65535 } else { expected as u16 };
            assert_eq!(normalize_tick(tempo, ticks), expected);
        }
    }
}

#[test]
fn delay_is_nearest_for_every_tempo_at_chosen_distances() {
    for tempo in 1..=u16::MAX {
        for ticks in [1u16, 2, 3, 7, 20, 255, 1000, 40000] {
            let delay = normalize_tick(tempo, ticks) as i64;
            let scaled = 4000 * ticks as i64;
            if delay < 65535 {
                assert!((2 * delay - 1) * tempo as i64 <= scaled);
                assert!(scaled < (2 * delay + 1) * tempo as i64);
            } else {
                assert!((2 * 65535 - 1) * tempo as i64 <= scaled);
            }
        }
    }
}

#[test]
fn longer_distance_never_gives_shorter_delay() {
    for tempo in [0u16, 1, 7, 480, 1000, 1999, 2000, 2001, 30000, 65535] {
        let mut last = 0;
        for ticks in 0..=u16::MAX {
            let delay = normalize_tick(tempo, ticks);
            assert!(last <= delay);
            last = delay;
        }
    }
}
