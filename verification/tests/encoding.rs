use stats::{bits_of_key, classify, collect_line, is_finite_bits, key_of_bits, Line};

const SAMPLES: [f64; 15] = [
    -1.7976931348623157e308,
    -1.0e10,
    -2.5,
    -1.0,
    -2.2250738585072014e-308,
    -5e-324,
    0.0,
    5e-324,
    2.2250738585072014e-308,
    0.1,
    1.0,
    1.5,
    2.0,
    1.0e10,
    1.7976931348623157e308,
];

#[test]
fn keys_order_as_values_do() {
    for a in SAMPLES {
        for b in SAMPLES {
            let ka = key_of_bits(a.to_bits());
            let kb = key_of_bits(b.to_bits());
            assert_eq!(a < b, ka < kb);
            assert_eq!(a == b, ka == kb);
        }
    }
}

#[test]
fn key_round_trip() {
    for a in SAMPLES {
        let k = key_of_bits(a.to_bits());
        assert_eq!(bits_of_key(k), Some(a.to_bits()));
    }
}

#[test]
fn exact_keys() {
    assert_eq!(key_of_bits(0), 0);
    assert_eq!(key_of_bits(1.0f64.to_bits()), 0x3ff0_0000_0000_0000);
    assert_eq!(key_of_bits((-1.0f64).to_bits()), -0x3ff0_0000_0000_0000);
    assert_eq!(key_of_bits(5e-324f64.to_bits()), 1);
    assert_eq!(key_of_bits((-5e-324f64).to_bits()), -1);
    assert_eq!(bits_of_key(-1), Some(0x8000_0000_0000_0001));
    assert_eq!(bits_of_key(1), Some(1));
}

#[test]
fn zeros_share_a_key() {
    assert_eq!(key_of_bits(0.0f64.to_bits()), 0);
    assert_eq!(key_of_bits((-0.0f64).to_bits()), 0);
    assert_eq!(bits_of_key(0), Some(0));
}

#[test]
fn finite_patterns() {
    assert!(is_finite_bits(0.0f64.to_bits()));
    assert!(is_finite_bits((-0.0f64).to_bits()));
    assert!(is_finite_bits(f64::MAX.to_bits()));
    assert!(is_finite_bits(f64::MIN.to_bits()));
    assert!(!is_finite_bits(f64::INFINITY.to_bits()));
    assert!(!is_finite_bits(f64::NEG_INFINITY.to_bits()));
    assert!(!is_finite_bits(f64::NAN.to_bits()));
    assert!(!is_finite_bits((-f64::NAN).to_bits()));
    assert!(!is_finite_bits(u64::MAX));
}

#[test]
fn keys_outside_the_finite_range_have_no_pattern() {
    assert_eq!(bits_of_key(0x7ff0_0000_0000_0000), None);
    assert_eq!(bits_of_key(-0x7ff0_0000_0000_0000), None);
    assert_eq!(bits_of_key(i64::MAX), None);
    assert_eq!(bits_of_key(i64::MIN), None);
    assert_eq!(bits_of_key(0x7fef_ffff_ffff_ffff), Some(f64::MAX.to_bits()));
    assert_eq!(bits_of_key(-0x7fef_ffff_ffff_ffff), Some(f64::MIN.to_bits()));
}

#[test]
fn classify_each_fate() {
    assert_eq!(classify(None), Line::Unparseable);
    assert_eq!(classify(Some(f64::NAN.to_bits())), Line::NonFinite);
    assert_eq!(classify(Some(f64::INFINITY.to_bits())), Line::NonFinite);
    assert_eq!(classify(Some(f64::NEG_INFINITY.to_bits())), Line::NonFinite);
    assert_eq!(classify(Some(2.0f64.to_bits())), Line::Value(key_of_bits(2.0f64.to_bits())));
}

#[test]
fn skipped_lines_leave_the_sample_alone() {
    let mut sample: Vec<i64> = Vec::new();
    let parsed = [
        Some(1.0f64.to_bits()),
        None,
        Some(f64::NAN.to_bits()),
        Some(3.0f64.to_bits()),
        Some(f64::INFINITY.to_bits()),
        Some(f64::NEG_INFINITY.to_bits()),
        None,
        Some(1.0f64.to_bits()),
    ];
    let mut fates: Vec<Line> = Vec::new();
    for p in parsed {
        fates.push(collect_line(&mut sample, p));
    }
    let one = key_of_bits(1.0f64.to_bits());
    let three = key_of_bits(3.0f64.to_bits());
    assert_eq!(sample, vec![one, three, one]);
    assert_eq!(fates[0], Line::Value(one));
    assert_eq!(fates[1], Line::Unparseable);
    assert_eq!(fates[2], Line::NonFinite);
    let s = stats::stats(&mut sample);
    assert_eq!(s.len, 3);
    assert_eq!(s.mode, Some(one));
    assert_eq!(s.mode_count, 2);
    assert_eq!(s.max, Some(three));
}

#[test]
fn fields_in_row_order() {
    let names = [
        "len", "sum", "min", "max", "avg", "std", "mode", "mode#", "p50", "p75", "p90", "p95",
        "p99",
    ];
    assert_eq!(stats::FIELD_COUNT, 13);
    for (i, name) in names.iter().enumerate() {
        let field = stats::Field::from_index(i).unwrap();
        assert_eq!(field.index(), i);
        assert_eq!(field.name(), *name);
    }
    assert_eq!(stats::Field::from_index(13), None);
    assert_eq!(stats::Field::Len.index(), 0);
    assert_eq!(stats::Field::ModeCount.index(), 7);
    assert_eq!(stats::Field::P99.index(), 12);
}
