use ddos_mitigation_tool::ieee754::ge;

#[test]
fn bit_pattern_order_matches_numeric_order() {
    let values = [
        f64::NEG_INFINITY,
        -1.0e300,
        -2.5,
        -1.0,
        -f64::MIN_POSITIVE,
        -0.0,
        0.0,
        f64::MIN_POSITIVE / 2.0,
        0.5,
        0.75,
        0.8,
        0.9,
        1.0,
        3.0,
        1.0e300,
        f64::INFINITY,
        f64::NAN,
        -f64::NAN,
    ];
    for a in values {
        for b in values {
            assert_eq!(ge(a.to_bits(), b.to_bits()), a >= b, "{a} >= {b}");
        }
    }
}
