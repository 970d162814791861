use yuyuko::api::firebase::codec::from_firestore_value;
use yuyuko::api::firebase::double::{i64_to_double_bits, magnitude_to_double_bits};
use yuyuko::api::firebase::json::{Json, Number};
use yuyuko::api::firebase::value::DocumentValue;

#[test]
fn small_integers_are_exact_doubles() {
    assert_eq!(i64_to_double_bits(0), 0.0f64.to_bits());
    assert_eq!(i64_to_double_bits(1), 0x3FF0_0000_0000_0000);
    assert_eq!(i64_to_double_bits(2), 0x4000_0000_0000_0000);
    assert_eq!(i64_to_double_bits(3), 0x4008_0000_0000_0000);
    assert_eq!(i64_to_double_bits(-1), 0xBFF0_0000_0000_0000);
    assert_eq!(i64_to_double_bits(-2), (-2.0f64).to_bits());
    for i in -5000i64..5000 {
        assert_eq!(i64_to_double_bits(i), (i as f64).to_bits(), "{i}");
        assert_eq!(f64::from_bits(i64_to_double_bits(i)) as i64, i);
    }
}

#[test]
fn large_integers_go_to_the_nearest_double() {
    let two_53: i64 = 1 << 53;
    assert_eq!(i64_to_double_bits(two_53), 0x4340_0000_0000_0000);
    // Halfway between two doubles: the even significand wins.
    assert_eq!(i64_to_double_bits(two_53 + 1), i64_to_double_bits(two_53));
    assert_eq!(i64_to_double_bits(two_53 + 2), 0x4340_0000_0000_0001);
    assert_eq!(i64_to_double_bits(two_53 + 3), 0x4340_0000_0000_0002);
    assert_eq!(i64_to_double_bits(two_53 + 5), 0x4340_0000_0000_0002);
    assert_eq!(i64_to_double_bits(i64::MAX), 0x43E0_0000_0000_0000);
    assert_eq!(i64_to_double_bits(i64::MIN), 0xC3E0_0000_0000_0000);
    assert_eq!(magnitude_to_double_bits(u64::MAX), 0x43F0_0000_0000_0000);
    assert_eq!(magnitude_to_double_bits(u64::MAX), (u64::MAX as f64).to_bits());
    for shift in 0..63u32 {
        let power: i64 = 1 << shift;
        for delta in -70i64..70 {
            for i in [power.wrapping_add(delta), (power / 3).wrapping_mul(5).wrapping_add(delta)] {
                assert_eq!(i64_to_double_bits(i), (i as f64).to_bits(), "{i}");
                assert_eq!(i64_to_double_bits(i.wrapping_neg()), (i.wrapping_neg() as f64).to_bits());
                assert_eq!(
                    magnitude_to_double_bits(i.unsigned_abs()),
                    (i.unsigned_abs() as f64).to_bits()
                );
            }
        }
    }
    let mut state: u64 = 5;
    for _ in 0..20000 {
        state = state.wrapping_mul(6364136223846793005).wrapping_add(1442695040888963407);
        let wide = state ^ (state >> 29);
        let i = (wide as i64) >> (state >> 58);
        assert_eq!(i64_to_double_bits(i), (i as f64).to_bits(), "{i}");
        assert_eq!(magnitude_to_double_bits(wide), (wide as f64).to_bits(), "{wide}");
    }
}

#[test]
fn a_number_under_the_double_name_is_a_double() {
    assert_eq!(
        from_firestore_value(&Json::single("doubleValue", Json::integer(2))),
        DocumentValue::Number(Number::Double(2.0f64.to_bits()))
    );
    assert_eq!(
        from_firestore_value(&Json::single("doubleValue", Json::integer(-7))),
        DocumentValue::Number(Number::Double((-7.0f64).to_bits()))
    );
    assert_eq!(
        from_firestore_value(&Json::single("doubleValue", Json::integer(i64::MAX))),
        DocumentValue::Number(Number::Double((i64::MAX as f64).to_bits()))
    );
    assert_eq!(
        from_firestore_value(&Json::single(
            "doubleValue",
            Json::Number(Number::Double(2.5f64.to_bits()))
        )),
        DocumentValue::Number(Number::Double(2.5f64.to_bits()))
    );
    assert_ne!(
        from_firestore_value(&Json::single("doubleValue", Json::integer(2))),
        DocumentValue::integer(2)
    );
    assert_eq!(
        from_firestore_value(&Json::single("integerValue", Json::text("2"))),
        DocumentValue::integer(2)
    );
}
