use brc20_swap::amount::parse_fixed;
use brc20_swap::decimal::{Brc20Decimal, DecimalError};

#[test]
fn test_from_u128_zero() {
    let result = Brc20Decimal::from_u128(0, 0)
        .unwrap()
        .add(&Brc20Decimal::from_u128(1, 0).unwrap());
    assert_eq!(result.to_string(), "1");
}

#[test]
fn test_new_brc20_decimal() {
    let cases: Vec<(u128, u8, &str, bool)> = vec![
        (123456789, 8, "1.23456789", false),
        (123456789000000000000000000, 18, "123456789", false),
        // invalid cases
        (1234567892, 19, "", true),
    ];

    for (input, scale, expected, should_err) in cases {
        let result = Brc20Decimal::from_u128(input, scale);
        match result {
            Ok(brc20_decimal) => {
                if should_err {
                    panic!("expected error for input: '{}'", input);
                } else {
                    assert_eq!(brc20_decimal.to_string(), expected, "input: '{}'", input);
                }
            }
            Err(_) => {
                if !should_err {
                    panic!("unexpected error for input: '{}'", input);
                }
            }
        }
    }
}

#[test]
fn test_brc20_decimal_add() {
    let cases: Vec<(u128, u128, u8, &str)> = vec![(123412, 100, 2, "1235.12")];

    for (a, b, scale, expect) in cases {
        let a = Brc20Decimal::from_u128(a, scale).unwrap();
        let b = Brc20Decimal::from_u128(b, scale).unwrap();
        let c = a.clone().add(&b.clone());
        assert_eq!(
            c.to_string(),
            expect,
            "input: a={}, b={}",
            a.to_string(),
            b.to_string()
        );
    }
}

#[test]
fn test_brc20_decimal_sub() {
    let cases: Vec<(u128, u128, u8, &str)> = vec![(123412, 100, 2, "1233.12")];

    for (a, b, scale, expect) in cases {
        let a = Brc20Decimal::from_u128(a, scale).unwrap();
        let b = Brc20Decimal::from_u128(b, scale).unwrap();
        let c = a.clone().sub(&b.clone());
        assert_eq!(
            c.to_string(),
            expect,
            "input: a={}, b={}",
            a.to_string(),
            b.to_string()
        );
    }
}

#[test]
fn test_brc20_decimal_mul() {
    let cases: Vec<(u128, u128, u8, &str)> = vec![
        (123456712, 100, 2, "1234567.12"),
        (123456712, 1000, 2, "12345671.2"),
        (
            123456789000000000000000000,
            10000000000000000000,
            18,
            "1234567890",
        ),
        (
            u128::MAX,
            u128::MAX,
            0,
            "115792089237316195423570985008687907852589419931798687112530834793049593217025",
        ),
        (
            u128::MAX,
            u128::MAX,
            18,
            "115792089237316195423570985008687907852589.419931798687112530834793049593217025",
        ),
    ];

    for (a, b, scale, expected_str) in cases {
        let a = Brc20Decimal::from_u128(a, scale).unwrap();
        let b = Brc20Decimal::from_u128(b, scale).unwrap();
        let c = a.clone().mul(&b.clone());
        assert_eq!(
            c.to_string(),
            expected_str,
            "input: a={}, b={}",
            a.to_string(),
            b.to_string()
        );
    }
}

#[test]
fn test_brc20_decimal_mul_scale_not_match() {
    let a = Brc20Decimal::from_u128(123456712, 2).unwrap();
    let b = Brc20Decimal::from_u128(100, 0).unwrap();
    let c = a.clone().mul(&b.clone());
    assert_eq!(
        c.to_string(),
        "123456712",
        "input: a={}, b={}",
        a.to_string(),
        b.to_string()
    );
}

#[test]
fn test_brc20_decimal_div() {
    let cases: Vec<(u128, u128, u8, &str)> = vec![
        (123456712, 100, 2, "1234567.12"),
        (u128::MAX, u128::MAX, 0, "1"),
        (u128::MAX, u128::MAX, 18, "1"),
    ];

    for (a, b, scale, expected_str) in cases {
        let a = Brc20Decimal::from_u128(a, scale).unwrap();
        let b = Brc20Decimal::from_u128(b, scale).unwrap();
        let c = a.clone().div(&b.clone());
        assert_eq!(
            c.to_string(),
            expected_str,
            "input: a={}, b={}",
            a.to_string(),
            b.to_string()
        );
    }
}

#[test]
fn test_from_u128_with_scale() {
    let cases: Vec<(u128, u8, &str)> = vec![(123456789, 2, "1234567.89")];
    for (input, scale, expected) in cases {
        let result = Brc20Decimal::from_u128(input, scale);
        match result {
            Ok(brc20_decimal) => {
                assert_eq!(
                    brc20_decimal.to_string(),
                    expected,
                    "input: {}, scale: {}",
                    input,
                    scale
                );
            }
            Err(_) => {
                panic!("unexpected error for input: {}, scale: {}", input, scale);
            }
        }
    }
}

#[test]
fn test_from_str_with_scale() {
    let result = Brc20Decimal::from_str_with_scale("123", 8);
    println!("result: {:?}", result);
}

#[test]
fn test_sqrt() {
    let decimal = Brc20Decimal::from_str_with_scale("1", 2).unwrap();
    println!(
        "decimal: {:?},{:?}",
        decimal.sqrt(),
        decimal.sqrt().unwrap().get_precision()
    );
    let d = Brc20Decimal::from_str_with_scale("1", 18).unwrap();
    let s = decimal.sqrt().unwrap().sub(&d);
    println!("decimal: {:?}", s);

    let amt1 = Brc20Decimal::from_str_with_scale("10000", 8).unwrap();
    let amt2 = Brc20Decimal::from_str_with_scale("10000", 18).unwrap();

    println!("amt1: {:?} {:?}", amt1.to_string(), amt1.to_bigint());

    let x = amt1.mul(&amt2);
    println!("x: {:?}", x.to_bigint());

    let q = x.sqrt().unwrap();
    println!("q: {:?}", q.to_bigint());

    let c = q.sub(&Brc20Decimal::from_u128(1000, 18).unwrap());
    println!("c: {:?}", c.to_string());
    assert!(c.num_eq(&Brc20Decimal::from_str_with_scale("0.099999999999999", 18).unwrap()));
}

#[test]
fn test_to_u128() {
    let decimal = Brc20Decimal::from_str_with_scale("1234567890", 18).unwrap();
    println!("decimal: {:?}", decimal.to_string());
    let (value, scale) = decimal.to_u128();
    println!("value: {:?}, scale: {:?}", value, scale);
}

#[test]
fn test_() {
    let d1 = Brc20Decimal::from_str_with_scale("1000000000000", 8).unwrap();
    let d2 = Brc20Decimal::from_str_with_scale("10000000000000000000000", 18).unwrap();
    println!("d1: {:?}", d1.to_string());
    println!("d2: {:?}", d2.to_string());

    let d1_mul_d2 = d1.clone().mul(&d2.clone());
    println!("d1_mul_d2: {:?}", d1_mul_d2.to_string());
    let d1_mul_d2_sqrt = d1_mul_d2.clone().sqrt().unwrap();
    println!("d1_mul_d2 sqrt: {:?}", d1_mul_d2_sqrt.to_string());

    let d3 = Brc20Decimal::from_str_with_scale("1000", 18).unwrap();
    let d1_mul_d2_sqrt_sub_d3 = d1_mul_d2_sqrt.clone().sub(&d3.clone());
    println!("d1_mul_d2 sqrt sub d3: {:?}", d1_mul_d2_sqrt_sub_d3.to_string());

    let d4 = Brc20Decimal::from_str_with_scale("10000000000000000000000", 18).unwrap();
    let q = d1_mul_d2_sqrt_sub_d3.clone().div(&d4.clone());
    println!("q: {:?}", q.to_string());
}

#[test]
fn test_mul_() {
    let d1 = Brc20Decimal::from_str_with_scale("1", 8).unwrap();
    let d2 = Brc20Decimal::from_str_with_scale("1", 18).unwrap();
    println!("d1: {:?}", d1.to_string());
    println!("d2: {:?}", d2.to_string());
    let d3 = d1.clone().mul(&d2.clone());
    println!("d3: {:?}", d3.to_string());
    let d4 = Brc20Decimal::from_str_with_scale("1", 18).unwrap();

    let (v, s) = d3.to_u128();
    println!("v: {:?}, s: {:?}", v, s);
    let (v2, s2) = d4.to_u128();
    println!("v2: {:?}, s2: {:?}", v2, s2);
}

#[test]
fn test_fixed_point() {
    let amt = parse_fixed("77925.59776823", 8).unwrap();
    println!("amt: {:?}", amt);
    println!("amt2: {:?}", amt.to_string());
}

#[test]
fn decimal_from_str_with_scale_scales_the_text() {
    let d = Brc20Decimal::from_str_with_scale("1.5", 3).unwrap();
    assert_eq!(d.to_u128(), (1500, 3));
    let d = Brc20Decimal::from_str_with_scale("-2.25", 2).unwrap();
    assert_eq!(d.to_string(), "-2.25");
    assert_eq!(d.sign(), -1);
    let d = Brc20Decimal::from_str_with_scale("7", 0).unwrap();
    assert_eq!(d.to_u128(), (7, 0));
}

#[test]
fn decimal_from_str_with_scale_errors() {
    assert!(matches!(Brc20Decimal::from_str_with_scale("", 8), Err(DecimalError::Empty)));
    assert!(matches!(
        Brc20Decimal::from_str_with_scale("1.2.3", 8),
        Err(DecimalError::InvalidFormat(_))
    ));
    assert!(matches!(
        Brc20Decimal::from_str_with_scale(".5", 8),
        Err(DecimalError::EmptyInteger)
    ));
    assert!(matches!(
        Brc20Decimal::from_str_with_scale("+5", 8),
        Err(DecimalError::EmptyInteger)
    ));
    assert!(matches!(
        Brc20Decimal::from_str_with_scale("1x", 8),
        Err(DecimalError::InvalidInteger(_))
    ));
    assert!(matches!(
        Brc20Decimal::from_str_with_scale("1.", 8),
        Err(DecimalError::EmptyDecimal)
    ));
    assert!(matches!(
        Brc20Decimal::from_str_with_scale("1.123", 2),
        Err(DecimalError::PrecisionExceeded(_))
    ));
    assert!(matches!(
        Brc20Decimal::from_str_with_scale("1.a", 2),
        Err(DecimalError::InvalidDecimal(_))
    ));
    assert!(matches!(
        Brc20Decimal::from_u128(1, 19),
        Err(DecimalError::ScaleExceedsLimit(19))
    ));
}

#[test]
fn decimal_add_then_sub_gives_the_amount_back() {
    let a = Brc20Decimal::from_u128(123412, 2).unwrap();
    let b = Brc20Decimal::from_u128(987, 2).unwrap();
    assert_eq!(a.add(&b).sub(&b).to_string(), a.to_string());
}

#[test]
fn decimal_mantissa_arithmetic_keeps_the_scale() {
    let a = Brc20Decimal::from_u128(1000, 2).unwrap();
    let b = Brc20Decimal::from_u128(3, 0).unwrap();
    assert_eq!(a.mul_mantissa(&b).to_u128(), (3000, 2));
    assert_eq!(a.div_mantissa(&b).to_u128(), (333, 2));
}

#[test]
fn decimal_order_and_equality_are_numeric() {
    let a = Brc20Decimal::from_u128(150, 2).unwrap();
    let b = Brc20Decimal::from_u128(1500, 3).unwrap();
    let c = Brc20Decimal::from_u128(2, 0).unwrap();
    assert!(a.num_eq(&b));
    assert!(a.lt(&c));
    assert!(!c.lt(&a));
}

#[test]
fn decimal_from_str_parses_any_scale() {
    let d = Brc20Decimal::from_str("1.50").unwrap();
    assert_eq!(d.to_u128(), (150, 2));
    assert!(matches!(Brc20Decimal::from_str("abc"), Err(DecimalError::Unparsable(_))));
}

#[test]
fn decimal_sqrt_is_the_integer_root_at_18_places() {
    let d = Brc20Decimal::from_u128(17, 4).unwrap();
    let r = d.sqrt().unwrap();
    assert_eq!(r.to_u128(), (4, 18));
}

#[test]
fn test_from_u128() {
    // 1000 units at 18 places are 10^-15, printed 0.000000000000001; the text
    // 0.000000000000000001 (10^-18) is that of 1 unit at 18 places. Both
    // readings of the (1000, 18) case are checked.
    let cases: Vec<(u128, u8, &str)> = vec![
        (1000, 3, "1"),
        (123456, 2, "1234.56"),
        (1000, 18, "0.000000000000001"),
        (1, 18, "0.000000000000000001"),
    ];

    for (input, scale, expected) in cases {
        let result = Brc20Decimal::from_u128(input, scale);
        match result {
            Ok(brc20_decimal) => {
                assert_eq!(
                    brc20_decimal.to_string(),
                    expected,
                    "input: {}, scale: {}",
                    input,
                    scale
                );
            }
            Err(_) => {
                panic!("unexpected error for input: {}, scale: {}", input, scale);
            }
        }
    }
}

#[test]
fn div_by_one_and_terminating_quotients_are_exact() {
    let one = Brc20Decimal::from_u128(100, 2).unwrap();
    let a = Brc20Decimal::from_u128(123456712, 2).unwrap();
    assert_eq!(a.div(&one).to_string(), "1234567.12");
    let q = Brc20Decimal::from_u128(1, 0).unwrap().div(&Brc20Decimal::from_u128(4, 0).unwrap());
    assert_eq!(q.to_string(), "0.25");
    let q = Brc20Decimal::from_u128(3, 0).unwrap().div(&Brc20Decimal::from_u128(8, 1).unwrap());
    assert_eq!(q.to_string(), "3.75");
}
