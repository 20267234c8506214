use ogc_cql2::error::MyError;
use ogc_cql2::numeric::{exact_signed, exact_unsigned, parse_unsigned};

#[test]
fn test_usize_max() {
    let x = exact_unsigned(usize::MAX as u128);
    assert!(matches!(x.err(), Some(MyError::PrecisionLoss(_))))
}

#[test]
fn test_usize() {
    let x: usize = (1 << 53) - 1;
    let y1 = x as f64;
    let y2 = exact_unsigned(x as u128).expect("Failed") as f64;
    assert_eq!(y1, y2)
}

#[test]
fn test_u128_max() {
    let x = exact_unsigned(u128::MAX);
    assert!(matches!(x.err(), Some(MyError::PrecisionLoss(_))))
}

#[test]
fn test_u128() {
    let x: u128 = (1 << 53) - 1;
    let y1 = x as f64;
    let y2 = exact_unsigned(x).expect("Failed") as f64;
    assert_eq!(y1, y2)
}

#[test]
fn test_u64_max() {
    let x = exact_unsigned(u64::MAX as u128);
    assert!(matches!(x.err(), Some(MyError::PrecisionLoss(_))))
}

#[test]
fn test_u64() {
    let x: u64 = (1 << 53) - 1;
    let y1 = x as f64;
    let y2 = exact_unsigned(x as u128).expect("Failed") as f64;
    assert_eq!(y1, y2)
}

#[test]
fn test_isize_max() {
    let x = exact_signed(isize::MAX as i128);
    assert!(matches!(x.err(), Some(MyError::PrecisionLoss(_))))
}

#[test]
fn test_isize() {
    let x1: isize = (1 << 53) - 1;
    let y1 = x1 as f64;
    let y2 = exact_signed(x1 as i128).expect("Failed") as f64;
    assert_eq!(y1, y2);

    let x2 = -x1;
    let y1 = x2 as f64;
    let y2 = exact_signed(x2 as i128).expect("Failed") as f64;
    assert_eq!(y1, y2)
}

#[test]
fn test_isize_min() {
    let x = exact_signed(isize::MIN as i128);
    assert!(matches!(x.err(), Some(MyError::PrecisionLoss(_))))
}

#[test]
fn test_i128_max() {
    let x = exact_signed(i128::MAX);
    assert!(matches!(x.err(), Some(MyError::PrecisionLoss(_))))
}

#[test]
fn test_i128() {
    let x1: i128 = (1 << 53) - 1;
    let y1 = x1 as f64;
    let y2 = exact_signed(x1).expect("Failed") as f64;
    assert_eq!(y1, y2);

    let x2 = -x1;
    let y1 = x2 as f64;
    let y2 = exact_signed(x2).expect("Failed") as f64;
    assert_eq!(y1, y2)
}

#[test]
fn test_i128_min() {
    let x = exact_signed(i128::MIN);
    assert!(matches!(x.err(), Some(MyError::PrecisionLoss(_))))
}

#[test]
fn test_i64_max() {
    let x = exact_signed(i64::MAX as i128);
    assert!(matches!(x.err(), Some(MyError::PrecisionLoss(_))))
}

#[test]
fn test_i64_min() {
    let x = exact_signed(i64::MIN as i128);
    assert!(matches!(x.err(), Some(MyError::PrecisionLoss(_))))
}

#[test]
fn test_i64() {
    let x1: i64 = (1 << 53) - 1;
    let y1 = x1 as f64;
    let y2 = exact_signed(x1 as i128).expect("Failed") as f64;
    assert_eq!(y1, y2);

    let x2 = -x1;
    let y1 = x2 as f64;
    let y2 = exact_signed(x2 as i128).expect("Failed") as f64;
    assert_eq!(y1, y2)
}

/// A small deterministic generator of pseudo-random numbers.
fn next(state: &mut u64) -> u64 {
    *state = state.wrapping_mul(6364136223846793005).wrapping_add(1442695040888963407);
    *state >> 11
}

#[test]
fn fuzz_test_i64() {
    const LIMIT: i64 = (1 << 53) - 1;
    let mut state = 42u64;
    let mut expected = 0;
    let mut actual = 0;
    for _ in 0..1000 {
        let r = (next(&mut state) % (LIMIT as u64)) as i64 + 1;
        let x = if next(&mut state) % 2 == 0 { LIMIT - r } else { LIMIT + r };
        if !(-LIMIT..=LIMIT).contains(&x) {
            expected += 1;
        }
        match exact_signed(x as i128) {
            Ok(_) => (),
            Err(MyError::PrecisionLoss(_)) => actual += 1,
            Err(x) => panic!("Unexpected {x:?}"),
        }
    }
    assert_eq!(expected, actual)
}

#[test]
fn fuzz_test_u64() {
    const LIMIT: u64 = (1 << 53) - 1;
    let mut state = 4242u64;
    let mut expected = 0;
    let mut actual = 0;
    for _ in 0..1000 {
        let r = next(&mut state) % LIMIT + 1;
        let x = if next(&mut state) % 2 == 0 { LIMIT.saturating_sub(r) } else { LIMIT + r };
        if x > LIMIT {
            expected += 1;
        }
        match exact_unsigned(x as u128) {
            Ok(_) => (),
            Err(MyError::PrecisionLoss(_)) => actual += 1,
            Err(x) => panic!("Unexpected {x:?}"),
        }
    }
    assert_eq!(expected, actual)
}

#[test]
fn precision_loss_holds_the_decimal_text() {
    match exact_unsigned(9007199254740992) {
        Err(MyError::PrecisionLoss(t)) => assert_eq!(t, "9007199254740992"),
        x => panic!("Unexpected {x:?}"),
    }
    match exact_signed(-9007199254740992) {
        Err(MyError::PrecisionLoss(t)) => assert_eq!(t, "-9007199254740992"),
        x => panic!("Unexpected {x:?}"),
    }
    match exact_signed(i128::MIN) {
        Err(MyError::PrecisionLoss(t)) => assert_eq!(t, i128::MIN.to_string()),
        x => panic!("Unexpected {x:?}"),
    }
    assert_eq!(exact_signed(-9007199254740991).unwrap(), -9007199254740991);
}

#[test]
fn unsigned_text_parses_like_std() {
    for s in ["0", "+7", "42", "", "+", "-1", "1x", "18446744073709551615", "18446744073709551616"] {
        assert_eq!(parse_unsigned(s, u64::MAX), s.parse::<u64>().ok(), "{s}");
    }
    assert_eq!(parse_unsigned("4294967296", u32::MAX as u64), None);
    assert_eq!(parse_unsigned("4294967295", u32::MAX as u64), Some(4294967295));
}
