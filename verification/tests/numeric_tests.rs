use r_python::interpreter::numeric::boolean_op;
use r_python::interpreter::numeric::integer_arith;
use r_python::interpreter::numeric::integer_compare;
use r_python::interpreter::render::boolean_word;
use r_python::interpreter::render::integer_text;
use r_python::ir::ast::ArithOp;
use r_python::ir::ast::BoolOp;
use r_python::ir::ast::RelOp;

const SAMPLES: [i32; 21] = [
    i32::MIN,
    i32::MIN + 1,
    -2147483000,
    -1073741824,
    -65537,
    -65536,
    -46341,
    -46340,
    -7,
    -3,
    -1,
    0,
    1,
    2,
    3,
    10,
    46340,
    46341,
    65536,
    i32::MAX - 1,
    i32::MAX,
];

fn in_doubles(op: ArithOp, a: i32, b: i32) -> i32 {
    let (x, y) = (a as f64, b as f64);
    (match op {
        ArithOp::Add => x + y,
        ArithOp::Sub => x - y,
        ArithOp::Mul => x * y,
        ArithOp::Div => x / y,
    }) as i32
}

#[test]
fn integer_arithmetic_agrees_with_doubles() {
    for op in [ArithOp::Add, ArithOp::Sub, ArithOp::Mul, ArithOp::Div] {
        for a in SAMPLES {
            for b in SAMPLES {
                assert_eq!(
                    integer_arith(op, a, b),
                    in_doubles(op, a, b),
                    "{:?} on {} and {}",
                    op,
                    a,
                    b
                );
            }
        }
    }
}

#[test]
fn division_agrees_with_doubles_on_many_pairs() {
    let mut a: i32 = -2_000_000_011;
    while a < 2_000_000_000 {
        let mut b: i32 = -1_999_999_993;
        while b < 2_000_000_000 {
            assert_eq!(
                integer_arith(ArithOp::Div, a, b),
                in_doubles(ArithOp::Div, a, b),
                "{} / {}",
                a,
                b
            );
            b = b.saturating_add(133_333_337);
        }
        a = a.saturating_add(97_777_781);
    }
}

#[test]
fn division_truncates_toward_zero() {
    assert_eq!(integer_arith(ArithOp::Div, 10, 3), 3);
    assert_eq!(integer_arith(ArithOp::Div, 21, 3), 7);
    assert_eq!(integer_arith(ArithOp::Div, -10, 3), -3);
    assert_eq!(integer_arith(ArithOp::Div, 10, -3), -3);
    assert_eq!(integer_arith(ArithOp::Div, -10, -3), 3);
    assert_eq!(integer_arith(ArithOp::Div, 2, 3), 0);
    assert_eq!(integer_arith(ArithOp::Div, -2, 3), 0);
    assert_eq!(integer_arith(ArithOp::Div, 0, 5), 0);
}

#[test]
fn division_of_least_by_minus_one_saturates() {
    assert_eq!(integer_arith(ArithOp::Div, i32::MIN, -1), i32::MAX);
    assert_eq!(integer_arith(ArithOp::Div, i32::MIN, 1), i32::MIN);
    assert_eq!(integer_arith(ArithOp::Div, i32::MAX, -1), -i32::MAX);
}

#[test]
fn division_by_zero_saturates_by_sign() {
    assert_eq!(integer_arith(ArithOp::Div, 7, 0), i32::MAX);
    assert_eq!(integer_arith(ArithOp::Div, -7, 0), i32::MIN);
    assert_eq!(integer_arith(ArithOp::Div, 0, 0), 0);
}

#[test]
fn sums_and_products_saturate() {
    assert_eq!(integer_arith(ArithOp::Add, i32::MAX, 1), i32::MAX);
    assert_eq!(integer_arith(ArithOp::Add, i32::MIN, -1), i32::MIN);
    assert_eq!(integer_arith(ArithOp::Sub, i32::MIN, 1), i32::MIN);
    assert_eq!(integer_arith(ArithOp::Sub, i32::MAX, -1), i32::MAX);
    assert_eq!(integer_arith(ArithOp::Sub, 0, i32::MIN), i32::MAX);
    assert_eq!(integer_arith(ArithOp::Mul, 65536, 65536), i32::MAX);
    assert_eq!(integer_arith(ArithOp::Mul, 65536, -65536), i32::MIN);
    assert_eq!(integer_arith(ArithOp::Mul, i32::MIN, i32::MIN), i32::MAX);
    assert_eq!(integer_arith(ArithOp::Mul, 46340, 46340), 2147395600);
    assert_eq!(integer_arith(ArithOp::Add, 10, 20), 30);
    assert_eq!(integer_arith(ArithOp::Sub, 300, 100), 200);
    assert_eq!(integer_arith(ArithOp::Mul, -7, 6), -42);
}

#[test]
fn integers_compare_as_integers() {
    assert!(integer_compare(RelOp::EQ, 3, 3));
    assert!(!integer_compare(RelOp::EQ, 3, 4));
    assert!(integer_compare(RelOp::GT, 4, 3));
    assert!(!integer_compare(RelOp::GT, 3, 3));
    assert!(integer_compare(RelOp::LT, -4, 3));
    assert!(!integer_compare(RelOp::LT, 3, 3));
    assert!(integer_compare(RelOp::GTE, 3, 3));
    assert!(!integer_compare(RelOp::GTE, 2, 3));
    assert!(integer_compare(RelOp::LTE, 3, 3));
    assert!(!integer_compare(RelOp::LTE, 4, 3));
    assert!(integer_compare(RelOp::LT, i32::MIN, i32::MAX));
}

#[test]
fn boolean_operators_follow_their_tables() {
    assert!(boolean_op(BoolOp::And, true, true));
    assert!(!boolean_op(BoolOp::And, true, false));
    assert!(!boolean_op(BoolOp::And, false, true));
    assert!(!boolean_op(BoolOp::And, false, false));
    assert!(boolean_op(BoolOp::Or, true, true));
    assert!(boolean_op(BoolOp::Or, true, false));
    assert!(boolean_op(BoolOp::Or, false, true));
    assert!(!boolean_op(BoolOp::Or, false, false));
}

#[test]
fn integers_render_in_decimal() {
    assert_eq!(integer_text(0), "0");
    assert_eq!(integer_text(7), "7");
    assert_eq!(integer_text(10), "10");
    assert_eq!(integer_text(-1), "-1");
    assert_eq!(integer_text(1000), "1000");
    assert_eq!(integer_text(-90210), "-90210");
    assert_eq!(integer_text(i32::MAX), "2147483647");
    assert_eq!(integer_text(i32::MIN), "-2147483648");
    for i in SAMPLES {
        assert_eq!(integer_text(i), format!("{}", i));
    }
}

#[test]
fn booleans_render_in_lower_case() {
    assert_eq!(boolean_word(true), "true");
    assert_eq!(boolean_word(false), "false");
}
