use wheel::float::{
    add_case, debug_symbol, display_symbol, eq_case, get_category, inv_case, mul_case, Comparison,
    NativeCategory, Outcome,
};
use wheel::WheelClass;
use wheel::WheelClass::{Bottom, Infinity, Normal, Zero};

fn native(c: std::num::FpCategory) -> NativeCategory {
    match c {
        std::num::FpCategory::Nan => NativeCategory::Nan,
        std::num::FpCategory::Infinite => NativeCategory::Infinite,
        std::num::FpCategory::Zero => NativeCategory::Zero,
        std::num::FpCategory::Subnormal => NativeCategory::Subnormal,
        std::num::FpCategory::Normal => NativeCategory::Normal,
    }
}

const ALL: [WheelClass; 4] = [Zero, Infinity, Bottom, Normal];

#[test]
fn classification_of_native_categories() {
    assert_eq!(get_category(NativeCategory::Zero), WheelClass::Zero);
    assert_eq!(get_category(NativeCategory::Infinite), WheelClass::Infinity);
    assert_eq!(get_category(NativeCategory::Nan), WheelClass::Bottom);
    assert_eq!(get_category(NativeCategory::Normal), WheelClass::Normal);
    assert_eq!(get_category(NativeCategory::Subnormal), WheelClass::Normal);
}

#[test]
fn classification_from_native_scalars() {
    assert_eq!(get_category(native(f32::NAN.classify())), WheelClass::Bottom);
    assert_eq!(get_category(native((1.0f32 / 0.0).classify())), WheelClass::Infinity);
    assert_eq!(get_category(native((-1.0f64 / 0.0).classify())), WheelClass::Infinity);
    assert_eq!(get_category(native((-0.0f64).classify())), WheelClass::Zero);
    assert_eq!(get_category(native(0.0f32.classify())), WheelClass::Zero);
    assert_eq!(get_category(native(1.0e-310f64.classify())), WheelClass::Normal);
    assert_eq!(get_category(native(0.5f32.classify())), WheelClass::Normal);
}

#[test]
fn addition_table() {
    assert_eq!(add_case(Bottom, Bottom), Outcome::Bottom);
    assert_eq!(add_case(Bottom, Infinity), Outcome::Bottom);
    assert_eq!(add_case(Bottom, Zero), Outcome::Bottom);
    assert_eq!(add_case(Bottom, Normal), Outcome::Bottom);
    assert_eq!(add_case(Infinity, Bottom), Outcome::Bottom);
    assert_eq!(add_case(Zero, Bottom), Outcome::Bottom);
    assert_eq!(add_case(Normal, Bottom), Outcome::Bottom);
    assert_eq!(add_case(Infinity, Infinity), Outcome::Bottom);
    assert_eq!(add_case(Infinity, Zero), Outcome::Infinity);
    assert_eq!(add_case(Infinity, Normal), Outcome::Infinity);
    assert_eq!(add_case(Zero, Infinity), Outcome::Infinity);
    assert_eq!(add_case(Normal, Infinity), Outcome::Infinity);
    assert_eq!(add_case(Zero, Zero), Outcome::Left);
    assert_eq!(add_case(Normal, Zero), Outcome::Left);
    assert_eq!(add_case(Zero, Normal), Outcome::Right);
    assert_eq!(add_case(Normal, Normal), Outcome::Native);
}

#[test]
fn multiplication_table() {
    assert_eq!(mul_case(Bottom, Bottom), Outcome::Bottom);
    assert_eq!(mul_case(Bottom, Infinity), Outcome::Bottom);
    assert_eq!(mul_case(Bottom, Zero), Outcome::Bottom);
    assert_eq!(mul_case(Bottom, Normal), Outcome::Bottom);
    assert_eq!(mul_case(Infinity, Bottom), Outcome::Bottom);
    assert_eq!(mul_case(Zero, Bottom), Outcome::Bottom);
    assert_eq!(mul_case(Normal, Bottom), Outcome::Bottom);
    assert_eq!(mul_case(Infinity, Zero), Outcome::Bottom);
    assert_eq!(mul_case(Zero, Infinity), Outcome::Bottom);
    assert_eq!(mul_case(Infinity, Infinity), Outcome::Infinity);
    assert_eq!(mul_case(Infinity, Normal), Outcome::Infinity);
    assert_eq!(mul_case(Normal, Infinity), Outcome::Infinity);
    assert_eq!(mul_case(Zero, Zero), Outcome::Zero);
    assert_eq!(mul_case(Zero, Normal), Outcome::Zero);
    assert_eq!(mul_case(Normal, Zero), Outcome::Zero);
    assert_eq!(mul_case(Normal, Normal), Outcome::Native);
}

#[test]
fn inversion_table() {
    assert_eq!(inv_case(WheelClass::Bottom), Outcome::Bottom);
    assert_eq!(inv_case(WheelClass::Infinity), Outcome::Zero);
    assert_eq!(inv_case(WheelClass::Zero), Outcome::Infinity);
    assert_eq!(inv_case(WheelClass::Normal), Outcome::Native);
}

#[test]
fn equality_table() {
    for a in ALL {
        for b in ALL {
            let expected = if a != b {
                Comparison::Unequal
            } else if a == WheelClass::Normal {
                Comparison::Native
            } else {
                Comparison::Equal
            };
            assert_eq!(eq_case(a, b), expected);
        }
    }
    assert_eq!(eq_case(WheelClass::Infinity, WheelClass::Infinity), Comparison::Equal);
    assert_eq!(eq_case(WheelClass::Bottom, WheelClass::Bottom), Comparison::Equal);
    assert_eq!(eq_case(WheelClass::Zero, WheelClass::Zero), Comparison::Equal);
    assert_eq!(eq_case(WheelClass::Normal, WheelClass::Normal), Comparison::Native);
    assert_eq!(eq_case(WheelClass::Zero, WheelClass::Normal), Comparison::Unequal);
}

#[test]
fn bottom_absorbs_in_both_tables() {
    for x in ALL {
        assert_eq!(add_case(WheelClass::Bottom, x), Outcome::Bottom);
        assert_eq!(add_case(x, WheelClass::Bottom), Outcome::Bottom);
        assert_eq!(mul_case(WheelClass::Bottom, x), Outcome::Bottom);
        assert_eq!(mul_case(x, WheelClass::Bottom), Outcome::Bottom);
    }
}

#[test]
fn plain_rendering() {
    assert_eq!(display_symbol(WheelClass::Zero), Some("0"));
    assert_eq!(display_symbol(WheelClass::Infinity), Some("Inf"));
    assert_eq!(display_symbol(WheelClass::Bottom), Some("Bottom"));
    assert_eq!(display_symbol(WheelClass::Normal), None);
}

#[test]
fn debug_rendering() {
    assert_eq!(debug_symbol(WheelClass::Zero), Some("ZERO"));
    assert_eq!(debug_symbol(WheelClass::Infinity), Some("INFINITY"));
    assert_eq!(debug_symbol(WheelClass::Bottom), Some("BOTTOM"));
    assert_eq!(debug_symbol(WheelClass::Normal), None);
}

#[test]
fn single_precision_not_a_number_inverts_to_bottom() {
    let class = get_category(native(f32::NAN.classify()));
    assert_eq!(class, Bottom);
    assert_eq!(inv_case(class), Outcome::Bottom);
}

#[test]
fn single_precision_one_over_zero_equals_infinity() {
    let quotient = get_category(native((1.0f32 / 0.0).classify()));
    let infinity = get_category(native(f32::INFINITY.classify()));
    let negative = get_category(native(f32::NEG_INFINITY.classify()));
    assert_eq!(eq_case(quotient, infinity), Comparison::Equal);
    assert_eq!(eq_case(negative, infinity), Comparison::Equal);
}
