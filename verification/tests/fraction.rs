use wheel::FractionWheel;

type MyWheel = FractionWheel<i32>;

fn zero() -> MyWheel {
    MyWheel::zero()
}

fn one() -> MyWheel {
    MyWheel::one()
}

fn infinity() -> MyWheel {
    MyWheel::infinity()
}

fn bottom() -> MyWheel {
    MyWheel::bottom()
}

fn negative_one() -> MyWheel {
    -one()
}

fn three() -> MyWheel {
    one() + one() + one()
}

fn negative_two() -> MyWheel {
    -one() - one()
}

fn three_halves() -> MyWheel {
    MyWheel::new(3, 2)
}

fn negative_two_fifths() -> MyWheel {
    MyWheel::new(-2, 5)
}

fn any_numbers() -> [MyWheel; 9] {
    [
        zero(),
        one(),
        infinity(),
        bottom(),
        negative_one(),
        three(),
        negative_two(),
        three_halves(),
        negative_two_fifths(),
    ]
}

#[test]
fn fraction_inv_is_involution() {
    for &x in any_numbers().iter() {
        println!("{:?} == {:?}", x.inv().inv(), x);
        assert_eq!(x.inv().inv(), x);
    }
}

#[test]
fn fraction_inv_is_multicative() {
    for &x in any_numbers().iter() {
        for &y in any_numbers().iter() {
            println!("{:?} == {:?}", (x * y).inv(), y.inv() * x.inv());
            assert_eq!((x * y).inv(), y.inv() * x.inv());
        }
    }
}

/// `(x + y) * z + 0 * z = x * z + y * z`
#[test]
fn fraction_add_is_distributive() {
    for &x in any_numbers().iter() {
        for &y in any_numbers().iter() {
            for &z in any_numbers().iter() {
                println!("{:?} == {:?}", (x + y) * z + zero() * z, x * z + y * z);
                assert_eq!((x + y) * z + zero() * z, x * z + y * z);
            }
        }
    }
}

/// `(x + y * z) / y = x / y + z + 0 * y`
#[test]
fn fraction_add_is_distributive_div() {
    for &x in any_numbers().iter() {
        for &y in any_numbers().iter() {
            for &z in any_numbers().iter() {
                println!("{:?} == {:?}", (x + y * z) / y, x / y + z + zero() * y);
                assert_eq!((x + y * z) / y, x / y + z + zero() * y);
            }
        }
    }
}

/// `0 * 0 = 0`
#[test]
fn fraction_zero_times_zero() {
    assert_eq!(zero() * zero(), zero());
}

/// `(x + 0 * y) * z = x * z + 0 * y`
#[test]
fn fraction_zero_times_y() {
    for &x in any_numbers().iter() {
        for &y in any_numbers().iter() {
            for &z in any_numbers().iter() {
                println!("{:?} == {:?}", (x + zero() * y) * z, x * z + zero() * y);
                assert_eq!((x + zero() * y) * z, x * z + zero() * y);
            }
        }
    }
}

/// `inv(x + 0 * y) = inv(x) + 0 * y`
#[test]
fn fraction_zero_times_y_inv() {
    for &x in any_numbers().iter() {
        for &y in any_numbers().iter() {
            println!("{:?} == {:?}", (x + zero() * y).inv(), x.inv() + zero() * y);
            assert_eq!((x + zero() * y).inv(), x.inv() + zero() * y);
        }
    }
}

/// `0 / 0 + x = 0 / 0`
#[test]
fn fraction_bottom_addition() {
    for &x in any_numbers().iter() {
        println!("{:?} == {:?}", bottom() + x, bottom());
        assert_eq!(bottom() + x, bottom());
    }
}

/// `0 * x + 0 * y = 0 * x * y`
#[test]
fn fraction_zero_times_x_plus_zero_times_y() {
    for &x in any_numbers().iter() {
        for &y in any_numbers().iter() {
            println!("{:?} == {:?}", zero() * x + zero() * y, zero() * x * y);
            assert_eq!(zero() * x + zero() * y, zero() * x * y);
        }
    }
}

/// `x / x = 1 + 0 * x / x`
#[test]
fn fraction_x_div_x() {
    for &x in any_numbers().iter() {
        println!("{:?} == {:?}", x / x, one() + zero() * x / x);
        assert_eq!(x / x, one() + zero() * x / x);
    }
}

/// `x - x = 0 * x * x`
#[test]
fn fraction_x_minus_x() {
    for &x in any_numbers().iter() {
        println!("{:?} == {:?}", x - x, zero() * x * x);
        assert_eq!(x - x, zero() * x * x);
    }
}

fn shown(x: MyWheel) -> String {
    format!("{:?}", x)
}

#[test]
fn constants_are_the_canonical_pairs() {
    assert_eq!(shown(zero()), "FractionWheel(0, 1)");
    assert_eq!(shown(one()), "FractionWheel(1, 1)");
    assert_eq!(shown(infinity()), "FractionWheel(1, 0)");
    assert_eq!(shown(bottom()), "FractionWheel(0, 0)");
}

#[test]
fn sum_of_three_halves_and_minus_two_fifths() {
    let s = MyWheel::new(3, 2) + MyWheel::new(-2, 5);
    assert_eq!(shown(s), "FractionWheel(11, 10)");
    assert_eq!(s, MyWheel::new(11, 10));
}

#[test]
fn inverse_of_four_halves_is_one_half() {
    let x = MyWheel::new(4, 2);
    assert_eq!(shown(x), "FractionWheel(2, 1)");
    assert_eq!(shown(x.inv()), "FractionWheel(1, 2)");
    assert_eq!(x.inv(), MyWheel::new(1, 2));
}

#[test]
fn infinity_plus_one_is_infinity() {
    assert_eq!(infinity() + one(), infinity());
    assert_eq!(shown(infinity() + one()), "FractionWheel(1, 0)");
}

#[test]
fn zero_and_infinity_are_inverse_to_each_other() {
    assert_eq!(zero().inv(), infinity());
    assert_eq!(infinity().inv(), zero());
    assert_eq!(bottom().inv(), bottom());
}

#[test]
fn new_divides_by_the_gcd() {
    assert_eq!(shown(MyWheel::new(6, 4)), "FractionWheel(3, 2)");
    assert_eq!(shown(MyWheel::new(100, 75)), "FractionWheel(4, 3)");
    assert_eq!(shown(MyWheel::new(7, 7)), "FractionWheel(1, 1)");
    assert_eq!(shown(MyWheel::new(17, 5)), "FractionWheel(17, 5)");
}

#[test]
fn new_makes_the_denominator_positive() {
    assert_eq!(shown(MyWheel::new(3, -2)), "FractionWheel(-3, 2)");
    assert_eq!(shown(MyWheel::new(-3, -2)), "FractionWheel(3, 2)");
    assert_eq!(shown(MyWheel::new(-6, 4)), "FractionWheel(-3, 2)");
    assert_eq!(shown(MyWheel::new(6, -4)), "FractionWheel(-3, 2)");
}

#[test]
fn new_with_a_zero_component() {
    assert_eq!(shown(MyWheel::new(0, 0)), "FractionWheel(0, 0)");
    assert_eq!(shown(MyWheel::new(0, 5)), "FractionWheel(0, 1)");
    assert_eq!(shown(MyWheel::new(0, -5)), "FractionWheel(0, 1)");
    assert_eq!(shown(MyWheel::new(5, 0)), "FractionWheel(1, 0)");
    assert_eq!(shown(MyWheel::new(-5, 0)), "FractionWheel(1, 0)");
}

#[test]
fn new_takes_the_least_integer_beside_a_zero() {
    assert_eq!(shown(MyWheel::new(0, i32::MIN)), "FractionWheel(0, 1)");
    assert_eq!(shown(MyWheel::new(i32::MIN, 0)), "FractionWheel(1, 0)");
    assert_eq!(shown(MyWheel::new(i32::MAX, -i32::MAX)), "FractionWheel(-1, 1)");
}

#[test]
fn normalize_is_what_new_does() {
    assert_eq!(MyWheel::normalize(10, -4), MyWheel::new(10, -4));
    assert_eq!(shown(MyWheel::normalize(10, -4)), "FractionWheel(-5, 2)");
    assert_eq!(shown(MyWheel::normalize(-9, 0)), "FractionWheel(1, 0)");
}

#[test]
fn add_cross_multiplies() {
    let s = MyWheel::new(1, 2).add(MyWheel::new(1, 3));
    assert_eq!(shown(s), "FractionWheel(5, 6)");
    let t = MyWheel::new(1, 6).add(MyWheel::new(1, 3));
    assert_eq!(shown(t), "FractionWheel(1, 2)");
    let u = MyWheel::new(1, 2).add(MyWheel::new(-1, 2));
    assert_eq!(shown(u), "FractionWheel(0, 1)");
}

#[test]
fn add_with_the_special_values() {
    assert_eq!(infinity().add(infinity()), bottom());
    assert_eq!(infinity().add(three_halves()), infinity());
    assert_eq!(three_halves().add(infinity()), infinity());
    assert_eq!(three_halves().add(zero()), three_halves());
    assert_eq!(zero().add(three_halves()), three_halves());
    assert_eq!(three_halves().add(bottom()), bottom());
    assert_eq!(infinity().add(bottom()), bottom());
}

#[test]
fn mul_is_componentwise() {
    let p = MyWheel::new(3, 2).mul(MyWheel::new(-2, 5));
    assert_eq!(shown(p), "FractionWheel(-3, 5)");
    let q = MyWheel::new(-3, 2).mul(MyWheel::new(-2, 3));
    assert_eq!(shown(q), "FractionWheel(1, 1)");
}

#[test]
fn mul_with_the_special_values() {
    assert_eq!(zero().mul(infinity()), bottom());
    assert_eq!(infinity().mul(zero()), bottom());
    assert_eq!(infinity().mul(infinity()), infinity());
    assert_eq!(infinity().mul(negative_two()), infinity());
    assert_eq!(zero().mul(three()), zero());
    assert_eq!(bottom().mul(one()), bottom());
    assert_eq!(one().mul(three_halves()), three_halves());
}

#[test]
fn neg_changes_the_sign_of_the_numerator() {
    assert_eq!(shown(three_halves().neg()), "FractionWheel(-3, 2)");
    assert_eq!(shown(negative_two_fifths().neg()), "FractionWheel(2, 5)");
    assert_eq!(zero().neg(), zero());
    assert_eq!(infinity().neg(), infinity());
    assert_eq!(bottom().neg(), bottom());
}

#[test]
fn inv_exchanges_numerator_and_denominator() {
    assert_eq!(shown(three_halves().inv()), "FractionWheel(2, 3)");
    assert_eq!(shown(negative_two_fifths().inv()), "FractionWheel(-5, 2)");
    assert_eq!(shown(negative_one().inv()), "FractionWheel(-1, 1)");
}

#[test]
fn sub_is_add_of_the_negation() {
    let x = three_halves();
    let y = negative_two_fifths();
    assert_eq!(x.sub(y), x.add(y.neg()));
    assert_eq!(shown(x.sub(y)), "FractionWheel(19, 10)");
    assert_eq!(three().sub(three()), zero());
    assert_eq!(infinity().sub(infinity()), bottom());
}

#[test]
fn div_is_mul_by_the_inverse() {
    let x = three_halves();
    let y = negative_two_fifths();
    assert_eq!(x.div(y), x.mul(y.inv()));
    assert_eq!(shown(x.div(y)), "FractionWheel(-15, 4)");
    assert_eq!(three().div(three()), one());
    assert_eq!(one().div(zero()), infinity());
    assert_eq!(zero().div(zero()), bottom());
    assert_eq!(infinity().div(infinity()), bottom());
}

#[test]
fn x_minus_x_is_not_always_zero() {
    assert_ne!(infinity() - infinity(), zero());
    assert_ne!(bottom() - bottom(), zero());
    assert_eq!(three_halves() - three_halves(), zero());
}

#[test]
fn x_div_x_is_not_always_one() {
    assert_ne!(zero() / zero(), one());
    assert_ne!(infinity() / infinity(), one());
    assert_eq!(three_halves() / three_halves(), one());
}

#[test]
fn eq_compares_canonical_pairs() {
    assert!(MyWheel::new(2, 4).eq(MyWheel::new(1, 2)));
    assert!(MyWheel::new(-2, 4).eq(MyWheel::new(1, -2)));
    assert!(!MyWheel::new(1, 2).eq(MyWheel::new(2, 1)));
    assert!(!zero().eq(bottom()));
    assert!(!infinity().eq(bottom()));
    assert!(!zero().eq(infinity()));
    assert!(MyWheel::new(-7, 0).eq(infinity()));
    assert!(bottom().eq(bottom()));
    assert!(MyWheel::new(2, 4) == MyWheel::new(1, 2));
    assert!(MyWheel::new(2, 4) != MyWheel::new(1, 3));
}

#[test]
fn eq_holds_where_cross_products_would_not_fit() {
    let x = MyWheel::new(i32::MAX, i32::MAX - 1);
    let y = MyWheel::new(i32::MAX - 1, i32::MAX - 2);
    assert!(x.eq(x));
    assert!(!x.eq(y));
}

#[test]
fn from_an_integer() {
    assert_eq!(shown(MyWheel::from(7)), "FractionWheel(7, 1)");
    assert_eq!(shown(MyWheel::from(0)), "FractionWheel(0, 1)");
    assert_eq!(shown(MyWheel::from(-4)), "FractionWheel(-4, 1)");
    assert_eq!(MyWheel::from(3), three());
    assert_eq!(format!("{:?}", FractionWheel::<i8>::from(-128)), "FractionWheel(-128, 1)");
    assert_eq!(format!("{:?}", FractionWheel::<i16>::from(9)), "FractionWheel(9, 1)");
    assert_eq!(format!("{:?}", FractionWheel::<i64>::from(9)), "FractionWheel(9, 1)");
    assert_eq!(format!("{:?}", FractionWheel::<i128>::from(9)), "FractionWheel(9, 1)");
}

#[test]
fn copies_are_equal() {
    let x = three_halves();
    let y = x;
    let z = x.clone();
    assert_eq!(x, y);
    assert_eq!(x, z);
}

#[test]
fn every_width_has_its_wheel() {
    let a = wheel::FractionWheel8::new(6, -8);
    assert_eq!(format!("{:?}", a), "FractionWheel(-3, 4)");
    let b = wheel::FractionWheel16::new(300, 200);
    assert_eq!(format!("{:?}", b), "FractionWheel(3, 2)");
    let c = wheel::FractionWheel32::new(3, 2) + wheel::qw32::new(-2, 5);
    assert_eq!(format!("{:?}", c), "FractionWheel(11, 10)");
    let d = wheel::FractionWheel64::new(1 << 40, 1 << 42);
    assert_eq!(format!("{:?}", d), "FractionWheel(1, 4)");
    let e = wheel::FractionWheel128::new(-(1 << 100), 1 << 99);
    assert_eq!(format!("{:?}", e), "FractionWheel(-2, 1)");
    assert_eq!(wheel::qw8::new(1, 2) * wheel::qw8::new(2, 1), wheel::qw8::one());
    assert_eq!(wheel::qw16::new(1, 2).inv(), wheel::qw16::new(2, 1));
    assert_eq!(wheel::qw64::new(1, 2) - wheel::qw64::new(1, 2), wheel::qw64::zero());
    assert_eq!(wheel::qw128::new(1, 2) / wheel::qw128::new(1, 2), wheel::qw128::one());
}

fn common_divisor(a: i32, b: i32) -> i32 {
    let mut g = 1;
    for candidate in 1..=a.abs().max(b.abs()) {
        if a % candidate == 0 && b % candidate == 0 {
            g = candidate;
        }
    }
    g
}

fn canonical_text(n: i32, d: i32) -> String {
    if n == 0 && d == 0 {
        return "FractionWheel(0, 0)".to_string();
    }
    if d == 0 {
        return "FractionWheel(1, 0)".to_string();
    }
    if n == 0 {
        return "FractionWheel(0, 1)".to_string();
    }
    let g = common_divisor(n, d);
    let sign = if d < 0 { -1 } else { 1 };
    format!("FractionWheel({}, {})", sign * n / g, sign * d / g)
}

#[test]
fn new_on_every_small_pair() {
    for n in -12..=12 {
        for d in -12..=12 {
            assert_eq!(shown(MyWheel::new(n, d)), canonical_text(n, d));
        }
    }
}

#[test]
fn operations_on_every_small_pair() {
    for a in -4..=4 {
        for b in 0..=4 {
            for c in -4..=4 {
                for d in 0..=4 {
                    let x = MyWheel::new(a, b);
                    let y = MyWheel::new(c, d);
                    assert_eq!(x + y, MyWheel::new(a * d + b * c, b * d));
                    assert_eq!(x * y, MyWheel::new(a * c, b * d));
                    assert_eq!(x - y, MyWheel::new(a * d - b * c, b * d));
                    assert_eq!(x / y, MyWheel::new(a * d, b * c));
                    assert_eq!(-x, MyWheel::new(-a, b));
                    assert_eq!(x.inv(), MyWheel::new(b, a));
                    assert_eq!(x == y, shown(x) == shown(y));
                }
            }
        }
    }
}
