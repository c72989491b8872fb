use whilep::bounds::Bounds;
use whilep::constant::Constant;
use whilep::domain::Domain;
use whilep::integer::{mul_sign, mul_signs, Integer};
use whilep::interval::Interval;
use whilep::lattice::Lattice;
use whilep::sign::{sign, sign_i64, Sign};
use whilep::state::State;

fn unb() -> Bounds {
    Bounds::unbounded()
}

fn itv(lo: i64, hi: i64) -> Interval {
    Interval::from_bounds(Integer::Value(lo), Integer::Value(hi))
}

#[test]
fn integer_order_and_value() {
    assert!(Integer::NegInf.lt(&Integer::Value(i64::MIN)));
    assert!(Integer::Value(i64::MAX).lt(&Integer::PosInf));
    assert!(Integer::Value(-3).le(&Integer::Value(-3)));
    assert_eq!(Integer::Value(7).value(), 7);
    assert_eq!(Integer::NegInf.value(), i64::MIN);
    assert_eq!(Integer::PosInf.value(), i64::MAX);
    assert_eq!(Integer::Value(2).min_of(Integer::Value(5)), Integer::Value(2));
    assert_eq!(Integer::Value(2).max_of(Integer::NegInf), Integer::Value(2));
}

#[test]
fn integer_saturating_arithmetic() {
    assert_eq!(Integer::Value(2).plus(Integer::Value(3)), Integer::Value(5));
    assert_eq!(Integer::Value(i64::MAX).plus(Integer::Value(1)), Integer::PosInf);
    assert_eq!(Integer::Value(i64::MIN).plus(Integer::Value(-1)), Integer::NegInf);
    assert_eq!(Integer::NegInf.plus(Integer::Value(10)), Integer::NegInf);
    assert_eq!(Integer::Value(4).minus(Integer::Value(9)), Integer::Value(-5));
    assert_eq!(Integer::Value(0).minus(Integer::NegInf), Integer::PosInf);
    assert_eq!(Integer::Value(i64::MIN).neg(), Integer::PosInf);
    assert_eq!(Integer::Value(6).times(Integer::Value(-7)), Integer::Value(-42));
    assert_eq!(Integer::PosInf.times(Integer::Value(0)), Integer::Value(0));
    assert_eq!(Integer::PosInf.times(Integer::Value(-2)), Integer::NegInf);
    assert_eq!(Integer::Value(i64::MAX).times(Integer::Value(2)), Integer::PosInf);
}

#[test]
fn integer_division_truncates_toward_zero() {
    assert_eq!(Integer::Value(7).div_by(Integer::Value(2)), Integer::Value(3));
    assert_eq!(Integer::Value(7).div_by(Integer::Value(-2)), Integer::Value(-3));
    assert_eq!(Integer::Value(-7).div_by(Integer::Value(2)), Integer::Value(-3));
    assert_eq!(Integer::Value(-7).div_by(Integer::Value(-2)), Integer::Value(3));
    assert_eq!(Integer::Value(0).div_by(Integer::Value(0)), Integer::Value(0));
    assert_eq!(Integer::Value(5).div_by(Integer::PosInf), Integer::Value(0));
    assert_eq!(Integer::NegInf.div_by(Integer::Value(3)), Integer::NegInf);
    assert_eq!(Integer::PosInf.div_by(Integer::Value(-3)), Integer::NegInf);
    assert_eq!(
        Integer::Value(i64::MIN).div_by(Integer::Value(-1)),
        Integer::PosInf
    );
}

#[test]
fn signs_multiply() {
    assert!(matches!(sign(Integer::NegInf), Sign::Neg));
    assert!(matches!(sign(Integer::Value(0)), Sign::Zero));
    assert!(matches!(sign(Integer::Value(9)), Sign::Pos));
    assert!(matches!(sign_i64(-4), Sign::Neg));
    assert!(matches!(mul_signs(Sign::Neg, Sign::Neg), Sign::Pos));
    assert!(matches!(mul_signs(Sign::Pos, Sign::Zero), Sign::Zero));
    assert_eq!(mul_sign(Integer::PosInf, Sign::Neg), Integer::NegInf);
    assert_eq!(mul_sign(Integer::Value(5), Sign::Zero), Integer::Value(0));
}

#[test]
fn interval_lattice_identity_laws() {
    let b = unb();
    let x = itv(-3, 8);
    let bot = <Interval as Lattice>::bot();
    let top = <Interval as Lattice>::top();
    assert_eq!(x.lub(&bot, &b), x);
    assert_eq!(bot.lub(&x, &b), x);
    assert_eq!(x.glb(&top, &b), x);
    assert_eq!(x.lub(&x, &b), x);
    assert_eq!(x.glb(&x, &b), x);
}

#[test]
fn constant_lattice_identity_laws() {
    let b = unb();
    let x = Constant::Value(Integer::Value(4));
    let bot = <Constant as Lattice>::bot();
    let top = <Constant as Lattice>::top();
    assert_eq!(x.lub(&bot, &b), x);
    assert_eq!(x.glb(&top, &b), x);
    assert_eq!(x.lub(&x, &b), x);
    assert_eq!(x.glb(&x, &b), x);
    assert_eq!(x.lub(&Constant::Value(Integer::Value(5)), &b), Constant::Any);
    assert_eq!(
        x.glb(&Constant::Value(Integer::Value(5)), &b),
        Constant::Bottom
    );
}

#[test]
fn interval_lub_covers_both_operands() {
    let b = unb();
    let x = itv(0, 3);
    let y = itv(10, 12);
    let j = x.lub(&y, &b);
    assert_eq!(j, itv(0, 12));
    assert!(j.contains(&x));
    assert!(j.contains(&y));
}

#[test]
fn interval_glb_intersects() {
    let b = unb();
    assert_eq!(itv(0, 5).glb(&itv(3, 9), &b), itv(3, 5));
    assert_eq!(itv(0, 2).glb(&itv(5, 9), &b), Interval::Empty);
}

#[test]
fn interval_widen_escapes_to_infinity_and_stabilizes() {
    let b = unb();
    let w1 = itv(0, 1).widen(&itv(0, 2), &b);
    assert_eq!(w1, Interval::Range(Integer::Value(0), Integer::PosInf));
    let w2 = w1.widen(&itv(0, 2), &b);
    assert_eq!(w2, w1);
    assert_eq!(<Interval as Lattice>::bot().widen(&itv(1, 4), &b), itv(1, 4));
    let w3 = itv(1, 4).widen(&itv(1, 4), &b);
    assert_eq!(w3, itv(1, 4));
}

#[test]
fn interval_narrow_recovers_finite_bounds() {
    let b = unb();
    let wide = Interval::Range(Integer::Value(0), Integer::PosInf);
    let n = wide.narrow(&itv(0, 9), &b);
    assert_eq!(n, itv(0, 9));
    assert!(wide.contains(&n));
    assert_eq!(itv(2, 7).narrow(&itv(3, 6), &b), itv(2, 7));
}

#[test]
fn interval_arithmetic_is_exact_on_ranges() {
    let b = unb();
    assert_eq!(itv(1, 2).plus_v(&itv(10, 20), &b), itv(11, 22));
    assert_eq!(itv(1, 2).minus_v(&itv(10, 20), &b), itv(-19, -8));
    assert_eq!(itv(-2, 3).times_v(&itv(4, 5), &b), itv(-10, 15));
    assert_eq!(itv(10, 20).div_v(&itv(2, 5), &b), itv(2, 10));
}

#[test]
fn interval_division_splits_divisor_straddling_zero() {
    let b = unb();
    assert_eq!(itv(10, 10).div_v(&itv(-2, 2), &b), itv(-10, 10));
    assert_eq!(itv(10, 20).div_v(&itv(-5, -2), &b), itv(-10, -2));
    assert_eq!(itv(1, 1).div_v(&itv(0, 0), &b), Interval::Empty);
}

#[test]
fn interval_clamp_window() {
    let b = Bounds::new(Integer::Value(-10), Integer::Value(10)).unwrap();
    let wide = itv(-25, 15);
    assert_eq!(
        wide.check_bounds(&b),
        Interval::Range(Integer::NegInf, Integer::PosInf)
    );
    assert_eq!(itv(12, 15).check_bounds(&b), Interval::Range(Integer::Value(10), Integer::PosInf));
    // every constructed range is clamped, a one-value range included
    assert_eq!(
        itv(1000, 1000).check_bounds(&b),
        Interval::Range(Integer::Value(10), Integer::PosInf)
    );
    assert_eq!(
        itv(-1000, -1000).check_bounds(&b),
        Interval::Range(Integer::NegInf, Integer::Value(-10))
    );
    assert_eq!(itv(4, 4).check_bounds(&b), itv(4, 4));
}

#[test]
fn malformed_clamp_window_is_rejected() {
    assert!(Bounds::new(Integer::Value(5), Integer::Value(1)).is_none());
    assert!(Bounds::new(Integer::PosInf, Integer::PosInf).is_none());
    assert!(Bounds::new(Integer::Value(-3), Integer::Value(3)).is_some());
}

#[test]
fn interval_accessors() {
    let x = itv(2, 9);
    assert_eq!(x.min(), Some(Integer::Value(2)));
    assert_eq!(x.max(), Some(Integer::Value(9)));
    assert_eq!(Interval::Empty.min(), None);
    assert_eq!(x.open_min(), Interval::Range(Integer::NegInf, Integer::Value(9)));
    assert_eq!(x.open_max(), Interval::Range(Integer::Value(2), Integer::PosInf));
    assert_eq!(Interval::from_value(4), itv(4, 4));
    assert_eq!(
        Interval::from_bounds(Integer::Value(9), Integer::Value(2)),
        Interval::Empty
    );
}

#[test]
fn constant_arithmetic() {
    let b = unb();
    let v = |n: i64| Constant::Value(Integer::Value(n));
    assert_eq!(v(2).plus_v(&v(3), &b), v(5));
    assert_eq!(v(2).minus_v(&v(3), &b), v(-1));
    assert_eq!(v(2).times_v(&v(3), &b), v(6));
    assert_eq!(v(7).div_v(&v(2), &b), v(3));
    assert_eq!(v(7).div_v(&v(0), &b), Constant::Bottom);
    assert_eq!(v(0).times_v(&Constant::Any, &b), v(0));
    assert_eq!(v(1).plus_v(&Constant::Any, &b), Constant::Any);
    assert_eq!(Constant::Bottom.plus_v(&v(1), &b), Constant::Bottom);
}

#[test]
fn state_read_put_roundtrip() {
    let b = unb();
    let s: State<Interval> = State::new();
    let x = String::from("x");
    let s2 = s.put(&x, itv(1, 2), &b);
    assert_eq!(s2.read(&x, &b), itv(1, 2));
    // an absent variable is unconstrained
    assert_eq!(s2.read(&String::from("y"), &b), <Interval as Lattice>::top());
    // writing bottom collapses the state
    let s3 = s2.put(&x, Interval::Empty, &b);
    assert!(s3.is_bottom());
}

#[test]
fn state_equiv_compares_common_variables_only() {
    let b = unb();
    let x = String::from("x");
    let y = String::from("y");
    let s1: State<Interval> = State::new().put(&x, itv(1, 2), &b);
    let s2 = State::new().put(&x, itv(1, 2), &b).put(&y, itv(0, 0), &b);
    assert!(s1.equiv(&s2));
    let s3 = State::new().put(&x, itv(3, 4), &b);
    assert!(!s1.equiv(&s3));
    assert!(!s1.equiv(&State::Bottom));
    let bot1: State<Interval> = State::Bottom;
    assert!(bot1.equiv(&State::Bottom));
}

#[test]
fn state_pointwise_operators() {
    let b = unb();
    let x = String::from("x");
    let s1: State<Interval> = State::new().put(&x, itv(0, 3), &b);
    let s2 = State::new().put(&x, itv(2, 9), &b);
    assert_eq!(s1.lub(&s2, &b).read(&x, &b), itv(0, 9));
    assert_eq!(s1.glb(&s2, &b).read(&x, &b), itv(2, 3));
    let w = s1.widen(&s2, &b);
    assert_eq!(w.read(&x, &b), Interval::Range(Integer::Value(0), Integer::PosInf));
    // glb on disjoint values proves the state infeasible
    let s4 = State::new().put(&x, itv(10, 11), &b);
    assert!(s1.glb(&s4, &b).is_bottom());
    // the unreachable state is the identity of the join
    assert_eq!(State::Bottom.lub(&s1, &b).read(&x, &b), itv(0, 3));
}
