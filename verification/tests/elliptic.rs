use ellip::binary64::{MAX_BITS, ONE_BITS, ZERO_BITS};
use ellip::ellipe::{ellipe_branch, ellipe_polynomials, SecondKind};
use ellip::ellipk::{
    ellpkm1_branch, ellpkm1_polynomials, FirstKind, C1_BITS, HALF_BITS, MACHEP_BITS,
};
use ellip::polyeval::polyeval;

fn step(acc: u64, x: u64, c: u64) -> u64 {
    (f64::from_bits(c) + f64::from_bits(acc) * f64::from_bits(x)).to_bits()
}

fn ellpkm1(x: f64) -> f64 {
    match ellpkm1_branch(x.to_bits()) {
        FirstKind::Value(bits) => f64::from_bits(bits),
        FirstKind::Series => {
            let (p, q) = ellpkm1_polynomials(x.to_bits(), &step);
            f64::from_bits(p) - x.ln() * f64::from_bits(q)
        }
        FirstKind::Asymptote => f64::from_bits(C1_BITS) - f64::from_bits(HALF_BITS) * x.ln(),
    }
}

fn ellpk(x: f64) -> f64 {
    ellpkm1(1.0 - x)
}

fn ellipe(x: f64) -> f64 {
    let x = 1.0 - x;
    match ellipe_branch(x.to_bits()) {
        SecondKind::Value(bits) => f64::from_bits(bits),
        SecondKind::Series => {
            let (p, q) = ellipe_polynomials(x.to_bits(), &step);
            f64::from_bits(p) - x.ln() * x * f64::from_bits(q)
        }
    }
}

fn relative_eq(a: f64, b: f64) -> bool {
    approx::Relative::default().eq(&a, &b)
}

fn close(a: f64, b: f64) -> bool {
    approx::Relative::default().max_relative(1e-9).eq(&a, &b)
}

fn bits_of(values: &[f64]) -> Vec<u64> {
    values.iter().map(|v| v.to_bits()).collect()
}

#[test]
fn ellipk_ellpk_works() {
    assert!(relative_eq(ellpkm1(0.0), 1.7976931348623157e308));
    assert!(relative_eq(ellpkm1(0.1), 2.5780921133481733));
    assert!(relative_eq(ellpkm1(0.2), 2.2572053268208534));
    assert!(relative_eq(ellpkm1(0.3), 2.075363135292469));
    assert!(relative_eq(ellpkm1(0.4), 1.9495677498060258));
    assert!(relative_eq(ellpkm1(0.5), 1.8540746773013719));
    assert!(relative_eq(ellpkm1(0.6), 1.7775193714912534));
    assert!(relative_eq(ellpkm1(0.7), 1.713889448178791));
    assert!(relative_eq(ellpkm1(0.8), 1.659623598610528));
    assert!(relative_eq(ellpkm1(0.9), 1.6124413487202192));
    assert!(relative_eq(ellpkm1(1.0), std::f64::consts::PI / 2.0));

    assert!(relative_eq(ellpk(0.0), 1.5707963267948966));
    assert!(relative_eq(ellpk(0.1), 1.6124413487202192));
    assert!(relative_eq(ellpk(0.2), 1.659623598610528));
    assert!(relative_eq(ellpk(0.3), 1.713889448178791));
    assert!(relative_eq(ellpk(0.4), 1.7775193714912534));
    assert!(relative_eq(ellpk(0.5), 1.8540746773013719));
    assert!(relative_eq(ellpk(0.6), 1.9495677498060258));
    assert!(relative_eq(ellpk(0.7), 2.075363135292469));
    assert!(relative_eq(ellpk(0.8), 2.257205326820854));
    assert!(relative_eq(ellpk(0.9), 2.5780921133481733));
}

#[test]
fn ellipe_ellpk_works() {
    assert!(relative_eq(ellipe(0.0), 1.5707963267948966));
    assert!(relative_eq(ellipe(0.1), 1.5307576368977633));
    assert!(relative_eq(ellipe(0.2), 1.489035058095853));
    assert!(relative_eq(ellipe(0.3), 1.4453630644126654));
    assert!(relative_eq(ellipe(0.4), 1.3993921388974322));
    assert!(relative_eq(ellipe(0.5), 1.3506438810476755));
    assert!(relative_eq(ellipe(0.6), 1.2984280350469133));
    assert!(relative_eq(ellipe(0.7), 1.2416705679458229));
    assert!(relative_eq(ellipe(0.8), 1.1784899243278386));
    assert!(relative_eq(ellipe(0.9), 1.1047747327040733));
}

#[test]
fn known_values() {
    assert!(close(ellpkm1(0.5), 1.8540746773013719));
    assert!(close(ellpkm1(1.0), 1.5707963267948966));
    assert!(close(ellpk(0.0), 1.5707963267948966));
    assert!(close(ellipe(0.0), 1.5707963267948966));
    assert!(close(ellipe(0.5), 1.3506438810476755));
    assert!(!close(ellpkm1(0.5), 1.8540746));
}

#[test]
fn first_kind_constants() {
    assert_eq!(f64::from_bits(MACHEP_BITS), 1.11022302462515654042E-16);
    assert_eq!(f64::from_bits(MACHEP_BITS), (2.0f64).powi(-53));
    assert_eq!(f64::from_bits(C1_BITS), 1.3862943611198906188E0);
    assert_eq!(f64::from_bits(HALF_BITS), 0.5);
}

#[test]
fn first_kind_tables() {
    let p = [
        1.37982864606273237150E-4,
        2.28025724005875567385E-3,
        7.97404013220415179367E-3,
        9.85821379021226008714E-3,
        6.87489687449949877925E-3,
        6.18901033637687613229E-3,
        8.79078273952743772254E-3,
        1.49380448916805252718E-2,
        3.08851465246711995998E-2,
        9.65735902811690126535E-2,
        1.38629436111989062502E0,
    ];
    let q = [
        2.94078955048598507511E-5,
        9.14184723865917226571E-4,
        5.94058303753167793257E-3,
        1.54850516649762399335E-2,
        2.39089602715924892727E-2,
        3.01204715227604046988E-2,
        3.73774314173823228969E-2,
        4.88280347570998239232E-2,
        7.03124996963957469739E-2,
        1.24999999999870820058E-1,
        4.99999999999999999821E-1,
    ];
    assert_eq!(ellip::ellipk::P.to_vec(), bits_of(&p));
    assert_eq!(ellip::ellipk::Q.to_vec(), bits_of(&q));
}

#[test]
fn second_kind_tables() {
    let p = [
        1.53552577301013293365E-4,
        2.50888492163602060990E-3,
        8.68786816565889628429E-3,
        1.07350949056076193403E-2,
        7.77395492516787092951E-3,
        7.58395289413514708519E-3,
        1.15688436810574127319E-2,
        2.18317996015557253103E-2,
        5.68051945617860553470E-2,
        4.43147180560990850618E-1,
        1.00000000000000000299E0,
    ];
    let q = [
        3.27954898576485872656E-5,
        1.00962792679356715133E-3,
        6.50609489976927491433E-3,
        1.68862163993311317300E-2,
        2.61769742454493659583E-2,
        3.34833904888224918614E-2,
        4.27180926518931511717E-2,
        5.85936634471101055642E-2,
        9.37499997197644278445E-2,
        2.49999999999888314361E-1,
    ];
    assert_eq!(ellip::ellipe::P.to_vec(), bits_of(&p));
    assert_eq!(ellip::ellipe::Q.to_vec(), bits_of(&q));
}

#[test]
fn polynomials_are_the_tables_evaluated() {
    for &x in &[0.0f64, 0.25, 0.5, 1.0] {
        let b = x.to_bits();
        let (p, q) = ellpkm1_polynomials(b, &step);
        assert_eq!(p, polyeval(b, &ellip::ellipk::P, &step));
        assert_eq!(q, polyeval(b, &ellip::ellipk::Q, &step));
        let (p, q) = ellipe_polynomials(b, &step);
        assert_eq!(p, polyeval(b, &ellip::ellipe::P, &step));
        assert_eq!(q, polyeval(b, &ellip::ellipe::Q, &step));
    }
    // at zero a polynomial is its constant term
    let (p, q) = ellpkm1_polynomials(ZERO_BITS, &step);
    assert_eq!(f64::from_bits(p), 1.38629436111989062502E0);
    assert_eq!(f64::from_bits(q), 0.5);
    let (p, q) = ellipe_polynomials(ZERO_BITS, &step);
    assert_eq!(f64::from_bits(p), 1.0);
    assert_eq!(f64::from_bits(q), 2.49999999999888314361E-1);
}

#[test]
fn first_kind_outside_the_interval_is_zero() {
    for &x in &[-1e-300, -1.0, -f64::MAX, f64::NEG_INFINITY, 1.0 + f64::EPSILON, 2.0, f64::INFINITY]
    {
        assert_eq!(ellpkm1_branch(x.to_bits()), FirstKind::Value(ZERO_BITS));
        assert_eq!(ellpkm1(x).to_bits(), 0.0f64.to_bits());
    }
    assert_eq!(ellpkm1_branch((-f64::from_bits(1)).to_bits()), FirstKind::Value(ZERO_BITS));
}

#[test]
fn first_kind_at_zero_is_the_largest_finite_value() {
    assert_eq!(ellpkm1_branch(0.0f64.to_bits()), FirstKind::Value(MAX_BITS));
    assert_eq!(ellpkm1_branch((-0.0f64).to_bits()), FirstKind::Value(MAX_BITS));
    assert_eq!(ellpkm1(0.0), f64::MAX);
    assert_eq!(ellpkm1(-0.0), f64::MAX);
    assert_eq!(ellpk(1.0), f64::MAX);
}

#[test]
fn first_kind_series_begins_above_machep() {
    let machep = f64::from_bits(MACHEP_BITS);
    let above = f64::from_bits(MACHEP_BITS + 1);
    assert_eq!(ellpkm1_branch(machep.to_bits()), FirstKind::Asymptote);
    assert_eq!(ellpkm1_branch(above.to_bits()), FirstKind::Series);
    assert_eq!(ellpkm1_branch(f64::from_bits(1).to_bits()), FirstKind::Asymptote);
    assert_eq!(ellpkm1_branch(1e-17f64.to_bits()), FirstKind::Asymptote);
    assert_eq!(ellpkm1_branch(0.5f64.to_bits()), FirstKind::Series);
    assert_eq!(ellpkm1_branch(ONE_BITS), FirstKind::Series);
}

#[test]
fn first_kind_asymptote_values() {
    assert_eq!(ellpkm1(1e-17), 1.3862943611198906188 - 0.5 * (1e-17f64).ln());
    assert!(close(ellpkm1(1e-17), 20.95826765156928));
    assert!(close(ellpkm1(1.11022302462515654042E-16), 19.75469464595844));
    assert!(close(ellpkm1(5e-324), 373.6063303218105));
}

#[test]
fn first_kind_nan_stays_nan() {
    assert_eq!(ellpkm1_branch(f64::NAN.to_bits()), FirstKind::Asymptote);
    assert_eq!(ellpkm1_branch(0xFFF8_0000_0000_0000), FirstKind::Asymptote);
    assert!(ellpkm1(f64::NAN).is_nan());
}

#[test]
fn second_kind_outside_the_interval_is_zero() {
    for &x in &[-1e-300, -1.0, f64::NEG_INFINITY, 1.0 + f64::EPSILON, 2.0, f64::INFINITY] {
        assert_eq!(ellipe_branch(x.to_bits()), SecondKind::Value(ZERO_BITS));
    }
    assert_eq!(ellipe(1.5).to_bits(), 0.0f64.to_bits());
    assert_eq!(ellipe(-0.5).to_bits(), 0.0f64.to_bits());
    assert_eq!(ellipe(f64::INFINITY).to_bits(), 0.0f64.to_bits());
    assert_eq!(ellipe(f64::NEG_INFINITY).to_bits(), 0.0f64.to_bits());
}

#[test]
fn second_kind_ends_take_the_series() {
    assert_eq!(ellipe_branch(ONE_BITS), SecondKind::Series);
    assert_eq!(ellipe_branch(ZERO_BITS), SecondKind::Series);
    assert_eq!(ellipe_branch((-0.0f64).to_bits()), SecondKind::Series);
    assert_eq!(ellipe_branch(0.5f64.to_bits()), SecondKind::Series);
    assert_eq!(ellipe_branch(f64::NAN.to_bits()), SecondKind::Series);
    // the argument zero gives x = 1, where the logarithm vanishes and P sums to pi / 2
    assert_eq!(ellipe(0.0), 1.5707963267948966);
    // the argument one gives x = 0, where the logarithm is infinite and its product with zero is no number
    assert!(ellipe(1.0).is_nan());
}

#[test]
fn first_kind_from_m_is_the_complement() {
    for i in 0..=100 {
        let m = f64::from(i) / 100.0;
        assert_eq!(ellpk(m).to_bits(), ellpkm1(1.0 - m).to_bits());
    }
}

#[test]
fn results_are_repeatable() {
    for i in -20..=120 {
        let x = f64::from(i) / 100.0;
        assert_eq!(ellpkm1(x).to_bits(), ellpkm1(x).to_bits());
        assert_eq!(ellipe(x).to_bits(), ellipe(x).to_bits());
        assert_eq!(ellpkm1_branch(x.to_bits()), ellpkm1_branch(x.to_bits()));
        assert_eq!(ellipe_branch(x.to_bits()), ellipe_branch(x.to_bits()));
    }
}
