use actix_gcd::decimal::to_decimal;
use actix_gcd::gcd::gcd;
use actix_gcd::handler::{get_index, post_gcd, GcdParameters, INDEX_HTML, ZERO_REJECTION};

fn post(n: u64, m: u64) -> actix_gcd::handler::HtmlResponse {
    post_gcd(&GcdParameters { n, m })
}

#[test]
fn post_48_18_gives_6() {
    let r = post(48, 18);
    assert_eq!(r.status, 200);
    assert_eq!(r.content_type, "text/html");
    assert!(r.body.contains("is <b>6</b>"));
    assert_eq!(
        r.body,
        "The greatest common divisor of the numbers 48 and 18 is <b>6</b>\n"
    );
}

#[test]
fn post_coprime_gives_1() {
    let r = post(17, 5);
    assert_eq!(r.status, 200);
    assert!(r.body.contains("is <b>1</b>"));
}

#[test]
fn post_zero_first_is_rejected() {
    let r = post(0, 5);
    assert_eq!(r.status, 400);
    assert_eq!(r.content_type, "text/html");
    assert_eq!(r.body, "Computing the GCD with zero is boring.");
}

#[test]
fn post_zero_second_is_rejected() {
    let r = post(5, 0);
    assert_eq!(r.status, 400);
    assert_eq!(r.body, "Computing the GCD with zero is boring.");
}

#[test]
fn post_both_zero_is_rejected() {
    let r = post(0, 0);
    assert_eq!(r.status, 400);
    assert_eq!(r.body, ZERO_REJECTION);
}

#[test]
fn index_page_has_form() {
    let r = get_index();
    assert_eq!(r.status, 200);
    assert_eq!(r.content_type, "text/html");
    assert_eq!(r.body, INDEX_HTML);
    assert!(r.body.contains("<form action=\"/gcd\" method=\"post\">"));
    assert!(r.body.contains("name=\"n\""));
    assert!(r.body.contains("name=\"m\""));
}

#[test]
fn gcd_is_commutative_on_examples() {
    for &(n, m) in &[(48u64, 18u64), (17, 5), (1, 99), (1071, 462), (u64::MAX, 3)] {
        assert_eq!(gcd(n, m), gcd(m, n));
    }
}

#[test]
fn gcd_of_number_with_itself() {
    for &n in &[1u64, 7, 12, 1 << 40, u64::MAX] {
        assert_eq!(gcd(n, n), n);
    }
}

#[test]
fn gcd_divides_both_and_is_greatest() {
    let (n, m) = (1071u64, 462u64);
    let g = gcd(n, m);
    assert_eq!(g, 21);
    assert_eq!(n % g, 0);
    assert_eq!(m % g, 0);
    for d in (g + 1)..=m {
        assert!(n % d != 0 || m % d != 0);
    }
}

#[test]
fn gcd_known_values() {
    assert_eq!(gcd(48, 18), 6);
    assert_eq!(gcd(18, 48), 6);
    assert_eq!(gcd(17, 5), 1);
    assert_eq!(gcd(1, 1), 1);
    assert_eq!(gcd(u64::MAX, u64::MAX - 1), 1);
    assert_eq!(gcd(1 << 63, 1 << 20), 1 << 20);
    assert_eq!(gcd(2 * 3 * 5 * 7 * 11 * 13, 3 * 7 * 13 * 17), 3 * 7 * 13);
}

#[test]
fn decimal_rendering() {
    assert_eq!(to_decimal(0), "0");
    assert_eq!(to_decimal(9), "9");
    assert_eq!(to_decimal(10), "10");
    assert_eq!(to_decimal(407), "407");
    assert_eq!(to_decimal(u64::MAX), u64::MAX.to_string());
}

#[test]
fn post_largest_values() {
    let r = post(u64::MAX, u64::MAX);
    assert_eq!(r.status, 200);
    assert_eq!(
        r.body,
        format!(
            "The greatest common divisor of the numbers {} and {} is <b>{}</b>\n",
            u64::MAX,
            u64::MAX,
            u64::MAX
        )
    );
}
