//! The two pages of the service: the input form, and the answer to a submitted
//! pair of numbers. Each produces an HTML response with its status code.
use vstd::prelude::*;
use crate::decimal::{decimal, push_decimal};
use crate::gcd::{gcd, gcd_spec};

verus! {

pub const STATUS_OK: u16 = 200;

pub const STATUS_BAD_REQUEST: u16 = 400;

pub const CONTENT_TYPE_HTML: &'static str = "text/html";

/// The form page: two text inputs named `n` and `m`, posted to `/gcd`.
pub const INDEX_HTML: &'static str = r#"
                <title>GCD Calculator</title>
                <form action="/gcd" method="post">
                <input type="text" name="n"/>
                <input type="text" name="m"/>
                <button type="submit">Compute GCD</button>
                </form>
            "#;

/// The answer to a pair that holds a zero.
pub const ZERO_REJECTION: &'static str = "Computing the GCD with zero is boring.";

/// The two numbers of a submitted form.
pub struct GcdParameters {
    pub n: u64,
    pub m: u64,
}

/// An HTML response: its status code, content type and body.
pub struct HtmlResponse {
    pub status: u16,
    pub content_type: String,
    pub body: String,
}

/// The body of a successful answer for `n`, `m` and their divisor `g`.
pub open spec fn gcd_message(n: nat, m: nat, g: nat) -> Seq<char> {
    "The greatest common divisor of the numbers "@ + decimal(n) + " and "@ + decimal(m)
        + " is <b>"@ + decimal(g) + "</b>\n"@
}

fn html_response(status: u16, body: String) -> (r: HtmlResponse)
    ensures
        r.status == status,
        r.content_type@ == CONTENT_TYPE_HTML@,
        r.body@ == body@,
{
    HtmlResponse { status, content_type: String::from_str(CONTENT_TYPE_HTML), body }
}

/// Serves the input form.
pub fn get_index() -> (r: HtmlResponse)
    ensures
        r.status == STATUS_OK,
        r.content_type@ == CONTENT_TYPE_HTML@,
        r.body@ == INDEX_HTML@,
{
    html_response(STATUS_OK, String::from_str(INDEX_HTML))
}

/// Answers a submitted pair: a zero in either field is rejected with a fixed
/// message, otherwise the body states the greatest common divisor.
pub fn post_gcd(form: &GcdParameters) -> (r: HtmlResponse)
    ensures
        r.content_type@ == CONTENT_TYPE_HTML@,
        form.n == 0 || form.m == 0 ==> r.status == STATUS_BAD_REQUEST && r.body@
            == ZERO_REJECTION@,
        form.n != 0 && form.m != 0 ==> r.status == STATUS_OK && r.body@ == gcd_message(
            form.n as nat,
            form.m as nat,
            gcd_spec(form.n as nat, form.m as nat),
        ),
{
    if form.n == 0 || form.m == 0 {
        return html_response(STATUS_BAD_REQUEST, String::from_str(ZERO_REJECTION));
    }
    let g = gcd(form.n, form.m);
    let mut body = String::from_str("The greatest common divisor of the numbers ");
    push_decimal(&mut body, form.n);
    body.append(" and ");
    push_decimal(&mut body, form.m);
    body.append(" is <b>");
    push_decimal(&mut body, g);
    body.append("</b>\n");
    proof {
        assert(body@ =~= gcd_message(form.n as nat, form.m as nat, g as nat));
    }
    html_response(STATUS_OK, body)
}

} // verus!
