//! What one year's request carries: endpoint, content type and form body.
use vstd::prelude::*;

verus! {

/// The endpoint that serves the name table of a year.
pub const ENDPOINT: &'static str = "https://www.ssa.gov/cgi-bin/popularnames.cgi";

/// The content type of the request body.
pub const CONTENT_TYPE: &'static str = "application/x-www-form-urlencoded";

/// The character of a digit value below ten.
pub open spec fn digit_char(d: nat) -> char {
    if d == 0 {
        '0'
    } else if d == 1 {
        '1'
    } else if d == 2 {
        '2'
    } else if d == 3 {
        '3'
    } else if d == 4 {
        '4'
    } else if d == 5 {
        '5'
    } else if d == 6 {
        '6'
    } else if d == 7 {
        '7'
    } else if d == 8 {
        '8'
    } else {
        '9'
    }
}

/// The base-10 digits of `n`, most significant first, without leading zeros.
pub open spec fn decimal_digits(n: nat) -> Seq<char>
    decreases n,
{
    if n < 10 {
        seq![digit_char(n)]
    } else {
        decimal_digits(n / 10).push(digit_char(n % 10))
    }
}

/// The canonical base-10 text of an integer.
pub open spec fn decimal_text(n: int) -> Seq<char> {
    if n < 0 {
        seq!['-'] + decimal_digits((-n) as nat)
    } else {
        decimal_digits(n as nat)
    }
}

/// The form body that asks for the top 1000 names of `year`.
pub open spec fn form_body_spec(year: int) -> Seq<char> {
    "year="@ + decimal_text(year) + "&top=1000&number=n&token=Submit"@
}

fn digit_text(d: u32) -> (r: &'static str)
    requires
        d < 10,
    ensures
        r@ == seq![digit_char(d as nat)],
{
    proof {
        reveal_strlit("0");
        reveal_strlit("1");
        reveal_strlit("2");
        reveal_strlit("3");
        reveal_strlit("4");
        reveal_strlit("5");
        reveal_strlit("6");
        reveal_strlit("7");
        reveal_strlit("8");
        reveal_strlit("9");
    }
    if d == 0 {
        "0"
    } else if d == 1 {
        "1"
    } else if d == 2 {
        "2"
    } else if d == 3 {
        "3"
    } else if d == 4 {
        "4"
    } else if d == 5 {
        "5"
    } else if d == 6 {
        "6"
    } else if d == 7 {
        "7"
    } else if d == 8 {
        "8"
    } else {
        "9"
    }
}

/// Appends the base-10 digits of `n` to `out`.
fn push_digits(out: &mut String, n: u32)
    ensures
        final(out)@ == old(out)@ + decimal_digits(n as nat),
    decreases n,
{
    if n >= 10 {
        push_digits(out, n / 10);
    }
    out.append(digit_text(n % 10));
    assert(n >= 10 ==> decimal_digits(n as nat) == decimal_digits((n / 10) as nat).push(
        digit_char((n % 10) as nat),
    ));
}

/// The form body of the request for `year`:
/// `year=<year>&top=1000&number=n&token=Submit`.
pub fn form_body(year: i32) -> (r: String)
    ensures
        r@ == form_body_spec(year as int),
{
    let mut out = String::from_str("year=");
    if year < 0 {
        out.append("-");
        proof {
            reveal_strlit("-");
        }
    }
    let magnitude: u32 = if year < 0 {
        (-(year as i64)) as u32
    } else {
        year as u32
    };
    push_digits(&mut out, magnitude);
    out.append("&top=1000&number=n&token=Submit");
    assert(out@ =~= form_body_spec(year as int));
    out
}

} // verus!
