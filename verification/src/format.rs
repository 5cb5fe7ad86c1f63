use vstd::prelude::*;
use vstd::string::*;

verus! {

/// The decimal digit for `d`, which is below ten.
pub open spec fn digit_char(d: nat) -> char {
    if d == 0 {
        '0'
    } else if d == 1 {
        '1'
    } else if d == 2 {
        '2'
    } else if d == 3 {
        '3'
    } else if d == 4 {
        '4'
    } else if d == 5 {
        '5'
    } else if d == 6 {
        '6'
    } else if d == 7 {
        '7'
    } else if d == 8 {
        '8'
    } else {
        '9'
    }
}

/// `n` in decimal digits, without leading zeros.
pub open spec fn decimal(n: nat) -> Seq<char>
    decreases n,
{
    if n < 10 {
        seq![digit_char(n)]
    } else {
        decimal(n / 10).push(digit_char(n % 10))
    }
}

/// `num / den` rounded to the nearest whole number, a tie going to the even
/// one.
pub open spec fn round_half_even(num: nat, den: nat) -> nat {
    let q = num / den;
    let r = num % den;
    if 2 * r > den || (2 * r == den && q % 2 == 1) {
        q + 1
    } else {
        q
    }
}

/// The distance between neighbouring double-precision numbers at `n`: one
/// below 2^53, and twice as much with each further bit.
pub open spec fn double_spacing(n: nat) -> nat
    decreases n,
{
    if n < 0x20_0000_0000_0000 {
        1
    } else {
        2 * double_spacing(n / 2)
    }
}

/// `n` as double precision holds it: rounded to 53 significant bits.
pub open spec fn as_double(n: nat) -> nat {
    let spacing = double_spacing(n);
    round_half_even(n, spacing) * spacing
}

/// The size `n`, held in double precision, in tenths of `unit`.
pub open spec fn tenths(n: nat, unit: nat) -> nat {
    round_half_even(as_double(n) * 10, unit)
}

/// A number of tenths written with one decimal place.
pub open spec fn one_decimal(t: nat) -> Seq<char> {
    decimal(t / 10).push('.').push(digit_char(t % 10))
}

/// A size in bytes as people read it: in bytes below 1024, in KB below
/// 1048576, else in MB, the two larger units with one decimal place.
pub open spec fn formatted_size(n: nat) -> Seq<char> {
    if n >= 1_048_576 {
        one_decimal(tenths(n, 1_048_576)) + " MB"@
    } else if n >= 1_024 {
        one_decimal(tenths(n, 1_024)) + " KB"@
    } else {
        decimal(n) + " B"@
    }
}

fn digit_text(d: u128) -> (text: &'static str)
    requires
        d < 10,
    ensures
        text@ == seq![digit_char(d as nat)],
{
    proof {
        reveal_strlit("0");
        reveal_strlit("1");
        reveal_strlit("2");
        reveal_strlit("3");
        reveal_strlit("4");
        reveal_strlit("5");
        reveal_strlit("6");
        reveal_strlit("7");
        reveal_strlit("8");
        reveal_strlit("9");
    }
    let text = if d == 0 {
        "0"
    } else if d == 1 {
        "1"
    } else if d == 2 {
        "2"
    } else if d == 3 {
        "3"
    } else if d == 4 {
        "4"
    } else if d == 5 {
        "5"
    } else if d == 6 {
        "6"
    } else if d == 7 {
        "7"
    } else if d == 8 {
        "8"
    } else {
        "9"
    };
    assert(text@ =~= seq![digit_char(d as nat)]);
    text
}

/// `n` in decimal digits.
pub fn decimal_text(n: u128) -> (text: String)
    ensures
        text@ == decimal(n as nat),
    decreases n,
{
    if n < 10 {
        let mut text = String::new();
        text.append(digit_text(n));
        assert(text@ =~= decimal(n as nat));
        text
    } else {
        let mut text = decimal_text(n / 10);
        text.append(digit_text(n % 10));
        assert(text@ =~= decimal(n as nat));
        text
    }
}

fn one_decimal_text(t: u128) -> (text: String)
    ensures
        text@ == one_decimal(t as nat),
{
    let mut text = decimal_text(t / 10);
    text.append(".");
    text.append(digit_text(t % 10));
    proof {
        reveal_strlit(".");
        assert(text@ =~= one_decimal(t as nat));
    }
    text
}

fn rounded_quotient(num: u128, den: u128) -> (q: u128)
    requires
        den > 0,
        num < 0x1_0000_0000_0000_0000_0000_0000,
        den < 0x1_0000_0000_0000_0000_0000_0000,
    ensures
        q == round_half_even(num as nat, den as nat),
{
    let q = num / den;
    let r = num % den;
    if 2 * r > den || (2 * r == den && q % 2 == 1) {
        q + 1
    } else {
        q
    }
}

fn spacing_at(n: u64) -> (spacing: u64)
    ensures
        spacing == double_spacing(n as nat),
        0 < spacing <= 4096,
{
    let mut m: u64 = n;
    let mut spacing: u64 = 1;
    while m >= 0x20_0000_0000_0000
        invariant
            0 < spacing <= 4096,
            spacing * m <= n,
            double_spacing(n as nat) == spacing * double_spacing(m as nat),
        decreases m,
    {
        assert(spacing < 2048) by (nonlinear_arith)
            requires
                spacing * m <= n,
                m >= 0x20_0000_0000_0000,
                n < 0x1_0000_0000_0000_0000,
        ;
        assert((2 * spacing) * (m / 2) <= spacing * m) by (nonlinear_arith)
            requires
                spacing > 0,
        ;
        assert(spacing * (2 * double_spacing((m / 2) as nat)) == (2 * spacing) * double_spacing(
            (m / 2) as nat,
        )) by (nonlinear_arith);
        m = m / 2;
        spacing = spacing * 2;
    }
    assert(spacing * 1 == spacing);
    spacing
}

fn size_in_tenths(n: u64, unit: u128) -> (t: u128)
    requires
        unit == 1_024 || unit == 1_048_576,
    ensures
        t == tenths(n as nat, unit as nat),
{
    let spacing = spacing_at(n) as u128;
    let mantissa = rounded_quotient(n as u128, spacing);
    assert(mantissa <= n + 1);
    assert(mantissa * spacing <= 0x1_0000_0000_0000_0000 * 4096) by (nonlinear_arith)
        requires
            mantissa <= 0x1_0000_0000_0000_0000,
            spacing <= 4096,
    ;
    let held = mantissa * spacing;
    rounded_quotient(held * 10, unit)
}

/// A size in bytes as people read it, such as `512 B`, `1.5 KB` or `2.5 MB`.
pub fn format_bytes(bytes: usize) -> (text: String)
    ensures
        text@ == formatted_size(bytes as nat),
{
    if bytes >= 1_048_576 {
        let mut text = one_decimal_text(size_in_tenths(bytes as u64, 1_048_576));
        text.append(" MB");
        text
    } else if bytes >= 1_024 {
        let mut text = one_decimal_text(size_in_tenths(bytes as u64, 1_024));
        text.append(" KB");
        text
    } else {
        let mut text = decimal_text(bytes as u128);
        text.append(" B");
        text
    }
}

} // verus!
