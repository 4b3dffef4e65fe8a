use vstd::prelude::*;
use chrono::Datelike;

verus! {

/// The character of a decimal digit.
pub open spec fn digit_char(k: nat) -> char {
    if k == 0 { '0' }
    else if k == 1 { '1' }
    else if k == 2 { '2' }
    else if k == 3 { '3' }
    else if k == 4 { '4' }
    else if k == 5 { '5' }
    else if k == 6 { '6' }
    else if k == 7 { '7' }
    else if k == 8 { '8' }
    else { '9' }
}

/// The decimal digits of `n`, without leading zeros.
pub open spec fn digits(n: nat) -> Seq<char>
    decreases n,
{
    if n < 10 {
        seq![digit_char(n)]
    } else {
        digits(n / 10).push(digit_char(n % 10))
    }
}

/// `n` in decimal, zero-padded to at least two digits.
pub open spec fn two_digits(n: nat) -> Seq<char> {
    if n < 10 {
        seq!['0'] + digits(n)
    } else {
        digits(n)
    }
}

/// `n` in decimal, zero-padded to at least four digits.
pub open spec fn four_digits(n: nat) -> Seq<char> {
    if n < 10 {
        seq!['0', '0', '0'] + digits(n)
    } else if n < 100 {
        seq!['0', '0'] + digits(n)
    } else if n < 1000 {
        seq!['0'] + digits(n)
    } else {
        digits(n)
    }
}

/// A year as `%Y` writes it: four digits from 0 to 9999, otherwise with a
/// sign and at least four digits.
pub open spec fn year_text(y: int) -> Seq<char> {
    if 0 <= y <= 9999 {
        four_digits(y as nat)
    } else if y > 9999 {
        seq!['+'] + digits(y as nat)
    } else {
        seq!['-'] + four_digits((-y) as nat)
    }
}

/// A date as `%Y-%m-%d` writes it.
pub open spec fn iso_date(year: int, month: nat, day: nat) -> Seq<char> {
    year_text(year) + seq!['-'] + two_digits(month) + seq!['-'] + two_digits(day)
}

fn digit(k: u32) -> (c: char)
    requires
        k < 10,
    ensures
        c == digit_char(k as nat),
{
    match k {
        0 => '0',
        1 => '1',
        2 => '2',
        3 => '3',
        4 => '4',
        5 => '5',
        6 => '6',
        7 => '7',
        8 => '8',
        _ => '9',
    }
}

fn push_digits(out: &mut Vec<char>, n: u32)
    ensures
        final(out)@ == old(out)@ + digits(n as nat),
    decreases n,
{
    if n >= 10 {
        push_digits(out, n / 10);
    }
    out.push(digit(n % 10));
    assert(out@ =~= old(out)@ + digits(n as nat));
}

fn push_zeros(out: &mut Vec<char>, k: usize)
    ensures
        final(out)@ == old(out)@ + Seq::new(k as nat, |i: int| '0'),
{
    let mut i: usize = 0;
    while i < k
        invariant
            i <= k,
            out@ == old(out)@ + Seq::new(i as nat, |j: int| '0'),
        decreases k - i,
    {
        out.push('0');
        i = i + 1;
        assert(out@ =~= old(out)@ + Seq::new(i as nat, |j: int| '0'));
    }
}

/// Today's local date as year, month and day.
/// Relies on chrono's `Local::now` with `Datelike::month` (1 to 12) and
/// `Datelike::day` (1 to 31).
#[verifier::external_body]
fn local_ymd() -> (r: (i32, u32, u32))
    ensures
        1 <= r.1 <= 12,
        1 <= r.2 <= 31,
{
    let d = chrono::Local::now().date_naive();
    (d.year(), d.month(), d.day())
}

/// The date written as `%Y-%m-%d`.
pub fn format_date(year: i32, month: u32, day: u32) -> (r: String)
    ensures
        r@ == iso_date(year as int, month as nat, day as nat),
{
    let mut out: Vec<char> = Vec::new();
    let abs: u32 = if year < 0 { (-(year as i64)) as u32 } else { year as u32 };
    if year > 9999 {
        out.push('+');
    } else if year < 0 {
        out.push('-');
    }
    let pad: usize = if year > 9999 { 0 } else if abs < 10 { 3 } else if abs < 100 { 2 } else if abs < 1000 { 1 } else { 0 };
    push_zeros(&mut out, pad);
    push_digits(&mut out, abs);
    out.push('-');
    push_zeros(&mut out, if month < 10 { 1 } else { 0 });
    push_digits(&mut out, month);
    out.push('-');
    push_zeros(&mut out, if day < 10 { 1 } else { 0 });
    push_digits(&mut out, day);
    assert(out@ =~= iso_date(year as int, month as nat, day as nat));
    crate::text::string_of(&out)
}

/// Today's local date, written as `%Y-%m-%d`.
pub fn today() -> (r: String)
    ensures
        exists|y: int, m: nat, d: nat| 1 <= m <= 12 && 1 <= d <= 31 && r@ == iso_date(y, m, d),
{
    let (y, m, d) = local_ymd();
    format_date(y, m, d)
}

} // verus!
