//! Decimal text for integers, and the few string operations the rest of the
//! library builds its messages with.
use vstd::prelude::*;

verus! {

/// `String::push` appends one character to the end of the string.
pub assume_specification[ std::string::String::push ](s: &mut std::string::String, ch: char)
    ensures
        final(s)@ == old(s)@.push(ch),
;

/// `==` on string slices holds when the two hold the same characters.
pub assume_specification[ <str as PartialEq>::eq ](a: &str, b: &str) -> (r: bool)
    ensures
        r == (a@ == b@),
;

/// Whether two texts hold the same characters.
pub fn same_text(a: &str, b: &str) -> (r: bool)
    ensures
        r == (a@ == b@),
{
    *a == *b
}

/// The decimal digit for a value below ten.
pub open spec fn digit_char(d: int) -> char {
    if d == 0 {
        '0'
    } else if d == 1 {
        '1'
    } else if d == 2 {
        '2'
    } else if d == 3 {
        '3'
    } else if d == 4 {
        '4'
    } else if d == 5 {
        '5'
    } else if d == 6 {
        '6'
    } else if d == 7 {
        '7'
    } else if d == 8 {
        '8'
    } else {
        '9'
    }
}

/// A natural number in decimal, without leading zeros.
pub open spec fn decimal(n: nat) -> Seq<char>
    decreases n,
{
    if n < 10 {
        seq![digit_char(n as int)]
    } else {
        decimal(n / 10).push(digit_char((n % 10) as int))
    }
}

/// An integer in decimal, with a minus sign when it is negative.
pub open spec fn signed_decimal(i: int) -> Seq<char> {
    if i < 0 {
        seq!['-'] + decimal((-i) as nat)
    } else {
        decimal(i as nat)
    }
}

fn digit(d: u64) -> (ch: char)
    requires
        d < 10,
    ensures
        ch == digit_char(d as int),
{
    if d == 0 {
        '0'
    } else if d == 1 {
        '1'
    } else if d == 2 {
        '2'
    } else if d == 3 {
        '3'
    } else if d == 4 {
        '4'
    } else if d == 5 {
        '5'
    } else if d == 6 {
        '6'
    } else if d == 7 {
        '7'
    } else if d == 8 {
        '8'
    } else {
        '9'
    }
}

/// Appends `n` in decimal to `out`.
pub fn push_decimal(out: &mut String, n: u64)
    ensures
        final(out)@ == old(out)@ + decimal(n as nat),
{
    let mut low: Vec<char> = Vec::new();
    let mut rest: u64 = n;
    while rest >= 10
        invariant
            decimal(n as nat) == decimal(rest as nat) + low@.reverse(),
        decreases rest,
    {
        let ghost before = low@;
        low.push(digit(rest % 10));
        proof {
            assert(low@.reverse() =~= seq![digit_char((rest % 10) as int)] + before.reverse());
            assert(decimal(rest as nat) == decimal((rest / 10) as nat).push(digit_char((rest % 10) as int)));
            assert(decimal(rest as nat) + before.reverse() =~= decimal((rest / 10) as nat) + low@.reverse());
        }
        rest = rest / 10;
    }
    out.push(digit(rest));
    let mut i: usize = low.len();
    while i > 0
        invariant
            i <= low.len(),
            out@ == old(out)@ + decimal(rest as nat) + low@.reverse().subrange(0, low.len() - i),
        decreases i,
    {
        i = i - 1;
        let ghost before = out@;
        out.push(low[i]);
        proof {
            let r = low@.reverse();
            assert(r[low.len() - 1 - i] == low@[i as int]);
            assert(r.subrange(0, low.len() - i) =~= r.subrange(0, low.len() - 1 - i).push(low@[i as int]));
            assert(out@ =~= old(out)@ + decimal(rest as nat) + r.subrange(0, low.len() - i));
        }
    }
    proof {
        assert(low@.reverse().subrange(0, low.len() as int) =~= low@.reverse());
        assert(out@ =~= old(out)@ + decimal(n as nat));
    }
}

/// `n` in decimal.
pub fn format_unsigned(n: u64) -> (s: String)
    ensures
        s@ == decimal(n as nat),
{
    let mut s = String::new();
    push_decimal(&mut s, n);
    assert(s@ =~= decimal(n as nat));
    s
}

/// `i` in decimal, with a minus sign when it is negative.
pub fn format_signed(i: i64) -> (s: String)
    ensures
        s@ == signed_decimal(i as int),
{
    let mut s = String::new();
    if i < 0 {
        s.push('-');
        let size: u64 = if i == i64::MIN {
            0x8000_0000_0000_0000u64
        } else {
            (-i) as u64
        };
        push_decimal(&mut s, size);
        assert(s@ =~= seq!['-'] + decimal((-i) as nat));
    } else {
        push_decimal(&mut s, i as u64);
        assert(s@ =~= decimal(i as nat));
    }
    s
}

/// `count` times the character `ch`.
pub open spec fn filling(ch: char, count: int) -> Seq<char> {
    Seq::new(
        if count > 0 {
            count as nat
        } else {
            0
        },
        |i: int| ch,
    )
}

/// `text` with as many `fill` before it as bring it to `width`.
pub open spec fn padded_left(text: Seq<char>, width: int, fill: char) -> Seq<char> {
    filling(fill, width - text.len()) + text
}

/// `text` with as many blanks behind it as bring it to `width`.
pub open spec fn padded_right(text: Seq<char>, width: int) -> Seq<char> {
    text + filling(' ', width - text.len())
}

/// Appends `count` times the character `ch`.
pub fn push_filling(out: &mut String, ch: char, count: usize)
    ensures
        final(out)@ == old(out)@ + filling(ch, count as int),
{
    let mut i: usize = 0;
    while i < count
        invariant
            i <= count,
            out@ == old(out)@ + filling(ch, i as int),
        decreases count - i,
    {
        out.push(ch);
        assert(out@ =~= old(out)@ + filling(ch, i + 1));
        i = i + 1;
    }
    assert(out@ =~= old(out)@ + filling(ch, count as int));
}

/// The number of characters of the decimal text of `n`.
fn decimal_width(n: u64) -> (width: usize)
    ensures
        width == decimal(n as nat).len(),
        1 <= width <= 20,
{
    let mut width: usize = 1;
    let mut rest: u64 = n;
    assert(pow10(0) == 1);
    assert(rest * pow10(0) == n) by (nonlinear_arith)
        requires
            pow10(0) == 1,
            rest == n,
    ;
    while rest >= 10
        invariant
            decimal(n as nat).len() == decimal(rest as nat).len() + width - 1,
            1 <= width,
            rest * pow10((width - 1) as nat) <= n,
            width <= 20,
        decreases rest,
    {
        proof {
            assert(decimal(rest as nat) == decimal((rest / 10) as nat).push(digit_char((rest % 10) as int)));
            pow10_grows((width - 1) as nat);
            pow10_grows(width as nat);
            let low = pow10((width - 1) as nat);
            assert(pow10(width as nat) == 10 * low);
            assert(10 * low <= rest * low) by (nonlinear_arith)
                requires
                    rest >= 10,
                    low >= 1,
            ;
            assert((rest / 10) * (10 * low) <= rest * low) by (nonlinear_arith)
                requires
                    low >= 1,
                    rest >= 0,
            ;
        }
        rest = rest / 10;
        width = width + 1;
    }
    width
}

/// Ten to the power of `e`.
pub open spec fn pow10(e: nat) -> nat
    decreases e,
{
    if e == 0 {
        1
    } else {
        10 * pow10((e - 1) as nat)
    }
}

proof fn pow10_grows(e: nat)
    ensures
        pow10(e) >= 1,
        e >= 20 ==> pow10(e) > u64::MAX,
    decreases e,
{
    if e > 0 {
        pow10_grows((e - 1) as nat);
    }
    if e >= 20 {
        reveal_with_fuel(pow10, 21);
        assert(pow10(20) == 100_000_000_000_000_000_000);
        if e > 20 {
            pow10_grows((e - 1) as nat);
        }
    }
}

/// Appends `n` in decimal, with `fill` before it up to `width`.
pub fn push_padded(out: &mut String, n: u64, width: usize, fill: char)
    ensures
        final(out)@ == old(out)@ + padded_left(decimal(n as nat), width as int, fill),
{
    let used: usize = decimal_width(n);
    if used < width {
        push_filling(out, fill, width - used);
    } else {
        assert(filling(fill, width - used) =~= Seq::<char>::empty());
    }
    let ghost filled = out@;
    push_decimal(out, n);
    assert(out@ =~= old(out)@ + padded_left(decimal(n as nat), width as int, fill));
}

/// Appends `text`, with blanks behind it up to `width` characters.
pub fn push_left_aligned(out: &mut String, text: &str, width: usize)
    ensures
        final(out)@ == old(out)@ + padded_right(text@, width as int),
{
    out.append(text);
    let used: usize = text.unicode_len();
    if used < width {
        push_filling(out, ' ', width - used);
    } else {
        assert(filling(' ', width - used) =~= Seq::<char>::empty());
    }
    assert(out@ =~= old(out)@ + padded_right(text@, width as int));
}

} // verus!
