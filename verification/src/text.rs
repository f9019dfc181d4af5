//! Numbers and bytes written out as text.

use vstd::prelude::*;
use vstd::string::{StrSliceExecFns, StringExecFns};

verus! {

/// Appends `c` to `s` with `String::push`.
#[verifier::external_body]
pub(crate) fn push_char(s: &mut String, c: char)
    ensures
        final(s)@ == old(s)@.push(c),
{
    s.push(c)
}

/// The character that writes the digit `d` in base sixteen, small letters
/// for ten to fifteen.
pub open spec fn digit_char(d: int) -> char {
    if d == 0 {
        '0'
    } else if d == 1 {
        '1'
    } else if d == 2 {
        '2'
    } else if d == 3 {
        '3'
    } else if d == 4 {
        '4'
    } else if d == 5 {
        '5'
    } else if d == 6 {
        '6'
    } else if d == 7 {
        '7'
    } else if d == 8 {
        '8'
    } else if d == 9 {
        '9'
    } else if d == 10 {
        'a'
    } else if d == 11 {
        'b'
    } else if d == 12 {
        'c'
    } else if d == 13 {
        'd'
    } else if d == 14 {
        'e'
    } else {
        'f'
    }
}

/// The decimal digits of `n`, the most significant first, without leading
/// zeros; a single `0` for zero.
pub open spec fn decimal(n: nat) -> Seq<char>
    decreases n,
{
    if n < 10 {
        seq![digit_char(n as int)]
    } else {
        decimal(n / 10).push(digit_char((n % 10) as int))
    }
}

/// `count` zeros.
pub open spec fn zeros(count: nat) -> Seq<char> {
    Seq::new(count, |i: int| '0')
}

/// `n` in decimal, filled with zeros in front up to `width` characters. The
/// sign of a negative number comes first and counts towards the width.
pub open spec fn padded(n: int, width: nat) -> Seq<char> {
    let sign = if n < 0 {
        seq!['-']
    } else {
        Seq::<char>::empty()
    };
    let digits = decimal((if n < 0 {
        -n
    } else {
        n
    }) as nat);
    let fill = if sign.len() + digits.len() < width {
        (width - sign.len() - digits.len()) as nat
    } else {
        0
    };
    sign + zeros(fill) + digits
}

/// The bytes of `bytes` in base sixteen, two small-letter digits each.
pub open spec fn hex(bytes: Seq<u8>) -> Seq<char>
    decreases bytes.len(),
{
    if bytes.len() == 0 {
        Seq::empty()
    } else {
        hex(bytes.drop_last()).push(digit_char(bytes.last() as int / 16)).push(
            digit_char(bytes.last() as int % 16),
        )
    }
}

/// The character of one digit below sixteen.
pub(crate) fn digit(d: u8) -> (c: char)
    requires
        d < 16,
    ensures
        c == digit_char(d as int),
{
    if d == 0 {
        '0'
    } else if d == 1 {
        '1'
    } else if d == 2 {
        '2'
    } else if d == 3 {
        '3'
    } else if d == 4 {
        '4'
    } else if d == 5 {
        '5'
    } else if d == 6 {
        '6'
    } else if d == 7 {
        '7'
    } else if d == 8 {
        '8'
    } else if d == 9 {
        '9'
    } else if d == 10 {
        'a'
    } else if d == 11 {
        'b'
    } else if d == 12 {
        'c'
    } else if d == 13 {
        'd'
    } else if d == 14 {
        'e'
    } else {
        'f'
    }
}

/// Writes `n` in decimal.
pub fn decimal_text(n: u64) -> (text: String)
    ensures
        text@ == decimal(n as nat),
{
    // The digits come out least significant first.
    let mut reversed: Vec<char> = Vec::new();
    let mut rest = n;
    while rest >= 10
        invariant
            decimal(n as nat) == decimal(rest as nat) + reversed@.reverse(),
        decreases rest,
    {
        let d = (rest % 10) as u8;
        proof {
            let last = seq![digit_char(d as int)];
            assert(decimal(rest as nat) == decimal((rest / 10) as nat).push(
                digit_char(d as int),
            ));
            assert(reversed@.push(digit_char(d as int)).reverse() =~= last + reversed@.reverse());
            assert(decimal((rest / 10) as nat).push(digit_char(d as int)) + reversed@.reverse()
                =~= decimal((rest / 10) as nat) + (last + reversed@.reverse()));
        }
        reversed.push(digit(d));
        rest = rest / 10;
    }
    let mut text = String::new();
    push_char(&mut text, digit(rest as u8));
    let mut left = reversed.len();
    while left > 0
        invariant
            left <= reversed.len(),
            text@ == decimal(rest as nat) + reversed@.reverse().subrange(
                0,
                reversed.len() - left,
            ),
            rest < 10,
        decreases left,
    {
        left = left - 1;
        proof {
            let r = reversed@.reverse();
            let k = reversed.len() - left - 1;
            assert(r[k] == reversed@[left as int]);
            assert(r.subrange(0, k + 1) =~= r.subrange(0, k).push(r[k]));
            assert((decimal(rest as nat) + r.subrange(0, k)).push(r[k]) =~= decimal(rest as nat)
                + r.subrange(0, k + 1));
        }
        push_char(&mut text, reversed[left]);
    }
    proof {
        let r = reversed@.reverse();
        assert(r.subrange(0, reversed.len() as int) =~= r);
    }
    text
}

/// Writes `n` in decimal, filled with zeros in front up to `width`
/// characters. The sign of a negative number comes first and counts towards
/// the width.
pub fn padded_text(n: i64, width: usize) -> (text: String)
    ensures
        text@ == padded(n as int, width as nat),
{
    let mut text = String::new();
    let magnitude: u64 = if n < 0 {
        push_char(&mut text, '-');
        (-(n + 1)) as u64 + 1
    } else {
        n as u64
    };
    let ghost sign = text@;
    let digits = decimal_text(magnitude);
    let taken = digits.as_str().unicode_len();
    let mut used: usize = if n < 0 {
        1
    } else {
        0
    };
    let ghost start = used;
    let ghost fill: nat = if sign.len() + digits@.len() < width {
        (width - sign.len() - digits@.len()) as nat
    } else {
        0
    };
    while used < width && width - used > taken
        invariant
            start == sign.len(),
            taken == digits@.len(),
            start <= used,
            used - start <= fill,
            fill == if start + taken < width {
                width - start - taken
            } else {
                0
            },
            text@ == sign + zeros((used - start) as nat),
        decreases width - used,
    {
        proof {
            assert(zeros((used - start) as nat).push('0') =~= zeros((used + 1 - start) as nat));
            assert((sign + zeros((used - start) as nat)).push('0') =~= sign + zeros(
                (used + 1 - start) as nat,
            ));
        }
        push_char(&mut text, '0');
        used += 1;
    }
    text.append(digits.as_str());
    text
}

/// Writes `bytes` in base sixteen, two small-letter digits each.
pub fn hex_text(bytes: &Vec<u8>) -> (text: String)
    ensures
        text@ == hex(bytes@),
        text@.len() == 2 * bytes.len(),
{
    let mut text = String::new();
    let mut i: usize = 0;
    while i < bytes.len()
        invariant
            i <= bytes.len(),
            text@ == hex(bytes@.subrange(0, i as int)),
            text@.len() == 2 * i,
        decreases bytes.len() - i,
    {
        let byte = bytes[i];
        proof {
            let upto = bytes@.subrange(0, i + 1);
            assert(upto.drop_last() =~= bytes@.subrange(0, i as int));
            assert(upto.last() == byte);
        }
        push_char(&mut text, digit(byte / 16));
        push_char(&mut text, digit(byte % 16));
        i += 1;
    }
    assert(bytes@.subrange(0, i as int) =~= bytes@);
    text
}

} // verus!
