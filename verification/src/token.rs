//! Tokens: opaque strings that cannot be guessed within their lifetime.

use crate::table::StringMap;
use crate::text::{digit, digit_char, push_char};
use vstd::string::StringExecFns;
use vstd::prelude::*;

verus! {

/// The number of characters in a token.
pub const TOKEN_LENGTH: usize = 30;

/// Whether `c` is an ASCII letter or digit.
pub open spec fn is_alphanumeric(c: char) -> bool {
    ||| 'A' <= c <= 'Z'
    ||| 'a' <= c <= 'z'
    ||| '0' <= c <= '9'
}

/// Whether `s` has the shape of a token: the fixed length, letters and digits
/// only.
pub open spec fn is_token(s: Seq<char>) -> bool {
    &&& s.len() == TOKEN_LENGTH
    &&& forall|i: int| 0 <= i < s.len() ==> is_alphanumeric(#[trigger] s[i])
}

/// Draws one character with `rand::Rng::sample` from `rand::thread_rng()`
/// under the distribution `rand::distributions::Alphanumeric`, which yields
/// the ASCII letters and digits and nothing else. Which of them comes is left
/// open.
#[verifier::external_body]
fn random_alphanumeric() -> (c: char)
    ensures
        is_alphanumeric(c),
{
    char::from(rand::Rng::sample(&mut rand::thread_rng(), rand::distributions::Alphanumeric))
}

/// Whether `s` is made of ASCII letters and digits only.
pub open spec fn is_alphanumeric_text(s: Seq<char>) -> bool {
    forall|i: int| 0 <= i < s.len() ==> is_alphanumeric(#[trigger] s[i])
}

/// Draws `length` random letters and digits.
pub fn random_text(length: usize) -> (text: String)
    ensures
        text@.len() == length,
        is_alphanumeric_text(text@),
{
    let mut text = String::new();
    let mut drawn: usize = 0;
    while drawn < length
        invariant
            drawn <= length,
            text@.len() == drawn,
            is_alphanumeric_text(text@),
        decreases length - drawn,
    {
        let c = random_alphanumeric();
        push_char(&mut text, c);
        drawn += 1;
    }
    text
}

/// Makes a new token from random letters and digits.
pub fn generate_token() -> (token: String)
    ensures
        is_token(token@),
{
    random_text(TOKEN_LENGTH)
}

/// How often `fresh_token` draws a whole token at random before it counts.
pub const DRAWS: usize = 8;

/// The number of random characters with which a counted token begins.
pub const PREFIX_LENGTH: usize = 10;

/// The number of digits with which a counted token ends.
pub const COUNT_LENGTH: usize = 20;

/// `n` in decimal, in `width` digits exactly: zeros in front where `n` has
/// fewer, and its last `width` digits where it has more.
pub open spec fn counted(n: nat, width: nat) -> Seq<char>
    decreases width,
{
    if width == 0 {
        Seq::empty()
    } else {
        counted(n / 10, (width - 1) as nat).push(digit_char((n % 10) as int))
    }
}

/// The token that begins with `prefix` and ends with `n` in twenty digits.
pub open spec fn counted_token(prefix: Seq<char>, n: nat) -> Seq<char> {
    prefix + counted(n, COUNT_LENGTH as nat)
}

/// Whether `n` has no more than `width` decimal digits.
pub open spec fn has_digits(n: nat, width: nat) -> bool
    decreases width,
{
    if width == 0 {
        n == 0
    } else {
        has_digits(n / 10, (width - 1) as nat)
    }
}

spec fn power_of_ten(width: nat) -> nat
    decreases width,
{
    if width == 0 {
        1
    } else {
        10 * power_of_ten((width - 1) as nat)
    }
}

proof fn lemma_has_digits(n: nat, width: nat)
    requires
        n < power_of_ten(width),
    ensures
        has_digits(n, width),
    decreases width,
{
    if width > 0 {
        lemma_has_digits(n / 10, (width - 1) as nat);
    }
}

/// A number of 64 bits has no more than twenty decimal digits.
pub proof fn lemma_u64_has_twenty_digits(n: nat)
    requires
        n <= u64::MAX,
    ensures
        has_digits(n, COUNT_LENGTH as nat),
{
    assert(power_of_ten(20) == 100_000_000_000_000_000_000nat) by {
        reveal_with_fuel(power_of_ten, 21);
    }
    lemma_has_digits(n, 20);
}

/// `counted(n, width)` has `width` characters, all of them digits.
pub proof fn lemma_counted_shape(n: nat, width: nat)
    ensures
        counted(n, width).len() == width,
        is_alphanumeric_text(counted(n, width)),
    decreases width,
{
    if width > 0 {
        lemma_counted_shape(n / 10, (width - 1) as nat);
    }
}

/// Two numbers of no more than `width` digits that are written alike are
/// the same number.
pub proof fn lemma_counted_is_injective(a: nat, b: nat, width: nat)
    requires
        has_digits(a, width),
        has_digits(b, width),
        counted(a, width) == counted(b, width),
    ensures
        a == b,
    decreases width,
{
    if width > 0 {
        let front_a = counted(a / 10, (width - 1) as nat);
        let front_b = counted(b / 10, (width - 1) as nat);
        let last_a = digit_char((a % 10) as int);
        let last_b = digit_char((b % 10) as int);
        assert(front_a.push(last_a).drop_last() == front_a);
        assert(front_b.push(last_b).drop_last() == front_b);
        assert(front_a.push(last_a).last() == last_a);
        assert(front_b.push(last_b).last() == last_b);
        lemma_counted_is_injective(a / 10, b / 10, (width - 1) as nat);
    }
}

/// Counted tokens with one prefix differ where their numbers differ.
pub proof fn lemma_counted_tokens_differ(prefix: Seq<char>, a: nat, b: nat)
    requires
        a <= u64::MAX,
        b <= u64::MAX,
        a != b,
    ensures
        counted_token(prefix, a) != counted_token(prefix, b),
{
    let length = prefix.len() as int;
    lemma_counted_shape(a, COUNT_LENGTH as nat);
    lemma_counted_shape(b, COUNT_LENGTH as nat);
    if counted_token(prefix, a) == counted_token(prefix, b) {
        assert(counted_token(prefix, a).subrange(length, length + 20) == counted(a, 20));
        assert(counted_token(prefix, b).subrange(length, length + 20) == counted(b, 20));
        lemma_u64_has_twenty_digits(a);
        lemma_u64_has_twenty_digits(b);
        lemma_counted_is_injective(a, b, 20);
    }
}

/// The counted tokens with the numbers below `count`.
pub open spec fn counted_tokens(prefix: Seq<char>, count: nat) -> Set<Seq<char>>
    decreases count,
{
    if count == 0 {
        Set::empty()
    } else {
        counted_tokens(prefix, (count - 1) as nat).insert(
            counted_token(prefix, (count - 1) as nat),
        )
    }
}

proof fn lemma_counted_tokens(prefix: Seq<char>, count: nat)
    requires
        count <= u64::MAX,
    ensures
        counted_tokens(prefix, count).finite(),
        counted_tokens(prefix, count).len() == count,
        forall|t: Seq<char>|
            counted_tokens(prefix, count).contains(t) ==> exists|j: nat|
                j < count && t == #[trigger] counted_token(prefix, j),
        forall|j: nat| j < count ==> counted_tokens(prefix, count).contains(
            #[trigger] counted_token(prefix, j),
        ),
    decreases count,
{
    if count > 0 {
        let fewer = (count - 1) as nat;
        lemma_counted_tokens(prefix, fewer);
        let last = counted_token(prefix, fewer);
        if counted_tokens(prefix, fewer).contains(last) {
            let j = choose|j: nat| j < fewer && last == #[trigger] counted_token(prefix, j);
            lemma_counted_tokens_differ(prefix, j, fewer);
        }
    }
}

/// Where a set of `count` tokens holds every counted token with a number
/// below `count`, it holds none with the number `count`: there is no room
/// for one more.
pub proof fn lemma_next_counted_token_is_free(held: Set<Seq<char>>, prefix: Seq<char>, count: nat)
    requires
        held.finite(),
        held.len() == count,
        count <= u64::MAX,
        forall|j: nat| j < count ==> held.contains(#[trigger] counted_token(prefix, j)),
    ensures
        !held.contains(counted_token(prefix, count)),
{
    let counted = counted_tokens(prefix, count);
    lemma_counted_tokens(prefix, count);
    assert(counted.subset_of(held)) by {
        assert forall|t: Seq<char>| counted.contains(t) implies held.contains(t) by {
            let j = choose|j: nat| j < count && t == #[trigger] counted_token(prefix, j);
        }
    }
    vstd::set_lib::lemma_subset_equality(counted, held);
    if held.contains(counted_token(prefix, count)) {
        let j = choose|j: nat|
            j < count && counted_token(prefix, count) == #[trigger] counted_token(prefix, j);
        lemma_counted_tokens_differ(prefix, j, count);
    }
}

/// Writes `n` in `width` digits.
pub fn counted_text(n: u64, width: usize) -> (text: String)
    ensures
        text@ == counted(n as nat, width as nat),
{
    // The digits come out least significant first.
    let mut reversed: Vec<char> = Vec::new();
    let mut rest = n;
    while reversed.len() < width
        invariant
            reversed.len() <= width,
            counted(n as nat, width as nat) == counted(
                rest as nat,
                (width - reversed.len()) as nat,
            ) + reversed@.reverse(),
        decreases width - reversed.len(),
    {
        let d = (rest % 10) as u8;
        proof {
            let left = (width - reversed.len()) as nat;
            let front = counted((rest / 10) as nat, (left - 1) as nat);
            let last = seq![digit_char(d as int)];
            assert(counted(rest as nat, left) == front.push(digit_char(d as int)));
            assert(reversed@.push(digit_char(d as int)).reverse() =~= last + reversed@.reverse());
            assert(front.push(digit_char(d as int)) + reversed@.reverse() =~= front + (last
                + reversed@.reverse()));
        }
        reversed.push(digit(d));
        rest = rest / 10;
    }
    let mut text = String::new();
    let mut left = reversed.len();
    while left > 0
        invariant
            left <= reversed.len(),
            text@ == reversed@.reverse().subrange(0, reversed.len() - left),
        decreases left,
    {
        left = left - 1;
        proof {
            let r = reversed@.reverse();
            let k = reversed.len() - left - 1;
            assert(r[k] == reversed@[left as int]);
            assert(r.subrange(0, k + 1) =~= r.subrange(0, k).push(r[k]));
        }
        push_char(&mut text, reversed[left]);
    }
    proof {
        let r = reversed@.reverse();
        assert(r.subrange(0, reversed.len() as int) =~= r);
        assert(counted(rest as nat, 0) + r =~= r);
    }
    text
}

/// Makes a token that `held` does not hold. A token drawn at random is taken
/// where it is not held, as all but never fails. After a few draws that were
/// all held, the token is made of a random prefix and a number, counted up
/// until a token comes that is not held: with room for more numbers than the
/// map can have keys, one always comes.
pub fn fresh_token<V: View>(held: &StringMap<V>) -> (token: String)
    ensures
        is_token(token@),
        !held@.contains_key(token@),
{
    let mut tries: usize = 0;
    while tries < DRAWS
        invariant
            tries <= DRAWS,
        decreases DRAWS - tries,
    {
        let token = generate_token();
        if !held.contains_key(&token) {
            return token;
        }
        tries += 1;
    }
    let prefix = random_text(PREFIX_LENGTH);
    let count = held.len();
    let mut number: usize = 0;
    while number < count
        invariant
            number <= count,
            count == held@.len(),
            held@.dom().finite(),
            prefix@.len() == PREFIX_LENGTH,
            is_alphanumeric_text(prefix@),
            forall|j: nat| j < number ==> held@.contains_key(#[trigger] counted_token(prefix@, j)),
        decreases count - number,
    {
        let mut token = prefix.clone();
        token.append(counted_text(number as u64, COUNT_LENGTH).as_str());
        proof {
            lemma_counted_shape(number as nat, COUNT_LENGTH as nat);
        }
        if !held.contains_key(&token) {
            return token;
        }
        number += 1;
    }
    let mut token = prefix.clone();
    token.append(counted_text(count as u64, COUNT_LENGTH).as_str());
    proof {
        lemma_counted_shape(count as nat, COUNT_LENGTH as nat);
        lemma_next_counted_token_is_free(held@.dom(), prefix@, count as nat);
    }
    token
}

} // verus!
