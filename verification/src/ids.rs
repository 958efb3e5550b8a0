//! Entity identifiers (128-bit UUIDs) and their hyphenated text.

use vstd::prelude::*;
use crate::text::{hex_char, hex_char_exec};

verus! {

/// The last `count` hexadecimal digits of `n`, most significant first.
pub open spec fn hex_digits(n: nat, count: nat) -> Seq<char>
    decreases count,
{
    if count == 0 {
        Seq::empty()
    } else {
        hex_digits(n / 16, (count - 1) as nat).push(hex_char(n % 16))
    }
}

/// The hyphenated lowercase text of a UUID (`Uuid`'s `Display`): 32 hex
/// digits of its big-endian value, grouped 8-4-4-4-12.
pub open spec fn uuid_text(id: u128) -> Seq<char> {
    let h = hex_digits(id as nat, 32);
    h.subrange(0, 8) + seq!['-'] + h.subrange(8, 12) + seq!['-'] + h.subrange(12, 16) + seq!['-']
        + h.subrange(16, 20) + seq!['-'] + h.subrange(20, 32)
}

proof fn lemma_hex_digits_len(n: nat, count: nat)
    ensures
        hex_digits(n, count).len() == count,
    decreases count,
{
    if count > 0 {
        lemma_hex_digits_len(n / 16, (count - 1) as nat);
    }
}

/// `n` divided by 16, `k` times.
pub open spec fn shift16(n: nat, k: nat) -> nat
    decreases k,
{
    if k == 0 { n } else { shift16(n / 16, (k - 1) as nat) }
}

proof fn lemma_shift16_step(n: nat, k: nat)
    ensures
        shift16(n, k + 1) == shift16(n, k) / 16,
    decreases k,
{
    assert(shift16(n, k + 1) == shift16(n / 16, k));
    if k > 0 {
        lemma_shift16_step(n / 16, (k - 1) as nat);
        assert(shift16(n, k) == shift16(n / 16, (k - 1) as nat));
    } else {
        assert(shift16(n / 16, 0) == n / 16);
    }
}

/// How many characters of the hyphenated text precede digit `i`.
pub open spec fn hyphens_before(i: int) -> int {
    i + if i > 20 { 4int } else if i > 16 { 3int } else if i > 12 { 2int } else if i > 8 { 1int } else { 0int }
}

/// The hyphenated lowercase text of a UUID.
pub fn uuid_string(id: u128) -> (r: Vec<char>)
    ensures
        r@ == uuid_text(id),
{
    let mut digits: Vec<char> = Vec::new();
    let mut n: u128 = id;
    let mut k: usize = 0;
    // digits are produced least significant first, then reversed
    while k < 32
        invariant
            k <= 32,
            n as nat == shift16(id as nat, k as nat),
            digits@.len() == k,
            forall|j: int| 0 <= j < k ==> #[trigger] digits@[j] == hex_digits(id as nat, 32)[31 - j],
        decreases 32 - k,
    {
        proof {
            lemma_hex_digits_len(id as nat, 32);
            lemma_digit_at(id as nat, k as nat);
            lemma_shift16_step(id as nat, k as nat);
        }
        let d = (n % 16) as u8;
        digits.push(hex_char_exec(d));
        n = n / 16;
        k += 1;
    }
    let mut r: Vec<char> = Vec::new();
    let mut i: usize = 0;
    proof {
        lemma_hex_digits_len(id as nat, 32);
    }
    let ghost h = hex_digits(id as nat, 32);
    while i < 32
        invariant
            i <= 32,
            digits@.len() == 32,
            h == hex_digits(id as nat, 32),
            h.len() == 32,
            forall|j: int| 0 <= j < 32 ==> #[trigger] digits@[j] == h[31 - j],
            r@ == uuid_text(id).take(hyphens_before(i as int)),
        decreases 32 - i,
    {
        if i == 8 || i == 12 || i == 16 || i == 20 {
            r.push('-');
        }
        r.push(digits[31 - i]);
        i += 1;
        assert(r@ =~= uuid_text(id).take(hyphens_before(i as int)));
    }
    assert(r@ =~= uuid_text(id));
    r
}

/// Digit `31 - k` of the 32-digit rendering is `(n / 16^k) % 16`.
proof fn lemma_digit_at(n: nat, k: nat)
    requires
        k < 32,
    ensures
        hex_digits(n, 32)[31 - k] == hex_char(shift16(n, k) % 16),
{
    lemma_digit_at_count(n, 32, k);
}

proof fn lemma_digit_at_count(n: nat, count: nat, k: nat)
    requires
        k < count,
    ensures
        hex_digits(n, count).len() == count,
        hex_digits(n, count)[count - 1 - k] == hex_char(shift16(n, k) % 16),
    decreases count,
{
    lemma_hex_digits_len(n, count);
    lemma_hex_digits_len(n / 16, (count - 1) as nat);
    if k > 0 {
        lemma_digit_at_count(n / 16, (count - 1) as nat, (k - 1) as nat);
    }
}

} // verus!
