//! Fixed-width lower-case hexadecimal immediates.

use vstd::prelude::*;

verus! {

pub const HEX_DIGITS: &'static str = "0123456789abcdef";

pub open spec fn hex_digit(d: nat) -> char {
    HEX_DIGITS@[d as int]
}

/// Number of hexadecimal digits of `n` without leading zeros (at least one).
pub open spec fn hex_width(n: nat) -> nat
    decreases n,
{
    if n < 16 {
        1
    } else {
        1 + hex_width(n / 16)
    }
}

/// The low `w` hexadecimal digits of `n`, most significant first.
pub open spec fn hex_fixed(n: nat, w: nat) -> Seq<char>
    decreases w,
{
    if w == 0 {
        Seq::empty()
    } else {
        hex_fixed(n / 16, (w - 1) as nat).push(hex_digit(n % 16))
    }
}

/// `n` in lower-case hexadecimal, zero-padded to at least three digits.
pub open spec fn hex3(n: nat) -> Seq<char> {
    hex_fixed(n, if hex_width(n) < 3 { 3 } else { hex_width(n) })
}

/// `0x` followed by `hex3(n)`: the immediate form of a CSR number.
pub open spec fn csr_immediate(n: nat) -> Seq<char> {
    "0x"@ + hex3(n)
}

fn width_of(n: u32) -> (r: u32)
    ensures
        r == hex_width(n as nat),
    decreases n,
{
    if n < 16 {
        1
    } else {
        let w = width_of(n / 16);
        proof {
            lemma_hex_width_bound((n / 16) as nat);
        }
        w + 1
    }
}

proof fn lemma_hex_width_bound(n: nat)
    requires
        n <= u32::MAX / 16,
    ensures
        hex_width(n) <= 7,
{
    reveal_with_fuel(pow16, 8);
    lemma_hex_width_small(n, 7);
}

proof fn lemma_hex_width_small(n: nat, k: nat)
    requires
        k >= 1,
        n < pow16(k),
    ensures
        hex_width(n) <= k,
    decreases k,
{
    if n >= 16 {
        assert(n / 16 < pow16((k - 1) as nat)) by (nonlinear_arith)
            requires
                n < pow16(k),
                pow16(k) == 16 * pow16((k - 1) as nat),
        {}
        if k == 1 {
            assert(false);
        } else {
            lemma_hex_width_small(n / 16, (k - 1) as nat);
        }
    }
}

spec fn pow16(k: nat) -> nat
    decreases k,
{
    if k == 0 {
        1
    } else {
        16 * pow16((k - 1) as nat)
    }
}

fn append_hex_fixed(out: &mut String, n: u32, w: u32)
    ensures
        final(out)@ == old(out)@ + hex_fixed(n as nat, w as nat),
    decreases w,
{
    if w > 0 {
        append_hex_fixed(out, n / 16, w - 1);
        let d = (n % 16) as usize;
        proof {
            reveal_strlit("0123456789abcdef");
        }
        let digit = HEX_DIGITS.substring_char(d, d + 1);
        out.append(digit);
        proof {
            assert(digit@ =~= seq![hex_digit(d as nat)]);
        }
        assert(final(out)@ =~= old(out)@ + hex_fixed(n as nat, w as nat));
    }
}

/// Appends `0x` and the CSR number `n` in the form the `csrr*` instructions take.
pub fn append_csr_immediate(out: &mut String, n: u32)
    ensures
        final(out)@ == old(out)@ + csr_immediate(n as nat),
{
    out.append("0x");
    let w = width_of(n);
    let w = if w < 3 { 3 } else { w };
    append_hex_fixed(out, n, w);
    assert(final(out)@ =~= old(out)@ + csr_immediate(n as nat));
}

/// The CSR number `n` as an immediate: `0x` and at least three lower-case digits.
pub fn csr_hex(n: u32) -> (r: String)
    ensures
        r@ == csr_immediate(n as nat),
{
    let mut s = String::new();
    append_csr_immediate(&mut s, n);
    assert(s@ =~= csr_immediate(n as nat));
    s
}

/// The value of a hexadecimal digit character.
pub open spec fn hex_digit_value(c: char) -> int {
    if (c as u32) <= ('9' as u32) {
        (c as u32) - ('0' as u32)
    } else {
        (c as u32) - ('a' as u32) + 10
    }
}

/// The number that a sequence of hexadecimal digits denotes, most significant first.
pub open spec fn hex_value(s: Seq<char>) -> int
    decreases s.len(),
{
    if s.len() == 0 {
        0
    } else {
        hex_value(s.drop_last()) * 16 + hex_digit_value(s.last())
    }
}

/// `s` is made of lower-case hexadecimal digits.
pub open spec fn is_lower_hex(s: Seq<char>) -> bool {
    forall|k: int| 0 <= k < s.len() ==> exists|d: nat| d < 16 && #[trigger] s[k] == hex_digit(d)
}

proof fn lemma_hex_digit(d: nat)
    requires
        d < 16,
    ensures
        hex_digit_value(hex_digit(d)) == d,
{
    reveal_strlit("0123456789abcdef");
}

proof fn lemma_pow16_positive(w: nat)
    ensures
        pow16(w) > 0,
    decreases w,
{
    if w > 0 {
        lemma_pow16_positive((w - 1) as nat);
    }
}

proof fn lemma_hex_fixed_value(n: nat, w: nat)
    ensures
        hex_value(hex_fixed(n, w)) == n % pow16(w),
        hex_fixed(n, w).len() == w,
        is_lower_hex(hex_fixed(n, w)),
    decreases w,
{
    if w == 0 {
        assert(n % 1 == 0);
    } else {
        let w1 = (w - 1) as nat;
        lemma_hex_fixed_value(n / 16, w1);
        lemma_hex_digit(n % 16);
        let s = hex_fixed(n, w);
        assert(s.drop_last() =~= hex_fixed(n / 16, w1));
        lemma_pow16_positive(w1);
        vstd::arithmetic::div_mod::lemma_mod_breakdown(n as int, 16, pow16(w1) as int);
        assert(16 * pow16(w1) == pow16(w));
        assert forall|k: int| 0 <= k < s.len() implies exists|d: nat|
            d < 16 && #[trigger] s[k] == hex_digit(d) by {
            if k < w1 {
                assert(s[k] == hex_fixed(n / 16, w1)[k]);
            } else {
                assert(s[k] == hex_digit(n % 16));
            }
        }
    }
}

proof fn lemma_below_pow16(n: nat, w: nat)
    requires
        w >= hex_width(n),
    ensures
        n < pow16(w),
    decreases w,
{
    if n >= 16 {
        lemma_below_pow16(n / 16, (w - 1) as nat);
        assert(n < 16 * pow16((w - 1) as nat)) by (nonlinear_arith)
            requires
                n / 16 < pow16((w - 1) as nat),
        {}
    } else if w > 1 {
        lemma_below_pow16(n, (w - 1) as nat);
        assert(pow16(w) == 16 * pow16((w - 1) as nat));
    } else {
        assert(pow16(1) == 16 * pow16(0));
    }
}

/// The CSR immediate of `n` is `0x` and at least three lower-case hexadecimal digits,
/// exactly as many as `n` needs when it needs more, and those digits denote `n`.
pub proof fn lemma_immediate_denotes_address(n: nat)
    ensures
        csr_immediate(n) == "0x"@ + hex3(n),
        hex3(n).len() == if hex_width(n) < 3 { 3 } else { hex_width(n) },
        is_lower_hex(hex3(n)),
        hex_value(hex3(n)) == n,
{
    let w = if hex_width(n) < 3 { 3 } else { hex_width(n) };
    lemma_hex_fixed_value(n, w);
    lemma_below_pow16(n, w);
    lemma_pow16_positive(w);
    vstd::arithmetic::div_mod::lemma_small_mod(n, pow16(w));
}

} // verus!
