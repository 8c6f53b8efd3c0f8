use vstd::arithmetic::div_mod::*;
use vstd::arithmetic::power2::*;
use vstd::bits::*;
use vstd::prelude::*;

verus! {

/// How many values a position counter runs through before it starts over.
pub open spec fn position_space() -> int {
    usize::MAX + 1
}

/// How many values a slot ticket runs through before it starts over.
pub open spec fn ticket_space() -> int {
    u32::MAX + 1
}

/// The sizes a ring can have: the powers of two from 2 up to `2^30`.
///
/// The tickets of all live positions then lie within half the ticket space.
pub open spec fn ring_size(cap: int) -> bool {
    2 <= cap && exists|k: nat| k <= 30 && cap == #[trigger] pow2(k)
}

/// The position counter that stands for logical position `p`.
pub open spec fn position(p: int) -> int {
    p % position_space()
}

/// The ticket that stands for logical position `p`.
pub open spec fn ticket(p: int) -> int {
    p % ticket_space()
}

/// The logical position that array index `i` of a ring of size `cap` serves
/// next, when the oldest live position is `base`.
pub open spec fn served(base: int, cap: int, i: int) -> int {
    base + (i - base) % cap
}

/// A ring size divides both counter spaces, so that the counters can start over
/// without disturbing the ring.
pub proof fn lemma_spaces(cap: int, p: int)
    requires
        ring_size(cap),
    ensures
        cap <= 0x4000_0000,
        position_space() % ticket_space() == 0,
        position(p) % cap == p % cap,
        position(p) % ticket_space() == ticket(p),
        0 <= position(p) < position_space(),
        0 <= ticket(p) < ticket_space(),
        0 <= p % cap < cap,
{
    let k = choose|k: nat| k <= 30 && cap == #[trigger] pow2(k);
    lemma2_to64();
    lemma2_to64_rest();
    vstd::layout::unsigned_int_max_values();
    lemma_pow2_pos(k);
    assert(cap <= 0x4000_0000) by {
        if k < 30 {
            lemma_pow2_strictly_increases(k, 30);
        }
    }
    assert(position_space() == pow2(32) || position_space() == pow2(64));
    let e: nat = if position_space() == pow2(32) {
        32
    } else {
        64
    };
    let rest = (e - k) as nat;
    lemma_pow2_adds(k, rest);
    lemma_pow2_pos(rest);
    lemma_mod_mod(p, cap, pow2(rest) as int);
    let high = (e - 32) as nat;
    lemma_pow2_adds(32, high);
    lemma_pow2_pos(high);
    lemma_mod_mod(p, pow2(32) as int, pow2(high) as int);
    assert(position_space() % ticket_space() == 0) by {
        assert(position_space() == pow2(high) * ticket_space()) by (nonlinear_arith)
            requires
                position_space() == pow2(32) * pow2(high),
                ticket_space() == pow2(32),
        ;
        lemma_fundamental_div_mod_converse(position_space(), ticket_space(), pow2(high) as int, 0);
    }
}

/// Masking a position counter finds the array index.
pub proof fn lemma_mask(pos: usize, cap: usize)
    requires
        ring_size(cap as int),
    ensures
        pos & ((cap - 1) as usize) == pos % cap,
{
    let k = choose|k: nat| k <= 30 && cap as int == #[trigger] pow2(k);
    vstd::layout::unsigned_int_max_values();
    assert(k < usize::BITS);
    lemma_usize_low_bits_mask_is_mod(pos, k);
    assert(low_bits_mask(k) == cap - 1);
}

/// Cutting a position counter down to 32 bits gives the ticket.
pub proof fn lemma_cut(pos: usize)
    ensures
        pos as u32 == pos as int % ticket_space(),
{
    vstd::layout::unsigned_int_max_values();
    let wide = pos as u64;
    assert(wide == pos);
    assert(pos as u32 == (pos as u64) as u32) by (bit_vector);
    assert(wide as u32 == wide % 0x1_0000_0000u64) by (bit_vector);
}

/// A counter that is `d` steps ahead, seen through its space.
pub proof fn lemma_gap(p: int, d: int, space: int)
    requires
        0 <= d < space,
    ensures
        (p + d) % space == if p % space + d < space {
            p % space + d
        } else {
            p % space + d - space
        },
        0 <= p % space < space,
{
    lemma_fundamental_div_mod(p, space);
    let q = p / space;
    let r = p % space;
    assert(0 <= r < space) by (nonlinear_arith)
        requires
            space > 0,
            r == p % space,
    ;
    if r + d < space {
        assert(p + d == q * space + (r + d)) by (nonlinear_arith)
            requires
                p == space * q + r,
        ;
        lemma_fundamental_div_mod_converse(p + d, space, q, r + d);
    } else {
        assert(p + d == (q + 1) * space + (r + d - space)) by (nonlinear_arith)
            requires
                p == space * q + r,
        ;
        lemma_fundamental_div_mod_converse(p + d, space, q + 1, r + d - space);
    }
}

/// The index of the `k`-th live position serves exactly that position.
pub proof fn lemma_served(base: int, cap: int, k: int)
    requires
        0 <= k < cap,
    ensures
        served(base, cap, (base + k) % cap) == base + k,
        0 <= (base + k) % cap < cap,
{
    lemma_fundamental_div_mod(base + k, cap);
    let q = (base + k) / cap;
    let r = (base + k) % cap;
    assert(0 <= r < cap) by (nonlinear_arith)
        requires
            cap > 0,
            r == (base + k) % cap,
    ;
    assert(r - base == (-q) * cap + k) by (nonlinear_arith)
        requires
            base + k == cap * q + r,
    ;
    lemma_fundamental_div_mod_converse(r - base, cap, -q, k);
}

/// When the oldest position retires, its index moves on by a full turn and
/// every other index goes on serving what it served.
pub proof fn lemma_served_step(base: int, cap: int, i: int)
    requires
        0 <= i < cap,
    ensures
        base <= served(base, cap, i) < base + cap,
        served(base, cap, i) == base <==> i == base % cap,
        served(base, cap, i) % cap == i,
        served(base + 1, cap, i) == if i == base % cap {
            base + cap
        } else {
            served(base, cap, i)
        },
{
    let x = i - base;
    let d = x % cap;
    lemma_fundamental_div_mod(x, cap);
    let q = x / cap;
    assert(0 <= d < cap) by (nonlinear_arith)
        requires
            cap > 0,
            d == x % cap,
    ;
    assert(base + d == (-q) * cap + i) by (nonlinear_arith)
        requires
            x == i - base,
            x == cap * q + d,
    ;
    lemma_fundamental_div_mod_converse(base + d, cap, -q, i);
    if d == 0 {
        assert(x - 1 == (q - 1) * cap + (cap - 1)) by (nonlinear_arith)
            requires
                x == cap * q + d,
                d == 0,
        ;
        lemma_fundamental_div_mod_converse(x - 1, cap, q - 1, cap - 1);
    } else {
        assert(x - 1 == q * cap + (d - 1)) by (nonlinear_arith)
            requires
                x == cap * q + d,
        ;
        lemma_fundamental_div_mod_converse(x - 1, cap, q, d - 1);
        if i == base % cap {
            lemma_served(base, cap, 0);
        }
    }
}

} // verus!
