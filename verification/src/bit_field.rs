//! Reading and writing ranges of bits inside unsigned integers.
use vstd::prelude::*;
use core::ops::{Range, RangeFrom, RangeFull, RangeInclusive, RangeTo, RangeToInclusive};
use vstd::arithmetic::power2::{
    pow2, lemma_pow2_pos, lemma_pow2_adds, lemma2_to64, lemma2_to64_rest,
    lemma_pow2_strictly_increases,
};
use vstd::arithmetic::div_mod::{lemma_fundamental_div_mod, lemma_div_denominator, lemma_small_mod,
    lemma_basic_div, lemma_multiply_divide_lt,
    lemma_fundamental_div_mod_converse_div, lemma_fundamental_div_mod_converse_mod,
    lemma_mod_multiples_vanish};
use vstd::arithmetic::mul::{
    lemma_mul_is_associative, lemma_mul_is_commutative, lemma_mul_is_distributive_add,
    lemma_mul_inequality,
};
use vstd::bits::{
    low_bits_mask, lemma_u64_shr_is_div, lemma_u64_low_bits_mask_is_mod, lemma_u64_shl_is_mul,
    lemma_u64_pow2_no_overflow,
};

verus! {

/// Number of bits in the inclusive span `start..=end`.
pub open spec fn span_len(start: nat, end: nat) -> nat {
    (end + 1 - start) as nat
}

/// The value held by bits `start..=end` of `x`.
pub open spec fn field(x: nat, start: nat, end: nat) -> nat {
    (x / pow2(start)) % pow2(span_len(start, end))
}

/// `x` with bits `start..=end` replaced by `b`: the bits below `start` and above
/// `end` are those of `x`.
pub open spec fn with_field(x: nat, start: nat, end: nat, b: nat) -> nat {
    x % pow2(start) + b * pow2(start) + (x / pow2(end + 1)) * pow2(end + 1)
}

/// Every value splits into the bits below `start`, the field `start..=end` and
/// the bits above `end`.
pub proof fn lemma_split_at_field(y: nat, start: nat, end: nat)
    requires
        start <= end,
    ensures
        y == y % pow2(start) + field(y, start, end) * pow2(start) + (y / pow2(end + 1)) * pow2(
            end + 1,
        ),
{
    let ps = pow2(start) as int;
    let pl = pow2(span_len(start, end)) as int;
    lemma_pow2_pos(start);
    lemma_pow2_pos(span_len(start, end));
    lemma_pow2_adds(start, span_len(start, end));
    assert(start + span_len(start, end) == end + 1);
    let q = y as int / ps;
    lemma_fundamental_div_mod(y as int, ps);
    lemma_fundamental_div_mod(q, pl);
    lemma_div_denominator(y as int, ps, pl);
    assert(q / pl == y as int / (ps * pl));
    assert(y as int == ps * q + (y as int) % ps);
    assert(q == pl * (q / pl) + q % pl);
    lemma_mul_is_distributive_add(ps, pl * (q / pl), q % pl);
    lemma_mul_is_associative(ps, pl, q / pl);
    lemma_mul_is_commutative(ps, q % pl);
    lemma_mul_is_commutative(ps * pl, q / pl);
    assert(ps * pl == pow2(end + 1));
    assert(field(y, start, end) == q % pl);
    assert(y / pow2(end + 1) == q / pl);
    assert(y as int == (q % pl) * ps + (q / pl) * (ps * pl) + (y as int) % ps);
}

/// How a written value splits up again: above `start` it reads as the field
/// followed by the old high bits, below `start` it is the old value.
proof fn lemma_with_field_parts(x: nat, start: nat, end: nat, b: nat)
    requires
        start <= end,
        b < pow2(span_len(start, end)),
    ensures
        with_field(x, start, end, b) / pow2(start) == b + (x / pow2(end + 1)) * pow2(
            span_len(start, end),
        ),
        with_field(x, start, end, b) % pow2(start) == x % pow2(start),
        with_field(x, start, end, b) / pow2(end + 1) == x / pow2(end + 1),
        field(with_field(x, start, end, b), start, end) == b,
{
    let w = with_field(x, start, end, b) as int;
    let ps = pow2(start) as int;
    let pl = pow2(span_len(start, end)) as int;
    let pe = pow2(end + 1) as int;
    let h = x as int / pe;
    lemma_pow2_pos(start);
    lemma_pow2_pos(span_len(start, end));
    lemma_pow2_pos(end + 1);
    lemma_pow2_adds(start, span_len(start, end));
    assert(start + span_len(start, end) == end + 1);
    assert(ps * pl == pe);
    assert(w == (b + h * pl) * ps + (x as int) % ps) by (nonlinear_arith)
        requires
            w == (x as int) % ps + b * ps + h * pe,
            ps * pl == pe,
    ;
    lemma_fundamental_div_mod_converse_div(w, ps, b + h * pl, (x as int) % ps);
    lemma_fundamental_div_mod_converse_mod(w, ps, b + h * pl, (x as int) % ps);
    lemma_fundamental_div_mod_converse_div(w / ps, pl, h, b as int);
    lemma_fundamental_div_mod_converse_mod(w / ps, pl, h, b as int);
    lemma_div_denominator(w, ps, pl);
}

/// A field that lies below `above` depends only on the bits below `above`.
proof fn lemma_field_below(y: nat, start: nat, end: nat, above: nat)
    requires
        start <= end < above,
    ensures
        field(y, start, end) == ((y % pow2(above)) / pow2(start)) % pow2(span_len(start, end)),
{
    let ps = pow2(start) as int;
    let pl = pow2(span_len(start, end)) as int;
    let pa = pow2(above) as int;
    let d = pow2((above - start) as nat) as int;
    let g = pow2((above - (end + 1)) as nat) as int;
    lemma_pow2_pos(start);
    lemma_pow2_pos(span_len(start, end));
    lemma_pow2_pos(above);
    lemma_pow2_pos((above - start) as nat);
    lemma_pow2_pos((above - (end + 1)) as nat);
    lemma_pow2_adds(start, (above - start) as nat);
    lemma_pow2_adds(span_len(start, end), (above - (end + 1)) as nat);
    assert(span_len(start, end) + (above - (end + 1)) == above - start);
    assert(ps * d == pa);
    assert(pl * g == d);
    let low = (y as int) % pa;
    let t = low / ps;
    lemma_fundamental_div_mod(y as int, pa);
    lemma_fundamental_div_mod(low, ps);
    assert(0 <= low % ps < ps);
    assert(y as int == ((y as int / pa) * d + t) * ps + low % ps) by (nonlinear_arith)
        requires
            y as int == pa * (y as int / pa) + low,
            low == ps * t + low % ps,
            ps * d == pa,
    ;
    lemma_fundamental_div_mod_converse_div(y as int, ps, (y as int / pa) * d + t, low % ps);
    assert((y as int / pa) * d + t == pl * ((y as int / pa) * g) + t) by (nonlinear_arith)
        requires
            pl * g == d,
    ;
    lemma_mod_multiples_vanish((y as int / pa) * g, t, pl);
}

/// Mask of the low `len` bits.
fn low_mask(len: u32) -> (m: u64)
    requires
        1 <= len <= 64,
    ensures
        m == low_bits_mask(len as nat),
{
    proof {
        lemma2_to64();
        lemma2_to64_rest();
    }
    if len < 64 {
        proof {
            lemma_u64_pow2_no_overflow(len as nat);
            lemma_u64_shl_is_mul(1, len as u64);
        }
        (1u64 << len) - 1
    } else {
        u64::MAX
    }
}

/// Bits `start..=end` of `x`, shifted down to bit 0.
fn get_span_u64(x: u64, start: u8, end: u8) -> (r: u64)
    requires
        start <= end < 64,
    ensures
        r == field(x as nat, start as nat, end as nat),
{
    let len = (end - start + 1) as u32;
    let mask = low_mask(len);
    let shifted = x >> start;
    let r = shifted & mask;
    proof {
        lemma_u64_shr_is_div(x, start as u64);
        assert(len as nat == span_len(start as nat, end as nat));
        assert(shifted == x as nat / pow2(start as nat));
        if len < 64 {
            lemma_u64_pow2_no_overflow(len as nat);
            lemma_u64_low_bits_mask_is_mod(shifted, len as nat);
            assert(r == shifted % (pow2(len as nat) as u64));
        } else {
            assert(shifted & 0xffff_ffff_ffff_ffffu64 == shifted) by (bit_vector);
            lemma2_to64_rest();
            lemma_small_mod(shifted as nat, pow2(64));
            assert(r == shifted as nat % pow2(len as nat));
        }
    }
    r
}

/// What writing `b` into the `len` bits at `s` leaves below, inside and above
/// the field, in terms of bit operations.
proof fn lemma_write_field_bits(x: u64, b: u64, s: u64, len: u64, lo: u64, m: u64)
    by (bit_vector)
    requires
        s < 64,
        1 <= len < 64,
        s + len <= 64,
        lo + 1 == 1u64 << s,
        m + 1 == 1u64 << len,
        b <= m,
    ensures
        ((x & !(m << s)) | (b << s)) & lo == x & lo,
        (((x & !(m << s)) | (b << s)) >> s) & m == b,
        s + len < 64 ==> ((x & !(m << s)) | (b << s)) >> (s + len) == x >> (s + len),
{
}

/// `x` with bits `start..=end` replaced by `bits`.
fn set_span_u64(x: u64, start: u8, end: u8, bits: u64) -> (r: u64)
    requires
        start <= end < 64,
        bits < pow2(span_len(start as nat, end as nat)),
    ensures
        r == with_field(x as nat, start as nat, end as nat, bits as nat),
{
    let len = (end - start + 1) as u32;
    let mask = low_mask(len);
    let r = (x & !(mask << start)) | (bits << start);
    proof {
        let s = start as nat;
        let e = end as nat;
        lemma2_to64();
        lemma2_to64_rest();
        assert(len as nat == span_len(s, e));
        if len < 64 {
            let lo = low_bits_mask(s) as u64;
            lemma_u64_pow2_no_overflow(s);
            lemma_u64_pow2_no_overflow(len as nat);
            lemma_u64_shl_is_mul(1, start as u64);
            lemma_u64_shl_is_mul(1, len as u64);
            lemma_write_field_bits(x, bits, start as u64, len as u64, lo, mask);
            // below the field
            lemma_u64_low_bits_mask_is_mod(r, s);
            lemma_u64_low_bits_mask_is_mod(x, s);
            assert(r as nat % pow2(s) == x as nat % pow2(s));
            // the field
            lemma_u64_shr_is_div(r, start as u64);
            lemma_u64_low_bits_mask_is_mod(r >> start, len as nat);
            assert(field(r as nat, s, e) == bits);
            // above the field
            if e + 1 < 64 {
                lemma_u64_shr_is_div(r, (end + 1) as u64);
                lemma_u64_shr_is_div(x, (end + 1) as u64);
                assert((start + len) as u64 == (end + 1) as u64);
            } else {
                lemma_basic_div(r as int, pow2(64) as int);
                lemma_basic_div(x as int, pow2(64) as int);
            }
            assert(r as nat / pow2(e + 1) == x as nat / pow2(e + 1));
            lemma_split_at_field(r as nat, s, e);
            assert(r == with_field(x as nat, s, e, bits as nat));
        } else {
            assert(start == 0 && end == 63);
            assert(mask == 0xffff_ffff_ffff_ffffu64);
            assert((x & !(0xffff_ffff_ffff_ffffu64 << 0u8)) | (bits << 0u8) == bits) by (bit_vector);
            assert(r == bits);
            lemma_basic_div(x as int, pow2(64) as int);
            assert(x as nat % pow2(0) == 0);
            assert(r == with_field(x as nat, s, e, bits as nat));
        }
    }
    r
}

/// Writing a field that fits into a value that fits in `width` bits gives a
/// value that still fits in `width` bits.
pub proof fn lemma_with_field_fits(x: nat, start: nat, end: nat, b: nat, width: nat)
    requires
        start <= end < width,
        x < pow2(width),
        b < pow2(span_len(start, end)),
    ensures
        with_field(x, start, end, b) < pow2(width),
{
    let ps = pow2(start) as int;
    let pl = pow2(span_len(start, end)) as int;
    let pe = pow2(end + 1) as int;
    let ph = pow2((width - (end + 1)) as nat) as int;
    lemma_pow2_pos(start);
    lemma_pow2_pos(span_len(start, end));
    lemma_pow2_pos(end + 1);
    lemma_pow2_pos((width - (end + 1)) as nat);
    lemma_pow2_adds(start, span_len(start, end));
    lemma_pow2_adds(end + 1, (width - (end + 1)) as nat);
    assert(start + span_len(start, end) == end + 1);
    assert(ps * pl == pe);
    assert(pe * ph == pow2(width));
    let h = x as int / pe;
    lemma_multiply_divide_lt(x as int, pe, ph);
    assert(h <= ph - 1);
    lemma_mul_inequality(b as int, pl - 1, ps);
    lemma_mul_inequality(h, ph - 1, pe);
    assert((pl - 1) * ps == pe - ps) by (nonlinear_arith)
        requires ps * pl == pe;
    assert((ph - 1) * pe == pow2(width) - pe) by (nonlinear_arith)
        requires pe * ph == pow2(width);
    assert(x as int % ps < ps);
}

/// Reading a span right after writing `b` into it gives back `b`.
pub proof fn lemma_get_after_set(x: nat, start: nat, end: nat, b: nat)
    requires
        start <= end,
        b < pow2(span_len(start, end)),
    ensures
        field(with_field(x, start, end, b), start, end) == b,
{
    lemma_with_field_parts(x, start, end, b);
}

/// Writing back what a span holds leaves the value unchanged.
pub proof fn lemma_set_what_was_read(x: nat, start: nat, end: nat)
    requires
        start <= end,
    ensures
        with_field(x, start, end, field(x, start, end)) == x,
{
    lemma_split_at_field(x, start, end);
}

/// Of two writes to the same span, the second one wins.
pub proof fn lemma_set_twice(x: nat, start: nat, end: nat, b1: nat, b2: nat)
    requires
        start <= end,
        b1 < pow2(span_len(start, end)),
    ensures
        with_field(with_field(x, start, end, b1), start, end, b2) == with_field(x, start, end, b2),
{
    lemma_with_field_parts(x, start, end, b1);
}

/// Writing one span leaves every span that does not overlap it unchanged.
pub proof fn lemma_set_keeps_other_spans(
    x: nat,
    start: nat,
    end: nat,
    b: nat,
    other_start: nat,
    other_end: nat,
)
    requires
        start <= end,
        other_start <= other_end,
        b < pow2(span_len(start, end)),
        end < other_start || other_end < start,
    ensures
        field(with_field(x, start, end, b), other_start, other_end) == field(
            x,
            other_start,
            other_end,
        ),
{
    let w = with_field(x, start, end, b);
    lemma_with_field_parts(x, start, end, b);
    if end < other_start {
        let pe = pow2(end + 1) as int;
        let d = pow2((other_start - (end + 1)) as nat) as int;
        lemma_pow2_pos(end + 1);
        lemma_pow2_pos((other_start - (end + 1)) as nat);
        lemma_pow2_adds(end + 1, (other_start - (end + 1)) as nat);
        assert(pe * d == pow2(other_start));
        lemma_div_denominator(w as int, pe, d);
        lemma_div_denominator(x as int, pe, d);
    } else {
        lemma_field_below(w, other_start, other_end, start);
        lemma_field_below(x, other_start, other_end, start);
    }
}

/// Writing into a span that holds 0 adds the written value at the span's place.
pub proof fn lemma_set_empty_span(x: nat, start: nat, end: nat, b: nat)
    requires
        start <= end,
        field(x, start, end) == 0,
    ensures
        with_field(x, start, end, b) == x + b * pow2(start),
{
    lemma_split_at_field(x, start, end);
}

/// Writing into a zero value gives the written value at the span's place.
pub proof fn lemma_set_in_zero(start: nat, end: nat, b: nat)
    requires
        start <= end,
    ensures
        field(0, start, end) == 0,
        with_field(0, start, end, b) == b * pow2(start),
{
    lemma_pow2_pos(start);
    lemma_pow2_pos(span_len(start, end));
    lemma_basic_div(0, pow2(start) as int);
    lemma_small_mod(0, pow2(span_len(start, end)));
    lemma_set_empty_span(0, start, end, b);
}

/// Widths of the unsigned integers whose bits can be addressed.
pub trait BitWidth {
    /// The number of bits of the type.
    spec fn spec_bits() -> nat;

    /// The number of bits of the type.
    fn bits() -> (r: u32)
        ensures
            r == Self::spec_bits(),
            8 <= r <= 64,
    ;
}

impl BitWidth for u8 {
    open spec fn spec_bits() -> nat {
        8
    }

    fn bits() -> (r: u32) {
        u8::BITS
    }
}

impl BitWidth for u16 {
    open spec fn spec_bits() -> nat {
        16
    }

    fn bits() -> (r: u32) {
        u16::BITS
    }
}

impl BitWidth for u32 {
    open spec fn spec_bits() -> nat {
        32
    }

    fn bits() -> (r: u32) {
        u32::BITS
    }
}

impl BitWidth for u64 {
    open spec fn spec_bits() -> nat {
        64
    }

    fn bits() -> (r: u32) {
        u64::BITS
    }
}

/// One end of a range of bit indices.
#[derive(Clone, Copy, PartialEq, Eq, Debug)]
pub enum SpanBound {
    Included(u8),
    Excluded(u8),
    Unbounded,
}

/// The inclusive span `(start, end)` that the bounds `start` and `end` describe
/// in a type of `width` bits; `None` where they describe no valid span.
pub open spec fn span_of(start: SpanBound, end: SpanBound, width: nat) -> Option<(u8, u8)> {
    let s: int = match start {
        SpanBound::Included(i) => i as int,
        SpanBound::Excluded(i) => i + 1,
        SpanBound::Unbounded => 0,
    };
    let e: int = match end {
        SpanBound::Included(i) => i as int,
        SpanBound::Excluded(i) => i - 1,
        SpanBound::Unbounded => width - 1,
    };
    if 0 <= s <= e < width {
        Some((s as u8, e as u8))
    } else {
        None
    }
}

/// Turns a pair of range bounds into an inclusive span of bit indices of `T`.
/// The bounds must describe a span inside `T`.
pub fn from_range<T: BitWidth>(start: SpanBound, end: SpanBound) -> (r: (u8, u8))
    requires
        span_of(start, end, T::spec_bits()) is Some,
    ensures
        span_of(start, end, T::spec_bits()) == Some(r),
        r.0 <= r.1,
        (r.1 as nat) < T::spec_bits(),
{
    let bits = T::bits();
    let s = match start {
        SpanBound::Included(i) => i,
        SpanBound::Excluded(i) => i + 1,
        SpanBound::Unbounded => 0,
    };
    let e = match end {
        SpanBound::Included(i) => i,
        SpanBound::Excluded(i) => i - 1,
        SpanBound::Unbounded => (bits - 1) as u8,
    };
    (s, e)
}

/// std's `RangeFrom` (`start..`). It is declared with its one public field,
/// `start`, which the proofs then read; nothing else is claimed of it.
#[verifier::external_type_specification]
#[verifier::reject_recursive_types(Idx)]
pub struct ExRangeFrom<Idx>(RangeFrom<Idx>);

/// std's `RangeTo` (`..end`), declared with its one public field, `end`.
#[verifier::external_type_specification]
#[verifier::reject_recursive_types(Idx)]
pub struct ExRangeTo<Idx>(RangeTo<Idx>);

/// std's `RangeToInclusive` (`..=end`), declared with its one public field,
/// `end`.
#[verifier::external_type_specification]
#[verifier::reject_recursive_types(Idx)]
pub struct ExRangeToInclusive<Idx>(RangeToInclusive<Idx>);

/// std's `RangeFull` (`..`), a struct without fields.
#[verifier::external_type_specification]
pub struct ExRangeFull(RangeFull);

/// The start of a `RangeInclusive` (std's `RangeInclusive::start`); its
/// documentation leaves the value unspecified once the range has been iterated
/// to exhaustion, and so does this contract.
pub assume_specification<Idx>[ RangeInclusive::<Idx>::start ](r: &RangeInclusive<Idx>) -> (s: &Idx)
    ensures
        !r@.exhausted ==> *s == r@.start,
;

/// The end of a `RangeInclusive` (std's `RangeInclusive::end`), with the same
/// caveat on exhausted ranges.
pub assume_specification<Idx>[ RangeInclusive::<Idx>::end ](r: &RangeInclusive<Idx>) -> (e: &Idx)
    ensures
        !r@.exhausted ==> *e == r@.end,
;

/// Something that names a span of bit indices: a single index or a range.
pub trait IntoSpan: Sized {
    /// The inclusive span named in a type of `width` bits, or `None` where it
    /// names no valid span there.
    spec fn span(&self, width: nat) -> Option<(u8, u8)>;

    /// The inclusive span `(start, end)` inside `T`, which the span must fit.
    fn into_span<T: BitWidth>(self) -> (r: (u8, u8))
        requires
            self.span(T::spec_bits()) is Some,
        ensures
            self.span(T::spec_bits()) == Some(r),
            r.0 <= r.1,
            (r.1 as nat) < T::spec_bits(),
    ;
}

impl IntoSpan for u8 {
    open spec fn span(&self, width: nat) -> Option<(u8, u8)> {
        if (*self as nat) < width {
            Some((*self, *self))
        } else {
            None
        }
    }

    fn into_span<T: BitWidth>(self) -> (r: (u8, u8)) {
        (self, self)
    }
}

impl IntoSpan for Range<u8> {
    open spec fn span(&self, width: nat) -> Option<(u8, u8)> {
        span_of(SpanBound::Included(self.start), SpanBound::Excluded(self.end), width)
    }

    fn into_span<T: BitWidth>(self) -> (r: (u8, u8)) {
        from_range::<T>(SpanBound::Included(self.start), SpanBound::Excluded(self.end))
    }
}

impl IntoSpan for RangeInclusive<u8> {
    /// An exhausted range names no span here: std leaves its bounds unspecified.
    open spec fn span(&self, width: nat) -> Option<(u8, u8)> {
        if self@.exhausted {
            None
        } else {
            span_of(SpanBound::Included(self@.start), SpanBound::Included(self@.end), width)
        }
    }

    fn into_span<T: BitWidth>(self) -> (r: (u8, u8)) {
        let start = *self.start();
        let end = *self.end();
        from_range::<T>(SpanBound::Included(start), SpanBound::Included(end))
    }
}

impl IntoSpan for RangeFrom<u8> {
    open spec fn span(&self, width: nat) -> Option<(u8, u8)> {
        span_of(SpanBound::Included(self.start), SpanBound::Unbounded, width)
    }

    fn into_span<T: BitWidth>(self) -> (r: (u8, u8)) {
        from_range::<T>(SpanBound::Included(self.start), SpanBound::Unbounded)
    }
}

impl IntoSpan for RangeTo<u8> {
    open spec fn span(&self, width: nat) -> Option<(u8, u8)> {
        span_of(SpanBound::Unbounded, SpanBound::Excluded(self.end), width)
    }

    fn into_span<T: BitWidth>(self) -> (r: (u8, u8)) {
        from_range::<T>(SpanBound::Unbounded, SpanBound::Excluded(self.end))
    }
}

impl IntoSpan for RangeToInclusive<u8> {
    open spec fn span(&self, width: nat) -> Option<(u8, u8)> {
        span_of(SpanBound::Unbounded, SpanBound::Included(self.end), width)
    }

    fn into_span<T: BitWidth>(self) -> (r: (u8, u8)) {
        from_range::<T>(SpanBound::Unbounded, SpanBound::Included(self.end))
    }
}

impl IntoSpan for RangeFull {
    open spec fn span(&self, width: nat) -> Option<(u8, u8)> {
        span_of(SpanBound::Unbounded, SpanBound::Unbounded, width)
    }

    fn into_span<T: BitWidth>(self) -> (r: (u8, u8)) {
        from_range::<T>(SpanBound::Unbounded, SpanBound::Unbounded)
    }
}

/// First index of a span (0 where there is none).
pub open spec fn span_start(span: Option<(u8, u8)>) -> nat {
    match span {
        Some((s, _)) => s as nat,
        None => 0,
    }
}

/// Last index of a span (0 where there is none).
pub open spec fn span_end(span: Option<(u8, u8)>) -> nat {
    match span {
        Some((_, e)) => e as nat,
        None => 0,
    }
}

/// Reading and writing spans of bits of an unsigned integer.
pub trait BitField: BitWidth + Sized {
    /// The value as a natural number.
    spec fn as_nat(&self) -> nat;

    /// The bits of the span `range`, shifted down to bit 0. The span must
    /// fit the type.
    fn get_bits<R: IntoSpan>(&self, range: R) -> (r: Self)
        requires
            range.span(Self::spec_bits()) is Some,
        ensures
            r.as_nat() == field(
                self.as_nat(),
                span_start(range.span(Self::spec_bits())),
                span_end(range.span(Self::spec_bits())),
            ),
    ;

    /// Replaces the span `range` of `self` by `bits`. The span must fit the
    /// type and `bits` must fit the span.
    fn set_bits<R: IntoSpan>(&mut self, range: R, bits: Self)
        requires
            range.span(Self::spec_bits()) is Some,
            bits.as_nat() < pow2(
                span_len(
                    span_start(range.span(Self::spec_bits())),
                    span_end(range.span(Self::spec_bits())),
                ),
            ),
        ensures
            final(self).as_nat() == with_field(
                old(self).as_nat(),
                span_start(range.span(Self::spec_bits())),
                span_end(range.span(Self::spec_bits())),
                bits.as_nat(),
            ),
    ;
}

/// A field of a value never exceeds its span.
proof fn lemma_field_fits(x: nat, start: nat, end: nat, width: nat)
    requires
        start <= end < width,
    ensures
        field(x, start, end) < pow2(span_len(start, end)),
        pow2(span_len(start, end)) <= pow2(width),
{
    lemma_pow2_pos(span_len(start, end));
    if span_len(start, end) < width {
        lemma_pow2_strictly_increases(span_len(start, end), width);
    }
}

impl BitField for u8 {
    open spec fn as_nat(&self) -> nat {
        *self as nat
    }

    fn get_bits<R: IntoSpan>(&self, range: R) -> (r: u8) {
        let (start, end) = range.into_span::<u8>();
        let r = get_span_u64(*self as u64, start, end);
        proof {
            lemma_field_fits(*self as nat, start as nat, end as nat, 8);
            lemma2_to64();
        }
        r as u8
    }

    fn set_bits<R: IntoSpan>(&mut self, range: R, bits: u8) {
        let (start, end) = range.into_span::<u8>();
        let r = set_span_u64(*self as u64, start, end, bits as u64);
        proof {
            lemma2_to64();
            lemma_with_field_fits(*self as nat, start as nat, end as nat, bits as nat, 8);
        }
        *self = r as u8;
    }
}

impl BitField for u16 {
    open spec fn as_nat(&self) -> nat {
        *self as nat
    }

    fn get_bits<R: IntoSpan>(&self, range: R) -> (r: u16) {
        let (start, end) = range.into_span::<u16>();
        let r = get_span_u64(*self as u64, start, end);
        proof {
            lemma_field_fits(*self as nat, start as nat, end as nat, 16);
            lemma2_to64();
        }
        r as u16
    }

    fn set_bits<R: IntoSpan>(&mut self, range: R, bits: u16) {
        let (start, end) = range.into_span::<u16>();
        let r = set_span_u64(*self as u64, start, end, bits as u64);
        proof {
            lemma2_to64();
            lemma_with_field_fits(*self as nat, start as nat, end as nat, bits as nat, 16);
        }
        *self = r as u16;
    }
}

impl BitField for u32 {
    open spec fn as_nat(&self) -> nat {
        *self as nat
    }

    fn get_bits<R: IntoSpan>(&self, range: R) -> (r: u32) {
        let (start, end) = range.into_span::<u32>();
        let r = get_span_u64(*self as u64, start, end);
        proof {
            lemma_field_fits(*self as nat, start as nat, end as nat, 32);
            lemma2_to64();
        }
        r as u32
    }

    fn set_bits<R: IntoSpan>(&mut self, range: R, bits: u32) {
        let (start, end) = range.into_span::<u32>();
        let r = set_span_u64(*self as u64, start, end, bits as u64);
        proof {
            lemma2_to64();
            lemma_with_field_fits(*self as nat, start as nat, end as nat, bits as nat, 32);
        }
        *self = r as u32;
    }
}

impl BitField for u64 {
    open spec fn as_nat(&self) -> nat {
        *self as nat
    }

    fn get_bits<R: IntoSpan>(&self, range: R) -> (r: u64) {
        let (start, end) = range.into_span::<u64>();
        get_span_u64(*self, start, end)
    }

    fn set_bits<R: IntoSpan>(&mut self, range: R, bits: u64) {
        let (start, end) = range.into_span::<u64>();
        *self = set_span_u64(*self, start, end, bits);
    }
}

} // verus!
