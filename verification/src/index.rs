//! Arithmetic of the two indices of a circular buffer.
//!
//! An index counts items and is never reduced to a slot number: it grows by one
//! per item and wraps around at the end of `usize`. Because the capacity is a
//! power of two it divides the number of values of `usize`, so the slot that an
//! index stands for, and the distance between two indices, survive the wrap.
use std::sync::Mutex;
use vstd::prelude::*;

verus! {

/// How far `to` is ahead of `from`, when both wrap around.
pub open spec fn distance(to: usize, from: usize) -> int {
    if to >= from {
        to - from
    } else {
        to - from + usize::MAX + 1
    }
}

/// The index that stands for position `position`, counted without wrapping.
pub open spec fn index_of(position: nat) -> usize {
    (position % (usize::MAX + 1) as nat) as usize
}

/// The index that follows `idx`.
pub open spec fn next(idx: usize) -> usize {
    if idx == usize::MAX {
        0
    } else {
        (idx + 1) as usize
    }
}

/// Whether `count` values of type `X` are not larger than an allocation may be.
pub open spec fn fits<X>(count: usize) -> bool {
    count * vstd::layout::size_of::<X>() <= isize::MAX
}

/// Whether `capacity` items of type `T` are not larger than an allocation may be, and
/// neither are the slots that hold them. A slot takes more than an item: it also says
/// whether it is empty, and one that several threads reach can be locked.
pub open spec fn storable<T>(capacity: usize) -> bool {
    &&& fits::<T>(capacity)
    &&& fits::<Option<T>>(capacity)
    &&& fits::<Mutex<Option<T>>>(capacity)
}

/// Whether a buffer of `capacity` items of type `T` can be made: the items take
/// up space, the capacity is a power of two, and the storage is not larger than
/// an allocation may be.
pub open spec fn supported<T>(capacity: usize) -> bool {
    &&& vstd::layout::size_of::<T>() > 0
    &&& vstd::arithmetic::power2::is_pow2(capacity as int)
    &&& storable::<T>(capacity)
}

/// Why a buffer cannot be made.
#[derive(Clone, Copy, Debug, PartialEq, Eq, Structural)]
pub enum CapacityError {
    /// The items take up no space.
    ZeroSizedItem,
    /// The capacity is zero.
    Zero,
    /// The capacity is neither zero nor a power of two.
    NotPowerOfTwo,
    /// The storage would be larger than an allocation may be.
    TooLarge,
}

/// Whether a buffer of `capacity` items of type `T` can be made, and if not, the first
/// reason why.
pub open spec fn verdict<T>(capacity: usize) -> Result<(), CapacityError> {
    if vstd::layout::size_of::<T>() == 0 {
        Err(CapacityError::ZeroSizedItem)
    } else if capacity == 0 {
        Err(CapacityError::Zero)
    } else if !vstd::arithmetic::power2::is_pow2(capacity as int) {
        Err(CapacityError::NotPowerOfTwo)
    } else if !storable::<T>(capacity) {
        Err(CapacityError::TooLarge)
    } else {
        Ok(())
    }
}

/// Says whether a buffer of `capacity` items of type `T` can be made, and if
/// not, the first reason why.
pub fn check_capacity<T>(capacity: usize) -> (res: Result<(), CapacityError>)
    ensures
        res == verdict::<T>(capacity),
        res is Ok <==> supported::<T>(capacity),
{
    proof {
        reveal(vstd::arithmetic::power2::is_pow2);
    }
    if std::mem::size_of::<T>() == 0 {
        return Err(CapacityError::ZeroSizedItem);
    }
    if capacity == 0 {
        return Err(CapacityError::Zero);
    }
    proof {
        lemma_single_bit(capacity);
    }
    if capacity & (capacity - 1) != 0 {
        return Err(CapacityError::NotPowerOfTwo);
    }
    if check_fits::<T>(capacity) && check_fits::<Option<T>>(capacity) && check_fits::<
        Mutex<Option<T>>,
    >(capacity) {
        Ok(())
    } else {
        Err(CapacityError::TooLarge)
    }
}

/// Says whether `count` values of type `X` are not larger than an allocation may be.
fn check_fits<X>(count: usize) -> (res: bool)
    ensures
        res == fits::<X>(count),
{
    let size = std::mem::size_of::<X>();
    let limit: usize = usize::MAX / 2;
    if size == 0 {
        assert(count * size == 0);
        return true;
    }
    proof {
        lemma_quotient_bounds(count as int, size as int, limit as int);
    }
    count <= limit / size
}

/// A positive number has a single bit set exactly if it is a power of two.
proof fn lemma_single_bit(x: usize)
    requires
        x > 0,
    ensures
        (x & ((x - 1) as usize) == 0) <==> vstd::arithmetic::power2::is_pow2(x as int),
    decreases x,
{
    reveal(vstd::arithmetic::power2::is_pow2);
    let below = (x - 1) as usize;
    if x == 1 {
        assert(1usize & 0usize == 0) by (bit_vector);
    } else if x % 2 == 1 {
        assert(x & below != 0) by (bit_vector)
            requires
                x > 1,
                x % 2 == 1,
                below == x - 1,
        ;
    } else {
        let half = (x / 2) as usize;
        let below_half = (half - 1) as usize;
        lemma_single_bit(half);
        assert((x & below == 0) <==> (half & below_half == 0)) by (bit_vector)
            requires
                x > 1,
                x % 2 == 0,
                below == x - 1,
                half == x / 2,
                below_half == half - 1,
        ;
    }
}

/// `x <= limit / size` exactly if `x * size <= limit`.
proof fn lemma_quotient_bounds(x: int, size: int, limit: int)
    requires
        size > 0,
        x >= 0,
        limit >= 0,
    ensures
        x <= limit / size <==> x * size <= limit,
{
    let quotient = limit / size;
    vstd::arithmetic::div_mod::lemma_fundamental_div_mod(limit, size);
    assert(x <= quotient <==> x * size <= limit) by (nonlinear_arith)
        requires
            size > 0,
            limit == size * quotient + limit % size,
            0 <= limit % size < size,
    ;
}

/// Masking an index with one less than the capacity leaves its remainder.
pub proof fn lemma_mask(idx: usize, cap: usize)
    requires
        vstd::arithmetic::power2::is_pow2(cap as int),
    ensures
        cap > 0,
        idx & ((cap - 1) as usize) == idx % cap,
{
    let e = lemma_exponent(cap);
    vstd::bits::lemma_usize_low_bits_mask_is_mod(idx, e);
}

/// A capacity divides the number of values of `usize`.
pub proof fn lemma_divides(cap: usize)
    requires
        vstd::arithmetic::power2::is_pow2(cap as int),
    ensures
        cap > 0,
        (usize::MAX + 1) % cap as int == 0,
{
    let e = lemma_exponent(cap);
    let rest = (usize::BITS - e) as nat;
    vstd::arithmetic::power2::lemma_pow2_adds(e, rest);
    lemma_values_of_usize();
    assert(usize::MAX + 1 == vstd::arithmetic::power2::pow2(rest) * cap) by (nonlinear_arith)
        requires
            vstd::arithmetic::power2::pow2(e) * vstd::arithmetic::power2::pow2(rest)
                == usize::MAX + 1,
            vstd::arithmetic::power2::pow2(e) == cap,
    ;
    vstd::arithmetic::div_mod::lemma_mod_multiples_basic(
        vstd::arithmetic::power2::pow2(rest) as int,
        cap as int,
    );
}

/// The number of values of `usize` as a power of two.
proof fn lemma_values_of_usize()
    ensures
        vstd::arithmetic::power2::pow2(usize::BITS as nat) == usize::MAX + 1,
{
    vstd::arithmetic::power2::lemma2_to64();
    vstd::arithmetic::power2::lemma2_to64_rest();
}

/// The exponent of a power of two that fits in a `usize`.
proof fn lemma_exponent(cap: usize) -> (e: nat)
    requires
        vstd::arithmetic::power2::is_pow2(cap as int),
    ensures
        vstd::arithmetic::power2::pow2(e) == cap,
        e < usize::BITS,
        cap > 0,
{
    vstd::arithmetic::power2::is_pow2_equiv(cap as int);
    let e = choose|i: nat| vstd::arithmetic::power::pow(2, i) == cap as int;
    vstd::arithmetic::power2::lemma_pow2_pos(e);
    lemma_values_of_usize();
    if e >= usize::BITS {
        if e > usize::BITS {
            vstd::arithmetic::power2::lemma_pow2_strictly_increases(usize::BITS as nat, e);
        }
    }
    e
}

/// Wrapped indices lose nothing: the distance between the indices of two
/// positions is the distance between the positions, as long as it fits in a
/// `usize`.
pub proof fn law_distance_of_positions(ahead: nat, behind: nat)
    requires
        behind <= ahead <= behind + usize::MAX,
    ensures
        distance(index_of(ahead), index_of(behind)) == ahead - behind,
{
    let m = usize::MAX + 1;
    let d = ahead - behind;
    vstd::arithmetic::div_mod::lemma_fundamental_div_mod(behind as int, m);
    let q = behind as int / m;
    let rest = behind as int % m;
    assert(behind == q * m + rest) by (nonlinear_arith)
        requires
            behind == m * q + rest,
    ;
    if rest + d < m {
        vstd::arithmetic::div_mod::lemma_fundamental_div_mod_converse(ahead as int, m, q, rest + d);
    } else {
        assert(ahead == (q + 1) * m + (rest + d - m)) by (nonlinear_arith)
            requires
                ahead == q * m + rest + d,
        ;
        vstd::arithmetic::div_mod::lemma_fundamental_div_mod_converse(
            ahead as int,
            m,
            q + 1,
            rest + d - m,
        );
    }
}

/// A position that fits in a `usize` is its own index, and the indices repeat when all
/// values of `usize` have been used.
pub proof fn law_index_of_position(position: nat)
    ensures
        position <= usize::MAX ==> index_of(position) == position,
        index_of(position + usize::MAX as nat + 1) == index_of(position),
{
    let m = usize::MAX + 1;
    if position <= usize::MAX {
        vstd::arithmetic::div_mod::lemma_small_mod(position, m as nat);
    }
    vstd::arithmetic::div_mod::lemma_mod_add_multiples_vanish(position as int, m);
}

/// Wrapped indices lose nothing: the index of a position leads to the slot of
/// the position.
pub proof fn law_slot_of_position(position: nat, cap: usize)
    requires
        vstd::arithmetic::power2::is_pow2(cap as int),
    ensures
        cap > 0,
        index_of(position) as int % cap as int == position as int % cap as int,
{
    let m = usize::MAX + 1;
    lemma_divides(cap);
    vstd::arithmetic::div_mod::lemma_fundamental_div_mod(position as int, m);
    let q = position as int / m;
    vstd::arithmetic::div_mod::lemma_fundamental_div_mod(m, cap as int);
    let k = m / cap as int;
    assert(m * q == cap * (k * q)) by (nonlinear_arith)
        requires
            m == cap * k,
    ;
    vstd::arithmetic::div_mod::lemma_mod_multiples_vanish(
        k * q,
        position as int % m,
        cap as int,
    );
}

/// The index that follows that of a position is the index of the next position.
pub proof fn law_next_of_position(position: nat)
    ensures
        next(index_of(position)) == index_of(position + 1),
{
    law_distance_of_positions(position + 1, position);
}

/// An index that is `ahead` further than that of a position is the index of the position
/// that is `ahead` further.
pub proof fn law_index_ahead(idx: usize, position: nat, ahead: nat)
    requires
        distance(idx, index_of(position)) == ahead,
    ensures
        idx == index_of(position + ahead),
{
    law_distance_of_positions(position + ahead, position);
}

/// A capacity that is a power of two is accepted exactly if the items take up space, and
/// neither `capacity` items nor the slots for them take up more than an allocation may.
/// Nothing else counts.
pub proof fn law_accepted<T>(capacity: usize, e: nat)
    requires
        capacity == vstd::arithmetic::power2::pow2(e),
    ensures
        supported::<T>(capacity) <==> {
            &&& vstd::layout::size_of::<T>() > 0
            &&& capacity * vstd::layout::size_of::<T>() <= isize::MAX
            &&& capacity * vstd::layout::size_of::<Option<T>>() <= isize::MAX
            &&& capacity * vstd::layout::size_of::<Mutex<Option<T>>>() <= isize::MAX
        },
        verdict::<T>(capacity) is Ok <==> supported::<T>(capacity),
{
    vstd::arithmetic::power2::lemma_pow2(e);
    vstd::arithmetic::power2::lemma_pow2_pos(e);
    vstd::arithmetic::power2::is_pow2_equiv(capacity as int);
}

/// A capacity that is accepted is a power of two.
pub proof fn law_accepted_is_power<T>(capacity: usize) -> (e: nat)
    requires
        supported::<T>(capacity) || verdict::<T>(capacity) is Ok,
    ensures
        capacity == vstd::arithmetic::power2::pow2(e),
{
    lemma_exponent(capacity)
}

/// Which reason is given for a capacity that is refused: that the items take up no space
/// comes before all others, and that the storage is too large comes after all others.
pub proof fn law_refused<T>(capacity: usize, e: nat)
    ensures
        vstd::layout::size_of::<T>() == 0 ==> verdict::<T>(capacity) == Err::<(), CapacityError>(
            CapacityError::ZeroSizedItem,
        ),
        vstd::layout::size_of::<T>() > 0 ==> {
            &&& capacity == 0 ==> verdict::<T>(capacity) == Err::<(), CapacityError>(
                CapacityError::Zero,
            )
            &&& capacity > 0 && (forall|i: nat|
                capacity != #[trigger] vstd::arithmetic::power2::pow2(i)) ==> verdict::<T>(capacity)
                == Err::<(), CapacityError>(CapacityError::NotPowerOfTwo)
            &&& capacity == vstd::arithmetic::power2::pow2(e) && !supported::<T>(capacity)
                ==> verdict::<T>(capacity) == Err::<(), CapacityError>(CapacityError::TooLarge)
        },
{
    vstd::arithmetic::power2::lemma_pow2(e);
    vstd::arithmetic::power2::lemma_pow2_pos(e);
    vstd::arithmetic::power2::is_pow2_equiv(capacity as int);
    if vstd::arithmetic::power2::is_pow2(capacity as int) {
        let i = lemma_exponent(capacity);
        assert(capacity == vstd::arithmetic::power2::pow2(i));
    }
}

} // verus!
