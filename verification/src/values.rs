//! The tagged value representation shared by the compiler and the runtime.
//!
//! Every value that passes between compiled code and the runtime is one
//! 64-bit word.  An integer `n` is stored as `n << 1` (low bit zero); the
//! three singletons `nil`, `false` and `true` are `1`, `3` and `7`; a tuple
//! pointer is an 8-byte aligned address plus one, so its low two bits are
//! `01` and it is distinct from `nil` only by not being `1` itself.

use vstd::prelude::*;

verus! {

/// Tagged representation of `true`.
pub const TRUE_VAL: i64 = 7;

/// Tagged representation of `false`.
pub const FALSE_VAL: i64 = 3;

/// Tagged representation of `nil`.
pub const NIL_VAL: i64 = 1;

/// Smallest representable source integer: -2^62.
pub const MIN_NUM: i64 = -4611686018427387904;

/// Largest representable source integer: 2^62 - 1.
pub const MAX_NUM: i64 = 4611686018427387903;

/// The integers the source language can represent in a tagged word.
pub open spec fn in_num_range(n: int) -> bool {
    MIN_NUM <= n <= MAX_NUM
}

/// The tagged encoding of an integer: twice its value, so the low bit is zero.
pub open spec fn tag_num(n: int) -> int {
    2 * n
}

/// A tagged word holds a number exactly when its low bit is zero.
pub open spec fn is_tagged_num(v: int) -> bool {
    v % 2 == 0
}

/// The integer a tagged number stands for.
pub open spec fn untag_num(v: int) -> int {
    v / 2
}

/// A tagged word is one of the three singletons.
pub open spec fn is_singleton(v: int) -> bool {
    v == NIL_VAL || v == FALSE_VAL || v == TRUE_VAL
}

/// A tagged word carries a tuple pointer: low two bits `01`, but not `nil`.
pub open spec fn is_tuple_ptr(v: int) -> bool {
    v % 4 == 1 && v != NIL_VAL
}

/// Tagging an in-range integer gives an even word, and halving that word
/// gives the integer back; this holds both for mathematical division and
/// for the machine's bit test `r & 1`.
pub proof fn lemma_num_tag_roundtrip(n: i64)
    requires
        in_num_range(n as int),
    ensures
        is_tagged_num(tag_num(n as int)),
        untag_num(tag_num(n as int)) == n as int,
        ((2 * n) as i64) & 1 == 0,
{
    assert(((2 * n) as i64) & 1 == 0) by (bit_vector);
}

/// Tag an in-range integer in executable code.
pub fn tag_int(n: i64) -> (r: i64)
    requires
        in_num_range(n as int),
    ensures
        r as int == tag_num(n as int),
        is_tagged_num(r as int),
{
    n * 2
}

} // verus!
