//! The runtime's value handling: decoding the program argument, printing a
//! tagged value, structural equality, and the error messages.
//!
//! Tuples live in a heap of 64-bit words handed in as a sequence together
//! with its base address: a tagged pointer `p` names the word at index
//! `(p - base - 1) / 8`, which holds the element count, followed by that
//! many tagged elements.  Printing and equality walk that heap with an
//! ancestor list, so cycles print as `...` and compare as equal; the
//! termination measure is the room left in the ancestor list, bounded by
//! the number of distinct pointers the heap can hold.

use vstd::prelude::*;
use vstd::math::max;
use vstd::set_lib::{lemma_int_range, lemma_len_subset, set_int_range};
use vstd::string::StrSliceExecFns;
use vstd::string::StringExecFns;
use crate::ast::str_eq;
use crate::numfmt::{i64_to_string, str_of_int};
use crate::values::{in_num_range, MAX_NUM, MIN_NUM};

verus! {

/// A word with pointer shape: low two bits `01`, and not `nil`.
pub open spec fn is_ptr(v: int) -> bool {
    v % 4 == 1 && v != 1
}

/// The heap index a tagged pointer names.
pub open spec fn ptr_idx(base: int, p: int) -> int {
    (p - 1 - base) / 8
}

/// A pointer whose header and elements lie inside the heap.
pub open spec fn valid_ptr(heap: Seq<i64>, base: int, p: int) -> bool {
    &&& is_ptr(p)
    &&& (p - 1 - base) % 8 == 0
    &&& 0 <= ptr_idx(base, p)
    &&& ptr_idx(base, p) < heap.len()
    &&& 0 <= heap[ptr_idx(base, p)]
    &&& ptr_idx(base, p) + 1 + heap[ptr_idx(base, p)] <= heap.len()
}

/// A tagged word the runtime can receive: a number, a singleton, or a
/// pointer into the heap.
pub open spec fn ok_value(heap: Seq<i64>, base: int, v: int) -> bool {
    v % 2 == 0 || v == 1 || v == 3 || v == 7 || valid_ptr(heap, base, v)
}

/// A heap whose every pointer-shaped word leads to elements that are
/// themselves values the runtime can receive.
pub open spec fn wf_heap(heap: Seq<i64>, base: int) -> bool {
    &&& 0 <= base
    &&& base % 8 == 0
    &&& base + 8 * heap.len() < i64::MAX
    &&& forall|p: int|
        #[trigger] valid_ptr(heap, base, p) ==> forall|j: int|
            0 <= j < heap[ptr_idx(base, p)] ==> ok_value(
                heap,
                base,
                #[trigger] heap[ptr_idx(base, p) + 1 + j] as int,
            )
}

/// Every entry of an ancestor list is a valid pointer.
pub open spec fn anc_ok(heap: Seq<i64>, base: int, env: Seq<i64>) -> bool {
    forall|k: int| 0 <= k < env.len() ==> valid_ptr(heap, base, #[trigger] env[k] as int)
}

/// What a tagged value prints as, descending under an ancestor list: a
/// number as its decimal half, the singletons by name, a tuple as
/// `(tuple …)` with a revisited ancestor as `...`.
pub open spec fn print_spec(heap: Seq<i64>, base: int, v: i64, env: Seq<i64>) -> Seq<char>
    decreases heap.len() + 1 - env.len(), 0int,
{
    if env.len() > heap.len() {
        Seq::<char>::empty()
    } else if v % 2 == 0 {
        str_of_int(v / 2)
    } else if v == 7 {
        "true"@
    } else if v == 3 {
        "false"@
    } else if v == 1 {
        "nil"@
    } else if v % 4 == 1 {
        if env.contains(v) {
            "..."@
        } else {
            "(tuple"@ + print_elems_spec(heap, base, ptr_idx(base, v as int), 0, env.push(v))
                + ")"@
        }
    } else {
        "Unknown:"@ + str_of_int(v as int) + "\n"@
    }
}

/// What the elements of a tuple print as, from position `j` on, each led
/// by a space.
pub open spec fn print_elems_spec(
    heap: Seq<i64>,
    base: int,
    idx: int,
    j: int,
    env: Seq<i64>,
) -> Seq<char>
    decreases heap.len() + 1 - env.len(), max(heap[idx] + 1 - j, 0),
{
    if 0 <= idx < heap.len() && 0 <= j < heap[idx] && 0 <= idx + 1 + j < heap.len() {
        " "@ + print_spec(heap, base, heap[idx + 1 + j], env) + print_elems_spec(
            heap,
            base,
            idx,
            j + 1,
            env,
        )
    } else {
        Seq::<char>::empty()
    }
}

/// An ancestor list without repeats has an entry per distinct heap index,
/// so it is no longer than the heap.
proof fn lemma_anc_card(heap: Seq<i64>, base: int, env: Seq<i64>)
    requires
        env.no_duplicates(),
        anc_ok(heap, base, env),
    ensures
        env.len() <= heap.len(),
{
    let idxs = env.map_values(|p: i64| ptr_idx(base, p as int));
    assert forall|a: int, b: int| 0 <= a < idxs.len() && 0 <= b < idxs.len() && a != b implies
        idxs[a] != idxs[b] by {
        let pa = env[a] as int;
        let pb = env[b] as int;
        assert(valid_ptr(heap, base, pa));
        assert(valid_ptr(heap, base, pb));
        assert(pa == base + 8 * ptr_idx(base, pa) + 1);
        assert(pb == base + 8 * ptr_idx(base, pb) + 1);
    }
    assert(idxs.no_duplicates());
    idxs.unique_seq_to_set();
    assert(idxs.to_set().subset_of(set_int_range(0, heap.len() as int))) by {
        assert forall|x: int| idxs.to_set().contains(x) implies set_int_range(
            0,
            heap.len() as int,
        ).contains(x) by {
            let k = choose|k: int| 0 <= k < idxs.len() && idxs[k] == x;
            assert(valid_ptr(heap, base, env[k] as int));
        }
    }
    lemma_int_range(0, heap.len() as int);
    lemma_len_subset(idxs.to_set(), set_int_range(0, heap.len() as int));
}

/// The low bit and the low two bits of a word agree with its remainders.
proof fn lemma_lowbits(x: i64)
    ensures
        (x & 1 == 0) <==> (x as int) % 2 == 0,
        (x & 3 == 1) <==> (x as int) % 4 == 1,
{
    assert((x & 1 == 0) <==> x % 2 == 0) by (bit_vector);
    assert((x & 3 == 1) <==> x % 4 == 1) by (bit_vector);
}

/// Halve an even word.
fn half_even(i: i64) -> (r: i64)
    requires
        (i as int) % 2 == 0,
    ensures
        r as int == (i as int) / 2,
{
    if i >= 0 {
        ((i as u64) / 2) as i64
    } else {
        let m: u64 = ((-(i + 1)) as u64) + 1;
        let h = m / 2;
        -(h as i64)
    }
}

/// Whether a word is in a list.
fn vec_has(v: &Vec<i64>, x: i64) -> (r: bool)
    ensures
        r == v@.contains(x),
{
    let mut j: usize = 0;
    while j < v.len()
        invariant
            j <= v@.len(),
            forall|k: int| 0 <= k < j ==> v@[k] != x,
        decreases v@.len() - j,
    {
        if v[j] == x {
            return true;
        }
        j = j + 1;
    }
    false
}

/// Copy a list of words.
fn vec_copy(v: &Vec<i64>) -> (r: Vec<i64>)
    ensures
        r@ == v@,
{
    let mut r: Vec<i64> = Vec::new();
    let mut j: usize = 0;
    while j < v.len()
        invariant
            j <= v@.len(),
            r@ == v@.subrange(0, j as int),
        decreases v@.len() - j,
    {
        r.push(v[j]);
        j = j + 1;
    }
    proof {
        assert(v@.subrange(0, v@.len() as int) =~= v@);
    }
    r
}

/// Print one tagged value under an ancestor list.
pub fn sn_print(i: i64, heap: &Vec<i64>, base: i64, env: Vec<i64>) -> (r: String)
    requires
        wf_heap(heap@, base as int),
        ok_value(heap@, base as int, i as int),
        env@.no_duplicates(),
        anc_ok(heap@, base as int, env@),
    ensures
        r@ == print_spec(heap@, base as int, i, env@),
    decreases heap@.len() + 1 - env@.len(), 0int,
{
    proof {
        lemma_anc_card(heap@, base as int, env@);
        lemma_lowbits(i);
    }
    if i & 1 == 0 {
        i64_to_string(half_even(i))
    } else if i == 7 {
        String::from_str("true")
    } else if i == 3 {
        String::from_str("false")
    } else if i == 1 {
        String::from_str("nil")
    } else if i & 3 == 1 {
        if vec_has(&env, i) {
            String::from_str("...")
        } else {
            let hn = heap.len();
            assert(heap@.len() <= usize::MAX);
            assert(valid_ptr(heap@, base as int, i as int));
            proof {
                let p = i as int;
                let off = p - 1 - base as int;
                vstd::arithmetic::div_mod::lemma_fundamental_div_mod(off, 8);
                assert(off == 8 * ptr_idx(base as int, p));
                vstd::arithmetic::div_mod::lemma_div_multiples_vanish(
                    ptr_idx(base as int, p),
                    8,
                );
            }
            let idx: usize = (((i - 1 - base) as u64) / 8) as usize;
            proof {
                assert(idx as int == ptr_idx(base as int, i as int));
                assert(base as int + 8 * (idx as int) + 1 == i as int);
            }
            let mut nenv = env;
            nenv.push(i);
            proof {
                assert(nenv@.no_duplicates());
                assert(anc_ok(heap@, base as int, nenv@));
                lemma_anc_card(heap@, base as int, nenv@);
            }
            let mut s = String::from_str("(tuple");
            let body = sn_print_elems(heap, base, idx, 0, &nenv);
            s.append(body.as_str());
            s.append(")");
            proof {
                assert(s@ =~= "(tuple"@ + body@ + ")"@);
            }
            s
        }
    } else {
        let mut s = String::from_str("Unknown:");
        s.append(i64_to_string(i).as_str());
        s.append("\n");
        proof {
            assert(s@ =~= "Unknown:"@ + str_of_int(i as int) + "\n"@);
        }
        s
    }
}

/// Print the elements of a tuple from position `j` on.
fn sn_print_elems(heap: &Vec<i64>, base: i64, idx: usize, j: usize, env: &Vec<i64>) -> (r: String)
    requires
        wf_heap(heap@, base as int),
        idx < heap@.len(),
        0 <= heap@[idx as int],
        idx + 1 + heap@[idx as int] <= heap@.len(),
        valid_ptr(heap@, base as int, (base + 8 * idx + 1) as int),
        j <= heap@.len(),
        env@.no_duplicates(),
        anc_ok(heap@, base as int, env@),
        env@.len() <= heap@.len(),
    ensures
        r@ == print_elems_spec(heap@, base as int, idx as int, j as int, env@),
    decreases heap@.len() + 1 - env@.len(), max(heap@[idx as int] + 1 - j, 0),
{
    let hn = heap.len();
    proof {
        assert(heap@.len() <= usize::MAX);
        assert(heap@.len() < i64::MAX as int);
        assert(j as int <= i64::MAX as int);
    }
    let count = heap[idx];
    if (j as i64) < count {
        proof {
            let p = (base + 8 * idx + 1) as int;
            vstd::arithmetic::div_mod::lemma_fundamental_div_mod(8 * idx as int, 8);
            vstd::arithmetic::div_mod::lemma_div_multiples_vanish(idx as int, 8);
            assert(ptr_idx(base as int, p) == idx as int);
            assert(j < heap@[idx as int]);
            assert(idx + 1 + j < heap@.len());
        }
        let elem = heap[idx + 1 + j];
        proof {
            let p = (base + 8 * idx + 1) as int;
            assert(ok_value(heap@, base as int, heap@[idx as int + 1 + j as int] as int));
        }
        let mut s = String::from_str(" ");
        let head = sn_print(elem, heap, base, vec_copy(env));
        s.append(head.as_str());
        let rest = sn_print_elems(heap, base, idx, j + 1, env);
        s.append(rest.as_str());
        proof {
            assert(s@ =~= " "@ + head@ + rest@);
        }
        s
    } else {
        String::new()
    }
}

/// Print a tagged value, with the trailing newline of the outermost call.
pub fn print_value(i: i64, heap: &Vec<i64>, base: i64) -> (r: String)
    requires
        wf_heap(heap@, base as int),
        ok_value(heap@, base as int, i as int),
    ensures
        r@ == print_spec(heap@, base as int, i, Seq::<i64>::empty()) + "\n"@,
{
    let mut s = sn_print(i, heap, base, Vec::new());
    s.append("\n");
    s
}

/// The ancestor list extended by a pointer, unless it is already there.
pub open spec fn push_absent(env: Seq<i64>, x: i64) -> Seq<i64> {
    if env.contains(x) {
        env
    } else {
        env.push(x)
    }
}

/// Structural equality of two tagged values under two ancestor lists:
/// numbers and singletons compare by value; two pointers compare by element
/// count and then elementwise, and a pair of revisited ancestors compares
/// as equal, so corresponding positions of cyclic structures are equal.
pub open spec fn equal_spec(
    heap: Seq<i64>,
    base: int,
    v1: i64,
    v2: i64,
    env1: Seq<i64>,
    env2: Seq<i64>,
) -> bool
    decreases 2 * heap.len() + 2 - env1.len() - env2.len(), 0int,
{
    if env1.len() > heap.len() || env2.len() > heap.len() {
        false
    } else if v1 % 2 == 0 || v1 == 7 || v1 == 3 || v1 == 1 {
        v1 == v2
    } else if v1 % 4 == 1 {
        if !(v2 % 4 == 1 && v2 != 1) {
            false
        } else if env1.contains(v1) && env2.contains(v2) {
            true
        } else {
            let idx1 = ptr_idx(base, v1 as int);
            let idx2 = ptr_idx(base, v2 as int);
            if heap[idx1] != heap[idx2] {
                false
            } else {
                equal_elems_spec(
                    heap,
                    base,
                    idx1,
                    idx2,
                    0,
                    push_absent(env1, v1),
                    push_absent(env2, v2),
                )
            }
        }
    } else {
        false
    }
}

/// Elementwise equality of two tuples from position `j` on.
pub open spec fn equal_elems_spec(
    heap: Seq<i64>,
    base: int,
    idx1: int,
    idx2: int,
    j: int,
    env1: Seq<i64>,
    env2: Seq<i64>,
) -> bool
    decreases 2 * heap.len() + 2 - env1.len() - env2.len(), max(heap[idx1] + 1 - j, 0),
{
    if 0 <= idx1 < heap.len() && 0 <= j < heap[idx1] && idx1 + 1 + j < heap.len() && 0 <= idx2
        && idx2 + 1 + j < heap.len() {
        equal_spec(heap, base, heap[idx1 + 1 + j], heap[idx2 + 1 + j], env1, env2)
            && equal_elems_spec(heap, base, idx1, idx2, j + 1, env1, env2)
    } else {
        true
    }
}

/// Decide structural equality of two tagged values under ancestor lists.
pub fn sn_equal(i1: i64, i2: i64, heap: &Vec<i64>, base: i64, env1: Vec<i64>, env2: Vec<i64>) -> (r:
    bool)
    requires
        wf_heap(heap@, base as int),
        ok_value(heap@, base as int, i1 as int),
        ok_value(heap@, base as int, i2 as int),
        env1@.no_duplicates(),
        anc_ok(heap@, base as int, env1@),
        env2@.no_duplicates(),
        anc_ok(heap@, base as int, env2@),
    ensures
        r == equal_spec(heap@, base as int, i1, i2, env1@, env2@),
    decreases 2 * heap@.len() + 2 - env1@.len() - env2@.len(), 0int,
{
    proof {
        lemma_anc_card(heap@, base as int, env1@);
        lemma_anc_card(heap@, base as int, env2@);
        lemma_lowbits(i1);
        lemma_lowbits(i2);
    }
    if i1 & 1 == 0 || i1 == 7 || i1 == 3 || i1 == 1 {
        i1 == i2
    } else if i1 & 3 == 1 {
        if !(i2 & 3 == 1 && i2 != 1) {
            return false;
        }
        let c1 = vec_has(&env1, i1);
        let c2 = vec_has(&env2, i2);
        if c1 && c2 {
            return true;
        }
        assert(valid_ptr(heap@, base as int, i1 as int));
        assert(valid_ptr(heap@, base as int, i2 as int));
        let hn = heap.len();
        assert(heap@.len() <= usize::MAX);
        proof {
            vstd::arithmetic::div_mod::lemma_fundamental_div_mod(
                i1 as int - 1 - base as int,
                8,
            );
            vstd::arithmetic::div_mod::lemma_fundamental_div_mod(
                i2 as int - 1 - base as int,
                8,
            );
            vstd::arithmetic::div_mod::lemma_div_multiples_vanish(
                ptr_idx(base as int, i1 as int),
                8,
            );
            vstd::arithmetic::div_mod::lemma_div_multiples_vanish(
                ptr_idx(base as int, i2 as int),
                8,
            );
        }
        let idx1: usize = (((i1 - 1 - base) as u64) / 8) as usize;
        let idx2: usize = (((i2 - 1 - base) as u64) / 8) as usize;
        proof {
            assert(idx1 as int == ptr_idx(base as int, i1 as int));
            assert(idx2 as int == ptr_idx(base as int, i2 as int));
            assert(base as int + 8 * (idx1 as int) + 1 == i1 as int);
            assert(base as int + 8 * (idx2 as int) + 1 == i2 as int);
        }
        if heap[idx1] != heap[idx2] {
            return false;
        }
        let mut nenv1 = env1;
        if !c1 {
            nenv1.push(i1);
        }
        let mut nenv2 = env2;
        if !c2 {
            nenv2.push(i2);
        }
        proof {
            assert(nenv1@ == push_absent(env1@, i1));
            assert(nenv2@ == push_absent(env2@, i2));
            assert(nenv1@.no_duplicates());
            assert(nenv2@.no_duplicates());
            assert(anc_ok(heap@, base as int, nenv1@));
            assert(anc_ok(heap@, base as int, nenv2@));
            lemma_anc_card(heap@, base as int, nenv1@);
            lemma_anc_card(heap@, base as int, nenv2@);
        }
        sn_equal_elems(heap, base, idx1, idx2, 0, &nenv1, &nenv2)
    } else {
        false
    }
}

/// Decide elementwise equality of two tuples from position `j` on.
fn sn_equal_elems(
    heap: &Vec<i64>,
    base: i64,
    idx1: usize,
    idx2: usize,
    j: usize,
    env1: &Vec<i64>,
    env2: &Vec<i64>,
) -> (r: bool)
    requires
        wf_heap(heap@, base as int),
        idx1 < heap@.len(),
        idx2 < heap@.len(),
        0 <= heap@[idx1 as int],
        idx1 + 1 + heap@[idx1 as int] <= heap@.len(),
        idx2 + 1 + heap@[idx2 as int] <= heap@.len(),
        heap@[idx1 as int] == heap@[idx2 as int],
        valid_ptr(heap@, base as int, (base + 8 * idx1 + 1) as int),
        valid_ptr(heap@, base as int, (base + 8 * idx2 + 1) as int),
        j <= heap@.len(),
        env1@.no_duplicates(),
        anc_ok(heap@, base as int, env1@),
        env1@.len() <= heap@.len(),
        env2@.no_duplicates(),
        anc_ok(heap@, base as int, env2@),
        env2@.len() <= heap@.len(),
    ensures
        r == equal_elems_spec(heap@, base as int, idx1 as int, idx2 as int, j as int, env1@, env2@),
    decreases 2 * heap@.len() + 2 - env1@.len() - env2@.len(), max(heap@[idx1 as int] + 1 - j, 0),
{
    let hn = heap.len();
    proof {
        assert(heap@.len() <= usize::MAX);
        assert(heap@.len() < i64::MAX as int);
        assert(j as int <= i64::MAX as int);
    }
    let count = heap[idx1];
    if (j as i64) < count {
        proof {
            let p1 = (base + 8 * idx1 + 1) as int;
            let p2 = (base + 8 * idx2 + 1) as int;
            vstd::arithmetic::div_mod::lemma_fundamental_div_mod(8 * idx1 as int, 8);
            vstd::arithmetic::div_mod::lemma_fundamental_div_mod(8 * idx2 as int, 8);
            vstd::arithmetic::div_mod::lemma_div_multiples_vanish(idx1 as int, 8);
            vstd::arithmetic::div_mod::lemma_div_multiples_vanish(idx2 as int, 8);
            assert(ptr_idx(base as int, p1) == idx1 as int);
            assert(ptr_idx(base as int, p2) == idx2 as int);
            assert(j < heap@[idx1 as int]);
            assert(idx1 + 1 + j < heap@.len());
            assert(idx2 + 1 + j < heap@.len());
        }
        let e1 = heap[idx1 + 1 + j];
        let e2 = heap[idx2 + 1 + j];
        proof {
            assert(ok_value(heap@, base as int, heap@[idx1 as int + 1 + j as int] as int));
            assert(ok_value(heap@, base as int, heap@[idx2 as int + 1 + j as int] as int));
        }
        if !sn_equal(e1, e2, heap, base, vec_copy(env1), vec_copy(env2)) {
            return false;
        }
        sn_equal_elems(heap, base, idx1, idx2, j + 1, env1, env2)
    } else {
        true
    }
}

/// Decide structural equality of two tagged values, giving back the tagged
/// boolean.
pub fn equal_value(i1: i64, i2: i64, heap: &Vec<i64>, base: i64) -> (r: i64)
    requires
        wf_heap(heap@, base as int),
        ok_value(heap@, base as int, i1 as int),
        ok_value(heap@, base as int, i2 as int),
    ensures
        r == if equal_spec(heap@, base as int, i1, i2, Seq::<i64>::empty(), Seq::<i64>::empty()) {
            7i64
        } else {
            3i64
        },
{
    if sn_equal(i1, i2, heap, base, Vec::new(), Vec::new()) {
        7
    } else {
        3
    }
}

/// A decimal digit.
pub open spec fn is_dec_digit(c: char) -> bool {
    48 <= c as u32 <= 57
}

/// All characters from position `i` on are decimal digits.
pub open spec fn all_digits(s: Seq<char>, i: int) -> bool {
    forall|k: int| i <= k < s.len() ==> is_dec_digit(#[trigger] s[k])
}

/// The value of the digits in positions `i` to `end`, folded onto `acc`.
pub open spec fn dec_val(s: Seq<char>, i: int, end: int, acc: int) -> int
    decreases end - i,
{
    if i < end {
        dec_val(s, i + 1, end, acc * 10 + (s[i] as u32 - 48))
    } else {
        acc
    }
}

/// Folding digits never shrinks a non-negative accumulator.
proof fn lemma_dec_val_ge(s: Seq<char>, i: int, end: int, acc: int)
    requires
        0 <= acc,
        end <= s.len(),
        forall|k: int| i <= k < end ==> is_dec_digit(#[trigger] s[k]),
    ensures
        dec_val(s, i, end, acc) >= acc,
    decreases end - i,
{
    if i < end {
        lemma_dec_val_ge(s, i + 1, end, acc * 10 + (s[i] as u32 - 48));
    }
}

/// Folding splits at any midpoint.
proof fn lemma_dec_val_compose(s: Seq<char>, i: int, j: int, end: int, acc: int)
    requires
        i <= j <= end,
    ensures
        dec_val(s, i, end, acc) == dec_val(s, j, end, dec_val(s, i, j, acc)),
    decreases j - i,
{
    if i < j {
        lemma_dec_val_compose(s, i + 1, j, end, acc * 10 + (s[i] as u32 - 48));
    }
}

/// What the program argument decodes to: `nil`, `false` and `true` to their
/// tagged words, a decimal integer in the representable range to its tagged
/// value, and anything else to nothing.
pub open spec fn parse_input_spec(s: Seq<char>) -> Option<i64> {
    if s == "nil"@ {
        Some(1i64)
    } else if s == "false"@ {
        Some(3i64)
    } else if s == "true"@ {
        Some(7i64)
    } else {
        let d0: int = if s.len() > 0 && (s[0] == '-' || s[0] == '+') {
            1
        } else {
            0
        };
        if s.len() <= d0 || !all_digits(s, d0) {
            None
        } else {
            let mag = dec_val(s, d0, s.len() as int, 0);
            let n: int = if s[0] == '-' {
                -mag
            } else {
                mag
            };
            if n < MIN_NUM || n > MAX_NUM {
                None
            } else {
                Some((2 * n) as i64)
            }
        }
    }
}

/// Decode the program argument into its tagged value.
pub fn parse_input(input: &str) -> (r: Option<i64>)
    ensures
        r == parse_input_spec(input@),
{
    if str_eq(input, "nil") {
        return Some(1);
    }
    if str_eq(input, "false") {
        return Some(3);
    }
    if str_eq(input, "true") {
        return Some(7);
    }
    let n = input.unicode_len();
    let mut idx: usize = 0;
    let mut neg = false;
    if n > 0 {
        let c0 = input.get_char(0);
        if c0 == '-' {
            neg = true;
            idx = 1;
        } else if c0 == '+' {
            idx = 1;
        }
    }
    if idx >= n {
        return None;
    }
    let mut acc: u64 = 0;
    let mut over = false;
    let mut j: usize = idx;
    while j < n
        invariant
            input@ != "nil"@,
            input@ != "false"@,
            input@ != "true"@,
            idx <= j <= n,
            n == input@.len(),
            idx == 1 <==> n > 0 && (input@[0] == '-' || input@[0] == '+'),
            idx <= 1,
            neg <==> n > 0 && input@[0] == '-',
            n > idx,
            forall|k: int| idx <= k < j ==> is_dec_digit(#[trigger] input@[k]),
            !over ==> acc as int == dec_val(input@, idx as int, j as int, 0) && acc
                <= 4611686018427387909,
            over ==> dec_val(input@, idx as int, j as int, 0) >= 4611686018427387910,
            0 <= dec_val(input@, idx as int, j as int, 0),
        decreases n - j,
    {
        let c = input.get_char(j);
        let cu = c as u32;
        if cu < 48 || cu > 57 {
            proof {
                assert(!is_dec_digit(input@[j as int]));
                assert(!all_digits(input@, idx as int));
            }
            return None;
        }
        let d = (cu - 48) as u64;
        proof {
            reveal_with_fuel(dec_val, 3);
            lemma_dec_val_compose(input@, idx as int, j as int, j as int + 1, 0);
        }
        if !over {
            if acc >= 461168601842738791 {
                over = true;
            } else {
                acc = acc * 10 + d;
            }
        }
        j = j + 1;
    }
    proof {
        assert(all_digits(input@, idx as int));
    }
    if over {
        proof {
            lemma_dec_val_compose(input@, idx as int, j as int, n as int, 0);
            lemma_dec_val_ge(
                input@,
                j as int,
                n as int,
                dec_val(input@, idx as int, j as int, 0),
            );
        }
        return None;
    }
    let v: i64 = acc as i64;
    let sn: i64 = if neg {
        -v
    } else {
        v
    };
    if sn < MIN_NUM || sn > MAX_NUM {
        return None;
    }
    Some(sn * 2)
}

/// Truncating halving, as the machine's signed division rounds.
pub open spec fn div2_trunc(n: int) -> int {
    if n >= 0 {
        n / 2
    } else {
        -((-n) / 2)
    }
}

/// Halve a word, rounding toward zero.
fn div2t(n: i64) -> (r: i64)
    ensures
        r as int == div2_trunc(n as int),
{
    if n >= 0 {
        ((n as u64) / 2) as i64
    } else {
        let m: u64 = ((-(n + 1)) as u64) + 1;
        -((m / 2) as i64)
    }
}

/// The message each runtime error code prints before the program exits.
pub open spec fn error_message_spec(errcode: int, code2: int) -> Seq<char> {
    if errcode == 1 {
        "invalid argument"@
    } else if errcode == 2 {
        "overflow"@
    } else if errcode == 3 {
        "index out of bound, "@ + str_of_int(div2_trunc(code2))
    } else if errcode == 4 {
        "try to index of nil"@
    } else {
        "an error ocurred "@ + str_of_int(errcode)
    }
}

/// Render the message for a runtime error code.
pub fn error_message(errcode: i64, code2: i64) -> (r: String)
    ensures
        r@ == error_message_spec(errcode as int, code2 as int),
{
    if errcode == 1 {
        String::from_str("invalid argument")
    } else if errcode == 2 {
        String::from_str("overflow")
    } else if errcode == 3 {
        let mut s = String::from_str("index out of bound, ");
        s.append(i64_to_string(div2t(code2)).as_str());
        s
    } else if errcode == 4 {
        String::from_str("try to index of nil")
    } else {
        let mut s = String::from_str("an error ocurred ");
        s.append(i64_to_string(errcode).as_str());
        s
    }
}

/// Printing the tagged form of a representable integer emits exactly its
/// decimal rendering, whatever the heap holds.
pub proof fn lemma_print_number(heap: Seq<i64>, base: int, n: i64)
    requires
        in_num_range(n as int),
    ensures
        print_spec(heap, base, (n * 2) as i64, Seq::<i64>::empty()) == str_of_int(n as int),
{
}

/// Two equal tagged booleans compare as equal, and the comparison yields
/// the tagged `true`.
pub proof fn lemma_equal_bool_reflexive(heap: Seq<i64>, base: int, b: i64)
    requires
        b == 3 || b == 7,
    ensures
        equal_spec(heap, base, b, b, Seq::<i64>::empty(), Seq::<i64>::empty()),
{
}

} // verus!
