//! The teleporter self-check recurrence: an Ackermann-like function over
//! wrapping 16-bit words,
//!
//! ```text
//! f(0, b, c) = b + 1
//! f(a, 0, c) = f(a - 1, c, c)
//! f(a, b, c) = f(a - 1, f(a, b - 1, c), c)
//! ```
//!
//! computed with a memo table so that the search for a confirmation value
//! `c` (the `c` with `f(4, 1, c) = 6`) finishes in reasonable time.  The
//! driver that scans candidate values runs outside the library; the
//! function itself is verified against the recurrence.

use vstd::prelude::*;
use std::collections::HashMap;

verus! {

/// The recurrence itself.  The `a = 0` base case wraps around the 16-bit
/// word like the machine's own arithmetic does.
pub open spec fn ack(a: u16, b: u16, c: u16) -> u16
    decreases a, b,
{
    if a == 0 {
        (((b + 1) % 0x10000) as u16)
    } else if b == 0 {
        ack((a - 1) as u16, c, c)
    } else {
        ack((a - 1) as u16, ack(a, (b - 1) as u16, c), c)
    }
}

/// The memo key for the pair `(a, b)`; `c` is fixed for a table's lifetime.
pub open spec fn memo_key(a: u16, b: u16) -> u32 {
    (a * 0x10000 + b) as u32
}

/// A memo table is consistent for `c` when every entry holds the value of
/// the recurrence at its key.
pub open spec fn memo_ok(cache: Map<u32, u16>, c: u16) -> bool {
    forall|k: u32| #[trigger] cache.contains_key(k) ==> cache[k] == ack(
        (k / 0x10000) as u16,
        (k % 0x10000) as u16,
        c,
    )
}

/// Memoized evaluation of the recurrence.  The table may carry entries from
/// earlier calls with the same `c`; entries are only ever added, the entry
/// for `(a, b)` holds the result afterwards, and the result is exactly
/// `ack(a, b, c)`.
pub fn f(a: u16, b: u16, c: u16, cache: &mut HashMap<u32, u16>) -> (res: u16)
    requires
        memo_ok(old(cache)@, c),
    ensures
        memo_ok(final(cache)@, c),
        res == ack(a, b, c),
        final(cache)@.contains_key(memo_key(a, b)),
        final(cache)@[memo_key(a, b)] == res,
        forall|k: u32| old(cache)@.contains_key(k) ==> final(cache)@.contains_key(k),
    decreases a, b,
{
    broadcast use vstd::std_specs::hash::group_hash_axioms;

    let key: u32 = a as u32 * 0x10000 + b as u32;
    proof {
        assert(key / 0x10000 == a && key % 0x10000 == b) by (nonlinear_arith)
            requires
                a <= 0xffff,
                b <= 0xffff,
                key == a * 0x10000 + b,
        ;
    }
    proof {
        assert(key == memo_key(a, b));
    }
    if let Some(res) = cache.get(&key) {
        return *res;
    }
    let res: u16;
    if a == 0 {
        res = b.wrapping_add(1);
    } else if b == 0 {
        res = f(a - 1, c, c, cache);
    } else {
        let inner = f(a, b - 1, c, cache);
        res = f(a - 1, inner, c, cache);
    }
    cache.insert(key, res);
    res
}

} // verus!
