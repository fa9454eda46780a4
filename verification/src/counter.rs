//! Counters that wrap at 2^64, as relaxed atomic adds leave them.

use vstd::prelude::*;

verus! {

/// Sum of two counters as an atomic add leaves it: modulo 2^64.
pub open spec fn wrapped_sum(a: u64, b: u64) -> u64 {
    ((a + b) % 0x1_0000_0000_0000_0000) as u64
}

/// A counter that started at `before` and took `added` more, as atomic adds
/// leave it.
pub open spec fn wrapped_total(before: u64, added: nat) -> u64 {
    ((before + added) % 0x1_0000_0000_0000_0000) as u64
}

/// A total that fits in 64 bits is the plain sum.
pub proof fn lemma_wrapped_exact(before: u64, added: nat)
    requires
        before + added <= u64::MAX,
    ensures
        wrapped_total(before, added) == before + added,
{
    vstd::arithmetic::div_mod::lemma_small_mod(
        (before + added) as nat,
        0x1_0000_0000_0000_0000nat,
    );
}

/// Adding nothing leaves a counter as it is.
pub proof fn lemma_wrapped_zero(a: u64)
    ensures
        wrapped_sum(a, 0) == a,
{
    vstd::arithmetic::div_mod::lemma_small_mod(a as nat, 0x1_0000_0000_0000_0000nat);
}

/// Adding to a wrapped total wraps the grown total.
pub proof fn lemma_wrapped_step(before: u64, added: nat, more: u64)
    ensures
        wrapped_sum(wrapped_total(before, added), more) == wrapped_total(before, added + more as nat),
{
    let m = 0x1_0000_0000_0000_0000int;
    let x = before + added;
    assert(((x % m) + more) % m == (x + more) % m) by {
        vstd::arithmetic::div_mod::lemma_add_mod_noop(x, more as int, m);
        vstd::arithmetic::div_mod::lemma_small_mod(more as nat, m as nat);
    }
}

/// Adding two amounts one after the other wraps as adding their wrapped sum.
pub proof fn lemma_wrapped_assoc(a: u64, b: u64, c: u64)
    ensures
        wrapped_sum(a, wrapped_sum(b, c)) == wrapped_sum(wrapped_sum(a, b), c),
{
    let m = 0x1_0000_0000_0000_0000int;
    vstd::arithmetic::div_mod::lemma_add_mod_noop(a as int, b + c, m);
    vstd::arithmetic::div_mod::lemma_add_mod_noop(a + b, c as int, m);
    vstd::arithmetic::div_mod::lemma_small_mod(a as nat, m as nat);
    vstd::arithmetic::div_mod::lemma_small_mod(c as nat, m as nat);
}

/// Adding to a wrapped counter and to the unwrapped sum agree modulo 2^64.
pub proof fn lemma_mod_step(handed: int, local: u64, more: u64)
    requires
        handed >= 0,
    ensures
        (handed + wrapped_sum(local, more)) % 0x1_0000_0000_0000_0000 == (handed + local + more)
            % 0x1_0000_0000_0000_0000,
{
    let m = 0x1_0000_0000_0000_0000int;
    vstd::arithmetic::div_mod::lemma_add_mod_noop(handed, local + more, m);
    vstd::arithmetic::div_mod::lemma_add_mod_noop(handed, (local + more) % m, m);
    vstd::arithmetic::div_mod::lemma_mod_twice(local + more, m);
}

} // verus!
