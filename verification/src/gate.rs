//! Memory budget gate.
//!
//! Asking the engine how many bytes a solve would need is cheap;
//! committing those bytes is not. `check_memory` therefore runs between
//! the two steps: it takes the engine's figure, a reading of the host's
//! free bytes and a headroom divisor, and decides whether the
//! commitment may go ahead. Callers hand in the free-byte reading
//! themselves, which keeps the decision a pure function of its
//! arguments.

use crate::errors::ResourceError;
use vstd::prelude::*;

verus! {

/// Headroom divisor applied to available memory before the comparison.
/// The margin is a deployment policy, so it is kept as an explicit,
/// named, overridable parameter of `check_memory` rather than a buried
/// constant; this default reserves no extra headroom.
pub const DEFAULT_SAFETY_DIVISOR: u64 = 1;

/// Evidence of a cleared gate, carrying the figures the decision was
/// made on. `check_memory` is the only source of a value of this type,
/// and the embedding program commits memory only while holding one.
#[derive(Clone, Copy, PartialEq, Eq, Structural, Debug)]
pub struct MemoryClearance {
    /// Bytes the engine estimates it needs.
    pub required: u64,
    /// The gated budget: available bytes divided by the headroom divisor.
    pub budget: u64,
}

/// Decides the memory question: a clearance when `required` fits into
/// `available / divisor`, and otherwise the figures of the shortfall,
/// upon which the run must stop without committing any memory.
pub fn check_memory(required: u64, available: u64, divisor: u64) -> (r: Result<
    MemoryClearance,
    ResourceError,
>)
    requires
        divisor > 0,
    ensures
        r is Ok <==> required <= available / divisor,
        r matches Ok(c) ==> c == (MemoryClearance { required, budget: available / divisor }),
        r matches Err(e) ==> e == (ResourceError {
            required,
            available,
            budget: available / divisor,
        }) && required > available / divisor,
{
    let budget: u64 = available / divisor;
    if required <= budget {
        Ok(MemoryClearance { required, budget })
    } else {
        Err(ResourceError { required, available, budget })
    }
}

/// Restates `check_memory`'s criterion multiplicatively: `required`
/// fits the divided budget exactly when `required * divisor` fits the
/// raw reading.
pub proof fn lemma_gate_iff(required: u64, available: u64, divisor: u64)
    requires
        divisor > 0,
    ensures
        (required <= available as int / divisor as int) <==> required * divisor <= available,
{
    let d = divisor as int;
    let a = available as int;
    let r = required as int;
    let q = a / d;
    vstd::arithmetic::div_mod::lemma_fundamental_div_mod(a, d);
    vstd::arithmetic::div_mod::lemma_mod_bound(a, d);
    if r <= q {
        vstd::arithmetic::mul::lemma_mul_inequality(r, q, d);
    } else {
        vstd::arithmetic::mul::lemma_mul_inequality(q + 1, r, d);
        vstd::arithmetic::mul::lemma_mul_is_distributive_add_other_way(d, q, 1);
    }
}

} // verus!
