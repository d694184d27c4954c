//! Length policies: given how many bytes are available and the size of one
//! element, a guard accepts (and says how many bytes to use) or refuses.
use vstd::prelude::*;
use crate::error::{ErrorReason, GuardError};

verus! {

/// The closed set of length policies.
#[derive(Clone, Copy, Debug, PartialEq, Eq, Structural)]
pub enum Guard {
    /// Accepts any count and uses the whole elements that fit, silently
    /// dropping a trailing remainder.
    Permissive,
    /// Needs at least one element; uses exactly one element's bytes.
    SingleAtLeast,
    /// Needs exactly one element's bytes.
    SingleValue,
    /// Needs at least one element; uses the whole elements that fit.
    SingleMany,
    /// Needs a non-zero whole number of elements.
    Pedantic,
    /// Needs a whole number of elements, zero included.
    AllOrNothing,
}

/// The largest multiple of `size` not above `len`.
pub open spec fn whole_bytes(len: usize, size: usize) -> usize
    recommends
        size > 0,
{
    (len - len % size) as usize
}

/// The whole-element part of a count is a multiple of the element size that
/// fits in the count, short of it by less than one element.
pub proof fn lemma_whole_bytes(len: usize, size: usize)
    requires
        size > 0,
    ensures
        whole_bytes(len, size) <= len,
        whole_bytes(len, size) % size == 0,
        whole_bytes(len, size) == (len / size) * size,
        len - whole_bytes(len, size) < size,
{
    vstd::arithmetic::div_mod::lemma_fundamental_div_mod(len as int, size as int);
    vstd::arithmetic::div_mod::lemma_mod_decreases(len as nat, size as nat);
    vstd::arithmetic::div_mod::lemma_mod_multiples_basic(len as int / size as int, size as int);
    vstd::arithmetic::mul::lemma_mul_is_commutative(len as int / size as int, size as int);
}

/// The refusal for a count below the minimum `required`.
pub open spec fn not_enough(required: usize, actual: usize) -> GuardError {
    GuardError { required, actual, reason: ErrorReason::NotEnoughBytes }
}

/// The refusal for a count above what is allowed, `required` being the
/// nearest acceptable count below it.
pub open spec fn too_many(required: usize, actual: usize) -> GuardError {
    GuardError { required, actual, reason: ErrorReason::TooManyBytes }
}

impl Guard {
    /// The decision of this policy on `len` available bytes and elements of
    /// `size` bytes: the number of bytes to use, or the refusal. An element
    /// size of zero is refused by every policy.
    pub open spec fn spec_check(self, len: usize, size: usize) -> Result<usize, GuardError> {
        if size == 0 {
            Err(not_enough(0, len))
        } else {
            match self {
                Guard::Permissive => Ok(whole_bytes(len, size)),
                Guard::SingleAtLeast => if len < size {
                    Err(not_enough(size, len))
                } else {
                    Ok(size)
                },
                Guard::SingleValue => if len < size {
                    Err(not_enough(size, len))
                } else if len > size {
                    Err(too_many(size, len))
                } else {
                    Ok(size)
                },
                Guard::SingleMany => if len < size {
                    Err(not_enough(size, len))
                } else {
                    Ok(whole_bytes(len, size))
                },
                Guard::Pedantic => if len < size {
                    Err(not_enough(size, len))
                } else if len % size != 0 {
                    Err(too_many(whole_bytes(len, size), len))
                } else {
                    Ok(len)
                },
                Guard::AllOrNothing => if len % size == 0 {
                    Ok(len)
                } else if len < size {
                    Err(not_enough(size, len))
                } else {
                    Err(too_many(whole_bytes(len, size), len))
                },
            }
        }
    }

    /// Applies the policy to `len` available bytes and elements of `size`
    /// bytes.
    pub fn check(&self, len: usize, size: usize) -> (r: Result<usize, GuardError>)
        ensures
            r == self.spec_check(len, size),
    {
        if size == 0 {
            return Err(GuardError { required: 0, actual: len, reason: ErrorReason::NotEnoughBytes });
        }
        let rem: usize = len % size;
        proof {
            vstd::arithmetic::div_mod::lemma_mod_decreases(len as nat, size as nat);
        }
        match self {
            Guard::Permissive => Ok(len - rem),
            Guard::SingleAtLeast => {
                if len < size {
                    Err(GuardError { required: size, actual: len, reason: ErrorReason::NotEnoughBytes })
                } else {
                    Ok(size)
                }
            },
            Guard::SingleValue => {
                if len < size {
                    Err(GuardError { required: size, actual: len, reason: ErrorReason::NotEnoughBytes })
                } else if len > size {
                    Err(GuardError { required: size, actual: len, reason: ErrorReason::TooManyBytes })
                } else {
                    Ok(size)
                }
            },
            Guard::SingleMany => {
                if len < size {
                    Err(GuardError { required: size, actual: len, reason: ErrorReason::NotEnoughBytes })
                } else {
                    Ok(len - rem)
                }
            },
            Guard::Pedantic => {
                if len < size {
                    Err(GuardError { required: size, actual: len, reason: ErrorReason::NotEnoughBytes })
                } else if rem != 0 {
                    Err(GuardError { required: len - rem, actual: len, reason: ErrorReason::TooManyBytes })
                } else {
                    Ok(len)
                }
            },
            Guard::AllOrNothing => {
                if rem == 0 {
                    Ok(len)
                } else if len < size {
                    Err(GuardError { required: size, actual: len, reason: ErrorReason::NotEnoughBytes })
                } else {
                    Err(GuardError { required: len - rem, actual: len, reason: ErrorReason::TooManyBytes })
                }
            },
        }
    }

    /// What every policy promises of an acceptance: the bytes used are a
    /// whole, non-empty-or-empty run of elements that fits in what is
    /// available.
    pub proof fn lemma_accepted_fits(self, len: usize, size: usize)
        requires
            self.spec_check(len, size) is Ok,
        ensures
            size > 0,
            self.spec_check(len, size)->Ok_0 <= len,
            self.spec_check(len, size)->Ok_0 % size == 0,
    {
        lemma_whole_bytes(len, size);
        vstd::arithmetic::div_mod::lemma_mod_self_0(size as int);
    }
}

/// The exact single-value policy refuses one byte short as too few and one
/// byte over as too many, both against one element's size and the count
/// given, and accepts exactly one element.
pub proof fn lemma_single_value_exact(size: usize)
    requires
        0 < size < usize::MAX,
    ensures
        Guard::SingleValue.spec_check((size - 1) as usize, size)
            == Err::<usize, GuardError>(not_enough(size, (size - 1) as usize)),
        Guard::SingleValue.spec_check((size + 1) as usize, size)
            == Err::<usize, GuardError>(too_many(size, (size + 1) as usize)),
        Guard::SingleValue.spec_check(size, size) == Ok::<usize, GuardError>(size),
{
}

} // verus!
