use crate::signal::{Signal, FULL_SCALE};
use vstd::arithmetic::div_mod::*;
use vstd::prelude::*;

verus! {

/// Amplitude modulation of one level by another: the information level is
/// moved from `[-1, 1]` to an envelope in `[0, 1]`, which scales the carrier.
/// The product is rounded down to a whole level.
pub open spec fn am_level(information: int, carrier: int) -> int {
    ((information + FULL_SCALE) * carrier) / (2 * FULL_SCALE)
}

/// Whatever the carrier and the information, as long as each stays within
/// `[-1, 1]`, the amplitude-modulated level stays within `[-1, 1]`.
pub proof fn lemma_am_bounded(information: int, carrier: int)
    requires
        -FULL_SCALE <= information <= FULL_SCALE,
        -FULL_SCALE <= carrier <= FULL_SCALE,
    ensures
        -FULL_SCALE <= am_level(information, carrier) <= FULL_SCALE,
{
    let f = FULL_SCALE as int;
    let p = (information + f) * carrier;
    assert(-2 * f * f <= p <= 2 * f * f) by (nonlinear_arith)
        requires
            -f <= information <= f,
            -f <= carrier <= f,
            p == (information + f) * carrier,
            f > 0,
    ;
    assert(-f * (2 * f) == -2 * f * f && f * (2 * f) == 2 * f * f) by (nonlinear_arith);
    lemma_div_is_ordered(-f * (2 * f), p, 2 * f);
    lemma_div_is_ordered(p, f * (2 * f), 2 * f);
    lemma_div_multiples_vanish(-f, 2 * f);
    lemma_div_multiples_vanish(f, 2 * f);
}

/// A carrier whose amplitude follows an information signal.
#[derive(Clone, Copy)]
pub struct AmplitudeModulator<C, I> {
    pub carrier: C,
    pub information: I,
}

impl<C: Signal, I: Signal> Signal for AmplitudeModulator<C, I> {
    open spec fn covers(&self, total_index: u32) -> bool {
        self.carrier.covers(total_index) && self.information.covers(total_index)
    }

    open spec fn level(&self, total_index: u32) -> int {
        am_level(self.information.level(total_index), self.carrier.level(total_index))
    }

    fn sample(&self, total_index: u32) -> (r: i32) {
        let information = self.information.sample(total_index);
        let carrier = self.carrier.sample(total_index);
        modulate_amplitude(information, carrier)
    }
}

/// The amplitude-modulated level of a carrier level under an information
/// level.
pub fn modulate_amplitude(information: i32, carrier: i32) -> (r: i32)
    requires
        -FULL_SCALE <= information <= FULL_SCALE,
        -FULL_SCALE <= carrier <= FULL_SCALE,
    ensures
        r == am_level(information as int, carrier as int),
        -FULL_SCALE <= r <= FULL_SCALE,
{
    let envelope: i64 = information as i64 + FULL_SCALE as i64;
    proof {
        assert(-2147483648 <= envelope * carrier <= 2147483648) by (nonlinear_arith)
            requires
                0 <= envelope <= 65536,
                -32768 <= carrier <= 32768,
        ;
    }
    let product: i64 = envelope * carrier as i64;
    proof {
        lemma_am_bounded(information as int, carrier as int);
        lemma_hoist_over_denominator(product as int, FULL_SCALE as int, 65536);
    }
    let shifted: u64 = (product + 2147483648) as u64;
    (shifted / 65536) as i32 - FULL_SCALE
}

} // verus!
