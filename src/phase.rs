use vstd::arithmetic::div_mod::*;
use vstd::prelude::*;

verus! {

/// One full turn of phase, in units of the fixed-point ring.
pub const TURN: u64 = 4294967296;

/// Half a turn.
pub const HALF_TURN: u32 = 2147483648;

/// `n / d` turns rounded to the nearest unit of the ring, halves away from
/// zero, as a signed number of units (not yet reduced to one turn).
pub open spec fn rounded_units(n: int, d: int) -> int {
    if n >= 0 {
        (2 * n * TURN + d) / (2 * d)
    } else {
        -((2 * (-n) * TURN + d) / (2 * d))
    }
}

/// The ring value of a fraction `n / d` of a turn.
pub open spec fn fraction_units(n: int, d: int) -> nat {
    (rounded_units(n, d) % (TURN as int)) as nat
}

/// Sum of two phases, wrapped to one turn.
pub open spec fn phase_add(a: nat, b: nat) -> nat {
    ((a + b) as int % (TURN as int)) as nat
}

/// A phase taken `n` times, wrapped to one turn.
pub open spec fn phase_scale(a: nat, n: int) -> nat {
    ((a as int * n) % (TURN as int)) as nat
}

/// A fraction of one turn, stored so that arithmetic wraps modulo a turn:
/// the value `k` stands for `k / 2^32` turns.
#[derive(Clone, Copy, PartialEq, Eq, Structural, Debug)]
pub struct Phase(pub u32);

impl View for Phase {
    type V = nat;

    open spec fn view(&self) -> nat {
        self.0 as nat
    }
}

impl Phase {
    /// The phase of `numerator / denominator` turns, of either sign, reduced
    /// to `[0, 1)` turn with wraparound.
    pub fn from_fraction(numerator: i64, denominator: u64) -> (r: Phase)
        requires
            denominator > 0,
        ensures
            r@ == fraction_units(numerator as int, denominator as int),
    {
        let magnitude: u128 = if numerator >= 0 {
            numerator as u128
        } else {
            (-(numerator as i128)) as u128
        };
        proof {
            assert(magnitude <= 9223372036854775808);
            assert(2 * magnitude * 4294967296 <= 79228162514264337593543950336) by (nonlinear_arith)
                requires
                    magnitude <= 9223372036854775808,
            ;
        }
        let d: u128 = denominator as u128;
        let units: u128 = (2 * magnitude * 4294967296 + d) / (2 * d);
        let low: u64 = (units % 4294967296) as u64;
        if numerator >= 0 {
            Phase(low as u32)
        } else {
            let r: u64 = if low == 0 {
                0
            } else {
                4294967296 - low
            };
            proof {
                let u = units as int;
                let t = TURN as int;
                lemma_fundamental_div_mod(u, t);
                let q = u / t;
                if low == 0 {
                    lemma_fundamental_div_mod_converse_mod(-u, t, -q, 0);
                } else {
                    assert(-u == (-q - 1) * t + (t - low)) by (nonlinear_arith)
                        requires
                            u == q * t + low,
                    ;
                    lemma_fundamental_div_mod_converse_mod(-u, t, -q - 1, t - low);
                }
            }
            Phase(r as u32)
        }
    }

    /// Superposition of two phases, wrapping silently past a full turn.
    pub fn add(self, rhs: Phase) -> (r: Phase)
        ensures
            r@ == phase_add(self@, rhs@),
    {
        Phase(((self.0 as u64 + rhs.0 as u64) % TURN) as u32)
    }

    /// This phase accumulated over `count` steps, wrapping silently.
    pub fn mul(self, count: u32) -> (r: Phase)
        ensures
            r@ == phase_scale(self@, count as int),
    {
        proof {
            assert(self.0 as nat * count as nat <= 0xffff_fffe_0000_0001) by (nonlinear_arith)
                requires
                    self.0 <= 0xffff_ffff,
                    count <= 0xffff_ffff,
            ;
        }
        Phase(((self.0 as u64 * count as u64) % TURN) as u32)
    }

    /// Adds `rhs` in place, wrapping silently.
    pub fn add_assign(&mut self, rhs: Phase)
        ensures
            final(self)@ == phase_add(old(self)@, rhs@),
    {
        *self = self.add(rhs);
    }

    /// Whether this phase lies in the first half of the turn.
    pub fn is_first_half(self) -> (r: bool)
        ensures
            r == (self@ < HALF_TURN),
    {
        self.0 < HALF_TURN
    }
}

} // verus!
