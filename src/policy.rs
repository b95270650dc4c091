use vstd::prelude::*;

verus! {

/// A non-negative rational `num / den`, used for the share of the server's
/// capacity that must be online.
#[derive(Clone, Copy, Debug, PartialEq, Eq, Structural)]
pub struct Fraction {
    pub num: u64,
    pub den: u64,
}

impl Fraction {
    pub open spec fn wf(self) -> bool {
        self.den > 0
    }

    /// The zero share, which leaves the absolute minimum in force.
    pub fn zero() -> (r: Fraction)
        ensures
            r.wf(),
            r == (Fraction { num: 0, den: 1 }),
    {
        Fraction { num: 0, den: 1 }
    }
}

/// One successful occupancy probe: players online and server capacity.
#[derive(Clone, Copy, Debug, PartialEq, Eq, Structural)]
pub struct Sample {
    pub online: u32,
    pub max: u32,
}

/// How many players must be online for the server to count as occupied.
#[derive(Clone, Copy, Debug, PartialEq, Eq, Structural)]
pub enum ThresholdPolicy {
    /// At least this many players.
    MinPlayers(u32),
    /// At least this share of the server's capacity, compared without rounding.
    Share(Fraction),
}

impl ThresholdPolicy {
    pub open spec fn wf(self) -> bool {
        match self {
            ThresholdPolicy::MinPlayers(_) => true,
            ThresholdPolicy::Share(f) => f.wf() && f.num > 0,
        }
    }

    /// A positive share takes precedence; otherwise the absolute minimum applies.
    pub open spec fn from_config(min_players: u32, share: Fraction) -> ThresholdPolicy {
        if share.num > 0 {
            ThresholdPolicy::Share(share)
        } else {
            ThresholdPolicy::MinPlayers(min_players)
        }
    }

    /// The numerator of the required player count, whose denominator is
    /// `required_den`: the required count is `share * max`, or the minimum.
    pub open spec fn required_num(self, max: u32) -> int {
        match self {
            ThresholdPolicy::MinPlayers(m) => m as int,
            ThresholdPolicy::Share(f) => f.num * max,
        }
    }

    pub open spec fn required_den(self) -> int {
        match self {
            ThresholdPolicy::MinPlayers(_) => 1,
            ThresholdPolicy::Share(f) => f.den as int,
        }
    }

    /// `online >= required`, with both sides scaled by the positive denominator.
    pub open spec fn satisfied_by(self, s: Sample) -> bool {
        s.online * self.required_den() >= self.required_num(s.max)
    }

    /// Builds the policy from the configured minimum and share; a share above
    /// zero wins and the minimum is then ignored.
    pub fn new(min_players: u32, share: Fraction) -> (r: ThresholdPolicy)
        requires
            share.wf(),
        ensures
            r == Self::from_config(min_players, share),
            r.wf(),
    {
        if share.num > 0 {
            ThresholdPolicy::Share(share)
        } else {
            ThresholdPolicy::MinPlayers(min_players)
        }
    }

    /// The has-players condition of a sample: equality with the requirement
    /// counts as satisfied.
    pub fn has_players(&self, s: Sample) -> (r: bool)
        requires
            self.wf(),
        ensures
            r == self.satisfied_by(s),
    {
        match *self {
            ThresholdPolicy::MinPlayers(m) => s.online >= m,
            ThresholdPolicy::Share(f) => {
                proof {
                    lemma_product_fits(s.online as int, f.den as int);
                    lemma_product_fits(f.num as int, s.max as int);
                }
                let lhs: u128 = (s.online as u128) * (f.den as u128);
                let rhs: u128 = (f.num as u128) * (s.max as u128);
                lhs >= rhs
            },
        }
    }
}

proof fn lemma_product_fits(a: int, b: int)
    requires
        0 <= a <= u64::MAX,
        0 <= b <= u64::MAX,
    ensures
        0 <= a * b <= u128::MAX,
{
    assert(a * b <= u64::MAX * u64::MAX) by (nonlinear_arith)
        requires
            0 <= a <= u64::MAX,
            0 <= b <= u64::MAX,
    ;
    assert(0 <= a * b) by (nonlinear_arith)
        requires
            0 <= a,
            0 <= b,
    ;
}

/// Evictions are blocked (allowance 0) exactly when players are present.
pub open spec fn allowance_spec(has_players: bool) -> u32 {
    if has_players {
        0
    } else {
        1
    }
}

/// The eviction allowance that records the given occupancy condition.
pub fn allowance_for(has_players: bool) -> (r: u32)
    ensures
        r == allowance_spec(has_players),
{
    if has_players {
        0
    } else {
        1
    }
}

/// A positive share makes the configured minimum irrelevant: two policies
/// built from the same share and any two minimums decide every sample alike.
pub proof fn lemma_share_overrides_minimum(a: u32, b: u32, share: Fraction, s: Sample)
    requires
        share.wf(),
        share.num > 0,
    ensures
        ThresholdPolicy::from_config(a, share) == ThresholdPolicy::from_config(b, share),
        ThresholdPolicy::from_config(a, share).satisfied_by(s)
            == ThresholdPolicy::from_config(b, share).satisfied_by(s),
{
}

} // verus!
