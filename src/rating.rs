use vstd::prelude::*;

verus! {

/// A user's three-state judgment on one choice.
#[derive(Clone, Copy, Debug, PartialEq, Eq, Structural)]
pub enum Rating {
    Neutral,
    Up,
    Down,
}

impl Rating {
    /// The rating that a click turns this one into: Up to Down, Down to Neutral,
    /// Neutral to Up.
    pub open spec fn cycled_spec(self) -> Rating {
        match self {
            Rating::Up => Rating::Down,
            Rating::Down => Rating::Neutral,
            Rating::Neutral => Rating::Up,
        }
    }

    /// The rating reached after `k` clicks.
    pub open spec fn cycled_times(self, k: nat) -> Rating
        decreases k,
    {
        if k == 0 {
            self
        } else {
            self.cycled_spec().cycled_times((k - 1) as nat)
        }
    }

    pub fn cycled(&self) -> (r: Rating)
        ensures
            r == self.cycled_spec(),
    {
        match self {
            Rating::Up => Rating::Down,
            Rating::Down => Rating::Neutral,
            Rating::Neutral => Rating::Up,
        }
    }
}

impl Default for Rating {
    fn default() -> (r: Rating)
        ensures
            r == Rating::Neutral,
    {
        Rating::Neutral
    }
}

/// Clicking cycles a rating through all three states with period three: every
/// click changes it, three clicks restore it, and any number of clicks reaches
/// one of the rating, its successor or its successor's successor.
pub proof fn lemma_rating_cycle(r: Rating, k: nat)
    ensures
        r.cycled_spec() != r,
        r.cycled_spec().cycled_spec() != r,
        r.cycled_spec().cycled_spec().cycled_spec() == r,
        r.cycled_times(k) == r.cycled_times(k % 3),
        r.cycled_times(k) == r || r.cycled_times(k) == r.cycled_spec() || r.cycled_times(k)
            == r.cycled_spec().cycled_spec(),
    decreases k,
{
    reveal_with_fuel(Rating::cycled_times, 4);
    if k >= 3 {
        lemma_rating_cycle(r, (k - 3) as nat);
        lemma_cycled_times_shift(r, (k - 3) as nat);
        assert(k % 3 == (k - 3) as nat % 3);
    }
}

/// Three more clicks change nothing.
proof fn lemma_cycled_times_shift(r: Rating, k: nat)
    ensures
        r.cycled_times(k + 3) == r.cycled_times(k),
    decreases k,
{
    reveal_with_fuel(Rating::cycled_times, 4);
    if k > 0 {
        lemma_cycled_times_shift(r.cycled_spec(), (k - 1) as nat);
        assert(r.cycled_times(k + 3) == r.cycled_spec().cycled_times((k + 2) as nat));
    }
}

} // verus!
