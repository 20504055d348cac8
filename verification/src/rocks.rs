use vstd::prelude::*;

verus! {

/// The three asteroid classes. A large asteroid splits into two medium ones,
/// a medium one into two small ones, and a small one is simply destroyed.
#[derive(Clone, Copy, PartialEq, Eq, Structural, Debug)]
pub enum AsteroidSize {
    Large,
    Medium,
    Small,
}

impl AsteroidSize {
    /// Collision radius in screen units.
    pub open spec fn spec_radius(self) -> u32 {
        match self {
            AsteroidSize::Large => 47,
            AsteroidSize::Medium => 28,
            AsteroidSize::Small => 16,
        }
    }

    /// Points awarded for shooting an asteroid of this size.
    pub open spec fn spec_score(self) -> u32 {
        match self {
            AsteroidSize::Large => 20,
            AsteroidSize::Medium => 50,
            AsteroidSize::Small => 100,
        }
    }

    /// The size of the fragments an asteroid of this size breaks into.
    pub open spec fn spec_child(self) -> Option<AsteroidSize> {
        match self {
            AsteroidSize::Large => Some(AsteroidSize::Medium),
            AsteroidSize::Medium => Some(AsteroidSize::Small),
            AsteroidSize::Small => None,
        }
    }

    /// How many more times an asteroid of this size can still split.
    pub open spec fn splits_left(self) -> nat {
        match self {
            AsteroidSize::Large => 2,
            AsteroidSize::Medium => 1,
            AsteroidSize::Small => 0,
        }
    }

    pub fn radius(self) -> (r: u32)
        ensures
            r == self.spec_radius(),
    {
        match self {
            AsteroidSize::Large => 47,
            AsteroidSize::Medium => 28,
            AsteroidSize::Small => 16,
        }
    }

    pub fn score(self) -> (s: u32)
        ensures
            s == self.spec_score(),
    {
        match self {
            AsteroidSize::Large => 20,
            AsteroidSize::Medium => 50,
            AsteroidSize::Small => 100,
        }
    }

    pub fn child(self) -> (c: Option<AsteroidSize>)
        ensures
            c == self.spec_child(),
    {
        match self {
            AsteroidSize::Large => Some(AsteroidSize::Medium),
            AsteroidSize::Medium => Some(AsteroidSize::Small),
            AsteroidSize::Small => None,
        }
    }
}

/// Splitting makes hazards smaller and more valuable: a fragment has a
/// strictly smaller radius and is worth strictly more points than its parent.
pub proof fn lemma_fragments_are_smaller_and_worth_more(size: AsteroidSize)
    ensures
        size.spec_child() matches Some(c) ==> c.spec_radius() < size.spec_radius()
            && c.spec_score() > size.spec_score(),
{
}

/// Every split uses up one of the finitely many splits an asteroid has: an
/// asteroid has a fragment size exactly when it can still split, and the
/// fragment can split one time fewer. Hence a large asteroid splits at most
/// twice along any line of descent, and the small size is the end.
pub proof fn lemma_splitting_terminates(size: AsteroidSize)
    ensures
        size.spec_child() is Some <==> size.splits_left() > 0,
        size.spec_child() matches Some(c) ==> c.splits_left() + 1 == size.splits_left(),
        size.splits_left() <= 2,
        size.spec_child() is None <==> size == AsteroidSize::Small,
{
}

} // verus!
