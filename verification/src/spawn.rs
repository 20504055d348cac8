use vstd::prelude::*;

verus! {

/// Calls `macroquad::rand::gen_range` (macroquad re-exports
/// `quad_rand::gen_range`) at `usize`. That function takes the next 32-bit
/// number `u` of the global generator and returns
/// `low + (high - low) * (u / 2^32)`, computed in `f64` and truncated. For
/// `0 <= low < high <= 65536` the `f64` value lies in `[low, high)`, so the
/// result is an integer in `low .. high`; this is all that is stated. Which
/// number comes out depends on the generator's state and is left open.
#[verifier::external_body]
fn random_in(low: usize, high: usize) -> (r: usize)
    requires
        low < high <= 65536,
    ensures
        low <= r < high,
{
    macroquad::rand::gen_range::<usize>(low, high)
}

/// The screen edge just outside of which a new asteroid appears.
#[derive(Clone, Copy, PartialEq, Eq, Structural, Debug)]
pub enum Edge {
    Top,
    Right,
    Bottom,
    Left,
}

pub open spec fn spec_edge_from_roll(roll: usize) -> Edge {
    if roll == 0 {
        Edge::Top
    } else if roll == 1 {
        Edge::Right
    } else if roll == 2 {
        Edge::Bottom
    } else {
        Edge::Left
    }
}

/// The edge that a roll of a four-sided die selects.
pub fn edge_from_roll(roll: usize) -> (edge: Edge)
    ensures
        edge == spec_edge_from_roll(roll),
{
    if roll == 0 {
        Edge::Top
    } else if roll == 1 {
        Edge::Right
    } else if roll == 2 {
        Edge::Bottom
    } else {
        Edge::Left
    }
}

/// Picks the edge at which a new asteroid enters, uniformly at random among
/// the four: the edge is the one a roll in `0 .. 4` selects.
pub fn safe_edge_spawn() -> (edge: Edge)
    ensures
        exists|roll: usize| roll < 4 && edge == spec_edge_from_roll(roll),
{
    let roll = random_in(0, 4);
    edge_from_roll(roll)
}

/// How many vertices a new asteroid's outline gets: nine to thirteen.
pub fn outline_vertex_count() -> (n: usize)
    ensures
        9 <= n < 14,
{
    random_in(9, 14)
}

} // verus!
