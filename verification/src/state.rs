//! The application-level payload the protocol transports: a list of 2D
//! positions, one per session.

use vstd::prelude::*;

verus! {

/// A snapshot of every session's position.
#[derive(Debug)]
pub struct State {
    points: Vec<(i32, i32)>,
}

impl State {
    /// Wraps a list of positions.
    pub fn new(points: Vec<(i32, i32)>) -> (r: State)
        ensures
            r@ == points@,
    {
        State { points }
    }

    /// The wrapped positions.
    pub fn points(&self) -> (r: &Vec<(i32, i32)>)
        ensures
            r@ == self@,
    {
        &self.points
    }
}

impl View for State {
    type V = Seq<(i32, i32)>;

    closed spec fn view(&self) -> Seq<(i32, i32)> {
        self.points@
    }
}

} // verus!
