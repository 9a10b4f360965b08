use vstd::prelude::*;

verus! {

/// The state of a single grid cell: alive or dead.
/// A generation step replaces the whole value; `toggle` is only used
/// by interactive editing, independent of the step.
#[derive(Clone, Copy, Debug, PartialEq, Eq, Structural)]
pub struct CellState {
    pub is_alive: bool,
}

impl CellState {
    /// Flips the cell between alive and dead.
    pub fn toggle(&mut self)
        ensures
            final(self).is_alive == !old(self).is_alive,
    {
        self.is_alive = !self.is_alive;
    }
}

} // verus!
