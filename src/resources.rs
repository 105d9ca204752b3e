use vstd::prelude::*;

verus! {

/// A logical input key. Only the four directions steer; every other key is
/// `Other` and is ignored.
#[derive(Clone, Copy, Debug, PartialEq, Eq, Structural)]
pub enum Key {
    Up,
    Down,
    Left,
    Right,
    Other,
}

/// The keys active during the current tick.
pub struct InputResource {
    pub keys: Vec<Key>,
}

impl InputResource {
    /// No key active.
    pub fn new() -> (r: InputResource)
        ensures
            r.keys@ == Seq::<Key>::empty(),
    {
        InputResource { keys: Vec::new() }
    }
}

} // verus!
