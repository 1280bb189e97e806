use vstd::prelude::*;

verus! {

/// What the host supplies to a game: a source of random numbers and a sink for
/// diagnostic messages.
pub trait SnakeProvider {
    /// A number in `0..size`.
    fn provide_random_number(&self, size: u32) -> (r: u32)
        requires
            size >= 1,
        ensures
            r < size,
    ;

    /// Receives a diagnostic message; nothing in the game depends on it.
    fn debug_log(&self, message: &str);
}

} // verus!
