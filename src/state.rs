//! The current debugging context.

use vstd::prelude::*;

verus! {

/// Records the function at which execution is paused, if any.
pub struct DebugState {
    current_function: Option<String>,
}

impl DebugState {
    pub closed spec fn current(&self) -> Option<Seq<char>> {
        match self.current_function {
            Some(f) => Some(f@),
            None => None,
        }
    }

    /// A state with no paused function.
    pub fn new() -> (r: DebugState)
        ensures
            r.current() is None,
    {
        DebugState { current_function: None }
    }

    /// Records `name` as the paused function, replacing any earlier one.
    pub fn set_current_function(&mut self, name: String)
        ensures
            final(self).current() == Some(name@),
    {
        self.current_function = Some(name);
    }

    /// The paused function, if any.
    pub fn current_function(&self) -> (r: Option<&String>)
        ensures
            match r {
                Some(f) => self.current() == Some(f@),
                None => self.current() is None,
            },
    {
        match &self.current_function {
            Some(f) => Some(f),
            None => None,
        }
    }
}

} // verus!
