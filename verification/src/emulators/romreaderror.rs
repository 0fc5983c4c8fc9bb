use vstd::prelude::*;

verus! {

/// A ROM file that could not be opened.
#[derive(Debug)]
pub struct RomReadError {
    pub fname: String,
}

impl RomReadError {
    /// Human readable description of the error.
    pub fn message(&self) -> (r: String)
        ensures
            r@ == "Error opening ROM: "@ + self.fname@,
    {
        String::from_str("Error opening ROM: ").concat(self.fname.as_str())
    }
}

} // verus!
