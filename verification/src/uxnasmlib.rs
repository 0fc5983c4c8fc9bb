pub mod assembler;

use vstd::prelude::*;

verus! {

/// The command line of the assembler: the assembly file to read and the ROM file to write.
pub struct Cli {
    pub src_path: String,
    pub dst_path: String,
}

/// A file of the assembler that could not be opened: its name and what it was for.
#[derive(Debug)]
pub struct FileOpenError {
    pub fname: String,
    pub fdesc: String,
}

impl FileOpenError {
    /// Human readable description of the error.
    pub fn message(&self) -> (r: String)
        ensures
            r@ == "Error opening "@ + self.fdesc@ + " file: "@ + self.fname@,
    {
        String::from_str("Error opening ").concat(self.fdesc.as_str()).concat(" file: ").concat(self.fname.as_str())
    }
}

} // verus!
