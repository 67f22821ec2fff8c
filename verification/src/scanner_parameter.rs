//! Configuration parameters of the scanner.
use vstd::prelude::*;

verus! {

/// Configuration parameter for the scanner
#[derive(Debug, Clone, PartialEq, Eq)]
pub struct ScannerParameter {
    /// The ID of the parameter.
    pub id: String,
    /// The value of the parameter.
    pub value: String,
}

impl ScannerParameter {
    /// The parameter as a pair of texts: its ID and its value.
    pub open spec fn view(&self) -> (Seq<char>, Seq<char>) {
        (self.id@, self.value@)
    }

    /// A parameter with the given ID and value.
    pub fn new(id: String, value: String) -> (r: Self)
        ensures
            r@ == (id@, value@),
    {
        ScannerParameter { id, value }
    }
}

} // verus!
