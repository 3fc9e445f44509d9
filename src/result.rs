//! The three-field outcome record offered to hosts; no conversion produces it.
use vstd::prelude::*;

verus! {

/// The outcome of a conversion: a success flag, the output (empty on failure) and
/// an error message (present only on failure).
pub struct ConversionResult {
    success: bool,
    output: String,
    error: Option<String>,
}

impl ConversionResult {
    pub closed spec fn success_spec(&self) -> bool {
        self.success
    }

    pub closed spec fn output_spec(&self) -> Seq<char> {
        self.output@
    }

    pub closed spec fn error_spec(&self) -> Option<Seq<char>> {
        match self.error {
            Some(e) => Some(e@),
            None => None,
        }
    }

    pub fn success(&self) -> (r: bool)
        ensures
            r == self.success_spec(),
    {
        self.success
    }

    pub fn output(&self) -> (r: String)
        ensures
            r@ == self.output_spec(),
    {
        self.output.clone()
    }

    pub fn error(&self) -> (r: Option<String>)
        ensures
            r matches Some(e) ==> self.error_spec() == Some(e@),
            r is None ==> self.error_spec() is None,
    {
        match &self.error {
            Some(e) => Some(e.clone()),
            None => None,
        }
    }
}

} // verus!
