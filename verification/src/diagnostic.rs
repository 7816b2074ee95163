use vstd::prelude::*;

verus! {

/// A failure payload produced by the runtime API provider when registration
/// fails, and forwarded unmodified by the bridge to the host's
/// error-reporting channel.
#[derive(Debug, PartialEq, Eq)]
pub struct Diagnostic {
    message: String,
}

impl View for Diagnostic {
    type V = Seq<char>;

    closed spec fn view(&self) -> Seq<char> {
        self.message@
    }
}

impl Diagnostic {
    /// Wraps a provider-supplied message, unaltered.
    pub fn new(message: String) -> (r: Self)
        ensures
            r@ == message@,
    {
        Diagnostic { message }
    }

    /// The diagnostic's message, exactly as the provider attached it.
    pub fn message(&self) -> (r: &String)
        ensures
            r@ == self@,
    {
        &self.message
    }
}

} // verus!
