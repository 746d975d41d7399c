//! The runtime of a dialect: the fixed text that every program generated in the dialect
//! is put behind.
use vstd::prelude::*;
use crate::text::chars_of;

verus! {

/// The least number of characters a runtime has.
pub open spec fn least_runtime() -> nat {
    500
}

/// The text of the runtime of a dialect. No runtime has fewer than 500 characters.
pub struct Runtime {
    text: String,
}

impl Runtime {
    #[verifier::type_invariant]
    closed spec fn long_enough(self) -> bool {
        self.text@.len() >= least_runtime()
    }

    /// The text.
    pub closed spec fn view(&self) -> Seq<char> {
        self.text@
    }

    /// The runtime with the given text, if the text has the length of a runtime.
    pub fn new(text: String) -> (r: Option<Runtime>)
        ensures
            match r {
                Some(runtime) => runtime@ == text@ && text@.len() >= least_runtime(),
                None => text@.len() < least_runtime(),
            },
    {
        let chars = chars_of(text.as_str());
        if chars.len() >= 500 {
            Some(Runtime { text })
        } else {
            None
        }
    }

    /// The text of the runtime.
    pub fn text(&self) -> (r: &str)
        ensures
            r@ == self@,
            r@.len() >= least_runtime(),
    {
        proof {
            use_type_invariant(self);
        }
        self.text.as_str()
    }
}

} // verus!
