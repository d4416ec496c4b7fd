//! Opening the user's browser for web-based login, with a prompt to fall
//! back on for entering the resulting password.

use vstd::prelude::*;

verus! {

/// The system browser, with the prompt used when the password has to be typed.
pub struct SystemBrowser<P> {
    fallback_prompt: P,
}

impl<P> SystemBrowser<P> {
    /// The system browser falling back on `fallback_prompt`.
    pub fn new(fallback_prompt: P) -> (r: Self)
        ensures
            r.fallback_prompt_spec() == fallback_prompt,
    {
        SystemBrowser { fallback_prompt }
    }

    /// The prompt to fall back on.
    pub closed spec fn fallback_prompt_spec(&self) -> P {
        self.fallback_prompt
    }

    /// The prompt to fall back on.
    pub fn fallback_prompt(&self) -> (r: &P)
        ensures
            *r == self.fallback_prompt_spec(),
    {
        &self.fallback_prompt
    }
}

} // verus!
