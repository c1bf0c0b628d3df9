//! Errors of the web layer's own infrastructure.

use vstd::prelude::*;

use crate::text::push_str;

verus! {

/// A failure of the web framework.
#[derive(Clone, Debug, PartialEq)]
pub enum FrontendError {
    DioxusError(String),
}

impl FrontendError {
    /// The error's message.
    pub fn message(&self) -> (r: String)
        ensures
            match self {
                FrontendError::DioxusError(m) => r@ == "Dioxus error: "@ + m@,
            },
    {
        match self {
            FrontendError::DioxusError(m) => {
                let mut r = String::from_str("Dioxus error: ");
                push_str(&mut r, m.as_str());
                r
            },
        }
    }
}

} // verus!
