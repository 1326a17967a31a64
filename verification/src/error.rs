//! Error reasons of the secret-value layer.
//!
//! Only the reason that belongs to this crate's own logic lives here.  The
//! surrounding loader wraps it into its richer error stack together with the
//! reasons of its other collaborators.
use vstd::prelude::*;

verus! {

/// Why a secret-value operation was refused.
#[derive(Clone, Debug, PartialEq)]
pub enum SecReason {
    SensitiveMsg(String),
}

impl SecReason {
    /// The reason rendered as text, as the loader displays it.
    pub fn message(&self) -> (r: String)
        ensures
            match self {
                SecReason::SensitiveMsg(m) => r@ == "sensivive msg "@ + m@,
            },
    {
        match self {
            SecReason::SensitiveMsg(m) => {
                let mut out = String::new();
                out.append("sensivive msg ");
                out.append(m.as_str());
                out
            },
        }
    }
}

} // verus!
