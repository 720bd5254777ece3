//! The failures a module's slot can hold, and their displayable messages.

use vstd::prelude::*;
use vstd::string::StringExecFns;

use crate::ast::Diagnostic;
use crate::specifier::ModuleSpecifier;

verus! {

/// The opaque failure type the loader and resolver collaborators report.
#[verifier::external_type_specification]
#[verifier::external_body]
pub struct ExAnyhowError(anyhow::Error);

/// A failure recorded for one module.
#[derive(Debug)]
pub enum ModuleGraphError {
    /// The loader's fetch itself failed.
    LoadingErr(anyhow::Error),
    /// The source text would not parse; no dependency was extracted.
    ParseErr(Diagnostic),
    /// The source text does not match the integrity record; produced only by
    /// the post-build lock verification pass.
    InvalidSource(ModuleSpecifier),
}

/// Relies on anyhow::Error's Display implementation: renders the collaborator
/// failure's text.
#[verifier::external_body]
fn anyhow_text(err: &anyhow::Error) -> String {
    format!("{}", err)
}

impl ModuleGraphError {
    /// The displayable message for this error.
    pub fn to_text(&self) -> (r: String)
        ensures
            (self matches ModuleGraphError::LoadingErr(_) ==> exists|t: Seq<char>|
                r@ == "An error was returned from the loader: "@ + t),
            (self matches ModuleGraphError::ParseErr(d)
                ==> r@ == "The module's source code would not be parsed: "@ + d.message@),
            (self matches ModuleGraphError::InvalidSource(s)
                ==> r@
                == "The source code is invalid, as it does not match the expected hash in the lock file.\n  Specifier: "@
                + s.text@),
    {
        match self {
            ModuleGraphError::LoadingErr(err) => {
                let msg = anyhow_text(err);
                let r = String::from_str("An error was returned from the loader: ").concat(
                    msg.as_str(),
                );
                proof {
                    assert(r@ == "An error was returned from the loader: "@ + msg@);
                }
                r
            },
            ModuleGraphError::ParseErr(diagnostic) => String::from_str(
                "The module's source code would not be parsed: ",
            ).concat(diagnostic.message.as_str()),
            ModuleGraphError::InvalidSource(specifier) => String::from_str(
                "The source code is invalid, as it does not match the expected hash in the lock file.\n  Specifier: ",
            ).concat(specifier.text.as_str()),
        }
    }
}

impl From<Diagnostic> for ModuleGraphError {
    fn from(diagnostic: Diagnostic) -> (r: Self) {
        ModuleGraphError::ParseErr(diagnostic)
    }
}

impl vstd::std_specs::convert::FromSpecImpl<Diagnostic> for ModuleGraphError {
    open spec fn obeys_from_spec() -> bool {
        true
    }

    open spec fn from_spec(diagnostic: Diagnostic) -> Self {
        ModuleGraphError::ParseErr(diagnostic)
    }
}

} // verus!
