//! The ways in which a call of the engine can fail.
use vstd::prelude::*;
use vstd::string::StringExecFns;

verus! {

/// Why a call failed. Every failure leaves the engine as it was before the
/// call.
#[derive(Debug, PartialEq, Eq)]
pub enum Failure {
    /// The text of a key names no key.
    InvalidKeyEncoding,
    /// The text of a key state is neither `"keydown"` nor `"keyup"`; holds
    /// that text.
    InvalidStateEncoding(String),
    /// A match table has an entry that can never be typed, or two entries
    /// for one sequence.
    InvalidTable,
    /// A dictionary lists one input twice.
    InvalidDictionaryShape,
    /// The source of a rule does not compile; holds the rule's name and the
    /// compiler's words.
    RuleCompileFailure(String, String),
    /// A registered rule failed while it ran; holds the rule's name and the
    /// interpreter's words.
    RuleRuntimeFailure(String, String),
    /// A configuration document is not valid TOML; holds the parser's words.
    InvalidDocument(String),
}

/// The mathematical value of an `Failure`.
pub enum FailureView {
    InvalidKeyEncoding,
    InvalidStateEncoding(Seq<char>),
    InvalidTable,
    InvalidDictionaryShape,
    RuleCompileFailure(Seq<char>, Seq<char>),
    RuleRuntimeFailure(Seq<char>, Seq<char>),
    InvalidDocument(Seq<char>),
}

impl View for Failure {
    type V = FailureView;

    open spec fn view(&self) -> FailureView {
        match self {
            Failure::InvalidKeyEncoding => FailureView::InvalidKeyEncoding,
            Failure::InvalidStateEncoding(state) => FailureView::InvalidStateEncoding(state@),
            Failure::InvalidTable => FailureView::InvalidTable,
            Failure::InvalidDictionaryShape => FailureView::InvalidDictionaryShape,
            Failure::RuleCompileFailure(name, cause) => FailureView::RuleCompileFailure(
                name@,
                cause@,
            ),
            Failure::RuleRuntimeFailure(name, cause) => FailureView::RuleRuntimeFailure(
                name@,
                cause@,
            ),
            Failure::InvalidDocument(cause) => FailureView::InvalidDocument(cause@),
        }
    }
}

/// The text that a host shows for an error: the component in square
/// brackets, what went wrong and, where there is one, the cause on a line of
/// its own.
pub open spec fn message_of(e: FailureView) -> Seq<char> {
    match e {
        FailureView::InvalidKeyEncoding =>
            "[preprocessor] Unrecognized key.\nCaused by:\n\tUnrecognized key."@,
        FailureView::InvalidStateEncoding(state) => "[preprocessor] Unrecognized state `"@ + state
            + "`."@,
        FailureView::InvalidTable => "[preprocessor] Invalid data."@,
        FailureView::InvalidDictionaryShape => "[translator] Invalid dictionary."@,
        FailureView::RuleCompileFailure(name, cause) =>
            "[translator] Failed to register the translator `"@ + name + "`.\nCaused by:\n\t"@
                + cause + "."@,
        FailureView::RuleRuntimeFailure(name, cause) =>
            "[translator] Failed to run the translator `"@ + name + "`.\nCaused by:\n\t"@
                + cause + "."@,
        FailureView::InvalidDocument(cause) => "Invalid toml data.\nCaused by:\n\t"@ + cause
            + "."@,
    }
}

impl Failure {
    /// The text of `message_of` for this error.
    pub fn message(&self) -> (text: String)
        ensures
            text@ == message_of(self@),
    {
        match self {
            Failure::InvalidKeyEncoding => String::from_str(
                "[preprocessor] Unrecognized key.\nCaused by:\n\tUnrecognized key.",
            ),
            Failure::InvalidStateEncoding(state) => {
                let mut text = String::from_str("[preprocessor] Unrecognized state `");
                text.append(state.as_str());
                text.append("`.");
                text
            },
            Failure::InvalidTable => String::from_str("[preprocessor] Invalid data."),
            Failure::InvalidDictionaryShape => String::from_str("[translator] Invalid dictionary."),
            Failure::RuleCompileFailure(name, cause) => {
                let mut text = String::from_str(
                    "[translator] Failed to register the translator `",
                );
                text.append(name.as_str());
                text.append("`.\nCaused by:\n\t");
                text.append(cause.as_str());
                text.append(".");
                text
            },
            Failure::RuleRuntimeFailure(name, cause) => {
                let mut text = String::from_str("[translator] Failed to run the translator `");
                text.append(name.as_str());
                text.append("`.\nCaused by:\n\t");
                text.append(cause.as_str());
                text.append(".");
                text
            },
            Failure::InvalidDocument(cause) => {
                let mut text = String::from_str("Invalid toml data.\nCaused by:\n\t");
                text.append(cause.as_str());
                text.append(".");
                text
            },
        }
    }
}

} // verus!
