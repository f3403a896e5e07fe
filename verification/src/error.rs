//! What can go wrong, and how it reads.
use vstd::prelude::*;

verus! {

/// Anything that can go wrong in the renderer.
#[derive(Debug)]
pub enum Error {
    /// The raw result code of a Vulkan call.
    Vulkan(i32),
    /// A rectangle, format or transform this renderer cannot express.
    Unsupported(String),
    /// Any other failure, as the text of its whole chain of causes.
    Other(String),
}

/// How `ash` describes a Vulkan result code.
pub uninterp spec fn result_text(code: i32) -> Seq<char>;

/// The description of a Vulkan result code.
///
/// Calls the `Display` form of `ash::vk::Result`, a fixed text for each code;
/// a code it has no sentence for comes out under its name or its number.
#[verifier::external_body]
fn describe_result(code: i32) -> (text: String)
    ensures
        text@ == result_text(code),
{
    ash::vk::Result::from_raw(code).to_string()
}

impl Error {
    /// What the error says.
    pub open spec fn text(self) -> Seq<char> {
        match self {
            Error::Vulkan(code) => result_text(code),
            Error::Unsupported(text) => text@,
            Error::Other(text) => text@,
        }
    }

    /// What the error says, as a string.
    pub fn message(&self) -> (message: String)
        ensures
            message@ == self.text(),
    {
        match self {
            Error::Vulkan(code) => describe_result(*code),
            Error::Unsupported(text) => text.clone(),
            Error::Other(text) => text.clone(),
        }
    }

    /// A failed Vulkan call: the name of the call, then why it failed.
    pub fn call(name: &str, code: i32) -> (error: Error)
        ensures
            error matches Error::Other(text) && text@ == call_failure(name@, code),
    {
        let cause = describe_result(code);
        Error::because(name, cause.as_str())
    }

    /// A failure with a cause: what was being done, then why it failed.
    pub fn because(context: &str, cause: &str) -> (error: Error)
        ensures
            error matches Error::Other(text) && text@ == caused(context@, cause@),
    {
        let mut text = String::new();
        text.append(context);
        text.append(": ");
        text.append(cause);
        proof {
            reveal_strlit(": ");
        }
        assert(text@ == caused(context@, cause@));
        Error::Other(text)
    }
}

/// A context and the cause behind it, as one line.
pub open spec fn caused(context: Seq<char>, cause: Seq<char>) -> Seq<char> {
    context + seq![':', ' '] + cause
}

/// The line for a Vulkan call that failed with `code`.
pub open spec fn call_failure(name: Seq<char>, code: i32) -> Seq<char> {
    caused(name, result_text(code))
}

} // verus!
