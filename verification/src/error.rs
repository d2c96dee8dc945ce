//! The error type of the library.
use vstd::prelude::*;

verus! {

/// What can go wrong in a call of this library.
#[derive(Debug)]
pub enum FoundryLocalError {
    /// The native core library could not be found or loaded.
    LibraryLoad { reason: String },
    /// A command to the native core failed or could not be carried out.
    CommandExecution { reason: String },
    /// A call is not allowed in the present state.
    Validation { reason: String },
    /// The state of the library is inconsistent.
    Internal { reason: String },
    /// JSON could not be read or written.
    Serialization(serde_json::Error),
}

/// The kind of an error together with the text it gives as its reason.
pub enum ErrorView {
    LibraryLoad(Seq<char>),
    CommandExecution(Seq<char>),
    Validation(Seq<char>),
    Internal(Seq<char>),
    Serialization(serde_json::Error),
}

impl View for FoundryLocalError {
    type V = ErrorView;

    open spec fn view(&self) -> ErrorView {
        match *self {
            FoundryLocalError::LibraryLoad { reason } => ErrorView::LibraryLoad(reason@),
            FoundryLocalError::CommandExecution { reason } => ErrorView::CommandExecution(reason@),
            FoundryLocalError::Validation { reason } => ErrorView::Validation(reason@),
            FoundryLocalError::Internal { reason } => ErrorView::Internal(reason@),
            FoundryLocalError::Serialization(error) => ErrorView::Serialization(error),
        }
    }
}

/// The view of a result: its text, or what its error says.
pub open spec fn result_view(res: Result<String, FoundryLocalError>) -> Result<
    Seq<char>,
    ErrorView,
> {
    match res {
        Ok(text) => Ok(text@),
        Err(error) => Err(error@),
    }
}

/// The view of a result without a value.
pub open spec fn unit_view(res: Result<(), FoundryLocalError>) -> Result<(), ErrorView> {
    match res {
        Ok(_) => Ok(()),
        Err(error) => Err(error@),
    }
}

impl From<serde_json::Error> for FoundryLocalError {
    fn from(error: serde_json::Error) -> (res: Self) {
        FoundryLocalError::Serialization(error)
    }
}

impl vstd::std_specs::convert::FromSpecImpl<serde_json::Error> for FoundryLocalError {
    open spec fn obeys_from_spec() -> bool {
        true
    }

    open spec fn from_spec(error: serde_json::Error) -> Self {
        FoundryLocalError::Serialization(error)
    }
}

/// A [`FoundryLocalError::LibraryLoad`] whose reason is `what` followed by `cause`.
pub(crate) fn library_load(what: &str, cause: &str) -> (res: FoundryLocalError)
    ensures
        res@ == ErrorView::LibraryLoad(what@ + cause@),
{
    let mut reason = what.to_owned();
    reason.append(cause);
    FoundryLocalError::LibraryLoad { reason }
}

/// A [`FoundryLocalError::CommandExecution`] whose reason is `what` followed by `cause`.
pub(crate) fn command_execution(what: &str, cause: &str) -> (res: FoundryLocalError)
    ensures
        res@ == ErrorView::CommandExecution(what@ + cause@),
{
    let mut reason = what.to_owned();
    reason.append(cause);
    FoundryLocalError::CommandExecution { reason }
}

/// An error shows its own kind and the whole of its reason, and a result shows its text or
/// its error. So two errors of the same view have the same kind and reason.
pub proof fn law_errors_show_kind_and_reason(
    reason: String,
    cause: serde_json::Error,
    failure: FoundryLocalError,
)
    ensures
        (FoundryLocalError::LibraryLoad { reason })@ == ErrorView::LibraryLoad(reason@),
        (FoundryLocalError::CommandExecution { reason })@ == ErrorView::CommandExecution(reason@),
        (FoundryLocalError::Validation { reason })@ == ErrorView::Validation(reason@),
        (FoundryLocalError::Internal { reason })@ == ErrorView::Internal(reason@),
        FoundryLocalError::Serialization(cause)@ == ErrorView::Serialization(cause),
        result_view(Ok(reason)) == Ok::<Seq<char>, ErrorView>(reason@),
        result_view(Err(failure)) == Err::<Seq<char>, ErrorView>(failure@),
        unit_view(Ok(())) == Ok::<(), ErrorView>(()),
        unit_view(Err(failure)) == Err::<(), ErrorView>(failure@),
{
}

} // verus!
