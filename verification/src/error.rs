//! The ways a watch can fail. None of them is retried.

use vstd::prelude::*;

verus! {

/// A fatal error of a watch. Cancellation is not among them: it is a clean end.
#[derive(Debug, PartialEq, Eq)]
pub enum WatchError {
    /// The backend could not be built, or a path could not be registered.
    /// `path` is the path that failed; `None` where no path was involved yet.
    Setup { path: Option<String>, message: String },
    /// The event source reported an error or its channel was disconnected.
    Channel { message: String },
    /// The callback signalled failure while an event was delivered to it.
    Callback { message: String },
}

/// The mathematical content of a [`WatchError`].
pub enum WatchErrorView {
    Setup { path: Option<Seq<char>>, message: Seq<char> },
    Channel { message: Seq<char> },
    Callback { message: Seq<char> },
}

impl View for WatchError {
    type V = WatchErrorView;

    open spec fn view(&self) -> WatchErrorView {
        match self {
            WatchError::Setup { path, message } => WatchErrorView::Setup {
                path: match path {
                    Some(p) => Some(p@),
                    None => None,
                },
                message: message@,
            },
            WatchError::Channel { message } => WatchErrorView::Channel { message: message@ },
            WatchError::Callback { message } => WatchErrorView::Callback { message: message@ },
        }
    }
}

impl WatchErrorView {
    /// The underlying failure text, unchanged.
    pub open spec fn message(self) -> Seq<char> {
        match self {
            WatchErrorView::Setup { message, .. } => message,
            WatchErrorView::Channel { message } => message,
            WatchErrorView::Callback { message } => message,
        }
    }
}

impl WatchError {
    /// The underlying failure text, unchanged.
    pub fn message(&self) -> (text: String)
        ensures
            text@ == self@.message(),
    {
        match self {
            WatchError::Setup { message, .. } => message.clone(),
            WatchError::Channel { message } => message.clone(),
            WatchError::Callback { message } => message.clone(),
        }
    }

    /// Whether the watch failed before its loop started.
    pub fn is_setup(&self) -> (b: bool)
        ensures
            b == (self@ is Setup),
    {
        match self {
            WatchError::Setup { .. } => true,
            _ => false,
        }
    }
}

impl Clone for WatchError {
    fn clone(&self) -> (error: WatchError)
        ensures
            error@ == self@,
    {
        match self {
            WatchError::Setup { path, message } => WatchError::Setup {
                path: match path {
                    Some(p) => Some(p.clone()),
                    None => None,
                },
                message: message.clone(),
            },
            WatchError::Channel { message } => WatchError::Channel { message: message.clone() },
            WatchError::Callback { message } => WatchError::Callback { message: message.clone() },
        }
    }
}

} // verus!
