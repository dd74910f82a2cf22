use vstd::prelude::*;
use crate::file::identifier::Namespace;
use crate::file::trace::{Trace, TraceView};

verus! {

pub type CompilerResult<T> = Result<T, CompilerError>;

/// The ways in which a program can fail to be valid.
#[derive(Debug)]
pub enum CompilerError {
    UnknownNamespace(Namespace, Trace),
    DuplicateNamespace(Namespace),
}

/// The mathematical value of a `CompilerError`.
pub enum CompilerErrorView {
    UnknownNamespace(Seq<Seq<char>>, TraceView),
    DuplicateNamespace(Seq<Seq<char>>),
}

impl CompilerErrorView {
    /// The place in the source that the failure is about, where it is about one.
    pub open spec fn trace(self) -> Option<TraceView> {
        match self {
            CompilerErrorView::UnknownNamespace(_, trace) => Some(trace),
            CompilerErrorView::DuplicateNamespace(_) => None,
        }
    }
}

impl View for CompilerError {
    type V = CompilerErrorView;

    open spec fn view(&self) -> CompilerErrorView {
        match self {
            CompilerError::UnknownNamespace(namespace, trace) => CompilerErrorView::UnknownNamespace(
                namespace@,
                trace@,
            ),
            CompilerError::DuplicateNamespace(namespace) => CompilerErrorView::DuplicateNamespace(
                namespace@,
            ),
        }
    }
}

impl CompilerError {
    /// The place in the source that the failure is about, where it is about one.
    pub fn trace(&self) -> (r: Option<&Trace>)
        ensures
            match r {
                Some(trace) => self@.trace() == Some(trace@),
                None => self@.trace() is None,
            },
    {
        match self {
            CompilerError::UnknownNamespace(_, trace) => Some(trace),
            CompilerError::DuplicateNamespace(_) => None,
        }
    }
}

} // verus!
