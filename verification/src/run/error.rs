//! Errors of the runtime: a leaf that names what went wrong, or a link that
//! wraps a cause and adds a note, so that a failure reads from the top down.

use vstd::prelude::*;
use crate::build::symbol::Symbol;
use crate::text::{decimal, natural_text};

verus! {

/// What went wrong.
#[derive(Debug, Clone, Copy, PartialEq, Eq, Structural)]
pub enum ErrorKind {
    /// An ordinary symbol is bound nowhere along the chain of scopes.
    UndefinedSymbol,
    /// A mutable symbol is not bound in the scope that asks for it.
    UndefinedMutableSymbol,
    /// An ordinary symbol was assigned a second time in one scope.
    ImmutableMutation,
    /// A call supplied more arguments than the callable takes.
    TooManyArguments,
    /// A callable has neither a body nor a native implementation.
    ImpossibleCallable,
    /// An enclosing scope could not be reached.
    ParentAccess,
    /// A native routine was handed a value that it cannot work on.
    InvalidArgument,
}

#[derive(Debug)]
pub enum RunErrorStack {
    Top { kind: ErrorKind, src: Option<String>, msg: String },
    Stream { src: Option<String>, from: Box<RunErrorStack>, note: Option<String> },
}

/// An error with its texts as sequences of characters.
pub enum RunErrorView {
    Top { kind: ErrorKind, src: Option<Seq<char>>, msg: Seq<char> },
    Stream { src: Option<Seq<char>>, from: Box<RunErrorView>, note: Option<Seq<char>> },
}

pub open spec fn text_view(text: Option<String>) -> Option<Seq<char>> {
    match text {
        Some(s) => Some(s@),
        None => None,
    }
}

impl RunErrorStack {
    /// The error with its texts as sequences of characters.
    pub open spec fn model(self) -> RunErrorView
        decreases self,
    {
        match self {
            RunErrorStack::Top { kind, src, msg } => RunErrorView::Top {
                kind,
                src: text_view(src),
                msg: msg@,
            },
            RunErrorStack::Stream { src, from, note } => RunErrorView::Stream {
                src: text_view(src),
                from: Box::new(from.model()),
                note: text_view(note),
            },
        }
    }
}

impl View for RunErrorStack {
    type V = RunErrorView;

    open spec fn view(&self) -> RunErrorView {
        self.model()
    }
}

impl RunErrorView {
    /// The kind of the failure at the bottom of the chain of causes.
    pub open spec fn kind(self) -> ErrorKind
        decreases self,
    {
        match self {
            RunErrorView::Top { kind, .. } => kind,
            RunErrorView::Stream { from, .. } => from.kind(),
        }
    }
}

impl RunErrorView {
    /// The message of the failure at the bottom of the chain of causes.
    pub open spec fn message(self) -> Seq<char>
        decreases self,
    {
        match self {
            RunErrorView::Top { msg, .. } => msg,
            RunErrorView::Stream { from, .. } => from.message(),
        }
    }
}

/// The error for an ordinary symbol that is bound nowhere along the chain.
pub open spec fn undefined_symbol(name: Seq<char>) -> RunErrorView {
    RunErrorView::Top {
        kind: ErrorKind::UndefinedSymbol,
        src: Some(name),
        msg: "use of undefined symbol `"@ + name + "`"@,
    }
}

/// The error for a mutable symbol that the asking scope does not bind.
pub open spec fn undefined_mutable_symbol(name: Seq<char>) -> RunErrorView {
    RunErrorView::Top {
        kind: ErrorKind::UndefinedMutableSymbol,
        src: Some(name),
        msg: "use of undefined mutable symbol `"@ + name
            + "`. Mutable symbols are only accessible in the scope they were created"@,
    }
}

/// The error for a second assignment to an ordinary symbol in one scope.
pub open spec fn immutable_mutation(name: Seq<char>) -> RunErrorView {
    RunErrorView::Top {
        kind: ErrorKind::ImmutableMutation,
        src: Some(name),
        msg: "atempt to mutate immutable symbol `"@ + name
            + "`. If you need mutation, try creating `"@ + name + "'`"@,
    }
}

/// The error for a call with more arguments than the callable takes.
pub open spec fn too_many_arguments(expected: nat, got: nat) -> RunErrorView {
    RunErrorView::Top {
        kind: ErrorKind::TooManyArguments,
        src: None,
        msg: "Too many arguments provided to function call. Expected "@ + decimal(expected)
            + ", got "@ + decimal(got),
    }
}

/// The error for a callable with neither a body nor a native implementation.
pub open spec fn impossible_callable() -> RunErrorView {
    RunErrorView::Top {
        kind: ErrorKind::ImpossibleCallable,
        src: None,
        msg: "Impossible function with no body nor native definition"@,
    }
}

/// The error for an enclosing scope that could not be reached while `name`
/// was looked up; `cause` says why.
pub open spec fn parent_access(name: Seq<char>, cause: Seq<char>) -> RunErrorView {
    RunErrorView::Stream {
        src: Some(name),
        from: Box::new(
            RunErrorView::Top { kind: ErrorKind::ParentAccess, src: None, msg: cause },
        ),
        note: Some(
            "failed to access parent scope while tring to get the value of `"@ + name + "`"@,
        ),
    }
}

impl RunErrorStack {
    /// The kind of the failure at the bottom of the chain of causes.
    pub fn kind(&self) -> (kind: ErrorKind)
        ensures
            kind == self@.kind(),
        decreases self,
    {
        match self {
            RunErrorStack::Top { kind, .. } => *kind,
            RunErrorStack::Stream { from, .. } => from.kind(),
        }
    }

    /// The message of the failure at the bottom of the chain of causes.
    pub fn message(&self) -> (message: String)
        ensures
            message@ == self@.message(),
        decreases self,
    {
        match self {
            RunErrorStack::Top { msg, .. } => msg.clone(),
            RunErrorStack::Stream { from, .. } => from.message(),
        }
    }

    pub fn undefined_symbol(symbol: &Symbol) -> (error: RunErrorStack)
        ensures
            error@ == undefined_symbol(symbol@),
    {
        let msg = String::from_str("use of undefined symbol `").concat(symbol.as_str()).concat("`");
        RunErrorStack::Top { kind: ErrorKind::UndefinedSymbol, src: Some(symbol.to_string()), msg }
    }

    pub fn undefined_mutable_symbol(symbol: &Symbol) -> (error: RunErrorStack)
        ensures
            error@ == undefined_mutable_symbol(symbol@),
    {
        let msg = String::from_str("use of undefined mutable symbol `").concat(
            symbol.as_str(),
        ).concat("`. Mutable symbols are only accessible in the scope they were created");
        RunErrorStack::Top {
            kind: ErrorKind::UndefinedMutableSymbol,
            src: Some(symbol.to_string()),
            msg,
        }
    }

    pub fn immutable_mutation(symbol: &Symbol) -> (error: RunErrorStack)
        ensures
            error@ == immutable_mutation(symbol@),
    {
        let msg = String::from_str("atempt to mutate immutable symbol `").concat(
            symbol.as_str(),
        ).concat("`. If you need mutation, try creating `").concat(symbol.as_str()).concat("'`");
        RunErrorStack::Top { kind: ErrorKind::ImmutableMutation, src: Some(symbol.to_string()), msg }
    }

    pub fn too_many_arguments(expected: usize, got: usize) -> (error: RunErrorStack)
        ensures
            error@ == too_many_arguments(expected as nat, got as nat),
    {
        let expected_text = natural_text(expected as u64);
        let got_text = natural_text(got as u64);
        let msg = String::from_str("Too many arguments provided to function call. Expected ").concat(
            expected_text.as_str(),
        ).concat(", got ").concat(got_text.as_str());
        RunErrorStack::Top { kind: ErrorKind::TooManyArguments, src: None, msg }
    }

    pub fn impossible_callable() -> (error: RunErrorStack)
        ensures
            error@ == impossible_callable(),
    {
        RunErrorStack::Top {
            kind: ErrorKind::ImpossibleCallable,
            src: None,
            msg: String::from_str("Impossible function with no body nor native definition"),
        }
    }

    /// Wraps the reason why an enclosing scope could not be reached.
    pub fn parent_access(symbol: &Symbol, cause: String) -> (error: RunErrorStack)
        ensures
            error@ == parent_access(symbol@, cause@),
    {
        let note = String::from_str(
            "failed to access parent scope while tring to get the value of `",
        ).concat(symbol.as_str()).concat("`");
        let from = RunErrorStack::Top { kind: ErrorKind::ParentAccess, src: None, msg: cause };
        assert(from.model() == RunErrorView::Top {
            kind: ErrorKind::ParentAccess,
            src: None,
            msg: cause@,
        });
        RunErrorStack::Stream { src: Some(symbol.to_string()), from: Box::new(from), note: Some(note) }
    }
}

} // verus!
