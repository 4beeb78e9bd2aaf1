//! Errors of the build: a leaf that names what is wrong with a form, or a link
//! that wraps a cause and adds a note.

use vstd::prelude::*;
use crate::build::symbol::Symbol;

verus! {

/// What is wrong with a form.
#[derive(Debug, Clone, Copy, PartialEq, Eq, Structural)]
pub enum BuildErrorKind {
    /// An ordinary symbol is declared in no scope around its use.
    UndefinedSymbol,
    /// A mutable symbol is not declared in the scope of its use.
    UndefinedMutableSymbol,
    /// An ordinary symbol is declared a second time in one scope.
    ImmutableMutation,
}

#[derive(Debug)]
pub enum BuildErrorStack {
    Top { kind: BuildErrorKind, src: Option<String>, msg: String },
    Stream { src: Option<String>, from: Box<BuildErrorStack>, note: Option<String> },
}

pub type BuildResult<T> = Result<T, BuildErrorStack>;

/// A build error with its texts as sequences of characters.
pub enum BuildErrorView {
    Top { kind: BuildErrorKind, src: Option<Seq<char>>, msg: Seq<char> },
    Stream { src: Option<Seq<char>>, from: Box<BuildErrorView>, note: Option<Seq<char>> },
}

pub open spec fn text_of(text: Option<String>) -> Option<Seq<char>> {
    match text {
        Some(s) => Some(s@),
        None => None,
    }
}

/// The error for a use of an ordinary symbol that no scope around declares.
pub open spec fn undeclared_symbol(name: Seq<char>) -> BuildErrorView {
    BuildErrorView::Top {
        kind: BuildErrorKind::UndefinedSymbol,
        src: Some(name),
        msg: "use of undefined symbol `"@ + name + "`"@,
    }
}

/// The error for a use of a mutable symbol that its own scope does not declare.
pub open spec fn undeclared_mutable_symbol(name: Seq<char>) -> BuildErrorView {
    BuildErrorView::Top {
        kind: BuildErrorKind::UndefinedMutableSymbol,
        src: Some(name),
        msg: "use of undefined mutable symbol `"@ + name
            + "`. Mutable symbols are only accessible in the scope they were created"@,
    }
}

/// The error for a second declaration of an ordinary symbol in one scope.
pub open spec fn redeclared_symbol(name: Seq<char>) -> BuildErrorView {
    BuildErrorView::Top {
        kind: BuildErrorKind::ImmutableMutation,
        src: Some(name),
        msg: "atempt to mutate immutable symbol `"@ + name
            + "`. If you need mutation, try creating `"@ + name + "'`"@,
    }
}

impl BuildErrorView {
    /// The kind of the failure at the bottom of the chain of causes.
    pub open spec fn kind(self) -> BuildErrorKind
        decreases self,
    {
        match self {
            BuildErrorView::Top { kind, .. } => kind,
            BuildErrorView::Stream { from, .. } => from.kind(),
        }
    }
}

impl BuildErrorStack {
    /// The error with its texts as sequences of characters.
    pub open spec fn model(self) -> BuildErrorView
        decreases self,
    {
        match self {
            BuildErrorStack::Top { kind, src, msg } => BuildErrorView::Top {
                kind,
                src: text_of(src),
                msg: msg@,
            },
            BuildErrorStack::Stream { src, from, note } => BuildErrorView::Stream {
                src: text_of(src),
                from: Box::new(from.model()),
                note: text_of(note),
            },
        }
    }

    /// The kind of the failure at the bottom of the chain of causes.
    pub fn kind(&self) -> (kind: BuildErrorKind)
        ensures
            kind == self@.kind(),
        decreases self,
    {
        match self {
            BuildErrorStack::Top { kind, .. } => *kind,
            BuildErrorStack::Stream { from, .. } => from.kind(),
        }
    }

    pub fn undeclared_symbol(symbol: &Symbol) -> (error: BuildErrorStack)
        ensures
            error@ == undeclared_symbol(symbol@),
    {
        let msg = String::from_str("use of undefined symbol `").concat(symbol.as_str()).concat("`");
        BuildErrorStack::Top {
            kind: BuildErrorKind::UndefinedSymbol,
            src: Some(symbol.to_string()),
            msg,
        }
    }

    pub fn undeclared_mutable_symbol(symbol: &Symbol) -> (error: BuildErrorStack)
        ensures
            error@ == undeclared_mutable_symbol(symbol@),
    {
        let msg = String::from_str("use of undefined mutable symbol `").concat(
            symbol.as_str(),
        ).concat("`. Mutable symbols are only accessible in the scope they were created");
        BuildErrorStack::Top {
            kind: BuildErrorKind::UndefinedMutableSymbol,
            src: Some(symbol.to_string()),
            msg,
        }
    }

    pub fn redeclared_symbol(symbol: &Symbol) -> (error: BuildErrorStack)
        ensures
            error@ == redeclared_symbol(symbol@),
    {
        let msg = String::from_str("atempt to mutate immutable symbol `").concat(
            symbol.as_str(),
        ).concat("`. If you need mutation, try creating `").concat(symbol.as_str()).concat("'`");
        BuildErrorStack::Top {
            kind: BuildErrorKind::ImmutableMutation,
            src: Some(symbol.to_string()),
            msg,
        }
    }
}

impl View for BuildErrorStack {
    type V = BuildErrorView;

    open spec fn view(&self) -> BuildErrorView {
        self.model()
    }
}

} // verus!
