//! The diagnostics that the stages report.
use vstd::prelude::*;
use crate::text::{decimal, push_decimal};

verus! {

/// A diagnostic of one of the stages.
#[derive(Debug, Clone, PartialEq)]
pub enum CompilerError {
    /// A lexical diagnostic, with the 1-based position of the character it is about.
    LexError { message: String, line: usize, column: usize },
    /// A structural diagnostic of the parser.
    ParseError { message: String },
    /// A construct that a stage recognises and cannot handle.
    Unsupported { message: String },
}

/// The mathematical value of a [`CompilerError`].
pub enum CompilerErrorView {
    LexError { message: Seq<char>, line: usize, column: usize },
    ParseError { message: Seq<char> },
    Unsupported { message: Seq<char> },
}

impl CompilerErrorView {
    /// The line that reports the diagnostic to a user.
    pub open spec fn text(self) -> Seq<char> {
        match self {
            CompilerErrorView::LexError { message, line, column } => "["@ + decimal(line as nat)
                + ":"@ + decimal(column as nat) + "] Error: "@ + message,
            CompilerErrorView::ParseError { message } => message,
            CompilerErrorView::Unsupported { message } => "unsupported construct: "@ + message,
        }
    }
}

impl CompilerErrorView {
    /// The diagnostic with the name of the function it was found in put before
    /// the message of an unsupported construct; other diagnostics stay as they are.
    pub open spec fn within(self, function: Seq<char>) -> CompilerErrorView {
        match self {
            CompilerErrorView::Unsupported { message } => unsupported_in(function, message),
            other => other,
        }
    }
}

impl View for CompilerError {
    type V = CompilerErrorView;

    open spec fn view(&self) -> CompilerErrorView {
        match self {
            CompilerError::LexError { message, line, column } => CompilerErrorView::LexError {
                message: message@,
                line: *line,
                column: *column,
            },
            CompilerError::ParseError { message } => CompilerErrorView::ParseError {
                message: message@,
            },
            CompilerError::Unsupported { message } => CompilerErrorView::Unsupported {
                message: message@,
            },
        }
    }
}

impl DeepView for CompilerError {
    type V = CompilerErrorView;

    open spec fn deep_view(&self) -> CompilerErrorView {
        self@
    }
}

impl CompilerError {
    /// The line that reports the diagnostic to a user.
    pub fn to_string(&self) -> (out: String)
        ensures
            out@ == self@.text(),
    {
        match self {
            CompilerError::LexError { message, line, column } => {
                let mut out = String::new();
                out.append("[");
                push_decimal(&mut out, *line as u64);
                out.append(":");
                push_decimal(&mut out, *column as u64);
                out.append("] Error: ");
                out.append(message.as_str());
                out
            },
            CompilerError::ParseError { message } => message.clone(),
            CompilerError::Unsupported { message } => {
                let mut out = String::new();
                out.append("unsupported construct: ");
                out.append(message.as_str());
                out
            },
        }
    }

    /// A copy of the diagnostic.
    pub fn duplicate(&self) -> (copy: CompilerError)
        ensures
            copy == *self,
    {
        match self {
            CompilerError::LexError { message, line, column } => CompilerError::LexError {
                message: message.clone(),
                line: *line,
                column: *column,
            },
            CompilerError::ParseError { message } => CompilerError::ParseError {
                message: message.clone(),
            },
            CompilerError::Unsupported { message } => CompilerError::Unsupported {
                message: message.clone(),
            },
        }
    }

    /// Whether two diagnostics have the same value.
    pub fn same_as(&self, other: &CompilerError) -> (same: bool)
        ensures
            same == (self@ == other@),
    {
        match self {
            CompilerError::LexError { message, line, column } => match other {
                CompilerError::LexError { message: m, line: l, column: c } => *message == *m
                    && *line == *l && *column == *c,
                _ => false,
            },
            CompilerError::ParseError { message } => match other {
                CompilerError::ParseError { message: m } => *message == *m,
                _ => false,
            },
            CompilerError::Unsupported { message } => match other {
                CompilerError::Unsupported { message: m } => *message == *m,
                _ => false,
            },
        }
    }

    /// An unsupported-construct diagnostic with the given message.
    pub fn unsupported_construct(what: &str) -> (e: CompilerError)
        ensures
            e@ == (CompilerErrorView::Unsupported { message: what@ }),
    {
        CompilerError::Unsupported { message: String::from_str(what) }
    }

    /// Puts the name of the function it was found in before the message of an
    /// unsupported construct; other diagnostics stay as they are.
    pub fn within(self, function: &str) -> (e: CompilerError)
        ensures
            e@ == self@.within(function@),
    {
        match self {
            CompilerError::Unsupported { message } => CompilerError::unsupported(
                function,
                message.as_str(),
            ),
            other => other,
        }
    }

    /// An unsupported-construct diagnostic whose message names the function it was found in.
    pub fn unsupported(function: &str, what: &str) -> (e: CompilerError)
        ensures
            e@ == unsupported_in(function@, what@),
    {
        let mut text = String::new();
        text.append(function);
        text.append(": ");
        text.append(what);
        CompilerError::Unsupported { message: text }
    }

    /// An unsupported-construct diagnostic whose message ends in the position
    /// of the construct in the source.
    pub fn unsupported_at(what: &str, position: usize) -> (e: CompilerError)
        ensures
            e@ == unsupported_at(what@, position as nat),
    {
        let mut text = String::new();
        text.append(what);
        text.append(" at offset ");
        push_decimal(&mut text, position as u64);
        CompilerError::Unsupported { message: text }
    }
}

/// The diagnostic for a construct found in the named function.
pub open spec fn unsupported_in(function: Seq<char>, what: Seq<char>) -> CompilerErrorView {
    CompilerErrorView::Unsupported { message: function + ": "@ + what }
}

/// The diagnostic for a construct found at a position of the source.
pub open spec fn unsupported_at(what: Seq<char>, position: nat) -> CompilerErrorView {
    CompilerErrorView::Unsupported { message: what + " at offset "@ + decimal(position) }
}

} // verus!
