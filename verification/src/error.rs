//! The errors and warnings that the parser reports.
use crate::token::LocationInfo;
use vstd::prelude::*;

verus! {

#[derive(Clone, Copy, Debug, PartialEq, Eq, Structural)]
pub enum ErrorType {
    UnexpectedTokenError,
    ExpectedExpressionError,
    UnMatchedParenError,
    MissingPaddingAroundOperatorError,
}

/// What an error of each type means, as its message starts.
pub open spec fn error_description(t: ErrorType) -> Seq<char> {
    match t {
        ErrorType::UnexpectedTokenError => "Unexpected token"@,
        ErrorType::ExpectedExpressionError => "Expected expression"@,
        ErrorType::UnMatchedParenError => "Un-matched parenthesis"@,
        ErrorType::MissingPaddingAroundOperatorError => "Missing whitespace around operator"@,
    }
}

impl ErrorType {
    pub fn description(&self) -> (r: &'static str)
        ensures
            r@ == error_description(*self),
    {
        match self {
            ErrorType::UnexpectedTokenError => "Unexpected token",
            ErrorType::ExpectedExpressionError => "Expected expression",
            ErrorType::UnMatchedParenError => "Un-matched parenthesis",
            ErrorType::MissingPaddingAroundOperatorError => "Missing whitespace around operator",
        }
    }
}

/// One line of a report: an optional text and the place it points at.
pub struct ErrorMessage {
    pub message: Option<String>,
    pub location_info: LocationInfo,
}

/// A message as text and place.
pub struct MessageView {
    pub text: Option<Seq<char>>,
    pub location: LocationInfo,
}

impl View for ErrorMessage {
    type V = MessageView;

    open spec fn view(&self) -> MessageView {
        MessageView {
            text: match self.message {
                Some(s) => Some(s@),
                None => None,
            },
            location: self.location_info,
        }
    }
}

impl ErrorMessage {
    pub fn new(message: Option<String>, location_info: &LocationInfo) -> (r: ErrorMessage)
        ensures
            r.message == message,
            r.location_info == *location_info,
    {
        ErrorMessage { message, location_info: *location_info }
    }
}

/// One reported error: its type, its messages and an optional hint.
pub struct ErrorReport {
    pub error_type: ErrorType,
    pub messages: Vec<ErrorMessage>,
    pub hint: Option<String>,
}

/// A report as values.
pub struct ReportView {
    pub error_type: ErrorType,
    pub messages: Seq<MessageView>,
    pub hint: Option<Seq<char>>,
}

/// The view of the messages of a report.
pub open spec fn messages_view(messages: Seq<ErrorMessage>) -> Seq<MessageView> {
    messages.map_values(|m: ErrorMessage| m@)
}

impl View for ErrorReport {
    type V = ReportView;

    open spec fn view(&self) -> ReportView {
        ReportView {
            error_type: self.error_type,
            messages: messages_view(self.messages@),
            hint: match self.hint {
                Some(s) => Some(s@),
                None => None,
            },
        }
    }
}

/// Collects the reports of a run, in the order they were made.
pub struct ErrorReporter {
    pub reports: Vec<ErrorReport>,
}

impl View for ErrorReporter {
    type V = Seq<ReportView>;

    open spec fn view(&self) -> Seq<ReportView> {
        self.reports@.map_values(|r: ErrorReport| r@)
    }
}

impl ErrorReporter {
    pub fn new() -> (r: ErrorReporter)
        ensures
            r@ == Seq::<ReportView>::empty(),
    {
        ErrorReporter { reports: Vec::new() }
    }

    /// Records one report after those made before.
    pub fn report(&mut self, error_type: ErrorType, messages: Vec<ErrorMessage>, hint: Option<String>)
        ensures
            final(self)@ == old(self)@.push(
                ReportView {
                    error_type,
                    messages: messages_view(messages@),
                    hint: match hint {
                        Some(s) => Some(s@),
                        None => None,
                    },
                },
            ),
    {
        let ghost before = self.reports@;
        let r = ErrorReport { error_type, messages, hint };
        self.reports.push(r);
        proof {
            assert(self.reports@.map_values(|r: ErrorReport| r@) =~= before.map_values(
                |r: ErrorReport| r@,
            ).push(r@));
        }
    }

    /// The number of reports made so far.
    pub fn len(&self) -> (r: usize)
        ensures
            r == self@.len(),
    {
        self.reports.len()
    }
}

} // verus!
