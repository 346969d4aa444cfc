//! Decoding failures: what went wrong, and where in the document.

use vstd::prelude::*;

verus! {

/// The reason a line could not be decoded into a record.
#[derive(Clone, Copy, PartialEq, Eq, Debug)]
pub enum ErrorKind {
    /// The text is not well-formed JSON.
    Syntax,
    /// A value has the wrong shape for the field it is bound to.
    SchemaMismatch,
    /// A field that every record must carry is absent.
    MissingRequiredField,
    /// No variant of a sum type matches the value.
    UnrecognizedVariant,
    /// A text field holds an escape sequence, so that its value is not a
    /// slice of the input.
    UnsupportedEscape,
    /// An integer does not fit the width that the field declares.
    NumericOverflow,
}

impl ErrorKind {
    /// The cause in words, as [`ErrorKind::cause`] gives it.
    pub open spec fn cause_text(self) -> Seq<char> {
        match self {
            ErrorKind::Syntax => "the line is not well-formed JSON"@,
            ErrorKind::SchemaMismatch => "the value has the wrong type"@,
            ErrorKind::MissingRequiredField => "the field is missing"@,
            ErrorKind::UnrecognizedVariant => "the value matches no known variant"@,
            ErrorKind::UnsupportedEscape => "the text holds an escape sequence and cannot be borrowed"@,
            ErrorKind::NumericOverflow => "the number does not fit the field"@,
        }
    }

    /// The cause in words, for a person to read.
    pub fn cause(self) -> (s: &'static str)
        ensures
            s@ == self.cause_text(),
    {
        match self {
            ErrorKind::Syntax => "the line is not well-formed JSON",
            ErrorKind::SchemaMismatch => "the value has the wrong type",
            ErrorKind::MissingRequiredField => "the field is missing",
            ErrorKind::UnrecognizedVariant => "the value matches no known variant",
            ErrorKind::UnsupportedEscape => "the text holds an escape sequence and cannot be borrowed",
            ErrorKind::NumericOverflow => "the number does not fit the field",
        }
    }
}

/// One step on the way from the root of a document down to a value.
#[derive(Clone, PartialEq, Eq, Debug)]
pub enum Step {
    /// Into the member of an object with this name.
    Field(String),
    /// Into the element of an array at this position.
    Index(usize),
}

/// The mathematical value of a [`Step`].
pub enum StepView {
    Field(Seq<char>),
    Index(nat),
}

impl DeepView for Step {
    type V = StepView;

    open spec fn deep_view(&self) -> StepView {
        match self {
            Step::Field(name) => StepView::Field(name@),
            Step::Index(i) => StepView::Index(*i as nat),
        }
    }
}

/// A decoding failure: its kind, and the path from the root of the document
/// to the offending value, outermost step first.
#[derive(Clone, PartialEq, Eq, Debug)]
pub struct DecodeError {
    pub kind: ErrorKind,
    pub path: Vec<Step>,
}

/// The mathematical value of a [`DecodeError`].
pub struct DecodeErrorView {
    pub kind: ErrorKind,
    pub path: Seq<StepView>,
}

impl DecodeErrorView {
    /// A failure at the value under consideration itself.
    pub open spec fn here(kind: ErrorKind) -> DecodeErrorView {
        DecodeErrorView { kind, path: Seq::empty() }
    }

    /// The same failure, seen from one step further out.
    pub open spec fn within(self, step: StepView) -> DecodeErrorView {
        DecodeErrorView { kind: self.kind, path: self.path.insert(0, step) }
    }

    /// The failure for an absent member called `name`.
    pub open spec fn missing(name: Seq<char>) -> DecodeErrorView {
        DecodeErrorView::here(ErrorKind::MissingRequiredField).within(StepView::Field(name))
    }
}

impl DeepView for DecodeError {
    type V = DecodeErrorView;

    open spec fn deep_view(&self) -> DecodeErrorView {
        DecodeErrorView { kind: self.kind, path: self.path.deep_view() }
    }
}

impl DecodeError {
    /// A failure of the given kind at the value under consideration itself.
    pub fn here(kind: ErrorKind) -> (e: DecodeError)
        ensures
            e.deep_view() == DecodeErrorView::here(kind),
    {
        let e = DecodeError { kind, path: Vec::new() };
        proof {
            assert(e.path.deep_view() =~= Seq::<StepView>::empty());
        }
        e
    }

    /// The same failure, seen from one step further out.
    pub fn within(self, step: Step) -> (e: DecodeError)
        ensures
            e.deep_view() == self.deep_view().within(step.deep_view()),
    {
        let ghost inner = self.path.deep_view();
        let ghost outer = step.deep_view();
        let kind = self.kind;
        let mut path = self.path;
        path.insert(0, step);
        proof {
            assert(path.deep_view() =~= inner.insert(0, outer));
        }
        DecodeError { kind, path }
    }

    /// The same failure, seen from the object whose member `name` holds it.
    pub fn within_field(self, name: &str) -> (e: DecodeError)
        ensures
            e.deep_view() == self.deep_view().within(StepView::Field(name@)),
    {
        self.within(Step::Field(name.to_owned()))
    }

    /// The same failure, seen from the array whose element `i` holds it.
    pub fn within_index(self, i: usize) -> (e: DecodeError)
        ensures
            e.deep_view() == self.deep_view().within(StepView::Index(i as nat)),
    {
        self.within(Step::Index(i))
    }

    /// The failure for an absent member called `name`.
    pub fn missing(name: &str) -> (e: DecodeError)
        ensures
            e.deep_view() == DecodeErrorView::missing(name@),
    {
        DecodeError::here(ErrorKind::MissingRequiredField).within_field(name)
    }
}

/// The view of a decoder's result: the view of the value, or of the failure.
pub open spec fn outcome<T: DeepView>(r: Result<T, DecodeError>) -> Result<T::V, DecodeErrorView> {
    match r {
        Ok(x) => Ok(x.deep_view()),
        Err(e) => Err(e.deep_view()),
    }
}

} // verus!
