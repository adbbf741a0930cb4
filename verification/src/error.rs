use vstd::prelude::*;
use vstd::string::StringExecFns;

verus! {

/// The closed set of failures the data-access layer reports.
#[derive(Debug)]
pub enum Error {
    /// The embedded engine reported a failure of its own; the text is the engine's message.
    Surreal(String),
    /// A create call came back without a record.
    StoreFailToCreate(String),
    /// An update or delete call addressed a record that does not exist.
    StoreFailToPatch { method: String, tb: String, tid: String },
    /// The shared store handle could not be obtained.
    ErrGettingStore,
    /// The requested page size is above the maximum.
    ErrLimitOutOfBonds,
    /// Nothing is stored under the given key.
    XValueNotFound(String),
    /// A required field is absent from the decoded object.
    XPropertyNotFound(String),
    /// A value does not have the shape that was asked for.
    XValueNotOfType(&'static str),
}

/// Mathematical value of an [`Error`]: its kind and the texts it carries.
pub enum ErrorView {
    Surreal(Seq<char>),
    StoreFailToCreate(Seq<char>),
    StoreFailToPatch { method: Seq<char>, tb: Seq<char>, tid: Seq<char> },
    ErrGettingStore,
    ErrLimitOutOfBonds,
    XValueNotFound(Seq<char>),
    XPropertyNotFound(Seq<char>),
    XValueNotOfType(Seq<char>),
}

impl View for Error {
    type V = ErrorView;

    open spec fn view(&self) -> ErrorView {
        match self {
            Error::Surreal(s) => ErrorView::Surreal(s@),
            Error::StoreFailToCreate(s) => ErrorView::StoreFailToCreate(s@),
            Error::StoreFailToPatch { method, tb, tid } => ErrorView::StoreFailToPatch {
                method: method@,
                tb: tb@,
                tid: tid@,
            },
            Error::ErrGettingStore => ErrorView::ErrGettingStore,
            Error::ErrLimitOutOfBonds => ErrorView::ErrLimitOutOfBonds,
            Error::XValueNotFound(s) => ErrorView::XValueNotFound(s@),
            Error::XPropertyNotFound(s) => ErrorView::XPropertyNotFound(s@),
            Error::XValueNotOfType(s) => ErrorView::XValueNotOfType(s@),
        }
    }
}

/// The result of a call into this layer.
pub type Result<T> = core::result::Result<T, Error>;

/// What a decoding yields in terms of views: the decoded value's view, or the error's.
pub type Decoded<T> = core::result::Result<T, ErrorView>;

/// The result `r` is what the decoding `d` yields: the same outcome, with the view of
/// the value or of the error that it carries.
pub open spec fn yields<T: View>(r: Result<T>, d: Decoded<T::V>) -> bool {
    match r {
        Ok(t) => d == Ok::<T::V, ErrorView>(t@),
        Err(e) => d == Err::<T::V, ErrorView>(e@),
    }
}

/// The text that `{:?}` writes for a string: the string in double quotes, with the
/// characters escaped that the standard library escapes.
pub uninterp spec fn quoted_text(s: Seq<char>) -> Seq<char>;

/// `format!("{:?}", s)` of the standard library, for a string slice. Trusted: the text
/// depends on the characters of `s` alone, and is the one that `quoted_text` names.
#[verifier::external_body]
fn quoted(s: &str) -> (r: String)
    ensures
        r@ == quoted_text(s@),
{
    format!("{:?}", s)
}

/// A variant's name followed by its one text in brackets and quotes.
pub open spec fn tagged_text(tag: Seq<char>, s: Seq<char>) -> Seq<char> {
    tag + "("@ + quoted_text(s) + ")"@
}

impl ErrorView {
    /// The message of an error. A failed update or delete names the call and the
    /// record; every other error is written as its variant with what it carries.
    pub open spec fn message(self) -> Seq<char> {
        match self {
            ErrorView::Surreal(s) => tagged_text("Surreal"@, s),
            ErrorView::StoreFailToCreate(s) => tagged_text("StoreFailToCreate"@, s),
            ErrorView::StoreFailToPatch { method, tb, tid } => "error in "@ + method + " for "@ + tb
                + ":"@ + tid,
            ErrorView::ErrGettingStore => "ErrGettingStore"@,
            ErrorView::ErrLimitOutOfBonds => "ErrLimitOutOfBonds"@,
            ErrorView::XValueNotFound(s) => tagged_text("XValueNotFound"@, s),
            ErrorView::XPropertyNotFound(s) => tagged_text("XPropertyNotFound"@, s),
            ErrorView::XValueNotOfType(s) => tagged_text("XValueNotOfType"@, s),
        }
    }
}

fn tagged(tag: &str, s: &str) -> (r: String)
    ensures
        r@ == tagged_text(tag@, s@),
{
    let mut r = String::from_str(tag);
    r.append("(");
    let q = quoted(s);
    r.append(q.as_str());
    r.append(")");
    r
}

impl Error {
    /// The message of this error, for display.
    pub fn message(&self) -> (r: String)
        ensures
            r@ == self@.message(),
    {
        match self {
            Error::Surreal(s) => tagged("Surreal", s.as_str()),
            Error::StoreFailToCreate(s) => tagged("StoreFailToCreate", s.as_str()),
            Error::StoreFailToPatch { method, tb, tid } => {
                let mut r = String::from_str("error in ");
                r.append(method.as_str());
                r.append(" for ");
                r.append(tb.as_str());
                r.append(":");
                r.append(tid.as_str());
                r
            },
            Error::ErrGettingStore => String::from_str("ErrGettingStore"),
            Error::ErrLimitOutOfBonds => String::from_str("ErrLimitOutOfBonds"),
            Error::XValueNotFound(s) => tagged("XValueNotFound", s.as_str()),
            Error::XPropertyNotFound(s) => tagged("XPropertyNotFound", s.as_str()),
            Error::XValueNotOfType(s) => tagged("XValueNotOfType", s),
        }
    }
}

} // verus!
