//! The failure type shared by every module.

use vstd::prelude::*;

verus! {

/// All failure variants of the service, each with its detail text.
#[derive(Debug)]
pub enum Error {
    Auth(String),
    StateStore(String),
    XeroApi(String),
    Config(String),
    Sync(String),
    Serde(String),
    Http(String),
}

/// The mathematical value of an [`Error`].
pub enum ErrorView {
    Auth(Seq<char>),
    StateStore(Seq<char>),
    XeroApi(Seq<char>),
    Config(Seq<char>),
    Sync(Seq<char>),
    Serde(Seq<char>),
    Http(Seq<char>),
}

impl View for Error {
    type V = ErrorView;

    open spec fn view(&self) -> ErrorView {
        match self {
            Error::Auth(m) => ErrorView::Auth(m@),
            Error::StateStore(m) => ErrorView::StateStore(m@),
            Error::XeroApi(m) => ErrorView::XeroApi(m@),
            Error::Config(m) => ErrorView::Config(m@),
            Error::Sync(m) => ErrorView::Sync(m@),
            Error::Serde(m) => ErrorView::Serde(m@),
            Error::Http(m) => ErrorView::Http(m@),
        }
    }
}

impl ErrorView {
    /// The text shown to a user: the area of the failure, then the detail.
    pub open spec fn message(self) -> Seq<char> {
        match self {
            ErrorView::Auth(m) => "auth: "@ + m,
            ErrorView::StateStore(m) => "state store: "@ + m,
            ErrorView::XeroApi(m) => "xero api: "@ + m,
            ErrorView::Config(m) => "config: "@ + m,
            ErrorView::Sync(m) => "sync: "@ + m,
            ErrorView::Serde(m) => "serialization: "@ + m,
            ErrorView::Http(m) => "http: "@ + m,
        }
    }
}

impl Error {
    /// The text shown to a user.
    pub fn message(&self) -> (r: String)
        ensures
            r@ == self@.message(),
    {
        match self {
            Error::Auth(m) => "auth: ".to_owned().concat(m.as_str()),
            Error::StateStore(m) => "state store: ".to_owned().concat(m.as_str()),
            Error::XeroApi(m) => "xero api: ".to_owned().concat(m.as_str()),
            Error::Config(m) => "config: ".to_owned().concat(m.as_str()),
            Error::Sync(m) => "sync: ".to_owned().concat(m.as_str()),
            Error::Serde(m) => "serialization: ".to_owned().concat(m.as_str()),
            Error::Http(m) => "http: ".to_owned().concat(m.as_str()),
        }
    }
}

/// Failures of building or storing raw objects.
#[derive(Debug)]
pub enum GcsError {
    /// An upload to the object store failed.
    Upload(String),
    /// A local filesystem operation failed.
    Io(String),
    /// Reading or writing JSON failed.
    Serde(String),
    /// Authenticating against the object store failed.
    Auth(String),
    /// A configuration value was invalid or missing.
    Config(String),
}

/// The mathematical value of a [`GcsError`].
pub enum GcsErrorView {
    Upload(Seq<char>),
    Io(Seq<char>),
    Serde(Seq<char>),
    Auth(Seq<char>),
    Config(Seq<char>),
}

impl View for GcsError {
    type V = GcsErrorView;

    open spec fn view(&self) -> GcsErrorView {
        match self {
            GcsError::Upload(m) => GcsErrorView::Upload(m@),
            GcsError::Io(m) => GcsErrorView::Io(m@),
            GcsError::Serde(m) => GcsErrorView::Serde(m@),
            GcsError::Auth(m) => GcsErrorView::Auth(m@),
            GcsError::Config(m) => GcsErrorView::Config(m@),
        }
    }
}

impl GcsErrorView {
    /// The text shown to a user.
    pub open spec fn message(self) -> Seq<char> {
        match self {
            GcsErrorView::Upload(m) => "gcs upload failed: "@ + m,
            GcsErrorView::Io(m) => "io error: "@ + m,
            GcsErrorView::Serde(m) => "serde error: "@ + m,
            GcsErrorView::Auth(m) => "gcs auth failed: "@ + m,
            GcsErrorView::Config(m) => "gcs config error: "@ + m,
        }
    }
}

impl GcsError {
    /// The text shown to a user.
    pub fn message(&self) -> (r: String)
        ensures
            r@ == self@.message(),
    {
        match self {
            GcsError::Upload(m) => "gcs upload failed: ".to_owned().concat(m.as_str()),
            GcsError::Io(m) => "io error: ".to_owned().concat(m.as_str()),
            GcsError::Serde(m) => "serde error: ".to_owned().concat(m.as_str()),
            GcsError::Auth(m) => "gcs auth failed: ".to_owned().concat(m.as_str()),
            GcsError::Config(m) => "gcs config error: ".to_owned().concat(m.as_str()),
        }
    }
}

/// A message tells the area of a failure and its detail: no two failures have the same one.
pub proof fn messages_tell_failures_apart(a: ErrorView, b: ErrorView)
    requires
        a.message() == b.message(),
    ensures
        a == b,
{
    reveal_strlit("auth: ");
    reveal_strlit("state store: ");
    reveal_strlit("xero api: ");
    reveal_strlit("config: ");
    reveal_strlit("sync: ");
    reveal_strlit("serialization: ");
    reveal_strlit("http: ");
    let s = a.message();
    let t = b.message();
    assert(s[0] == t[0] && s[1] == t[1]);
    match (a, b) {
        (ErrorView::Auth(m), ErrorView::Auth(n)) => {
            assert(s.skip(6) =~= m && t.skip(6) =~= n);
        },
        (ErrorView::StateStore(m), ErrorView::StateStore(n)) => {
            assert(s.skip(13) =~= m && t.skip(13) =~= n);
        },
        (ErrorView::XeroApi(m), ErrorView::XeroApi(n)) => {
            assert(s.skip(10) =~= m && t.skip(10) =~= n);
        },
        (ErrorView::Config(m), ErrorView::Config(n)) => {
            assert(s.skip(8) =~= m && t.skip(8) =~= n);
        },
        (ErrorView::Sync(m), ErrorView::Sync(n)) => {
            assert(s.skip(6) =~= m && t.skip(6) =~= n);
        },
        (ErrorView::Serde(m), ErrorView::Serde(n)) => {
            assert(s.skip(15) =~= m && t.skip(15) =~= n);
        },
        (ErrorView::Http(m), ErrorView::Http(n)) => {
            assert(s.skip(6) =~= m && t.skip(6) =~= n);
        },
        _ => {},
    }
}

/// A message of a failure to store tells its area and its detail.
pub proof fn storage_messages_tell_failures_apart(a: GcsErrorView, b: GcsErrorView)
    requires
        a.message() == b.message(),
    ensures
        a == b,
{
    reveal_strlit("gcs upload failed: ");
    reveal_strlit("io error: ");
    reveal_strlit("serde error: ");
    reveal_strlit("gcs auth failed: ");
    reveal_strlit("gcs config error: ");
    let s = a.message();
    let t = b.message();
    assert(s[0] == t[0] && s[4] == t[4]);
    match (a, b) {
        (GcsErrorView::Upload(m), GcsErrorView::Upload(n)) => {
            assert(s.skip(19) =~= m && t.skip(19) =~= n);
        },
        (GcsErrorView::Io(m), GcsErrorView::Io(n)) => {
            assert(s.skip(10) =~= m && t.skip(10) =~= n);
        },
        (GcsErrorView::Serde(m), GcsErrorView::Serde(n)) => {
            assert(s.skip(13) =~= m && t.skip(13) =~= n);
        },
        (GcsErrorView::Auth(m), GcsErrorView::Auth(n)) => {
            assert(s.skip(17) =~= m && t.skip(17) =~= n);
        },
        (GcsErrorView::Config(m), GcsErrorView::Config(n)) => {
            assert(s.skip(18) =~= m && t.skip(18) =~= n);
        },
        _ => {},
    }
}

} // verus!
