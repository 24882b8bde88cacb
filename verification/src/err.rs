//! The error every operation of the driver reports: an optional exit code for
//! the shell, a context line, and the cause.

use vstd::prelude::*;
use vstd::string::*;

verus! {

/// What caused an [`Error`]. Every cause but `Message` carries the description
/// that the failing layer gave of it.
#[derive(Debug, Clone, PartialEq, Eq)]
pub enum ErrorKind {
    /// No underlying cause: the context is the whole message.
    Message,
    /// A filesystem operation or a process spawn failed.
    Io(String),
    /// A system call failed.
    Errno(String),
    /// Bytes returned by a child were not valid UTF-8.
    Utf8(String),
    /// The argument parser rejected the command line.
    Clap(String),
}

/// Mathematical model of an [`ErrorKind`].
pub enum ErrorKindView {
    Message,
    Io(Seq<char>),
    Errno(Seq<char>),
    Utf8(Seq<char>),
    Clap(Seq<char>),
}

impl View for ErrorKind {
    type V = ErrorKindView;

    open spec fn view(&self) -> ErrorKindView {
        match self {
            ErrorKind::Message => ErrorKindView::Message,
            ErrorKind::Io(m) => ErrorKindView::Io(m@),
            ErrorKind::Errno(m) => ErrorKindView::Errno(m@),
            ErrorKind::Utf8(m) => ErrorKindView::Utf8(m@),
            ErrorKind::Clap(m) => ErrorKindView::Clap(m@),
        }
    }
}

/// A failure of the driver.
#[derive(Debug, Clone, PartialEq, Eq)]
pub struct Error {
    /// The code to leave the process with, when the failure carries one.
    pub exit_code: Option<i32>,
    /// What the driver was doing; empty when nothing was recorded.
    pub context: String,
    /// The cause.
    pub kind: ErrorKind,
}

/// Mathematical model of an [`Error`].
pub struct ErrorView {
    pub exit_code: Option<i32>,
    pub context: Seq<char>,
    pub kind: ErrorKindView,
}

impl View for Error {
    type V = ErrorView;

    open spec fn view(&self) -> ErrorView {
        ErrorView { exit_code: self.exit_code, context: self.context@, kind: self.kind@ }
    }
}

impl ErrorView {
    /// An error without cause or exit code, described by `context` alone.
    pub open spec fn message(context: Seq<char>) -> ErrorView {
        ErrorView { exit_code: None, context, kind: ErrorKindView::Message }
    }

    /// The same error leaving with `exit_code`.
    pub open spec fn with_exit_code(self, exit_code: Option<i32>) -> ErrorView {
        ErrorView { exit_code, ..self }
    }

    /// The same error doing `context`.
    pub open spec fn with_context(self, context: Seq<char>) -> ErrorView {
        ErrorView { context, ..self }
    }

    /// The code the process leaves with: the carried one, else 1.
    pub open spec fn code(self) -> i32 {
        match self.exit_code {
            Some(c) => c,
            None => 1,
        }
    }

    /// The one-line description: the cause's own, or the context when there is no cause.
    pub open spec fn text(self) -> Seq<char> {
        match self.kind {
            ErrorKindView::Message => self.context,
            ErrorKindView::Io(m) => m,
            ErrorKindView::Errno(m) => m,
            ErrorKindView::Utf8(m) => m,
            ErrorKindView::Clap(m) => m,
        }
    }

    /// The failure of a child that left with `status`.
    pub open spec fn tool_failure(context: Seq<char>, status: Option<i32>) -> ErrorView {
        ErrorView::message(context).with_exit_code(status)
    }
}

/// Whether a child that left with `status` succeeded: it exited, with code zero.
pub open spec fn succeeded(status: Option<i32>) -> bool {
    status == Some(0i32)
}

/// What the exit status of a child means: nothing on success, else a failure
/// described by `context` that carries the child's exit code.
pub open spec fn status_result(context: Seq<char>, status: Option<i32>) -> Result<(), ErrorView> {
    if succeeded(status) {
        Ok(())
    } else {
        Err(ErrorView::tool_failure(context, status))
    }
}

/// The model of a result whose error is an [`Error`].
pub open spec fn unit_view(r: Result<(), Error>) -> Result<(), ErrorView> {
    match r {
        Ok(()) => Ok(()),
        Err(e) => Err(e@),
    }
}

impl Error {
    /// An error without cause or exit code, described by `context` alone.
    pub fn new(context: &str) -> (r: Error)
        ensures
            r@ == ErrorView::message(context@),
    {
        Error { exit_code: None, context: context.to_owned(), kind: ErrorKind::Message }
    }

    /// Replaces the exit code.
    pub fn set_exit_code(self, exit_code: Option<i32>) -> (r: Error)
        ensures
            r@ == self@.with_exit_code(exit_code),
    {
        let mut e = self;
        e.exit_code = exit_code;
        e
    }

    /// The code the process leaves with: the carried one, else 1.
    pub fn exit_code(&self) -> (r: i32)
        ensures
            r == self@.code(),
    {
        match self.exit_code {
            Some(c) => c,
            None => 1,
        }
    }

    /// An I/O failure: leaves with the OS error number when there is one.
    pub fn from_io(raw_os_error: Option<i32>, message: &str) -> (r: Error)
        ensures
            r@ == (ErrorView {
                exit_code: raw_os_error,
                context: Seq::<char>::empty(),
                kind: ErrorKindView::Io(message@),
            }),
    {
        Error {
            exit_code: raw_os_error,
            context: String::new(),
            kind: ErrorKind::Io(message.to_owned()),
        }
    }

    /// A failed system call: leaves with its error number.
    pub fn from_errno(errno: i32, message: &str) -> (r: Error)
        ensures
            r@ == (ErrorView {
                exit_code: Some(errno),
                context: Seq::<char>::empty(),
                kind: ErrorKindView::Errno(message@),
            }),
    {
        Error {
            exit_code: Some(errno),
            context: String::new(),
            kind: ErrorKind::Errno(message.to_owned()),
        }
    }

    /// Bytes that were not valid UTF-8.
    pub fn from_utf8(message: &str) -> (r: Error)
        ensures
            r@ == (ErrorView {
                exit_code: None,
                context: Seq::<char>::empty(),
                kind: ErrorKindView::Utf8(message@),
            }),
    {
        Error { exit_code: None, context: String::new(), kind: ErrorKind::Utf8(message.to_owned()) }
    }

    /// A command line that the argument parser rejected.
    pub fn from_clap(message: &str) -> (r: Error)
        ensures
            r@ == (ErrorView {
                exit_code: None,
                context: Seq::<char>::empty(),
                kind: ErrorKindView::Clap(message@),
            }),
    {
        Error { exit_code: None, context: String::new(), kind: ErrorKind::Clap(message.to_owned()) }
    }

    /// The one-line description: the cause's own, or the context when there is no cause.
    pub fn to_string(&self) -> (r: String)
        ensures
            r@ == self@.text(),
    {
        match &self.kind {
            ErrorKind::Message => self.context.clone(),
            ErrorKind::Io(m) => m.clone(),
            ErrorKind::Errno(m) => m.clone(),
            ErrorKind::Utf8(m) => m.clone(),
            ErrorKind::Clap(m) => m.clone(),
        }
    }

    /// What the exit status of a child means: nothing on success, else a
    /// failure described by `context` that carries the child's exit code.
    pub fn check_status(context: &str, status: Option<i32>) -> (r: Result<(), Error>)
        ensures
            unit_view(r) == status_result(context@, status),
    {
        match status {
            Some(0) => Ok(()),
            _ => Err(Error::new(context).set_exit_code(status)),
        }
    }
}

/// Attaching a context line to a failure.
pub trait Context<T>: Sized {
    /// What `context` yields: the value when there is one, else the failure
    /// doing `context`.
    spec fn in_context(self, context: Seq<char>) -> Result<T, ErrorView>;

    /// The model of the value that `context` hands back.
    spec fn model(r: Result<T, Error>) -> Result<T, ErrorView>;

    /// Keeps a value; describes a failure as happening while doing `context`.
    fn context(self, context: &str) -> (r: Result<T, Error>)
        ensures
            Self::model(r) == self.in_context(context@),
    ;
}

impl<T> Context<T> for Result<T, Error> {
    open spec fn in_context(self, context: Seq<char>) -> Result<T, ErrorView> {
        match self {
            Ok(v) => Ok(v),
            Err(e) => Err(e@.with_context(context)),
        }
    }

    open spec fn model(r: Result<T, Error>) -> Result<T, ErrorView> {
        match r {
            Ok(v) => Ok(v),
            Err(e) => Err(e@),
        }
    }

    fn context(self, context: &str) -> (r: Result<T, Error>) {
        match self {
            Ok(v) => Ok(v),
            Err(e) => {
                let mut e = e;
                e.context = context.to_owned();
                Err(e)
            },
        }
    }
}

impl<T> Context<T> for Option<T> {
    open spec fn in_context(self, context: Seq<char>) -> Result<T, ErrorView> {
        match self {
            Some(v) => Ok(v),
            None => Err(ErrorView::message(context)),
        }
    }

    open spec fn model(r: Result<T, Error>) -> Result<T, ErrorView> {
        match r {
            Ok(v) => Ok(v),
            Err(e) => Err(e@),
        }
    }

    fn context(self, context: &str) -> (r: Result<T, Error>) {
        match self {
            Some(v) => Ok(v),
            None => Err(Error::new(context)),
        }
    }
}

} // verus!
