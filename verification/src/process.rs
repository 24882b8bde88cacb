//! What the driver asks of the process runner, and what the runner reports
//! back, as plain values.

use crate::text::{opt_view, views};
use vstd::prelude::*;
use vstd::string::*;

verus! {

/// A program to run.
#[derive(Debug, Clone, PartialEq, Eq)]
pub struct Invocation {
    /// The executable.
    pub program: String,
    /// Its arguments, in order.
    pub args: Vec<String>,
    /// Variables set in its environment, on top of the driver's own.
    pub envs: Vec<(String, String)>,
    /// The directory to run it in; the driver's own when there is none.
    pub current_dir: Option<String>,
}

/// Mathematical model of an [`Invocation`].
pub struct InvocationView {
    pub program: Seq<char>,
    pub args: Seq<Seq<char>>,
    pub envs: Seq<(Seq<char>, Seq<char>)>,
    pub current_dir: Option<Seq<char>>,
}

/// The models of a sequence of environment variables.
pub open spec fn env_views(v: Seq<(String, String)>) -> Seq<(Seq<char>, Seq<char>)> {
    Seq::new(v.len(), |i: int| (v[i].0@, v[i].1@))
}

impl View for Invocation {
    type V = InvocationView;

    open spec fn view(&self) -> InvocationView {
        InvocationView {
            program: self.program@,
            args: views(self.args@),
            envs: env_views(self.envs@),
            current_dir: opt_view(self.current_dir),
        }
    }
}

/// What a child left behind: how it ended and what it wrote.
#[derive(Debug, Clone, PartialEq, Eq)]
pub struct Output {
    /// The exit code; none when a signal ended the child.
    pub status: Option<i32>,
    /// The bytes written to standard output.
    pub stdout: Vec<u8>,
}

/// The text that `String::from_utf8` gives of why `bytes` are not UTF-8.
pub uninterp spec fn utf8_error_text(bytes: Seq<u8>) -> Seq<char>;

/// The text that `bytes` encode.
///
/// Calls `String::from_utf8` on a copy of the bytes. std documents that it
/// succeeds exactly when the bytes are valid UTF-8, and then holds the text
/// they encode. On failure the result is the description that the error
/// gives of itself, which the contract only names.
#[verifier::external_body]
pub(crate) fn string_from_utf8(bytes: &Vec<u8>) -> (r: Result<String, String>)
    ensures
        r is Ok <==> vstd::utf8::valid_utf8(bytes@),
        r is Ok ==> r->Ok_0@ == vstd::utf8::decode_utf8(bytes@),
        r is Err ==> r->Err_0@ == utf8_error_text(bytes@),
{
    match String::from_utf8(bytes.clone()) {
        Ok(s) => Ok(s),
        Err(e) => Err(e.to_string()),
    }
}

} // verus!
