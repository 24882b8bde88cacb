//! What the driver asks of the machine it runs on: how many processors are
//! online, and which architecture it is.

use crate::config::arch::{arch_from, arch_result_view, Arch};
use crate::err::{Error, ErrorKindView, ErrorView};
use vstd::prelude::*;
use vstd::string::*;

verus! {

/// The identification of the running system, as `uname` reports it.
#[verifier::external_type_specification]
#[verifier::external_body]
pub struct ExUtsName(nix::sys::utsname::UtsName);

/// A failed system call: its error number and the description of it.
#[derive(Debug, Clone, PartialEq, Eq)]
pub struct SysError {
    pub errno: i32,
    pub message: String,
}

/// The number of processors that are online, as the system reports it.
///
/// Calls `nix::unistd::sysconf` for `_NPROCESSORS_ONLN`. nix returns the
/// value, nothing when the system has none, or the error number of the
/// failed call. The answer depends on the machine, so nothing is claimed
/// of it.
#[verifier::external_body]
fn sysconf_nprocessors_onln() -> (r: Result<Option<i64>, SysError>) {
    match nix::unistd::sysconf(nix::unistd::SysconfVar::_NPROCESSORS_ONLN) {
        Ok(v) => Ok(v.map(i64::from)),
        Err(e) => Err(SysError { errno: e as i32, message: e.to_string() }),
    }
}

/// The identification of the running system.
///
/// Calls `nix::sys::utsname::uname`. nix returns the identification, or the
/// error number of the failed call. The answer depends on the machine, so
/// nothing is claimed of it.
#[verifier::external_body]
fn uname() -> (r: Result<nix::sys::utsname::UtsName, SysError>) {
    match nix::sys::utsname::uname() {
        Ok(u) => Ok(u),
        Err(e) => Err(SysError { errno: e as i32, message: e.to_string() }),
    }
}

/// The hardware name in an identification, when it is text.
///
/// Calls `nix::sys::utsname::UtsName::machine`, which hands out the
/// `machine` field up to its first zero byte; nothing when those bytes are
/// not UTF-8. Nothing is claimed of the text.
#[verifier::external_body]
fn machine_of(uts: &nix::sys::utsname::UtsName) -> (r: Option<String>) {
    uts.machine().to_str().map(String::from)
}

/// What the system's answer means for the number of processors: the number,
/// when the system gave one that `usize` holds; else a failure while getting
/// the number of processors online, which carries the error number when the
/// call failed.
pub open spec fn nprocs_of(found: Result<Option<i64>, SysError>) -> Result<usize, ErrorView> {
    match found {
        Ok(Some(n)) => if 0 <= n <= usize::MAX {
            Ok(n as usize)
        } else {
            Err(ErrorView::message("Failed to get number of processors online"@))
        },
        Ok(None) => Err(ErrorView::message("Failed to get number of processors online"@)),
        Err(e) => Err(
            ErrorView {
                exit_code: Some(e.errno),
                context: "Failed to get number of processors online"@,
                kind: ErrorKindView::Errno(e.message@),
            },
        ),
    }
}

/// What the system's answer means for the architecture: the architecture
/// that the hardware name names; else the complaint that the name names
/// none, that there is no name, or the failure of the call with its error
/// number.
pub open spec fn machine_arch_of(found: Result<Option<String>, SysError>) -> Result<Arch, ErrorView> {
    match found {
        Ok(Some(m)) => arch_from(m@),
        Ok(None) => Err(ErrorView::message("Failed to get machine arch name"@)),
        Err(e) => Err(
            ErrorView {
                exit_code: Some(e.errno),
                context: "Failed to get uname"@,
                kind: ErrorKindView::Errno(e.message@),
            },
        ),
    }
}

/// The model of a result that holds a number.
pub open spec fn usize_result_view(r: Result<usize, Error>) -> Result<usize, ErrorView> {
    match r {
        Ok(n) => Ok(n),
        Err(e) => Err(e@),
    }
}

/// The number of processors in the system's answer.
pub fn nprocs_from(found: Result<Option<i64>, SysError>) -> (r: Result<usize, Error>)
    ensures
        usize_result_view(r) == nprocs_of(found),
{
    match found {
        Ok(Some(n)) => {
            if n >= 0 && n as u64 <= usize::MAX as u64 {
                Ok(n as usize)
            } else {
                Err(Error::new("Failed to get number of processors online"))
            }
        },
        Ok(None) => Err(Error::new("Failed to get number of processors online")),
        Err(e) => {
            let mut err = Error::from_errno(e.errno, e.message.as_str());
            err.context = "Failed to get number of processors online".to_owned();
            Err(err)
        },
    }
}

/// The architecture in the system's answer.
pub fn arch_from_machine(found: Result<Option<String>, SysError>) -> (r: Result<Arch, Error>)
    ensures
        arch_result_view(r) == machine_arch_of(found),
{
    match found {
        Ok(Some(m)) => Arch::from_str(m.as_str()),
        Ok(None) => Err(Error::new("Failed to get machine arch name")),
        Err(e) => {
            let mut err = Error::from_errno(e.errno, e.message.as_str());
            err.context = "Failed to get uname".to_owned();
            Err(err)
        },
    }
}

/// The number of processors that are online: what `nprocs_from` makes of
/// the system's answer, whatever that is.
pub fn get_nprocs() -> (r: Result<usize, Error>)
    ensures
        exists|found: Result<Option<i64>, SysError>|
            usize_result_view(r) == #[trigger] nprocs_of(found),
        r is Err ==> r->Err_0@.context == "Failed to get number of processors online"@,
{
    nprocs_from(sysconf_nprocessors_onln())
}

/// The architecture of the machine the driver runs on: what
/// `arch_from_machine` makes of the system's answer, whatever that is.
pub fn get_arch() -> (r: Result<Arch, Error>)
    ensures
        exists|found: Result<Option<String>, SysError>|
            arch_result_view(r) == #[trigger] machine_arch_of(found),
{
    match uname() {
        Ok(u) => arch_from_machine(Ok(machine_of(&u))),
        Err(e) => arch_from_machine(Err(e)),
    }
}

} // verus!
