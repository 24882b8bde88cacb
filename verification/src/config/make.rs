//! The kernel build's configuration and the paths derived from it.

use crate::config::arch::{arch_result_view, Arch};
use crate::config::kconfig::{KConfigMap, KConfigView};
use crate::err::{Context, Error, ErrorView};
use crate::host::{
    get_arch, get_nprocs, machine_arch_of, nprocs_of, usize_result_view, SysError,
};
use crate::path::{ends_with, join_path, joined, lemma_ends_with_transitive, lemma_joined_ends_with};
use crate::text::{concat2, views};
use vstd::prelude::*;
use vstd::string::*;

verus! {

/// How the kernel is built.
#[derive(Debug, Clone)]
pub struct Make {
    /// The `make` program.
    pub path: String,
    /// How many jobs the build may run at once, at least one.
    pub jobs: Option<usize>,
    /// The architecture to build for.
    pub arch: Option<Arch>,
    /// Where build trees and installed kernels go.
    pub out_dir: String,
    /// The kernel source tree.
    pub kernel_dir: String,
    /// Arguments handed to every `make` run.
    pub extra_make_args: Vec<String>,
    /// The kernel configuration options the build requires.
    pub kconfig: KConfigMap,
}

/// Mathematical model of a [`Make`].
pub struct MakeView {
    pub path: Seq<char>,
    pub jobs: Option<usize>,
    pub arch: Option<Arch>,
    pub out_dir: Seq<char>,
    pub kernel_dir: Seq<char>,
    pub extra_make_args: Seq<Seq<char>>,
    pub kconfig: Seq<KConfigView>,
}

impl View for Make {
    type V = MakeView;

    open spec fn view(&self) -> MakeView {
        MakeView {
            path: self.path@,
            jobs: self.jobs,
            arch: self.arch,
            out_dir: self.out_dir@,
            kernel_dir: self.kernel_dir@,
            extra_make_args: views(self.extra_make_args@),
            kconfig: self.kconfig@,
        }
    }
}

/// What the command line says of the build. `jobs` and `arch` are absent
/// when neither the command line nor the configuration names them.
#[derive(Debug, Clone)]
pub struct MakeArgs {
    pub path: String,
    pub jobs: Option<usize>,
    pub arch: Option<Arch>,
    pub out_dir: String,
    pub kernel_dir: String,
}

impl MakeView {
    /// Where the kernel for `arch` is installed: `out_dir/kernel.<kernel arch>`.
    pub open spec fn kernel_bin_dir(self, arch: Arch) -> Seq<char> {
        joined(self.out_dir, "kernel."@ + arch.spec_kernel_arch())
    }

    /// Where the kernel for `arch` is built: `out_dir/kernel_build.<kernel arch>`.
    pub open spec fn make_build_dir(self, arch: Arch) -> Seq<char> {
        joined(self.out_dir, "kernel_build."@ + arch.spec_kernel_arch())
    }

    /// Where the sockets of the virtual machine live: `out_dir/vm`.
    pub open spec fn vm_socket_dir(self) -> Seq<char> {
        joined(self.out_dir, "vm"@)
    }

    /// The kernel configuration of the build for `arch`.
    pub open spec fn config_file(self, arch: Arch) -> Seq<char> {
        joined(self.make_build_dir(arch), ".config"@)
    }

    /// The argument that tells `make` where to build.
    pub open spec fn make_build_dir_arg(self, arch: Arch) -> Seq<char> {
        "O="@ + self.make_build_dir(arch)
    }

    /// The argument that tells `make` where to install modules.
    pub open spec fn install_mod_path_arg(self, arch: Arch) -> Seq<char> {
        "INSTALL_MOD_PATH="@ + self.kernel_bin_dir(arch)
    }

    /// The build after the command line was applied, with `jobs` and `arch`
    /// as they were resolved.
    pub open spec fn with_args(self, args: MakeArgs, jobs: usize, arch: Arch) -> MakeView {
        MakeView {
            path: args.path@,
            jobs: Some(jobs),
            arch: Some(arch),
            out_dir: args.out_dir@,
            kernel_dir: args.kernel_dir@,
            ..self
        }
    }
}

/// The argument that tells `make` the architecture.
pub open spec fn make_arch_arg_of(arch: Arch) -> Seq<char> {
    "ARCH="@ + arch.spec_kernel_arch()
}

/// Both derived directories of a build end in the kernel-tree name of its
/// architecture, whatever the output directory.
pub proof fn lemma_derived_dirs_end_in_kernel_arch(make: MakeView, arch: Arch)
    ensures
        ends_with(make.kernel_bin_dir(arch), arch.spec_kernel_arch()),
        ends_with(make.make_build_dir(arch), arch.spec_kernel_arch()),
        ends_with(make.kernel_bin_dir(arch), "kernel."@ + arch.spec_kernel_arch()),
        ends_with(make.make_build_dir(arch), "kernel_build."@ + arch.spec_kernel_arch()),
{
    let k = arch.spec_kernel_arch();
    let bin = "kernel."@ + k;
    let build = "kernel_build."@ + k;
    lemma_joined_ends_with(make.out_dir, bin);
    lemma_joined_ends_with(make.out_dir, build);
    assert(bin.subrange(bin.len() - k.len(), bin.len() as int) =~= k);
    assert(build.subrange(build.len() - k.len(), build.len() as int) =~= k);
    lemma_ends_with_transitive(make.kernel_bin_dir(arch), bin, k);
    lemma_ends_with_transitive(make.make_build_dir(arch), build, k);
}

/// A number of jobs, which is positive: the number, or the complaint that
/// it is none.
pub open spec fn positive_jobs(jobs: usize) -> Result<usize, ErrorView> {
    if jobs > 0 {
        Ok(jobs)
    } else {
        Err(ErrorView::message("Invalid number of jobs: 0"@))
    }
}

/// The number of jobs to build with: the requested one, else what the
/// machine was found to have, and in either case a positive number; a
/// failure to find out what the machine has says so.
pub open spec fn jobs_or(requested: Option<usize>, found: Result<usize, ErrorView>) -> Result<
    usize,
    ErrorView,
> {
    match requested {
        Some(j) => positive_jobs(j),
        None => match found {
            Ok(n) => positive_jobs(n),
            Err(e) => Err(e.with_context("Failed to get number of processors"@)),
        },
    }
}

/// The architecture to build for: the requested one, else what the machine
/// was found to be; a failure to find that out says so.
pub open spec fn arch_or(requested: Option<Arch>, found: Result<Arch, ErrorView>) -> Result<
    Arch,
    ErrorView,
> {
    match requested {
        Some(a) => Ok(a),
        None => match found {
            Ok(a) => Ok(a),
            Err(e) => Err(e.with_context("Failed to get architecture"@)),
        },
    }
}

impl Make {
    /// The number of jobs to build with, given what the machine was found
    /// to have. No jobs at all is an error.
    pub fn jobs_from(requested: Option<usize>, found: Result<usize, Error>) -> (r: Result<
        usize,
        Error,
    >)
        ensures
            usize_result_view(r) == jobs_or(requested, usize_result_view(found)),
            r is Ok ==> r->Ok_0 > 0,
    {
        let jobs = match requested {
            Some(j) => j,
            None => match found.context("Failed to get number of processors") {
                Ok(n) => n,
                Err(e) => {
                    return Err(e);
                },
            },
        };
        if jobs > 0 {
            Ok(jobs)
        } else {
            Err(Error::new("Invalid number of jobs: 0"))
        }
    }

    /// The architecture to build for, given what the machine was found to be.
    pub fn arch_from(requested: Option<Arch>, found: Result<Arch, Error>) -> (r: Result<Arch, Error>)
        ensures
            arch_result_view(r) == arch_or(requested, arch_result_view(found)),
    {
        match requested {
            Some(a) => Ok(a),
            None => found.context("Failed to get architecture"),
        }
    }

    /// The number of jobs to build with: the requested one, else the number
    /// of processors that are online; what `jobs_from` makes of the
    /// system's answer, whatever that is. The machine is asked only when
    /// nothing is requested.
    pub fn jobs_or_default(requested: Option<usize>) -> (r: Result<usize, Error>)
        ensures
            exists|found: Result<Option<i64>, SysError>|
                usize_result_view(r) == jobs_or(requested, #[trigger] nprocs_of(found)),
            requested is Some ==> usize_result_view(r) == positive_jobs(requested->0),
            r is Ok ==> r->Ok_0 > 0,
    {
        match requested {
            Some(j) => {
                let r = Make::jobs_from(requested, Ok(j));
                assert(usize_result_view(r) == jobs_or(
                    requested,
                    nprocs_of(Ok::<Option<i64>, SysError>(None)),
                ));
                r
            },
            None => Make::jobs_from(None, get_nprocs()),
        }
    }

    /// The architecture to build for: the requested one, else that of the
    /// machine the driver runs on; what `arch_from` makes of the system's
    /// answer, whatever that is. The machine is asked only when nothing is
    /// requested.
    pub fn arch_or_default(requested: Option<Arch>) -> (r: Result<Arch, Error>)
        ensures
            exists|found: Result<Option<String>, SysError>|
                arch_result_view(r) == arch_or(requested, #[trigger] machine_arch_of(found)),
            requested is Some ==> r == Ok::<Arch, Error>(requested->0),
    {
        match requested {
            Some(a) => {
                assert(arch_result_view(Ok::<Arch, Error>(a)) == arch_or(
                    requested,
                    machine_arch_of(Ok::<Option<String>, SysError>(None)),
                ));
                Ok(a)
            },
            None => Make::arch_from(None, get_arch()),
        }
    }

    /// Where the kernel is installed: `out_dir/kernel.<kernel arch>`.
    pub fn kernel_bin_dir(&self) -> (r: String)
        requires
            self.arch is Some,
        ensures
            r@ == self@.kernel_bin_dir(self.arch->0),
            ends_with(r@, self.arch->0.spec_kernel_arch()),
    {
        proof {
            lemma_derived_dirs_end_in_kernel_arch(self@, self.arch->0);
        }
        let arch = self.arch.unwrap();
        join_path(self.out_dir.as_str(), concat2("kernel.", arch.kernel_arch()).as_str())
    }

    /// Where the kernel is built: `out_dir/kernel_build.<kernel arch>`.
    pub fn make_build_dir(&self) -> (r: String)
        requires
            self.arch is Some,
        ensures
            r@ == self@.make_build_dir(self.arch->0),
            ends_with(r@, self.arch->0.spec_kernel_arch()),
    {
        proof {
            lemma_derived_dirs_end_in_kernel_arch(self@, self.arch->0);
        }
        let arch = self.arch.unwrap();
        join_path(self.out_dir.as_str(), concat2("kernel_build.", arch.kernel_arch()).as_str())
    }

    /// Where the sockets of the virtual machine live: `out_dir/vm`.
    pub fn vm_socket_dir(&self) -> (r: String)
        ensures
            r@ == self@.vm_socket_dir(),
    {
        join_path(self.out_dir.as_str(), "vm")
    }

    /// The kernel configuration of the build: `.config` in the build directory.
    pub fn config_file(&self) -> (r: String)
        requires
            self.arch is Some,
        ensures
            r@ == self@.config_file(self.arch->0),
    {
        join_path(self.make_build_dir().as_str(), ".config")
    }

    /// The argument that tells `make` where to build: `O=<build directory>`.
    pub fn make_build_dir_arg(&self) -> (r: String)
        requires
            self.arch is Some,
        ensures
            r@ == self@.make_build_dir_arg(self.arch->0),
    {
        concat2("O=", self.make_build_dir().as_str())
    }

    /// The argument that tells `make` the architecture: `ARCH=<kernel arch>`.
    pub fn make_arch_arg(&self) -> (r: String)
        requires
            self.arch is Some,
        ensures
            r@ == make_arch_arg_of(self.arch->0),
    {
        let arch = self.arch.unwrap();
        concat2("ARCH=", arch.kernel_arch())
    }

    /// The argument that tells `make` where to install modules:
    /// `INSTALL_MOD_PATH=<kernel directory>`.
    pub fn install_mod_path_arg(&self) -> (r: String)
        requires
            self.arch is Some,
        ensures
            r@ == self@.install_mod_path_arg(self.arch->0),
    {
        concat2("INSTALL_MOD_PATH=", self.kernel_bin_dir().as_str())
    }

    /// Applies the command line: program, directories, and the resolved
    /// number of jobs, which is positive, and architecture. What the build
    /// appends and requires stays as it is.
    pub fn update_from_args(&mut self, args: &MakeArgs, jobs: usize, arch: Arch)
        requires
            jobs > 0,
        ensures
            final(self)@ == old(self)@.with_args(*args, jobs, arch),
    {
        self.path = args.path.clone();
        self.jobs = Some(jobs);
        self.arch = Some(arch);
        self.out_dir = args.out_dir.clone();
        self.kernel_dir = args.kernel_dir.clone();
    }
}

} // verus!
