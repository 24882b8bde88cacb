//! One run of the kernel's build system: the command line that every run
//! shares, and what its exit status means.

use crate::config::arch::Arch;
use crate::config::make::{make_arch_arg_of, MakeView};
use crate::config::{Config, ConfigView};
use crate::err::{status_result, unit_view, Error};
use crate::process::{Invocation, InvocationView};
use crate::text::{extend_strings, views};
use vstd::prelude::*;
use vstd::string::*;

verus! {

/// A run of `make` in the kernel source tree.
#[derive(Debug, Clone, PartialEq, Eq)]
pub struct MakeCmd {
    /// The program, its arguments, and the kernel source directory to
    /// resolve and run it in.
    pub cmd: Invocation,
    /// How many jobs the job server handed to the run allows at once.
    pub jobs: usize,
}

/// Mathematical model of a [`MakeCmd`].
pub struct MakeCmdView {
    pub cmd: InvocationView,
    pub jobs: usize,
}

impl View for MakeCmd {
    type V = MakeCmdView;

    open spec fn view(&self) -> MakeCmdView {
        MakeCmdView { cmd: self.cmd@, jobs: self.jobs }
    }
}

/// A target as a list of arguments: the target, or nothing.
pub open spec fn target_args(command: Option<Seq<char>>) -> Seq<Seq<char>> {
    match command {
        Some(c) => seq![c],
        None => seq![],
    }
}

/// The arguments of a run of `make`: architecture, build directory and
/// module directory, then the configured extra arguments, then the target,
/// then the caller's arguments.
pub open spec fn make_args(
    make: MakeView,
    arch: Arch,
    command: Option<Seq<char>>,
    args: Seq<Seq<char>>,
) -> Seq<Seq<char>> {
    seq![make_arch_arg_of(arch), make.make_build_dir_arg(arch), make.install_mod_path_arg(arch)]
        + make.extra_make_args + target_args(command) + args
}

/// The run of `make` for `command` under `config`.
pub open spec fn make_cmd(
    config: ConfigView,
    arch: Arch,
    jobs: usize,
    command: Option<Seq<char>>,
    args: Seq<Seq<char>>,
) -> MakeCmdView {
    MakeCmdView {
        cmd: InvocationView {
            program: config.make.path,
            args: make_args(config.make, arch, command, args),
            envs: seq![],
            current_dir: Some(config.make.kernel_dir),
        },
        jobs,
    }
}

/// Two runs of `make` under one configuration and with the same caller's
/// arguments are the same run only when their targets are the same.
pub proof fn lemma_make_cmd_tells_targets_apart(
    config: ConfigView,
    arch: Arch,
    jobs: usize,
    a: Option<Seq<char>>,
    b: Option<Seq<char>>,
    args: Seq<Seq<char>>,
)
    requires
        make_cmd(config, arch, jobs, a, args) == make_cmd(config, arch, jobs, b, args),
    ensures
        a == b,
{
    let x = make_args(config.make, arch, a, args);
    let y = make_args(config.make, arch, b, args);
    let at = 3 + config.make.extra_make_args.len();
    assert(x == y);
    assert(x.len() == at + target_args(a).len() + args.len());
    assert(y.len() == at + target_args(b).len() + args.len());
    if a is Some {
        assert(x[at as int] == a->0);
        assert(y[at as int] == b->0);
    }
}

impl MakeCmd {
    /// The run of `make` for the target `command` (the default target when
    /// there is none), with the caller's `args` last.
    pub fn new(config: &Config, command: Option<&str>, args: &Vec<String>) -> (r: MakeCmd)
        requires
            config.make.arch is Some,
            config.make.jobs is Some,
        ensures
            r@ == make_cmd(
                config@,
                config.make.arch->0,
                config.make.jobs->0,
                match command {
                    Some(c) => Some(c@),
                    None => None,
                },
                views(args@),
            ),
    {
        let jobs = config.make.jobs.unwrap();
        let mut all: Vec<String> = Vec::new();
        all.push(config.make.make_arch_arg());
        all.push(config.make.make_build_dir_arg());
        all.push(config.make.install_mod_path_arg());
        let ghost head = views(all@);
        extend_strings(&mut all, &config.make.extra_make_args);
        let ghost with_extra = views(all@);
        if let Some(c) = command {
            all.push(c.to_owned());
            assert(views(all@) =~= with_extra + seq![c@]);
        }
        let ghost with_target = views(all@);
        extend_strings(&mut all, args);
        let r = MakeCmd {
            cmd: Invocation {
                program: config.make.path.clone(),
                args: all,
                envs: Vec::new(),
                current_dir: Some(config.make.kernel_dir.clone()),
            },
            jobs,
        };
        proof {
            let arch = config.make.arch->0;
            assert(head =~= seq![
                make_arch_arg_of(arch),
                config@.make.make_build_dir_arg(arch),
                config@.make.install_mod_path_arg(arch),
            ]);
            assert(r@.cmd.envs =~= Seq::<(Seq<char>, Seq<char>)>::empty());
            assert(r@.cmd.args =~= make_args(
                config@.make,
                arch,
                match command {
                    Some(c) => Some(c@),
                    None => None,
                },
                views(args@),
            ));
        }
        r
    }

    /// What the exit status of the run means: nothing when `make`
    /// succeeded, else a failure that carries its exit code.
    pub fn run(&self, status: Option<i32>) -> (r: Result<(), Error>)
        ensures
            unit_view(r) == status_result("Failed to run make"@, status),
    {
        Error::check_status("Failed to run make", status)
    }
}

} // verus!
