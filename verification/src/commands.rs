//! The driver's commands: which one a name selects, and the plan of the
//! ones that boot a kernel.

use crate::boot::{qemu_cmd, QemuCmd};
use crate::config::arch::Arch;
use crate::config::{Config, ConfigView};
use crate::deps::{Deps, DepsView};
use crate::err::{Error, ErrorView};
use crate::kbuild::{
    build, build_steps, install_steps, lemma_existing_config_is_not_seeded, make_step,
    seeds_config, step_views, Step, StepView,
};
use crate::kconfig::{
    check_config_steps, new_config, new_config_steps, seed_steps, set_config_steps,
};
use crate::make::MakeCmd;
use crate::text::{str_eq, views};
use vstd::prelude::*;
use vstd::string::*;

verus! {

/// A command of the driver.
#[derive(Debug, Clone, Copy, PartialEq, Eq, Structural)]
pub enum Subcommand {
    Make,
    Config,
    OldConfig,
    Build,
    Boot,
    Run,
    Deps,
}

/// The command that `name` selects, or the complaint that none was given
/// or that the name is unknown.
pub open spec fn subcommand_of(name: Option<Seq<char>>) -> Result<Subcommand, ErrorView> {
    match name {
        None => Err(ErrorView::message("No subcommand provided"@)),
        Some(n) => if n == "make"@ {
            Ok(Subcommand::Make)
        } else if n == "config"@ {
            Ok(Subcommand::Config)
        } else if n == "oldconfig"@ {
            Ok(Subcommand::OldConfig)
        } else if n == "build"@ {
            Ok(Subcommand::Build)
        } else if n == "boot"@ {
            Ok(Subcommand::Boot)
        } else if n == "run"@ {
            Ok(Subcommand::Run)
        } else if n == "deps"@ {
            Ok(Subcommand::Deps)
        } else {
            Err(ErrorView::message("Unknown subcommand"@))
        },
    }
}

/// The model of a result that holds a command.
pub open spec fn subcommand_result_view(r: Result<Subcommand, Error>) -> Result<
    Subcommand,
    ErrorView,
> {
    match r {
        Ok(c) => Ok(c),
        Err(e) => Err(e@),
    }
}

/// The steps of a command that runs one target of the kernel's build
/// system: bring the configuration about, then run `make` for the target.
pub open spec fn make_plan(
    config: ConfigView,
    arch: Arch,
    jobs: usize,
    command: Option<Seq<char>>,
    args: Seq<Seq<char>>,
    exists: bool,
) -> Seq<StepView> {
    new_config_steps(config, arch, jobs, args, exists).push(
        make_step(config, arch, jobs, command, args, true),
    )
}

/// The steps that boot the kernel: make the socket directory, then run the
/// virtual machine. Without a launcher, the failure to find one.
pub open spec fn boot_steps(config: ConfigView) -> Seq<StepView> {
    match qemu_cmd(config, "3G"@) {
        Ok(qemu) => seq![
            StepView::CreateDir { path: config.make.vm_socket_dir() },
            StepView::Boot { qemu },
        ],
        Err(error) => seq![StepView::Fail { error }],
    }
}

/// The steps of the `boot` command: build unless told not to, then boot.
pub open spec fn boot_plan(
    config: ConfigView,
    arch: Arch,
    jobs: usize,
    args: Seq<Seq<char>>,
    no_build: bool,
    exists: bool,
) -> Seq<StepView> {
    if no_build {
        boot_steps(config)
    } else {
        build_steps(config, arch, jobs, args, exists) + boot_steps(config)
    }
}

/// The steps of the `run` command once the test's requirements are merged
/// into the configuration: when just parsing, only print the configuration
/// and the requirements; else build unless told not to, then boot.
pub open spec fn run_plan(
    config: ConfigView,
    deps: DepsView,
    arch: Arch,
    jobs: usize,
    args: Seq<Seq<char>>,
    parse_only: bool,
    no_build: bool,
    exists: bool,
) -> Seq<StepView> {
    if parse_only {
        seq![StepView::Print { text: config.rendered() }, StepView::Print { text: deps.rendered() }]
    } else {
        boot_plan(config, arch, jobs, args, no_build, exists)
    }
}

/// A run over a kernel configuration that exists never seeds it again: none
/// of its steps runs `allnoconfig`, whatever else it is told.
pub proof fn lemma_rerun_does_not_seed(
    config: ConfigView,
    deps: DepsView,
    arch: Arch,
    jobs: usize,
    args: Seq<Seq<char>>,
    parse_only: bool,
    no_build: bool,
)
    ensures
        forall|i: int|
            0 <= i < run_plan(config, deps, arch, jobs, args, parse_only, no_build, true).len()
                ==> !seeds_config(
                #[trigger] run_plan(config, deps, arch, jobs, args, parse_only, no_build, true)[i],
                config,
                arch,
                jobs,
                args,
            ),
{
    let plan = run_plan(config, deps, arch, jobs, args, parse_only, no_build, true);
    let built = build_steps(config, arch, jobs, args, true);
    let boot = boot_steps(config);
    lemma_existing_config_is_not_seeded(config, arch, jobs, args);
    assert forall|i: int| 0 <= i < plan.len() implies !seeds_config(
        #[trigger] plan[i],
        config,
        arch,
        jobs,
        args,
    ) by {
        if parse_only {
            assert(plan[i] is Print);
        } else if no_build {
            assert(plan[i] == boot[i]);
            assert(!(boot[i] is Make));
        } else if i < built.len() {
            assert(plan[i] == built[i]);
        } else {
            assert(plan[i] == boot[i - built.len()]);
            assert(!(boot[i - built.len()] is Make));
        }
    }
}

/// In a run that builds, every required option is verified before the
/// kernel is built, and the kernel is built before anything is installed
/// and before the virtual machine is prepared or started.
pub proof fn lemma_plan_order(
    config: ConfigView,
    arch: Arch,
    jobs: usize,
    args: Seq<Seq<char>>,
    exists: bool,
)
    ensures
        ({
            let plan = boot_plan(config, arch, jobs, args, false, exists);
            let built_at = new_config_steps(config, arch, jobs, args, exists).len()
                + config.make.kconfig.len() + 1 as int;
            &&& 0 <= built_at < plan.len()
            &&& plan[built_at] == make_step(config, arch, jobs, None, args, true)
            &&& forall|i: int| 0 <= i < plan.len() && #[trigger] plan[i] is Query ==> i < built_at
            &&& forall|i: int|
                0 <= i < plan.len() && (#[trigger] plan[i] is Install || plan[i] is ReadRelease
                    || plan[i] is CreateDir || plan[i] is Boot) ==> i > built_at
        }),
{
    let plan = boot_plan(config, arch, jobs, args, false, exists);
    let set = new_config_steps(config, arch, jobs, args, exists);
    let check = check_config_steps(config, config.make.config_file(arch), config.make.kconfig);
    let tail = install_steps(config, arch, jobs, args);
    let boot = boot_steps(config);
    let built = build_steps(config, arch, jobs, args, exists);
    let built_at = set.len() + check.len() + 1 as int;
    assert(built[built_at] == make_step(config, arch, jobs, None, args, true));
    assert(plan[built_at] == built[built_at]);
    let seeds = seed_steps(config, arch, jobs, args);
    let sets = set_config_steps(config, config.make.config_file(arch), config.make.kconfig);
    assert forall|i: int| 0 <= i < plan.len() implies (#[trigger] plan[i] is Query ==> i < built_at)
        && ((plan[i] is Install || plan[i] is ReadRelease || plan[i] is CreateDir || plan[i] is Boot)
        ==> i > built_at) by {
        if i < set.len() {
            assert(plan[i] == set[i]);
            if exists {
                assert(set[i] == sets[i]);
            } else if i < 2 {
                assert(set[i] == seeds[i]);
            } else {
                assert(set[i] == sets[i - 2]);
            }
        } else if i == set.len() {
            assert(plan[i] == make_step(config, arch, jobs, Some("olddefconfig"@), args, true));
        } else if i < built_at {
            assert(plan[i] == check[i - set.len() - 1]);
        } else if i == built_at {
        } else if i < built.len() {
            assert(plan[i] == tail[i - built_at - 1]);
        } else {
            assert(plan[i] == boot[i - built.len()]);
        }
    }
}

impl Subcommand {
    /// The command that `name` selects. No name and an unknown name are
    /// errors.
    pub fn from_name(name: Option<&str>) -> (r: Result<Subcommand, Error>)
        ensures
            subcommand_result_view(r) == subcommand_of(
                match name {
                    Some(n) => Some(n@),
                    None => None,
                },
            ),
    {
        match name {
            None => Err(Error::new("No subcommand provided")),
            Some(n) => {
                if str_eq(n, "make") {
                    Ok(Subcommand::Make)
                } else if str_eq(n, "config") {
                    Ok(Subcommand::Config)
                } else if str_eq(n, "oldconfig") {
                    Ok(Subcommand::OldConfig)
                } else if str_eq(n, "build") {
                    Ok(Subcommand::Build)
                } else if str_eq(n, "boot") {
                    Ok(Subcommand::Boot)
                } else if str_eq(n, "run") {
                    Ok(Subcommand::Run)
                } else if str_eq(n, "deps") {
                    Ok(Subcommand::Deps)
                } else {
                    Err(Error::new("Unknown subcommand"))
                }
            },
        }
    }
}

/// The steps of a command that runs the target `command` of the kernel's
/// build system, with the kernel configuration brought about first.
/// `config_exists` says whether the build directory already holds one.
pub fn make(config: &Config, command: Option<&str>, args: &Vec<String>, config_exists: bool) -> (r:
    Vec<Step>)
    requires
        config.make.arch is Some,
        config.make.jobs is Some,
    ensures
        step_views(r@) == make_plan(
            config@,
            config.make.arch->0,
            config.make.jobs->0,
            match command {
                Some(c) => Some(c@),
                None => None,
            },
            views(args@),
            config_exists,
        ),
{
    let mut steps = new_config(config, args, config_exists);
    let ghost before = step_views(steps@);
    let step = Step::Make { make: MakeCmd::new(config, command, args), fatal: true };
    steps.push(step);
    assert(step_views(steps@) =~= before.push(step@));
    steps
}

/// Appends the steps that boot the kernel.
fn push_boot(steps: &mut Vec<Step>, config: &Config)
    ensures
        step_views(final(steps)@) == step_views(old(steps)@) + boot_steps(config@),
{
    let ghost before = step_views(steps@);
    match QemuCmd::new(config) {
        Ok(qemu) => {
            steps.push(Step::CreateDir { path: config.make.vm_socket_dir() });
            steps.push(Step::Boot { qemu });
        },
        Err(error) => {
            steps.push(Step::Fail { error });
        },
    }
    assert(step_views(steps@) =~= before + boot_steps(config@));
}

/// The steps of the `boot` command: build unless `no_build`, then boot.
/// `config_exists` says whether the build directory already holds a kernel
/// configuration.
pub fn boot(config: &Config, args: &Vec<String>, no_build: bool, config_exists: bool) -> (r: Vec<
    Step,
>)
    requires
        !no_build ==> config.make.arch is Some && config.make.jobs is Some,
    ensures
        no_build ==> step_views(r@) == boot_steps(config@),
        !no_build ==> step_views(r@) == boot_plan(
            config@,
            config.make.arch->0,
            config.make.jobs->0,
            views(args@),
            no_build,
            config_exists,
        ),
{
    let mut steps: Vec<Step> = if no_build {
        Vec::new()
    } else {
        build(config, args, config_exists)
    };
    proof {
        if no_build {
            assert(step_views(steps@) + boot_steps(config@) =~= boot_steps(config@));
        }
    }
    push_boot(&mut steps, config);
    steps
}

/// The steps of the `run` command. `config` is the configuration after
/// the requirements `deps` of the test were merged into it. With
/// `parse_only` the configuration and the requirements are printed and
/// nothing else happens.
pub fn run(
    config: &Config,
    deps: &Deps,
    args: &Vec<String>,
    parse_only: bool,
    no_build: bool,
    config_exists: bool,
) -> (r: Vec<Step>)
    requires
        !parse_only && !no_build ==> config.make.arch is Some && config.make.jobs is Some,
    ensures
        parse_only ==> step_views(r@) == seq![
            StepView::Print { text: config@.rendered() },
            StepView::Print { text: deps@.rendered() },
        ],
        !parse_only && no_build ==> step_views(r@) == boot_steps(config@),
        !parse_only && !no_build ==> step_views(r@) == run_plan(
            config@,
            deps@,
            config.make.arch->0,
            config.make.jobs->0,
            views(args@),
            parse_only,
            no_build,
            config_exists,
        ),
{
    if parse_only {
        let mut steps: Vec<Step> = Vec::new();
        steps.push(Step::Print { text: config.render() });
        steps.push(Step::Print { text: deps.render_shell() });
        assert(step_views(steps@) =~= seq![
            StepView::Print { text: config@.rendered() },
            StepView::Print { text: deps@.rendered() },
        ]);
        steps
    } else {
        boot(config, args, no_build, config_exists)
    }
}

} // verus!
