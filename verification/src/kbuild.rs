//! The kernel build as a plan: the steps to take in order, each with what
//! it needs from the process runner and the file system. A plan is carried
//! out step by step and ends at the first step that fails.

use crate::boot::QemuCmd;
use crate::config::arch::Arch;
use crate::config::kconfig::{KConfig, KConfigView};
use crate::config::{Config, ConfigView};
use crate::err::{status_result, unit_view, Error, ErrorView};
use crate::kconfig::{check_config_steps, check_configs, new_config, new_config_steps};
use crate::make::{lemma_make_cmd_tells_targets_apart, make_cmd, MakeCmd, MakeCmdView};
use crate::path::{join_path, joined};
use crate::process::{Invocation, InvocationView};
use crate::text::{concat2, trim, trimmed, views};
use vstd::prelude::*;
use vstd::string::*;

verus! {

/// One step of a build.
#[derive(Debug, Clone, PartialEq, Eq)]
pub enum Step {
    /// Run `make`. A failure of the run ends the build only when it is fatal.
    Make { make: MakeCmd, fatal: bool },
    /// Run a tool. A failure of the run ends the build only when it is fatal.
    Tool { cmd: Invocation, fatal: bool },
    /// Run the configuration tool and verify its answer for `cfg`.
    Query { query: Invocation, cfg: KConfig },
    /// Copy `src` to `dst`, creating the directories above `dst`, and give
    /// `dst` the permissions `mode`.
    Install { src: String, dst: String, mode: u32 },
    /// Make sure that the file exists, empty if it has to be created.
    /// Failing to do so does not end the build.
    Touch { path: String },
    /// Read the kernel release from the file; it is what the build returns.
    ReadRelease { path: String },
    /// Create the directory and the directories above it.
    CreateDir { path: String },
    /// Run the virtual machine; a failure of the run ends the plan.
    Boot { qemu: QemuCmd },
    /// Write the text to standard output.
    Print { text: String },
    /// End the plan with this failure.
    Fail { error: Error },
}

/// Mathematical model of a [`Step`].
pub enum StepView {
    Make { make: MakeCmdView, fatal: bool },
    Tool { cmd: InvocationView, fatal: bool },
    Query { query: InvocationView, cfg: KConfigView },
    Install { src: Seq<char>, dst: Seq<char>, mode: u32 },
    Touch { path: Seq<char> },
    ReadRelease { path: Seq<char> },
    CreateDir { path: Seq<char> },
    Boot { qemu: InvocationView },
    Print { text: Seq<char> },
    Fail { error: ErrorView },
}

impl View for Step {
    type V = StepView;

    open spec fn view(&self) -> StepView {
        match self {
            Step::Make { make, fatal } => StepView::Make { make: make@, fatal: *fatal },
            Step::Tool { cmd, fatal } => StepView::Tool { cmd: cmd@, fatal: *fatal },
            Step::Query { query, cfg } => StepView::Query { query: query@, cfg: cfg@ },
            Step::Install { src, dst, mode } => StepView::Install {
                src: src@,
                dst: dst@,
                mode: *mode,
            },
            Step::Touch { path } => StepView::Touch { path: path@ },
            Step::ReadRelease { path } => StepView::ReadRelease { path: path@ },
            Step::CreateDir { path } => StepView::CreateDir { path: path@ },
            Step::Boot { qemu } => StepView::Boot { qemu: qemu@ },
            Step::Print { text } => StepView::Print { text: text@ },
            Step::Fail { error } => StepView::Fail { error: error@ },
        }
    }
}

impl StepView {
    /// What the exit status of the step's child means. A `make` or a tool
    /// that must succeed, and the virtual machine, fail with the child's
    /// exit code unless the child succeeded; nothing else can fail this way.
    pub open spec fn exited(self, status: Option<i32>) -> Result<(), ErrorView> {
        match self {
            StepView::Make { make, fatal } => if fatal {
                status_result("Failed to run make"@, status)
            } else {
                Ok(())
            },
            StepView::Tool { cmd, fatal } => if fatal {
                status_result("Failed to run config tool"@, status)
            } else {
                Ok(())
            },
            StepView::Boot { qemu } => status_result("Failed to run qemu"@, status),
            _ => Ok(()),
        }
    }

    /// What it means that the step could not be carried out at all: the
    /// plan goes on after a `make` that need not succeed and after a file
    /// that could not be touched; every other step ends it with `error`.
    pub open spec fn failed(self, error: ErrorView) -> Result<(), ErrorView> {
        match self {
            StepView::Make { make, fatal } => if fatal {
                Err(error)
            } else {
                Ok(())
            },
            StepView::Touch { path } => Ok(()),
            _ => Err(error),
        }
    }
}

impl Step {
    /// What the exit status of the step's child means for the plan: go on,
    /// or end with the failure that carries the child's exit code.
    pub fn exited(&self, status: Option<i32>) -> (r: Result<(), Error>)
        ensures
            unit_view(r) == self@.exited(status),
    {
        match self {
            Step::Make { make, fatal } => {
                if *fatal {
                    make.run(status)
                } else {
                    Ok(())
                }
            },
            Step::Tool { cmd, fatal } => {
                if *fatal {
                    Error::check_status("Failed to run config tool", status)
                } else {
                    Ok(())
                }
            },
            Step::Boot { qemu } => qemu.run(status),
            _ => Ok(()),
        }
    }

    /// What it means for the plan that the step could not be carried out
    /// at all, for the reason `error`: go on, or end with that failure.
    pub fn failed(&self, error: Error) -> (r: Result<(), Error>)
        ensures
            unit_view(r) == self@.failed(error@),
    {
        match self {
            Step::Make { make, fatal } => {
                if *fatal {
                    Err(error)
                } else {
                    Ok(())
                }
            },
            Step::Touch { path } => Ok(()),
            _ => Err(error),
        }
    }
}

/// The models of a sequence of steps.
pub open spec fn step_views(v: Seq<Step>) -> Seq<StepView> {
    Seq::new(v.len(), |i: int| v[i]@)
}

/// The step that runs `make` for `command`.
pub open spec fn make_step(
    config: ConfigView,
    arch: Arch,
    jobs: usize,
    command: Option<Seq<char>>,
    args: Seq<Seq<char>>,
    fatal: bool,
) -> StepView {
    StepView::Make { make: make_cmd(config, arch, jobs, command, args), fatal }
}

/// The file that boots on `arch`, as the kernel build names it below
/// `arch/<kernel arch>/boot`. Nothing for an architecture whose boot image
/// is not known.
pub open spec fn boot_image_of(arch: Arch) -> Option<Seq<char>> {
    match arch {
        Arch::X86 => Some("bzImage"@),
        Arch::X86_64 => Some("bzImage"@),
        Arch::Aarch64 => Some("Image"@),
        Arch::Mips => Some("vmlinux.strip"@),
        _ => None,
    }
}

/// Where the kernel build leaves the boot images of `arch`.
pub open spec fn boot_dir_of(config: ConfigView, arch: Arch) -> Seq<char> {
    joined(joined(joined(config.make.make_build_dir(arch), "arch"@), arch.spec_kernel_arch()), "boot"@)
}

/// The step that installs `src` as `name` in the kernel directory, readable
/// by all and writable by the owner.
pub open spec fn install_step(config: ConfigView, arch: Arch, src: Seq<char>, name: Seq<char>) -> StepView {
    StepView::Install { src, dst: joined(config.make.kernel_bin_dir(arch), name), mode: 0o644u32 }
}

/// The steps after the kernel is built: install the boot image as
/// `vmlinuz`, then `vmlinux` and the configuration; make sure the module
/// lists exist; install the modules, whether that works or not; read the
/// kernel release. For an architecture without a known boot image, fail.
pub open spec fn install_steps(config: ConfigView, arch: Arch, jobs: usize, args: Seq<Seq<char>>) -> Seq<StepView> {
    let build = config.make.make_build_dir(arch);
    match boot_image_of(arch) {
        None => seq![StepView::Fail { error: unsupported_arch(arch) }],
        Some(image) => seq![
            install_step(config, arch, joined(boot_dir_of(config, arch), image), "vmlinuz"@),
            install_step(config, arch, joined(build, "vmlinux"@), "vmlinux"@),
            install_step(config, arch, joined(build, ".config"@), "config"@),
            StepView::Touch { path: joined(build, "modules.order"@) },
            StepView::Touch { path: joined(build, "modules.builtin"@) },
            make_step(config, arch, jobs, Some("modules_install"@), args, false),
            StepView::ReadRelease { path: joined(build, "include/config/kernel.release"@) },
        ],
    }
}

/// The steps of a build: bring the configuration about, let the kernel
/// normalise it, verify every required option, build, install.
pub open spec fn build_steps(
    config: ConfigView,
    arch: Arch,
    jobs: usize,
    args: Seq<Seq<char>>,
    exists: bool,
) -> Seq<StepView> {
    new_config_steps(config, arch, jobs, args, exists) + seq![
        make_step(config, arch, jobs, Some("olddefconfig"@), args, true),
    ] + check_config_steps(config, config.make.config_file(arch), config.make.kconfig) + seq![
        make_step(config, arch, jobs, None, args, true),
    ] + install_steps(config, arch, jobs, args)
}

/// The complaint that no boot image is known for `arch`.
pub open spec fn unsupported_arch(arch: Arch) -> ErrorView {
    ErrorView::message("Unsupported architecture: "@ + arch.spec_name())
}

/// Whether the step runs `make` for the target `allnoconfig`, which seeds
/// a kernel configuration.
pub open spec fn seeds_config(
    step: StepView,
    config: ConfigView,
    arch: Arch,
    jobs: usize,
    args: Seq<Seq<char>>,
) -> bool {
    match step {
        StepView::Make { make, fatal } => make == make_cmd(
            config,
            arch,
            jobs,
            Some("allnoconfig"@),
            args,
        ),
        _ => false,
    }
}

/// A run of `make` for another target than `allnoconfig` does not seed.
pub proof fn lemma_other_target_does_not_seed(
    config: ConfigView,
    arch: Arch,
    jobs: usize,
    command: Option<Seq<char>>,
    args: Seq<Seq<char>>,
    fatal: bool,
)
    requires
        command != Some("allnoconfig"@),
    ensures
        !seeds_config(make_step(config, arch, jobs, command, args, fatal), config, arch, jobs, args),
{
    if seeds_config(make_step(config, arch, jobs, command, args, fatal), config, arch, jobs, args) {
        lemma_make_cmd_tells_targets_apart(config, arch, jobs, command, Some("allnoconfig"@), args);
    }
}

/// A build over a configuration that exists never seeds it again: none of
/// its steps runs `allnoconfig`.
pub proof fn lemma_existing_config_is_not_seeded(
    config: ConfigView,
    arch: Arch,
    jobs: usize,
    args: Seq<Seq<char>>,
)
    ensures
        forall|i: int|
            0 <= i < build_steps(config, arch, jobs, args, true).len() ==> !seeds_config(
                #[trigger] build_steps(config, arch, jobs, args, true)[i],
                config,
                arch,
                jobs,
                args,
            ),
{
    let steps = build_steps(config, arch, jobs, args, true);
    let set = new_config_steps(config, arch, jobs, args, true);
    let check = check_config_steps(config, config.make.config_file(arch), config.make.kconfig);
    let tail = install_steps(config, arch, jobs, args);
    reveal_strlit("allnoconfig");
    reveal_strlit("olddefconfig");
    reveal_strlit("modules_install");
    assert("olddefconfig"@[0] != "allnoconfig"@[0]);
    assert("modules_install"@[0] != "allnoconfig"@[0]);
    lemma_other_target_does_not_seed(config, arch, jobs, Some("olddefconfig"@), args, true);
    lemma_other_target_does_not_seed(config, arch, jobs, None, args, true);
    lemma_other_target_does_not_seed(config, arch, jobs, Some("modules_install"@), args, false);
    assert forall|i: int| 0 <= i < steps.len() implies !seeds_config(
        #[trigger] steps[i],
        config,
        arch,
        jobs,
        args,
    ) by {
        if i < set.len() {
            assert(steps[i] == set[i]);
            assert(steps[i] is Tool);
        } else if i == set.len() {
            assert(steps[i] == make_step(config, arch, jobs, Some("olddefconfig"@), args, true));
        } else if i < set.len() + 1 + check.len() {
            assert(steps[i] == check[i - set.len() - 1]);
            assert(steps[i] is Query);
        } else if i == set.len() + 1 + check.len() {
            assert(steps[i] == make_step(config, arch, jobs, None, args, true));
        } else {
            assert(steps[i] == tail[i - set.len() - 2 - check.len()]);
        }
    }
}

/// A build over a configuration that does not exist starts by seeding it.
pub proof fn lemma_missing_config_is_seeded_first(
    config: ConfigView,
    arch: Arch,
    jobs: usize,
    args: Seq<Seq<char>>,
)
    ensures
        seeds_config(build_steps(config, arch, jobs, args, false)[0], config, arch, jobs, args),
{
}

/// The file that boots on `arch`, as the kernel build names it.
pub fn boot_image(arch: Arch) -> (r: Option<&'static str>)
    ensures
        match r {
            Some(s) => boot_image_of(arch) == Some(s@),
            None => boot_image_of(arch) is None,
        },
{
    match arch {
        Arch::X86 => Some("bzImage"),
        Arch::X86_64 => Some("bzImage"),
        Arch::Aarch64 => Some("Image"),
        Arch::Mips => Some("vmlinux.strip"),
        _ => None,
    }
}

/// The complaint that no boot image is known for `arch`.
pub fn unsupported(arch: Arch) -> (r: Error)
    ensures
        r@ == unsupported_arch(arch),
{
    Error::new(concat2("Unsupported architecture: ", arch.name()).as_str())
}

/// The kernel release that the release file holds: its content without the
/// white space around it.
pub fn kernel_release(content: &str) -> (r: String)
    ensures
        r@ == trimmed(content@),
{
    trim(content)
}

/// The step that installs `src` as `name` in the kernel directory.
fn install(config: &Config, src: String, name: &str) -> (r: Step)
    requires
        config.make.arch is Some,
    ensures
        r@ == install_step(config@, config.make.arch->0, src@, name@),
{
    Step::Install { src, dst: join_path(config.make.kernel_bin_dir().as_str(), name), mode: 0o644u32 }
}

/// The steps of a build, in order. `args` are the caller's arguments to
/// every run of `make`; `config_exists` says whether the build directory
/// already holds a kernel configuration.
pub fn build(config: &Config, args: &Vec<String>, config_exists: bool) -> (r: Vec<Step>)
    requires
        config.make.arch is Some,
        config.make.jobs is Some,
    ensures
        step_views(r@) == build_steps(
            config@,
            config.make.arch->0,
            config.make.jobs->0,
            views(args@),
            config_exists,
        ),
{
    let arch = config.make.arch.unwrap();
    let ghost jobs = config.make.jobs->0;
    let build_dir = config.make.make_build_dir();
    let mut steps = new_config(config, args, config_exists);
    let ghost s1 = step_views(steps@);
    steps.push(Step::Make { make: MakeCmd::new(config, Some("olddefconfig"), args), fatal: true });
    let ghost s2 = step_views(steps@);
    assert(s2 =~= s1 + seq![make_step(config@, arch, jobs, Some("olddefconfig"@), views(args@), true)]);
    let mut checks = check_configs(config, config.make.config_file().as_str());
    let ghost c = step_views(checks@);
    steps.append(&mut checks);
    let ghost s3 = step_views(steps@);
    assert(s3 =~= s2 + c);
    steps.push(Step::Make { make: MakeCmd::new(config, None, args), fatal: true });
    let ghost s4 = step_views(steps@);
    assert(s4 =~= s3 + seq![make_step(config@, arch, jobs, None, views(args@), true)]);
    match boot_image(arch) {
        None => {
            steps.push(Step::Fail { error: unsupported(arch) });
        },
        Some(image) => {
            let boot = join_path(
                join_path(join_path(build_dir.as_str(), "arch").as_str(), arch.kernel_arch()).as_str(),
                "boot",
            );
            steps.push(install(config, join_path(boot.as_str(), image), "vmlinuz"));
            steps.push(install(config, join_path(build_dir.as_str(), "vmlinux"), "vmlinux"));
            steps.push(install(config, join_path(build_dir.as_str(), ".config"), "config"));
            steps.push(Step::Touch { path: join_path(build_dir.as_str(), "modules.order") });
            steps.push(Step::Touch { path: join_path(build_dir.as_str(), "modules.builtin") });
            steps.push(
                Step::Make { make: MakeCmd::new(config, Some("modules_install"), args), fatal: false },
            );
            steps.push(
                Step::ReadRelease {
                    path: join_path(build_dir.as_str(), "include/config/kernel.release"),
                },
            );
        },
    }
    assert(step_views(steps@) =~= s4 + install_steps(config@, arch, jobs, views(args@)));
    steps
}

} // verus!
