//! The kernel configuration of a build: how it is seeded, how the required
//! options are set in it, and how each of them is verified afterwards.

use crate::kbuild::{make_step, step_views, Step, StepView};
use crate::config::arch::Arch;
use crate::config::kconfig::{kconfig_views, KConfig, KConfigView};
use crate::config::{Config, ConfigView};
use crate::err::{succeeded, unit_view, Error, ErrorKindView, ErrorView};
use crate::make::MakeCmd;
use crate::path::{join_path, joined};
use crate::process::{string_from_utf8, utf8_error_text, Invocation, InvocationView, Output};
use crate::text::{str_eq, trim, trimmed, views};
use vstd::prelude::*;
use vstd::string::*;

verus! {

/// The kernel's own configuration tool: `scripts/config` in the source tree.
pub open spec fn config_tool_of(config: ConfigView) -> Seq<char> {
    joined(joined(config.make.kernel_dir, "scripts"@), "config"@)
}

/// The run of the configuration tool that sets `cfg` in `file`.
pub open spec fn set_config_cmd(config: ConfigView, file: Seq<char>, cfg: KConfigView) -> InvocationView {
    InvocationView {
        program: config_tool_of(config),
        args: seq!["--file"@, file, "--set-val"@, cfg.key, cfg.value_or_default()],
        envs: seq![],
        current_dir: None,
    }
}

/// The run of the configuration tool that prints the state of `cfg` in `file`.
pub open spec fn check_config_cmd(config: ConfigView, file: Seq<char>, cfg: KConfigView) -> InvocationView {
    InvocationView {
        program: config_tool_of(config),
        args: seq!["--file"@, file, "-s"@, cfg.key],
        envs: seq![],
        current_dir: None,
    }
}

/// The run of `sed` that turns every option set in `file` into one that is
/// not set.
pub open spec fn clear_config_cmd(file: Seq<char>) -> InvocationView {
    InvocationView {
        program: "sed"@,
        args: seq!["-i"@, "-e"@, "s/\\(CONFIG_.*\\)=.*/# \\1 is not set/"@, file],
        envs: seq![],
        current_dir: None,
    }
}

/// The steps that set each of `configs` in `file`, in order. Each must succeed.
pub open spec fn set_config_steps(config: ConfigView, file: Seq<char>, configs: Seq<KConfigView>) -> Seq<StepView> {
    Seq::new(
        configs.len(),
        |i: int| StepView::Tool { cmd: set_config_cmd(config, file, configs[i]), fatal: true },
    )
}

/// The steps that verify each of `configs` in `file`, in order.
pub open spec fn check_config_steps(config: ConfigView, file: Seq<char>, configs: Seq<KConfigView>) -> Seq<StepView> {
    Seq::new(
        configs.len(),
        |i: int| StepView::Query { query: check_config_cmd(config, file, configs[i]), cfg: configs[i] },
    )
}

/// The steps that seed a configuration in which nothing is set: the
/// kernel's `allnoconfig`, then the rewrite of whatever it did set, however
/// that rewrite ends.
pub open spec fn seed_steps(config: ConfigView, arch: Arch, jobs: usize, args: Seq<Seq<char>>) -> Seq<StepView> {
    seq![
        make_step(config, arch, jobs, Some("allnoconfig"@), args, true),
        StepView::Tool { cmd: clear_config_cmd(config.make.config_file(arch)), fatal: false },
    ]
}

/// The steps that bring the kernel configuration about: it is seeded unless
/// it exists, then every required option is set.
pub open spec fn new_config_steps(
    config: ConfigView,
    arch: Arch,
    jobs: usize,
    args: Seq<Seq<char>>,
    exists: bool,
) -> Seq<StepView> {
    let set = set_config_steps(config, config.make.config_file(arch), config.make.kconfig);
    if exists {
        set
    } else {
        seed_steps(config, arch, jobs, args) + set
    }
}

/// What the tool said of an option, made comparable: white space around
/// the answer does not count, and the answer `undef` counts as `n`.
pub open spec fn canonical_answer(answer: Seq<char>) -> Seq<char> {
    if trimmed(answer) == "undef"@ {
        "n"@
    } else {
        trimmed(answer)
    }
}

/// The complaint that `key` is `actual` where `expected` was required.
pub open spec fn mismatch_text(key: Seq<char>, actual: Seq<char>, expected: Seq<char>) -> Seq<char> {
    "Config mismatch: `"@ + key + "`: `"@ + actual + "` != `"@ + expected + "`"@
}

/// What the tool's answer means for `cfg`: nothing when the tool succeeded
/// and its answer is the required value; else the failure of the tool with
/// its exit code, the complaint that its answer is no UTF-8, or the
/// mismatch, which leaves with code 1.
pub open spec fn checked(cfg: KConfigView, status: Option<i32>, stdout: Seq<u8>) -> Result<(), ErrorView> {
    if !succeeded(status) {
        Err(ErrorView::tool_failure("Failed to run config tool"@, status))
    } else if !vstd::utf8::valid_utf8(stdout) {
        Err(
            ErrorView {
                exit_code: None,
                context: Seq::<char>::empty(),
                kind: ErrorKindView::Utf8(utf8_error_text(stdout)),
            },
        )
    } else {
        let actual = canonical_answer(vstd::utf8::decode_utf8(stdout));
        if actual == cfg.value_or_default() {
            Ok(())
        } else {
            Err(
                ErrorView::message(mismatch_text(cfg.key, actual, cfg.value_or_default())).with_exit_code(
                    Some(1i32),
                ),
            )
        }
    }
}

/// The kernel's own configuration tool: `scripts/config` in the source tree.
pub fn config_tool(config: &Config) -> (r: String)
    ensures
        r@ == config_tool_of(config@),
{
    join_path(join_path(config.make.kernel_dir.as_str(), "scripts").as_str(), "config")
}

/// The run of the configuration tool that sets `cfg` in `file`, to the
/// value asked for or to `y`.
pub fn set_config(config: &Config, file: &str, cfg: &KConfig) -> (r: Invocation)
    ensures
        r@ == set_config_cmd(config@, file@, cfg@),
{
    let mut args: Vec<String> = Vec::new();
    args.push("--file".to_owned());
    args.push(file.to_owned());
    args.push("--set-val".to_owned());
    args.push(cfg.key.clone());
    args.push(cfg.value_or_default());
    let r = Invocation { program: config_tool(config), args, envs: Vec::new(), current_dir: None };
    proof {
        assert(r@.envs =~= Seq::<(Seq<char>, Seq<char>)>::empty());
        assert(r@.args =~= set_config_cmd(config@, file@, cfg@).args);
    }
    r
}

/// The run of the configuration tool that prints the state of `cfg` in `file`.
pub fn check_config_query(config: &Config, file: &str, cfg: &KConfig) -> (r: Invocation)
    ensures
        r@ == check_config_cmd(config@, file@, cfg@),
{
    let mut args: Vec<String> = Vec::new();
    args.push("--file".to_owned());
    args.push(file.to_owned());
    args.push("-s".to_owned());
    args.push(cfg.key.clone());
    let r = Invocation { program: config_tool(config), args, envs: Vec::new(), current_dir: None };
    proof {
        assert(r@.envs =~= Seq::<(Seq<char>, Seq<char>)>::empty());
        assert(r@.args =~= check_config_cmd(config@, file@, cfg@).args);
    }
    r
}

/// The run of `sed` that turns every option set in `file` into one that is
/// not set.
fn clear_config(file: &str) -> (r: Invocation)
    ensures
        r@ == clear_config_cmd(file@),
{
    let mut args: Vec<String> = Vec::new();
    args.push("-i".to_owned());
    args.push("-e".to_owned());
    args.push("s/\\(CONFIG_.*\\)=.*/# \\1 is not set/".to_owned());
    args.push(file.to_owned());
    let r = Invocation { program: "sed".to_owned(), args, envs: Vec::new(), current_dir: None };
    proof {
        assert(r@.envs =~= Seq::<(Seq<char>, Seq<char>)>::empty());
        assert(r@.args =~= clear_config_cmd(file@).args);
    }
    r
}

/// The steps that bring the kernel configuration about. `config_exists`
/// says whether the build directory already holds one: if not, it is seeded
/// with nothing set; in either case every required option is then set.
pub fn new_config(config: &Config, args: &Vec<String>, config_exists: bool) -> (r: Vec<Step>)
    requires
        config.make.arch is Some,
        config.make.jobs is Some,
    ensures
        step_views(r@) == new_config_steps(
            config@,
            config.make.arch->0,
            config.make.jobs->0,
            views(args@),
            config_exists,
        ),
{
    let file = config.make.config_file();
    let mut steps: Vec<Step> = Vec::new();
    if !config_exists {
        steps.push(Step::Make { make: MakeCmd::new(config, Some("allnoconfig"), args), fatal: true });
        steps.push(Step::Tool { cmd: clear_config(file.as_str()), fatal: false });
    }
    let ghost head = step_views(steps@);
    let ghost arch = config.make.arch->0;
    let ghost set = set_config_steps(config@, file@, config@.make.kconfig);
    proof {
        if config_exists {
            assert(head =~= Seq::<StepView>::empty());
        } else {
            assert(head =~= seed_steps(config@, arch, config.make.jobs->0, views(args@)));
        }
    }
    let configs = config.make.kconfig.values();
    let mut i: usize = 0;
    while i < configs.len()
        invariant
            i <= configs.len(),
            kconfig_views(configs@) == config@.make.kconfig,
            set == set_config_steps(config@, file@, config@.make.kconfig),
            step_views(steps@) == head + set.take(i as int),
        decreases configs.len() - i,
    {
        let ghost before = step_views(steps@);
        assert(kconfig_views(configs@)[i as int] == configs@[i as int]@);
        steps.push(Step::Tool { cmd: set_config(config, file.as_str(), &configs[i]), fatal: true });
        proof {
            assert(step_views(steps@) =~= before.push(set[i as int]));
            assert(set.take(i + 1) =~= set.take(i as int).push(set[i as int]));
        }
        i = i + 1;
    }
    proof {
        assert(set.take(configs.len() as int) =~= set);
        if config_exists {
            assert(head + set =~= set);
        }
    }
    steps
}

/// The steps that verify every required option in `file`, in order.
pub fn check_configs(config: &Config, file: &str) -> (r: Vec<Step>)
    ensures
        step_views(r@) == check_config_steps(config@, file@, config@.make.kconfig),
{
    let ghost goal = check_config_steps(config@, file@, config@.make.kconfig);
    let configs = config.make.kconfig.values();
    let mut steps: Vec<Step> = Vec::new();
    let mut i: usize = 0;
    assert(step_views(steps@) =~= goal.take(0));
    while i < configs.len()
        invariant
            i <= configs.len(),
            kconfig_views(configs@) == config@.make.kconfig,
            goal == check_config_steps(config@, file@, config@.make.kconfig),
            step_views(steps@) == goal.take(i as int),
        decreases configs.len() - i,
    {
        let ghost before = step_views(steps@);
        assert(kconfig_views(configs@)[i as int] == configs@[i as int]@);
        steps.push(
            Step::Query {
                query: check_config_query(config, file, &configs[i]),
                cfg: configs[i].duplicate(),
            },
        );
        proof {
            assert(step_views(steps@) =~= before.push(goal[i as int]));
            assert(goal.take(i + 1) =~= goal.take(i as int).push(goal[i as int]));
        }
        i = i + 1;
    }
    proof {
        assert(goal.take(configs.len() as int) =~= goal);
    }
    steps
}

/// What the tool's answer means for `cfg`. The tool must have succeeded and
/// answered in UTF-8; its answer, with the white space around it dropped and
/// `undef` read as `n`, must be the required value. A mismatch names the
/// key, the answer and the required value, and leaves with code 1.
pub fn check_config(cfg: &KConfig, output: &Output) -> (r: Result<(), Error>)
    ensures
        unit_view(r) == checked(cfg@, output.status, output.stdout@),
{
    match output.status {
        Some(0) => {},
        _ => {
            return Err(Error::new("Failed to run config tool").set_exit_code(output.status));
        },
    }
    let answer = match string_from_utf8(&output.stdout) {
        Ok(s) => s,
        Err(m) => {
            return Err(Error::from_utf8(m.as_str()));
        },
    };
    let said = trim(answer.as_str());
    let actual = if str_eq(said.as_str(), "undef") {
        "n".to_owned()
    } else {
        said
    };
    let expected = cfg.value_or_default();
    if str_eq(actual.as_str(), expected.as_str()) {
        Ok(())
    } else {
        let mut message = "Config mismatch: `".to_owned();
        message.append(cfg.key.as_str());
        message.append("`: `");
        message.append(actual.as_str());
        message.append("` != `");
        message.append(expected.as_str());
        message.append("`");
        Err(Error::new(message.as_str()).set_exit_code(Some(1)))
    }
}

} // verus!
