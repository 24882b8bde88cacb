use ktest::boot::{maxmem, QemuCmd};
use ktest::commands::{boot, make, run, Subcommand};
use ktest::config::{Arch, ArchTable, Config, KConfig, KConfigMap, KTest, Make, Qemu, QemuConfig};
use ktest::deps::Deps;
use ktest::err::{Context, Error, ErrorKind};
use ktest::host::{arch_from_machine, get_arch, get_nprocs, nprocs_from, SysError};
use ktest::kbuild::{boot_image, build, kernel_release, unsupported, Step};
use ktest::kconfig::{check_config, check_config_query, check_configs, config_tool, new_config, set_config};
use ktest::make::MakeCmd;
use ktest::process::{Invocation, Output};

fn strings(items: &[&str]) -> Vec<String> {
    items.iter().map(|s| s.to_string()).collect()
}

fn config(arch: Arch, storage_bus: &str) -> Config {
    let mut table = ArchTable::new();
    table.insert(
        Arch::X86_64,
        QemuConfig {
            path: "qemu-system-x86_64".to_string(),
            args: strings(&["-machine", "q35"]),
            kernel_args: strings(&["console=ttyS0"]),
        },
    );
    let mut kconfig = KConfigMap::new();
    kconfig.insert(KConfig { key: "CONFIG_FOO".to_string(), value: None });
    kconfig.insert(KConfig { key: "CONFIG_BAR".to_string(), value: Some("m".to_string()) });
    Config {
        qemu: Qemu {
            path_override: None,
            extra_args: strings(&["-nographic"]),
            extra_kernel_args: strings(&["quiet"]),
            arch_config: table,
            storage_bus: storage_bus.to_string(),
            mem: "2G".to_string(),
            cpus: 4,
        },
        make: Make {
            path: "make".to_string(),
            jobs: Some(8),
            arch: Some(arch),
            out_dir: "/out".to_string(),
            kernel_dir: "/src/linux".to_string(),
            extra_make_args: strings(&["V=1"]),
            kconfig,
        },
        ktest: KTest { lib_path: None },
    }
}

fn make_step(target: Option<&str>, fatal: bool) -> Step {
    let mut args = strings(&["ARCH=x86", "O=/out/kernel_build.x86", "INSTALL_MOD_PATH=/out/kernel.x86", "V=1"]);
    if let Some(t) = target {
        args.push(t.to_string());
    }
    args.push("-k".to_string());
    Step::Make {
        make: MakeCmd {
            cmd: Invocation {
                program: "make".to_string(),
                args,
                envs: Vec::new(),
                current_dir: Some("/src/linux".to_string()),
            },
            jobs: 8,
        },
        fatal,
    }
}

fn tool(args: &[&str]) -> Invocation {
    Invocation {
        program: "/src/linux/scripts/config".to_string(),
        args: strings(args),
        envs: Vec::new(),
        current_dir: None,
    }
}

fn expected_build(exists: bool) -> Vec<Step> {
    let file = "/out/kernel_build.x86/.config";
    let mut steps = Vec::new();
    if !exists {
        steps.push(make_step(Some("allnoconfig"), true));
        steps.push(Step::Tool {
            cmd: Invocation {
                program: "sed".to_string(),
                args: strings(&["-i", "-e", "s/\\(CONFIG_.*\\)=.*/# \\1 is not set/", file]),
                envs: Vec::new(),
                current_dir: None,
            },
            fatal: false,
        });
    }
    steps.push(Step::Tool { cmd: tool(&["--file", file, "--set-val", "CONFIG_FOO", "y"]), fatal: true });
    steps.push(Step::Tool { cmd: tool(&["--file", file, "--set-val", "CONFIG_BAR", "m"]), fatal: true });
    steps.push(make_step(Some("olddefconfig"), true));
    steps.push(Step::Query {
        query: tool(&["--file", file, "-s", "CONFIG_FOO"]),
        cfg: KConfig { key: "CONFIG_FOO".to_string(), value: None },
    });
    steps.push(Step::Query {
        query: tool(&["--file", file, "-s", "CONFIG_BAR"]),
        cfg: KConfig { key: "CONFIG_BAR".to_string(), value: Some("m".to_string()) },
    });
    steps.push(make_step(None, true));
    steps.push(Step::Install {
        src: "/out/kernel_build.x86/arch/x86/boot/bzImage".to_string(),
        dst: "/out/kernel.x86/vmlinuz".to_string(),
        mode: 0o644,
    });
    steps.push(Step::Install {
        src: "/out/kernel_build.x86/vmlinux".to_string(),
        dst: "/out/kernel.x86/vmlinux".to_string(),
        mode: 0o644,
    });
    steps.push(Step::Install {
        src: "/out/kernel_build.x86/.config".to_string(),
        dst: "/out/kernel.x86/config".to_string(),
        mode: 0o644,
    });
    steps.push(Step::Touch { path: "/out/kernel_build.x86/modules.order".to_string() });
    steps.push(Step::Touch { path: "/out/kernel_build.x86/modules.builtin".to_string() });
    steps.push(make_step(Some("modules_install"), false));
    steps.push(Step::ReadRelease { path: "/out/kernel_build.x86/include/config/kernel.release".to_string() });
    steps
}

fn expected_qemu(root: &str) -> QemuCmd {
    QemuCmd {
        cmd: Invocation {
            program: "qemu-system-x86_64".to_string(),
            args: strings(&[
                "-machine",
                "q35",
                "-nographic",
                "-m",
                "2G,slots=8,maxmem=3G",
                "-smp",
                "4",
                "-kernel",
                "/out/kernel.x86/vmlinuz",
                "-append",
                &format!("console=ttyS0 quiet {}", root),
                "-serial",
                "unix:/out/vm/kgdb,server,nowait",
                "-monitor",
                "unix:/out/vm/mon,server,nowait",
                "-gdb",
                "unix:/out/vm/gdb,server,nowait",
            ]),
            envs: Vec::new(),
            current_dir: None,
        },
    }
}

fn is_allnoconfig(step: &Step) -> bool {
    match step {
        Step::Make { make, .. } => make.cmd.args.iter().any(|a| a == "allnoconfig"),
        _ => false,
    }
}

#[test]
fn make_command_line() {
    let c = config(Arch::X86_64, "");
    let cmd = MakeCmd::new(&c, Some("bzImage"), &strings(&["-k", "W=1"]));
    assert_eq!(cmd.cmd.program, "make");
    assert_eq!(
        cmd.cmd.args,
        strings(&["ARCH=x86", "O=/out/kernel_build.x86", "INSTALL_MOD_PATH=/out/kernel.x86", "V=1", "bzImage", "-k", "W=1"])
    );
    assert_eq!(cmd.cmd.current_dir, Some("/src/linux".to_string()));
    assert!(cmd.cmd.envs.is_empty());
    assert_eq!(cmd.jobs, 8);
    let plain = MakeCmd::new(&c, None, &Vec::new());
    assert_eq!(
        plain.cmd.args,
        strings(&["ARCH=x86", "O=/out/kernel_build.x86", "INSTALL_MOD_PATH=/out/kernel.x86", "V=1"])
    );
}

#[test]
fn make_status_carries_exit_code() {
    let c = config(Arch::X86_64, "");
    let cmd = MakeCmd::new(&c, None, &Vec::new());
    assert_eq!(cmd.run(Some(0)), Ok(()));
    let err = cmd.run(Some(2)).unwrap_err();
    assert_eq!(err.to_string(), "Failed to run make");
    assert_eq!(err.exit_code(), 2);
    assert_eq!(cmd.run(None).unwrap_err().exit_code(), 1);
}

#[test]
fn build_plan_without_config_seeds_it() {
    let c = config(Arch::X86_64, "");
    let steps = build(&c, &strings(&["-k"]), false);
    assert_eq!(steps, expected_build(false));
    assert!(is_allnoconfig(&steps[0]));
}

#[test]
fn build_plan_with_config_does_not_seed_it() {
    let c = config(Arch::X86_64, "");
    let steps = build(&c, &strings(&["-k"]), true);
    assert_eq!(steps, expected_build(true));
    assert!(!steps.iter().any(is_allnoconfig));
}

#[test]
fn build_plan_validates_before_it_builds() {
    let c = config(Arch::X86_64, "");
    let steps = build(&c, &strings(&["-k"]), true);
    let build_at = steps.iter().position(|s| *s == make_step(None, true)).unwrap();
    for (i, step) in steps.iter().enumerate() {
        match step {
            Step::Query { .. } => assert!(i < build_at),
            Step::Install { .. } | Step::Touch { .. } | Step::ReadRelease { .. } => assert!(i > build_at),
            _ => {}
        }
    }
}

#[test]
fn build_plan_fails_for_arch_without_boot_image() {
    for arch in [Arch::Mips64, Arch::Sparc, Arch::Sparc64, Arch::PowerPC, Arch::PowerPC64] {
        let c = config(arch, "");
        let steps = build(&c, &Vec::new(), true);
        let last = steps.last().unwrap();
        assert_eq!(*last, Step::Fail { error: unsupported(arch) });
        assert_eq!(unsupported(arch).to_string(), format!("Unsupported architecture: {}", arch.name()));
        assert!(!steps.iter().any(|s| matches!(s, Step::Install { .. })));
    }
}

#[test]
fn boot_image_of_each_arch() {
    assert_eq!(boot_image(Arch::X86), Some("bzImage"));
    assert_eq!(boot_image(Arch::X86_64), Some("bzImage"));
    assert_eq!(boot_image(Arch::Aarch64), Some("Image"));
    assert_eq!(boot_image(Arch::Mips), Some("vmlinux.strip"));
    assert_eq!(boot_image(Arch::Mips64), None);
    let c = config(Arch::Aarch64, "");
    let steps = build(&c, &Vec::new(), true);
    assert!(steps.contains(&Step::Install {
        src: "/out/kernel_build.arm64/arch/arm64/boot/Image".to_string(),
        dst: "/out/kernel.arm64/vmlinuz".to_string(),
        mode: 0o644,
    }));
}

#[test]
fn kernel_release_is_trimmed() {
    assert_eq!(kernel_release("6.1.0-rc3+\n"), "6.1.0-rc3+");
    assert_eq!(kernel_release("  6.1.0 \t\n"), "6.1.0");
    assert_eq!(kernel_release(""), "");
}

#[test]
fn kconfig_steps() {
    let c = config(Arch::X86_64, "");
    let file = "/out/kernel_build.x86/.config";
    assert_eq!(config_tool(&c), "/src/linux/scripts/config");
    let foo = KConfig { key: "CONFIG_FOO".to_string(), value: None };
    assert_eq!(set_config(&c, file, &foo), tool(&["--file", file, "--set-val", "CONFIG_FOO", "y"]));
    assert_eq!(check_config_query(&c, file, &foo), tool(&["--file", file, "-s", "CONFIG_FOO"]));
    assert_eq!(new_config(&c, &strings(&["-k"]), true), expected_build(true)[..2].to_vec());
    assert_eq!(new_config(&c, &strings(&["-k"]), false), expected_build(false)[..4].to_vec());
    assert_eq!(check_configs(&c, file), expected_build(true)[3..5].to_vec());
}

#[test]
fn kconfig_tool_failure_is_fatal() {
    let c = config(Arch::X86_64, "");
    let set = &new_config(&c, &Vec::new(), true)[0];
    assert_eq!(set.exited(Some(0)), Ok(()));
    let err = set.exited(Some(4)).unwrap_err();
    assert_eq!(err.to_string(), "Failed to run config tool");
    assert_eq!(err.exit_code(), 4);
    let sed = &new_config(&c, &Vec::new(), false)[1];
    assert_eq!(sed.exited(Some(4)), Ok(()));
    assert_eq!(sed.failed(Error::from_io(Some(2), "no sed")), Err(Error::from_io(Some(2), "no sed")));
    for step in new_config(&c, &Vec::new(), false) {
        match step {
            Step::Tool { cmd, fatal } => assert_eq!(fatal, cmd.program != "sed"),
            Step::Make { fatal, .. } => assert!(fatal),
            _ => unreachable!(),
        }
    }
}

#[test]
fn kconfig_undef_against_y_is_a_mismatch() {
    let foo = KConfig { key: "CONFIG_FOO".to_string(), value: Some("y".to_string()) };
    let err = check_config(&foo, &Output { status: Some(0), stdout: b"undef".to_vec() }).unwrap_err();
    assert_eq!(err.to_string(), "Config mismatch: `CONFIG_FOO`: `n` != `y`");
    assert_eq!(err.exit_code(), 1);
    assert_eq!(err.exit_code, Some(1));
}

#[test]
fn kconfig_check_accepts_required_value() {
    let foo = KConfig { key: "CONFIG_FOO".to_string(), value: None };
    assert_eq!(check_config(&foo, &Output { status: Some(0), stdout: b"y\n".to_vec() }), Ok(()));
    let bar = KConfig { key: "CONFIG_BAR".to_string(), value: Some("m".to_string()) };
    assert_eq!(check_config(&bar, &Output { status: Some(0), stdout: b" m \n".to_vec() }), Ok(()));
    let off = KConfig { key: "CONFIG_OFF".to_string(), value: Some("n".to_string()) };
    assert_eq!(check_config(&off, &Output { status: Some(0), stdout: b"undef".to_vec() }), Ok(()));
    let err = check_config(&bar, &Output { status: Some(0), stdout: b"y\n".to_vec() }).unwrap_err();
    assert_eq!(err.to_string(), "Config mismatch: `CONFIG_BAR`: `y` != `m`");
}

#[test]
fn kconfig_check_reads_undef_as_n_whatever_surrounds_it() {
    let off = KConfig { key: "CONFIG_OFF".to_string(), value: Some("n".to_string()) };
    for answer in ["undef", "undef\n", " undef", "\tundef \r\n"] {
        let out = Output { status: Some(0), stdout: answer.as_bytes().to_vec() };
        assert_eq!(check_config(&off, &out), Ok(()));
    }
    let foo = KConfig { key: "CONFIG_FOO".to_string(), value: None };
    let err = check_config(&foo, &Output { status: Some(0), stdout: b"undef\n".to_vec() }).unwrap_err();
    assert_eq!(err.to_string(), "Config mismatch: `CONFIG_FOO`: `n` != `y`");
    assert_eq!(err.exit_code, Some(1));
    let err = check_config(&foo, &Output { status: Some(0), stdout: b"undefined\n".to_vec() }).unwrap_err();
    assert_eq!(err.to_string(), "Config mismatch: `CONFIG_FOO`: `undefined` != `y`");
}

#[test]
fn kconfig_check_reports_tool_failure_and_bad_bytes() {
    let foo = KConfig { key: "CONFIG_FOO".to_string(), value: None };
    let err = check_config(&foo, &Output { status: Some(5), stdout: b"y".to_vec() }).unwrap_err();
    assert_eq!(err.to_string(), "Failed to run config tool");
    assert_eq!(err.exit_code(), 5);
    let err = check_config(&foo, &Output { status: Some(0), stdout: vec![0xc3, 0x28] }).unwrap_err();
    assert_eq!(err.kind, ErrorKind::Utf8(String::from_utf8(vec![0xc3, 0x28]).unwrap_err().to_string()));
    assert_eq!(err.context, "");
    assert_eq!(err.exit_code(), 1);
}

#[test]
fn qemu_command_line() {
    let c = config(Arch::X86_64, "virtio-blk");
    assert_eq!(QemuCmd::new(&c).unwrap(), expected_qemu("root=/dev/vda"));
    assert_eq!(maxmem(), "3G");
}

#[test]
fn qemu_root_disk_follows_storage_bus() {
    let c = config(Arch::X86_64, "virtio-blk");
    let cmd = QemuCmd::new(&c).unwrap();
    let at = cmd.cmd.args.iter().position(|a| a == "-append").unwrap();
    assert!(cmd.cmd.args[at + 1].contains("root=/dev/vda"));
    for other in ["", "scsi", "virtio", "virtio-blk ", "VIRTIO-BLK"] {
        let c = config(Arch::X86_64, other);
        let cmd = QemuCmd::new(&c).unwrap();
        assert!(cmd.cmd.args[at + 1].ends_with("root=/dev/sda"));
        assert!(!cmd.cmd.args[at + 1].contains("root=/dev/vda"));
    }
}

#[test]
fn qemu_needs_a_launcher() {
    let mut c = config(Arch::Mips, "");
    let err = QemuCmd::new(&c).unwrap_err();
    assert_eq!(err.to_string(), "Missing qemu executable");
    c.make.arch = None;
    assert_eq!(QemuCmd::new(&c).unwrap_err().to_string(), "Missing qemu executable");
    c.make.arch = Some(Arch::Mips);
    c.qemu.path_override = Some("/opt/qemu-mips".to_string());
    let cmd = QemuCmd::new(&c).unwrap();
    assert_eq!(cmd.cmd.program, "/opt/qemu-mips");
    assert_eq!(cmd.cmd.args[0], "-nographic");
    assert_eq!(cmd.cmd.args[8], "quiet root=/dev/sda");
}

#[test]
fn qemu_status_carries_exit_code() {
    let c = config(Arch::X86_64, "");
    let cmd = QemuCmd::new(&c).unwrap();
    assert_eq!(cmd.run(Some(0)), Ok(()));
    let err = cmd.run(Some(139)).unwrap_err();
    assert_eq!(err.to_string(), "Failed to run qemu");
    assert_eq!(err.exit_code(), 139);
}

#[test]
fn run_plan_parse_only_prints_and_runs_nothing() {
    let mut c = config(Arch::Mips, "");
    let deps = Deps::external_str(
        "ktest_arch=x86_64\nktest_cpus=4\nktest_mem=2G\nktest_kernel_config_require=(CONFIG_BLK_DEV CONFIG_NET=m)\n",
    )
    .unwrap();
    deps.merge_into_config(&mut c);
    assert_eq!(c.make.arch, Some(Arch::X86_64));
    assert_eq!(c.qemu.cpus, 4);
    assert_eq!(c.qemu.mem, "2G");
    assert_eq!(c.make.kconfig.get("CONFIG_BLK_DEV").unwrap().value, None);
    assert_eq!(c.make.kconfig.get("CONFIG_NET").unwrap().value, Some("m".to_string()));
    let steps = run(&c, &deps, &Vec::new(), true, false, false);
    assert_eq!(
        steps,
        vec![Step::Print { text: c.render() }, Step::Print { text: deps.render_shell() }]
    );
    assert!(steps.iter().all(|s| matches!(s, Step::Print { .. })));
    let dump = c.render();
    for line in ["arch=x86_64", "cpus=4", "mem=\"2G\"", "kconfig=(CONFIG_FOO CONFIG_BAR=m CONFIG_BLK_DEV CONFIG_NET=m)"] {
        assert!(dump.lines().any(|l| l == line), "{}", line);
    }
}

#[test]
fn config_is_rendered_line_by_line() {
    let mut c = config(Arch::X86_64, "virtio-blk");
    c.ktest.lib_path = Some("/lib/ktest".to_string());
    assert_eq!(
        c.render(),
        "make_path=\"make\"\njobs=8\narch=x86_64\nout_dir=\"/out\"\nkernel_dir=\"/src/linux\"\nextra_make_args=(V=1)\nkconfig=(CONFIG_FOO CONFIG_BAR=m)\nqemu_extra_args=(-nographic)\nextra_kernel_args=(quiet)\nqemu.x86_64.path=\"qemu-system-x86_64\"\nqemu.x86_64.args=(-machine q35)\nqemu.x86_64.kernel_args=(console=ttyS0)\nstorage_bus=\"virtio-blk\"\nmem=\"2G\"\ncpus=4\nktest_lib=\"/lib/ktest\"\n"
    );
    c.make.jobs = None;
    c.make.arch = None;
    c.make.extra_make_args.clear();
    c.make.kconfig = KConfigMap::new();
    c.qemu.path_override = Some("/opt/qemu".to_string());
    c.qemu.extra_args.clear();
    c.qemu.extra_kernel_args.clear();
    c.qemu.arch_config = ArchTable::new();
    c.qemu.arch_config.insert(
        Arch::Mips,
        QemuConfig { path: "qemu-mips".to_string(), args: Vec::new(), kernel_args: Vec::new() },
    );
    c.qemu.arch_config.insert(
        Arch::X86,
        QemuConfig { path: "qemu-i386".to_string(), args: strings(&["-s"]), kernel_args: Vec::new() },
    );
    c.ktest.lib_path = None;
    assert_eq!(
        c.render(),
        "make_path=\"make\"\nout_dir=\"/out\"\nkernel_dir=\"/src/linux\"\nqemu_path=\"/opt/qemu\"\nqemu.x86.path=\"qemu-i386\"\nqemu.x86.args=(-s)\nqemu.mips.path=\"qemu-mips\"\nstorage_bus=\"virtio-blk\"\nmem=\"2G\"\ncpus=4\n"
    );
}

#[test]
fn run_plan_builds_then_boots() {
    let c = config(Arch::X86_64, "");
    let deps = Deps::new();
    let mut expected = expected_build(true);
    expected.push(Step::CreateDir { path: "/out/vm".to_string() });
    expected.push(Step::Boot { qemu: expected_qemu("root=/dev/sda") });
    assert_eq!(run(&c, &deps, &strings(&["-k"]), false, false, true), expected);
    assert_eq!(boot(&c, &strings(&["-k"]), false, true), expected);
    let mut seeded = expected_build(false);
    seeded.extend(expected[expected.len() - 2..].iter().cloned());
    assert_eq!(run(&c, &deps, &strings(&["-k"]), false, false, false), seeded);
}

#[test]
fn run_plan_without_build_only_boots() {
    let c = config(Arch::X86_64, "");
    let steps = run(&c, &Deps::new(), &Vec::new(), false, true, false);
    assert_eq!(
        steps,
        vec![Step::CreateDir { path: "/out/vm".to_string() }, Step::Boot { qemu: expected_qemu("root=/dev/sda") }]
    );
}

#[test]
fn run_plan_ends_in_failure_without_launcher() {
    let c = config(Arch::Aarch64, "");
    let steps = boot(&c, &Vec::new(), true, true);
    assert_eq!(steps, vec![Step::Fail { error: Error::new("Missing qemu executable") }]);
}

#[test]
fn rerun_never_seeds_an_existing_config() {
    for arch in [Arch::X86, Arch::X86_64, Arch::Aarch64, Arch::Mips, Arch::Sparc] {
        for no_build in [false, true] {
            let c = config(arch, "");
            let steps = run(&c, &Deps::new(), &strings(&["allnoconfig-is-not-a-target"]), false, no_build, true);
            assert!(!steps.iter().any(|s| match s {
                Step::Make { make, .. } => make.cmd.args.contains(&"allnoconfig".to_string()),
                _ => false,
            }));
        }
    }
}

#[test]
fn step_outcomes_follow_their_policy() {
    let c = config(Arch::X86_64, "");
    let steps = run(&c, &Deps::new(), &strings(&["-k"]), false, false, true);
    let io = Error::from_io(Some(13), "Permission denied (os error 13)");
    for step in &steps {
        match step {
            Step::Make { fatal: true, .. } => {
                assert_eq!(step.exited(Some(2)), Err(Error::new("Failed to run make").set_exit_code(Some(2))));
                assert_eq!(step.failed(io.clone()), Err(io.clone()));
            }
            Step::Make { fatal: false, .. } => {
                assert_eq!(step.exited(Some(2)), Ok(()));
                assert_eq!(step.failed(io.clone()), Ok(()));
            }
            Step::Tool { .. } => {
                assert_eq!(step.exited(None), Err(Error::new("Failed to run config tool")));
            }
            Step::Boot { .. } => {
                assert_eq!(step.exited(Some(1)), Err(Error::new("Failed to run qemu").set_exit_code(Some(1))));
                assert_eq!(step.failed(io.clone()), Err(io.clone()));
            }
            Step::Touch { .. } => {
                assert_eq!(step.failed(io.clone()), Ok(()));
                assert_eq!(step.exited(Some(1)), Ok(()));
            }
            _ => {
                assert_eq!(step.failed(io.clone()), Err(io.clone()));
                assert_eq!(step.exited(Some(1)), Ok(()));
            }
        }
        assert_eq!(step.exited(Some(0)), Ok(()));
    }
}

#[test]
fn make_plan_configures_then_runs_the_target() {
    let c = config(Arch::X86_64, "");
    let mut expected = expected_build(true)[..2].to_vec();
    expected.push(make_step(Some("nconfig"), true));
    assert_eq!(make(&c, Some("nconfig"), &strings(&["-k"]), true), expected);
    let mut seeded = expected_build(false)[..4].to_vec();
    seeded.push(make_step(None, true));
    assert_eq!(make(&c, None, &strings(&["-k"]), false), seeded);
}

#[test]
fn unknown_subcommand_is_an_error() {
    let err = Subcommand::from_name(Some("frobnicate")).unwrap_err();
    assert!(err.to_string().contains("Unknown subcommand"));
    assert_ne!(err.exit_code(), 0);
    let err = Subcommand::from_name(None).unwrap_err();
    assert_eq!(err.to_string(), "No subcommand provided");
    assert_eq!(err.exit_code(), 1);
}

#[test]
fn known_subcommands() {
    assert_eq!(Subcommand::from_name(Some("make")).unwrap(), Subcommand::Make);
    assert_eq!(Subcommand::from_name(Some("config")).unwrap(), Subcommand::Config);
    assert_eq!(Subcommand::from_name(Some("oldconfig")).unwrap(), Subcommand::OldConfig);
    assert_eq!(Subcommand::from_name(Some("build")).unwrap(), Subcommand::Build);
    assert_eq!(Subcommand::from_name(Some("boot")).unwrap(), Subcommand::Boot);
    assert_eq!(Subcommand::from_name(Some("run")).unwrap(), Subcommand::Run);
    assert_eq!(Subcommand::from_name(Some("deps")).unwrap(), Subcommand::Deps);
    assert!(Subcommand::from_name(Some("Run")).is_err());
}

#[test]
fn error_constructors_and_exit_codes() {
    let e = Error::new("boom");
    assert_eq!(e, Error { exit_code: None, context: "boom".to_string(), kind: ErrorKind::Message });
    assert_eq!(e.exit_code(), 1);
    assert_eq!(e.to_string(), "boom");
    let e = e.set_exit_code(Some(7));
    assert_eq!(e.exit_code(), 7);
    assert_eq!(e.set_exit_code(None).exit_code(), 1);
    let io = Error::from_io(Some(2), "No such file or directory (os error 2)");
    assert_eq!(io.exit_code(), 2);
    assert_eq!(io.context, "");
    assert_eq!(io.to_string(), "No such file or directory (os error 2)");
    assert_eq!(Error::from_io(None, "x").exit_code(), 1);
    let errno = Error::from_errno(13, "EACCES: Permission denied");
    assert_eq!(errno.exit_code, Some(13));
    assert_eq!(errno.kind, ErrorKind::Errno("EACCES: Permission denied".to_string()));
    assert_eq!(Error::from_utf8("bad").kind, ErrorKind::Utf8("bad".to_string()));
    assert_eq!(Error::from_utf8("bad").exit_code, None);
    assert_eq!(Error::from_clap("usage").to_string(), "usage");
    assert_eq!(Error::check_status("ctx", Some(0)), Ok(()));
    assert_eq!(Error::check_status("ctx", Some(9)), Err(Error::new("ctx").set_exit_code(Some(9))));
    assert_eq!(Error::check_status("ctx", None), Err(Error::new("ctx")));
}

#[test]
fn context_describes_failures() {
    let ok: Result<u8, Error> = Ok(3);
    assert_eq!(ok.context("ctx"), Ok(3));
    let failed: Result<u8, Error> = Err(Error::from_io(Some(5), "io"));
    let e = failed.context("while reading").unwrap_err();
    assert_eq!(e.context, "while reading");
    assert_eq!(e.exit_code, Some(5));
    assert_eq!(e.kind, ErrorKind::Io("io".to_string()));
    assert_eq!(Some(1u8).context("ctx"), Ok(1));
    assert_eq!(None::<u8>.context("Arch missing"), Err(Error::new("Arch missing")));
}

#[test]
fn host_answers_are_interpreted() {
    assert_eq!(nprocs_from(Ok(Some(8))), Ok(8));
    assert_eq!(nprocs_from(Ok(Some(-2))).unwrap_err().to_string(), "Failed to get number of processors online");
    assert_eq!(nprocs_from(Ok(None)).unwrap_err().to_string(), "Failed to get number of processors online");
    let e = nprocs_from(Err(SysError { errno: 22, message: "EINVAL: Invalid argument".to_string() })).unwrap_err();
    assert_eq!(e.exit_code(), 22);
    assert_eq!(e.context, "Failed to get number of processors online");
    assert_eq!(e.to_string(), "EINVAL: Invalid argument");
    assert_eq!(arch_from_machine(Ok(Some("x86_64".to_string()))), Ok(Arch::X86_64));
    assert_eq!(arch_from_machine(Ok(Some("aarch64".to_string()))), Ok(Arch::Aarch64));
    assert_eq!(arch_from_machine(Ok(Some("riscv64".to_string()))).unwrap_err().to_string(), "Invalid architecture: riscv64");
    assert_eq!(arch_from_machine(Ok(None)).unwrap_err().to_string(), "Failed to get machine arch name");
    let e = arch_from_machine(Err(SysError { errno: 14, message: "EFAULT: Bad address".to_string() })).unwrap_err();
    assert_eq!(e.context, "Failed to get uname");
    assert_eq!(e.exit_code(), 14);
}

#[test]
fn host_is_asked() {
    let n = get_nprocs().unwrap();
    assert!(n >= 1);
    assert_eq!(Make::jobs_or_default(None).unwrap(), n);
    assert_eq!(Make::jobs_or_default(Some(3)).unwrap(), 3);
    match get_arch() {
        Ok(arch) => assert_eq!(Make::arch_or_default(None), Ok(arch)),
        Err(e) => assert!(e.to_string().starts_with("Invalid architecture: ")),
    }
    assert_eq!(Make::arch_or_default(Some(Arch::Sparc)), Ok(Arch::Sparc));
    assert_eq!(Make::jobs_from(None, Err(Error::new("x"))).unwrap_err().context, "Failed to get number of processors");
    assert_eq!(Make::arch_from(None, Err(Error::new("x"))).unwrap_err().context, "Failed to get architecture");
    assert_eq!(Make::arch_from(None, Ok(Arch::Mips)), Ok(Arch::Mips));
    assert_eq!(Make::jobs_from(Some(2), Err(Error::new("x"))), Ok(2));
    assert_eq!(Make::jobs_from(None, Ok(6)), Ok(6));
    assert_eq!(Make::jobs_from(Some(0), Ok(6)), Err(Error::new("Invalid number of jobs: 0")));
    assert_eq!(Make::jobs_from(None, Ok(0)), Err(Error::new("Invalid number of jobs: 0")));
    assert_eq!(Make::jobs_or_default(Some(0)), Err(Error::new("Invalid number of jobs: 0")));
}
