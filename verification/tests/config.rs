use ktest::config::qemu::default_mem;
use ktest::config::{Arch, ArchTable, Config, KConfig, KConfigMap, KTest, Make, MakeArgs, Qemu, QemuArgs, QemuConfig};
use ktest::decimal::{parse_usize, usize_to_string};
use ktest::path::join_path;
use ktest::text::{begins_with, join_with, lines_of, split_char, trim, trim_end_matches, trim_start_matches};

fn strings(items: &[&str]) -> Vec<String> {
    items.iter().map(|s| s.to_string()).collect()
}

fn make(out_dir: &str, arch: Option<Arch>) -> Make {
    Make {
        path: "make".to_string(),
        jobs: Some(4),
        arch,
        out_dir: out_dir.to_string(),
        kernel_dir: "/src/linux".to_string(),
        extra_make_args: Vec::new(),
        kconfig: KConfigMap::new(),
    }
}

fn qemu() -> Qemu {
    let mut table = ArchTable::new();
    table.insert(
        Arch::X86_64,
        QemuConfig {
            path: "qemu-system-x86_64".to_string(),
            args: strings(&["-machine", "q35"]),
            kernel_args: strings(&["console=ttyS0"]),
        },
    );
    Qemu {
        path_override: None,
        extra_args: strings(&["-nographic"]),
        extra_kernel_args: strings(&["quiet"]),
        arch_config: table,
        storage_bus: String::new(),
        mem: default_mem(),
        cpus: 2,
    }
}

const ALL: [Arch; 9] = [
    Arch::X86,
    Arch::X86_64,
    Arch::Aarch64,
    Arch::Mips,
    Arch::Mips64,
    Arch::Sparc,
    Arch::Sparc64,
    Arch::PowerPC,
    Arch::PowerPC64,
];

#[test]
fn kernel_arch_of_every_arch() {
    let expected = ["x86", "x86", "arm64", "mips", "mips", "sparc", "sparc", "powerpc", "powerpc"];
    for (arch, name) in ALL.iter().zip(expected) {
        assert_eq!(arch.kernel_arch(), name);
    }
}

#[test]
fn kernel_arch_is_one_of_five() {
    for arch in ALL {
        assert!(["x86", "arm64", "mips", "sparc", "powerpc"].contains(&arch.kernel_arch()));
    }
}

#[test]
fn arch_is_found_by_name_and_alias() {
    let names = ["x86", "x86_64", "aarch64", "mips", "mips64", "sparc", "sparc64", "powerpc", "powerpc64"];
    for (arch, name) in ALL.iter().zip(names) {
        assert_eq!(Arch::from_str(name).unwrap(), *arch);
        assert_eq!(arch.name(), name);
        assert_eq!(arch.to_string(), name);
    }
    assert_eq!(Arch::from_str("i386").unwrap(), Arch::X86);
    assert_eq!(Arch::from_str("amd64").unwrap(), Arch::X86_64);
    assert_eq!(Arch::from_str("arm64").unwrap(), Arch::Aarch64);
    assert_eq!(Arch::from_str("ppc").unwrap(), Arch::PowerPC);
    assert_eq!(Arch::from_str("ppc64").unwrap(), Arch::PowerPC64);
    assert_eq!(Arch::value_variants(), ALL.to_vec());
}

#[test]
fn arch_is_found_in_any_case() {
    assert_eq!(Arch::from_str("AMD64").unwrap(), Arch::X86_64);
    assert_eq!(Arch::from_str("X86_64").unwrap(), Arch::X86_64);
    assert_eq!(Arch::from_str("AArch64").unwrap(), Arch::Aarch64);
    assert_eq!(Arch::from_str("PowerPC").unwrap(), Arch::PowerPC);
}

#[test]
fn arch_unknown_name_is_an_error() {
    for bad in ["", "x86_6", "x86 ", "arm", "risc-v", "x86_64\n"] {
        let err = Arch::from_str(bad).unwrap_err();
        assert_eq!(err.to_string(), format!("Invalid architecture: {}", bad));
        assert_eq!(err.exit_code, None);
    }
}

#[test]
fn arch_alias_selects_kernel_build_dir() {
    let arch = Arch::from_str("amd64").unwrap();
    assert_eq!(arch, Arch::X86_64);
    assert_eq!(arch.kernel_arch(), "x86");
    let m = make("/tmp/out", Some(arch));
    assert!(m.make_build_dir().ends_with("kernel_build.x86"));
    assert_eq!(m.make_build_dir(), "/tmp/out/kernel_build.x86");
}

#[test]
fn derived_paths() {
    let m = make("out", Some(Arch::Mips64));
    assert_eq!(m.kernel_bin_dir(), "out/kernel.mips");
    assert_eq!(m.make_build_dir(), "out/kernel_build.mips");
    assert_eq!(m.vm_socket_dir(), "out/vm");
    assert_eq!(m.config_file(), "out/kernel_build.mips/.config");
    assert_eq!(m.make_build_dir_arg(), "O=out/kernel_build.mips");
    assert_eq!(m.make_arch_arg(), "ARCH=mips");
    assert_eq!(m.install_mod_path_arg(), "INSTALL_MOD_PATH=out/kernel.mips");
}

#[test]
fn derived_paths_end_in_kernel_arch_for_every_arch() {
    for arch in ALL {
        for out in ["", "/", "out", "out/", "/a/b"] {
            let m = make(out, Some(arch));
            assert!(m.kernel_bin_dir().ends_with(arch.kernel_arch()));
            assert!(m.make_build_dir().ends_with(arch.kernel_arch()));
        }
    }
}

#[test]
fn join_path_as_std_does() {
    for (base, rel) in [("", "a"), ("/", "a"), ("a", "b"), ("a/", "b"), ("a", "/b"), ("a", ""), ("", ""), ("a//", "b/c")] {
        let expected = std::path::Path::new(base).join(rel);
        assert_eq!(join_path(base, rel), expected.to_str().unwrap());
    }
    assert_eq!(join_path("a", "b"), "a/b");
    assert_eq!(join_path("a/", "b"), "a/b");
    assert_eq!(join_path("a", "/b"), "/b");
    assert_eq!(join_path("", "b"), "b");
}

#[test]
fn kconfig_parse_key_only() {
    let c = KConfig::parse("CONFIG_X").unwrap();
    assert_eq!(c, KConfig { key: "CONFIG_X".to_string(), value: None });
    assert_eq!(c.value_or_default(), "y");
    assert_eq!(c.to_string(), "CONFIG_X");
}

#[test]
fn kconfig_parse_key_and_value() {
    let c = KConfig::parse("CONFIG_X=m").unwrap();
    assert_eq!(c, KConfig { key: "CONFIG_X".to_string(), value: Some("m".to_string()) });
    assert_eq!(c.value_or_default(), "m");
    assert_eq!(c.to_string(), "CONFIG_X=m");
    let empty = KConfig::parse("CONFIG_X=").unwrap();
    assert_eq!(empty, KConfig { key: "CONFIG_X".to_string(), value: Some(String::new()) });
    assert_eq!(empty.duplicate(), empty);
}

#[test]
fn kconfig_parse_requires_the_prefix() {
    for bad in ["", "X", "FOO=y", "config_x", "CONFIG", " CONFIG_X", "=CONFIG_X", "XCONFIG_A=y"] {
        let err = KConfig::parse(bad).unwrap_err();
        assert_eq!(err.to_string(), format!("Invalid config option: {}", bad));
    }
    assert_eq!(KConfig::parse("CONFIG_").unwrap(), KConfig { key: "CONFIG_".to_string(), value: None });
    assert!(KConfig::parse("CONFIG_A=B=C").is_err());
}

#[test]
fn kconfig_parse_rejects_second_equal_sign() {
    let err = KConfig::parse("A=B=C").unwrap_err();
    assert_eq!(err.to_string(), "Invalid config option: A=B=C");
    assert!(KConfig::parse("A==").is_err());
}

#[test]
fn kconfig_map_keeps_one_entry_for_each_key() {
    let mut map = KConfigMap::new();
    assert_eq!(map.len(), 0);
    map.insert(KConfig::parse("CONFIG_A").unwrap());
    map.insert(KConfig::parse("CONFIG_B=m").unwrap());
    map.insert(KConfig::parse("CONFIG_A=n").unwrap());
    assert_eq!(map.len(), 2);
    assert_eq!(map.get("CONFIG_A"), Some(KConfig::parse("CONFIG_A=n").unwrap()));
    assert_eq!(map.get("CONFIG_B"), Some(KConfig::parse("CONFIG_B=m").unwrap()));
    assert_eq!(map.get("CONFIG_C"), None);
    assert_eq!(
        map.values(),
        vec![KConfig::parse("CONFIG_A=n").unwrap(), KConfig::parse("CONFIG_B=m").unwrap()]
    );
    assert_eq!(map.clone().values(), map.values());
}

#[test]
fn qemu_path_prefers_override() {
    let mut q = qemu();
    assert_eq!(q.path(&Arch::X86_64), Some("qemu-system-x86_64".to_string()));
    assert_eq!(q.path(&Arch::Mips), None);
    q.path_override = Some("/opt/qemu".to_string());
    assert_eq!(q.path(&Arch::X86_64), Some("/opt/qemu".to_string()));
    assert_eq!(q.path(&Arch::Mips), Some("/opt/qemu".to_string()));
}

#[test]
fn qemu_args_put_arch_before_extra() {
    let q = qemu();
    assert_eq!(q.qemu_args(&Arch::X86_64), strings(&["-machine", "q35", "-nographic"]));
    assert_eq!(q.qemu_args(&Arch::Sparc), strings(&["-nographic"]));
    assert_eq!(q.kernel_args(&Arch::X86_64), strings(&["console=ttyS0", "quiet"]));
    assert_eq!(q.kernel_args(&Arch::Sparc), strings(&["quiet"]));
    assert_eq!(q.mem(), "1G");
    assert_eq!(q.cpus(), 2);
}

#[test]
fn arch_table_is_a_mapping() {
    let mut table = ArchTable::new();
    for arch in ALL {
        assert!(table.get(arch).is_none());
    }
    for arch in ALL {
        table.insert(arch, QemuConfig { path: arch.name().to_string(), args: Vec::new(), kernel_args: Vec::new() });
    }
    table.insert(Arch::Mips, QemuConfig { path: "other".to_string(), args: Vec::new(), kernel_args: Vec::new() });
    for arch in ALL {
        let expected = if arch == Arch::Mips { "other" } else { arch.name() };
        assert_eq!(table.get(arch).unwrap().path, expected);
        assert_eq!(table.get(arch).unwrap().duplicate(), table.get(arch).unwrap().clone());
    }
}

#[test]
fn config_qemu_accessors_follow_arch() {
    let mut config = Config { qemu: qemu(), make: make("out", None), ktest: KTest { lib_path: None } };
    assert_eq!(config.qemu_path(), None);
    config.make.arch = Some(Arch::X86_64);
    assert_eq!(config.qemu_path(), Some("qemu-system-x86_64".to_string()));
    assert_eq!(config.qemu_args(), strings(&["-machine", "q35", "-nographic"]));
    assert_eq!(config.qemu_kernel_args(), strings(&["console=ttyS0", "quiet"]));
}

#[test]
fn command_line_is_applied_to_make() {
    let mut m = make("out", None);
    m.extra_make_args = strings(&["V=1"]);
    let args = MakeArgs {
        path: "gmake".to_string(),
        jobs: Some(8),
        arch: Some(Arch::Sparc64),
        out_dir: "/o".to_string(),
        kernel_dir: "/k".to_string(),
    };
    let jobs = Make::jobs_or_default(args.jobs).unwrap();
    let arch = Make::arch_or_default(args.arch).unwrap();
    m.update_from_args(&args, jobs, arch);
    assert_eq!(m.path, "gmake");
    assert_eq!(m.jobs, Some(8));
    assert_eq!(m.arch, Some(Arch::Sparc64));
    assert_eq!(m.out_dir, "/o");
    assert_eq!(m.kernel_dir, "/k");
    assert_eq!(m.extra_make_args, strings(&["V=1"]));
}

#[test]
fn command_line_is_applied_to_qemu() {
    let mut q = qemu();
    q.update_from_args(&QemuArgs {
        path: Some("/bin/qemu".to_string()),
        mem: "4G".to_string(),
        cpus: 6,
        extra_args: strings(&["-s", "-S"]),
        extra_kernel_args: strings(&["debug"]),
    });
    assert_eq!(q.path_override, Some("/bin/qemu".to_string()));
    assert_eq!(q.mem, "4G");
    assert_eq!(q.cpus, 6);
    assert_eq!(q.extra_args, strings(&["-nographic", "-s", "-S"]));
    assert_eq!(q.extra_kernel_args, strings(&["quiet", "debug"]));
}

#[test]
fn testlib_path_needs_directory_and_file() {
    let mut k = KTest { lib_path: Some("/lib/ktest".to_string()) };
    assert_eq!(k.testlib(), Some("/lib/ktest/testlib.sh".to_string()));
    assert_eq!(k.lib_path(true).unwrap(), "/lib/ktest/testlib.sh");
    assert_eq!(k.lib_path(false).unwrap_err().to_string(), "configured KTEST_TEST_LIB does not exist");
    k.update_from_args(None);
    assert_eq!(k.testlib(), None);
    assert_eq!(k.lib_path(true).unwrap_err().to_string(), "KTEST_TEST_LIB not configured");
    k.update_from_args(Some("rel/".to_string()));
    assert_eq!(k.lib_path(true).unwrap(), "rel/testlib.sh");
}

#[test]
fn decimal_reads_as_std_does() {
    for s in ["0", "7", "+7", "007", "42", "18446744073709551615", "18446744073709551616", "", "+", "-", "-0", "++1", "1+", " 1", "1 ", "12a", "\u{661}"] {
        assert_eq!(parse_usize(s), s.parse::<usize>().ok());
    }
    assert_eq!(parse_usize("+12"), Some(12));
    assert_eq!(parse_usize("18446744073709551616"), None);
}

#[test]
fn decimal_writes_as_std_does() {
    for n in [0usize, 1, 9, 10, 11, 99, 100, 12345, usize::MAX] {
        assert_eq!(usize_to_string(n), n.to_string());
        assert_eq!(parse_usize(&usize_to_string(n)), Some(n));
    }
}

#[test]
fn text_functions_as_std_does() {
    for s in ["", "a", "a b", " a  b ", "=", "a=b=c", "\n", "a\nb", "a\r\nb\r\n", "a\rb\r", "\r\n\r\n", "x\n\ny", "((a))", "(", ")", "()", "\u{a0}a\u{2003}", "\t a \u{3000}", "\u{e9}=\u{1f600}\n"] {
        assert_eq!(split_char(s, ' '), s.split(' ').map(String::from).collect::<Vec<_>>());
        assert_eq!(split_char(s, '='), s.split('=').map(String::from).collect::<Vec<_>>());
        assert_eq!(lines_of(s), s.lines().map(String::from).collect::<Vec<_>>());
        assert_eq!(trim(s), s.trim());
        assert_eq!(trim_start_matches(s, '('), s.trim_start_matches('('));
        assert_eq!(trim_end_matches(s, ')'), s.trim_end_matches(')'));
        for prefix in ["", "a", "((", "\u{e9}", "a b c"] {
            assert_eq!(begins_with(s, prefix), s.starts_with(prefix));
        }
    }
    assert_eq!(join_with(&strings(&["a", "b", "c"]), ", "), "a, b, c");
    assert_eq!(join_with(&strings(&["a"]), ", "), "a");
    assert_eq!(join_with(&Vec::new(), ", "), "");
}

#[test]
fn white_space_is_what_std_says() {
    for code in 0u32..0x3100 {
        if let Some(c) = char::from_u32(code) {
            assert_eq!(ktest::text::is_whitespace(c), c.is_whitespace());
        }
    }
}

#[test]
fn arch_and_kconfig_parse_through_from_str() {
    assert_eq!("ppc64".parse::<Arch>(), Ok(Arch::PowerPC64));
    assert_eq!(
        "vax".parse::<Arch>().unwrap_err().to_string(),
        "Invalid architecture: vax"
    );
    assert_eq!("CONFIG_X=m".parse::<KConfig>(), KConfig::parse("CONFIG_X=m"));
    assert!("A=B=C".parse::<KConfig>().is_err());
}

#[test]
fn default_deps_have_no_requirements() {
    let deps = ktest::Deps::default();
    assert_eq!(deps.arch, None);
    assert_eq!(deps.cpus, None);
    assert_eq!(deps.mem, None);
    assert_eq!(deps.storage_bus, None);
    assert!(deps.kernel_append.is_empty() && deps.make_append.is_empty());
    assert!(deps.config.is_empty() && deps.qemu_append.is_empty());
    let mut config = Config { qemu: qemu(), make: make("out", Some(Arch::Mips)), ktest: KTest::default() };
    deps.merge_into_config(&mut config);
    assert_eq!(config.make.arch, Some(Arch::Mips));
    assert_eq!(config.qemu.extra_args, strings(&["-nographic"]));
    assert_eq!(config.make.kconfig.len(), 0);
}
