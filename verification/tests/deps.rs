use ktest::config::{Arch, ArchTable, Config, KConfig, KConfigMap, KTest, Make, Qemu};
use ktest::deps::{parse_array, Deps};
use ktest::process::Output;

fn strings(items: &[&str]) -> Vec<String> {
    items.iter().map(|s| s.to_string()).collect()
}

fn sample_config() -> Config {
    Config {
        qemu: Qemu {
            path_override: None,
            extra_args: strings(&["-nographic"]),
            extra_kernel_args: strings(&["console=ttyS0"]),
            arch_config: ArchTable::new(),
            storage_bus: String::new(),
            mem: "1G".to_string(),
            cpus: 1,
        },
        make: Make {
            path: "make".to_string(),
            jobs: Some(2),
            arch: Some(Arch::Aarch64),
            out_dir: "/out".to_string(),
            kernel_dir: "/src/linux".to_string(),
            extra_make_args: strings(&["V=1"]),
            kconfig: KConfigMap::new(),
        },
        ktest: KTest { lib_path: Some("/usr/lib/ktest".to_string()) },
    }
}

const OUTPUT: &str =
    "ktest_arch=x86_64\nktest_cpus=4\nktest_mem=2G\nktest_kernel_config_require=(CONFIG_BLK_DEV CONFIG_NET=m)\n";

#[test]
fn parse_array_splits_at_spaces() {
    assert_eq!(parse_array("(a b c)"), strings(&["a", "b", "c"]));
}

#[test]
fn parse_array_of_empty_list_is_empty() {
    assert_eq!(parse_array("()"), Vec::<String>::new());
    assert_eq!(parse_array(""), Vec::<String>::new());
}

#[test]
fn parse_array_drops_empty_tokens() {
    assert_eq!(parse_array("(a  b   c )"), strings(&["a", "b", "c"]));
    assert_eq!(parse_array("( )"), Vec::<String>::new());
}

#[test]
fn parse_array_takes_a_bare_token() {
    assert_eq!(parse_array("token"), strings(&["token"]));
}

#[test]
fn parse_array_strips_every_outer_parenthesis() {
    assert_eq!(parse_array("((a b))"), strings(&["a", "b"]));
    assert_eq!(parse_array("(a (b) c)"), strings(&["a", "(b)", "c"]));
}

#[test]
fn deps_are_read_from_test_output() {
    let deps = Deps::external_str(OUTPUT).unwrap();
    assert_eq!(deps.arch, Some(Arch::X86_64));
    assert_eq!(deps.cpus, Some(4));
    assert_eq!(deps.mem, Some("2G".to_string()));
    assert_eq!(
        deps.config,
        vec![
            KConfig { key: "CONFIG_BLK_DEV".to_string(), value: None },
            KConfig { key: "CONFIG_NET".to_string(), value: Some("m".to_string()) },
        ]
    );
    assert!(deps.kernel_append.is_empty());
    assert!(deps.make_append.is_empty());
    assert!(deps.qemu_append.is_empty());
    assert_eq!(deps.storage_bus, None);
}

#[test]
fn deps_are_printed_back_as_read() {
    let deps = Deps::external_str(OUTPUT).unwrap();
    assert_eq!(deps.render_shell(), OUTPUT);
}

#[test]
fn deps_lists_are_appended_in_order() {
    let out = "ktest_kernel_append=(a b)\nktest_qemu_append=(-s)\nktest_kernel_append=(c)\nktest_kernel_make_append=(W=1 C=1)\nktest_storage_bus=virtio-blk\n";
    let deps = Deps::external_str(out).unwrap();
    assert_eq!(deps.kernel_append, strings(&["a", "b", "c"]));
    assert_eq!(deps.qemu_append, strings(&["-s"]));
    assert_eq!(deps.make_append, strings(&["W=1", "C=1"]));
    assert_eq!(deps.storage_bus, Some("virtio-blk".to_string()));
    assert_eq!(
        deps.render_shell(),
        "ktest_kernel_append=(a b c)\nktest_kernel_make_append=(W=1 C=1)\nktest_storage_bus=virtio-blk\nktest_qemu_append=(-s)\n"
    );
}

#[test]
fn deps_later_value_replaces_earlier() {
    let deps = Deps::external_str("ktest_mem=1G\nktest_cpus=2\nktest_mem=4G\nktest_cpus=+8\n").unwrap();
    assert_eq!(deps.mem, Some("4G".to_string()));
    assert_eq!(deps.cpus, Some(8));
}

#[test]
fn deps_unknown_key_is_ignored() {
    let deps = Deps::external_str("ktest_unknown=1\nktest_mem=2G\n").unwrap();
    assert_eq!(deps.mem, Some("2G".to_string()));
    assert_eq!(deps.render_shell(), "ktest_mem=2G\n");
}

#[test]
fn deps_value_keeps_later_equal_signs() {
    let deps = Deps::external_str("ktest_mem=a=b\n").unwrap();
    assert_eq!(deps.mem, Some("a=b".to_string()));
}

#[test]
fn deps_lines_may_end_in_crlf_or_nothing() {
    let deps = Deps::external_str("ktest_mem=2G\r\nktest_cpus=3").unwrap();
    assert_eq!(deps.mem, Some("2G".to_string()));
    assert_eq!(deps.cpus, Some(3));
}

#[test]
fn deps_empty_output_has_no_requirements() {
    let deps = Deps::external_str("").unwrap();
    assert_eq!(deps.arch, None);
    assert_eq!(deps.render_shell(), "");
    assert_eq!(Deps::new().render_shell(), "");
}

#[test]
fn deps_invalid_arch_is_an_error() {
    let err = Deps::external_str("ktest_arch=vax\n").unwrap_err();
    assert_eq!(err.to_string(), "Invalid architecture: vax");
    assert_eq!(err.exit_code(), 1);
}

#[test]
fn deps_invalid_cpus_is_an_error() {
    for bad in ["", "four", "-1", "+", "1 ", "99999999999999999999999999", "0", "+0", "000"] {
        let err = Deps::external_str(&format!("ktest_cpus={}\n", bad)).unwrap_err();
        assert_eq!(err.to_string(), format!("Invalid number: {}", bad));
    }
}

#[test]
fn deps_without_processors_are_refused() {
    let err = Deps::external_str("ktest_cpus=0\n").unwrap_err();
    assert_eq!(err.to_string(), "Invalid number: 0");
    let out = Output { status: Some(0), stdout: b"ktest_mem=1G\nktest_cpus=0\n".to_vec() };
    assert!(Deps::get(&out).is_err());
    assert_eq!(Deps::external_str("ktest_cpus=1\n").unwrap().cpus, Some(1));
}

#[test]
fn deps_unknown_keys_are_listed() {
    let out = "ktest_mem=2G\nktest_unknown=1\nfoo=(a b)\nktest_cpus=2\nktest_unknown=2\n=x\nKTEST_MEM=1\n";
    assert_eq!(Deps::unknown_keys(out), strings(&["ktest_unknown", "foo", "ktest_unknown", "", "KTEST_MEM"]));
    assert_eq!(Deps::unknown_keys(OUTPUT), Vec::<String>::new());
    assert_eq!(Deps::unknown_keys(""), Vec::<String>::new());
    assert_eq!(Deps::unknown_keys("bare\n"), strings(&["bare"]));
    let all = "ktest_arch=x86\nktest_cpus=1\nktest_mem=1\nktest_kernel_append=a\nktest_kernel_make_append=a\nktest_storage_bus=a\nktest_kernel_config_require=CONFIG_A\nktest_qemu_append=a\n";
    assert_eq!(Deps::unknown_keys(all), Vec::<String>::new());
    assert!(Deps::external_str(all).is_ok());
}

#[test]
fn deps_option_without_prefix_is_an_error() {
    let err = Deps::external_str("ktest_kernel_config_require=(CONFIG_A NET=m)\n").unwrap_err();
    assert_eq!(err.to_string(), "Invalid config option: NET=m");
}

#[test]
fn deps_invalid_kconfig_is_an_error() {
    let err = Deps::external_str("ktest_kernel_config_require=(CONFIG_A A=B=C)\n").unwrap_err();
    assert_eq!(err.to_string(), "Invalid config option: A=B=C");
}

#[test]
fn deps_first_error_wins() {
    let err = Deps::external_str("ktest_cpus=x\nktest_arch=vax\n").unwrap_err();
    assert_eq!(err.to_string(), "Invalid number: x");
}

#[test]
fn deps_well_formedness_is_every_line_key_value() {
    assert!(Deps::is_well_formed(OUTPUT));
    assert!(Deps::is_well_formed(""));
    assert!(!Deps::is_well_formed("ktest_mem=2G\n\nktest_cpus=1\n"));
    assert!(!Deps::is_well_formed("nonsense\n"));
}

#[test]
fn deps_round_trip_on_concrete_values() {
    let deps = Deps {
        arch: Some(Arch::PowerPC64),
        cpus: Some(16),
        mem: Some("512M".to_string()),
        kernel_append: strings(&["quiet", "loglevel=3"]),
        make_append: strings(&["W=1"]),
        storage_bus: Some("scsi".to_string()),
        config: vec![
            KConfig { key: "CONFIG_X".to_string(), value: None },
            KConfig { key: "CONFIG_Y".to_string(), value: Some("".to_string()) },
            KConfig { key: "CONFIG_Z".to_string(), value: Some("42".to_string()) },
        ],
        qemu_append: strings(&["-device", "virtio-rng"]),
    };
    let text = deps.render_shell();
    assert_eq!(
        text,
        "ktest_arch=powerpc64\nktest_cpus=16\nktest_mem=512M\nktest_kernel_append=(quiet loglevel=3)\nktest_kernel_make_append=(W=1)\nktest_storage_bus=scsi\nktest_kernel_config_require=(CONFIG_X CONFIG_Y= CONFIG_Z=42)\nktest_qemu_append=(-device virtio-rng)\n"
    );
    let back = Deps::external_str(&text).unwrap();
    assert_eq!(back.arch, deps.arch);
    assert_eq!(back.cpus, deps.cpus);
    assert_eq!(back.mem, deps.mem);
    assert_eq!(back.kernel_append, deps.kernel_append);
    assert_eq!(back.make_append, deps.make_append);
    assert_eq!(back.storage_bus, deps.storage_bus);
    assert_eq!(back.config, deps.config);
    assert_eq!(back.qemu_append, deps.qemu_append);
}

#[test]
fn deps_round_trip_fails_for_item_that_begins_with_parenthesis() {
    let deps = Deps::external_str("ktest_kernel_append= (a\n").unwrap();
    assert_eq!(deps.kernel_append, strings(&["(a"]));
    let back = Deps::external_str(&deps.render_shell()).unwrap();
    assert_eq!(back.kernel_append, strings(&["a"]));
}

#[test]
fn deps_merge_sets_arch_cpus_mem_and_options() {
    let mut config = sample_config();
    let deps = Deps::external_str(OUTPUT).unwrap();
    deps.merge_into_config(&mut config);
    assert_eq!(config.make.arch, Some(Arch::X86_64));
    assert_eq!(config.qemu.cpus, 4);
    assert_eq!(config.qemu.mem, "2G");
    assert_eq!(
        config.make.kconfig.values(),
        vec![
            KConfig { key: "CONFIG_BLK_DEV".to_string(), value: None },
            KConfig { key: "CONFIG_NET".to_string(), value: Some("m".to_string()) },
        ]
    );
    assert_eq!(config.make.make_build_dir(), "/out/kernel_build.x86");
    assert_eq!(config.make.kernel_bin_dir(), "/out/kernel.x86");
    assert_eq!(config.qemu.extra_args, strings(&["-nographic"]));
    assert_eq!(config.make.extra_make_args, strings(&["V=1"]));
}

#[test]
fn deps_merge_appends_and_overwrites() {
    let mut config = sample_config();
    config.make.kconfig.insert(KConfig { key: "CONFIG_A".to_string(), value: None });
    config.make.kconfig.insert(KConfig { key: "CONFIG_B".to_string(), value: Some("m".to_string()) });
    let deps = Deps {
        arch: None,
        cpus: None,
        mem: None,
        kernel_append: strings(&["k1", "k2"]),
        make_append: strings(&["m1"]),
        storage_bus: Some("virtio-blk".to_string()),
        config: vec![
            KConfig { key: "CONFIG_B".to_string(), value: Some("y".to_string()) },
            KConfig { key: "CONFIG_C".to_string(), value: None },
            KConfig { key: "CONFIG_C".to_string(), value: Some("n".to_string()) },
        ],
        qemu_append: strings(&["q1"]),
    };
    deps.merge_into_config(&mut config);
    assert_eq!(config.make.arch, Some(Arch::Aarch64));
    assert_eq!(config.qemu.cpus, 1);
    assert_eq!(config.qemu.mem, "1G");
    assert_eq!(config.qemu.storage_bus, "virtio-blk");
    assert_eq!(config.qemu.extra_kernel_args, strings(&["console=ttyS0", "k1", "k2"]));
    assert_eq!(config.make.extra_make_args, strings(&["V=1", "m1"]));
    assert_eq!(config.qemu.extra_args, strings(&["-nographic", "q1"]));
    assert_eq!(
        config.make.kconfig.values(),
        vec![
            KConfig { key: "CONFIG_A".to_string(), value: None },
            KConfig { key: "CONFIG_B".to_string(), value: Some("y".to_string()) },
            KConfig { key: "CONFIG_C".to_string(), value: Some("n".to_string()) },
        ]
    );
    assert_eq!(config.make.kconfig.len(), 3);
}

#[test]
fn deps_invocation_runs_the_test_in_deps_mode() {
    let config = sample_config();
    let cmd = Deps::external(&config, "/tests/net.ktest", true, true).unwrap();
    assert_eq!(cmd.program, "/tests/net.ktest");
    assert_eq!(cmd.args, strings(&["deps"]));
    assert_eq!(
        cmd.envs,
        vec![("KTEST_TEST_LIB".to_string(), "/usr/lib/ktest/testlib.sh".to_string())]
    );
    assert_eq!(cmd.current_dir, None);
}

#[test]
fn deps_invocation_needs_test_and_library() {
    let mut config = sample_config();
    let err = Deps::external(&config, "/tests/net.ktest", false, true).unwrap_err();
    assert_eq!(err.to_string(), "test /tests/net.ktest does not exist");
    let err = Deps::external(&config, "/tests/net.ktest", true, false).unwrap_err();
    assert_eq!(err.to_string(), "configured KTEST_TEST_LIB does not exist");
    config.ktest.lib_path = None;
    let err = Deps::external(&config, "/tests/net.ktest", true, true).unwrap_err();
    assert_eq!(err.to_string(), "KTEST_TEST_LIB not configured");
}

#[test]
fn deps_get_reads_successful_output() {
    let out = Output { status: Some(0), stdout: OUTPUT.as_bytes().to_vec() };
    let deps = Deps::get(&out).unwrap();
    assert_eq!(deps.arch, Some(Arch::X86_64));
    assert_eq!(deps.render_shell(), OUTPUT);
}

#[test]
fn deps_get_carries_exit_code_of_failed_test() {
    let out = Output { status: Some(3), stdout: OUTPUT.as_bytes().to_vec() };
    let err = Deps::get(&out).unwrap_err();
    assert_eq!(err.to_string(), "Failed to run test in deps mode");
    assert_eq!(err.exit_code(), 3);
    let killed = Output { status: None, stdout: Vec::new() };
    let err = Deps::get(&killed).unwrap_err();
    assert_eq!(err.exit_code, None);
    assert_eq!(err.exit_code(), 1);
}

#[test]
fn deps_get_rejects_bytes_that_are_not_utf8() {
    let out = Output { status: Some(0), stdout: vec![b'k', 0xff, b'=', b'1'] };
    let err = Deps::get(&out).unwrap_err();
    assert_eq!(err.to_string(), String::from_utf8(vec![b'k', 0xff, b'=', b'1']).unwrap_err().to_string());
    assert_eq!(err.exit_code, None);
}

#[test]
fn deps_get_decodes_multibyte_text() {
    let out = Output { status: Some(0), stdout: "ktest_mem=2G\u{e9}\n".as_bytes().to_vec() };
    let deps = Deps::get(&out).unwrap();
    assert_eq!(deps.mem, Some("2G\u{e9}".to_string()));
    assert_eq!(Deps::external_str_run(&out).unwrap(), "ktest_mem=2G\u{e9}\n");
}

#[test]
fn deps_get_rejects_malformed_line() {
    let out = Output { status: Some(0), stdout: b"ktest_mem=2G\nnonsense\n".to_vec() };
    let err = Deps::get(&out).unwrap_err();
    assert_eq!(err.to_string(), "Malformed line in test output");
}
