//! What a test needs: read from the lines the test prints in `deps` mode,
//! merged into the configuration, and printed back for a shell.

use crate::config::arch::{arch_from, Arch};
use crate::config::kconfig::{
    inserted_all, kconfig_from, kconfig_views, KConfig, KConfigView,
};
use crate::config::ktest::lib_path_of;
use crate::config::make::MakeView;
use crate::config::qemu::QemuView;
use crate::config::{Config, ConfigView};
use crate::decimal::{decimal, parse_usize, parsed_usize, usize_to_string};
use crate::err::{succeeded, Error, ErrorView};
use crate::process::{string_from_utf8, utf8_error_text, Invocation, InvocationView, Output};
use crate::text::{
    concat2, contains_char, drop_empty, extend_strings, find, find_from, has_char, join,
    join_with, lemma_find, lines, lines_of, non_empty, opt_view, slice, split, split_char, str_eq,
    trim_end_matches, trim_end_of, trim_start_matches, trim_start_of, views,
};
use vstd::prelude::*;
use vstd::string::*;

verus! {

/// What a test needs of the build and of the virtual machine.
#[derive(Debug)]
pub struct Deps {
    /// The architecture to build and boot.
    pub arch: Option<Arch>,
    /// The processors of the machine, at least one.
    pub cpus: Option<usize>,
    /// The memory of the machine.
    pub mem: Option<String>,
    /// Arguments added to the kernel command line.
    pub kernel_append: Vec<String>,
    /// Arguments added to every `make` run.
    pub make_append: Vec<String>,
    /// The bus of the root disk.
    pub storage_bus: Option<String>,
    /// Kernel configuration options the test requires.
    pub config: Vec<KConfig>,
    /// Arguments added to the launcher.
    pub qemu_append: Vec<String>,
}

/// Mathematical model of a [`Deps`].
pub struct DepsView {
    pub arch: Option<Arch>,
    pub cpus: Option<usize>,
    pub mem: Option<Seq<char>>,
    pub kernel_append: Seq<Seq<char>>,
    pub make_append: Seq<Seq<char>>,
    pub storage_bus: Option<Seq<char>>,
    pub config: Seq<KConfigView>,
    pub qemu_append: Seq<Seq<char>>,
}

impl View for Deps {
    type V = DepsView;

    open spec fn view(&self) -> DepsView {
        DepsView {
            arch: self.arch,
            cpus: self.cpus,
            mem: opt_view(self.mem),
            kernel_append: views(self.kernel_append@),
            make_append: views(self.make_append@),
            storage_bus: opt_view(self.storage_bus),
            config: kconfig_views(self.config@),
            qemu_append: views(self.qemu_append@),
        }
    }
}

/// The model of a result that holds requirements.
pub open spec fn deps_result_view(r: Result<Deps, Error>) -> Result<DepsView, ErrorView> {
    match r {
        Ok(d) => Ok(d@),
        Err(e) => Err(e@),
    }
}

/// The model of a result that holds an invocation.
pub open spec fn invocation_result_view(r: Result<Invocation, Error>) -> Result<
    InvocationView,
    ErrorView,
> {
    match r {
        Ok(c) => Ok(c@),
        Err(e) => Err(e@),
    }
}

/// The items of a list value: the text between the opening and the closing
/// parentheses, cut at each space, without the empty pieces.
pub open spec fn list_items(value: Seq<char>) -> Seq<Seq<char>> {
    non_empty(split(trim_end_of(trim_start_of(value, '('), ')'), ' '))
}

/// The options that `items` write, or the complaint about the first item
/// that writes none.
pub open spec fn kconfigs_from(items: Seq<Seq<char>>) -> Result<Seq<KConfigView>, ErrorView>
    decreases items.len(),
{
    if items.len() == 0 {
        Ok(seq![])
    } else {
        match kconfigs_from(items.drop_last()) {
            Err(e) => Err(e),
            Ok(cs) => match kconfig_from(items.last()) {
                Ok(c) => Ok(cs.push(c)),
                Err(e) => Err(e),
            },
        }
    }
}

/// The key of a line: the text before its first `=`.
pub open spec fn line_key(line: Seq<char>) -> Seq<char> {
    line.subrange(0, find(line, '='))
}

/// The value of a line: the text after its first `=`.
pub open spec fn line_value(line: Seq<char>) -> Seq<char> {
    line.subrange(find(line, '=') + 1, line.len() as int)
}

/// Whether every line of `s` has the form `KEY=VALUE`.
pub open spec fn well_formed(s: Seq<char>) -> bool {
    forall|i: int| 0 <= i < lines(s).len() ==> has_char(#[trigger] lines(s)[i], '=')
}

impl DepsView {
    /// No requirement at all.
    pub open spec fn empty() -> DepsView {
        DepsView {
            arch: None,
            cpus: None,
            mem: None,
            kernel_append: seq![],
            make_append: seq![],
            storage_bus: None,
            config: seq![],
            qemu_append: seq![],
        }
    }

    /// The requirements after one more line `KEY=VALUE` was read. A key
    /// that sets a value replaces it; one that lists items appends them; an
    /// unknown key changes nothing. The number of processors is a positive
    /// number.
    pub open spec fn with_line(self, line: Seq<char>) -> Result<DepsView, ErrorView> {
        let key = line_key(line);
        let value = line_value(line);
        if key == "ktest_arch"@ {
            match arch_from(value) {
                Ok(a) => Ok(DepsView { arch: Some(a), ..self }),
                Err(e) => Err(e),
            }
        } else if key == "ktest_cpus"@ {
            match parsed_usize(value) {
                Some(n) => if n > 0 {
                    Ok(DepsView { cpus: Some(n), ..self })
                } else {
                    Err(ErrorView::message("Invalid number: "@ + value))
                },
                None => Err(ErrorView::message("Invalid number: "@ + value)),
            }
        } else if key == "ktest_mem"@ {
            Ok(DepsView { mem: Some(value), ..self })
        } else if key == "ktest_kernel_append"@ {
            Ok(DepsView { kernel_append: self.kernel_append + list_items(value), ..self })
        } else if key == "ktest_kernel_make_append"@ {
            Ok(DepsView { make_append: self.make_append + list_items(value), ..self })
        } else if key == "ktest_storage_bus"@ {
            Ok(DepsView { storage_bus: Some(value), ..self })
        } else if key == "ktest_kernel_config_require"@ {
            match kconfigs_from(list_items(value)) {
                Ok(cs) => Ok(DepsView { config: self.config + cs, ..self }),
                Err(e) => Err(e),
            }
        } else if key == "ktest_qemu_append"@ {
            Ok(DepsView { qemu_append: self.qemu_append + list_items(value), ..self })
        } else {
            Ok(self)
        }
    }

    /// The requirements after each of `lines` was read in order, or the
    /// complaint about the first line that cannot be read.
    pub open spec fn with_lines(self, lines: Seq<Seq<char>>) -> Result<DepsView, ErrorView>
        decreases lines.len(),
    {
        if lines.len() == 0 {
            Ok(self)
        } else {
            match self.with_lines(lines.drop_last()) {
                Err(e) => Err(e),
                Ok(d) => d.with_line(lines.last()),
            }
        }
    }

    /// The configuration after the requirements were merged into it: what
    /// is set replaces, what is listed is appended, and each required
    /// option takes the place of the option of its key.
    pub open spec fn merged_into(self, config: ConfigView) -> ConfigView {
        ConfigView {
            make: MakeView {
                arch: match self.arch {
                    Some(a) => Some(a),
                    None => config.make.arch,
                },
                extra_make_args: config.make.extra_make_args + self.make_append,
                kconfig: inserted_all(config.make.kconfig, self.config),
                ..config.make
            },
            qemu: QemuView {
                cpus: match self.cpus {
                    Some(n) => n,
                    None => config.qemu.cpus,
                },
                mem: match self.mem {
                    Some(m) => m,
                    None => config.qemu.mem,
                },
                storage_bus: match self.storage_bus {
                    Some(b) => b,
                    None => config.qemu.storage_bus,
                },
                extra_kernel_args: config.qemu.extra_kernel_args + self.kernel_append,
                extra_args: config.qemu.extra_args + self.qemu_append,
                ..config.qemu
            },
            ..config
        }
    }

    /// The lines that write the requirements for a shell, one for each
    /// requirement that is set and each list that is not empty.
    pub open spec fn rendered(self) -> Seq<char> {
        value_line(
            "ktest_arch"@,
            match self.arch {
                Some(a) => Some(a.spec_name()),
                None => None,
            },
        ) + value_line(
            "ktest_cpus"@,
            match self.cpus {
                Some(n) => Some(decimal(n as nat)),
                None => None,
            },
        ) + value_line("ktest_mem"@, self.mem) + list_line("ktest_kernel_append"@, self.kernel_append)
            + list_line("ktest_kernel_make_append"@, self.make_append) + value_line(
            "ktest_storage_bus"@,
            self.storage_bus,
        ) + list_line("ktest_kernel_config_require"@, kconfig_texts(self.config)) + list_line(
            "ktest_qemu_append"@,
            self.qemu_append,
        )
    }
}

/// The textual forms of a sequence of options.
pub open spec fn kconfig_texts(configs: Seq<KConfigView>) -> Seq<Seq<char>> {
    Seq::new(configs.len(), |i: int| configs[i].text())
}

/// The line `KEY=VALUE`, with its line ending.
pub open spec fn key_value_line(key: Seq<char>, value: Seq<char>) -> Seq<char> {
    key + seq!['='] + value + seq!['\n']
}

/// The line of a value that may be unset: nothing when it is.
pub open spec fn value_line(key: Seq<char>, value: Option<Seq<char>>) -> Seq<char> {
    match value {
        Some(v) => key_value_line(key, v),
        None => seq![],
    }
}

/// The value that lists `items`: the items with one space between each two,
/// in parentheses.
pub open spec fn list_value(items: Seq<Seq<char>>) -> Seq<char> {
    seq!['('] + join(items, seq![' ']) + seq![')']
}

/// The line of a list: nothing when the list is empty.
pub open spec fn list_line(key: Seq<char>, items: Seq<Seq<char>>) -> Seq<char> {
    if items.len() == 0 {
        seq![]
    } else {
        key_value_line(key, list_value(items))
    }
}

/// The requirements that the output `s` of a test writes.
pub open spec fn parsed_deps(s: Seq<char>) -> Result<DepsView, ErrorView> {
    DepsView::empty().with_lines(lines(s))
}

/// What to run to ask the test at `test` for its requirements: the test
/// itself with the one argument `deps`, told where the test library is.
pub open spec fn deps_invocation(test: Seq<char>, testlib: Seq<char>) -> InvocationView {
    InvocationView {
        program: test,
        args: seq!["deps"@],
        envs: seq![("KTEST_TEST_LIB"@, testlib)],
        current_dir: None,
    }
}

/// What asking for the invocation yields: a complaint when the test does not
/// exist or the test library cannot be had, else the invocation.
pub open spec fn external_of(
    lib_path: Option<Seq<char>>,
    test: Seq<char>,
    test_exists: bool,
    testlib_exists: bool,
) -> Result<InvocationView, ErrorView> {
    if !test_exists {
        Err(ErrorView::message("test "@ + test + " does not exist"@))
    } else {
        match lib_path_of(lib_path, testlib_exists) {
            Err(e) => Err(e),
            Ok(lib) => Ok(deps_invocation(test, lib)),
        }
    }
}

/// What the test wrote, as text: a failure that carries the exit code when
/// the test did not succeed, a complaint when it did not write UTF-8.
pub open spec fn decoded_output(status: Option<i32>, stdout: Seq<u8>) -> Result<
    Seq<char>,
    ErrorView,
> {
    if !succeeded(status) {
        Err(ErrorView::tool_failure("Failed to run test in deps mode"@, status))
    } else if !vstd::utf8::valid_utf8(stdout) {
        Err(ErrorView::message(utf8_error_text(stdout)))
    } else {
        Ok(vstd::utf8::decode_utf8(stdout))
    }
}

/// The requirements that a test reported: those its output writes, when it
/// succeeded and wrote lines of text of the form `KEY=VALUE`.
pub open spec fn reported_deps(status: Option<i32>, stdout: Seq<u8>) -> Result<
    DepsView,
    ErrorView,
> {
    match decoded_output(status, stdout) {
        Err(e) => Err(e),
        Ok(text) => if well_formed(text) {
            parsed_deps(text)
        } else {
            Err(ErrorView::message("Malformed line in test output"@))
        },
    }
}

/// The items of a list value: the text between the opening and the closing
/// parentheses, cut at each space, without the empty pieces.
pub fn parse_array(value: &str) -> (r: Vec<String>)
    ensures
        views(r@) == list_items(value@),
{
    let a = trim_start_matches(value, '(');
    let b = trim_end_matches(a.as_str(), ')');
    drop_empty(split_char(b.as_str(), ' '))
}

/// Reads each item as an option; stops at the first that is none.
fn parse_kconfigs(items: &Vec<String>) -> (r: Result<Vec<KConfig>, Error>)
    ensures
        match r {
            Ok(cs) => kconfigs_from(views(items@)) == Ok::<Seq<KConfigView>, ErrorView>(
                kconfig_views(cs@),
            ),
            Err(e) => kconfigs_from(views(items@)) == Err::<Seq<KConfigView>, ErrorView>(e@),
        },
{
    let mut out: Vec<KConfig> = Vec::new();
    let mut i: usize = 0;
    assert(kconfig_views(out@) =~= Seq::<KConfigView>::empty());
    while i < items.len()
        invariant
            i <= items.len(),
            kconfigs_from(views(items@).take(i as int)) == Ok::<Seq<KConfigView>, ErrorView>(
                kconfig_views(out@),
            ),
        decreases items.len() - i,
    {
        let ghost before = kconfig_views(out@);
        let ghost next = views(items@).take(i + 1);
        proof {
            assert(next.drop_last() == views(items@).take(i as int));
            assert(next.last() == items@[i as int]@);
        }
        match KConfig::parse(items[i].as_str()) {
            Ok(c) => {
                out.push(c);
                assert(kconfig_views(out@) =~= before.push(c@));
            },
            Err(e) => {
                proof {
                    lemma_kconfigs_error_stays(views(items@), i + 1);
                }
                return Err(e);
            },
        }
        i = i + 1;
    }
    proof {
        assert(views(items@).take(items.len() as int) == views(items@));
    }
    Ok(out)
}

/// Once a prefix of the items fails, so does the whole, with the same complaint.
proof fn lemma_kconfigs_error_stays(items: Seq<Seq<char>>, k: int)
    requires
        0 <= k <= items.len(),
        kconfigs_from(items.take(k)) is Err,
    ensures
        kconfigs_from(items) == kconfigs_from(items.take(k)),
    decreases items.len() - k,
{
    if k < items.len() {
        assert(items.take(k + 1).drop_last() == items.take(k));
        lemma_kconfigs_error_stays(items, k + 1);
    } else {
        assert(items.take(k) == items);
    }
}

/// Once a prefix of the lines fails, so does the whole, with the same complaint.
proof fn lemma_lines_error_stays(d: DepsView, all: Seq<Seq<char>>, k: int)
    requires
        0 <= k <= all.len(),
        d.with_lines(all.take(k)) is Err,
    ensures
        d.with_lines(all) == d.with_lines(all.take(k)),
    decreases all.len() - k,
{
    if k < all.len() {
        assert(all.take(k + 1).drop_last() == all.take(k));
        lemma_lines_error_stays(d, all, k + 1);
    } else {
        assert(all.take(k) == all);
    }
}

impl Deps {
    /// No requirement at all.
    pub fn new() -> (r: Deps)
        ensures
            r@ == DepsView::empty(),
    {
        let r = Deps {
            arch: None,
            cpus: None,
            mem: None,
            kernel_append: Vec::new(),
            make_append: Vec::new(),
            storage_bus: None,
            config: Vec::new(),
            qemu_append: Vec::new(),
        };
        assert(r@.kernel_append =~= Seq::<Seq<char>>::empty());
        assert(r@.make_append =~= Seq::<Seq<char>>::empty());
        assert(r@.qemu_append =~= Seq::<Seq<char>>::empty());
        assert(r@.config =~= Seq::<KConfigView>::empty());
        r
    }

    /// Reads one more line `KEY=VALUE`.
    fn with_line(self, line: &str) -> (r: Result<Deps, Error>)
        requires
            has_char(line@, '='),
        ensures
            deps_result_view(r) == self@.with_line(line@),
    {
        let n: usize = line.unicode_len();
        let i: usize = find_from(line, '=', 0);
        proof {
            assert(line@.subrange(0, n as int) == line@);
            lemma_find(line@, '=');
        }
        let key = slice(line, 0, i);
        let value = slice(line, i + 1, n);
        let mut out = self;
        if str_eq(key.as_str(), "ktest_arch") {
            match Arch::from_str(value.as_str()) {
                Ok(a) => {
                    out.arch = Some(a);
                },
                Err(e) => {
                    return Err(e);
                },
            }
        } else if str_eq(key.as_str(), "ktest_cpus") {
            match parse_usize(value.as_str()) {
                Some(c) => {
                    if c == 0 {
                        return Err(
                            Error::new(concat2("Invalid number: ", value.as_str()).as_str()),
                        );
                    }
                    out.cpus = Some(c);
                },
                None => {
                    return Err(Error::new(concat2("Invalid number: ", value.as_str()).as_str()));
                },
            }
        } else if str_eq(key.as_str(), "ktest_mem") {
            out.mem = Some(value);
        } else if str_eq(key.as_str(), "ktest_kernel_append") {
            let items = parse_array(value.as_str());
            extend_strings(&mut out.kernel_append, &items);
        } else if str_eq(key.as_str(), "ktest_kernel_make_append") {
            let items = parse_array(value.as_str());
            extend_strings(&mut out.make_append, &items);
        } else if str_eq(key.as_str(), "ktest_storage_bus") {
            out.storage_bus = Some(value);
        } else if str_eq(key.as_str(), "ktest_kernel_config_require") {
            let items = parse_array(value.as_str());
            match parse_kconfigs(&items) {
                Ok(cs) => {
                    let mut cs = cs;
                    let ghost before = kconfig_views(out.config@);
                    let ghost more = kconfig_views(cs@);
                    out.config.append(&mut cs);
                    assert(kconfig_views(out.config@) =~= before + more);
                },
                Err(e) => {
                    return Err(e);
                },
            }
        } else if str_eq(key.as_str(), "ktest_qemu_append") {
            let items = parse_array(value.as_str());
            extend_strings(&mut out.qemu_append, &items);
        }
        Ok(out)
    }

    /// Whether every line of `output` has the form `KEY=VALUE`.
    pub fn is_well_formed(output: &str) -> (r: bool)
        ensures
            r == well_formed(output@),
    {
        let all = lines_of(output);
        let mut i: usize = 0;
        while i < all.len()
            invariant
                i <= all.len(),
                views(all@) == lines(output@),
                forall|k: int| 0 <= k < i ==> has_char(#[trigger] lines(output@)[k], '='),
            decreases all.len() - i,
        {
            assert(views(all@)[i as int] == all@[i as int]@);
            if !contains_char(all[i].as_str(), '=') {
                return false;
            }
            i = i + 1;
        }
        true
    }

    /// Reads the requirements that the output of a test writes, line by
    /// line. The first line that names no architecture, no number or no
    /// option where one is due ends the reading with its complaint.
    pub fn external_str(output: &str) -> (r: Result<Deps, Error>)
        requires
            well_formed(output@),
        ensures
            deps_result_view(r) == parsed_deps(output@),
    {
        let all = lines_of(output);
        let mut out = Deps::new();
        let mut i: usize = 0;
        while i < all.len()
            invariant
                i <= all.len(),
                views(all@) == lines(output@),
                well_formed(output@),
                DepsView::empty().with_lines(lines(output@).take(i as int)) == Ok::<
                    DepsView,
                    ErrorView,
                >(out@),
            decreases all.len() - i,
        {
            let ghost next = lines(output@).take(i + 1);
            proof {
                assert(views(all@)[i as int] == all@[i as int]@);
                assert(next.drop_last() == lines(output@).take(i as int));
                assert(next.last() == all@[i as int]@);
                assert(has_char(lines(output@)[i as int], '='));
            }
            match out.with_line(all[i].as_str()) {
                Ok(d) => {
                    out = d;
                },
                Err(e) => {
                    proof {
                        lemma_lines_error_stays(DepsView::empty(), lines(output@), i + 1);
                    }
                    return Err(e);
                },
            }
            i = i + 1;
        }
        proof {
            assert(lines(output@).take(all.len() as int) == lines(output@));
        }
        Ok(out)
    }

    /// What the test wrote, as text. A test that did not succeed is a
    /// failure that carries its exit code; output that is not UTF-8 is a
    /// complaint.
    pub fn external_str_run(output: &Output) -> (r: Result<String, Error>)
        ensures
            match r {
                Ok(s) => decoded_output(output.status, output.stdout@) == Ok::<
                    Seq<char>,
                    ErrorView,
                >(s@),
                Err(e) => decoded_output(output.status, output.stdout@) == Err::<
                    Seq<char>,
                    ErrorView,
                >(e@),
            },
    {
        match output.status {
            Some(0) => {},
            _ => {
                return Err(
                    Error::new("Failed to run test in deps mode").set_exit_code(output.status),
                );
            },
        }
        match string_from_utf8(&output.stdout) {
            Ok(s) => Ok(s),
            Err(m) => Err(Error::new(m.as_str())),
        }
    }

    /// What to run to ask the test at `test` for its requirements. `test`
    /// is the test's resolved path, `test_exists` whether there is a file
    /// there, and `testlib_exists` whether the test library is where the
    /// configuration says.
    pub fn external(config: &Config, test: &str, test_exists: bool, testlib_exists: bool) -> (r:
        Result<Invocation, Error>)
        ensures
            invocation_result_view(r) == external_of(
                opt_view(config.ktest.lib_path),
                test@,
                test_exists,
                testlib_exists,
            ),
    {
        if !test_exists {
            let mut message = concat2("test ", test);
            message.append(" does not exist");
            return Err(Error::new(message.as_str()));
        }
        let lib = match config.ktest.lib_path(testlib_exists) {
            Ok(lib) => lib,
            Err(e) => {
                return Err(e);
            },
        };
        let mut args: Vec<String> = Vec::new();
        args.push("deps".to_owned());
        let mut envs: Vec<(String, String)> = Vec::new();
        envs.push(("KTEST_TEST_LIB".to_owned(), lib));
        let r = Invocation { program: test.to_owned(), args, envs, current_dir: None };
        assert(r@.args =~= seq!["deps"@]);
        assert(r@.envs =~= seq![("KTEST_TEST_LIB"@, lib@)]);
        Ok(r)
    }

    /// The requirements that a test reported. A test that did not succeed,
    /// output that is not UTF-8 and a line that is not `KEY=VALUE` are
    /// errors; otherwise the requirements are those the lines write.
    pub fn get(output: &Output) -> (r: Result<Deps, Error>)
        ensures
            deps_result_view(r) == reported_deps(output.status, output.stdout@),
    {
        let text = match Deps::external_str_run(output) {
            Ok(text) => text,
            Err(e) => {
                return Err(e);
            },
        };
        if !Deps::is_well_formed(text.as_str()) {
            return Err(Error::new("Malformed line in test output"));
        }
        Deps::external_str(text.as_str())
    }

    /// Merges the requirements into the configuration: what is set
    /// replaces, what is listed is appended in order, and each required
    /// option takes the place of the configured option of its key.
    pub fn merge_into_config(&self, config: &mut Config)
        ensures
            final(config)@ == self@.merged_into(old(config)@),
    {
        if let Some(arch) = &self.arch {
            config.make.arch = Some(*arch);
        }
        if let Some(cpus) = &self.cpus {
            config.qemu.cpus = *cpus;
        }
        if let Some(mem) = &self.mem {
            config.qemu.mem = mem.clone();
        }
        extend_strings(&mut config.qemu.extra_kernel_args, &self.kernel_append);
        extend_strings(&mut config.make.extra_make_args, &self.make_append);
        if let Some(storage_bus) = &self.storage_bus {
            config.qemu.storage_bus = storage_bus.clone();
        }
        extend_strings(&mut config.qemu.extra_args, &self.qemu_append);
        let mut i: usize = 0;
        let ghost start = old(config)@.make.kconfig;
        let ghost goal = self@.merged_into(old(config)@);
        assert(kconfig_views(self.config@).take(0) =~= Seq::<KConfigView>::empty());
        assert(config.make.kconfig@ == start);
        assert(config.qemu@ == goal.qemu);
        while i < self.config.len()
            invariant
                i <= self.config.len(),
                start == old(config)@.make.kconfig,
                goal == self@.merged_into(old(config)@),
                config.make.kconfig@ == inserted_all(
                    start,
                    kconfig_views(self.config@).take(i as int),
                ),
                config.make@ == (MakeView { kconfig: config.make.kconfig@, ..goal.make }),
                config.qemu@ == goal.qemu,
                config.ktest == old(config).ktest,
            decreases self.config.len() - i,
        {
            let ghost next = kconfig_views(self.config@).take(i + 1);
            proof {
                assert(next.drop_last() == kconfig_views(self.config@).take(i as int));
                assert(next.last() == self.config@[i as int]@);
            }
            config.make.kconfig.insert(self.config[i].duplicate());
            i = i + 1;
        }
        proof {
            assert(kconfig_views(self.config@).take(self.config.len() as int) == kconfig_views(
                self.config@,
            ));
        }
    }

    /// The lines that write the requirements for a shell: `KEY=VALUE` for
    /// each requirement that is set, `KEY=(a b c)` for each list that is
    /// not empty.
    pub fn render_shell(&self) -> (r: String)
        ensures
            r@ == self@.rendered(),
    {
        let mut out = String::new();
        if let Some(arch) = &self.arch {
            push_line(&mut out, "ktest_arch", arch.name());
        }
        if let Some(cpus) = &self.cpus {
            push_line(&mut out, "ktest_cpus", usize_to_string(*cpus).as_str());
        }
        if let Some(mem) = &self.mem {
            push_line(&mut out, "ktest_mem", mem.as_str());
        }
        push_list(&mut out, "ktest_kernel_append", &self.kernel_append);
        push_list(&mut out, "ktest_kernel_make_append", &self.make_append);
        if let Some(storage_bus) = &self.storage_bus {
            push_line(&mut out, "ktest_storage_bus", storage_bus.as_str());
        }
        push_list(&mut out, "ktest_kernel_config_require", &kconfig_strings(&self.config));
        push_list(&mut out, "ktest_qemu_append", &self.qemu_append);
        out
    }
}

/// The textual form of each option, in order.
pub fn kconfig_strings(configs: &Vec<KConfig>) -> (r: Vec<String>)
    ensures
        views(r@) == kconfig_texts(kconfig_views(configs@)),
{
    let mut texts: Vec<String> = Vec::new();
    let mut i: usize = 0;
    while i < configs.len()
        invariant
            i <= configs.len(),
            views(texts@) == kconfig_texts(kconfig_views(configs@)).take(i as int),
        decreases configs.len() - i,
    {
        let ghost before = views(texts@);
        texts.push(configs[i].to_string());
        assert(views(texts@) =~= before.push(configs@[i as int]@.text()));
        assert(views(texts@) =~= kconfig_texts(kconfig_views(configs@)).take(i + 1));
        i = i + 1;
    }
    proof {
        assert(kconfig_texts(kconfig_views(configs@)).take(configs.len() as int)
            =~= kconfig_texts(kconfig_views(configs@)));
    }
    texts
}

/// Whether a test may print `key`: it is one of the keys that set or extend
/// a requirement.
pub open spec fn is_known_key(key: Seq<char>) -> bool {
    ||| key == "ktest_arch"@
    ||| key == "ktest_cpus"@
    ||| key == "ktest_mem"@
    ||| key == "ktest_kernel_append"@
    ||| key == "ktest_kernel_make_append"@
    ||| key == "ktest_storage_bus"@
    ||| key == "ktest_kernel_config_require"@
    ||| key == "ktest_qemu_append"@
}

/// The keys of those of `lines` whose key sets no requirement, in order and
/// as often as they occur. The key of a line without `=` is the whole line.
pub open spec fn unknown_keys_of(lines: Seq<Seq<char>>) -> Seq<Seq<char>>
    decreases lines.len(),
{
    if lines.len() == 0 {
        seq![]
    } else if is_known_key(line_key(lines.last())) {
        unknown_keys_of(lines.drop_last())
    } else {
        unknown_keys_of(lines.drop_last()).push(line_key(lines.last()))
    }
}

/// Whether a test may print `key`.
fn known_key(key: &str) -> (r: bool)
    ensures
        r == is_known_key(key@),
{
    str_eq(key, "ktest_arch") || str_eq(key, "ktest_cpus") || str_eq(key, "ktest_mem") || str_eq(
        key,
        "ktest_kernel_append",
    ) || str_eq(key, "ktest_kernel_make_append") || str_eq(key, "ktest_storage_bus") || str_eq(
        key,
        "ktest_kernel_config_require",
    ) || str_eq(key, "ktest_qemu_append")
}

impl Deps {
    /// The keys in the output of a test that set no requirement and are
    /// passed over when the output is read, in order and as often as they
    /// occur.
    pub fn unknown_keys(output: &str) -> (r: Vec<String>)
        ensures
            views(r@) == unknown_keys_of(lines(output@)),
    {
        let all = lines_of(output);
        let mut out: Vec<String> = Vec::new();
        let mut i: usize = 0;
        assert(views(out@) =~= unknown_keys_of(lines(output@).take(0)));
        while i < all.len()
            invariant
                i <= all.len(),
                views(all@) == lines(output@),
                views(out@) == unknown_keys_of(lines(output@).take(i as int)),
            decreases all.len() - i,
        {
            let line = all[i].as_str();
            let n: usize = line.unicode_len();
            let at: usize = find_from(line, '=', 0);
            let key = slice(line, 0, at);
            let ghost before = views(out@);
            let ghost next = lines(output@).take(i + 1);
            proof {
                assert(views(all@)[i as int] == all@[i as int]@);
                assert(line@.subrange(0, n as int) == line@);
                assert(next.drop_last() == lines(output@).take(i as int));
                assert(next.last() == line@);
                assert(key@ == line_key(line@));
            }
            if !known_key(key.as_str()) {
                out.push(key);
                assert(views(out@) =~= before.push(line_key(line@)));
            }
            i = i + 1;
        }
        proof {
            assert(lines(output@).take(all.len() as int) == lines(output@));
        }
        out
    }
}

impl Default for Deps {
    fn default() -> (r: Deps)
        ensures
            r@ == DepsView::empty(),
    {
        Deps::new()
    }
}

/// Appends the line `KEY=VALUE` to `out`.
pub fn push_line(out: &mut String, key: &str, value: &str)
    ensures
        final(out)@ == old(out)@ + key_value_line(key@, value@),
{
    proof {
        reveal_strlit("=");
        reveal_strlit("\n");
        assert("="@ =~= seq!['=']);
        assert("\n"@ =~= seq!['\n']);
    }
    out.append(key);
    out.append("=");
    out.append(value);
    out.append("\n");
    assert(out@ =~= old(out)@ + key_value_line(key@, value@));
}

/// Appends the line of a list to `out`: nothing when the list is empty.
pub fn push_list(out: &mut String, key: &str, items: &Vec<String>)
    ensures
        final(out)@ == old(out)@ + list_line(key@, views(items@)),
{
    if items.len() > 0 {
        proof {
            reveal_strlit("(");
            reveal_strlit(")");
            reveal_strlit(" ");
            assert("("@ =~= seq!['(']);
            assert(")"@ =~= seq![')']);
            assert(" "@ =~= seq![' ']);
        }
        let mut value = "(".to_owned();
        value.append(join_with(items, " ").as_str());
        value.append(")");
        push_line(out, key, value.as_str());
    } else {
        assert(out@ =~= old(out)@ + list_line(key@, views(items@)));
    }
}

} // verus!
