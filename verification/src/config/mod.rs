//! The configuration tree of the driver.

pub mod arch;
pub mod kconfig;
pub mod ktest;
pub mod make;
pub mod qemu;

pub use arch::Arch;
pub use kconfig::{KConfig, KConfigMap};
pub use ktest::KTest;
pub use make::{Make, MakeArgs};
pub use qemu::{ArchTable, Qemu, QemuArgs, QemuConfig};

use crate::decimal::{decimal, usize_to_string};
use crate::deps::{
    kconfig_strings, kconfig_texts, key_value_line, list_line, push_line, push_list, value_line,
};
use crate::text::{concat3, opt_view, views};
use arch::all_archs;
use make::MakeView;
use qemu::{QemuConfigView, QemuView};
use vstd::prelude::*;
use vstd::string::*;

verus! {

/// Everything the driver is configured with.
#[derive(Debug, Clone)]
pub struct Config {
    /// The virtual machine.
    pub qemu: Qemu,
    /// The kernel build.
    pub make: Make,
    /// The test library.
    pub ktest: KTest,
}

/// Mathematical model of a [`Config`].
pub struct ConfigView {
    pub qemu: QemuView,
    pub make: MakeView,
    pub lib_path: Option<Seq<char>>,
}

impl View for Config {
    type V = ConfigView;

    open spec fn view(&self) -> ConfigView {
        ConfigView { qemu: self.qemu@, make: self.make@, lib_path: opt_view(self.ktest.lib_path) }
    }
}

impl ConfigView {
    /// The launcher of the virtual machine, once the architecture is known.
    pub open spec fn qemu_path(self) -> Option<Seq<char>> {
        match self.make.arch {
            Some(a) => self.qemu.path(a),
            None => None,
        }
    }
}

/// A text between double quotes.
pub open spec fn quoted(v: Seq<char>) -> Seq<char> {
    "\""@ + v + "\""@
}

/// The lines that describe the launcher of `arch`: its path, then its
/// arguments and the kernel's. Nothing for an architecture without launcher.
pub open spec fn launcher_rendered(table: Map<Arch, QemuConfigView>, arch: Arch) -> Seq<char> {
    if table.dom().contains(arch) {
        key_value_line("qemu."@ + arch.spec_name() + ".path"@, quoted(table[arch].path)) + list_line(
            "qemu."@ + arch.spec_name() + ".args"@,
            table[arch].args,
        ) + list_line("qemu."@ + arch.spec_name() + ".kernel_args"@, table[arch].kernel_args)
    } else {
        seq![]
    }
}

/// The lines that describe the launchers of the first `n` architectures.
pub open spec fn launchers_rendered(table: Map<Arch, QemuConfigView>, n: int) -> Seq<char>
    decreases n,
{
    if n <= 0 {
        seq![]
    } else {
        launchers_rendered(table, n - 1) + launcher_rendered(table, all_archs()[n - 1])
    }
}

impl ConfigView {
    /// The configuration as text, one line `KEY=VALUE` for each setting:
    /// texts between double quotes, numbers and the architecture bare, lists
    /// as `(a b c)`. A setting that is unset and a list that is empty have
    /// no line.
    pub open spec fn rendered(self) -> Seq<char> {
        key_value_line("make_path"@, quoted(self.make.path)) + value_line(
            "jobs"@,
            match self.make.jobs {
                Some(n) => Some(decimal(n as nat)),
                None => None,
            },
        ) + value_line(
            "arch"@,
            match self.make.arch {
                Some(a) => Some(a.spec_name()),
                None => None,
            },
        ) + key_value_line("out_dir"@, quoted(self.make.out_dir)) + key_value_line(
            "kernel_dir"@,
            quoted(self.make.kernel_dir),
        ) + list_line("extra_make_args"@, self.make.extra_make_args) + list_line(
            "kconfig"@,
            kconfig_texts(self.make.kconfig),
        ) + value_line(
            "qemu_path"@,
            match self.qemu.path_override {
                Some(p) => Some(quoted(p)),
                None => None,
            },
        ) + list_line("qemu_extra_args"@, self.qemu.extra_args) + list_line(
            "extra_kernel_args"@,
            self.qemu.extra_kernel_args,
        ) + launchers_rendered(self.qemu.arch_config, 9) + key_value_line(
            "storage_bus"@,
            quoted(self.qemu.storage_bus),
        ) + key_value_line("mem"@, quoted(self.qemu.mem)) + key_value_line(
            "cpus"@,
            decimal(self.qemu.cpus as nat),
        ) + value_line(
            "ktest_lib"@,
            match self.lib_path {
                Some(p) => Some(quoted(p)),
                None => None,
            },
        )
    }
}

/// A text between double quotes.
fn quote(v: &str) -> (r: String)
    ensures
        r@ == quoted(v@),
{
    concat3("\"", v, "\"")
}

impl Config {
    /// The configuration as text, one line `KEY=VALUE` for each setting.
    pub fn render(&self) -> (r: String)
        ensures
            r@ == self@.rendered(),
    {
        let mut out = String::new();
        push_line(&mut out, "make_path", quote(self.make.path.as_str()).as_str());
        if let Some(jobs) = &self.make.jobs {
            push_line(&mut out, "jobs", usize_to_string(*jobs).as_str());
        }
        if let Some(arch) = &self.make.arch {
            push_line(&mut out, "arch", arch.name());
        }
        push_line(&mut out, "out_dir", quote(self.make.out_dir.as_str()).as_str());
        push_line(&mut out, "kernel_dir", quote(self.make.kernel_dir.as_str()).as_str());
        push_list(&mut out, "extra_make_args", &self.make.extra_make_args);
        push_list(&mut out, "kconfig", &kconfig_strings(&self.make.kconfig.values()));
        if let Some(path) = &self.qemu.path_override {
            push_line(&mut out, "qemu_path", quote(path.as_str()).as_str());
        }
        push_list(&mut out, "qemu_extra_args", &self.qemu.extra_args);
        push_list(&mut out, "extra_kernel_args", &self.qemu.extra_kernel_args);
        let ghost head = out@;
        let ghost table = self@.qemu.arch_config;
        let variants = Arch::value_variants();
        let mut i: usize = 0;
        assert(out@ =~= head + launchers_rendered(table, 0));
        while i < variants.len()
            invariant
                i <= variants.len(),
                variants@ == all_archs(),
                table == self@.qemu.arch_config,
                out@ == head + launchers_rendered(table, i as int),
            decreases variants.len() - i,
        {
            let arch = variants[i];
            let ghost before = out@;
            match self.qemu.arch_config.get(arch) {
                Some(launcher) => {
                    push_line(
                        &mut out,
                        concat3("qemu.", arch.name(), ".path").as_str(),
                        quote(launcher.path.as_str()).as_str(),
                    );
                    push_list(
                        &mut out,
                        concat3("qemu.", arch.name(), ".args").as_str(),
                        &launcher.args,
                    );
                    push_list(
                        &mut out,
                        concat3("qemu.", arch.name(), ".kernel_args").as_str(),
                        &launcher.kernel_args,
                    );
                },
                None => {},
            }
            assert(out@ =~= before + launcher_rendered(table, arch));
            assert(out@ =~= head + launchers_rendered(table, i + 1));
            i = i + 1;
        }
        push_line(&mut out, "storage_bus", quote(self.qemu.storage_bus.as_str()).as_str());
        push_line(&mut out, "mem", quote(self.qemu.mem.as_str()).as_str());
        push_line(&mut out, "cpus", usize_to_string(self.qemu.cpus).as_str());
        if let Some(path) = &self.ktest.lib_path {
            push_line(&mut out, "ktest_lib", quote(path.as_str()).as_str());
        }
        out
    }

    /// The launcher of the virtual machine: none while the architecture is
    /// unknown, else the override or the architecture's own.
    pub fn qemu_path(&self) -> (r: Option<String>)
        ensures
            opt_view(r) == self@.qemu_path(),
    {
        match &self.make.arch {
            Some(a) => self.qemu.path(a),
            None => None,
        }
    }

    /// The launcher's arguments for the configured architecture.
    pub fn qemu_args(&self) -> (r: Vec<String>)
        requires
            self.make.arch is Some,
        ensures
            views(r@) == self@.qemu.qemu_args(self.make.arch->0),
    {
        let arch = self.make.arch.unwrap();
        self.qemu.qemu_args(&arch)
    }

    /// The kernel's arguments for the configured architecture.
    pub fn qemu_kernel_args(&self) -> (r: Vec<String>)
        requires
            self.make.arch is Some,
        ensures
            views(r@) == self@.qemu.kernel_args(self.make.arch->0),
    {
        let arch = self.make.arch.unwrap();
        self.qemu.kernel_args(&arch)
    }
}

} // verus!
