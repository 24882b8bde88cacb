//! The virtual machine's configuration: one launcher for each architecture,
//! and what the user adds to all of them.

use crate::config::arch::Arch;
use crate::text::{clone_strings, extend_strings, opt_view, views};
use vstd::prelude::*;
use vstd::string::*;

verus! {

/// How the virtual machine of one architecture is started.
#[derive(Debug, Clone, PartialEq, Eq)]
pub struct QemuConfig {
    /// The launcher's executable.
    pub path: String,
    /// Arguments of the launcher.
    pub args: Vec<String>,
    /// Arguments of the kernel that it boots.
    pub kernel_args: Vec<String>,
}

/// Mathematical model of a [`QemuConfig`].
pub struct QemuConfigView {
    pub path: Seq<char>,
    pub args: Seq<Seq<char>>,
    pub kernel_args: Seq<Seq<char>>,
}

impl View for QemuConfig {
    type V = QemuConfigView;

    open spec fn view(&self) -> QemuConfigView {
        QemuConfigView {
            path: self.path@,
            args: views(self.args@),
            kernel_args: views(self.kernel_args@),
        }
    }
}

impl QemuConfig {
    /// A copy of the launcher's description.
    pub fn duplicate(&self) -> (r: QemuConfig)
        ensures
            r@ == self@,
    {
        QemuConfig {
            path: self.path.clone(),
            args: clone_strings(&self.args),
            kernel_args: clone_strings(&self.kernel_args),
        }
    }
}

/// The launcher of each architecture that has one: a mapping with one place
/// for every architecture.
#[derive(Debug, Clone, Default)]
pub struct ArchTable {
    pub x86: Option<QemuConfig>,
    pub x86_64: Option<QemuConfig>,
    pub aarch64: Option<QemuConfig>,
    pub mips: Option<QemuConfig>,
    pub mips64: Option<QemuConfig>,
    pub sparc: Option<QemuConfig>,
    pub sparc64: Option<QemuConfig>,
    pub powerpc: Option<QemuConfig>,
    pub powerpc64: Option<QemuConfig>,
}

impl View for ArchTable {
    type V = Map<Arch, QemuConfigView>;

    open spec fn view(&self) -> Map<Arch, QemuConfigView> {
        Map::new(|a: Arch| self.place(a) is Some, |a: Arch| self.place(a)->0@)
    }
}

impl ArchTable {
    /// What the table holds for `arch`.
    pub open spec fn place(self, arch: Arch) -> Option<QemuConfig> {
        match arch {
            Arch::X86 => self.x86,
            Arch::X86_64 => self.x86_64,
            Arch::Aarch64 => self.aarch64,
            Arch::Mips => self.mips,
            Arch::Mips64 => self.mips64,
            Arch::Sparc => self.sparc,
            Arch::Sparc64 => self.sparc64,
            Arch::PowerPC => self.powerpc,
            Arch::PowerPC64 => self.powerpc64,
        }
    }

    /// A table without launchers.
    pub fn new() -> (r: ArchTable)
        ensures
            r@ == Map::<Arch, QemuConfigView>::empty(),
    {
        let r = ArchTable {
            x86: None,
            x86_64: None,
            aarch64: None,
            mips: None,
            mips64: None,
            sparc: None,
            sparc64: None,
            powerpc: None,
            powerpc64: None,
        };
        assert(r@ =~= Map::<Arch, QemuConfigView>::empty());
        r
    }

    /// The launcher of `arch`, when the table has one.
    pub fn get(&self, arch: Arch) -> (r: Option<&QemuConfig>)
        ensures
            r is Some <==> self@.dom().contains(arch),
            r is Some ==> r->0@ == self@[arch],
    {
        match arch {
            Arch::X86 => self.x86.as_ref(),
            Arch::X86_64 => self.x86_64.as_ref(),
            Arch::Aarch64 => self.aarch64.as_ref(),
            Arch::Mips => self.mips.as_ref(),
            Arch::Mips64 => self.mips64.as_ref(),
            Arch::Sparc => self.sparc.as_ref(),
            Arch::Sparc64 => self.sparc64.as_ref(),
            Arch::PowerPC => self.powerpc.as_ref(),
            Arch::PowerPC64 => self.powerpc64.as_ref(),
        }
    }

    /// Sets the launcher of `arch`, in place of the one it had.
    pub fn insert(&mut self, arch: Arch, config: QemuConfig)
        ensures
            final(self)@ == old(self)@.insert(arch, config@),
    {
        match arch {
            Arch::X86 => {
                self.x86 = Some(config);
            },
            Arch::X86_64 => {
                self.x86_64 = Some(config);
            },
            Arch::Aarch64 => {
                self.aarch64 = Some(config);
            },
            Arch::Mips => {
                self.mips = Some(config);
            },
            Arch::Mips64 => {
                self.mips64 = Some(config);
            },
            Arch::Sparc => {
                self.sparc = Some(config);
            },
            Arch::Sparc64 => {
                self.sparc64 = Some(config);
            },
            Arch::PowerPC => {
                self.powerpc = Some(config);
            },
            Arch::PowerPC64 => {
                self.powerpc64 = Some(config);
            },
        }
        assert(self@ =~= old(self)@.insert(arch, config@));
    }
}

/// How the virtual machine is started.
#[derive(Debug, Clone)]
pub struct Qemu {
    /// A launcher to use in place of the architecture's own.
    pub path_override: Option<String>,
    /// Arguments of the launcher, after those of the architecture.
    pub extra_args: Vec<String>,
    /// Arguments of the kernel, after those of the architecture.
    pub extra_kernel_args: Vec<String>,
    /// The launcher of each architecture.
    pub arch_config: ArchTable,
    /// The bus of the root disk: `virtio-blk`, or anything else.
    pub storage_bus: String,
    /// The machine's memory, as the launcher reads it.
    pub mem: String,
    /// The machine's processors.
    pub cpus: usize,
}

/// Mathematical model of a [`Qemu`].
pub struct QemuView {
    pub path_override: Option<Seq<char>>,
    pub extra_args: Seq<Seq<char>>,
    pub extra_kernel_args: Seq<Seq<char>>,
    pub arch_config: Map<Arch, QemuConfigView>,
    pub storage_bus: Seq<char>,
    pub mem: Seq<char>,
    pub cpus: usize,
}

impl View for Qemu {
    type V = QemuView;

    open spec fn view(&self) -> QemuView {
        QemuView {
            path_override: opt_view(self.path_override),
            extra_args: views(self.extra_args@),
            extra_kernel_args: views(self.extra_kernel_args@),
            arch_config: self.arch_config@,
            storage_bus: self.storage_bus@,
            mem: self.mem@,
            cpus: self.cpus,
        }
    }
}

/// What the command line says of the virtual machine.
#[derive(Debug, Clone)]
pub struct QemuArgs {
    pub path: Option<String>,
    pub mem: String,
    pub cpus: usize,
    pub extra_args: Vec<String>,
    pub extra_kernel_args: Vec<String>,
}

impl QemuView {
    /// The launcher for `arch`: the override, else the architecture's own.
    pub open spec fn path(self, arch: Arch) -> Option<Seq<char>> {
        match self.path_override {
            Some(p) => Some(p),
            None => if self.arch_config.dom().contains(arch) {
                Some(self.arch_config[arch].path)
            } else {
                None
            },
        }
    }

    /// The launcher's arguments for `arch`: the architecture's, then the user's.
    pub open spec fn qemu_args(self, arch: Arch) -> Seq<Seq<char>> {
        if self.arch_config.dom().contains(arch) {
            self.arch_config[arch].args + self.extra_args
        } else {
            self.extra_args
        }
    }

    /// The kernel's arguments for `arch`: the architecture's, then the user's.
    pub open spec fn kernel_args(self, arch: Arch) -> Seq<Seq<char>> {
        if self.arch_config.dom().contains(arch) {
            self.arch_config[arch].kernel_args + self.extra_kernel_args
        } else {
            self.extra_kernel_args
        }
    }

    /// The machine after the command line was applied: launcher, memory and
    /// processors are replaced, arguments are appended.
    pub open spec fn with_args(self, args: QemuArgs) -> QemuView {
        QemuView {
            path_override: opt_view(args.path),
            mem: args.mem@,
            cpus: args.cpus,
            extra_args: self.extra_args + views(args.extra_args@),
            extra_kernel_args: self.extra_kernel_args + views(args.extra_kernel_args@),
            ..self
        }
    }
}

/// The memory of a machine for which none is configured.
pub fn default_mem() -> (r: String)
    ensures
        r@ == "1G"@,
{
    "1G".to_owned()
}

impl Qemu {
    /// The launcher for `arch`: the override, else the architecture's own.
    pub fn path(&self, arch: &Arch) -> (r: Option<String>)
        ensures
            opt_view(r) == self@.path(*arch),
    {
        match &self.path_override {
            Some(p) => Some(p.clone()),
            None => match self.arch_config.get(*arch) {
                Some(c) => Some(c.path.clone()),
                None => None,
            },
        }
    }

    /// The launcher's arguments for `arch`: the architecture's, then the user's.
    pub fn qemu_args(&self, arch: &Arch) -> (r: Vec<String>)
        ensures
            views(r@) == self@.qemu_args(*arch),
    {
        let mut out: Vec<String> = match self.arch_config.get(*arch) {
            Some(c) => clone_strings(&c.args),
            None => Vec::new(),
        };
        extend_strings(&mut out, &self.extra_args);
        assert(views(out@) =~= self@.qemu_args(*arch));
        out
    }

    /// The kernel's arguments for `arch`: the architecture's, then the user's.
    pub fn kernel_args(&self, arch: &Arch) -> (r: Vec<String>)
        ensures
            views(r@) == self@.kernel_args(*arch),
    {
        let mut out: Vec<String> = match self.arch_config.get(*arch) {
            Some(c) => clone_strings(&c.kernel_args),
            None => Vec::new(),
        };
        extend_strings(&mut out, &self.extra_kernel_args);
        assert(views(out@) =~= self@.kernel_args(*arch));
        out
    }

    /// The machine's memory.
    pub fn mem(&self) -> (r: &str)
        ensures
            r@ == self@.mem,
    {
        self.mem.as_str()
    }

    /// The machine's processors.
    pub fn cpus(&self) -> (r: usize)
        ensures
            r == self@.cpus,
    {
        self.cpus
    }

    /// Applies the command line: launcher, memory and processors are
    /// replaced, arguments are appended in the order given.
    pub fn update_from_args(&mut self, args: &QemuArgs)
        ensures
            final(self)@ == old(self)@.with_args(*args),
    {
        self.path_override = match &args.path {
            Some(p) => Some(p.clone()),
            None => None,
        };
        self.mem = args.mem.clone();
        self.cpus = args.cpus;
        extend_strings(&mut self.extra_args, &args.extra_args);
        extend_strings(&mut self.extra_kernel_args, &args.extra_kernel_args);
    }
}

} // verus!
