//! The command that boots the built kernel in a virtual machine.

use crate::config::arch::Arch;
use crate::config::{Config, ConfigView};
use crate::decimal::{decimal, usize_to_string};
use crate::err::{status_result, unit_view, Error, ErrorView};
use crate::path::{ends_with, join_path, joined};
use crate::process::{Invocation, InvocationView};
use crate::text::{concat3, join, join_with, str_eq, views};
use vstd::prelude::*;
use vstd::string::*;

verus! {

/// A run of the virtual machine.
#[derive(Debug, Clone, PartialEq, Eq)]
pub struct QemuCmd {
    /// The launcher and its arguments.
    pub cmd: Invocation,
}

impl View for QemuCmd {
    type V = InvocationView;

    open spec fn view(&self) -> InvocationView {
        self.cmd@
    }
}

/// The kernel argument that names the root disk: the first virtio disk on
/// the bus `virtio-blk`, the first SCSI disk on any other.
pub open spec fn root_arg(storage_bus: Seq<char>) -> Seq<char> {
    if storage_bus == "virtio-blk"@ {
        "root=/dev/vda"@
    } else {
        "root=/dev/sda"@
    }
}

/// The kernel command line: the kernel's arguments and then the root disk,
/// with one space between each two.
pub open spec fn kernel_command_line(config: ConfigView, arch: Arch) -> Seq<char> {
    join(config.qemu.kernel_args(arch).push(root_arg(config.qemu.storage_bus)), seq![' '])
}

/// The endpoint of a Unix socket that the machine serves at `path`.
pub open spec fn socket_arg(path: Seq<char>) -> Seq<char> {
    "unix:"@ + path + ",server,nowait"@
}

/// The memory of the machine: its size, eight slots, and how far it may grow.
pub open spec fn memory_arg(mem: Seq<char>, maxmem: Seq<char>) -> Seq<char> {
    mem + ",slots=8,maxmem="@ + maxmem
}

/// The arguments of the launcher for `arch`: the configured ones, then
/// memory, processors, kernel image, kernel command line, and the sockets
/// of the serial line, the monitor and the debugger.
pub open spec fn qemu_cmd_args(config: ConfigView, arch: Arch, maxmem: Seq<char>) -> Seq<
    Seq<char>,
> {
    config.qemu.qemu_args(arch) + seq![
        "-m"@,
        memory_arg(config.qemu.mem, maxmem),
        "-smp"@,
        decimal(config.qemu.cpus as nat),
        "-kernel"@,
        joined(config.make.kernel_bin_dir(arch), "vmlinuz"@),
        "-append"@,
        kernel_command_line(config, arch),
        "-serial"@,
        socket_arg(joined(config.make.vm_socket_dir(), "kgdb"@)),
        "-monitor"@,
        socket_arg(joined(config.make.vm_socket_dir(), "mon"@)),
        "-gdb"@,
        socket_arg(joined(config.make.vm_socket_dir(), "gdb"@)),
    ]
}

/// The run of the virtual machine under `config`, or the complaint that no
/// launcher is known: neither an override nor, with the architecture set,
/// one for the architecture.
pub open spec fn qemu_cmd(config: ConfigView, maxmem: Seq<char>) -> Result<
    InvocationView,
    ErrorView,
> {
    match config.qemu_path() {
        None => Err(ErrorView::message("Missing qemu executable"@)),
        Some(program) => Ok(
            InvocationView {
                program,
                args: qemu_cmd_args(config, config.make.arch->0, maxmem),
                envs: seq![],
                current_dir: None,
            },
        ),
    }
}

/// The model of a result that holds a run of the virtual machine.
pub open spec fn qemu_result_view(r: Result<QemuCmd, Error>) -> Result<InvocationView, ErrorView> {
    match r {
        Ok(c) => Ok(c@),
        Err(e) => Err(e@),
    }
}

/// The kernel command line always ends in the root disk of the storage bus.
pub proof fn lemma_command_line_ends_in_root(config: ConfigView, arch: Arch)
    ensures
        ends_with(kernel_command_line(config, arch), root_arg(config.qemu.storage_bus)),
{
    let root = root_arg(config.qemu.storage_bus);
    let items = config.qemu.kernel_args(arch).push(root);
    let line = kernel_command_line(config, arch);
    assert(items.last() == root);
    if items.len() == 1 {
        assert(line == root);
        assert(line.subrange(0, line.len() as int) =~= line);
    } else {
        assert(line == join(items.drop_last(), seq![' ']) + seq![' '] + root);
        assert(line.subrange(line.len() - root.len(), line.len() as int) =~= root);
    }
}

/// How far the memory of the machine may grow.
pub fn maxmem() -> (r: String)
    ensures
        r@ == "3G"@,
{
    "3G".to_owned()
}

/// The endpoint of a Unix socket that the machine serves at `name` in `dir`.
fn socket(dir: &str, name: &str) -> (r: String)
    ensures
        r@ == socket_arg(joined(dir@, name@)),
{
    concat3("unix:", join_path(dir, name).as_str(), ",server,nowait")
}

impl QemuCmd {
    /// The run of the virtual machine under `config`. An error when no
    /// launcher is known.
    pub fn new(config: &Config) -> (r: Result<QemuCmd, Error>)
        ensures
            qemu_result_view(r) == qemu_cmd(config@, "3G"@),
    {
        let program = match config.qemu_path() {
            Some(p) => p,
            None => {
                return Err(Error::new("Missing qemu executable"));
            },
        };
        let ghost arch = config.make.arch->0;
        let mut args = config.qemu_args();
        let ghost head = views(args@);
        let mut kernel_args = config.qemu_kernel_args();
        let ghost before = views(kernel_args@);
        if str_eq(config.qemu.storage_bus.as_str(), "virtio-blk") {
            kernel_args.push("root=/dev/vda".to_owned());
        } else {
            kernel_args.push("root=/dev/sda".to_owned());
        }
        proof {
            reveal_strlit(" ");
            assert(" "@ =~= seq![' ']);
            assert(views(kernel_args@) =~= before.push(root_arg(config@.qemu.storage_bus)));
        }
        let sockets = config.make.vm_socket_dir();
        args.push("-m".to_owned());
        args.push(concat3(config.qemu.mem(), ",slots=8,maxmem=", maxmem().as_str()));
        args.push("-smp".to_owned());
        args.push(usize_to_string(config.qemu.cpus()));
        args.push("-kernel".to_owned());
        args.push(join_path(config.make.kernel_bin_dir().as_str(), "vmlinuz"));
        args.push("-append".to_owned());
        args.push(join_with(&kernel_args, " "));
        args.push("-serial".to_owned());
        args.push(socket(sockets.as_str(), "kgdb"));
        args.push("-monitor".to_owned());
        args.push(socket(sockets.as_str(), "mon"));
        args.push("-gdb".to_owned());
        args.push(socket(sockets.as_str(), "gdb"));
        let r = QemuCmd { cmd: Invocation { program, args, envs: Vec::new(), current_dir: None } };
        proof {
            assert(r@.envs =~= Seq::<(Seq<char>, Seq<char>)>::empty());
            assert(r@.args =~= qemu_cmd_args(config@, arch, "3G"@));
        }
        Ok(r)
    }

    /// What the exit status of the run means: nothing when the machine
    /// shut down in order, else a failure that carries its exit code.
    pub fn run(&self, status: Option<i32>) -> (r: Result<(), Error>)
        ensures
            unit_view(r) == status_result("Failed to run qemu"@, status),
    {
        Error::check_status("Failed to run qemu", status)
    }
}

} // verus!
