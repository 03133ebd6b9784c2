//! The command lines of `msb`: each function builds the arguments of one invocation.

use vstd::prelude::*;
use vstd::string::*;

use crate::model::{ContainerSpec, FileMount, PortBinding, Protocol};
use crate::text;

verus! {

/// Adds one argument.
fn add_word(argv: &mut Vec<String>, word: &str)
    ensures
        text::texts(final(argv)@) == text::texts(old(argv)@).push(word@),
{
    argv.push(word.to_owned());
    assert(text::texts(argv@) =~= text::texts(old(argv)@).push(word@));
}

/// Adds a flag and its value.
fn add_flag(argv: &mut Vec<String>, flag: &str, value: &str)
    ensures
        text::texts(final(argv)@) == text::texts(old(argv)@) + seq![flag@, value@],
{
    add_word(argv, flag);
    add_word(argv, value);
    assert(text::texts(argv@) =~= text::texts(old(argv)@) + seq![flag@, value@]);
}

/// Adds every argument of a list.
fn add_words(argv: &mut Vec<String>, words: &[String])
    ensures
        text::texts(final(argv)@) == text::texts(old(argv)@) + text::texts(words@),
{
    let mut i: usize = 0;
    assert(text::texts(argv@) =~= text::texts(old(argv)@) + text::texts(words@).take(0));
    while i < words.len()
        invariant
            i <= words@.len(),
            text::texts(argv@) == text::texts(old(argv)@) + text::texts(words@).take(i as int),
        decreases words.len() - i,
    {
        add_word(argv, words[i].as_str());
        assert(text::texts(argv@) =~= text::texts(old(argv)@) + text::texts(words@).take(i + 1));
        i = i + 1;
    }
    assert(text::texts(words@).take(i as int) =~= text::texts(words@));
}

/// The arguments that begin with one word.
fn words1(first: &str) -> (argv: Vec<String>)
    ensures
        text::texts(argv@) == seq![first@],
{
    let mut argv: Vec<String> = Vec::new();
    assert(text::texts(argv@) =~= Seq::empty());
    add_word(&mut argv, first);
    argv
}

/// Three arguments.
fn words3(first: &str, second: &str, third: &str) -> (argv: Vec<String>)
    ensures
        text::texts(argv@) == seq![first@, second@, third@],
{
    let mut argv = words1(first);
    add_word(&mut argv, second);
    add_word(&mut argv, third);
    argv
}

/// A size in mebibytes, as `msb` reads it.
pub open spec fn mebibytes(mb: u64) -> Seq<char> {
    text::decimal(mb as nat) + "M"@
}

/// A size in mebibytes, as `msb` reads it.
fn mebibytes_text(mb: u64) -> (text: String)
    ensures
        text@ == mebibytes(mb),
{
    let mut text = text::decimal_text(mb);
    text.append("M");
    text
}

/// The value of a `-p` flag: the host port, the guest port and, for UDP, a suffix.
pub open spec fn port_flag(port: PortBinding) -> Seq<char> {
    let ports = text::decimal(port.host_port as nat) + ":"@ + text::decimal(port.guest_port as nat);
    match port.protocol {
        Protocol::Tcp => ports,
        Protocol::Udp => ports + "/udp"@,
    }
}

/// The value of a `-p` flag.
pub fn port_flag_value(port: &PortBinding) -> (value: String)
    ensures
        value@ == port_flag(*port),
{
    let mut value = text::decimal_text(port.host_port as u64);
    value.append(":");
    value.append(text::decimal_text(port.guest_port as u64).as_str());
    match port.protocol {
        Protocol::Tcp => {},
        Protocol::Udp => {
            value.append("/udp");
        },
    }
    value
}

/// One `-p` flag for each port, in order.
pub open spec fn port_flags(ports: Seq<PortBinding>) -> Seq<Seq<char>>
    decreases ports.len(),
{
    if ports.len() == 0 {
        Seq::empty()
    } else {
        port_flags(ports.drop_last()) + seq!["-p"@, port_flag(ports.last())]
    }
}

/// Adds one `-p` flag for each port.
fn add_ports(argv: &mut Vec<String>, ports: &Vec<PortBinding>)
    ensures
        text::texts(final(argv)@) == text::texts(old(argv)@) + port_flags(ports@),
{
    let mut i: usize = 0;
    assert(ports@.take(0) =~= Seq::empty());
    assert(text::texts(argv@) =~= text::texts(old(argv)@) + port_flags(ports@.take(0)));
    while i < ports.len()
        invariant
            i <= ports@.len(),
            text::texts(argv@) == text::texts(old(argv)@) + port_flags(ports@.take(i as int)),
        decreases ports.len() - i,
    {
        let value = port_flag_value(&ports[i]);
        add_flag(argv, "-p", value.as_str());
        assert(ports@.take(i + 1).drop_last() =~= ports@.take(i as int));
        assert(text::texts(argv@) =~= text::texts(old(argv)@) + port_flags(ports@.take(i + 1)));
        i = i + 1;
    }
    assert(ports@.take(i as int) =~= ports@);
}

/// One `-e` flag for each variable, in order.
pub open spec fn env_flags(env: Seq<(String, String)>) -> Seq<Seq<char>>
    decreases env.len(),
{
    if env.len() == 0 {
        Seq::empty()
    } else {
        env_flags(env.drop_last()) + seq!["-e"@, env.last().0@ + "="@ + env.last().1@]
    }
}

/// Adds one `-e` flag for each variable.
fn add_env(argv: &mut Vec<String>, env: &[(String, String)])
    ensures
        text::texts(final(argv)@) == text::texts(old(argv)@) + env_flags(env@),
{
    let mut i: usize = 0;
    assert(env@.take(0) =~= Seq::empty());
    assert(text::texts(argv@) =~= text::texts(old(argv)@) + env_flags(env@.take(0)));
    while i < env.len()
        invariant
            i <= env@.len(),
            text::texts(argv@) == text::texts(old(argv)@) + env_flags(env@.take(i as int)),
        decreases env.len() - i,
    {
        let mut value = env[i].0.clone();
        value.append("=");
        value.append(env[i].1.as_str());
        add_flag(argv, "-e", value.as_str());
        assert(env@.take(i + 1).drop_last() =~= env@.take(i as int));
        assert(text::texts(argv@) =~= text::texts(old(argv)@) + env_flags(env@.take(i + 1)));
        i = i + 1;
    }
    assert(env@.take(i as int) =~= env@);
}

/// The value of a `--mount-file` flag: host path, guest path, an explicit access token
/// and `nodev`.
pub open spec fn mount_flag(mount: FileMount) -> Seq<char> {
    mount.host_path@ + ":"@ + mount.guest_path@ + ":"@ + if mount.read_only {
        "ro"@
    } else {
        "rw"@
    } + ",nodev"@
}

/// One `--mount-file` flag for each mount, in order.
pub open spec fn mount_flags(mounts: Seq<FileMount>) -> Seq<Seq<char>>
    decreases mounts.len(),
{
    if mounts.len() == 0 {
        Seq::empty()
    } else {
        mount_flags(mounts.drop_last()) + seq!["--mount-file"@, mount_flag(mounts.last())]
    }
}

/// The value of a `--mount-file` flag.
fn mount_flag_value(mount: &FileMount) -> (value: String)
    ensures
        value@ == mount_flag(*mount),
{
    let mut value = mount.host_path.clone();
    value.append(":");
    value.append(mount.guest_path.as_str());
    value.append(":");
    value.append(if mount.read_only { "ro" } else { "rw" });
    value.append(",nodev");
    value
}

/// Adds one `--mount-file` flag for each mount.
fn add_mounts(argv: &mut Vec<String>, mounts: &Vec<FileMount>)
    ensures
        text::texts(final(argv)@) == text::texts(old(argv)@) + mount_flags(mounts@),
{
    let mut i: usize = 0;
    assert(mounts@.take(0) =~= Seq::empty());
    assert(text::texts(argv@) =~= text::texts(old(argv)@) + mount_flags(mounts@.take(0)));
    while i < mounts.len()
        invariant
            i <= mounts@.len(),
            text::texts(argv@) == text::texts(old(argv)@) + mount_flags(mounts@.take(i as int)),
        decreases mounts.len() - i,
    {
        let value = mount_flag_value(&mounts[i]);
        add_flag(argv, "--mount-file", value.as_str());
        assert(mounts@.take(i + 1).drop_last() =~= mounts@.take(i as int));
        assert(text::texts(argv@) =~= text::texts(old(argv)@) + mount_flags(mounts@.take(i + 1)));
        i = i + 1;
    }
    assert(mounts@.take(i as int) =~= mounts@);
}

/// A flag with a size in mebibytes, where one is asked for.
pub open spec fn size_flag(flag: Seq<char>, prefix: Seq<char>, mb: Option<u64>) -> Seq<Seq<char>> {
    match mb {
        Some(mb) => seq![flag, prefix + mebibytes(mb)],
        None => Seq::empty(),
    }
}

/// Adds a flag with a size in mebibytes, where one is asked for.
fn add_size(argv: &mut Vec<String>, flag: &str, prefix: &str, mb: Option<u64>)
    ensures
        text::texts(final(argv)@) == text::texts(old(argv)@) + size_flag(flag@, prefix@, mb),
{
    match mb {
        Some(mb) => {
            let mut value = prefix.to_owned();
            value.append(mebibytes_text(mb).as_str());
            add_flag(argv, flag, value.as_str());
        },
        None => {
            assert(text::texts(argv@) =~= text::texts(old(argv)@) + Seq::empty());
        },
    }
}

/// The flag that cuts a guest off from the network.
pub open spec fn network_flags(disabled: bool) -> Seq<Seq<char>> {
    if disabled {
        seq!["--net"@, "private"@]
    } else {
        Seq::empty()
    }
}

/// What follows the image: nothing, or `--` and the command.
pub open spec fn command_tail(command: Option<Vec<String>>) -> Seq<Seq<char>> {
    match command {
        Some(command) => seq!["--"@] + text::texts(command@),
        None => Seq::empty(),
    }
}

/// The arguments of `msb run`.
pub open spec fn run_argv(spec: ContainerSpec) -> Seq<Seq<char>> {
    seq!["run"@, "--name"@, spec.name@] + size_flag("-m"@, ""@, spec.memory_limit_mb) + size_flag(
        "--root-disk"@,
        ""@,
        spec.disk_limit_mb,
    ) + size_flag("--root-disk"@, "tmpfs:"@, spec.tmpfs_root_mb) + network_flags(
        spec.network_disabled,
    ) + port_flags(spec.ports@) + env_flags(spec.env@) + mount_flags(spec.mounts@) + seq![
        spec.image@,
    ] + command_tail(spec.command)
}

/// Boots a sandbox from its image, attached. A checkpoint is booted by [`restore`].
pub fn run(spec: &ContainerSpec) -> (argv: Vec<String>)
    requires
        spec.checkpoint_ref is None,
    ensures
        text::texts(argv@) == run_argv(*spec),
{
    let mut argv = words3("run", "--name", spec.name.as_str());
    add_size(&mut argv, "-m", "", spec.memory_limit_mb);
    add_size(&mut argv, "--root-disk", "", spec.disk_limit_mb);
    add_size(&mut argv, "--root-disk", "tmpfs:", spec.tmpfs_root_mb);
    let ghost before = text::texts(argv@);
    if spec.network_disabled {
        add_flag(&mut argv, "--net", "private");
    }
    assert(text::texts(argv@) =~= before + network_flags(spec.network_disabled));
    add_ports(&mut argv, &spec.ports);
    add_env(&mut argv, spec.env.as_slice());
    add_mounts(&mut argv, &spec.mounts);
    let ghost before = text::texts(argv@);
    add_word(&mut argv, spec.image.as_str());
    assert(text::texts(argv@) =~= before + seq![spec.image@]);
    let ghost before = text::texts(argv@);
    match &spec.command {
        Some(command) => {
            add_word(&mut argv, "--");
            add_words(&mut argv, command.as_slice());
            assert(text::texts(argv@) =~= before + (seq!["--"@] + text::texts(command@)));
        },
        None => {
            assert(text::texts(argv@) =~= before + Seq::empty());
        },
    }
    argv
}

/// The arguments of `msb restore`.
pub open spec fn restore_argv(spec: ContainerSpec, snapshot_path: Seq<char>) -> Seq<Seq<char>> {
    seq!["restore"@, snapshot_path, "--name"@, spec.name@] + size_flag(
        "-m"@,
        ""@,
        spec.memory_limit_mb,
    ) + port_flags(spec.ports@)
}

/// Boots a detached sandbox from a snapshot.
pub fn restore(spec: &ContainerSpec, snapshot_path: &str) -> (argv: Vec<String>)
    ensures
        text::texts(argv@) == restore_argv(*spec, snapshot_path@),
{
    let mut argv = words3("restore", snapshot_path, "--name");
    add_word(&mut argv, spec.name.as_str());
    add_size(&mut argv, "-m", "", spec.memory_limit_mb);
    add_ports(&mut argv, &spec.ports);
    argv
}

/// Copies a host file into a sandbox.
pub fn copy_in(host_path: &str, sandbox_name: &str, container_path: &str) -> (argv: Vec<String>)
    ensures
        text::texts(argv@) == seq![
            "copy"@,
            "-q"@,
            host_path@,
            sandbox_name@ + ":"@ + container_path@,
        ],
{
    let mut target = sandbox_name.to_owned();
    target.append(":");
    target.append(container_path);
    let mut argv = words3("copy", "-q", host_path);
    add_word(&mut argv, target.as_str());
    argv
}

/// Copies a file of a sandbox to the host.
pub fn copy_out(sandbox_name: &str, container_path: &str, host_path: &str) -> (argv: Vec<String>)
    ensures
        text::texts(argv@) == seq![
            "copy"@,
            "-q"@,
            sandbox_name@ + ":"@ + container_path@,
            host_path@,
        ],
{
    let mut source = sandbox_name.to_owned();
    source.append(":");
    source.append(container_path);
    let mut argv = words3("copy", "-q", source.as_str());
    add_word(&mut argv, host_path);
    argv
}

/// Snapshots a stopped sandbox.
pub fn snapshot_create(sandbox_name: &str, snapshot_name: &str) -> (argv: Vec<String>)
    ensures
        text::texts(argv@) == seq![
            "snapshot"@,
            "create"@,
            "--from-sandbox"@,
            sandbox_name@,
            snapshot_name@,
        ],
{
    let mut argv = words3("snapshot", "create", "--from-sandbox");
    add_word(&mut argv, sandbox_name);
    add_word(&mut argv, snapshot_name);
    argv
}

/// The arguments that snapshot a sandbox under a directory.
pub open spec fn snapshot_create_in_argv(
    sandbox_name: Seq<char>,
    snapshot_name: Seq<char>,
    dest_dir: Seq<char>,
) -> Seq<Seq<char>> {
    seq![
        "snapshot"@,
        "create"@,
        "--from-sandbox"@,
        sandbox_name,
        snapshot_name,
        "--dest-dir"@,
        dest_dir,
    ]
}

/// Snapshots a stopped sandbox under a directory.
pub fn snapshot_create_in(sandbox_name: &str, snapshot_name: &str, dest_dir: &str) -> (argv: Vec<
    String,
>)
    ensures
        text::texts(argv@) == snapshot_create_in_argv(sandbox_name@, snapshot_name@, dest_dir@),
{
    let mut argv = snapshot_create(sandbox_name, snapshot_name);
    add_word(&mut argv, "--dest-dir");
    add_word(&mut argv, dest_dir);
    argv
}

/// Removes a snapshot.
pub fn snapshot_rm(snapshot_name: &str) -> (argv: Vec<String>)
    ensures
        text::texts(argv@) == seq!["snapshot"@, "rm"@, snapshot_name@, "-f"@],
{
    let mut argv = words3("snapshot", "rm", snapshot_name);
    add_word(&mut argv, "-f");
    argv
}

/// Asks whether a snapshot is there.
pub fn snapshot_inspect(snapshot_name: &str) -> (argv: Vec<String>)
    ensures
        text::texts(argv@) == seq!["snapshot"@, "inspect"@, snapshot_name@],
{
    words3("snapshot", "inspect", snapshot_name)
}

/// Writes a snapshot to an archive file.
pub fn snapshot_export(snapshot_ref: &str, dest: &str) -> (argv: Vec<String>)
    ensures
        text::texts(argv@) == seq!["snapshot"@, "save"@, snapshot_ref@, dest@],
{
    let mut argv = words3("snapshot", "save", snapshot_ref);
    add_word(&mut argv, dest);
    argv
}

/// Reads a snapshot from an archive file into a directory.
pub fn snapshot_import(archive_path: &str, dest_dir: &str) -> (argv: Vec<String>)
    ensures
        text::texts(argv@) == seq!["snapshot"@, "load"@, archive_path@, "--dest"@, dest_dir@],
{
    let mut argv = words3("snapshot", "load", archive_path);
    add_word(&mut argv, "--dest");
    add_word(&mut argv, dest_dir);
    argv
}

/// The arguments that run a command in a sandbox.
pub open spec fn exec_argv(name: Seq<char>, cmd: Seq<Seq<char>>) -> Seq<Seq<char>> {
    seq!["exec"@, name, "--"@] + cmd
}

/// Runs a command in a sandbox.
pub fn exec(name: &str, cmd: &[String]) -> (argv: Vec<String>)
    ensures
        text::texts(argv@) == exec_argv(name@, text::texts(cmd@)),
{
    let mut argv = words3("exec", name, "--");
    add_words(&mut argv, cmd);
    argv
}

/// The arguments that run the workload of a restored sandbox.
pub open spec fn exec_workload_argv(
    name: Seq<char>,
    env: Seq<(String, String)>,
    cmd: Seq<Seq<char>>,
) -> Seq<Seq<char>> {
    seq!["exec"@] + env_flags(env) + seq![name, "--"@] + cmd
}

/// Runs the workload of a restored sandbox, with its environment.
pub fn exec_workload(name: &str, env: &[(String, String)], cmd: &[String]) -> (argv: Vec<String>)
    ensures
        text::texts(argv@) == exec_workload_argv(name@, env@, text::texts(cmd@)),
{
    let mut argv = words1("exec");
    add_env(&mut argv, env);
    add_flag(&mut argv, name, "--");
    add_words(&mut argv, cmd);
    argv
}

/// The shell script that prints the command line of a guest's workload: the first
/// process whose parent is the init process, leaving out the init process itself,
/// kernel threads and the shell that runs the script. Each argument ends in a NUL.
pub const CAPTURE_CMDLINE_SCRIPT: &'static str = "for d in /proc/[0-9]*; do [ \"$d\" = \"/proc/$$\" ] && continue; [ -r \"$d/stat\" ] || continue; stat=$(cat \"$d/stat\") || continue; comm=$(printf '%s' \"$stat\" | sed -n 's/^[0-9]*[[:space:]]*(\\(.*\\))[[:space:]].*/\\1/p'); case \"$comm\" in init.krun|'['*']') continue ;; esac; rest=$(printf '%s' \"$stat\" | sed 's/^[0-9]*[[:space:]]*(.*)[[:space:]]*//'); set -- $rest; ppid=$2; if [ \"$ppid\" = \"1\" ]; then pid=${d#/proc/}; exec cat \"/proc/$pid/cmdline\"; fi; done";

/// The arguments that ask a guest for the command line of its workload.
pub open spec fn capture_argv(name: Seq<char>) -> Seq<Seq<char>> {
    exec_argv(name, seq!["sh"@, "-c"@, CAPTURE_CMDLINE_SCRIPT@])
}

/// Asks a guest for the command line of its workload.
pub fn capture_workload_cmdline(name: &str) -> (argv: Vec<String>)
    ensures
        text::texts(argv@) == capture_argv(name@),
{
    let script = words3("sh", "-c", CAPTURE_CMDLINE_SCRIPT);
    exec(name, script.as_slice())
}

/// The text without one line feed at its end, where there is one.
pub open spec fn without_final_newline(text: Seq<char>) -> Seq<char> {
    if text.len() > 0 && text.last() == '\n' {
        text.drop_last()
    } else {
        text
    }
}

/// The list without its last text where that text is empty.
pub open spec fn without_final_empty(pieces: Seq<Seq<char>>) -> Seq<Seq<char>> {
    if pieces.len() > 0 && pieces.last().len() == 0 {
        pieces.drop_last()
    } else {
        pieces
    }
}

/// The arguments in what the capture script printed: the pieces between the NULs, one
/// final line feed and the piece after the last NUL left out where it is empty.
pub open spec fn captured_cmdline(stdout: Seq<char>) -> Option<Seq<Seq<char>>> {
    let argv = without_final_empty(text::split_on_spec(without_final_newline(stdout), '\0'));
    if argv.len() == 0 {
        None
    } else {
        Some(argv)
    }
}

/// The contents of an optional list of texts.
pub open spec fn texts_option(list: Option<Vec<String>>) -> Option<Seq<Seq<char>>> {
    match list {
        Some(list) => Some(text::texts(list@)),
        None => None,
    }
}

/// Reads what the capture script printed; nothing where it found no process.
pub fn parse_captured_cmdline(stdout: &str) -> (cmdline: Option<Vec<String>>)
    ensures
        texts_option(cmdline) == captured_cmdline(stdout@),
{
    let chars = text::chars_of(stdout);
    let mut end: usize = chars.len();
    if end > 0 && chars[end - 1] == '\n' {
        end = end - 1;
    }
    let trimmed = text::text_of(&chars, 0, end);
    assert(trimmed@ =~= without_final_newline(stdout@));
    let mut argv = text::split_on(trimmed.as_str(), '\0');
    let last: usize = argv.len() - 1;
    let ghost pieces = text::texts(argv@);
    assert(pieces.last() == argv@[last as int]@);
    if argv[last].as_str().is_empty() {
        let _ = argv.pop();
    }
    assert(text::texts(argv@) =~= without_final_empty(pieces));
    if argv.len() == 0 {
        None
    } else {
        Some(argv)
    }
}

/// Runs a command in a sandbox, its standard streams connected through.
pub fn exec_stream(name: &str, cmd: &[String]) -> (argv: Vec<String>)
    ensures
        text::texts(argv@) == seq!["exec"@, "--stream"@, name@, "--"@] + text::texts(cmd@),
{
    let mut argv = words3("exec", "--stream", name);
    add_word(&mut argv, "--");
    add_words(&mut argv, cmd);
    argv
}

/// Prints the last lines of a workload's log.
pub fn logs(name: &str) -> (argv: Vec<String>)
    ensures
        text::texts(argv@) == seq!["logs"@, name@, "--tail"@, "1000"@],
{
    let mut argv = words3("logs", name, "--tail");
    add_word(&mut argv, "1000");
    argv
}

/// Follows a workload's log.
pub fn follow_logs(name: &str) -> (argv: Vec<String>)
    ensures
        text::texts(argv@) == seq!["logs"@, name@, "-f"@],
{
    words3("logs", name, "-f")
}

/// Prints the last lines of a sandbox's own log.
pub fn logs_system(name: &str) -> (argv: Vec<String>)
    ensures
        text::texts(argv@) == seq!["logs"@, name@, "--source"@, "system"@, "--tail"@, "1000"@],
{
    let mut argv = words3("logs", name, "--source");
    add_word(&mut argv, "system");
    add_word(&mut argv, "--tail");
    add_word(&mut argv, "1000");
    argv
}

/// Stops a sandbox.
pub fn stop(name: &str) -> (argv: Vec<String>)
    ensures
        text::texts(argv@) == seq!["stop"@, name@],
{
    let mut argv = words1("stop");
    add_word(&mut argv, name);
    argv
}

/// Removes a sandbox.
pub fn rm(name: &str) -> (argv: Vec<String>)
    ensures
        text::texts(argv@) == seq!["rm"@, name@],
{
    let mut argv = words1("rm");
    add_word(&mut argv, name);
    argv
}

/// Lists the sandboxes.
pub fn ls() -> (argv: Vec<String>)
    ensures
        text::texts(argv@) == seq!["ls"@, "--format"@, "json"@],
{
    words3("ls", "--format", "json")
}

/// Removes an image from the cache.
pub fn image_remove(reference: &str) -> (argv: Vec<String>)
    ensures
        text::texts(argv@) == seq!["image"@, "remove"@, reference@],
{
    words3("image", "remove", reference)
}

/// A restore is aimed by the name, the memory and the ports of a container alone: nothing of
/// its environment, mounts, disk, network, image or command reaches the command line.
pub proof fn law_restore_carries_nothing_else(
    a: ContainerSpec,
    b: ContainerSpec,
    snapshot_path: Seq<char>,
)
    requires
        a.name@ == b.name@,
        a.memory_limit_mb == b.memory_limit_mb,
        a.ports@ == b.ports@,
    ensures
        restore_argv(a, snapshot_path) == restore_argv(b, snapshot_path),
{
}

/// Without a command the image is the last argument of `msb run`, so that its own entry
/// point runs.
pub proof fn law_image_comes_last_without_a_command(spec: ContainerSpec)
    requires
        spec.command is None,
    ensures
        run_argv(spec).last() == spec.image@,
{
    let head = run_argv(spec);
    assert(head =~= head.drop_last().push(spec.image@));
}

/// With a command the command is what `msb run` ends in, after `--`.
pub proof fn law_command_comes_last(spec: ContainerSpec)
    requires
        spec.command is Some,
    ensures
        ({
            let argv = run_argv(spec);
            let command = text::texts(spec.command->0@);
            &&& argv.len() > command.len()
            &&& argv.skip(argv.len() - command.len()) == command
            &&& argv[argv.len() - command.len() - 1] == "--"@
        }),
{
    let argv = run_argv(spec);
    let command = text::texts(spec.command->0@);
    assert(argv.skip(argv.len() - command.len()) =~= command);
}

/// Arguments as the kernel lists them: each with a NUL after it.
pub open spec fn nul_terminated(argv: Seq<Seq<char>>) -> Seq<char>
    decreases argv.len(),
{
    if argv.len() == 0 {
        Seq::empty()
    } else {
        nul_terminated(argv.drop_last()) + argv.last().push('\0')
    }
}

/// Splitting a text that goes on without the separator makes the last piece longer.
proof fn lemma_split_goes_on(head: Seq<char>, more: Seq<char>, separator: char)
    requires
        forall|i: int| 0 <= i < more.len() ==> #[trigger] more[i] != separator,
    ensures
        text::split_on_spec(head + more, separator) == text::split_on_spec(
            head,
            separator,
        ).drop_last().push(text::split_on_spec(head, separator).last() + more),
{
    text::lemma_split_goes_on(head, more, separator);
}

/// Splitting arguments as the kernel lists them gives them back, with an empty piece after
/// the last NUL.
proof fn lemma_split_nul_terminated(argv: Seq<Seq<char>>)
    requires
        forall|i: int, j: int|
            0 <= i < argv.len() && 0 <= j < argv[i].len() ==> #[trigger] argv[i][j] != '\0',
    ensures
        text::split_on_spec(nul_terminated(argv), '\0') == argv.push(Seq::empty()),
    decreases argv.len(),
{
    if argv.len() == 0 {
        assert(text::split_on_spec(nul_terminated(argv), '\0') =~= argv.push(Seq::empty()));
    } else {
        let before = argv.drop_last();
        let last = argv.last();
        assert forall|i: int, j: int|
            0 <= i < before.len() && 0 <= j < before[i].len() implies #[trigger] before[i][j]
            != '\0' by {
            assert(argv[i][j] != '\0');
        }
        lemma_split_nul_terminated(before);
        assert forall|j: int| 0 <= j < last.len() implies #[trigger] last[j] != '\0' by {
            assert(argv[argv.len() - 1][j] != '\0');
        }
        let head = nul_terminated(before);
        lemma_split_goes_on(head, last, '\0');
        let whole = nul_terminated(argv);
        assert(whole.drop_last() =~= head + last);
        assert(whole.last() == '\0');
        let pieces = text::split_on_spec(head, '\0');
        assert(pieces.drop_last() =~= before);
        assert(Seq::<char>::empty() + last =~= last);
        assert(before.push(last) =~= argv);
    }
}

/// A command line that the kernel lists is read back argument by argument, empty ones
/// included, with or without a line feed at the end. Only a command line of no argument at
/// all reads as none.
pub proof fn law_captured_cmdline_is_read_back(argv: Seq<Seq<char>>)
    requires
        forall|i: int, j: int|
            0 <= i < argv.len() && 0 <= j < argv[i].len() ==> #[trigger] argv[i][j] != '\0',
    ensures
        captured_cmdline(nul_terminated(argv)) == (if argv.len() == 0 {
            None
        } else {
            Some(argv)
        }),
        captured_cmdline(nul_terminated(argv).push('\n')) == captured_cmdline(
            nul_terminated(argv),
        ),
{
    lemma_split_nul_terminated(argv);
    let listed = nul_terminated(argv);
    assert(without_final_newline(listed.push('\n')) =~= listed);
    assert(argv.push(Seq::empty()).drop_last() =~= argv);
    if argv.len() > 0 {
        assert(listed.last() == '\0');
    }
    assert(without_final_newline(listed) =~= listed);
}

/// How many arguments a flag with a value takes, where it is asked for.
pub open spec fn flag_words(asked: bool) -> int {
    if asked {
        2
    } else {
        0
    }
}

/// Where the ports stand among the arguments of `msb run`: behind the name, the sizes that are
/// asked for and the flag that cuts the guest off from the network.
pub open spec fn ports_at(spec: ContainerSpec) -> int {
    3 + flag_words(spec.memory_limit_mb is Some) + flag_words(spec.disk_limit_mb is Some)
        + flag_words(spec.tmpfs_root_mb is Some) + flag_words(spec.network_disabled)
}

/// Where the image stands among the arguments of `msb run`: behind two for each port, each
/// variable and each mount.
pub open spec fn image_at(spec: ContainerSpec) -> int {
    ports_at(spec) + 2 * spec.ports@.len() + 2 * spec.env@.len() + 2 * spec.mounts@.len()
}

/// The flags of ports, one after the other.
proof fn lemma_port_flags(ports: Seq<PortBinding>, i: int)
    ensures
        port_flags(ports).len() == 2 * ports.len(),
        0 <= i < ports.len() ==> port_flags(ports)[2 * i] == "-p"@ && port_flags(ports)[2 * i + 1]
            == port_flag(ports[i]),
    decreases ports.len(),
{
    if ports.len() > 0 {
        let before = ports.drop_last();
        lemma_port_flags(before, i);
        if 0 <= i < before.len() {
            assert(port_flags(ports)[2 * i] == port_flags(before)[2 * i]);
            assert(port_flags(ports)[2 * i + 1] == port_flags(before)[2 * i + 1]);
            assert(before[i] == ports[i]);
        }
    }
}

/// The flags of variables, one after the other.
proof fn lemma_env_flags(env: Seq<(String, String)>, i: int)
    ensures
        env_flags(env).len() == 2 * env.len(),
        0 <= i < env.len() ==> env_flags(env)[2 * i] == "-e"@ && env_flags(env)[2 * i + 1]
            == env[i].0@ + "="@ + env[i].1@,
    decreases env.len(),
{
    if env.len() > 0 {
        let before = env.drop_last();
        lemma_env_flags(before, i);
        if 0 <= i < before.len() {
            assert(env_flags(env)[2 * i] == env_flags(before)[2 * i]);
            assert(env_flags(env)[2 * i + 1] == env_flags(before)[2 * i + 1]);
            assert(before[i] == env[i]);
        }
    }
}

/// The flags of mounts, one after the other.
proof fn lemma_mount_flags(mounts: Seq<FileMount>, i: int)
    ensures
        mount_flags(mounts).len() == 2 * mounts.len(),
        0 <= i < mounts.len() ==> mount_flags(mounts)[2 * i] == "--mount-file"@ && mount_flags(
            mounts,
        )[2 * i + 1] == mount_flag(mounts[i]),
    decreases mounts.len(),
{
    if mounts.len() > 0 {
        let before = mounts.drop_last();
        lemma_mount_flags(before, i);
        if 0 <= i < before.len() {
            assert(mount_flags(mounts)[2 * i] == mount_flags(before)[2 * i]);
            assert(mount_flags(mounts)[2 * i + 1] == mount_flags(before)[2 * i + 1]);
            assert(before[i] == mounts[i]);
        }
    }
}

/// Where each part of `msb run` stands, and that there is nothing else: the name first, each
/// size that is asked for in mebibytes, the cut from the network, then the ports, the
/// variables and the mounts, then the image, and behind it the command.
pub proof fn law_run_says_all_that_is_asked_for(spec: ContainerSpec)
    ensures
        ({
            let argv = run_argv(spec);
            let disk = 3 + flag_words(spec.memory_limit_mb is Some);
            let tmpfs = disk + flag_words(spec.disk_limit_mb is Some);
            let net = tmpfs + flag_words(spec.tmpfs_root_mb is Some);
            &&& argv[0] == "run"@ && argv[1] == "--name"@ && argv[2] == spec.name@
            &&& spec.memory_limit_mb matches Some(mb) ==> argv[3] == "-m"@ && argv[4]
                == text::decimal(mb as nat) + "M"@
            &&& spec.disk_limit_mb matches Some(mb) ==> argv[disk] == "--root-disk"@ && argv[disk
                + 1] == text::decimal(mb as nat) + "M"@
            &&& spec.tmpfs_root_mb matches Some(mb) ==> argv[tmpfs] == "--root-disk"@ && argv[tmpfs
                + 1] == "tmpfs:"@ + text::decimal(mb as nat) + "M"@
            &&& spec.network_disabled ==> argv[net] == "--net"@ && argv[net + 1] == "private"@
            &&& argv[image_at(spec)] == spec.image@
            &&& spec.command is None ==> argv.len() == image_at(spec) + 1
            &&& spec.command matches Some(command) ==> argv[image_at(spec) + 1] == "--"@
                && argv.skip(image_at(spec) + 2) == text::texts(command@)
        }),
{
    reveal_strlit("");
    lemma_port_flags(spec.ports@, 0);
    lemma_env_flags(spec.env@, 0);
    lemma_mount_flags(spec.mounts@, 0);
    let argv = run_argv(spec);
    if let Some(mb) = spec.memory_limit_mb {
        assert(""@ + mebibytes(mb) =~= text::decimal(mb as nat) + "M"@);
    }
    if let Some(mb) = spec.disk_limit_mb {
        assert(""@ + mebibytes(mb) =~= text::decimal(mb as nat) + "M"@);
    }
    if let Some(mb) = spec.tmpfs_root_mb {
        assert("tmpfs:"@ + mebibytes(mb) =~= "tmpfs:"@ + text::decimal(mb as nat) + "M"@);
    }
    if let Some(command) = spec.command {
        assert(argv.skip(image_at(spec) + 2) =~= text::texts(command@));
    }
}

/// Every published port is passed to `msb run` before the image, in order, whatever else is
/// asked for: `-p` with the host port, a colon and the guest port, and `/udp` behind them for
/// UDP alone.
pub proof fn law_run_publishes_every_port(spec: ContainerSpec, i: int)
    requires
        0 <= i < spec.ports@.len(),
    ensures
        ({
            let at = ports_at(spec) + 2 * i;
            let port = spec.ports@[i];
            let value = text::decimal(port.host_port as nat) + ":"@ + text::decimal(
                port.guest_port as nat,
            );
            &&& at + 1 < image_at(spec) < run_argv(spec).len()
            &&& run_argv(spec)[at] == "-p"@
            &&& port.protocol == Protocol::Tcp ==> run_argv(spec)[at + 1] == value
            &&& port.protocol == Protocol::Udp ==> run_argv(spec)[at + 1] == value + "/udp"@
        }),
{
    lemma_port_flags(spec.ports@, i);
    lemma_env_flags(spec.env@, 0);
    lemma_mount_flags(spec.mounts@, 0);
}

/// Every variable is passed to `msb run` before the image, in order, with or without a
/// command: `-e` with the key, an equals sign and the value.
pub proof fn law_run_passes_every_variable(spec: ContainerSpec, i: int)
    requires
        0 <= i < spec.env@.len(),
    ensures
        ({
            let at = ports_at(spec) + 2 * spec.ports@.len() + 2 * i;
            &&& at + 1 < image_at(spec) < run_argv(spec).len()
            &&& run_argv(spec)[at] == "-e"@
            &&& run_argv(spec)[at + 1] == spec.env@[i].0@ + "="@ + spec.env@[i].1@
        }),
{
    lemma_port_flags(spec.ports@, 0);
    lemma_env_flags(spec.env@, i);
    lemma_mount_flags(spec.mounts@, 0);
}

/// Every mount is passed to `msb run` before the image, in order: `--mount-file` with the host
/// path, the guest path, `ro` or `rw`, and `nodev`.
pub proof fn law_run_mounts_every_file(spec: ContainerSpec, i: int)
    requires
        0 <= i < spec.mounts@.len(),
    ensures
        ({
            let at = ports_at(spec) + 2 * spec.ports@.len() + 2 * spec.env@.len() + 2 * i;
            let mount = spec.mounts@[i];
            let paths = mount.host_path@ + ":"@ + mount.guest_path@;
            &&& at + 1 < image_at(spec) < run_argv(spec).len()
            &&& run_argv(spec)[at] == "--mount-file"@
            &&& mount.read_only ==> run_argv(spec)[at + 1] == paths + ":ro,nodev"@
            &&& !mount.read_only ==> run_argv(spec)[at + 1] == paths + ":rw,nodev"@
        }),
{
    reveal_strlit(":");
    reveal_strlit("ro");
    reveal_strlit("rw");
    reveal_strlit(",nodev");
    reveal_strlit(":ro,nodev");
    reveal_strlit(":rw,nodev");
    lemma_port_flags(spec.ports@, 0);
    lemma_env_flags(spec.env@, 0);
    lemma_mount_flags(spec.mounts@, i);
    let mount = spec.mounts@[i];
    let paths = mount.host_path@ + ":"@ + mount.guest_path@;
    assert(mount.read_only ==> mount_flag(mount) =~= paths + ":ro,nodev"@);
    assert(!mount.read_only ==> mount_flag(mount) =~= paths + ":rw,nodev"@);
}

/// A restore says which snapshot, under which name, with how much memory and which ports, in
/// this order, and nothing else: every port is published again.
pub proof fn law_restore_says_all_that_is_asked_for(
    spec: ContainerSpec,
    snapshot_path: Seq<char>,
    i: int,
)
    ensures
        ({
            let argv = restore_argv(spec, snapshot_path);
            let ports = 4 + flag_words(spec.memory_limit_mb is Some);
            &&& argv.len() == ports + 2 * spec.ports@.len()
            &&& argv[0] == "restore"@ && argv[1] == snapshot_path
            &&& argv[2] == "--name"@ && argv[3] == spec.name@
            &&& spec.memory_limit_mb matches Some(mb) ==> argv[4] == "-m"@ && argv[5]
                == text::decimal(mb as nat) + "M"@
            &&& 0 <= i < spec.ports@.len() ==> {
                let port = spec.ports@[i];
                let value = text::decimal(port.host_port as nat) + ":"@ + text::decimal(
                    port.guest_port as nat,
                );
                &&& argv[ports + 2 * i] == "-p"@
                &&& port.protocol == Protocol::Tcp ==> argv[ports + 2 * i + 1] == value
                &&& port.protocol == Protocol::Udp ==> argv[ports + 2 * i + 1] == value + "/udp"@
            }
        }),
{
    reveal_strlit("");
    lemma_port_flags(spec.ports@, i);
    if let Some(mb) = spec.memory_limit_mb {
        assert(""@ + mebibytes(mb) =~= text::decimal(mb as nat) + "M"@);
    }
}

/// The workload of a restored sandbox gets every variable, in order, before the name, and
/// behind `--` every word of its command; there is nothing else.
pub proof fn law_workload_gets_its_environment_and_command(
    name: Seq<char>,
    env: Seq<(String, String)>,
    cmd: Seq<Seq<char>>,
    i: int,
)
    ensures
        ({
            let argv = exec_workload_argv(name, env, cmd);
            let at = 1 + 2 * env.len() as int;
            &&& argv[0] == "exec"@
            &&& 0 <= i < env.len() ==> argv[1 + 2 * i] == "-e"@ && argv[2 + 2 * i] == env[i].0@
                + "="@ + env[i].1@
            &&& argv[at] == name && argv[at + 1] == "--"@
            &&& argv.skip(at + 2) == cmd
        }),
{
    lemma_env_flags(env, i);
    let argv = exec_workload_argv(name, env, cmd);
    assert(argv.skip(3 + 2 * env.len() as int) =~= cmd);
}

/// A command in a sandbox is passed on word for word, behind `--`.
pub proof fn law_exec_passes_the_command_on(name: Seq<char>, cmd: Seq<Seq<char>>)
    ensures
        exec_argv(name, cmd).take(3) == seq!["exec"@, name, "--"@],
        exec_argv(name, cmd).skip(3) == cmd,
        capture_argv(name) == seq![
            "exec"@,
            name,
            "--"@,
            "sh"@,
            "-c"@,
            CAPTURE_CMDLINE_SCRIPT@,
        ],
{
    assert(exec_argv(name, cmd).take(3) =~= seq!["exec"@, name, "--"@]);
    assert(exec_argv(name, cmd).skip(3) =~= cmd);
    assert(capture_argv(name) =~= seq![
        "exec"@,
        name,
        "--"@,
        "sh"@,
        "-c"@,
        CAPTURE_CMDLINE_SCRIPT@,
    ]);
}

/// A snapshot is taken of the sandbox, under the name and in the directory that are given, in
/// this order.
pub proof fn law_snapshot_goes_where_it_is_asked_for(
    sandbox_name: Seq<char>,
    snapshot_name: Seq<char>,
    dest_dir: Seq<char>,
)
    ensures
        ({
            let argv = snapshot_create_in_argv(sandbox_name, snapshot_name, dest_dir);
            &&& argv.len() == 7
            &&& argv[0] == "snapshot"@ && argv[1] == "create"@
            &&& argv[2] == "--from-sandbox"@ && argv[3] == sandbox_name
            &&& argv[4] == snapshot_name
            &&& argv[5] == "--dest-dir"@ && argv[6] == dest_dir
        }),
{
}

/// What follows the last NUL of a captured command line is an argument of its own where it is
/// not empty.
pub proof fn law_unterminated_argument_is_kept(argv: Seq<Seq<char>>, last: Seq<char>)
    requires
        forall|i: int, j: int|
            0 <= i < argv.len() && 0 <= j < argv[i].len() ==> #[trigger] argv[i][j] != '\0',
        forall|j: int| 0 <= j < last.len() ==> #[trigger] last[j] != '\0',
        last.len() > 0,
        last.last() != '\n',
    ensures
        captured_cmdline(nul_terminated(argv) + last) == Some(argv.push(last)),
{
    lemma_split_nul_terminated(argv);
    let listed = nul_terminated(argv);
    text::lemma_split_goes_on(listed, last, '\0');
    assert((listed + last).last() == last.last());
    assert(argv.push(Seq::empty()).drop_last() =~= argv);
    assert(Seq::<char>::empty() + last =~= last);
}

/// The capture script goes through the processes of the guest, leaves out itself, the init
/// process and those of the kernel, and prints the command line of one whose parent is the init
/// process.
pub proof fn law_what_the_capture_script_looks_for()
    ensures
        text::contains_text(
            CAPTURE_CMDLINE_SCRIPT@,
            "for d in /proc/[0-9]*; do "@,
        ),
        text::contains_text(
            CAPTURE_CMDLINE_SCRIPT@,
            "[ \"$d\" = \"/proc/$$\" ] && continue; "@,
        ),
        text::contains_text(
            CAPTURE_CMDLINE_SCRIPT@,
            "init.krun|'['*']') continue ;;"@,
        ),
        text::contains_text(
            CAPTURE_CMDLINE_SCRIPT@,
            "set -- $rest; ppid=$2; if [ \"$ppid\" = \"1\" ]; then "@,
        ),
        text::contains_text(
            CAPTURE_CMDLINE_SCRIPT@,
            "exec cat \"/proc/$pid/cmdline\"; "@,
        ),
{
    reveal_strlit("for d in /proc/[0-9]*; do [ \"$d\" = \"/proc/$$\" ] && continue; [ -r \"$d/stat\" ] || continue; stat=$(cat \"$d/stat\") || continue; comm=$(printf '%s' \"$stat\" | sed -n 's/^[0-9]*[[:space:]]*(\\(.*\\))[[:space:]].*/\\1/p'); case \"$comm\" in init.krun|'['*']') continue ;; esac; rest=$(printf '%s' \"$stat\" | sed 's/^[0-9]*[[:space:]]*(.*)[[:space:]]*//'); set -- $rest; ppid=$2; if [ \"$ppid\" = \"1\" ]; then pid=${d#/proc/}; exec cat \"/proc/$pid/cmdline\"; fi; done");
    reveal_strlit("for d in /proc/[0-9]*; do ");
    assert(CAPTURE_CMDLINE_SCRIPT@.subrange(0, 26) =~= "for d in /proc/[0-9]*; do "@);
    assert(text::occurs_at(CAPTURE_CMDLINE_SCRIPT@, "for d in /proc/[0-9]*; do "@, 0));
    reveal_strlit("[ \"$d\" = \"/proc/$$\" ] && continue; ");
    assert(CAPTURE_CMDLINE_SCRIPT@.subrange(26, 61) =~= "[ \"$d\" = \"/proc/$$\" ] && continue; "@);
    assert(text::occurs_at(CAPTURE_CMDLINE_SCRIPT@, "[ \"$d\" = \"/proc/$$\" ] && continue; "@, 26));
    reveal_strlit("init.krun|'['*']') continue ;;");
    assert(CAPTURE_CMDLINE_SCRIPT@.subrange(230, 260) =~= "init.krun|'['*']') continue ;;"@);
    assert(text::occurs_at(CAPTURE_CMDLINE_SCRIPT@, "init.krun|'['*']') continue ;;"@, 230));
    reveal_strlit("set -- $rest; ppid=$2; if [ \"$ppid\" = \"1\" ]; then ");
    assert(CAPTURE_CMDLINE_SCRIPT@.subrange(344, 394) =~= "set -- $rest; ppid=$2; if [ \"$ppid\" = \"1\" ]; then "@);
    assert(text::occurs_at(CAPTURE_CMDLINE_SCRIPT@, "set -- $rest; ppid=$2; if [ \"$ppid\" = \"1\" ]; then "@, 344));
    reveal_strlit("exec cat \"/proc/$pid/cmdline\"; ");
    assert(CAPTURE_CMDLINE_SCRIPT@.subrange(411, 442) =~= "exec cat \"/proc/$pid/cmdline\"; "@);
    assert(text::occurs_at(CAPTURE_CMDLINE_SCRIPT@, "exec cat \"/proc/$pid/cmdline\"; "@, 411));
}

} // verus!
