//! A terminal command shell: an input line, an output pane, a few built-in
//! commands that report on the machine, and external programs for the rest.

use crate::input::{edit_line, edited, is_quit_key, Key};
use crate::system_info::{cpus, refresh_cpu, refresh_memory, total_memory, used_memory};
use crate::text::{decimal, decode_lossy, push_decimal, split_whitespace, utf8_lossy, views, words};
use sysinfo::System;
use vstd::prelude::*;

verus! {

/// The shell's state: the command being typed and the text of the output pane.
pub struct App {
    pub input: String,
    pub output: String,
}

/// What the first word of a command line asks for.
pub enum CommandKind {
    /// `cpu`: report the number of processors.
    Cpu,
    /// `mem`: report total and used memory.
    Mem,
    /// `clear`: empty the output pane.
    Clear,
    /// `cd`: refused, since a child process cannot change the shell's directory.
    Cd,
    /// An empty line: nothing happens.
    Nothing,
    /// Anything else names an external program.
    Run,
}

/// A program to run, with its arguments.
pub struct ExternalCommand {
    pub program: String,
    pub args: Vec<String>,
}

/// The command word of a line made of `ws`: its first word, or nothing.
pub open spec fn command_of(ws: Seq<Seq<char>>) -> Seq<char> {
    if ws.len() == 0 {
        Seq::empty()
    } else {
        ws[0]
    }
}

/// The kind of a command word.
pub open spec fn classify(cmd: Seq<char>) -> CommandKind {
    if cmd == "cpu"@ {
        CommandKind::Cpu
    } else if cmd == "mem"@ {
        CommandKind::Mem
    } else if cmd == "clear"@ {
        CommandKind::Clear
    } else if cmd == "cd"@ {
        CommandKind::Cd
    } else if cmd.len() == 0 {
        CommandKind::Nothing
    } else {
        CommandKind::Run
    }
}

/// The report of the `cpu` command for `n` processors.
pub open spec fn cpu_report(n: nat) -> Seq<char> {
    "CPU Cores: "@ + decimal(n)
}

/// The report of the `mem` command.
pub open spec fn memory_report(total: nat, used: nat) -> Seq<char> {
    "Total Memory: "@ + decimal(total) + " KB\nUsed Memory: "@ + decimal(used) + " KB"@
}

/// The answer to `cd`.
pub open spec fn cd_refusal() -> Seq<char> {
    "Error: 'cd' is a shell builtin and cannot be executed."@
}

/// The output pane after a program ran: its standard output, a line feed and
/// its standard error, each decoded leniently from UTF-8.
pub open spec fn program_output(stdout: Seq<u8>, stderr: Seq<u8>) -> Seq<char> {
    utf8_lossy(stdout) + "\n"@ + utf8_lossy(stderr)
}

/// Whatever the program wrote, empty streams included, the pane shows its
/// standard output, then one line feed, then its standard error, each decoded
/// leniently.
pub proof fn lemma_program_output_shape(stdout: Seq<u8>, stderr: Seq<u8>)
    ensures
        ({
            let o = utf8_lossy(stdout);
            let e = utf8_lossy(stderr);
            let shown = program_output(stdout, stderr);
            &&& shown.len() == o.len() + 1 + e.len()
            &&& shown.take(o.len() as int) == o
            &&& shown[o.len() as int] == '\n'
            &&& shown.skip(o.len() as int + 1) == e
        }),
{
    reveal_strlit("\n");
    let o = utf8_lossy(stdout);
    let e = utf8_lossy(stderr);
    let shown = program_output(stdout, stderr);
    assert(shown.take(o.len() as int) =~= o);
    assert(shown.skip(o.len() as int + 1) =~= e);
}

/// The output pane after a program could not be started.
pub open spec fn launch_failure(program: Seq<char>, error: Seq<char>) -> Seq<char> {
    "Failed to execute command '"@ + program + "': "@ + error
}

/// The `cpu` report for `n` processors.
pub fn cpu_report_text(n: usize) -> (s: String)
    ensures
        s@ == cpu_report(n as nat),
{
    let mut s = String::from_str("CPU Cores: ");
    push_decimal(&mut s, n as u64);
    s
}

/// The `mem` report.
pub fn memory_report_text(total: u64, used: u64) -> (s: String)
    ensures
        s@ == memory_report(total as nat, used as nat),
{
    let mut s = String::from_str("Total Memory: ");
    push_decimal(&mut s, total);
    s.append(" KB\nUsed Memory: ");
    push_decimal(&mut s, used);
    s.append(" KB");
    s
}

/// The kind of the command word `cmd`.
pub fn classify_command(cmd: &String) -> (k: CommandKind)
    ensures
        k == classify(cmd@),
{
    if *cmd == String::from_str("cpu") {
        CommandKind::Cpu
    } else if *cmd == String::from_str("mem") {
        CommandKind::Mem
    } else if *cmd == String::from_str("clear") {
        CommandKind::Clear
    } else if *cmd == String::from_str("cd") {
        CommandKind::Cd
    } else if cmd.as_str().is_empty() {
        CommandKind::Nothing
    } else {
        CommandKind::Run
    }
}

impl App {
    /// A shell with nothing typed and nothing shown.
    pub fn new() -> (app: App)
        ensures
            app.input@ == Seq::<char>::empty(),
            app.output@ == Seq::<char>::empty(),
    {
        App { input: String::new(), output: String::new() }
    }

    /// Shows what a finished program wrote.
    pub fn record_program_output(&mut self, stdout: &[u8], stderr: &[u8])
        ensures
            final(self).output@ == program_output(stdout@, stderr@),
            final(self).output@.len() == utf8_lossy(stdout@).len() + 1 + utf8_lossy(stderr@).len(),
            final(self).output@.take(utf8_lossy(stdout@).len() as int) == utf8_lossy(stdout@),
            final(self).output@[utf8_lossy(stdout@).len() as int] == '\n',
            final(self).output@.skip(utf8_lossy(stdout@).len() as int + 1) == utf8_lossy(stderr@),
            final(self).input@ == old(self).input@,
    {
        proof {
            lemma_program_output_shape(stdout@, stderr@);
        }
        let mut s = decode_lossy(stdout);
        s.append("\n");
        let e = decode_lossy(stderr);
        s.append(e.as_str());
        self.output = s;
    }

    /// Shows that `program` could not be started, with the system's reason.
    pub fn record_launch_failure(&mut self, program: &str, error: &str)
        ensures
            final(self).output@ == launch_failure(program@, error@),
            final(self).input@ == old(self).input@,
    {
        let mut s = String::from_str("Failed to execute command '");
        s.append(program);
        s.append("': ");
        s.append(error);
        self.output = s;
    }
}

/// The effect of one key press on the shell, with the program it hands back.
/// Characters and backspace edit the input line. Enter takes the whole line:
/// `cpu` and `mem` report on the machine, `clear` empties the output pane,
/// `cd` is refused, an empty line does nothing, and any other command word is
/// handed back, with the remaining words as arguments, for the caller to run.
pub open spec fn key_handled(pre: App, post: App, key: Key, run: Option<ExternalCommand>) -> bool {
    &&& key != Key::Enter ==> {
        &&& post.input@ == edited(pre.input@, key)
        &&& post.output@ == pre.output@
        &&& run is None
    }
    &&& key == Key::Enter ==> {
        let ws = words(pre.input@);
        let cmd = command_of(ws);
        &&& post.input@ == Seq::<char>::empty()
        &&& classify(cmd) is Cpu ==> exists|n: usize| post.output@ == cpu_report(n as nat)
        &&& classify(cmd) is Mem ==> exists|t: u64, u: u64|
            post.output@ == memory_report(t as nat, u as nat)
        &&& classify(cmd) is Clear ==> post.output@ == Seq::<char>::empty()
        &&& classify(cmd) is Cd ==> post.output@ == cd_refusal()
        &&& (classify(cmd) is Nothing || classify(cmd) is Run) ==> post.output@ == pre.output@
        &&& classify(cmd) is Run <==> run is Some
        &&& run matches Some(c) ==> c.program@ == cmd && views(c.args@) == ws.skip(1)
    }
}

/// Handles one key press as `key_handled` describes, refreshing and reading
/// the machine through `sys` for `cpu` and `mem`, and leaving `sys` untouched
/// otherwise.
pub fn handle_key_event(key: Key, app: &mut App, sys: &mut System) -> (run: Option<
    ExternalCommand,
>)
    ensures
        key_handled(*old(app), *final(app), key, run),
        !(key == Key::Enter && (classify(command_of(words(old(app).input@))) is Cpu || classify(
            command_of(words(old(app).input@)),
        ) is Mem)) ==> *final(sys) == *old(sys),
{
    match key {
        Key::Enter => {},
        _ => {
            edit_line(&mut app.input, key);
            return None;
        },
    }
    let mut line = String::new();
    std::mem::swap(&mut line, &mut app.input);
    let mut ws = split_whitespace(line.as_str());
    let ghost all = views(ws@);
    let cmd = if ws.len() == 0 {
        String::new()
    } else {
        ws.remove(0)
    };
    assert(cmd@ == command_of(all));
    assert(all.len() > 0 ==> views(ws@) =~= all.skip(1));
    match classify_command(&cmd) {
        CommandKind::Cpu => {
            refresh_cpu(sys);
            let n = cpus(sys).len();
            app.output = cpu_report_text(n);
            None
        },
        CommandKind::Mem => {
            refresh_memory(sys);
            let t = total_memory(sys);
            let u = used_memory(sys);
            app.output = memory_report_text(t, u);
            None
        },
        CommandKind::Clear => {
            app.output = String::new();
            None
        },
        CommandKind::Cd => {
            app.output = String::from_str("Error: 'cd' is a shell builtin and cannot be executed.");
            None
        },
        CommandKind::Nothing => None,
        CommandKind::Run => Some(ExternalCommand { program: cmd, args: ws }),
    }
}

/// What the shell's event loop does after a key press.
pub enum ShellStep {
    /// Leave the shell.
    Quit,
    /// Draw and wait for the next key.
    Continue,
    /// Run this program and show what it writes.
    Run(ExternalCommand),
}

/// The program a step runs, if any.
pub open spec fn step_program(step: ShellStep) -> Option<ExternalCommand> {
    match step {
        ShellStep::Run(c) => Some(c),
        _ => None,
    }
}

/// One turn of the shell's event loop: `q` quits and leaves the shell and
/// `sys` as they are; any other key is handled by `handle_key_event`.
pub fn shell_step(key: Key, app: &mut App, sys: &mut System) -> (step: ShellStep)
    ensures
        key == Key::Char('q') ==> step is Quit && *final(app) == *old(app),
        key != Key::Char('q') ==> !(step is Quit) && key_handled(
            *old(app),
            *final(app),
            key,
            step_program(step),
        ),
        key == Key::Char('q') ==> *final(sys) == *old(sys),
        key != Key::Char('q') && !(key == Key::Enter && (classify(
            command_of(words(old(app).input@)),
        ) is Cpu || classify(command_of(words(old(app).input@))) is Mem)) ==> *final(sys) == *old(
            sys,
        ),
{
    if is_quit_key(key) {
        return ShellStep::Quit;
    }
    match handle_key_event(key, app, sys) {
        Some(c) => ShellStep::Run(c),
        None => ShellStep::Continue,
    }
}

} // verus!

