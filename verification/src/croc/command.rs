//! The `croc` command line that the builders put together: program, arguments,
//! environment and standard streams, ready to be spawned.
use vstd::prelude::*;

verus! {

/// What a standard stream of the child is connected to.
#[derive(Debug, Clone, Copy, PartialEq, Eq, Structural)]
pub enum StdioMode {
    /// Inherited from the parent process.
    Inherit,
    /// Connected to the null device.
    Null,
    /// Piped back to the parent process.
    Piped,
}

/// The operating system `croc` runs on, where that changes the command line.
#[derive(Debug, Clone, Copy, PartialEq, Eq, Structural)]
pub enum Platform {
    /// Windows, where the receive code goes on the command line.
    Windows,
    /// Any other system, where it goes in the environment.
    Other,
}

/// A resolved `croc` invocation.
#[derive(Debug, Clone)]
pub struct CrocCommand {
    /// The executable to run.
    pub program: String,
    /// The arguments, in order.
    pub args: Vec<String>,
    /// Environment variables to set, in order.
    pub envs: Vec<(String, String)>,
    /// What the child's standard input is connected to.
    pub stdin: StdioMode,
    /// What the child's standard output is connected to.
    pub stdout: StdioMode,
    /// What the child's standard error is connected to.
    pub stderr: StdioMode,
    /// Whether no console window should be created (it matters on Windows only).
    pub hide_window: bool,
}

/// A command as the contracts see it.
pub struct CommandView {
    pub program: Seq<char>,
    pub args: Seq<Seq<char>>,
    pub envs: Seq<(Seq<char>, Seq<char>)>,
    pub stdin: StdioMode,
    pub stdout: StdioMode,
    pub stderr: StdioMode,
    pub hide_window: bool,
}

/// `seq![a]` when `on`, nothing otherwise.
pub open spec fn flag(on: bool, a: Seq<char>) -> Seq<Seq<char>> {
    if on {
        seq![a]
    } else {
        seq![]
    }
}

/// The texts of a sequence of strings.
pub open spec fn string_views(v: Seq<String>) -> Seq<Seq<char>> {
    v.map_values(|s: String| s@)
}

/// The texts of a sequence of pairs of strings.
pub open spec fn pair_views(v: Seq<(String, String)>) -> Seq<(Seq<char>, Seq<char>)> {
    v.map_values(|e: (String, String)| (e.0@, e.1@))
}

impl View for CrocCommand {
    type V = CommandView;

    open spec fn view(&self) -> CommandView {
        CommandView {
            program: self.program@,
            args: string_views(self.args@),
            envs: pair_views(self.envs@),
            stdin: self.stdin,
            stdout: self.stdout,
            stderr: self.stderr,
            hide_window: self.hide_window,
        }
    }
}

impl CrocCommand {
    /// A command that runs `program` with no arguments, no extra environment
    /// and inherited standard streams.
    pub fn new(program: String) -> (c: Self)
        ensures
            c@ == (CommandView {
                program: program@,
                args: seq![],
                envs: seq![],
                stdin: StdioMode::Inherit,
                stdout: StdioMode::Inherit,
                stderr: StdioMode::Inherit,
                hide_window: false,
            }),
    {
        let c = CrocCommand {
            program,
            args: Vec::new(),
            envs: Vec::new(),
            stdin: StdioMode::Inherit,
            stdout: StdioMode::Inherit,
            stderr: StdioMode::Inherit,
            hide_window: false,
        };
        assert(c@.args =~= seq![]);
        assert(c@.envs =~= seq![]);
        c
    }

    /// Adds an argument at the end.
    pub fn arg(&mut self, a: String)
        ensures
            final(self)@ == (CommandView { args: old(self)@.args.push(a@), ..old(self)@ }),
    {
        self.args.push(a);
        assert(self@.args =~= old(self)@.args.push(a@));
    }

    /// Adds the argument `a` at the end when `on`.
    pub fn arg_if(&mut self, on: bool, a: &str)
        ensures
            final(self)@ == (CommandView { args: old(self)@.args + flag(on, a@), ..old(self)@ }),
    {
        if on {
            self.arg(String::from_str(a));
        }
        assert(self@.args =~= old(self)@.args + flag(on, a@));
    }

    /// Adds an environment variable at the end.
    pub fn env(&mut self, key: String, value: String)
        ensures
            final(self)@ == (CommandView {
                envs: old(self)@.envs.push((key@, value@)),
                ..old(self)@
            }),
    {
        self.envs.push((key, value));
        assert(self@.envs =~= old(self)@.envs.push((key@, value@)));
    }
}

} // verus!
