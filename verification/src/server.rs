//! Configuration of a hosted server process and the plans to start and stop it.
//!
//! A [`Server`] is built up step by step (root, parent and child directories,
//! output file, arguments); [`Server::start`] turns it into a [`LaunchPlan`]
//! that says which program to run, with which arguments and where its
//! output goes. Spawning the process is the caller's work.
use vstd::prelude::*;
use crate::paths::{join_path, spec_is_absolute, spec_join};
use crate::text::{copy_strings, labelled, opt_text, texts};

verus! {

/// What to run to start a server process.
#[derive(Debug, Clone, PartialEq, Eq)]
pub struct LaunchPlan {
    /// Path of the program.
    pub program: String,
    /// Its arguments, in order.
    pub args: Vec<String>,
    /// Path of the file its standard output is written to.
    pub stdout: String,
    /// Whether its standard input is a pipe that commands can be written to.
    pub stdin_piped: bool,
}

/// How to stop a running server process.
#[derive(Debug, Clone, PartialEq, Eq)]
pub struct StopPlan {
    /// The text to write to the process's standard input.
    pub command: String,
    /// What to report when that write fails.
    pub on_failure: String,
}

/// The arguments after `arg` is called with each of `v` in turn, starting
/// from `start`.
pub open spec fn push_each(start: Seq<Seq<char>>, v: Seq<Seq<char>>) -> Seq<Seq<char>>
    decreases v.len(),
{
    if v.len() == 0 {
        start
    } else {
        push_each(start, v.drop_last()).push(v.last())
    }
}

/// Adding a list of arguments at once with `args` gives what adding each of
/// them in turn with `arg` gives: the list appended in order.
pub proof fn lemma_args_as_pushes(start: Seq<Seq<char>>, v: Seq<Seq<char>>)
    ensures
        push_each(start, v) == start + v,
    decreases v.len(),
{
    if v.len() == 0 {
        assert(start + v =~= start);
    } else {
        lemma_args_as_pushes(start, v.drop_last());
        assert(start + v =~= (start + v.drop_last()).push(v.last()));
    }
}

/// Where a frame host logs and what it logs first.
#[derive(Debug, Clone, PartialEq, Eq)]
pub struct LogSetup {
    /// The name of its file sink, opened in the working directory.
    pub sink: String,
    /// The first message.
    pub greeting: String,
}

/// A server process hosted under a root directory: the program is `child`
/// in `parent` in `root`.
#[derive(Debug, Clone, PartialEq, Eq)]
pub struct Server {
    pub root: String,
    pub parent: Option<String>,
    pub child: Option<String>,
    pub output: Option<String>,
    pub args: Vec<String>,
    pub cwd: Option<String>,
    /// Whether the process was started.
    pub started: bool,
}

impl Server {
    /// Creates a new `Server` with a root directory, which must be absolute,
    /// and nothing else set.
    pub fn new(root: String) -> (r: Server)
        requires
            spec_is_absolute(root@),
        ensures
            r.root@ == root@,
            r.parent is None,
            r.child is None,
            r.output is None,
            r.args@.len() == 0,
            r.cwd is None,
            !r.started,
    {
        Server {
            root,
            parent: None,
            child: None,
            output: None,
            args: Vec::new(),
            cwd: None,
            started: false,
        }
    }

    /// The lines that describe the server: its root, parent and child.
    pub fn show_details(&self) -> (lines: Vec<String>)
        requires
            self.parent is Some,
            self.child is Some,
        ensures
            texts(lines@) == seq![
                "Root: "@ + self.root@,
                "Parent: "@ + self.parent->0@,
                "child: "@ + self.child->0@,
            ],
    {
        let mut lines: Vec<String> = Vec::new();
        lines.push(labelled("Root: ", &self.root));
        lines.push(labelled("Parent: ", self.parent.as_ref().unwrap()));
        lines.push(labelled("child: ", self.child.as_ref().unwrap()));
        proof {
            assert(texts(lines@) =~= seq![
                "Root: "@ + self.root@,
                "Parent: "@ + self.parent->0@,
                "child: "@ + self.child->0@,
            ]);
        }
        lines
    }

    /// The logging a new server sets up: the file sink
    /// `log-frame-host.txt` and the message `Initializing frame-host!`.
    pub fn log_setup() -> (r: LogSetup)
        ensures
            r.sink@ == "log-frame-host.txt"@,
            r.greeting@ == "Initializing frame-host!"@,
    {
        LogSetup {
            sink: String::from_str("log-frame-host.txt"),
            greeting: String::from_str("Initializing frame-host!"),
        }
    }

    /// Appends one argument.
    pub fn arg(&mut self, arg: String) -> (r: &mut Self)
        ensures
            *final(self) == *final(r),
            texts(r.args@) == texts(old(self).args@).push(arg@),
            r.root == old(self).root,
            r.parent == old(self).parent,
            r.child == old(self).child,
            r.output == old(self).output,
            r.cwd == old(self).cwd,
            r.started == old(self).started,
    {
        let ghost a = arg@;
        self.args.push(arg);
        proof {
            assert(texts(self.args@) =~= texts(old(self).args@).push(a));
        }
        self
    }

    /// Appends the given arguments, in order.
    pub fn args(&mut self, args: &[String]) -> (r: &mut Self)
        ensures
            *final(self) == *final(r),
            texts(r.args@) == texts(old(self).args@) + args@.map_values(|s: String| s@),
            texts(r.args@) == push_each(texts(old(self).args@), args@.map_values(|s: String| s@)),
            r.root == old(self).root,
            r.parent == old(self).parent,
            r.child == old(self).child,
            r.output == old(self).output,
            r.cwd == old(self).cwd,
            r.started == old(self).started,
    {
        let ghost given = args@.map_values(|s: String| s@);
        let mut i: usize = 0;
        while i < args.len()
            invariant
                0 <= i <= args@.len(),
                given == args@.map_values(|s: String| s@),
                texts(self.args@) == texts(old(self).args@) + given.take(i as int),
                self.root == old(self).root,
                self.parent == old(self).parent,
                self.child == old(self).child,
                self.output == old(self).output,
                self.cwd == old(self).cwd,
                self.started == old(self).started,
            decreases args@.len() - i,
        {
            let c = args[i].clone();
            let ghost prev = self.args@;
            self.args.push(c);
            proof {
                assert(texts(self.args@) =~= texts(prev).push(given[i as int]));
                assert(given.take(i + 1) =~= given.take(i as int).push(given[i as int]));
            }
            i = i + 1;
        }
        proof {
            assert(given.take(args@.len() as int) =~= given);
            lemma_args_as_pushes(texts(old(self).args@), given);
        }
        self
    }

    /// Sets the parent directory, relative to the root.
    pub fn parent(&mut self, parent: String) -> (r: &mut Self)
        ensures
            *final(self) == *final(r),
            opt_text(r.parent) == Some(parent@),
            r.root == old(self).root,
            r.child == old(self).child,
            r.output == old(self).output,
            r.args == old(self).args,
            r.cwd == old(self).cwd,
            r.started == old(self).started,
    {
        self.parent = Some(parent);
        self
    }

    /// Sets the program, relative to the parent directory.
    pub fn child(&mut self, child: String) -> (r: &mut Self)
        ensures
            *final(self) == *final(r),
            opt_text(r.child) == Some(child@),
            r.root == old(self).root,
            r.parent == old(self).parent,
            r.output == old(self).output,
            r.args == old(self).args,
            r.cwd == old(self).cwd,
            r.started == old(self).started,
    {
        self.child = Some(child);
        self
    }

    /// Sets the file the program's output is written to.
    pub fn output(&mut self, output: String) -> (r: &mut Self)
        ensures
            *final(self) == *final(r),
            opt_text(r.output) == Some(output@),
            r.root == old(self).root,
            r.parent == old(self).parent,
            r.child == old(self).child,
            r.args == old(self).args,
            r.cwd == old(self).cwd,
            r.started == old(self).started,
    {
        self.output = Some(output);
        self
    }

    /// Sets the working directory.
    pub fn cwd(&mut self, dir: String) -> (r: &mut Self)
        ensures
            *final(self) == *final(r),
            opt_text(r.cwd) == Some(dir@),
            r.root == old(self).root,
            r.parent == old(self).parent,
            r.child == old(self).child,
            r.output == old(self).output,
            r.args == old(self).args,
            r.started == old(self).started,
    {
        self.cwd = Some(dir);
        self
    }

    /// Marks the server started and says how: run `child` in `parent` in
    /// `root` with the arguments given so far, its input piped and its
    /// output written to the output file.
    pub fn start(&mut self) -> (plan: LaunchPlan)
        requires
            old(self).parent is Some,
            old(self).child is Some,
            old(self).output is Some,
        ensures
            plan.program@ == spec_join(
                spec_join(old(self).root@, old(self).parent->0@),
                old(self).child->0@,
            ),
            texts(plan.args@) == texts(old(self).args@),
            plan.stdout@ == old(self).output->0@,
            plan.stdin_piped,
            final(self).started,
            final(self).root == old(self).root,
            final(self).parent == old(self).parent,
            final(self).child == old(self).child,
            final(self).output == old(self).output,
            final(self).args == old(self).args,
            final(self).cwd == old(self).cwd,
    {
        let dir = join_path(self.root.as_str(), self.parent.as_ref().unwrap().as_str());
        let program = join_path(dir.as_str(), self.child.as_ref().unwrap().as_str());
        let stdout = self.output.as_ref().unwrap().clone();
        let args = copy_strings(&self.args);
        self.started = true;
        LaunchPlan { program, args, stdout, stdin_piped: true }
    }

    /// How to stop the started server: write `/quit` to its input, and
    /// report that the server is not running when that fails.
    pub fn stop(&mut self) -> (plan: StopPlan)
        requires
            old(self).started,
        ensures
            plan.command@ == "/quit"@,
            plan.on_failure@ == "Server is not running."@,
            *final(self) == *old(self),
    {
        StopPlan {
            command: String::from_str("/quit"),
            on_failure: String::from_str("Server is not running."),
        }
    }
}

/// A Factorio server installation and the save it runs.
#[derive(Debug, Clone, PartialEq, Eq)]
pub struct FactorioServer {
    pub parent_dir: String,
    pub game_dir: String,
    pub saves_dir: String,
    pub save: String,
    pub game_version: String,
}

impl FactorioServer {
    /// The line that describes the server.
    pub fn show_details(&self) -> (line: String)
        ensures
            line@ == "Factorio version: "@ + self.game_version@,
    {
        labelled("Factorio version: ", &self.game_version)
    }

    /// How to start the server on its save: run the game with
    /// `--start-server` and the save's path in the saves directory, its
    /// output written to `stdout`.
    pub fn start(&self, stdout: String) -> (plan: LaunchPlan)
        ensures
            plan.program@ == self.game_dir@,
            texts(plan.args@) == seq!["--start-server"@, spec_join(self.saves_dir@, self.save@)],
            plan.stdout@ == stdout@,
            !plan.stdin_piped,
    {
        let mut args: Vec<String> = Vec::new();
        args.push(String::from_str("--start-server"));
        args.push(join_path(self.saves_dir.as_str(), self.save.as_str()));
        proof {
            assert(texts(args@) =~= seq!["--start-server"@, spec_join(self.saves_dir@, self.save@)]);
        }
        LaunchPlan { program: self.game_dir.clone(), args, stdout, stdin_piped: false }
    }
}

} // verus!
