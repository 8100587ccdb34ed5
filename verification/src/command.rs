//! How Playwright is called, and what is to be done with its output.

use vstd::prelude::*;
use crate::chars;
use crate::text;

verus! {

/// What is to be done with the output of a call.
#[derive(Debug, Clone, Copy, PartialEq, Eq, Structural)]
pub enum OutputMode {
    /// The user chose a reporter for the tests: the output is left alone.
    UserReporter,
    /// The report of the tests was asked for as JSON.
    Test,
    /// Browsers are installed.
    Install,
    /// Any other subcommand: the output is left alone.
    Passthrough,
}

/// A program and its arguments.
#[derive(Debug)]
pub struct CommandLine {
    pub program: String,
    pub args: Vec<String>,
}

/// What the strings of `args` spell.
pub open spec fn arg_views(args: Seq<String>) -> Seq<Seq<char>> {
    args.map_values(|a: String| a@)
}

/// An argument that chooses a reporter.
pub open spec fn is_reporter_flag(arg: Seq<char>) -> bool {
    arg == "--reporter"@ || text::has_prefix(arg, "--reporter="@)
}

/// Some argument chooses a reporter.
pub open spec fn chooses_reporter(args: Seq<Seq<char>>) -> bool {
    exists|i: int| 0 <= i < args.len() && is_reporter_flag(#[trigger] args[i])
}

/// The subcommand is `test`.
pub open spec fn is_test(args: Seq<Seq<char>>) -> bool {
    args.len() > 0 && args[0] == "test"@
}

/// The subcommand installs browsers or what they depend on.
pub open spec fn is_install(args: Seq<Seq<char>>) -> bool {
    args.len() > 0 && (args[0] == "install"@ || args[0] == "install-deps"@)
}

/// What is to be done with the output of a call with `args`.
pub open spec fn mode_of(args: Seq<Seq<char>>) -> OutputMode {
    if is_test(args) && chooses_reporter(args) {
        OutputMode::UserReporter
    } else if is_install(args) {
        OutputMode::Install
    } else if is_test(args) {
        OutputMode::Test
    } else {
        OutputMode::Passthrough
    }
}

/// The program that runs Playwright for a package manager.
pub open spec fn runner(package_manager: Seq<char>) -> Seq<char> {
    if package_manager == "pnpm"@ || package_manager == "yarn"@ {
        package_manager
    } else {
        "npx"@
    }
}

/// What has to stand in front of the arguments for Playwright.
pub open spec fn runner_args(package_manager: Seq<char>) -> Seq<Seq<char>> {
    if package_manager == "pnpm"@ || package_manager == "yarn"@ {
        seq!["exec"@, "--"@, "playwright"@]
    } else {
        seq!["--no-install"@, "--"@, "playwright"@]
    }
}

/// The arguments that Playwright gets: those of the user, with JSON as the
/// reporter of tests where they choose none.
pub open spec fn playwright_args(args: Seq<Seq<char>>) -> Seq<Seq<char>> {
    if mode_of(args) == OutputMode::Test {
        seq!["test"@, "--reporter=json"@] + args.skip(1)
    } else {
        args
    }
}

/// Whether the user chose a reporter. If so, it is not replaced, and what it
/// writes is not filtered.
pub fn user_set_reporter(args: &[String]) -> (r: bool)
    ensures
        r == chooses_reporter(arg_views(args@)),
{
    let ghost all = arg_views(args@);
    let mut i: usize = 0;
    while i < args.len()
        invariant
            i <= args.len(),
            all == arg_views(args@),
            forall|k: int| 0 <= k < i ==> !is_reporter_flag(#[trigger] all[k]),
        decreases args.len() - i,
    {
        let arg = args[i].as_str();
        assert(all[i as int] == arg@);
        if chars::same(arg, "--reporter") || chars::starts_with(
            chars::to_chars(arg).as_slice(),
            "--reporter=",
        ) {
            return true;
        }
        i += 1;
    }
    false
}

/// Whether the first argument is `word`.
fn first_is(args: &[String], word: &str) -> (r: bool)
    ensures
        r == (arg_views(args@).len() > 0 && arg_views(args@)[0] == word@),
{
    args.len() > 0 && chars::same(args[0].as_str(), word)
}

/// Whether the call installs browsers or what they depend on.
pub fn is_install_subcommand(args: &[String]) -> (r: bool)
    ensures
        r == is_install(arg_views(args@)),
{
    first_is(args, "install") || first_is(args, "install-deps")
}

/// What is to be done with the output of a call with `args`.
pub fn output_mode(args: &[String]) -> (r: OutputMode)
    ensures
        r == mode_of(arg_views(args@)),
{
    let is_test = first_is(args, "test");
    if is_test && user_set_reporter(args) {
        OutputMode::UserReporter
    } else if is_install_subcommand(args) {
        OutputMode::Install
    } else if is_test {
        OutputMode::Test
    } else {
        OutputMode::Passthrough
    }
}

/// The command that calls Playwright through a package manager.
pub fn command_line(package_manager: &str, args: &[String]) -> (r: CommandLine)
    ensures
        r.program@ == runner(package_manager@),
        arg_views(r.args@) == runner_args(package_manager@) + playwright_args(arg_views(args@)),
{
    let ghost given = arg_views(args@);
    let through_exec = chars::same(package_manager, "pnpm") || chars::same(package_manager, "yarn");
    let program = if through_exec {
        package_manager.to_owned()
    } else {
        "npx".to_owned()
    };
    let mut line: Vec<String> = Vec::new();
    if through_exec {
        line.push("exec".to_owned());
    } else {
        line.push("--no-install".to_owned());
    }
    line.push("--".to_owned());
    line.push("playwright".to_owned());
    assert(arg_views(line@) == runner_args(package_manager@));
    let mut i: usize = 0;
    if let OutputMode::Test = output_mode(args) {
        line.push("test".to_owned());
        line.push("--reporter=json".to_owned());
        i = 1;
        assert(arg_views(line@) == runner_args(package_manager@) + seq![
            "test"@,
            "--reporter=json"@,
        ]);
    }
    let ghost start = i as int;
    let ghost front = arg_views(line@);
    assert(front + given.subrange(start, start) == front);
    while i < args.len()
        invariant
            start <= i <= args.len(),
            0 <= start,
            given == arg_views(args@),
            arg_views(line@) == front + given.subrange(start, i as int),
        decreases args.len() - i,
    {
        let ghost before = line@;
        line.push(args[i].clone());
        i += 1;
        proof {
            assert(arg_views(line@) == arg_views(before).push(given[i - 1]));
            assert(given.subrange(start, i as int) == given.subrange(start, i - 1).push(
                given[i - 1],
            ));
        }
    }
    assert(given.subrange(start, i as int) == given.skip(start));
    assert(given.skip(0) == given);
    assert(arg_views(line@) == runner_args(package_manager@) + playwright_args(given));
    CommandLine { program, args: line }
}

/// All that a call wrote: its stdout, and its stderr on a new line.
pub fn raw_output(stdout: &str, stderr: &str) -> (r: String)
    ensures
        r@ == stdout@ + "\n"@ + stderr@,
{
    let mut r = stdout.to_owned();
    r.append("\n");
    r.append(stderr);
    r
}

/// The status that a call ends with: its own where it failed.
pub fn exit_status(success: bool, exit_code: i32) -> (r: i32)
    ensures
        r == if success {
            0
        } else {
            exit_code
        },
{
    if success {
        0
    } else {
        exit_code
    }
}

} // verus!
