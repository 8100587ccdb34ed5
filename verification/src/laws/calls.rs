//! How Playwright is called, said of the characters of the arguments.

use vstd::prelude::*;
use crate::command::{
    arg_views, chooses_reporter, is_reporter_flag, mode_of, playwright_args, runner, runner_args,
    OutputMode,
};
use crate::laws::primitives::law_prefix;

verus! {

/// The argument is the reporter flag, alone or with its value behind an equals sign.
pub open spec fn is_choice(arg: Seq<char>) -> bool {
    arg == "--reporter"@ || exists|value: Seq<char>| arg == #[trigger] ("--reporter="@ + value)
}

/// Some argument is such a flag.
pub open spec fn has_choice(args: Seq<Seq<char>>) -> bool {
    exists|i: int| 0 <= i < args.len() && is_choice(#[trigger] args[i])
}

proof fn lemma_choice(args: Seq<Seq<char>>)
    ensures
        has_choice(args) == chooses_reporter(args),
{
    assert forall|i: int| 0 <= i < args.len() implies is_choice(#[trigger] args[i])
        == is_reporter_flag(args[i]) by {
        law_prefix(args[i], "--reporter="@);
    }
    if has_choice(args) {
        let i = choose|i: int| 0 <= i < args.len() && is_choice(#[trigger] args[i]);
        assert(is_reporter_flag(args[i]));
    }
    if chooses_reporter(args) {
        let i = choose|i: int| 0 <= i < args.len() && is_reporter_flag(#[trigger] args[i]);
        assert(is_choice(args[i]));
    }
}

proof fn lemma_subcommands_differ()
    ensures
        "test"@ != "install"@,
        "test"@ != "install-deps"@,
{
    reveal_strlit("test");
    reveal_strlit("install");
    reveal_strlit("install-deps");
    assert("test"@[0] != "install"@[0]);
    assert("test"@[0] != "install-deps"@[0]);
}

/// Tests without a reporter flag are reported as JSON: that flag goes in behind the
/// subcommand, and the other arguments keep their order.
pub proof fn law_json_is_asked_for(rest: Seq<Seq<char>>)
    requires
        forall|i: int| 0 <= i < rest.len() ==> !is_choice(#[trigger] rest[i]),
    ensures
        mode_of(seq!["test"@] + rest) == OutputMode::Test,
        playwright_args(seq!["test"@] + rest) == seq!["test"@, "--reporter=json"@] + rest,
{
    let args = seq!["test"@] + rest;
    lemma_choice(args);
    lemma_subcommands_differ();
    assert(!is_choice("test"@)) by {
        reveal_strlit("test");
        reveal_strlit("--reporter");
        reveal_strlit("--reporter=");
        assert("test"@[0] == 't');
        if exists|value: Seq<char>| "test"@ == #[trigger] ("--reporter="@ + value) {
            let value = choose|value: Seq<char>| "test"@ == #[trigger] ("--reporter="@ + value);
            assert(("--reporter="@ + value)[0] == '-');
        }
    }
    assert(!has_choice(args)) by {
        if has_choice(args) {
            let i = choose|i: int| 0 <= i < args.len() && is_choice(#[trigger] args[i]);
            if i > 0 {
                assert(args[i] == rest[i - 1]);
            }
        }
    }
    assert(args.skip(1) == rest);
}

/// Tests with a reporter flag are left to that reporter, with the arguments as they
/// are.
pub proof fn law_a_chosen_reporter_stays(rest: Seq<Seq<char>>, i: int)
    requires
        0 <= i < rest.len(),
        is_choice(rest[i]),
    ensures
        mode_of(seq!["test"@] + rest) == OutputMode::UserReporter,
        playwright_args(seq!["test"@] + rest) == seq!["test"@] + rest,
{
    let args = seq!["test"@] + rest;
    lemma_choice(args);
    assert(args[i + 1] == rest[i]);
    assert(is_choice(args[i + 1]));
}

/// Only the first argument is looked at for a subcommand. Without `test` there, the
/// arguments are handed on as they are, and only the two ways to install are
/// treated as installations.
pub proof fn law_other_subcommands(args: Seq<Seq<char>>)
    requires
        args.len() == 0 || args[0] != "test"@,
    ensures
        playwright_args(args) == args,
        mode_of(args) == OutputMode::Install <==> args.len() > 0 && (args[0] == "install"@
            || args[0] == "install-deps"@),
        mode_of(args) == OutputMode::Install || mode_of(args) == OutputMode::Passthrough,
{
}

/// `pnpm` and `yarn` run Playwright themselves; `npx` does for any other package
/// manager, and installs nothing.
pub proof fn law_runner(package_manager: Seq<char>)
    ensures
        package_manager == "pnpm"@ || package_manager == "yarn"@ ==> runner(package_manager)
            == package_manager && runner_args(package_manager) == seq![
            "exec"@,
            "--"@,
            "playwright"@,
        ],
        package_manager != "pnpm"@ && package_manager != "yarn"@ ==> runner(package_manager)
            == "npx"@ && runner_args(package_manager) == seq![
            "--no-install"@,
            "--"@,
            "playwright"@,
        ],
{
}

/// Each argument counts as what it spells, in its place.
pub proof fn law_arguments(args: Seq<String>, i: int)
    requires
        0 <= i < args.len(),
    ensures
        arg_views(args).len() == args.len(),
        arg_views(args)[i] == args[i]@,
{
}

} // verus!
