//! Commands that the macOS host runs for a project: editors, Gradle and Xcode.
use vstd::prelude::*;

use crate::paths::{join, join_path};

verus! {

/// The C compiler of the host toolchain.
pub const CLANG: &'static str = "clang";

/// The C++ compiler of the host toolchain.
pub const CLANGXX: &'static str = "clang++";

/// The archiver of the host toolchain.
pub const AR: &'static str = "ar";

/// The linker of the host toolchain.
pub const LD: &'static str = "ld";

/// The ELF reader of the host toolchain.
pub const READELF: &'static str = "readelf";

/// The NDK's stack-trace symbolizer.
pub const NDK_STACK: &'static str = "ndk-stack";

/// Declares `bossy::Command`, the commands that this module builds.
#[verifier::external_type_specification]
#[verifier::external_body]
pub struct ExCommand(bossy::Command);

/// A name for what a `bossy::Command` holds: the program followed by its arguments,
/// in the order in which they were given.
pub uninterp spec fn command_words(command: bossy::Command) -> Seq<Seq<char>>;

/// A name for the environment a `bossy::Command` runs in: whether it starts from the
/// caller's environment (rather than an empty one), and the variables set on top of
/// it, each with the value it was last set to.
pub uninterp spec fn command_env(command: bossy::Command) -> (bool, Map<Seq<char>, Seq<char>>);

/// Calls `bossy::Command::impure`, which starts a command running the program
/// `program` with the caller's environment, no variables set on top of it, and no
/// arguments yet.
#[verifier::external_body]
fn impure(program: &str) -> (command: bossy::Command)
    ensures
        command_words(command) == seq![program@],
        command_env(command) == (true, Map::<Seq<char>, Seq<char>>::empty()),
{
    bossy::Command::impure(program)
}

/// Calls `bossy::Command::with_arg`, which appends `arg` to the arguments of
/// `command` and keeps everything else.
#[verifier::external_body]
fn with_arg(command: bossy::Command, arg: &str) -> (extended: bossy::Command)
    ensures
        command_words(extended) == command_words(command).push(arg@),
        command_env(extended) == command_env(command),
{
    command.with_arg(arg)
}

/// Calls `bossy::Command::with_env_var`, which sets the variable `key` to `value`
/// for the command (through `std::process::Command::env`, which inserts the variable
/// or updates its value) and keeps its program and arguments.
#[verifier::external_body]
fn with_env_var(command: bossy::Command, key: &str, value: &str) -> (extended: bossy::Command)
    ensures
        command_words(extended) == command_words(command),
        command_env(extended) == (command_env(command).0, command_env(command).1.insert(
            key@,
            value@,
        )),
{
    command.with_env_var(key, value)
}

/// The variables `base` with each of `vars` set on top, in order, a later setting of
/// a variable replacing an earlier one.
pub open spec fn set_vars(base: Map<Seq<char>, Seq<char>>, vars: Seq<(String, String)>) -> Map<
    Seq<char>,
    Seq<char>,
>
    decreases vars.len(),
{
    if vars.len() == 0 {
        base
    } else {
        set_vars(base, vars.drop_last()).insert(vars.last().0@, vars.last().1@)
    }
}

/// `command` with the variables `vars` set on top of its environment, in order.
fn with_env_vars(command: bossy::Command, vars: &Vec<(String, String)>) -> (extended: bossy::Command)
    ensures
        command_words(extended) == command_words(command),
        command_env(extended) == (command_env(command).0, set_vars(command_env(command).1, vars@)),
{
    let mut command = command;
    let ghost start = command_env(command);
    let ghost words = command_words(command);
    let n = vars.len();
    let mut i: usize = 0;
    assert(vars@.take(0) =~= Seq::<(String, String)>::empty());
    while i < n
        invariant
            n == vars.len(),
            i <= n,
            command_words(command) == words,
            command_env(command) == (start.0, set_vars(start.1, vars@.take(i as int))),
        decreases n - i,
    {
        let (key, value) = &vars[i];
        command = with_env_var(command, key.as_str(), value.as_str());
        let ghost next = vars@.take(i as int + 1);
        assert(next.drop_last() =~= vars@.take(i as int));
        assert(next.last() == vars@[i as int]);
        i = i + 1;
    }
    assert(vars@.take(n as int) =~= vars@);
    command
}

/// The command that opens files in Visual Studio Code.
pub fn code_command() -> (command: bossy::Command)
    ensures
        command_words(command) == seq!["code"@],
        command_env(command) == (true, Map::<Seq<char>, Seq<char>>::empty()),
{
    impure("code")
}

/// The command that prints where the program `name` is found on the search path.
pub fn command_path_command(name: &str) -> (command: bossy::Command)
    ensures
        command_words(command) == seq!["command"@, "-v"@, name@],
        command_env(command) == (true, Map::<Seq<char>, Seq<char>>::empty()),
{
    let command = impure("command");
    let command = with_arg(command, "-v");
    with_arg(command, name)
}

/// The command that runs the Gradle wrapper of the Android project in `project_dir`.
pub fn gradlew_command(project_dir: &str) -> (command: bossy::Command)
    ensures
        command_words(command) == seq![
            join_path(project_dir@, "gradlew"@),
            "--project-dir"@,
            project_dir@,
        ],
        command_env(command) == (true, Map::<Seq<char>, Seq<char>>::empty()),
{
    let gradle_path = join(project_dir, "gradlew");
    let command = impure(gradle_path.as_str());
    let command = with_arg(command, "--project-dir");
    with_arg(command, project_dir)
}

/// The command that opens `path` in Xcode.
pub fn open_in_xcode_command(path: &str) -> (command: bossy::Command)
    ensures
        command_words(command) == seq!["xed"@, path@],
        command_env(command) == (true, Map::<Seq<char>, Seq<char>>::empty()),
{
    let command = impure("xed");
    with_arg(command, path)
}

/// The command that opens `path` with the application named `application`, with the
/// variables `env` set on top of the caller's environment.
pub fn open_file_with_command(application: &str, path: &str, env: &Vec<(String, String)>) -> (command: bossy::Command)
    ensures
        command_words(command) == seq!["open"@, "-a"@, application@, path@],
        command_env(command) == (true, set_vars(Map::<Seq<char>, Seq<char>>::empty(), env@)),
        forall|k: Seq<char>|
            #![trigger command_env(command).1.dom().contains(k)]
            command_env(command).1.dom().contains(k) <==> exists|i: int|
                0 <= i < env@.len() && #[trigger] env@[i].0@ == k,
        forall|i: int|
            0 <= i < env@.len() && (forall|j: int| i < j < env@.len() ==> #[trigger] env@[j].0@ != env@[i].0@)
                ==> command_env(command).1[#[trigger] env@[i].0@] == env@[i].1@,
{
    proof {
        lemma_set_vars_last_wins(env@);
    }
    let command = impure("open");
    let command = with_arg(command, "-a");
    let command = with_arg(command, application);
    let command = with_arg(command, path);
    with_env_vars(command, env)
}

/// The command that opens the Xcode project in `project_dir`, with the variables
/// `env` set on top of the caller's environment.
pub fn xcode_project_command(project_dir: &str, env: &Vec<(String, String)>) -> (command: bossy::Command)
    ensures
        command_words(command) == seq!["open"@, "-a"@, "Xcode"@, project_dir@],
        command_env(command) == (true, set_vars(Map::<Seq<char>, Seq<char>>::empty(), env@)),
        forall|k: Seq<char>|
            #![trigger command_env(command).1.dom().contains(k)]
            command_env(command).1.dom().contains(k) <==> exists|i: int|
                0 <= i < env@.len() && #[trigger] env@[i].0@ == k,
        forall|i: int|
            0 <= i < env@.len() && (forall|j: int| i < j < env@.len() ==> #[trigger] env@[j].0@ != env@[i].0@)
                ==> command_env(command).1[#[trigger] env@[i].0@] == env@[i].1@,
{
    open_file_with_command("Xcode", project_dir, env)
}

/// Paths need no rewriting on macOS: the path is handed back as it is.
pub fn replace_path_separator(path: String) -> (r: String)
    ensures
        r@ == path@,
{
    path
}


/// The variables set by a list of settings on an empty environment are exactly the
/// variables named in it, and each has the value of its last setting.
pub proof fn lemma_set_vars_last_wins(vars: Seq<(String, String)>)
    ensures
        forall|k: Seq<char>|
            #![trigger set_vars(Map::<Seq<char>, Seq<char>>::empty(), vars).dom().contains(k)]
            set_vars(Map::<Seq<char>, Seq<char>>::empty(), vars).dom().contains(k) <==> exists|i: int|
                0 <= i < vars.len() && #[trigger] vars[i].0@ == k,
        forall|i: int|
            0 <= i < vars.len() && (forall|j: int| i < j < vars.len() ==> #[trigger] vars[j].0@ != vars[i].0@)
                ==> set_vars(Map::<Seq<char>, Seq<char>>::empty(), vars)[#[trigger] vars[i].0@]
                == vars[i].1@,
    decreases vars.len(),
{
    let empty = Map::<Seq<char>, Seq<char>>::empty();
    if vars.len() > 0 {
        let init = vars.drop_last();
        lemma_set_vars_last_wins(init);
        let n = vars.len() as int;
        let m = set_vars(empty, vars);
        let m0 = set_vars(empty, init);
        assert(m == m0.insert(vars.last().0@, vars.last().1@));
        assert forall|k: Seq<char>| m.dom().contains(k) <==> exists|i: int|
            0 <= i < vars.len() && #[trigger] vars[i].0@ == k by {
            if m.dom().contains(k) {
                if k == vars.last().0@ {
                    assert(vars[n - 1].0@ == k);
                } else {
                    assert(m0.dom().contains(k));
                    let i = choose|i: int| 0 <= i < init.len() && #[trigger] init[i].0@ == k;
                    assert(vars[i] == init[i]);
                }
            }
            if exists|i: int| 0 <= i < vars.len() && #[trigger] vars[i].0@ == k {
                let i = choose|i: int| 0 <= i < vars.len() && #[trigger] vars[i].0@ == k;
                if i < n - 1 {
                    assert(init[i] == vars[i]);
                    assert(init[i].0@ == k);
                    assert(m0.dom().contains(k));
                }
            }
        }
        assert forall|i: int|
            0 <= i < vars.len() && (forall|j: int| i < j < vars.len() ==> #[trigger] vars[j].0@
                != vars[i].0@) implies m[#[trigger] vars[i].0@] == vars[i].1@ by {
            if i < n - 1 {
                assert(vars[n - 1].0@ != vars[i].0@);
                assert(init[i] == vars[i]);
                assert forall|j: int| i < j < init.len() implies #[trigger] init[j].0@ != init[i].0@ by {
                    assert(init[j] == vars[j]);
                    assert(vars[j].0@ != vars[i].0@);
                }
            } else {
                assert(vars[i] == vars.last());
            }
        }
    }
}

} // verus!
