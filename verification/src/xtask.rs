//! The decisions of the project's task runner: which subcommand was asked for, which
//! runtime features a build selects, and the command lines that each task runs.

use crate::language::str_eq;
use vstd::prelude::*;
use vstd::string::*;

verus! {

/// The tasks of the runner.
#[derive(Clone, Copy, Debug, PartialEq, Eq, Structural)]
pub enum Subcommand {
    Build,
    Check,
    Clippy,
    Doc,
    Format,
    Help,
    Init,
    Install,
    Tarpaulin,
    Test,
    TestCli,
    Udeps,
}

/// The task that `name` asks for, if any.
pub open spec fn subcommand_named(name: Seq<char>) -> Option<Subcommand> {
    if name == "build"@ {
        Some(Subcommand::Build)
    } else if name == "check"@ {
        Some(Subcommand::Check)
    } else if name == "clippy"@ {
        Some(Subcommand::Clippy)
    } else if name == "doc"@ {
        Some(Subcommand::Doc)
    } else if name == "format"@ {
        Some(Subcommand::Format)
    } else if name == "init"@ {
        Some(Subcommand::Init)
    } else if name == "install"@ {
        Some(Subcommand::Install)
    } else if name == "tarpaulin"@ {
        Some(Subcommand::Tarpaulin)
    } else if name == "test"@ {
        Some(Subcommand::Test)
    } else if name == "test-cli"@ {
        Some(Subcommand::TestCli)
    } else if name == "udeps"@ {
        Some(Subcommand::Udeps)
    } else if name == "help"@ {
        Some(Subcommand::Help)
    } else {
        None
    }
}

/// The task named `name`, or the message that no task has that name.
pub fn subcommand_from_name(name: &str) -> (res: Result<Subcommand, String>)
    ensures
        match subcommand_named(name@) {
            Some(s) => res == Ok::<Subcommand, String>(s),
            None => res matches Err(m) && m@ == "unknown subcommand: "@ + name@,
        },
{
    if str_eq(name, "build") {
        Ok(Subcommand::Build)
    } else if str_eq(name, "check") {
        Ok(Subcommand::Check)
    } else if str_eq(name, "clippy") {
        Ok(Subcommand::Clippy)
    } else if str_eq(name, "doc") {
        Ok(Subcommand::Doc)
    } else if str_eq(name, "format") {
        Ok(Subcommand::Format)
    } else if str_eq(name, "init") {
        Ok(Subcommand::Init)
    } else if str_eq(name, "install") {
        Ok(Subcommand::Install)
    } else if str_eq(name, "tarpaulin") {
        Ok(Subcommand::Tarpaulin)
    } else if str_eq(name, "test") {
        Ok(Subcommand::Test)
    } else if str_eq(name, "test-cli") {
        Ok(Subcommand::TestCli)
    } else if str_eq(name, "udeps") {
        Ok(Subcommand::Udeps)
    } else if str_eq(name, "help") {
        Ok(Subcommand::Help)
    } else {
        Err(String::from_str("unknown subcommand: ").concat(name))
    }
}

/// The index of the first `--` at or after `i`, if any.
pub open spec fn dash_dash_from(args: Seq<Seq<char>>, i: int) -> Option<int>
    decreases args.len() - i,
{
    if i < 0 || i >= args.len() {
        None
    } else if args[i] == "--"@ {
        Some(i)
    } else {
        dash_dash_from(args, i + 1)
    }
}

/// Splits the arguments of the runner at the first `--`: those before it are the runner's,
/// those after it are handed on to cargo.
pub fn split_cargo_args(args: Vec<String>) -> (res: (Vec<String>, Vec<String>))
    ensures
        match dash_dash_from(args.deep_view(), 0) {
            Some(i) => res.0.deep_view() == args.deep_view().take(i) && res.1.deep_view()
                == args.deep_view().skip(i + 1),
            None => res.0.deep_view() == args.deep_view() && res.1.deep_view() == Seq::<
                Seq<char>,
            >::empty(),
        },
{
    let ghost all = args.deep_view();
    let mut i: usize = 0;
    while i < args.len()
        invariant
            i <= args@.len(),
            all == args.deep_view(),
            dash_dash_from(all, 0) == dash_dash_from(all, i as int),
        decreases args@.len() - i,
    {
        if str_eq(args[i].as_str(), "--") {
            let mut own: Vec<String> = Vec::new();
            let mut rest: Vec<String> = Vec::new();
            let mut j: usize = 0;
            while j < args.len()
                invariant
                    i < args@.len(),
                    j <= args@.len(),
                    all == args.deep_view(),
                    j <= i ==> own.deep_view() == all.take(j as int) && rest.deep_view()
                        == Seq::<Seq<char>>::empty(),
                    j > i ==> own.deep_view() == all.take(i as int) && rest.deep_view()
                        == all.subrange(i + 1, j as int),
                decreases args@.len() - j,
            {
                let arg = args[j].clone();
                if j < i {
                    own.push(arg);
                    assert(own.deep_view() =~= all.take(j + 1));
                } else if j > i {
                    rest.push(arg);
                    assert(rest.deep_view() =~= all.subrange(i + 1, j + 1));
                }
                j = j + 1;
            }
            assert(rest.deep_view() =~= all.skip(i + 1));
            return (own, rest);
        }
        i = i + 1;
    }
    (args, Vec::new())
}

/// The feature that the runtime `runtime` selects, for `cargo install` or for the other
/// commands, if `runtime` is one the runner knows.
pub open spec fn runtime_feature(install: bool, runtime: Seq<char>) -> Option<Seq<char>> {
    if runtime == "async-std"@ {
        Some(
            if install {
                "runtime-async-std"@
            } else {
                "wasm-lsp-cli/runtime-async-std"@
            },
        )
    } else if runtime == "futures"@ {
        Some(
            if install {
                "runtime-futures"@
            } else {
                "wasm-lsp-cli/runtime-futures"@
            },
        )
    } else if runtime == "smol"@ {
        Some(
            if install {
                "runtime-smol"@
            } else {
                "wasm-lsp-cli/runtime-smol"@
            },
        )
    } else if runtime == "tokio"@ {
        Some(
            if install {
                "runtime-tokio"@
            } else {
                "wasm-lsp-cli/runtime-tokio"@
            },
        )
    } else {
        None
    }
}

/// Whether the runner knows the runtime `runtime`.
pub open spec fn known_runtime(runtime: Seq<char>) -> bool {
    runtime == "async-std"@ || runtime == "futures"@ || runtime == "smol"@ || runtime == "tokio"@
}

/// The prefix of a runtime's feature name: the bare feature for `cargo install`, which
/// builds the command-line package itself, else the feature of that package.
pub open spec fn feature_prefix(install: bool) -> Seq<char> {
    if install {
        "runtime-"@
    } else {
        "wasm-lsp-cli/runtime-"@
    }
}

/// A runtime the runner knows selects the feature named `runtime-` and the runtime's name,
/// of the command-line package unless the command is `cargo install`; any other runtime
/// selects none.
pub proof fn law_runtime_feature_is_named_after_the_runtime(install: bool, runtime: Seq<char>)
    ensures
        known_runtime(runtime) ==> runtime_feature(install, runtime) == Some(feature_prefix(install) + runtime),
        !known_runtime(runtime) ==> runtime_feature(install, runtime) is None,
{
    reveal_strlit("runtime-");
    reveal_strlit("wasm-lsp-cli/runtime-");
    reveal_strlit("async-std");
    reveal_strlit("futures");
    reveal_strlit("smol");
    reveal_strlit("tokio");
    reveal_strlit("runtime-async-std");
    reveal_strlit("runtime-futures");
    reveal_strlit("runtime-smol");
    reveal_strlit("runtime-tokio");
    reveal_strlit("wasm-lsp-cli/runtime-async-std");
    reveal_strlit("wasm-lsp-cli/runtime-futures");
    reveal_strlit("wasm-lsp-cli/runtime-smol");
    reveal_strlit("wasm-lsp-cli/runtime-tokio");
    if known_runtime(runtime) {
        assert(runtime_feature(install, runtime)->0 =~= feature_prefix(install) + runtime);
    }
}

/// The toolchain that a runtime selects: the nightly one, except for `cargo install`.
pub open spec fn nightly_unless_install(command_name: Seq<char>) -> Seq<Seq<char>> {
    if command_name == "install"@ {
        Seq::empty()
    } else {
        seq!["+nightly"@]
    }
}

/// Appends `arg` to `args`.
fn push_arg(args: &mut Vec<String>, arg: &str)
    ensures
        final(args).deep_view() == old(args).deep_view().push(arg@),
{
    let ghost before = args.deep_view();
    args.push(arg.to_owned());
    assert(args.deep_view() =~= before.push(arg@));
}

/// Appends `more` to `args`.
fn append_args(args: &mut Vec<String>, more: Vec<String>)
    ensures
        final(args).deep_view() == old(args).deep_view() + more.deep_view(),
{
    let ghost before = args.deep_view();
    let ghost added = more.deep_view();
    let mut more = more;
    args.append(&mut more);
    assert(args.deep_view() =~= before + added);
}

/// The toolchain that the `--runtime` choice `runtime` selects for the cargo command
/// `command_name`; the features it selects are added to `cargo_args`. A runtime the runner
/// does not know is refused, and nothing is added.
pub fn configure_runtime(
    command_name: &str,
    runtime: Option<String>,
    cargo_args: &mut Vec<String>,
) -> (res: Result<Vec<String>, String>)
    ensures
        ({
            let before = old(cargo_args).deep_view();
            let after = final(cargo_args).deep_view();
            match runtime {
                None => res matches Ok(t) && t.deep_view() == Seq::<Seq<char>>::empty() && after
                    == before,
                Some(r) => match runtime_feature(command_name@ == "install"@, r@) {
                    Some(feature) => res matches Ok(t) && t.deep_view() == nightly_unless_install(
                        command_name@,
                    ) && after == before + seq!["--no-default-features"@, "--features="@ + feature],
                    None => res matches Err(m) && m@ == "unexpected runtime '"@ + r@ + "'"@
                        && after == before,
                },
            }
        }),
        (match runtime {
            Some(r) => if known_runtime(r@) {
                final(cargo_args).deep_view() == old(cargo_args).deep_view() + seq![
                    "--no-default-features"@,
                    "--features="@ + feature_prefix(command_name@ == "install"@) + r@,
                ]
            } else {
                res is Err
            },
            None => true,
        }),
{
    proof {
        if runtime is Some {
            let r = runtime->0;
            law_runtime_feature_is_named_after_the_runtime(command_name@ == "install"@, r@);
            assert(("--features="@ + feature_prefix(command_name@ == "install"@)) + r@ =~= "--features="@ + (
            feature_prefix(command_name@ == "install"@) + r@));
        }
    }
    let mut toolchain: Vec<String> = Vec::new();
    if let Some(arg) = runtime {
        let install = str_eq(command_name, "install");
        let feature;
        if str_eq(arg.as_str(), "async-std") {
            feature = if install {
                "runtime-async-std"
            } else {
                "wasm-lsp-cli/runtime-async-std"
            };
        } else if str_eq(arg.as_str(), "futures") {
            feature = if install {
                "runtime-futures"
            } else {
                "wasm-lsp-cli/runtime-futures"
            };
        } else if str_eq(arg.as_str(), "smol") {
            feature = if install {
                "runtime-smol"
            } else {
                "wasm-lsp-cli/runtime-smol"
            };
        } else if str_eq(arg.as_str(), "tokio") {
            feature = if install {
                "runtime-tokio"
            } else {
                "wasm-lsp-cli/runtime-tokio"
            };
        } else {
            let message = String::from_str("unexpected runtime '").concat(arg.as_str()).concat(
                "'",
            );
            return Err(message);
        }
        push_arg(cargo_args, "--no-default-features");
        let features = String::from_str("--features=").concat(feature);
        let ghost before = cargo_args.deep_view();
        cargo_args.push(features);
        assert(cargo_args.deep_view() =~= before.push("--features="@ + feature@));
        if !install {
            push_arg(&mut toolchain, "+nightly");
        }
    }
    assert(toolchain.deep_view() =~= Seq::<Seq<char>>::empty() || toolchain.deep_view()
        =~= seq!["+nightly"@]);
    Ok(toolchain)
}

/// The arguments that were left over, each after a space.
pub open spec fn spaced(unused: Seq<Seq<char>>) -> Seq<char>
    decreases unused.len(),
{
    if unused.len() == 0 {
        Seq::empty()
    } else {
        spaced(unused.drop_last()) + " "@ + unused.last()
    }
}

/// Refuses arguments that no option of the task took.
pub fn handle_unused(unused: Vec<String>) -> (res: Result<(), String>)
    ensures
        unused@.len() == 0 <==> res is Ok,
        res matches Err(m) ==> m@ == "unrecognized arguments '"@ + spaced(unused.deep_view())
            + "'"@,
{
    if unused.len() == 0 {
        return Ok(());
    }
    let mut message = String::new();
    let mut i: usize = 0;
    while i < unused.len()
        invariant
            i <= unused@.len(),
            message@ == spaced(unused.deep_view().take(i as int)),
        decreases unused@.len() - i,
    {
        proof {
            assert(unused.deep_view().take(i + 1).drop_last() =~= unused.deep_view().take(
                i as int,
            ));
        }
        message = message.concat(" ").concat(unused[i].as_str());
        i = i + 1;
    }
    assert(unused.deep_view().take(i as int) =~= unused.deep_view());
    Err(String::from_str("unrecognized arguments '").concat(message.as_str()).concat("'"))
}

/// The program that runs cargo.
pub fn cargo() -> (res: Result<String, String>)
    ensures
        res matches Ok(p) && p@ == "cargo"@,
{
    Ok(String::from_str("cargo"))
}

/// The index of the last `/` in `s`, if any.
pub open spec fn last_slash(s: Seq<char>) -> Option<int>
    decreases s.len(),
{
    if s.len() == 0 {
        None
    } else if s.last() == '/' {
        Some(s.len() - 1)
    } else {
        last_slash(s.drop_last())
    }
}

/// Whether `s` is a plain component name: not empty, not `.` or `..`, and free of
/// separators and of the `:` of a drive prefix.
pub open spec fn is_plain_name(s: Seq<char>) -> bool {
    &&& s.len() > 0
    &&& s != "."@
    &&& s != ".."@
    &&& forall|i: int| 0 <= i < s.len() ==> s[i] != '/' && s[i] != '\\' && s[i] != ':'
}

/// Whether `s` is a path of plain names joined by single `/`, relative or starting at the
/// root.
pub open spec fn is_plain_path(s: Seq<char>) -> bool
    decreases s.len(),
{
    match last_slash(s) {
        None => is_plain_name(s),
        Some(k) => {
            proof {
                lemma_last_slash_bounds(s);
            }
            is_plain_name(s.skip(k + 1)) && (k == 0 || is_plain_path(s.take(k)))
        },
    }
}

/// The last `/` of a text lies within it.
pub proof fn lemma_last_slash_bounds(s: Seq<char>)
    ensures
        last_slash(s) matches Some(k) ==> 0 <= k < s.len() && s[k] == '/',
    decreases s.len(),
{
    if s.len() > 0 && s.last() != '/' {
        lemma_last_slash_bounds(s.drop_last());
    }
}

/// The parent of `dir` when it is a path of plain names joined by single `/` with a name
/// before the last `/`: the text before that `/`.
pub open spec fn plain_parent(dir: Seq<char>) -> Option<Seq<char>> {
    match last_slash(dir) {
        Some(k) => if k > 0 && is_plain_path(dir) {
            Some(dir.take(k))
        } else {
            None
        },
        None => None,
    }
}

/// The pieces of `s` between its `/` separators, in order: one more than there are `/`.
pub open spec fn slash_pieces(s: Seq<char>) -> Seq<Seq<char>>
    decreases s.len(),
{
    match last_slash(s) {
        Some(k) => {
            proof {
                lemma_last_slash_bounds(s);
            }
            slash_pieces(s.take(k)).push(s.skip(k + 1))
        },
        None => seq![s],
    }
}

/// Whether a piece after the first names a component: empty pieces (repeated or trailing
/// separators) and `.` are normalized away.
pub open spec fn names_component(piece: Seq<char>) -> bool {
    piece.len() > 0 && piece != seq!['.']
}

/// Whether `/` alone separates the components of `s` on every platform: it holds no `\`
/// and no `:` (with which a platform may read a separator or a prefix) and does not start
/// with two `/`.
pub open spec fn slash_separated(s: Seq<char>) -> bool {
    &&& forall|i: int| 0 <= i < s.len() ==> s[i] != '\\' && s[i] != ':'
    &&& !(s.len() >= 2 && s[0] == '/' && s[1] == '/')
}

/// The components of the path `s`, as `std::path::Path::components` documents them for a
/// path whose separator is `/`: the root, written `/`, when the path starts at it; a
/// leading `.` of a relative path; then each name, with repeated separators, a trailing
/// separator and other `.` components normalized away.
pub open spec fn path_components(s: Seq<char>) -> Seq<Seq<char>> {
    let pieces = slash_pieces(s);
    let rest = pieces.skip(1).filter(|piece: Seq<char>| names_component(piece));
    if s.len() > 0 && s[0] == '/' {
        seq![seq!['/']] + rest
    } else if pieces[0].len() == 0 {
        rest
    } else {
        seq![pieces[0]] + rest
    }
}

/// Whether the path `s` has no component or ends at the root: then it has no parent.
pub open spec fn ends_at_root(s: Seq<char>) -> bool {
    path_components(s).len() == 0 || path_components(s).last() == seq!['/']
}

/// `std::path::Path::parent` of the path `dir`, as text. Its documentation says that the
/// parent is the path without its final component, if there is one. Stated here: the
/// parent is then a shorter prefix of `dir`; and for a path of plain names joined by
/// single `/` with a name before the last `/`, where no platform reads a root, prefix or
/// special component differently, it is the text before the last `/`. For any path that
/// `/` alone separates, there is no parent exactly when the path ends in the root or is
/// empty, and the parent's components are the path's without the last one.
#[verifier::external_body]
fn path_parent(dir: &str) -> (res: Option<String>)
    ensures
        res matches Some(p) ==> p@.len() < dir@.len() && p@ == dir@.take(p@.len() as int),
        res is None ==> plain_parent(dir@) is None,
        res is Some && plain_parent(dir@) is Some ==> res->0@ == plain_parent(dir@)->0,
        slash_separated(dir@) ==> (res is None <==> ends_at_root(dir@)),
        slash_separated(dir@) && res is Some ==> path_components(res->0@) == path_components(
            dir@,
        ).drop_last(),
{
    match std::path::Path::new(dir).parent() {
        Some(parent) => Some(parent.to_string_lossy().into_owned()),
        None => None,
    }
}

/// The root of the project: the directory above the runner's package directory
/// `manifest_dir` (the directory without its last component), or `None` when that
/// directory has no parent.
pub fn project_root(manifest_dir: &str) -> (res: Option<String>)
    ensures
        res matches Some(p) ==> p@.len() < manifest_dir@.len() && p@ == manifest_dir@.take(
            p@.len() as int,
        ),
        plain_parent(manifest_dir@) matches Some(q) ==> res matches Some(p) && p@ == q,
        slash_separated(manifest_dir@) ==> (res is None <==> ends_at_root(manifest_dir@)),
        slash_separated(manifest_dir@) && res is Some ==> path_components(res->0@)
            == path_components(manifest_dir@).drop_last(),
{
    path_parent(manifest_dir)
}

/// A command that a task runs: the program, the directory below the project root in which
/// it runs, the `RUSTFLAGS` it sets, if any, and its arguments.
#[derive(Debug)]
pub struct Invocation {
    pub program: String,
    pub subdirectory: Vec<String>,
    pub rustflags: Option<String>,
    pub args: Vec<String>,
}

/// Whether `inv` runs cargo in the project root with `args`, and sets `RUSTFLAGS` to deny
/// warnings exactly when `deny_warnings` holds.
pub open spec fn runs_cargo(inv: Invocation, deny_warnings: bool, args: Seq<Seq<char>>) -> bool {
    &&& inv.program@ == "cargo"@
    &&& inv.subdirectory.deep_view() == Seq::<Seq<char>>::empty()
    &&& if deny_warnings {
        inv.rustflags matches Some(f) && f@ == "-Dwarnings"@
    } else {
        inv.rustflags is None
    }
    &&& inv.args.deep_view() == args
}

/// The package arguments that name the workspace's packages for `check`, `clippy` and
/// `udeps`.
pub open spec fn workspace_packages() -> Seq<Seq<char>> {
    seq![
        "--package"@,
        "xtask"@,
        "--package"@,
        "wasm-lsp-cli"@,
        "--package"@,
        "wasm-lsp-languages"@,
        "--package"@,
        "wasm-lsp-macros"@,
        "--package"@,
        "wasm-lsp-server"@,
        "--package"@,
        "wasm-lsp-syntax"@,
        "--package"@,
        "wasm-lsp-testing"@,
    ]
}

/// The package argument of the fuzzing package, which only builds on Linux.
pub open spec fn fuzz_package(linux: bool) -> Seq<Seq<char>> {
    if linux {
        seq!["--package"@, "wasm-lsp-fuzz"@]
    } else {
        Seq::empty()
    }
}

fn push_workspace_packages(args: &mut Vec<String>, linux: bool)
    ensures
        final(args).deep_view() == old(args).deep_view() + workspace_packages() + fuzz_package(
            linux,
        ),
{
    let ghost before = args.deep_view();
    push_arg(args, "--package");
    push_arg(args, "xtask");
    push_arg(args, "--package");
    push_arg(args, "wasm-lsp-cli");
    push_arg(args, "--package");
    push_arg(args, "wasm-lsp-languages");
    push_arg(args, "--package");
    push_arg(args, "wasm-lsp-macros");
    push_arg(args, "--package");
    push_arg(args, "wasm-lsp-server");
    push_arg(args, "--package");
    push_arg(args, "wasm-lsp-syntax");
    push_arg(args, "--package");
    push_arg(args, "wasm-lsp-testing");
    let ghost middle = args.deep_view();
    assert(middle =~= before + workspace_packages());
    if linux {
        push_arg(args, "--package");
        push_arg(args, "wasm-lsp-fuzz");
    }
    assert(args.deep_view() =~= middle + fuzz_package(linux));
}

/// The invocation of cargo with `args`, in the project root.
fn cargo_invocation(deny_warnings: bool, args: Vec<String>) -> (res: Result<Invocation, String>)
    ensures
        res matches Ok(inv) && runs_cargo(inv, deny_warnings, args.deep_view()),
{
    let program = match cargo() {
        Ok(p) => p,
        Err(e) => return Err(e),
    };
    let rustflags = if deny_warnings {
        Some(String::from_str("-Dwarnings"))
    } else {
        None
    };
    let subdirectory: Vec<String> = Vec::new();
    assert(subdirectory.deep_view() =~= Seq::<Seq<char>>::empty());
    Ok(Invocation { program, subdirectory, rustflags, args })
}

/// The arguments of `cargo build`.
pub open spec fn build_args(toolchain: Seq<Seq<char>>, cargo_args: Seq<Seq<char>>) -> Seq<
    Seq<char>,
> {
    toolchain + seq!["build"@, "--package"@, "wasm-lsp-cli"@] + cargo_args
}

/// The command of the `build` task.
pub fn build_invocation(toolchain: Vec<String>, cargo_args: Vec<String>) -> (res: Result<
    Invocation,
    String,
>)
    ensures
        res matches Ok(inv) && runs_cargo(
            inv,
            false,
            build_args(toolchain.deep_view(), cargo_args.deep_view()),
        ),
{
    let ghost extra = cargo_args.deep_view();
    let mut args = toolchain;
    let ghost start = args.deep_view();
    push_arg(&mut args, "build");
    push_arg(&mut args, "--package");
    push_arg(&mut args, "wasm-lsp-cli");
    append_args(&mut args, cargo_args);
    assert(args.deep_view() =~= build_args(start, extra));
    cargo_invocation(false, args)
}

/// The arguments of `cargo check`.
pub open spec fn check_args(
    toolchain: Seq<Seq<char>>,
    cargo_args: Seq<Seq<char>>,
    linux: bool,
) -> Seq<Seq<char>> {
    toolchain + seq!["check"@, "--all-targets"@] + workspace_packages() + fuzz_package(linux)
        + cargo_args
}

/// The command of the `check` task, which denies warnings.
pub fn check_invocation(toolchain: Vec<String>, cargo_args: Vec<String>, linux: bool) -> (res:
    Result<Invocation, String>)
    ensures
        res matches Ok(inv) && runs_cargo(
            inv,
            true,
            check_args(toolchain.deep_view(), cargo_args.deep_view(), linux),
        ),
{
    let ghost extra = cargo_args.deep_view();
    let mut args = toolchain;
    let ghost start = args.deep_view();
    push_arg(&mut args, "check");
    push_arg(&mut args, "--all-targets");
    push_workspace_packages(&mut args, linux);
    append_args(&mut args, cargo_args);
    assert(args.deep_view() =~= check_args(start, extra, linux));
    cargo_invocation(true, args)
}

/// The arguments of `cargo clippy`, which always runs on the nightly toolchain.
pub open spec fn clippy_args(cargo_args: Seq<Seq<char>>, linux: bool) -> Seq<Seq<char>> {
    seq!["+nightly"@, "clippy"@, "--all-targets"@] + workspace_packages() + fuzz_package(linux)
        + cargo_args + seq!["--"@, "-D"@, "warnings"@]
}

/// The command of the `clippy` task.
pub fn clippy_invocation(cargo_args: Vec<String>, linux: bool) -> (res: Result<Invocation, String>)
    ensures
        res matches Ok(inv) && runs_cargo(inv, false, clippy_args(cargo_args.deep_view(), linux)),
{
    let ghost extra = cargo_args.deep_view();
    let mut args: Vec<String> = Vec::new();
    push_arg(&mut args, "+nightly");
    push_arg(&mut args, "clippy");
    push_arg(&mut args, "--all-targets");
    push_workspace_packages(&mut args, linux);
    append_args(&mut args, cargo_args);
    push_arg(&mut args, "--");
    push_arg(&mut args, "-D");
    push_arg(&mut args, "warnings");
    assert(args.deep_view() =~= clippy_args(extra, linux));
    cargo_invocation(false, args)
}

/// The arguments of `cargo doc`.
pub open spec fn doc_args(cargo_args: Seq<Seq<char>>) -> Seq<Seq<char>> {
    seq!["+nightly"@, "doc"@] + cargo_args
}

/// The command of the `doc` task.
pub fn doc_invocation(cargo_args: Vec<String>) -> (res: Result<Invocation, String>)
    ensures
        res matches Ok(inv) && runs_cargo(inv, false, doc_args(cargo_args.deep_view())),
{
    let ghost extra = cargo_args.deep_view();
    let mut args: Vec<String> = Vec::new();
    push_arg(&mut args, "+nightly");
    push_arg(&mut args, "doc");
    append_args(&mut args, cargo_args);
    assert(args.deep_view() =~= doc_args(extra));
    cargo_invocation(false, args)
}

/// The arguments of `cargo fmt`.
pub open spec fn format_args(cargo_args: Seq<Seq<char>>) -> Seq<Seq<char>> {
    seq!["+nightly"@, "fmt"@, "--all"@] + cargo_args
}

/// The command of the `format` task.
pub fn format_invocation(cargo_args: Vec<String>) -> (res: Result<Invocation, String>)
    ensures
        res matches Ok(inv) && runs_cargo(inv, false, format_args(cargo_args.deep_view())),
{
    let ghost extra = cargo_args.deep_view();
    let mut args: Vec<String> = Vec::new();
    push_arg(&mut args, "+nightly");
    push_arg(&mut args, "fmt");
    push_arg(&mut args, "--all");
    append_args(&mut args, cargo_args);
    assert(args.deep_view() =~= format_args(extra));
    cargo_invocation(false, args)
}

/// The arguments of `cargo install`.
pub open spec fn install_args(toolchain: Seq<Seq<char>>, cargo_args: Seq<Seq<char>>) -> Seq<
    Seq<char>,
> {
    toolchain + seq!["install"@, "--path"@, "."@] + cargo_args
}

/// The command of the `install` task, which runs in the directory of the command-line
/// package.
pub fn install_invocation(toolchain: Vec<String>, cargo_args: Vec<String>) -> (res: Result<
    Invocation,
    String,
>)
    ensures
        res matches Ok(inv) && inv.program@ == "cargo"@ && inv.subdirectory.deep_view() == seq![
            "crates"@,
            "cli"@,
        ] && inv.rustflags is None && inv.args.deep_view() == install_args(
            toolchain.deep_view(),
            cargo_args.deep_view(),
        ),
{
    let program = match cargo() {
        Ok(p) => p,
        Err(e) => return Err(e),
    };
    let ghost extra = cargo_args.deep_view();
    let mut args = toolchain;
    let ghost start = args.deep_view();
    push_arg(&mut args, "install");
    push_arg(&mut args, "--path");
    push_arg(&mut args, ".");
    append_args(&mut args, cargo_args);
    assert(args.deep_view() =~= install_args(start, extra));
    let mut subdirectory: Vec<String> = Vec::new();
    push_arg(&mut subdirectory, "crates");
    push_arg(&mut subdirectory, "cli");
    assert(subdirectory.deep_view() =~= seq!["crates"@, "cli"@]);
    Ok(Invocation { program, subdirectory, rustflags: None, args })
}

/// The arguments of `cargo tarpaulin`, which always runs on the nightly toolchain.
pub open spec fn tarpaulin_args(cargo_args: Seq<Seq<char>>) -> Seq<Seq<char>> {
    seq![
        "+nightly"@,
        "tarpaulin"@,
        "--out"@,
        "Xml"@,
        "--packages"@,
        "xtask"@,
        "wasm-lsp-cli"@,
        "wasm-lsp-languages"@,
        "wasm-lsp-macros"@,
        "wasm-lsp-server"@,
        "wasm-lsp-syntax"@,
        "wasm-lsp-testing"@,
        "--exclude-files"@,
        "xtask"@,
        "crates/macros"@,
        "crates/server/src/bin"@,
        "crates/server/src/cli.rs"@,
        "crates/testing"@,
        "tests"@,
        "vendor"@,
        "**/stdio2.h"@,
        "**/string_fortified.h"@,
    ] + cargo_args
}

/// The command of the `tarpaulin` task.
pub fn tarpaulin_invocation(cargo_args: Vec<String>) -> (res: Result<Invocation, String>)
    ensures
        res matches Ok(inv) && runs_cargo(inv, false, tarpaulin_args(cargo_args.deep_view())),
{
    let ghost extra = cargo_args.deep_view();
    let mut args: Vec<String> = Vec::new();
    push_arg(&mut args, "+nightly");
    push_arg(&mut args, "tarpaulin");
    push_arg(&mut args, "--out");
    push_arg(&mut args, "Xml");
    push_arg(&mut args, "--packages");
    push_arg(&mut args, "xtask");
    push_arg(&mut args, "wasm-lsp-cli");
    push_arg(&mut args, "wasm-lsp-languages");
    push_arg(&mut args, "wasm-lsp-macros");
    push_arg(&mut args, "wasm-lsp-server");
    push_arg(&mut args, "wasm-lsp-syntax");
    push_arg(&mut args, "wasm-lsp-testing");
    push_arg(&mut args, "--exclude-files");
    push_arg(&mut args, "xtask");
    push_arg(&mut args, "crates/macros");
    push_arg(&mut args, "crates/server/src/bin");
    push_arg(&mut args, "crates/server/src/cli.rs");
    push_arg(&mut args, "crates/testing");
    push_arg(&mut args, "tests");
    push_arg(&mut args, "vendor");
    push_arg(&mut args, "**/stdio2.h");
    push_arg(&mut args, "**/string_fortified.h");
    append_args(&mut args, cargo_args);
    assert(args.deep_view() =~= tarpaulin_args(extra));
    cargo_invocation(false, args)
}

/// The arguments of `cargo test` for the libraries and their tests.
pub open spec fn test_args(cargo_args: Seq<Seq<char>>, linux: bool) -> Seq<Seq<char>> {
    seq![
        "test"@,
        "--examples"@,
        "--lib"@,
        "--tests"@,
        "--package"@,
        "wasm-lsp-languages"@,
        "--package"@,
        "wasm-lsp-server"@,
        "--package"@,
        "wasm-lsp-syntax"@,
        "--package"@,
        "wasm-lsp-testing"@,
    ] + fuzz_package(linux) + cargo_args
}

/// The command of the `test` task, which denies warnings.
pub fn test_invocation(cargo_args: Vec<String>, linux: bool) -> (res: Result<Invocation, String>)
    ensures
        res matches Ok(inv) && runs_cargo(inv, true, test_args(cargo_args.deep_view(), linux)),
{
    let ghost extra = cargo_args.deep_view();
    let mut args: Vec<String> = Vec::new();
    push_arg(&mut args, "test");
    push_arg(&mut args, "--examples");
    push_arg(&mut args, "--lib");
    push_arg(&mut args, "--tests");
    push_arg(&mut args, "--package");
    push_arg(&mut args, "wasm-lsp-languages");
    push_arg(&mut args, "--package");
    push_arg(&mut args, "wasm-lsp-server");
    push_arg(&mut args, "--package");
    push_arg(&mut args, "wasm-lsp-syntax");
    push_arg(&mut args, "--package");
    push_arg(&mut args, "wasm-lsp-testing");
    let ghost middle = args.deep_view();
    if linux {
        push_arg(&mut args, "--package");
        push_arg(&mut args, "wasm-lsp-fuzz");
    }
    assert(args.deep_view() =~= middle + fuzz_package(linux));
    append_args(&mut args, cargo_args);
    assert(args.deep_view() =~= test_args(extra, linux));
    cargo_invocation(true, args)
}

/// The arguments of `cargo test` for the command-line binaries.
pub open spec fn test_cli_args(toolchain: Seq<Seq<char>>, cargo_args: Seq<Seq<char>>) -> Seq<
    Seq<char>,
> {
    toolchain + seq!["test"@, "--bins"@, "--package"@, "wasm-lsp-cli"@] + cargo_args
}

/// The command of the `test-cli` task, which denies warnings.
pub fn test_cli_invocation(toolchain: Vec<String>, cargo_args: Vec<String>) -> (res: Result<
    Invocation,
    String,
>)
    ensures
        res matches Ok(inv) && runs_cargo(
            inv,
            true,
            test_cli_args(toolchain.deep_view(), cargo_args.deep_view()),
        ),
{
    let ghost extra = cargo_args.deep_view();
    let mut args = toolchain;
    let ghost start = args.deep_view();
    push_arg(&mut args, "test");
    push_arg(&mut args, "--bins");
    push_arg(&mut args, "--package");
    push_arg(&mut args, "wasm-lsp-cli");
    append_args(&mut args, cargo_args);
    assert(args.deep_view() =~= test_cli_args(start, extra));
    cargo_invocation(true, args)
}

/// The arguments of `cargo udeps`, which always runs on the nightly toolchain.
pub open spec fn udeps_args(cargo_args: Seq<Seq<char>>, linux: bool) -> Seq<Seq<char>> {
    seq!["+nightly"@, "udeps"@, "--all-targets"@] + workspace_packages() + fuzz_package(linux)
        + cargo_args
}

/// The command of the `udeps` task.
pub fn udeps_invocation(cargo_args: Vec<String>, linux: bool) -> (res: Result<Invocation, String>)
    ensures
        res matches Ok(inv) && runs_cargo(inv, false, udeps_args(cargo_args.deep_view(), linux)),
{
    let ghost extra = cargo_args.deep_view();
    let mut args: Vec<String> = Vec::new();
    push_arg(&mut args, "+nightly");
    push_arg(&mut args, "udeps");
    push_arg(&mut args, "--all-targets");
    push_workspace_packages(&mut args, linux);
    append_args(&mut args, cargo_args);
    assert(args.deep_view() =~= udeps_args(extra, linux));
    cargo_invocation(false, args)
}

/// The command that fetches the submodule at `path`, to a depth of one commit, in the
/// directory `subdirectory` below the project root.
fn git_submodule_update(subdirectory: Vec<String>, path: Option<&str>) -> (res: Invocation)
    ensures
        res.program@ == "git"@,
        res.subdirectory.deep_view() == subdirectory.deep_view(),
        res.rustflags is None,
        res.args.deep_view() == seq!["submodule"@, "update"@, "--init"@, "--depth"@, "1"@] + (
        match path {
            Some(p) => seq!["--"@, p@],
            None => Seq::<Seq<char>>::empty(),
        }),
{
    let mut args: Vec<String> = Vec::new();
    push_arg(&mut args, "submodule");
    push_arg(&mut args, "update");
    push_arg(&mut args, "--init");
    push_arg(&mut args, "--depth");
    push_arg(&mut args, "1");
    let ghost middle = args.deep_view();
    if let Some(p) = path {
        push_arg(&mut args, "--");
        push_arg(&mut args, p);
    }
    assert(args.deep_view() =~= seq!["submodule"@, "update"@, "--init"@, "--depth"@, "1"@] + (
    match path {
        Some(p) => seq!["--"@, p@],
        None => Seq::<Seq<char>>::empty(),
    }));
    Invocation { program: String::from_str("git"), subdirectory, rustflags: None, args }
}

/// The commands of the `init` task: fetch the grammar submodule and, with the corpus, the
/// corpus submodule and the submodules inside it.
pub fn init_invocations(with_corpus: bool) -> (res: Vec<Invocation>)
    ensures
        res@.len() == (if with_corpus {
            3int
        } else {
            1int
        }),
        res@[0].program@ == "git"@,
        res@[0].subdirectory.deep_view() == Seq::<Seq<char>>::empty(),
        res@[0].args.deep_view() == seq![
            "submodule"@,
            "update"@,
            "--init"@,
            "--depth"@,
            "1"@,
            "--"@,
            "vendor/tree-sitter-wasm"@,
        ],
        with_corpus ==> res@[1].program@ == "git"@ && res@[1].subdirectory.deep_view()
            == Seq::<Seq<char>>::empty() && res@[1].args.deep_view() == seq![
            "submodule"@,
            "update"@,
            "--init"@,
            "--depth"@,
            "1"@,
            "--"@,
            "vendor/corpus"@,
        ],
        with_corpus ==> res@[2].program@ == "git"@ && res@[2].subdirectory.deep_view() == seq![
            "vendor"@,
            "corpus"@,
        ] && res@[2].args.deep_view() == seq![
            "submodule"@,
            "update"@,
            "--init"@,
            "--depth"@,
            "1"@,
        ],
        forall|i: int| 0 <= i < res@.len() ==> (#[trigger] res@[i]).rustflags is None,
{
    let mut commands: Vec<Invocation> = Vec::new();
    let root: Vec<String> = Vec::new();
    assert(root.deep_view() =~= Seq::<Seq<char>>::empty());
    let grammar = git_submodule_update(root, Some("vendor/tree-sitter-wasm"));
    assert(grammar.args.deep_view() =~= seq![
        "submodule"@,
        "update"@,
        "--init"@,
        "--depth"@,
        "1"@,
        "--"@,
        "vendor/tree-sitter-wasm"@,
    ]);
    commands.push(grammar);
    if with_corpus {
        let root: Vec<String> = Vec::new();
        assert(root.deep_view() =~= Seq::<Seq<char>>::empty());
        let corpus = git_submodule_update(root, Some("vendor/corpus"));
        assert(corpus.args.deep_view() =~= seq![
            "submodule"@,
            "update"@,
            "--init"@,
            "--depth"@,
            "1"@,
            "--"@,
            "vendor/corpus"@,
        ]);
        commands.push(corpus);
        let mut path: Vec<String> = Vec::new();
        push_arg(&mut path, "vendor");
        push_arg(&mut path, "corpus");
        assert(path.deep_view() =~= seq!["vendor"@, "corpus"@]);
        let nested = git_submodule_update(path, None);
        assert(nested.args.deep_view() =~= seq![
            "submodule"@,
            "update"@,
            "--init"@,
            "--depth"@,
            "1"@,
        ]);
        commands.push(nested);
    }
    commands
}

/// The tree-sitter grammars whose parsers the runner regenerates, in order.
#[derive(Clone, Copy, Debug, PartialEq, Eq, Structural)]
pub enum Grammar {
    Wast,
    Wat,
}

/// The name of a grammar's directory.
pub open spec fn grammar_dir(grammar: Grammar) -> Seq<char> {
    match grammar {
        Grammar::Wast => "wast"@,
        Grammar::Wat => "wat"@,
    }
}

/// The name of `grammar`'s directory.
pub fn grammar_name(grammar: Grammar) -> (res: &'static str)
    ensures
        res@ == grammar_dir(grammar),
{
    match grammar {
        Grammar::Wast => "wast",
        Grammar::Wat => "wat",
    }
}

/// Where the regeneration of the parsers stands.
#[derive(Clone, Copy, Debug, PartialEq, Eq, Structural)]
pub enum RebuildState {
    /// Nothing was run yet.
    Start,
    /// The tree-sitter command-line tool was asked for its help.
    Probing,
    /// The tool's packages were installed.
    Installing,
    /// The parser of the grammar was generated.
    Generating(Grammar),
    /// Every parser was generated.
    Finished,
    /// Generating the parser of the grammar failed.
    Failed(Grammar),
}

/// What the runner does next to regenerate the parsers.
#[derive(Clone, Copy, Debug, PartialEq, Eq, Structural)]
pub enum RebuildAction {
    /// Run the tool with `--help` to learn whether it is installed.
    Probe,
    /// Install the tool's packages with `npm ci`.
    Install,
    /// Generate the parser of the grammar.
    Generate(Grammar),
    /// Stop: every parser was generated.
    Finish,
    /// Stop: generating the parser of the grammar failed.
    Fail(Grammar),
}

/// The next state and action from `state`, where `last_ok` tells whether the last command
/// run succeeded: probe the tool; install its packages only when the probe failed, whatever
/// the installation gives; then generate the `.wast` parser and the `.wat` parser, stopping
/// at the first that fails.
pub open spec fn rebuild_next(state: RebuildState, last_ok: bool) -> (RebuildState, RebuildAction) {
    match state {
        RebuildState::Start => (RebuildState::Probing, RebuildAction::Probe),
        RebuildState::Probing => if last_ok {
            (RebuildState::Generating(Grammar::Wast), RebuildAction::Generate(Grammar::Wast))
        } else {
            (RebuildState::Installing, RebuildAction::Install)
        },
        RebuildState::Installing => (
            RebuildState::Generating(Grammar::Wast),
            RebuildAction::Generate(Grammar::Wast),
        ),
        RebuildState::Generating(g) => if !last_ok {
            (RebuildState::Failed(g), RebuildAction::Fail(g))
        } else {
            match g {
                Grammar::Wast => (
                    RebuildState::Generating(Grammar::Wat),
                    RebuildAction::Generate(Grammar::Wat),
                ),
                Grammar::Wat => (RebuildState::Finished, RebuildAction::Finish),
            }
        },
        RebuildState::Finished => (RebuildState::Finished, RebuildAction::Finish),
        RebuildState::Failed(g) => (RebuildState::Failed(g), RebuildAction::Fail(g)),
    }
}

/// One step of the regeneration of the parsers.
pub fn rebuild_step(state: RebuildState, last_ok: bool) -> (res: (RebuildState, RebuildAction))
    ensures
        res == rebuild_next(state, last_ok),
{
    match state {
        RebuildState::Start => (RebuildState::Probing, RebuildAction::Probe),
        RebuildState::Probing => if last_ok {
            (RebuildState::Generating(Grammar::Wast), RebuildAction::Generate(Grammar::Wast))
        } else {
            (RebuildState::Installing, RebuildAction::Install)
        },
        RebuildState::Installing => (
            RebuildState::Generating(Grammar::Wast),
            RebuildAction::Generate(Grammar::Wast),
        ),
        RebuildState::Generating(g) => if !last_ok {
            (RebuildState::Failed(g), RebuildAction::Fail(g))
        } else {
            match g {
                Grammar::Wast => (
                    RebuildState::Generating(Grammar::Wat),
                    RebuildAction::Generate(Grammar::Wat),
                ),
                Grammar::Wat => (RebuildState::Finished, RebuildAction::Finish),
            }
        },
        RebuildState::Finished => (RebuildState::Finished, RebuildAction::Finish),
        RebuildState::Failed(g) => (RebuildState::Failed(g), RebuildAction::Fail(g)),
    }
}

/// When every command succeeds, the regeneration probes the tool, generates the `.wast`
/// parser, then the `.wat` parser, and finishes, without installing anything.
pub proof fn law_rebuild_without_failures()
    ensures
        rebuild_next(RebuildState::Start, true).1 == RebuildAction::Probe,
        rebuild_next(rebuild_next(RebuildState::Start, true).0, true).1 == RebuildAction::Generate(
            Grammar::Wast,
        ),
        rebuild_next(RebuildState::Generating(Grammar::Wast), true).1 == RebuildAction::Generate(
            Grammar::Wat,
        ),
        rebuild_next(RebuildState::Generating(Grammar::Wat), true) == (
            RebuildState::Finished,
            RebuildAction::Finish,
        ),
{
}

} // verus!
