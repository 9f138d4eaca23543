use wasm_lsp_server::xtask::{grammar_name, rebuild_step, Grammar, RebuildAction, RebuildState};
use wasm_lsp_server::xtask::{
    build_invocation, cargo, check_invocation, clippy_invocation, configure_runtime, doc_invocation,
    format_invocation, handle_unused, init_invocations, install_invocation, project_root, split_cargo_args,
    subcommand_from_name, tarpaulin_invocation, test_cli_invocation, test_invocation, udeps_invocation,
    Invocation, Subcommand,
};

fn strings(xs: &[&str]) -> Vec<String> {
    xs.iter().map(|s| String::from(*s)).collect()
}

fn assert_cargo(inv: &Invocation, deny_warnings: bool, args: &[&str]) {
    assert_eq!(inv.program, "cargo");
    assert!(inv.subdirectory.is_empty());
    assert_eq!(inv.rustflags, if deny_warnings { Some(String::from("-Dwarnings")) } else { None });
    assert_eq!(inv.args, strings(args));
}

const PACKAGES: [&str; 14] = [
    "--package",
    "xtask",
    "--package",
    "wasm-lsp-cli",
    "--package",
    "wasm-lsp-languages",
    "--package",
    "wasm-lsp-macros",
    "--package",
    "wasm-lsp-server",
    "--package",
    "wasm-lsp-syntax",
    "--package",
    "wasm-lsp-testing",
];

#[test]
fn subcommands_by_name() {
    assert_eq!(subcommand_from_name("build"), Ok(Subcommand::Build));
    assert_eq!(subcommand_from_name("test-cli"), Ok(Subcommand::TestCli));
    assert_eq!(subcommand_from_name("udeps"), Ok(Subcommand::Udeps));
    assert_eq!(subcommand_from_name("help"), Ok(Subcommand::Help));
    assert_eq!(subcommand_from_name("bogus"), Err(String::from("unknown subcommand: bogus")));
}

#[test]
fn cargo_arguments_follow_the_first_dash_dash() {
    let (own, rest) = split_cargo_args(strings(&["build", "--runtime", "tokio", "--", "--release", "--", "-v"]));
    assert_eq!(own, strings(&["build", "--runtime", "tokio"]));
    assert_eq!(rest, strings(&["--release", "--", "-v"]));
    let (own, rest) = split_cargo_args(strings(&["check"]));
    assert_eq!(own, strings(&["check"]));
    assert!(rest.is_empty());
    let (own, rest) = split_cargo_args(strings(&["test", "--"]));
    assert_eq!(own, strings(&["test"]));
    assert!(rest.is_empty());
}

#[test]
fn runtime_selects_features_and_toolchain() {
    let mut args = strings(&["--release"]);
    let toolchain = configure_runtime("build", Some(String::from("tokio")), &mut args);
    assert_eq!(toolchain, Ok(strings(&["+nightly"])));
    assert_eq!(args, strings(&["--release", "--no-default-features", "--features=wasm-lsp-cli/runtime-tokio"]));

    let mut args = vec![];
    let toolchain = configure_runtime("install", Some(String::from("smol")), &mut args);
    assert_eq!(toolchain, Ok(vec![]));
    assert_eq!(args, strings(&["--no-default-features", "--features=runtime-smol"]));

    let mut args = vec![];
    let toolchain = configure_runtime("udep", Some(String::from("async-std")), &mut args);
    assert_eq!(toolchain, Ok(strings(&["+nightly"])));
    assert_eq!(args, strings(&["--no-default-features", "--features=wasm-lsp-cli/runtime-async-std"]));

    let mut args = vec![];
    let toolchain = configure_runtime("install", Some(String::from("futures")), &mut args);
    assert_eq!(toolchain, Ok(vec![]));
    assert_eq!(args, strings(&["--no-default-features", "--features=runtime-futures"]));
}

#[test]
fn no_runtime_changes_nothing() {
    let mut args = strings(&["-v"]);
    assert_eq!(configure_runtime("check", None, &mut args), Ok(vec![]));
    assert_eq!(args, strings(&["-v"]));
}

#[test]
fn unknown_runtime_is_refused() {
    let mut args = strings(&["-v"]);
    let result = configure_runtime("check", Some(String::from("actix")), &mut args);
    assert_eq!(result, Err(String::from("unexpected runtime 'actix'")));
    assert_eq!(args, strings(&["-v"]));
}

#[test]
fn unused_arguments_are_refused() {
    assert_eq!(handle_unused(vec![]), Ok(()));
    assert_eq!(
        handle_unused(strings(&["--with-corpse", "x"])),
        Err(String::from("unrecognized arguments ' --with-corpse x'"))
    );
}

#[test]
fn cargo_program_and_project_root() {
    assert_eq!(cargo(), Ok(String::from("cargo")));
    assert_eq!(project_root("/work/wasm-language-server/xtask"), Some(String::from("/work/wasm-language-server")));
    assert_eq!(project_root("/"), None);
}

#[test]
fn build_command() {
    let inv = build_invocation(strings(&["+nightly"]), strings(&["--release"])).unwrap();
    assert_cargo(&inv, false, &["+nightly", "build", "--package", "wasm-lsp-cli", "--release"]);
}

#[test]
fn check_command_denies_warnings() {
    let inv = check_invocation(vec![], strings(&["-q"]), true).unwrap();
    let mut expected = vec!["check", "--all-targets"];
    expected.extend_from_slice(&PACKAGES);
    expected.extend_from_slice(&["--package", "wasm-lsp-fuzz", "-q"]);
    assert_cargo(&inv, true, &expected);
    let inv = check_invocation(strings(&["+nightly"]), vec![], false).unwrap();
    let mut expected = vec!["+nightly", "check", "--all-targets"];
    expected.extend_from_slice(&PACKAGES);
    assert_cargo(&inv, true, &expected);
}

#[test]
fn clippy_command() {
    let inv = clippy_invocation(strings(&["-v"]), false).unwrap();
    let mut expected = vec!["+nightly", "clippy", "--all-targets"];
    expected.extend_from_slice(&PACKAGES);
    expected.extend_from_slice(&["-v", "--", "-D", "warnings"]);
    assert_cargo(&inv, false, &expected);
}

#[test]
fn doc_and_format_commands() {
    assert_cargo(&doc_invocation(strings(&["--open"])).unwrap(), false, &["+nightly", "doc", "--open"]);
    assert_cargo(&format_invocation(vec![]).unwrap(), false, &["+nightly", "fmt", "--all"]);
}

#[test]
fn install_command_runs_in_the_cli_package() {
    let inv = install_invocation(vec![], strings(&["--force"])).unwrap();
    assert_eq!(inv.program, "cargo");
    assert_eq!(inv.subdirectory, strings(&["crates", "cli"]));
    assert_eq!(inv.rustflags, None);
    assert_eq!(inv.args, strings(&["install", "--path", ".", "--force"]));
}

#[test]
fn tarpaulin_command() {
    let inv = tarpaulin_invocation(vec![]).unwrap();
    assert_cargo(
        &inv,
        false,
        &[
            "+nightly",
            "tarpaulin",
            "--out",
            "Xml",
            "--packages",
            "xtask",
            "wasm-lsp-cli",
            "wasm-lsp-languages",
            "wasm-lsp-macros",
            "wasm-lsp-server",
            "wasm-lsp-syntax",
            "wasm-lsp-testing",
            "--exclude-files",
            "xtask",
            "crates/macros",
            "crates/server/src/bin",
            "crates/server/src/cli.rs",
            "crates/testing",
            "tests",
            "vendor",
            "**/stdio2.h",
            "**/string_fortified.h",
        ],
    );
}

#[test]
fn test_commands() {
    let inv = test_invocation(vec![], false).unwrap();
    assert_cargo(
        &inv,
        true,
        &[
            "test",
            "--examples",
            "--lib",
            "--tests",
            "--package",
            "wasm-lsp-languages",
            "--package",
            "wasm-lsp-server",
            "--package",
            "wasm-lsp-syntax",
            "--package",
            "wasm-lsp-testing",
        ],
    );
    let inv = test_cli_invocation(strings(&["+nightly"]), strings(&["x"])).unwrap();
    assert_cargo(&inv, true, &["+nightly", "test", "--bins", "--package", "wasm-lsp-cli", "x"]);
}

#[test]
fn udeps_command() {
    let inv = udeps_invocation(vec![], true).unwrap();
    let mut expected = vec!["+nightly", "udeps", "--all-targets"];
    expected.extend_from_slice(&PACKAGES);
    expected.extend_from_slice(&["--package", "wasm-lsp-fuzz"]);
    assert_cargo(&inv, false, &expected);
}

#[test]
fn init_commands() {
    let only_grammar = init_invocations(false);
    assert_eq!(only_grammar.len(), 1);
    assert_eq!(only_grammar[0].program, "git");
    assert_eq!(
        only_grammar[0].args,
        strings(&["submodule", "update", "--init", "--depth", "1", "--", "vendor/tree-sitter-wasm"])
    );
    let all = init_invocations(true);
    assert_eq!(all.len(), 3);
    assert_eq!(all[1].args, strings(&["submodule", "update", "--init", "--depth", "1", "--", "vendor/corpus"]));
    assert!(all[1].subdirectory.is_empty());
    assert_eq!(all[2].args, strings(&["submodule", "update", "--init", "--depth", "1"]));
    assert_eq!(all[2].subdirectory, strings(&["vendor", "corpus"]));
}

#[test]
fn project_root_of_plain_relative_paths() {
    assert_eq!(project_root("work/wasm-language-server/xtask"), Some(String::from("work/wasm-language-server")));
    assert_eq!(project_root("xtask"), Some(String::new()));
}

fn components(p: &str) -> Vec<String> {
    std::path::Path::new(p).components().map(|c| c.as_os_str().to_string_lossy().into_owned()).collect()
}

#[test]
fn project_root_drops_the_last_component_of_any_path() {
    let root = project_root("/work/./wasm-language-server//xtask/").unwrap();
    assert_eq!(components(&root), vec!["/", "work", "wasm-language-server"]);
    let root = project_root("./xtask").unwrap();
    assert_eq!(components(&root), vec!["."]);
    assert_eq!(project_root("."), Some(String::new()));
    assert_eq!(project_root(""), None);
    assert_eq!(project_root("/."), None);
}

#[test]
fn parser_regeneration_steps() {
    let (s, a) = rebuild_step(RebuildState::Start, true);
    assert_eq!(a, RebuildAction::Probe);
    let (s1, a1) = rebuild_step(s, false);
    assert_eq!(a1, RebuildAction::Install);
    let (s2, a2) = rebuild_step(s1, false);
    assert_eq!(a2, RebuildAction::Generate(Grammar::Wast));
    let (s3, a3) = rebuild_step(s2, true);
    assert_eq!(a3, RebuildAction::Generate(Grammar::Wat));
    let (s4, a4) = rebuild_step(s3, true);
    assert_eq!((s4, a4), (RebuildState::Finished, RebuildAction::Finish));
    let (_, fail) = rebuild_step(RebuildState::Generating(Grammar::Wat), false);
    assert_eq!(fail, RebuildAction::Fail(Grammar::Wat));
    let (_, skip) = rebuild_step(RebuildState::Probing, true);
    assert_eq!(skip, RebuildAction::Generate(Grammar::Wast));
    assert_eq!(grammar_name(Grammar::Wast), "wast");
    assert_eq!(grammar_name(Grammar::Wat), "wat");
}
