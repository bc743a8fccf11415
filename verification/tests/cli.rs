use allelua::cli::{cli_error_text, run_action, usage_text, RunAction};

fn args(list: &[&str]) -> Vec<String> {
    list.iter().map(|s| s.to_string()).collect()
}

#[test]
fn run_without_file_is_an_error() {
    assert_eq!(run_action(&args(&["run"])), RunAction::NoFile);
    assert_eq!(run_action(&args(&[])), RunAction::NoFile);
}

#[test]
fn run_help_flags_show_usage() {
    assert_eq!(run_action(&args(&["run", "-h"])), RunAction::Usage);
    assert_eq!(run_action(&args(&["run", "--help"])), RunAction::Usage);
    assert_eq!(run_action(&args(&["run", "help", "x"])), RunAction::Usage);
}

#[test]
fn run_other_argument_is_the_file() {
    assert_eq!(run_action(&args(&["run", "main.lua", "a"])), RunAction::Run("main.lua".to_string()));
    assert_eq!(run_action(&args(&["run", "-help"])), RunAction::Run("-help".to_string()));
}

#[test]
fn run_texts() {
    assert_eq!(
        cli_error_text("no Lua file provided"),
        "Error: no Lua file provided\n\nUSAGE: allelua run [FLAGS...] FILE [ARGS...]\n\nRun 'allelua run -h' for more informations\n"
    );
    assert!(usage_text().starts_with("allelua run - Run a Lua file.\n"));
}
