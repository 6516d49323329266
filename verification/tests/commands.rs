use cargo_mobile::macos::{
    code_command, command_path_command, gradlew_command, open_file_with_command, open_in_xcode_command,
    replace_path_separator, xcode_project_command,
};

#[test]
fn code_command_runs_code() {
    assert_eq!(code_command().display(), "code");
}

#[test]
fn command_path_asks_the_shell() {
    assert_eq!(command_path_command("git").display(), "command -v git");
}

#[test]
fn gradlew_runs_the_project_wrapper() {
    assert_eq!(
        gradlew_command("/p/gen/android").display(),
        "/p/gen/android/gradlew --project-dir /p/gen/android"
    );
}

#[test]
fn xcode_and_open_commands() {
    assert_eq!(open_in_xcode_command("/p/gen/apple").display(), "xed /p/gen/apple");
    assert_eq!(
        open_file_with_command("Xcode", "/p/gen/apple", &vec![("DEVELOPER_DIR".to_string(), "/x".to_string())]).display(),
        "open -a Xcode /p/gen/apple"
    );
    assert_eq!(
        xcode_project_command("/p/gen/apple", &Vec::new()).display(),
        "open -a Xcode /p/gen/apple"
    );
}

#[test]
fn path_separator_is_kept() {
    assert_eq!(replace_path_separator("a/b".to_string()), "a/b");
}
