use codo::args::{arg_passed, arg_value, split_args};

#[test]
fn splits_registered_flag_with_value_before_command() {
    let args: Vec<String> = vec!["-i", "ubuntu", "-b", "echo", "hi"]
        .into_iter()
        .map(|s| s.to_string())
        .collect();
    let takers: Vec<String> = vec!["-i".to_string(), "--image".to_string()];
    let r = split_args(&args, &takers);
    assert_eq!(r.wrapper_tokens, vec!["-i", "ubuntu", "-b"]);
    assert_eq!(r.inner_command, vec!["echo", "hi"]);
    assert_eq!(r.split_index, 3);
}

#[test]
fn keeps_dash_tokens_after_command_start() {
    let args: Vec<String> = vec!["run", "-i", "x"].into_iter().map(|s| s.to_string()).collect();
    let takers: Vec<String> = vec!["-i".to_string(), "--image".to_string()];
    let r = split_args(&args, &takers);
    assert!(r.wrapper_tokens.is_empty());
    assert_eq!(r.inner_command, vec!["run", "-i", "x"]);
    assert_eq!(r.split_index, 0);
}

#[test]
fn concatenation_restores_arguments() {
    let args: Vec<String> = vec!["--image", "fedora", "-b", "ls", "-la", "dir"]
        .into_iter()
        .map(|s| s.to_string())
        .collect();
    let takers: Vec<String> = vec!["-i".to_string(), "--image".to_string()];
    let r = split_args(&args, &takers);
    let mut rebuilt = r.wrapper_tokens.clone();
    rebuilt.extend(r.inner_command.clone());
    assert_eq!(rebuilt, args);
}

#[test]
fn empty_arguments_split_into_empty_halves() {
    let args: Vec<String> = Vec::new();
    let takers: Vec<String> = vec!["-i".to_string()];
    let r = split_args(&args, &takers);
    assert!(r.wrapper_tokens.is_empty());
    assert!(r.inner_command.is_empty());
    assert_eq!(r.split_index, 0);
}

#[test]
fn trailing_value_taking_flag_consumes_nothing() {
    let args: Vec<String> = vec!["-i".to_string()];
    let takers: Vec<String> = vec!["-i".to_string()];
    let r = split_args(&args, &takers);
    assert_eq!(r.wrapper_tokens, vec!["-i"]);
    assert!(r.inner_command.is_empty());
}

#[test]
fn owed_value_is_consumed_even_when_it_looks_like_a_flag() {
    let args: Vec<String> = vec!["-i", "-b", "run"].into_iter().map(|s| s.to_string()).collect();
    let takers: Vec<String> = vec!["-i".to_string()];
    let r = split_args(&args, &takers);
    assert_eq!(r.wrapper_tokens, vec!["-i", "-b"]);
    assert_eq!(r.inner_command, vec!["run"]);
}

#[test]
fn empty_token_starts_the_inner_command() {
    let args: Vec<String> = vec!["".to_string(), "-b".to_string()];
    let takers: Vec<String> = vec!["-i".to_string()];
    let r = split_args(&args, &takers);
    assert!(r.wrapper_tokens.is_empty());
    assert_eq!(r.inner_command, vec!["", "-b"]);
}

#[test]
fn arg_passed_honours_only_flags_before_the_command() {
    assert!(arg_passed(Some(2), 3));
    assert!(!arg_passed(Some(3), 3));
    assert!(!arg_passed(None, 5));
}

#[test]
fn arg_value_falls_back_to_the_default() {
    let v = "ubuntu".to_string();
    assert_eq!(arg_value(true, Some(&v), "fedora"), "ubuntu");
    assert_eq!(arg_value(false, Some(&v), "fedora"), "fedora");
    assert_eq!(arg_value(true, None, "fedora"), "fedora");
}
