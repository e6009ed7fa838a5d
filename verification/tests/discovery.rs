use discord_ipc::discovery::{
    base_directory, candidates, env_keys, pipe_candidate, posix_candidate, Platform,
};

fn set(value: &str) -> Option<String> {
    Some(value.to_string())
}

#[test]
fn env_keys_are_in_order_of_preference() {
    assert_eq!(env_keys(), ["XDG_RUNTIME_DIR", "TMPDIR", "TMP"]);
}

#[test]
fn base_directory_is_first_value_that_is_set() {
    assert_eq!(base_directory(&[set("/run/user/1000"), set("/tmp"), set("/t")]), "/run/user/1000");
    assert_eq!(base_directory(&[None, set("/var/tmp"), set("/t")]), "/var/tmp");
    assert_eq!(base_directory(&[None, None, set("/t")]), "/t");
}

#[test]
fn base_directory_skips_empty_values() {
    assert_eq!(base_directory(&[set(""), set("/tmp"), None]), "/tmp");
    assert_eq!(base_directory(&[set(""), None, set("/t")]), "/t");
}

#[test]
fn base_directory_is_empty_when_nothing_is_set() {
    assert_eq!(base_directory(&[None, None, None]), "");
    assert_eq!(base_directory(&[set(""), set(""), set("")]), "");
    assert_eq!(base_directory(&[]), "");
}

#[test]
fn posix_candidate_joins_base_and_name() {
    assert_eq!(posix_candidate("/run/user/1000"), "/run/user/1000/discord-ipc-0");
    assert_eq!(posix_candidate("/tmp/"), "/tmp/discord-ipc-0");
    assert_eq!(posix_candidate("/"), "/discord-ipc-0");
    assert_eq!(posix_candidate("rel/ative"), "rel/ative/discord-ipc-0");
    assert_eq!(posix_candidate("/données"), "/données/discord-ipc-0");
}

#[test]
fn posix_candidate_under_empty_base_is_the_bare_name() {
    assert_eq!(posix_candidate(""), "discord-ipc-0");
}

#[test]
fn posix_candidate_agrees_with_path_join() {
    for base in ["", "/", "/tmp", "/tmp/", "a", "a/b/", "/run/user/1000"] {
        let expected = std::path::PathBuf::from(base).join("discord-ipc-0");
        assert_eq!(std::path::PathBuf::from(posix_candidate(base)), expected);
        assert_eq!(posix_candidate(base), expected.to_str().unwrap());
    }
}

#[test]
fn pipe_candidate_names_each_pipe() {
    assert_eq!(pipe_candidate(0), r"\\.\pipe\discord-ipc-0");
    assert_eq!(pipe_candidate(5), r"\\.\pipe\discord-ipc-5");
    assert_eq!(pipe_candidate(9), r"\\.\pipe\discord-ipc-9");
}

#[test]
fn posix_has_one_candidate() {
    assert_eq!(candidates(Platform::Posix, "/tmp"), vec!["/tmp/discord-ipc-0".to_string()]);
    assert_eq!(candidates(Platform::Posix, ""), vec!["discord-ipc-0".to_string()]);
}

#[test]
fn windows_has_ten_candidates_in_ascending_order() {
    let expected: Vec<String> = (0..10).map(|i| format!(r"\\.\pipe\discord-ipc-{}", i)).collect();
    assert_eq!(candidates(Platform::Windows, ""), expected);
    assert_eq!(candidates(Platform::Windows, "/ignored"), expected);
}

#[test]
fn discovery_is_repeatable() {
    let env = [None, set("/tmp"), set("/other")];
    let first = candidates(Platform::Posix, &base_directory(&env));
    let second = candidates(Platform::Posix, &base_directory(&env));
    assert_eq!(first, second);
    assert_eq!(first, vec!["/tmp/discord-ipc-0".to_string()]);
}
