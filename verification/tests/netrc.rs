use wandb_ft::error::ApiError;
use wandb_ft::netrc::{api_key_from_netrc, missing_netrc_path_error, netrc_api_key, netrc_path, split_tokens};

fn key(s: &str) -> Option<String> {
    netrc_api_key(s)
}

#[test]
fn password_of_the_wandb_machine() {
    assert_eq!(
        key("machine api.wandb.ai\n  login user\n  password secret123\n"),
        Some("secret123".to_string())
    );
}

#[test]
fn other_machines_are_skipped() {
    assert_eq!(
        key("machine example.com login a password nope\nmachine api.wandb.ai login u password k"),
        Some("k".to_string())
    );
}

#[test]
fn default_entry_is_a_catch_all() {
    assert_eq!(key("default login a password d"), Some("d".to_string()));
    assert_eq!(
        key("machine example.com password x default password d"),
        Some("d".to_string())
    );
}

#[test]
fn first_matching_password_wins() {
    assert_eq!(
        key("machine api.wandb.ai password first\nmachine api.wandb.ai password second"),
        Some("first".to_string())
    );
}

#[test]
fn missing_or_unselected_passwords_give_none() {
    assert_eq!(key(""), None);
    assert_eq!(key("machine api.wandb.ai login u"), None);
    assert_eq!(key("machine api.wandb.ai password"), None);
    assert_eq!(key("password early machine api.wandb.ai"), None);
    assert_eq!(key("machine"), None);
    assert_eq!(key("machine api.wandb.ai.evil password x"), None);
}

#[test]
fn a_login_value_named_password_is_skipped() {
    assert_eq!(
        key("machine api.wandb.ai login password password real"),
        Some("real".to_string())
    );
}

#[test]
fn tokens_split_on_unicode_white_space() {
    let t = split_tokens("  a\u{3000}bc\t\nd  ");
    let s: Vec<String> = t.iter().map(|v| v.iter().collect()).collect();
    assert_eq!(s, vec!["a", "bc", "d"]);
    assert_eq!(
        key("machine\u{2003}api.wandb.ai\u{a0}password\u{85}k2"),
        Some("k2".to_string())
    );
}

#[test]
fn netrc_path_prefers_a_non_empty_netrc_variable() {
    assert_eq!(
        netrc_path(Some("/etc/my_netrc".into()), Some("/home/u".into())),
        Some("/etc/my_netrc".to_string())
    );
    assert_eq!(
        netrc_path(Some("".into()), Some("/home/u".into())),
        Some("/home/u/.netrc".to_string())
    );
    assert_eq!(netrc_path(None, Some("/home/u/".into())), Some("/home/u/.netrc".to_string()));
    assert_eq!(netrc_path(None, Some("".into())), Some(".netrc".to_string()));
    assert_eq!(netrc_path(None, None), None);
}

#[test]
fn api_key_errors_name_the_file() {
    match api_key_from_netrc("/h/.netrc", Err("No such file".into())) {
        Err(ApiError::MissingApiKey(m)) => assert_eq!(m, "could not read /h/.netrc: No such file"),
        _ => panic!("expected a missing key"),
    }
    match api_key_from_netrc("/h/.netrc", Ok("machine other password x".into())) {
        Err(ApiError::MissingApiKey(m)) => {
            assert_eq!(m, "no password for machine `api.wandb.ai` found in /h/.netrc")
        }
        _ => panic!("expected a missing key"),
    }
    match api_key_from_netrc("/h/.netrc", Ok("machine api.wandb.ai password abc".into())) {
        Ok(k) => assert_eq!(k, "abc"),
        _ => panic!("expected a key"),
    }
    match missing_netrc_path_error() {
        ApiError::MissingApiKey(m) => assert_eq!(m, "could not determine netrc path"),
        _ => panic!("expected a missing key"),
    }
}
