use codex_switcher::codex_config::{
    config_place, edit_rc_file, get_codex_fast_mode, set_codex_config_base_url,
    set_codex_fast_mode, set_proxy_env,
};

#[test]
fn the_fast_mode_is_switched() {
    let (text, report) = set_codex_fast_mode(Some("model = \"x\"\n[a]\nb = 1"), true).unwrap();
    assert_eq!(text, "profile = \"fast\"\nmodel = \"x\"\n[a]\nb = 1\n");
    assert!(report.starts_with("Fast mode enabled"));
    assert!(get_codex_fast_mode(Some(&text)));
    let (text, report) = set_codex_fast_mode(Some(&text), false).unwrap();
    assert_eq!(text, "model = \"x\"\n[a]\nb = 1\n");
    assert_eq!(report, "Fast mode disabled. Restart Codex to apply.");
    assert!(!get_codex_fast_mode(Some(&text)));
    let (text, _) = set_codex_fast_mode(Some("a\r\n  profile=\"slow\"\n"), true).unwrap();
    assert_eq!(text, "a\nprofile = \"fast\"\n");
    let (text, _) = set_codex_fast_mode(Some("[tools]\nprofile = \"dev\"\n"), false).unwrap();
    assert_eq!(text, "[tools]\nprofile = \"dev\"\n");
    let (text, _) = set_codex_fast_mode(Some("[tools]\nprofile = \"dev\"\n"), true).unwrap();
    assert_eq!(text, "profile = \"fast\"\n[tools]\nprofile = \"dev\"\n");
    assert!(get_codex_fast_mode(Some(&text)));
    let (text, _) = set_codex_fast_mode(Some(""), false).unwrap();
    assert_eq!(text, "\n");
    assert_eq!(
        set_codex_fast_mode(None, true).unwrap_err(),
        "~/.codex/config.toml does not exist"
    );
}

#[test]
fn the_fast_mode_is_read() {
    assert!(!get_codex_fast_mode(None));
    assert!(!get_codex_fast_mode(Some("")));
    assert!(!get_codex_fast_mode(Some("profile = \"slow\"\nprofile = \"fast\"")));
    assert!(get_codex_fast_mode(Some("[tools]\nprofile = \"fast\"")));
    assert!(!get_codex_fast_mode(Some("profile = \"slow\"\n[tools]\nprofile = \"fast\"")));
    assert!(!get_codex_fast_mode(Some("[tools]\nprofile = \"dev\"\n[b]\nprofile = \"fast\"")));
    let (text, _) = set_codex_fast_mode(Some("[tools]\nprofile = \"fast\"\n"), false).unwrap();
    assert_eq!(text, "[tools]\nprofile = \"fast\"\n");
    assert!(get_codex_fast_mode(Some(&text)));
    assert!(get_codex_fast_mode(Some("profiles\nprofile = \"fast\"")));
}

#[test]
fn the_address_is_written() {
    let url = "http://localhost:18080/v1";
    assert_eq!(
        set_codex_config_base_url(None, Some(url)).as_deref(),
        Some("openai_base_url = \"http://localhost:18080/v1\"\n")
    );
    assert_eq!(set_codex_config_base_url(None, None), None);
    assert_eq!(
        set_codex_config_base_url(Some("a = 1\n[s]\nopenai_base_url = \"in\"\n"), Some(url)).as_deref(),
        Some("a = 1\nopenai_base_url = \"http://localhost:18080/v1\"\n[s]\nopenai_base_url = \"in\"\n")
    );
    assert_eq!(
        set_codex_config_base_url(Some("a = 1"), Some(url)).as_deref(),
        Some("a = 1\nopenai_base_url = \"http://localhost:18080/v1\"\n")
    );
    assert_eq!(
        set_codex_config_base_url(Some("openai_base_url=\"x\"\nb"), Some(url)).as_deref(),
        Some("openai_base_url = \"http://localhost:18080/v1\"\nb\n")
    );
    assert_eq!(
        set_codex_config_base_url(Some("openai_base_url=\"x\"\nb\n"), None).as_deref(),
        Some("b\n")
    );
}

#[test]
fn the_shell_is_told() {
    let line = "export OPENAI_BASE_URL=http://localhost:18080/v1 # codex-switcher-proxy\n";
    assert_eq!(edit_rc_file("alias a=b\n", 18080, true), format!("alias a=b\n{}", line));
    assert_eq!(edit_rc_file("", 18080, true), format!("\n{}", line));
    let twice = edit_rc_file(&edit_rc_file("x\n", 1, true), 18080, true);
    assert_eq!(twice, format!("x\n{}", line));
    assert_eq!(edit_rc_file(&twice, 18080, false), "x");
}

#[test]
fn what_was_done_is_reported() {
    let places = vec![
        ".zshrc".to_string(),
        config_place(&Ok(())),
        config_place(&Err("full".to_string())),
    ];
    assert_eq!(
        set_proxy_env(true, &places),
        "Set OPENAI_BASE_URL (.zshrc, config.toml, config.toml(failed: full)).\nTerminal: effective in new window\nCodex App: effective after restart"
    );
    assert!(set_proxy_env(false, &vec![]).starts_with("Removed OPENAI_BASE_URL ()."));
}
