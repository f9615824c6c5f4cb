use codex_switcher::ide_control::{
    applescript_reply, detect_running_ides, detection_script, ide_configs, reload_ide,
    reload_ide_windows, reload_outcome, remove_quarantine,
};
use codex_switcher::json::{parse, Json};
use codex_switcher::manage::{kill_codex_processes, kill_report};
use codex_switcher::text::{
    concat3, contains, find_part, from_chars, join, lines, parse_i32, replace_once, show_i64,
    show_u64, split_whitespace, starts_with, strip_prefix, to_ascii_lowercase, to_chars, trim,
    trim_start_matches,
};

#[test]
fn texts_are_taken_apart() {
    assert_eq!(trim(" \t\u{3000}a b\r\n"), "a b");
    assert_eq!(trim(" \n"), "");
    assert_eq!(lines("a\r\nb\n\nc"), vec!["a", "b", "", "c"]);
    assert_eq!(lines("a\n"), vec!["a"]);
    assert!(lines("").is_empty());
    assert_eq!(lines("a\rb\r"), vec!["a\rb\r"]);
    assert_eq!(split_whitespace("  a \u{a0}b\n"), vec!["a", "b"]);
    assert_eq!(strip_prefix("/v1/x", "/v1"), Some("/x".to_string()));
    assert_eq!(strip_prefix("/v2", "/v1"), None);
    assert!(contains("abc", "bc") && contains("abc", "") && !contains("abc", "cb"));
    assert!(starts_with("abc", "ab") && !starts_with("a", "ab"));
    assert_eq!(trim_start_matches("data:data: x", "data:"), " x");
    let chars = to_chars("aéb");
    assert_eq!(chars, vec!['a', 'é', 'b']);
    assert_eq!(from_chars(&chars), "aéb");
    assert_eq!(find_part(&to_chars("aaab"), &to_chars("ab")), Some(2));
}

#[test]
fn texts_are_put_together() {
    let parts = vec!["a".to_string(), "b".to_string(), "c".to_string()];
    assert_eq!(join(&parts, ", "), "a, b, c");
    assert_eq!(join(&vec![], ", "), "");
    assert_eq!(concat3("a", "", "é"), "aé");
    assert_eq!(replace_once("aXbXc", "X", "--"), "a--bXc");
    assert_eq!(replace_once("abc", "X", "--"), "abc");
    assert_eq!(to_ascii_lowercase("HéLLO É"), "héllo É");
    assert_eq!(show_u64(0), "0");
    assert_eq!(show_u64(u64::MAX), "18446744073709551615");
    assert_eq!(show_i64(i64::MIN), "-9223372036854775808");
    assert_eq!(parse_i32("-0"), Some(0));
    assert_eq!(parse_i32("99999999999"), None);
}

#[test]
fn documents_are_read() {
    let j = parse("{\"a\":{\"b\":[1,2.5,null]},\"n\":-3,\"t\":true,\"big\":18446744073709551615}").unwrap();
    assert_eq!(j.get("n").unwrap().as_i64(), Some(-3));
    assert_eq!(j.get("t").unwrap().as_bool(), Some(true));
    assert_eq!(j.get("big").unwrap().as_i64(), None);
    assert!(j.get("x").is_none());
    match j.get("a").unwrap().get("b").unwrap() {
        Json::Array(list) => {
            assert_eq!(list.len(), 3);
            assert_eq!(list[1].as_i64(), None);
            assert!(matches!(list[1], Json::Number(ref n) if n.text == "2.5"));
            assert!(matches!(list[2], Json::Null));
        }
        _ => panic!("a list was written"),
    }
    assert_eq!(parse("{").unwrap_err(), "EOF while parsing an object at line 1 column 1");
    assert!(parse("[1] x").is_err());
}

#[test]
fn documents_are_changed_and_told_apart() {
    let mut j = parse("{\"a\":1,\"b\":2}").unwrap();
    let k = j.copy();
    assert!(j.same(&k));
    j.insert("a", Json::Str("x".to_string()));
    assert!(!j.same(&k));
    assert_eq!(j.get("a").unwrap().as_str(), Some("x"));
    assert_eq!(k.get("a").unwrap().as_i64(), Some(1));
    assert!(parse("{\"b\":2,\"a\":1}").unwrap().same(&k));
    assert!(!parse("[1,2]").unwrap().same(&parse("[2,1]").unwrap()));
}

#[test]
fn scripts_are_run_for_editors() {
    let configs = ide_configs();
    assert!(!configs.is_empty());
    assert!(detection_script(&configs[0].1).contains(&configs[0].1));
    let mut replies: Vec<Result<String, String>> =
        configs.iter().map(|_| Err("no".to_string())).collect();
    replies[0] = Ok("true\n".to_string());
    replies[1] = Ok("false\n".to_string());
    assert_eq!(detect_running_ides(&replies), vec![configs[0].0.clone()]);
    assert!(detect_running_ides(&vec![]).is_empty());

    assert!(reload_ide(&configs[0].0, true).is_ok());
    assert!(reload_ide("Notepad", true).unwrap_err().contains("Notepad"));
    assert_eq!(reload_outcome(Err("x".to_string())), Err("x".to_string()));
    let ides = vec!["A".to_string(), "B".to_string()];
    assert_eq!(
        reload_ide_windows(&ides, &vec![Err("x".to_string()), Ok(())]),
        vec!["B".to_string()]
    );
    assert!(remove_quarantine(Err("x".to_string())).is_err());
    assert_eq!(applescript_reply(true, b" ok \n", b""), Ok(" ok \n".to_string()));
    assert_eq!(
        applescript_reply(false, b"ok", b"bad\xff\n"),
        Err("AppleScript execution failed: bad\u{fffd}\n".to_string())
    );
    assert!(reload_outcome(Err("error 1002".to_string())).unwrap_err().starts_with("PERMISSION_DENIED"));
}

#[test]
fn killed_processes_are_reported() {
    assert_eq!(kill_codex_processes(b" 3\n"), "Terminated 3 codex processes");
    assert_eq!(kill_report("0"), "No running codex processes found");
    assert_eq!(kill_report("-2"), "No running codex processes found");
    assert_eq!(kill_report("12\n34"), "No running codex processes found");
    assert_eq!(kill_report("9999999999"), "No running codex processes found");
}

#[test]
fn documents_are_compared_by_value() {
    let same = |a: &str, b: &str| parse(a).unwrap().same(&parse(b).unwrap());
    assert!(same("-0.0", "0.0"));
    assert!(same("{\"a\":[1,-0.0],\"b\":null}", "{\"b\":null,\"a\":[1,0.0]}"));
    assert!(!same("0", "0.0"));
    assert!(!same("{\"a\":1}", "{\"a\":1,\"b\":2}"));
    assert!(!same("[1,2]", "[2,1]"));
}
