use adb_tools::apps::{parse_app_list, App};
use adb_tools::launch::{
    adb_binary_name, adb_path, binary_platform, bit_rate_arg, choose_binary_path,
    early_exit_error, launch_error, logcat_args, mirror_args, record_args, scrcpy_binary_name,
    scrcpy_env, scrcpy_path, scrcpy_server_path, Launch,
};
use adb_tools::pairing::{decimal_string, pairing_from_seed, pairing_seed};
use adb_tools::text::{chars_of, same_text, split_lines, split_words, trim_str};

fn args(v: &[&str]) -> Vec<String> {
    v.iter().map(|s| s.to_string()).collect()
}

fn app(name: &str, package: &str) -> App {
    App { name: name.to_string(), package: package.to_string() }
}

#[test]
fn pairing_of_seed_zero() {
    let p = pairing_from_seed(0);
    assert_eq!(p.code, "100000");
    assert_eq!(p.service_name, "adbqr-00000000");
    assert_eq!(p.payload, "WIFI:T:ADB;S:adbqr-00000000;P:100000;;");
}

#[test]
fn pairing_matches_the_formula() {
    for seed in [1u64, 899_999, 900_000, 0x0123_4567_89ab_cdef, u64::MAX, 1_700_000_000_123_456_789] {
        let p = pairing_from_seed(seed);
        let code = format!("{}", 100000 + (seed % 900000));
        let service = format!("adbqr-{:08x}", (seed >> 16) as u32);
        assert_eq!(p.code, code);
        assert_eq!(p.code.len(), 6);
        assert_eq!(p.service_name, service);
        assert_eq!(p.payload, format!("WIFI:T:ADB;S:{service};P:{code};;"));
    }
}

#[test]
fn pairing_seed_mixes_clock_and_pid() {
    let nanos: u128 = 1_700_000_000_123_456_789_012;
    let pid: u32 = 4242;
    assert_eq!(pairing_seed(nanos, pid), (nanos as u64) ^ ((pid as u64) << 32));
    assert_eq!(pairing_seed(0, 1), 1u64 << 32);
}

#[test]
fn decimal_digits() {
    assert_eq!(decimal_string(0), "0");
    assert_eq!(decimal_string(7), "7");
    assert_eq!(decimal_string(1234567890), "1234567890");
    assert_eq!(decimal_string(u64::MAX), u64::MAX.to_string());
}

#[test]
fn apps_from_projects() {
    let body = r#"{"projects":[
        {"id":"a","project_name":"Store A","app_name":"App A","package":"com.a"},
        {"package":""},
        {"name":"no package"},
        {"package":7},
        {"project_name":"Store B","package":"com.b"},
        {"name":"C","package":"com.c"},
        {"package":"com.d","app_name":3}
    ]}"#;
    assert_eq!(
        parse_app_list(body),
        Ok(vec![app("App A", "com.a"), app("Store B", "com.b"), app("C", "com.c"), app("com.d", "com.d")])
    );
}

#[test]
fn apps_from_apps_key() {
    let body = r#"{"apps":[{"name":"X","package":"com.x"}]}"#;
    assert_eq!(parse_app_list(body), Ok(vec![app("X", "com.x")]));
}

#[test]
fn apps_projects_must_be_an_array() {
    let body = r#"{"projects":5,"apps":[{"package":"com.x"}]}"#;
    assert_eq!(parse_app_list(body), Err("配置中缺少 projects/apps 数组".to_string()));
    assert_eq!(parse_app_list("[1,2]"), Err("配置中缺少 projects/apps 数组".to_string()));
    assert_eq!(parse_app_list("{}"), Err("配置中缺少 projects/apps 数组".to_string()));
}

#[test]
fn apps_invalid_json() {
    let e = parse_app_list("{not json").unwrap_err();
    let detail = serde_json::from_str::<serde_json::Value>("{not json").unwrap_err().to_string();
    assert_eq!(e, format!("JSON 解析失败：{detail}"));
}

#[test]
fn logcat_arguments() {
    assert_eq!(logcat_args(None, None), args(&["logcat", "-v", "threadtime"]));
    assert_eq!(
        logcat_args(Some("d"), Some("crash")),
        args(&["-s", "d", "logcat", "-v", "threadtime", "-b", "crash"])
    );
}

#[test]
fn scrcpy_arguments() {
    assert_eq!(bit_rate_arg(8), "8M");
    assert_eq!(
        record_args(Some("d"), "/tmp/r.mp4", 16),
        args(&["-s", "d", "--no-playback", "--record", "/tmp/r.mp4", "--video-bit-rate", "16M"])
    );
    assert_eq!(mirror_args(None, 4), args(&["--video-bit-rate", "4M", "--stay-awake"]));
}

#[test]
fn scrcpy_environment() {
    assert_eq!(scrcpy_env("/opt/adb", ""), vec![("ADB".to_string(), "/opt/adb".to_string())]);
    assert_eq!(
        scrcpy_env("adb", "/opt/scrcpy-server"),
        vec![
            ("ADB".to_string(), "adb".to_string()),
            ("SCRCPY_SERVER_PATH".to_string(), "/opt/scrcpy-server".to_string())
        ]
    );
}

#[test]
fn binary_choice_priority() {
    let env = Some("/custom/adb".to_string());
    let bundled = Some("/res/bin/macos/adb".to_string());
    assert_eq!(choose_binary_path(env.clone(), bundled.clone(), "adb"), "/custom/adb");
    assert_eq!(choose_binary_path(Some(String::new()), bundled.clone(), "adb"), "/res/bin/macos/adb");
    assert_eq!(choose_binary_path(None, bundled, "adb"), "/res/bin/macos/adb");
    assert_eq!(choose_binary_path(None, None, "adb"), "adb");
    assert_eq!(choose_binary_path(Some(String::new()), None, ""), "");
}

#[test]
fn binary_names_by_platform() {
    assert_eq!(binary_platform("windows"), "windows");
    assert_eq!(binary_platform("macos"), "macos");
    assert_eq!(binary_platform("linux"), "macos");
    assert_eq!(adb_binary_name("windows"), "adb.exe");
    assert_eq!(adb_binary_name("macos"), "adb");
    assert_eq!(scrcpy_binary_name("windows"), "scrcpy.exe");
    assert_eq!(scrcpy_binary_name("linux"), "scrcpy");
}

#[test]
fn configured_paths_and_defaults() {
    assert_eq!(adb_path(&None), "adb");
    assert_eq!(adb_path(&Some("/x/adb".to_string())), "/x/adb");
    assert_eq!(scrcpy_path(&None), "scrcpy");
    assert_eq!(scrcpy_server_path(&None), "");
    assert_eq!(scrcpy_server_path(&Some("/s".to_string())), "/s");
}

#[test]
fn launch_errors() {
    assert_eq!(launch_error(Launch::Logcat, "e"), "无法启动 logcat：e");
    assert_eq!(launch_error(Launch::Recording, "e"), "无法启动 scrcpy 录屏：e");
    assert_eq!(launch_error(Launch::Mirroring, "e"), "无法启动 scrcpy 投屏：e");
    assert_eq!(early_exit_error(&b" device offline \n".to_vec(), "exit status: 1"), "device offline");
    assert_eq!(
        early_exit_error(&vec![], "exit status: 1"),
        "scrcpy 录屏启动失败（exit=exit status: 1）"
    );
}

#[test]
fn text_primitives() {
    assert_eq!(trim_str(" \t a b \u{3000}\r\n"), "a b");
    assert_eq!(trim_str(trim_str("  x  ").as_str()), trim_str("  x  "));
    let words = split_words(&chars_of("  a  bc\td\n"));
    let words: Vec<String> = words.iter().map(|w| w.iter().collect()).collect();
    assert_eq!(words, vec!["a", "bc", "d"]);
    for text in ["a\r\nb\n", "\n\n", "", "x", "a\rb\r", "a\n\nb\n\n"] {
        let lines = split_lines(&chars_of(text));
        let lines: Vec<String> = lines.iter().map(|w| w.iter().collect()).collect();
        let expected: Vec<String> = text.lines().map(|s| s.to_string()).collect();
        assert_eq!(lines, expected, "lines of {text:?}");
    }
    assert!(same_text("abc", "abc"));
    assert!(!same_text("abc", "abd"));
    assert!(!same_text("abc", "ab"));
}
