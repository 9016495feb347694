use adb_tools::command::{AdbStep, Outcome};
use adb_tools::devices::list_devices;
use adb_tools::ops::{
    clear_app_data, clear_log, connect, disconnect, install_apk, mdns_pairing_address,
    open_backdoor, pair, resolve_pids, restart_app, screencap_png, uninstall_app,
};

fn args(v: &[&str]) -> Vec<String> {
    v.iter().map(|s| s.to_string()).collect()
}

fn exited(success: bool, stdout: &str, stderr: &str) -> Outcome {
    Outcome::Exited {
        success,
        stdout: stdout.as_bytes().to_vec(),
        stderr: stderr.as_bytes().to_vec(),
    }
}

#[test]
fn pair_asks_for_adb_pair_with_host_and_port() {
    let step = pair("192.168.1.2", "37000", "123456", &vec![]);
    assert_eq!(step, AdbStep::Run(args(&["pair", "192.168.1.2:37000", "123456"])));
}

#[test]
fn pair_answers_with_trimmed_stdout() {
    let h = vec![exited(true, "  Successfully paired to 192.168.1.2:37000\n", "ignored")];
    let step = pair("192.168.1.2", "37000", "123456", &h);
    assert_eq!(step, AdbStep::Done(Ok("Successfully paired to 192.168.1.2:37000".to_string())));
}

#[test]
fn capture_falls_back_to_stderr_on_success() {
    let h = vec![exited(true, " \n", "warning: something\n")];
    assert_eq!(connect("10.0.0.1", "5555", &h), AdbStep::Done(Ok("warning: something".to_string())));
}

#[test]
fn capture_prefers_stderr_on_failure() {
    let h = vec![exited(false, "out", "failed to connect\n")];
    assert_eq!(connect("10.0.0.1", "5555", &h), AdbStep::Done(Err("failed to connect".to_string())));
    let h = vec![exited(false, "only stdout\n", "")];
    assert_eq!(connect("10.0.0.1", "5555", &h), AdbStep::Done(Err("only stdout".to_string())));
}

#[test]
fn capture_reports_a_command_that_did_not_start() {
    let h = vec![Outcome::NotStarted("No such file or directory".to_string())];
    assert_eq!(
        disconnect("10.0.0.1:5555", &h),
        AdbStep::Done(Err("无法执行 adb：No such file or directory".to_string()))
    );
}

#[test]
fn connect_and_disconnect_arguments() {
    assert_eq!(connect("10.0.0.1", "5555", &vec![]), AdbStep::Run(args(&["connect", "10.0.0.1:5555"])));
    assert_eq!(disconnect("10.0.0.1:5555", &vec![]), AdbStep::Run(args(&["disconnect", "10.0.0.1:5555"])));
}

#[test]
fn list_devices_asks_for_the_long_listing() {
    assert_eq!(list_devices(&vec![]), AdbStep::Run(args(&["devices", "-l"])));
}

#[test]
fn list_devices_errors() {
    let h = vec![Outcome::NotStarted("not found".to_string())];
    assert_eq!(
        list_devices(&h),
        AdbStep::Done(Err("无法执行 adb，请确认已安装 Android Platform-Tools：not found".to_string()))
    );
    let h = vec![exited(false, "", "  \n")];
    assert_eq!(list_devices(&h), AdbStep::Done(Err("adb devices 执行失败".to_string())));
    let h = vec![exited(false, "", " daemon not running\n")];
    assert_eq!(list_devices(&h), AdbStep::Done(Err("daemon not running".to_string())));
}

#[test]
fn list_devices_parses_the_listing() {
    let text = "List of devices attached\n\
emulator-5554          device product:sdk_phone model:sdk_gphone64 device:emu64xa transport_id:1\n\
R58M123ABC             device usb:1-1 product:beyond1ltexx model:SM_G973F device:beyond1 transport_id:2\n\
\n\
192.168.1.5:5555       offline\n\n";
    let h = vec![exited(true, text, "")];
    match list_devices(&h) {
        AdbStep::Done(Ok(ds)) => {
            assert_eq!(ds.len(), 3);
            assert_eq!(ds[0].serial, "emulator-5554");
            assert_eq!(ds[0].state, "device");
            assert_eq!(ds[0].model, "sdk_gphone64");
            assert_eq!(ds[0].product, "sdk_phone");
            assert_eq!(ds[0].transport, "wifi");
            assert_eq!(ds[1].serial, "R58M123ABC");
            assert_eq!(ds[1].model, "SM_G973F");
            assert_eq!(ds[1].product, "beyond1ltexx");
            assert_eq!(ds[1].transport, "usb");
            assert_eq!(ds[2].serial, "192.168.1.5:5555");
            assert_eq!(ds[2].state, "offline");
            assert_eq!(ds[2].model, "");
            assert_eq!(ds[2].product, "");
            assert_eq!(ds[2].transport, "wifi");
        }
        other => panic!("unexpected {:?}", other),
    }
}

#[test]
fn list_devices_with_empty_output() {
    let h = vec![exited(true, "", "")];
    assert_eq!(list_devices(&h), AdbStep::Done(Ok(vec![])));
    let h = vec![exited(true, "List of devices attached\n\n", "")];
    assert_eq!(list_devices(&h), AdbStep::Done(Ok(vec![])));
}

#[test]
fn clear_log_addresses_the_device() {
    assert_eq!(clear_log(Some("emulator-5554"), &vec![]), AdbStep::Run(args(&["-s", "emulator-5554", "logcat", "-c"])));
    assert_eq!(clear_log(None, &vec![]), AdbStep::Run(args(&["logcat", "-c"])));
    assert_eq!(clear_log(None, &vec![exited(true, "x", "y")]), AdbStep::Done(Ok(())));
    assert_eq!(
        clear_log(None, &vec![exited(false, "x", " denied \n")]),
        AdbStep::Done(Err("denied".to_string()))
    );
}

#[test]
fn mdns_finds_the_pairing_service() {
    assert_eq!(mdns_pairing_address(&vec![]), AdbStep::Run(args(&["mdns", "services"])));
    let text = "List of discovered mdns services\n\
adb-R58M-abc\t_adb-tls-connect._tcp\t192.168.1.9:41234\n\
adbqr-00001234\t_adb-tls-pairing._tcp\t192.168.1.9:37123\n";
    let h = vec![exited(false, text, "")];
    assert_eq!(mdns_pairing_address(&h), AdbStep::Done(Ok(Some("192.168.1.9:37123".to_string()))));
    let h = vec![exited(true, "List of discovered mdns services\n", "")];
    assert_eq!(mdns_pairing_address(&h), AdbStep::Done(Ok(None)));
    let h = vec![exited(true, "x _adb-tls-pairing._tcp\n", "")];
    assert_eq!(mdns_pairing_address(&h), AdbStep::Done(Ok(None)));
    let h = vec![Outcome::NotStarted("e".to_string())];
    assert_eq!(mdns_pairing_address(&h), AdbStep::Done(Err("无法执行 adb mdns services：e".to_string())));
}

#[test]
fn resolve_pids_splits_the_ids() {
    assert_eq!(
        resolve_pids(Some("d1"), "com.example", &vec![]),
        AdbStep::Run(args(&["-s", "d1", "shell", "pidof", "com.example"]))
    );
    let h = vec![exited(true, "1234 5678\n", "")];
    assert_eq!(
        resolve_pids(None, "com.example", &h),
        AdbStep::Done(Ok(vec!["1234".to_string(), "5678".to_string()]))
    );
    let h = vec![exited(false, "  \n", "")];
    assert_eq!(resolve_pids(None, "com.example", &h), AdbStep::Done(Ok(vec![])));
}

#[test]
fn open_backdoor_starts_the_component() {
    assert_eq!(
        open_backdoor(None, "com.example", ".DebugActivity", &vec![]),
        AdbStep::Run(args(&["shell", "am", "start", "-n", "com.example/.DebugActivity"]))
    );
    let h = vec![exited(true, "Starting: Intent { cmp=com.example/.DebugActivity }\n", "")];
    assert_eq!(
        open_backdoor(None, "com.example", ".DebugActivity", &h),
        AdbStep::Done(Ok("Starting: Intent { cmp=com.example/.DebugActivity }".to_string()))
    );
}

#[test]
fn restart_app_stops_then_launches() {
    let d = Some("d1");
    assert_eq!(
        restart_app(d, "com.example", &vec![]),
        AdbStep::Run(args(&["-s", "d1", "shell", "am", "force-stop", "com.example"]))
    );
    let h = vec![exited(true, "", "")];
    assert_eq!(
        restart_app(d, "com.example", &h),
        AdbStep::Run(args(&[
            "-s", "d1", "shell", "monkey", "-p", "com.example", "-c",
            "android.intent.category.LAUNCHER", "1"
        ]))
    );
    let h = vec![exited(true, "", ""), exited(true, "Events injected: 1", "")];
    assert_eq!(restart_app(d, "com.example", &h), AdbStep::Done(Ok(())));
    let h = vec![exited(true, "", ""), exited(false, "", "monkey aborted\n")];
    assert_eq!(restart_app(d, "com.example", &h), AdbStep::Done(Err("monkey aborted".to_string())));
}

#[test]
fn restart_app_stops_at_a_failed_stop() {
    let h = vec![exited(false, "", " no device \n")];
    assert_eq!(restart_app(None, "com.example", &h), AdbStep::Done(Err("no device".to_string())));
    let h = vec![Outcome::NotStarted("gone".to_string())];
    assert_eq!(restart_app(None, "com.example", &h), AdbStep::Done(Err("无法执行 adb：gone".to_string())));
}

#[test]
fn screencap_returns_the_raw_bytes() {
    assert_eq!(screencap_png(None, &vec![]), AdbStep::Run(args(&["exec-out", "screencap", "-p"])));
    let png = vec![0x89u8, b'P', b'N', b'G', 0x0d, 0x0a, 0x1a, 0x0a, 0xff, 0x00];
    let h = vec![Outcome::Exited { success: true, stdout: png.clone(), stderr: vec![] }];
    assert_eq!(screencap_png(None, &h), AdbStep::Done(Ok(png)));
    let h = vec![exited(false, "", "")];
    assert_eq!(screencap_png(None, &h), AdbStep::Done(Err("截图失败".to_string())));
    let h = vec![exited(false, "", "error: device offline\n")];
    assert_eq!(screencap_png(None, &h), AdbStep::Done(Err("error: device offline".to_string())));
}

#[test]
fn install_clear_uninstall_arguments() {
    assert_eq!(
        install_apk(Some("d"), "/tmp/app.apk", &vec![]),
        AdbStep::Run(args(&["-s", "d", "install", "-r", "/tmp/app.apk"]))
    );
    assert_eq!(
        clear_app_data(None, "com.example", &vec![]),
        AdbStep::Run(args(&["shell", "pm", "clear", "com.example"]))
    );
    assert_eq!(
        uninstall_app(None, "com.example", &vec![]),
        AdbStep::Run(args(&["uninstall", "com.example"]))
    );
    let h = vec![exited(true, "Success\n", "")];
    assert_eq!(uninstall_app(None, "com.example", &h), AdbStep::Done(Ok("Success".to_string())));
    let h = vec![exited(false, "Failure [DELETE_FAILED_INTERNAL_ERROR]\n", "")];
    assert_eq!(
        clear_app_data(None, "com.example", &h),
        AdbStep::Done(Err("Failure [DELETE_FAILED_INTERNAL_ERROR]".to_string()))
    );
    let h = vec![exited(true, "Performing Streamed Install\nSuccess\n", "")];
    assert_eq!(
        install_apk(None, "/tmp/app.apk", &h),
        AdbStep::Done(Ok("Performing Streamed Install\nSuccess".to_string()))
    );
}

#[test]
fn output_is_decoded_lossily() {
    let h = vec![Outcome::Exited { success: true, stdout: vec![b'o', b'k', 0xff, b'!'], stderr: vec![] }];
    assert_eq!(pair("a", "1", "2", &h), AdbStep::Done(Ok("ok\u{FFFD}!".to_string())));
}
