use adb_tools::activity::{app_alarm, current_activity, parse_resumed_activity};
use adb_tools::command::{AdbStep, Outcome};
use adb_tools::device_info::{device_info, getprop, DeviceInfo};

fn args(v: &[&str]) -> Vec<String> {
    v.iter().map(|s| s.to_string()).collect()
}

fn out(stdout: &str) -> Outcome {
    Outcome::Exited { success: true, stdout: stdout.as_bytes().to_vec(), stderr: vec![] }
}

#[test]
fn resumed_activity_relative_name() {
    let line = "  mResumedActivity: ActivityRecord{8a1b2c3 u0 com.example.app/.MainActivity t42}";
    assert_eq!(
        parse_resumed_activity(line),
        Some(("com.example.app".to_string(), "com.example.app.MainActivity".to_string()))
    );
}

#[test]
fn resumed_activity_absolute_name() {
    let line = "ResumedActivity: ActivityRecord{1 u0 com.android.settings/com.android.settings.Settings t7};";
    assert_eq!(
        parse_resumed_activity(line),
        Some(("com.android.settings".to_string(), "com.android.settings.Settings".to_string()))
    );
}

#[test]
fn resumed_activity_skips_tokens_without_package() {
    assert_eq!(parse_resumed_activity("a/b /x y/ nodot/.A"), None);
    assert_eq!(
        parse_resumed_activity("{a/b} {com.x/.Y}"),
        Some(("com.x".to_string(), "com.x.Y".to_string()))
    );
    assert_eq!(parse_resumed_activity(""), None);
}

#[test]
fn current_activity_report() {
    assert_eq!(
        current_activity(Some("d"), &vec![]),
        AdbStep::Run(args(&["-s", "d", "shell", "dumpsys", "activity", "activities"]))
    );
    let dump = "ACTIVITY MANAGER ACTIVITIES\n  topResumedActivity=ActivityRecord{x u0 com.a.b/.Top t1}\n  mResumedActivity: ActivityRecord{y u0 com.example.app/.MainActivity t42}\n";
    let h = vec![out(dump)];
    assert_eq!(
        current_activity(None, &h),
        AdbStep::Done(Ok("包名：com.a.b\nActivity：com.a.b.Top".to_string()))
    );
    let h = vec![out("nothing here\n")];
    assert_eq!(current_activity(None, &h), AdbStep::Done(Ok("未找到当前 Activity".to_string())));
    let h = vec![Outcome::NotStarted("x".to_string())];
    assert_eq!(current_activity(None, &h), AdbStep::Done(Err("无法执行 adb：x".to_string())));
}

#[test]
fn app_alarm_report() {
    assert_eq!(app_alarm(None, "com.example", &vec![]), AdbStep::Run(args(&["shell", "dumpsys", "alarm"])));
    let dump = "Alarm Stats:\n  RTC #1: Alarm{1 type 1 com.example}\n  other line\n  ELAPSED #2: Alarm{2 type 3 com.example.sync}\n";
    let h = vec![out(dump)];
    assert_eq!(
        app_alarm(None, "com.example", &h),
        AdbStep::Done(Ok("  RTC #1: Alarm{1 type 1 com.example}\n  ELAPSED #2: Alarm{2 type 3 com.example.sync}".to_string()))
    );
    let h = vec![out(dump)];
    assert_eq!(app_alarm(None, "org.none", &h), AdbStep::Done(Ok("Alarm 中未找到：org.none".to_string())));
}

#[test]
fn getprop_query() {
    assert_eq!(getprop(Some("d"), "ro.product.brand"), args(&["-s", "d", "shell", "getprop", "ro.product.brand"]));
    assert_eq!(getprop(None, "ro.build.version.sdk"), args(&["shell", "getprop", "ro.build.version.sdk"]));
}

fn answers() -> Vec<&'static str> {
    vec![
        "samsung\n",
        "SM-G973F\n",
        "12\n",
        "31\n",
        "arm64-v8a\n",
        "Physical size: 1080x2280\n",
        "Physical density: 480\n",
        "Current Battery Service state:\n  AC powered: false\n  level: 87\n  scale: 100\n",
        "Filesystem     1K-blocks    Used Available Use% Mounted on\n/dev/block/dm-5  109846832 52023232  57692000  48% /data\n",
    ]
}

fn run_device_info(device: Option<&str>, outputs: &[&str]) -> (Vec<Vec<String>>, Result<DeviceInfo, String>) {
    let mut hist: Vec<Outcome> = vec![];
    let mut asked = vec![];
    loop {
        match device_info(device, &hist) {
            AdbStep::Run(a) => {
                asked.push(a);
                hist.push(out(outputs[hist.len()]));
            }
            AdbStep::Done(r) => return (asked, r),
        }
    }
}

#[test]
fn device_info_with_a_named_device() {
    let (asked, r) = run_device_info(Some("R58M"), &answers());
    assert_eq!(asked.len(), 9);
    assert_eq!(asked[0], args(&["-s", "R58M", "shell", "getprop", "ro.product.brand"]));
    assert_eq!(asked[5], args(&["-s", "R58M", "shell", "wm", "size"]));
    assert_eq!(asked[8], args(&["-s", "R58M", "shell", "df", "/data"]));
    let info = r.unwrap();
    assert_eq!(info.serial, "R58M");
    assert_eq!(info.brand, "samsung");
    assert_eq!(info.model, "SM-G973F");
    assert_eq!(info.android, "12");
    assert_eq!(info.sdk, "31");
    assert_eq!(info.abi, "arm64-v8a");
    assert_eq!(info.resolution, "Physical size: 1080x2280");
    assert_eq!(info.density, "Physical density: 480");
    assert_eq!(info.battery, "level: 87");
    assert_eq!(info.storage, "/dev/block/dm-5  109846832 52023232  57692000  48% /data");
}

#[test]
fn device_info_asks_for_the_serial_without_a_device() {
    let mut outputs = vec!["emulator-5554\n"];
    outputs.extend(answers());
    let (asked, r) = run_device_info(None, &outputs);
    assert_eq!(asked.len(), 10);
    assert_eq!(asked[0], args(&["get-serialno"]));
    assert_eq!(asked[1], args(&["shell", "getprop", "ro.product.brand"]));
    let info = r.unwrap();
    assert_eq!(info.serial, "emulator-5554");
    assert_eq!(info.brand, "samsung");
    assert_eq!(info.storage, "/dev/block/dm-5  109846832 52023232  57692000  48% /data");
}

#[test]
fn device_info_stops_at_the_first_failure() {
    let hist = vec![out("samsung\n"), Outcome::NotStarted("broken pipe".to_string())];
    assert_eq!(device_info(Some("d"), &hist), AdbStep::Done(Err("无法执行 adb：broken pipe".to_string())));
}

#[test]
fn device_info_without_battery_level() {
    let mut outputs = answers();
    outputs[7] = "no battery\n";
    outputs[8] = "";
    let (_, r) = run_device_info(Some("d"), &outputs);
    let info = r.unwrap();
    assert_eq!(info.battery, "");
    assert_eq!(info.storage, "");
}
