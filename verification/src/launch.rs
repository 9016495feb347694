//! Where the `adb` and `scrcpy` binaries are, and the command lines of the
//! long-running processes: `adb logcat`, `scrcpy` recording and mirroring.
use vstd::prelude::*;
use crate::command::{device_args, push_arg, strings, text_of, with_device, output_text};
use crate::pairing::{decimal, decimal_string};
use crate::text::{append, concat, copy_str, same_text};

verus! {

/// The directory of the bundled binaries for an operating system.
pub open spec fn platform_dir(os: Seq<char>) -> Seq<char> {
    if os == "windows"@ {
        "windows"@
    } else {
        "macos"@
    }
}

/// The file name of `adb` on an operating system.
pub open spec fn adb_file(os: Seq<char>) -> Seq<char> {
    if os == "windows"@ {
        "adb.exe"@
    } else {
        "adb"@
    }
}

/// The file name of `scrcpy` on an operating system.
pub open spec fn scrcpy_file(os: Seq<char>) -> Seq<char> {
    if os == "windows"@ {
        "scrcpy.exe"@
    } else {
        "scrcpy"@
    }
}

/// Which binary to use: a non-empty path from the environment first, then
/// a bundled binary that exists, then the fallback.
pub open spec fn chosen_path(
    env_value: Option<Seq<char>>,
    bundled: Option<Seq<char>>,
    fallback: Seq<char>,
) -> Seq<char> {
    match env_value {
        Some(p) if p.len() > 0 => p,
        _ => match bundled {
            Some(b) => b,
            None => fallback,
        },
    }
}

/// A configured path, or the default.
pub open spec fn configured_or(configured: Option<Seq<char>>, default: Seq<char>) -> Seq<char> {
    match configured {
        Some(p) => p,
        None => default,
    }
}

/// The environment of `scrcpy`: the `adb` to use and, when known, the
/// scrcpy server.
pub open spec fn scrcpy_env_spec(adb: Seq<char>, server: Seq<char>) -> Seq<(Seq<char>, Seq<char>)> {
    if server.len() > 0 {
        seq![("ADB"@, adb), ("SCRCPY_SERVER_PATH"@, server)]
    } else {
        seq![("ADB"@, adb)]
    }
}

/// `adb [-s <device>] logcat -v threadtime [-b <buffer>]`.
pub open spec fn logcat_args_spec(device: Option<Seq<char>>, buffer: Option<Seq<char>>) -> Seq<
    Seq<char>,
> {
    with_device(device, seq!["logcat"@, "-v"@, "threadtime"@]) + match buffer {
        Some(b) => seq!["-b"@, b],
        None => seq![],
    }
}

/// A video bit rate in Mbps, as scrcpy takes it: `<mbps>M`.
pub open spec fn bit_rate(mbps: u32) -> Seq<char> {
    decimal(mbps as nat) + "M"@
}

/// `scrcpy [-s <device>] --no-playback --record <output> --video-bit-rate <mbps>M`.
pub open spec fn record_args_spec(device: Option<Seq<char>>, output: Seq<char>, mbps: u32) -> Seq<
    Seq<char>,
> {
    with_device(
        device,
        seq!["--no-playback"@, "--record"@, output, "--video-bit-rate"@, bit_rate(mbps)],
    )
}

/// `scrcpy [-s <device>] --video-bit-rate <mbps>M --stay-awake`.
pub open spec fn mirror_args_spec(device: Option<Seq<char>>, mbps: u32) -> Seq<Seq<char>> {
    with_device(device, seq!["--video-bit-rate"@, bit_rate(mbps), "--stay-awake"@])
}

/// The processes that are started and left running.
#[derive(Debug, Clone, Copy, PartialEq, Eq)]
pub enum Launch {
    Logcat,
    Recording,
    Mirroring,
}

/// The error of a process that could not be started.
pub open spec fn launch_error_spec(what: Launch, e: Seq<char>) -> Seq<char> {
    match what {
        Launch::Logcat => "无法启动 logcat："@ + e,
        Launch::Recording => "无法启动 scrcpy 录屏："@ + e,
        Launch::Mirroring => "无法启动 scrcpy 投屏："@ + e,
    }
}

/// The error of a recording that ended right after it started: its
/// trimmed stderr, or a note with its exit status.
pub open spec fn early_exit_spec(stderr: Seq<u8>, status: Seq<char>) -> Seq<char> {
    let msg = text_of(stderr);
    if msg.len() == 0 {
        "scrcpy 录屏启动失败（exit="@ + status + "）"@
    } else {
        msg
    }
}

// ---------------------------------------------------------------------
// Code
// ---------------------------------------------------------------------

/// The directory of the bundled binaries for an operating system
/// (`std::env::consts::OS`).
pub fn binary_platform(os: &str) -> (res: String)
    ensures
        res@ == platform_dir(os@),
{
    if same_text(os, "windows") {
        copy_str("windows")
    } else {
        copy_str("macos")
    }
}

/// The file name of `adb`.
pub fn adb_binary_name(os: &str) -> (res: String)
    ensures
        res@ == adb_file(os@),
{
    if same_text(os, "windows") {
        copy_str("adb.exe")
    } else {
        copy_str("adb")
    }
}

/// The file name of `scrcpy`.
pub fn scrcpy_binary_name(os: &str) -> (res: String)
    ensures
        res@ == scrcpy_file(os@),
{
    if same_text(os, "windows") {
        copy_str("scrcpy.exe")
    } else {
        copy_str("scrcpy")
    }
}

/// Chooses a binary: the environment's path if it is not empty, else the
/// bundled binary (given only when it exists), else the fallback.
pub fn choose_binary_path(
    env_value: Option<String>,
    bundled: Option<String>,
    fallback: &str,
) -> (res: String)
    ensures
        res@ == chosen_path(env_value.deep_view(), bundled.deep_view(), fallback@),
{
    match env_value {
        Some(p) if !p.as_str().is_empty() => p,
        _ => match bundled {
            Some(b) => b,
            None => copy_str(fallback),
        },
    }
}

/// The `adb` to run: the configured one, else `adb` from the PATH.
pub fn adb_path(configured: &Option<String>) -> (res: String)
    ensures
        res@ == configured_or(configured.deep_view(), "adb"@),
{
    match configured {
        Some(p) => p.clone(),
        None => copy_str("adb"),
    }
}

/// The `scrcpy` to run: the configured one, else `scrcpy` from the PATH.
pub fn scrcpy_path(configured: &Option<String>) -> (res: String)
    ensures
        res@ == configured_or(configured.deep_view(), "scrcpy"@),
{
    match configured {
        Some(p) => p.clone(),
        None => copy_str("scrcpy"),
    }
}

/// The scrcpy server: the configured one, else none (empty).
pub fn scrcpy_server_path(configured: &Option<String>) -> (res: String)
    ensures
        res@ == configured_or(configured.deep_view(), seq![]),
{
    match configured {
        Some(p) => p.clone(),
        None => String::new(),
    }
}

/// The environment variables that `scrcpy` is started with.
pub fn scrcpy_env(adb: &str, server: &str) -> (res: Vec<(String, String)>)
    ensures
        res.deep_view() == scrcpy_env_spec(adb@, server@),
{
    let mut res: Vec<(String, String)> = Vec::new();
    res.push((copy_str("ADB"), copy_str(adb)));
    if !server.is_empty() {
        res.push((copy_str("SCRCPY_SERVER_PATH"), copy_str(server)));
    }
    assert(res.deep_view() =~= scrcpy_env_spec(adb@, server@));
    res
}

/// The arguments of `adb logcat` in the threadtime format.
pub fn logcat_args(device: Option<&str>, buffer: Option<&str>) -> (res: Vec<String>)
    ensures
        res.deep_view() == logcat_args_spec(device.deep_view(), buffer.deep_view()),
{
    let rest = strings(&vec!["logcat", "-v", "threadtime"]);
    assert(rest.deep_view() =~= seq!["logcat"@, "-v"@, "threadtime"@]);
    let mut res = device_args(device, rest);
    let ghost base = res.deep_view();
    match buffer {
        Some(b) => {
            push_arg(&mut res, copy_str("-b"));
            push_arg(&mut res, copy_str(b));
            assert(res.deep_view() =~= base + seq!["-b"@, b@]);
        },
        None => {
            assert(res.deep_view() =~= base + seq![]);
        },
    }
    res
}

/// `<mbps>M`.
pub fn bit_rate_arg(mbps: u32) -> (res: String)
    ensures
        res@ == bit_rate(mbps),
{
    let d = decimal_string(mbps as u64);
    concat(d.as_str(), "M")
}

/// The arguments of a headless `scrcpy` recording.
pub fn record_args(device: Option<&str>, output: &str, mbps: u32) -> (res: Vec<String>)
    ensures
        res.deep_view() == record_args_spec(device.deep_view(), output@, mbps),
{
    let mut rest = strings(&vec!["--no-playback", "--record"]);
    push_arg(&mut rest, copy_str(output));
    push_arg(&mut rest, copy_str("--video-bit-rate"));
    push_arg(&mut rest, bit_rate_arg(mbps));
    assert(rest.deep_view() =~= seq![
        "--no-playback"@,
        "--record"@,
        output@,
        "--video-bit-rate"@,
        bit_rate(mbps),
    ]);
    device_args(device, rest)
}

/// The arguments of `scrcpy` mirroring in its own window.
pub fn mirror_args(device: Option<&str>, mbps: u32) -> (res: Vec<String>)
    ensures
        res.deep_view() == mirror_args_spec(device.deep_view(), mbps),
{
    let mut rest = strings(&vec!["--video-bit-rate"]);
    push_arg(&mut rest, bit_rate_arg(mbps));
    push_arg(&mut rest, copy_str("--stay-awake"));
    assert(rest.deep_view() =~= seq!["--video-bit-rate"@, bit_rate(mbps), "--stay-awake"@]);
    device_args(device, rest)
}

/// The error of a process that could not be started.
pub fn launch_error(what: Launch, e: &str) -> (res: String)
    ensures
        res@ == launch_error_spec(what, e@),
{
    match what {
        Launch::Logcat => concat("无法启动 logcat：", e),
        Launch::Recording => concat("无法启动 scrcpy 录屏：", e),
        Launch::Mirroring => concat("无法启动 scrcpy 投屏：", e),
    }
}

/// The error of a recording that exited right after it started.
pub fn early_exit_error(stderr: &Vec<u8>, status: &str) -> (res: String)
    ensures
        res@ == early_exit_spec(stderr@, status@),
{
    let msg = output_text(stderr);
    if msg.as_str().is_empty() {
        let mut res = concat("scrcpy 录屏启动失败（exit=", status);
        append(&mut res, "）");
        res
    } else {
        msg
    }
}

} // verus!
