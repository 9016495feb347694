//! Device and application operations that run `adb` once or twice:
//! WiFi pairing and connection, clearing the log, process lookup,
//! installing, clearing and removing applications, and screenshots.
use vstd::prelude::*;
use crate::command::{capture, capture_output, history_of, one_command, run_failed, run_failed_message, status_only, status_result, text_of, utf8_lossy, with_device, device_args, decode_lossy, output_text, strings, push_arg, AdbStep, Outcome, OutcomeView, StepView};
use crate::text::{chars_of, concat, contains, contains_chars, copy_str, lines, seqs_of, split_lines, split_words, string_of, words};

verus! {

// ---------------------------------------------------------------------
// Command lines
// ---------------------------------------------------------------------

/// `adb pair <ip>:<port> <code>`.
pub open spec fn pair_args(ip: Seq<char>, port: Seq<char>, code: Seq<char>) -> Seq<Seq<char>> {
    seq!["pair"@, ip + ":"@ + port, code]
}

/// `adb connect <ip>:<port>`.
pub open spec fn connect_args(ip: Seq<char>, port: Seq<char>) -> Seq<Seq<char>> {
    seq!["connect"@, ip + ":"@ + port]
}

/// `adb disconnect <target>`.
pub open spec fn disconnect_args(target: Seq<char>) -> Seq<Seq<char>> {
    seq!["disconnect"@, target]
}

/// `adb [-s <device>] logcat -c`.
pub open spec fn clear_log_args(device: Option<Seq<char>>) -> Seq<Seq<char>> {
    with_device(device, seq!["logcat"@, "-c"@])
}

/// `adb mdns services`.
pub open spec fn mdns_args() -> Seq<Seq<char>> {
    seq!["mdns"@, "services"@]
}

/// `adb [-s <device>] shell pidof <package>`.
pub open spec fn resolve_pids_args(device: Option<Seq<char>>, package: Seq<char>) -> Seq<Seq<char>> {
    with_device(device, seq!["shell"@, "pidof"@, package])
}

/// `adb [-s <device>] shell am start -n <package>/<activity>`.
pub open spec fn open_backdoor_args(
    device: Option<Seq<char>>,
    package: Seq<char>,
    activity: Seq<char>,
) -> Seq<Seq<char>> {
    with_device(device, seq!["shell"@, "am"@, "start"@, "-n"@, package + "/"@ + activity])
}

/// `adb [-s <device>] shell am force-stop <package>`.
pub open spec fn force_stop_args(device: Option<Seq<char>>, package: Seq<char>) -> Seq<Seq<char>> {
    with_device(device, seq!["shell"@, "am"@, "force-stop"@, package])
}

/// `adb [-s <device>] shell monkey -p <package> -c android.intent.category.LAUNCHER 1`.
pub open spec fn launch_args(device: Option<Seq<char>>, package: Seq<char>) -> Seq<Seq<char>> {
    with_device(
        device,
        seq![
            "shell"@,
            "monkey"@,
            "-p"@,
            package,
            "-c"@,
            "android.intent.category.LAUNCHER"@,
            "1"@,
        ],
    )
}

/// `adb [-s <device>] exec-out screencap -p`.
pub open spec fn screencap_args(device: Option<Seq<char>>) -> Seq<Seq<char>> {
    with_device(device, seq!["exec-out"@, "screencap"@, "-p"@])
}

/// `adb [-s <device>] install -r <path>`.
pub open spec fn install_args(device: Option<Seq<char>>, path: Seq<char>) -> Seq<Seq<char>> {
    with_device(device, seq!["install"@, "-r"@, path])
}

/// `adb [-s <device>] shell pm clear <package>`.
pub open spec fn clear_data_args(device: Option<Seq<char>>, package: Seq<char>) -> Seq<Seq<char>> {
    with_device(device, seq!["shell"@, "pm"@, "clear"@, package])
}

/// `adb [-s <device>] uninstall <package>`.
pub open spec fn uninstall_args(device: Option<Seq<char>>, package: Seq<char>) -> Seq<Seq<char>> {
    with_device(device, seq!["uninstall"@, package])
}

// ---------------------------------------------------------------------
// Results
// ---------------------------------------------------------------------

/// The address (third word) of the first line of an mDNS listing that
/// announces a device waiting to be paired.
pub open spec fn pairing_address_in(ls: Seq<Seq<char>>) -> Option<Seq<char>>
    decreases ls.len(),
{
    if ls.len() == 0 {
        None
    } else if contains(ls[0], "_adb-tls-pairing._tcp"@) {
        let ws = words(ls[0]);
        if ws.len() > 2 {
            Some(ws[2])
        } else {
            None
        }
    } else {
        pairing_address_in(ls.drop_first())
    }
}

/// The result of the mDNS query, whatever its exit status.
pub open spec fn mdns_result(o: OutcomeView) -> Result<Option<Seq<char>>, Seq<char>> {
    match o {
        OutcomeView::NotStarted(e) => Err("无法执行 adb mdns services："@ + e),
        OutcomeView::Exited { stdout, .. } => Ok(pairing_address_in(lines(utf8_lossy(stdout)))),
    }
}

/// The process ids that `pidof` printed, whatever its exit status.
pub open spec fn pids_result(o: OutcomeView) -> Result<Seq<Seq<char>>, Seq<char>> {
    match o {
        OutcomeView::NotStarted(e) => Err(run_failed(e)),
        OutcomeView::Exited { stdout, .. } => {
            let out = text_of(stdout);
            Ok(
                if out.len() == 0 {
                    seq![]
                } else {
                    words(out)
                },
            )
        },
    }
}

/// The screenshot: the raw stdout on success.
pub open spec fn screencap_result(o: OutcomeView) -> Result<Seq<u8>, Seq<char>> {
    match o {
        OutcomeView::NotStarted(e) => Err(run_failed(e)),
        OutcomeView::Exited { success, stdout, stderr } => if success {
            Ok(stdout)
        } else {
            let err = text_of(stderr);
            Err(
                if err.len() == 0 {
                    "截图失败"@
                } else {
                    err
                },
            )
        },
    }
}

/// A restart: stop the application, then launch it; the first failure
/// ends it.
pub open spec fn restart_plan(
    device: Option<Seq<char>>,
    package: Seq<char>,
    hist: Seq<OutcomeView>,
) -> StepView<()> {
    if hist.len() == 0 {
        StepView::Run(force_stop_args(device, package))
    } else if status_only(hist[0]) is Err {
        StepView::Done(status_only(hist[0]))
    } else if hist.len() == 1 {
        StepView::Run(launch_args(device, package))
    } else {
        StepView::Done(status_only(hist[1]))
    }
}

// ---------------------------------------------------------------------
// Code
// ---------------------------------------------------------------------

/// An operation that runs `args` once and answers with [`capture`].
fn capture_command(args: Vec<String>, history: &Vec<Outcome>) -> (step: AdbStep<String>)
    ensures
        step.deep_view() == one_command(
            args.deep_view(),
            history_of(history@),
            |o: OutcomeView| capture(o),
        ),
{
    if history.len() == 0 {
        AdbStep::Run(args)
    } else {
        let r = capture_output(&history[0]);
        assert(history_of(history@)[0] == history@[0]@);
        AdbStep::Done(r)
    }
}

/// `<ip>:<port>`.
fn host_port(ip: &str, port: &str) -> (res: String)
    ensures
        res@ == ip@ + ":"@ + port@,
{
    let a = concat(ip, ":");
    concat(a.as_str(), port)
}

/// WiFi pairing (wireless debugging, Android 11+): `adb pair`, answered
/// with what adb printed.
pub fn pair(ip: &str, port: &str, code: &str, history: &Vec<Outcome>) -> (step: AdbStep<String>)
    ensures
        step.deep_view() == one_command(
            pair_args(ip@, port@, code@),
            history_of(history@),
            |o: OutcomeView| capture(o),
        ),
{
    let mut args: Vec<String> = Vec::new();
    args.push(copy_str("pair"));
    args.push(host_port(ip, port));
    args.push(copy_str(code));
    assert(args.deep_view() =~= pair_args(ip@, port@, code@));
    capture_command(args, history)
}

/// WiFi connection: `adb connect`, answered with what adb printed.
pub fn connect(ip: &str, port: &str, history: &Vec<Outcome>) -> (step: AdbStep<String>)
    ensures
        step.deep_view() == one_command(
            connect_args(ip@, port@),
            history_of(history@),
            |o: OutcomeView| capture(o),
        ),
{
    let mut args: Vec<String> = Vec::new();
    args.push(copy_str("connect"));
    args.push(host_port(ip, port));
    assert(args.deep_view() =~= connect_args(ip@, port@));
    capture_command(args, history)
}

/// Disconnects a network device: `adb disconnect`, answered with what adb
/// printed.
pub fn disconnect(target: &str, history: &Vec<Outcome>) -> (step: AdbStep<String>)
    ensures
        step.deep_view() == one_command(
            disconnect_args(target@),
            history_of(history@),
            |o: OutcomeView| capture(o),
        ),
{
    let mut args: Vec<String> = Vec::new();
    args.push(copy_str("disconnect"));
    args.push(copy_str(target));
    assert(args.deep_view() =~= disconnect_args(target@));
    capture_command(args, history)
}

/// Clears the logcat buffer of a device.
pub fn clear_log(device: Option<&str>, history: &Vec<Outcome>) -> (step: AdbStep<()>)
    ensures
        step.deep_view() == one_command(
            clear_log_args(device.deep_view()),
            history_of(history@),
            |o: OutcomeView| status_only(o),
        ),
{
    if history.len() == 0 {
        let rest = strings(&vec!["logcat", "-c"]);
        assert(rest.deep_view() =~= seq!["logcat"@, "-c"@]);
        AdbStep::Run(device_args(device, rest))
    } else {
        let r = status_result(&history[0]);
        assert(history_of(history@)[0] == history@[0]@);
        AdbStep::Done(r)
    }
}

/// The address announced by the first pairing line of an mDNS listing.
fn pairing_address(text: &str) -> (res: Option<String>)
    ensures
        res.deep_view() == pairing_address_in(lines(text@)),
{
    let cs = chars_of(text);
    let ls = split_lines(&cs);
    let marker = chars_of("_adb-tls-pairing._tcp");
    let ghost lv = seqs_of(ls@);
    let mut i: usize = 0;
    assert(lv.skip(0) =~= lv);
    while i < ls.len()
        invariant
            i <= ls.len(),
            lv == seqs_of(ls@),
            lv == lines(cs@),
            cs@ == text@,
            marker@ == "_adb-tls-pairing._tcp"@,
            pairing_address_in(lv.skip(i as int)) == pairing_address_in(lv),
        decreases ls.len() - i,
    {
        let ghost rest = lv.skip(i as int);
        assert(rest[0] == ls@[i as int]@);
        assert(rest.drop_first() =~= lv.skip(i + 1));
        if contains_chars(&ls[i], &marker) {
            let ws = split_words(&ls[i]);
            if ws.len() > 2 {
                assert(seqs_of(ws@)[2] == ws@[2]@);
                return Some(string_of(&ws[2]));
            } else {
                return None;
            }
        }
        i = i + 1;
    }
    None
}

/// Finds the address (ip:port) of a device waiting for QR pairing through
/// mDNS; `None` when there is none yet.
pub fn mdns_pairing_address(history: &Vec<Outcome>) -> (step: AdbStep<Option<String>>)
    ensures
        step.deep_view() == one_command(
            mdns_args(),
            history_of(history@),
            |o: OutcomeView| mdns_result(o),
        ),
{
    if history.len() == 0 {
        let args = strings(&vec!["mdns", "services"]);
        assert(args.deep_view() =~= mdns_args());
        AdbStep::Run(args)
    } else {
        assert(history_of(history@)[0] == history@[0]@);
        match &history[0] {
            Outcome::NotStarted(e) => AdbStep::Done(
                Err(concat("无法执行 adb mdns services：", e.as_str())),
            ),
            Outcome::Exited { stdout, .. } => {
                let text = decode_lossy(stdout);
                AdbStep::Done(Ok(pairing_address(text.as_str())))
            },
        }
    }
}

/// The words of a text, as strings.
fn word_strings(text: &str) -> (res: Vec<String>)
    ensures
        res.deep_view() == words(text@),
{
    let cs = chars_of(text);
    let ws = split_words(&cs);
    let mut res: Vec<String> = Vec::new();
    let mut i: usize = 0;
    while i < ws.len()
        invariant
            i <= ws.len(),
            res@.len() == i,
            seqs_of(ws@) == words(text@),
            res.deep_view() == seqs_of(ws@).take(i as int),
        decreases ws.len() - i,
    {
        let ghost before = res.deep_view();
        res.push(string_of(&ws[i]));
        assert forall|k: int| 0 <= k < i + 1 implies #[trigger] res.deep_view()[k] == seqs_of(
            ws@,
        ).take(i + 1)[k] by {
            if k < i {
                assert(before[k] == seqs_of(ws@).take(i as int)[k]);
            }
        }
        assert(res.deep_view() =~= seqs_of(ws@).take(i + 1));
        i = i + 1;
    }
    assert(seqs_of(ws@).take(ws.len() as int) =~= seqs_of(ws@));
    res
}

/// The ids of the processes of an application (`adb shell pidof`).
pub fn resolve_pids(device: Option<&str>, package: &str, history: &Vec<Outcome>) -> (step: AdbStep<
    Vec<String>,
>)
    ensures
        step.deep_view() == one_command(
            resolve_pids_args(device.deep_view(), package@),
            history_of(history@),
            |o: OutcomeView| pids_result(o),
        ),
{
    if history.len() == 0 {
        let mut rest = strings(&vec!["shell", "pidof"]);
        push_arg(&mut rest, copy_str(package));
        assert(rest.deep_view() =~= seq!["shell"@, "pidof"@, package@]);
        AdbStep::Run(device_args(device, rest))
    } else {
        assert(history_of(history@)[0] == history@[0]@);
        match &history[0] {
            Outcome::NotStarted(e) => AdbStep::Done(Err(run_failed_message(e))),
            Outcome::Exited { stdout, .. } => {
                let out = output_text(stdout);
                if out.as_str().is_empty() {
                    let none: Vec<String> = Vec::new();
                    assert(none.deep_view() =~= seq![]);
                    AdbStep::Done(Ok(none))
                } else {
                    AdbStep::Done(Ok(word_strings(out.as_str())))
                }
            },
        }
    }
}

/// `<package>/<activity>`.
fn component(package: &str, activity: &str) -> (res: String)
    ensures
        res@ == package@ + "/"@ + activity@,
{
    let a = concat(package, "/");
    concat(a.as_str(), activity)
}

/// Opens the debug activity ("backdoor") of an application.
pub fn open_backdoor(
    device: Option<&str>,
    package: &str,
    activity: &str,
    history: &Vec<Outcome>,
) -> (step: AdbStep<String>)
    ensures
        step.deep_view() == one_command(
            open_backdoor_args(device.deep_view(), package@, activity@),
            history_of(history@),
            |o: OutcomeView| capture(o),
        ),
{
    let mut rest = strings(&vec!["shell", "am", "start", "-n"]);
    push_arg(&mut rest, component(package, activity));
    assert(rest.deep_view() =~= seq!["shell"@, "am"@, "start"@, "-n"@, package@ + "/"@ + activity@]);
    capture_command(device_args(device, rest), history)
}

/// Restarts an application: force-stop, then start through the launcher.
pub fn restart_app(device: Option<&str>, package: &str, history: &Vec<Outcome>) -> (step: AdbStep<
    (),
>)
    ensures
        step.deep_view() == restart_plan(device.deep_view(), package@, history_of(history@)),
{
    let ghost hv = history_of(history@);
    if history.len() == 0 {
        let mut rest = strings(&vec!["shell", "am", "force-stop"]);
        push_arg(&mut rest, copy_str(package));
        assert(rest.deep_view() =~= seq!["shell"@, "am"@, "force-stop"@, package@]);
        return AdbStep::Run(device_args(device, rest));
    }
    assert(hv[0] == history@[0]@);
    let first = status_result(&history[0]);
    if first.is_err() {
        return AdbStep::Done(first);
    }
    if history.len() == 1 {
        let mut rest = strings(&vec!["shell", "monkey", "-p"]);
        push_arg(&mut rest, copy_str(package));
        push_arg(&mut rest, copy_str("-c"));
        push_arg(&mut rest, copy_str("android.intent.category.LAUNCHER"));
        push_arg(&mut rest, copy_str("1"));
        assert(rest.deep_view() =~= seq![
            "shell"@,
            "monkey"@,
            "-p"@,
            package@,
            "-c"@,
            "android.intent.category.LAUNCHER"@,
            "1"@,
        ]);
        return AdbStep::Run(device_args(device, rest));
    }
    assert(hv[1] == history@[1]@);
    AdbStep::Done(status_result(&history[1]))
}

/// Takes a screenshot: the PNG bytes that `adb exec-out screencap -p`
/// printed.
pub fn screencap_png(device: Option<&str>, history: &Vec<Outcome>) -> (step: AdbStep<Vec<u8>>)
    ensures
        step.deep_view() == one_command(
            screencap_args(device.deep_view()),
            history_of(history@),
            |o: OutcomeView| screencap_result(o),
        ),
{
    if history.len() == 0 {
        let rest = strings(&vec!["exec-out", "screencap", "-p"]);
        assert(rest.deep_view() =~= seq!["exec-out"@, "screencap"@, "-p"@]);
        return AdbStep::Run(device_args(device, rest));
    }
    assert(history_of(history@)[0] == history@[0]@);
    match &history[0] {
        Outcome::NotStarted(e) => AdbStep::Done(Err(run_failed_message(e))),
        Outcome::Exited { success, stdout, stderr } => {
            if *success {
                let bytes = stdout.clone();
                assert(bytes.deep_view() =~= stdout@);
                AdbStep::Done(Ok(bytes))
            } else {
                let err = output_text(stderr);
                if err.as_str().is_empty() {
                    AdbStep::Done(Err(copy_str("截图失败")))
                } else {
                    AdbStep::Done(Err(err))
                }
            }
        },
    }
}

/// Installs (replacing) an APK: `adb install -r`.
pub fn install_apk(device: Option<&str>, path: &str, history: &Vec<Outcome>) -> (step: AdbStep<
    String,
>)
    ensures
        step.deep_view() == one_command(
            install_args(device.deep_view(), path@),
            history_of(history@),
            |o: OutcomeView| capture(o),
        ),
{
    let mut rest = strings(&vec!["install", "-r"]);
    push_arg(&mut rest, copy_str(path));
    assert(rest.deep_view() =~= seq!["install"@, "-r"@, path@]);
    capture_command(device_args(device, rest), history)
}

/// Clears the data of an application: `adb shell pm clear`.
pub fn clear_app_data(device: Option<&str>, package: &str, history: &Vec<Outcome>) -> (step:
    AdbStep<String>)
    ensures
        step.deep_view() == one_command(
            clear_data_args(device.deep_view(), package@),
            history_of(history@),
            |o: OutcomeView| capture(o),
        ),
{
    let mut rest = strings(&vec!["shell", "pm", "clear"]);
    push_arg(&mut rest, copy_str(package));
    assert(rest.deep_view() =~= seq!["shell"@, "pm"@, "clear"@, package@]);
    capture_command(device_args(device, rest), history)
}

/// Uninstalls an application: `adb uninstall`.
pub fn uninstall_app(device: Option<&str>, package: &str, history: &Vec<Outcome>) -> (step:
    AdbStep<String>)
    ensures
        step.deep_view() == one_command(
            uninstall_args(device.deep_view(), package@),
            history_of(history@),
            |o: OutcomeView| capture(o),
        ),
{
    let mut rest = strings(&vec!["uninstall"]);
    push_arg(&mut rest, copy_str(package));
    assert(rest.deep_view() =~= seq!["uninstall"@, package@]);
    capture_command(device_args(device, rest), history)
}

} // verus!
