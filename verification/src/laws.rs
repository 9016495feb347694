//! Properties that hold of the library as a whole.
use vstd::prelude::*;
use crate::activity::{
    activity_of_token, activity_report, activities_args, alarm_args, lines_mentioning,
    resumed_activity,
};
use crate::apps::{app_of_item, apps_of_items, json_get, json_text, JsonValue};
use crate::command::{
    capture, one_command, run_failed, shell_text, status_only, text_of, with_device, OutcomeView,
    StepView,
};
use crate::device_info::{
    battery_line, device_info_plan, device_info_queries, first_not_started, getprop_args,
    last_line, DeviceInfoView,
};
use crate::devices::{device_of_words, devices_of, parse_device_list, scan_fields, DeviceView};
use crate::launch::{
    chosen_path, configured_or, logcat_args_spec, mirror_args_spec, record_args_spec,
    scrcpy_env_spec,
};
use crate::ops::{
    clear_data_args, clear_log_args, force_stop_args, install_args, launch_args,
    open_backdoor_args, resolve_pids_args, restart_plan, screencap_args, uninstall_args,
};
use crate::text::{
    contains, find_char, flush, is_ws, join, lemma_find_char_valid, lemma_trim_clean, lines,
    starts_with, trim, trim_by, trim_end_by, trim_start_by, words, words_from,
};

verus! {

// ---------------------------------------------------------------------
// Operations come to an end
// ---------------------------------------------------------------------

/// An operation of one command asks for it first and is over once its
/// outcome is known.
pub proof fn law_one_command_finishes<V>(
    args: Seq<Seq<char>>,
    hist: Seq<OutcomeView>,
    result: spec_fn(OutcomeView) -> Result<V, Seq<char>>,
)
    ensures
        hist.len() == 0 ==> one_command(args, hist, result) == StepView::<V>::Run(args),
        hist.len() > 0 ==> one_command(args, hist, result) is Done,
{
}

/// A restart runs at most two commands, and a failed stop launches
/// nothing.
pub proof fn law_restart_finishes(device: Option<Seq<char>>, package: Seq<char>, hist: Seq<OutcomeView>)
    ensures
        hist.len() >= 2 ==> restart_plan(device, package, hist) is Done,
        hist.len() >= 1 && crate::command::status_only(hist[0]) is Err ==> restart_plan(
            device,
            package,
            hist,
        ) is Done,
{
}

proof fn lemma_first_not_started_bounds(h: Seq<OutcomeView>)
    ensures
        0 <= first_not_started(h) <= h.len(),
        first_not_started(h) < h.len() ==> h[first_not_started(h)] is NotStarted,
        forall|i: int| 0 <= i < first_not_started(h) ==> #[trigger] h[i] is Exited,
    decreases h.len(),
{
    if h.len() > 0 && !(h[0] is NotStarted) {
        let t = h.drop_first();
        lemma_first_not_started_bounds(t);
        assert forall|i: int| 0 <= i < first_not_started(h) implies #[trigger] h[i] is Exited by {
            if i > 0 {
                assert(h[i] == t[i - 1]);
            }
        }
    }
}

/// Gathering device information runs one query after another while they
/// start, asks for nothing more once each has run, and ends with an error
/// as soon as one could not be started.
pub proof fn law_device_info_progress(device: Option<Seq<char>>, hist: Seq<OutcomeView>)
    ensures
        hist.len() >= device_info_queries(device).len() ==> device_info_plan(device, hist) is Done,
        (hist.len() < device_info_queries(device).len() && forall|i: int|
            0 <= i < hist.len() ==> #[trigger] hist[i] is Exited) ==> device_info_plan(
            device,
            hist,
        ) == StepView::<DeviceInfoView>::Run(device_info_queries(device)[hist.len() as int]),
        (hist.len() > 0 && hist.len() <= device_info_queries(device).len() && hist.last()
            is NotStarted) ==> device_info_plan(device, hist) is Done && device_info_plan(
            device,
            hist,
        )->Done_0 is Err,
{
    let qs = device_info_queries(device);
    let seen = if hist.len() < qs.len() {
        hist
    } else {
        hist.take(qs.len() as int)
    };
    lemma_first_not_started_bounds(seen);
    if hist.len() < qs.len() && forall|i: int| 0 <= i < hist.len() ==> #[trigger] hist[i] is Exited {
        if first_not_started(seen) < seen.len() {
            assert(seen[first_not_started(seen)] is Exited);
        }
    }
    if hist.len() > 0 && hist.len() <= qs.len() && hist.last() is NotStarted {
        assert(seen.len() == hist.len());
        assert(seen[hist.len() - 1] == hist.last());
        if first_not_started(seen) == seen.len() {
            assert(seen[seen.len() - 1] is Exited);
        }
    }
}

// ---------------------------------------------------------------------
// Text
// ---------------------------------------------------------------------

/// Every word is non-empty and holds no whitespace.
pub open spec fn clean_words(ws: Seq<Seq<char>>) -> bool {
    forall|i: int|
        0 <= i < ws.len() ==> #[trigger] ws[i].len() > 0 && forall|j: int|
            0 <= j < ws[i].len() ==> !is_ws(#[trigger] ws[i][j])
}

proof fn lemma_words_from_clean(s: Seq<char>, cur: Seq<char>)
    requires
        forall|j: int| 0 <= j < cur.len() ==> !is_ws(#[trigger] cur[j]),
    ensures
        clean_words(words_from(s, cur)),
        (cur.len() > 0 || exists|k: int| 0 <= k < s.len() && !is_ws(#[trigger] s[k])) ==> words_from(
            s,
            cur,
        ).len() > 0,
    decreases s.len(),
{
    if s.len() == 0 {
    } else if is_ws(s[0]) {
        let t = s.drop_first();
        lemma_words_from_clean(t, seq![]);
        let r = words_from(t, seq![]);
        assert forall|i: int| 0 <= i < flush(cur).len() + r.len() implies #[trigger] (flush(cur)
            + r)[i].len() > 0 && forall|j: int|
            0 <= j < (flush(cur) + r)[i].len() ==> !is_ws(#[trigger] (flush(cur) + r)[i][j]) by {
            if i >= flush(cur).len() {
                assert((flush(cur) + r)[i] == r[i - flush(cur).len()]);
            }
        }
        if exists|k: int| 0 <= k < s.len() && !is_ws(#[trigger] s[k]) {
            let k = choose|k: int| 0 <= k < s.len() && !is_ws(#[trigger] s[k]);
            assert(k > 0);
            assert(t[k - 1] == s[k]);
        }
    } else {
        let t = s.drop_first();
        let c2 = cur.push(s[0]);
        assert forall|j: int| 0 <= j < c2.len() implies !is_ws(#[trigger] c2[j]) by {
            if j < cur.len() {
                assert(c2[j] == cur[j]);
            }
        }
        lemma_words_from_clean(t, c2);
    }
}

/// The words of a text (`split_whitespace`) are non-empty and free of
/// whitespace, and a text with a non-whitespace character has a word.
pub proof fn law_words_clean(s: Seq<char>)
    ensures
        clean_words(words(s)),
        (exists|k: int| 0 <= k < s.len() && !is_ws(#[trigger] s[k])) ==> words(s).len() > 0,
{
    lemma_words_from_clean(s, seq![]);
}

/// Trimmed text has no whitespace at either end.
pub proof fn law_trim_clean(s: Seq<char>)
    ensures
        trim(s).len() > 0 ==> !is_ws(trim(s)[0]) && !is_ws(trim(s).last()),
{
    lemma_trim_clean(s, false);
}

/// What a short command answers, once it ran, is trimmed output: it has
/// no whitespace at either end.
pub proof fn law_capture_trimmed(success: bool, stdout: Seq<u8>, stderr: Seq<u8>)
    ensures
        ({
            let r = capture(OutcomeView::Exited { success, stdout, stderr });
            let t = match r {
                Ok(x) => x,
                Err(x) => x,
            };
            t.len() > 0 ==> !is_ws(t[0]) && !is_ws(t.last())
        }),
        success == capture(OutcomeView::Exited { success, stdout, stderr }) is Ok,
{
    law_trim_clean(crate::command::utf8_lossy(stdout));
    law_trim_clean(crate::command::utf8_lossy(stderr));
}

// ---------------------------------------------------------------------
// Devices
// ---------------------------------------------------------------------

/// A listed device: a non-empty serial without whitespace, and a transport
/// that is `usb` or `wifi`.
pub open spec fn sound_device(d: DeviceView) -> bool {
    &&& d.serial.len() > 0
    &&& forall|j: int| 0 <= j < d.serial.len() ==> !is_ws(#[trigger] d.serial[j])
    &&& (d.transport == "usb"@ || d.transport == "wifi"@)
}

/// Every device of a listing has a serial and a transport, and a listing
/// of `n` lines gives fewer than `n` devices.
pub proof fn law_devices_sound(ls: Seq<Seq<char>>)
    ensures
        forall|i: int| 0 <= i < devices_of(ls).len() ==> sound_device(#[trigger] devices_of(ls)[i]),
        devices_of(ls).len() <= ls.len(),
    decreases ls.len(),
{
    if ls.len() > 0 {
        law_devices_sound(ls.drop_last());
        let t = trim(ls.last());
        if t.len() > 0 {
            law_trim_clean(ls.last());
            law_words_clean(t);
            assert(!is_ws(t[0]));
            let ws = words(t);
            assert(ws.len() > 0);
            assert(ws[0].len() > 0);
            let d = device_of_words(ws);
            assert(d.serial == ws[0]);
            assert(sound_device(d));
            let prev = devices_of(ls.drop_last());
            assert forall|i: int| 0 <= i < devices_of(ls).len() implies sound_device(
                #[trigger] devices_of(ls)[i],
            ) by {
                if i < prev.len() {
                    assert(devices_of(ls)[i] == prev[i]);
                }
            }
        }
    }
}

// ---------------------------------------------------------------------
// Reports
// ---------------------------------------------------------------------

proof fn lemma_lines_mentioning(ls: Seq<Seq<char>>, needle: Seq<char>)
    ensures
        forall|i: int|
            0 <= i < lines_mentioning(ls, needle).len() ==> contains(
                #[trigger] lines_mentioning(ls, needle)[i],
                needle,
            ),
    decreases ls.len(),
{
    if ls.len() > 0 {
        lemma_lines_mentioning(ls.drop_last(), needle);
        let prev = lines_mentioning(ls.drop_last(), needle);
        assert forall|i: int| 0 <= i < lines_mentioning(ls, needle).len() implies contains(
            #[trigger] lines_mentioning(ls, needle)[i],
            needle,
        ) by {
            if i < prev.len() {
                assert(lines_mentioning(ls, needle)[i] == prev[i]);
            }
        }
    }
}

/// The lines that an alarm report selects all mention the package.
pub proof fn law_alarm_lines_mention_package(ls: Seq<Seq<char>>, package: Seq<char>)
    ensures
        forall|i: int|
            0 <= i < lines_mentioning(ls, package).len() ==> contains(
                #[trigger] lines_mentioning(ls, package)[i],
                package,
            ),
{
    lemma_lines_mentioning(ls, package);
}

/// A named activity has a non-empty package that contains a `.`, and a
/// non-empty activity; a relative activity (one that starts with `.`) is
/// completed with the package.
pub proof fn law_activity_shape(tok: Seq<char>)
    ensures
        activity_of_token(tok) matches Some((p, a)) ==> {
            &&& p.len() > 0
            &&& contains(p, seq!['.'])
            &&& a.len() > 0
            &&& a[0] == '.' ==> a.take(p.len() as int) == p
        },
{
    let t = trim_by(tok, true);
    crate::text::lemma_find_char_valid(t, '/');
    if let Some((p, a)) = activity_of_token(tok) {
        let s = crate::text::find_char(t, '/')->0;
        let act = t.skip(s + 1);
        if act[0] == '.' {
            assert((p + act).take(p.len() as int) =~= p);
        } else {
        }
    }
}

// ---------------------------------------------------------------------
// Applications
// ---------------------------------------------------------------------

/// Every application of the list has a non-empty package.
pub proof fn law_apps_have_packages(items: Seq<crate::apps::JsonValue>)
    ensures
        forall|i: int|
            0 <= i < apps_of_items(items).len() ==> (#[trigger] apps_of_items(items)[i]).package.len()
                > 0,
    decreases items.len(),
{
    if items.len() > 0 {
        law_apps_have_packages(items.drop_last());
        let prev = apps_of_items(items.drop_last());
        assert forall|i: int| 0 <= i < apps_of_items(items).len() implies (
        #[trigger] apps_of_items(items)[i]).package.len() > 0 by {
            if i < prev.len() {
                assert(apps_of_items(items)[i] == prev[i]);
            }
        }
    }
}


// ---------------------------------------------------------------------
// Words do not depend on surrounding whitespace
// ---------------------------------------------------------------------

proof fn lemma_words_of_blank(s: Seq<char>)
    requires
        forall|i: int| 0 <= i < s.len() ==> is_ws(#[trigger] s[i]),
    ensures
        words_from(s, seq![]) == Seq::<Seq<char>>::empty(),
    decreases s.len(),
{
    if s.len() > 0 {
        let t = s.drop_first();
        assert forall|i: int| 0 <= i < t.len() implies is_ws(#[trigger] t[i]) by {
            assert(t[i] == s[i + 1]);
        }
        lemma_words_of_blank(t);
        assert(flush(seq![]) =~= Seq::<Seq<char>>::empty());
        assert(flush(seq![]) + words_from(t, seq![]) =~= Seq::<Seq<char>>::empty());
    }
}

proof fn lemma_words_trailing_blank(p: Seq<char>, w: Seq<char>, cur: Seq<char>)
    requires
        forall|i: int| 0 <= i < w.len() ==> is_ws(#[trigger] w[i]),
    ensures
        words_from(p + w, cur) == words_from(p, cur),
    decreases p.len(), w.len(),
{
    if p.len() == 0 {
        assert(p + w =~= w);
        if w.len() > 0 {
            let t = w.drop_first();
            assert forall|i: int| 0 <= i < t.len() implies is_ws(#[trigger] t[i]) by {
                assert(t[i] == w[i + 1]);
            }
            lemma_words_of_blank(t);
            assert(flush(cur) + words_from(t, seq![]) =~= flush(cur));
        }
    } else {
        let q = p + w;
        assert(q[0] == p[0]);
        assert(q.drop_first() =~= p.drop_first() + w);
        if is_ws(p[0]) {
            lemma_words_trailing_blank(p.drop_first(), w, seq![]);
        } else {
            lemma_words_trailing_blank(p.drop_first(), w, cur.push(p[0]));
        }
    }
}

proof fn lemma_words_trim_start(s: Seq<char>)
    ensures
        words_from(trim_start_by(s, false), seq![]) == words_from(s, seq![]),
    decreases s.len(),
{
    if s.len() > 0 && is_ws(s[0]) {
        lemma_words_trim_start(s.drop_first());
        assert(flush(seq![]) + words_from(s.drop_first(), seq![]) =~= words_from(
            s.drop_first(),
            seq![],
        ));
    }
}

proof fn lemma_trim_end_split(s: Seq<char>)
    ensures
        s == trim_end_by(s, false) + s.skip(trim_end_by(s, false).len() as int),
        trim_end_by(s, false).len() <= s.len(),
        forall|i: int|
            trim_end_by(s, false).len() <= i < s.len() ==> is_ws(#[trigger] s[i]),
    decreases s.len(),
{
    if s.len() > 0 && is_ws(s.last()) {
        let d = s.drop_last();
        lemma_trim_end_split(d);
        let t = trim_end_by(d, false);
        assert forall|i: int| t.len() <= i < s.len() implies is_ws(#[trigger] s[i]) by {
            if i < s.len() - 1 {
                assert(s[i] == d[i]);
            }
        }
        assert forall|i: int| 0 <= i < t.len() implies #[trigger] s[i] == t[i] by {
            assert(s[i] == d[i]);
            assert(d[i] == (t + d.skip(t.len() as int))[i]);
        }
        assert(s =~= t + s.skip(t.len() as int));
    } else {
        assert(s =~= s + s.skip(s.len() as int));
    }
}

/// The words of a text are those of the text trimmed.
pub proof fn law_words_ignore_trim(s: Seq<char>)
    ensures
        words(trim(s)) == words(s),
{
    let u = trim_start_by(s, false);
    lemma_words_trim_start(s);
    lemma_trim_end_split(u);
    let t = trim_end_by(u, false);
    let w = u.skip(t.len() as int);
    assert forall|i: int| 0 <= i < w.len() implies is_ws(#[trigger] w[i]) by {
        assert(w[i] == u[i + t.len()]);
    }
    lemma_words_trailing_blank(t, w, seq![]);
}

// ---------------------------------------------------------------------
// The device listing
// ---------------------------------------------------------------------

/// A line that holds something besides whitespace.
pub open spec fn filled(l: Seq<char>) -> bool {
    trim(l).len() > 0
}

/// The lines that are not blank, in order.
pub open spec fn filled_lines(ls: Seq<Seq<char>>) -> Seq<Seq<char>> {
    ls.filter(|l: Seq<char>| filled(l))
}

/// The lines of a listing after its header line.
pub open spec fn after_header(text: Seq<char>) -> Seq<Seq<char>> {
    let ls = lines(text);
    if ls.len() > 0 {
        ls.drop_first()
    } else {
        ls
    }
}

proof fn lemma_devices_follow_lines(ls: Seq<Seq<char>>)
    ensures
        devices_of(ls).len() == filled_lines(ls).len(),
        forall|i: int|
            0 <= i < devices_of(ls).len() ==> #[trigger] devices_of(ls)[i] == device_of_words(
                words(trim(filled_lines(ls)[i])),
            ),
        forall|i: int| 0 <= i < filled_lines(ls).len() ==> filled(#[trigger] filled_lines(ls)[i]),
    decreases ls.len(),
{
    reveal(Seq::filter);
    if ls.len() > 0 {
        lemma_devices_follow_lines(ls.drop_last());
        let f = filled_lines(ls);
        let g = filled_lines(ls.drop_last());
        let prev = devices_of(ls.drop_last());
        if filled(ls.last()) {
            assert(f == g.push(ls.last()));
            assert forall|i: int| 0 <= i < devices_of(ls).len() implies #[trigger] devices_of(ls)[i]
                == device_of_words(words(trim(f[i]))) by {
                if i < prev.len() {
                    assert(devices_of(ls)[i] == prev[i]);
                    assert(f[i] == g[i]);
                }
            }
            assert forall|i: int| 0 <= i < f.len() implies filled(#[trigger] f[i]) by {
                if i < g.len() {
                    assert(f[i] == g[i]);
                }
            }
        } else {
            assert(f == g);
        }
    }
}

/// Every line after the header that is not blank gives exactly one device,
/// in order, whatever its state: the i-th device has the first word of the
/// i-th such line as serial and its second word (or nothing) as state.
pub proof fn law_one_device_per_line(text: Seq<char>)
    ensures
        parse_device_list(text).len() == filled_lines(after_header(text)).len(),
        forall|i: int|
            #![trigger filled_lines(after_header(text))[i]]
            0 <= i < parse_device_list(text).len() ==> {
                let line = filled_lines(after_header(text))[i];
                let w = words(line);
                &&& w.len() > 0
                &&& parse_device_list(text)[i].serial == w[0]
                &&& parse_device_list(text)[i].state == if w.len() > 1 {
                    w[1]
                } else {
                    seq![]
                }
            },
{
    let body = after_header(text);
    let f = filled_lines(body);
    lemma_devices_follow_lines(body);
    assert forall|i: int|
        #![trigger filled_lines(after_header(text))[i]]
        0 <= i < parse_device_list(text).len() implies {
        let line = filled_lines(after_header(text))[i];
        let w = words(line);
        &&& w.len() > 0
        &&& parse_device_list(text)[i].serial == w[0]
        &&& parse_device_list(text)[i].state == if w.len() > 1 {
            w[1]
        } else {
            seq![]
        }
    } by {
        assert(filled(f[i]));
        assert(parse_device_list(text)[i] == device_of_words(words(trim(f[i]))));
        let line = f[i];
        law_words_ignore_trim(line);
        let t = trim(line);
        lemma_trim_clean(line, false);
        law_words_clean(t);
        assert(!is_ws(t[0]));
    }
}

// ---------------------------------------------------------------------
// The resumed activity
// ---------------------------------------------------------------------

/// A dump line that mentions `ResumedActivity` and names an activity.
pub open spec fn names_resumed(l: Seq<char>) -> bool {
    contains(l, "ResumedActivity"@) && resumed_activity(l) is Some
}

/// The report of the line that names an activity.
pub open spec fn named_report(l: Seq<char>) -> Seq<char> {
    let (p, a) = resumed_activity(l)->0;
    "包名："@ + p + "\nActivity："@ + a
}

proof fn lemma_report_none(ls: Seq<Seq<char>>)
    requires
        forall|k: int| 0 <= k < ls.len() ==> !names_resumed(#[trigger] ls[k]),
    ensures
        activity_report(ls) == "未找到当前 Activity"@,
    decreases ls.len(),
{
    if ls.len() > 0 {
        let t = ls.drop_first();
        assert(!names_resumed(ls[0]));
        assert forall|k: int| 0 <= k < t.len() implies !names_resumed(#[trigger] t[k]) by {
            assert(t[k] == ls[k + 1]);
        }
        lemma_report_none(t);
    }
}

proof fn lemma_report_first(ls: Seq<Seq<char>>, k: int)
    requires
        0 <= k < ls.len(),
        names_resumed(ls[k]),
        forall|j: int| 0 <= j < k ==> !names_resumed(#[trigger] ls[j]),
    ensures
        activity_report(ls) == named_report(ls[k]),
    decreases k,
{
    if k > 0 {
        let t = ls.drop_first();
        assert(!names_resumed(ls[0]));
        assert(t[k - 1] == ls[k]);
        assert forall|j: int| 0 <= j < k - 1 implies !names_resumed(#[trigger] t[j]) by {
            assert(t[j] == ls[j + 1]);
        }
        lemma_report_first(t, k - 1);
    }
}

/// The report names the package and activity of the first line that
/// mentions `ResumedActivity` and names an activity; when there is no such
/// line it says that none was found. Other lines never contribute.
pub proof fn law_activity_report_source(ls: Seq<Seq<char>>)
    ensures
        (forall|k: int| 0 <= k < ls.len() ==> !names_resumed(#[trigger] ls[k])) ==> activity_report(ls)
            == "未找到当前 Activity"@,
        forall|k: int|
            0 <= k < ls.len() && names_resumed(#[trigger] ls[k]) && (forall|j: int|
                0 <= j < k ==> !names_resumed(ls[j])) ==> activity_report(ls) == "包名："@
                + (resumed_activity(ls[k])->0).0 + "\nActivity："@ + (resumed_activity(ls[k])->0).1,
{
    if forall|k: int| 0 <= k < ls.len() ==> !names_resumed(#[trigger] ls[k]) {
        lemma_report_none(ls);
    }
    assert forall|k: int|
        0 <= k < ls.len() && names_resumed(#[trigger] ls[k]) && (forall|j: int|
            0 <= j < k ==> !names_resumed(ls[j])) implies activity_report(ls) == "包名："@
        + (resumed_activity(ls[k])->0).0 + "\nActivity："@ + (resumed_activity(ls[k])->0).1 by {
        lemma_report_first(ls, k);
    }
}

// ---------------------------------------------------------------------
// Device information
// ---------------------------------------------------------------------

/// Query `k` of the information sequence is `q`.
pub open spec fn query_at(device: Option<Seq<char>>, k: int, q: Seq<Seq<char>>) -> bool {
    0 <= k < device_info_queries(device).len() && device_info_queries(device)[k] == q
}

/// The trimmed answer to query `k`.
pub open spec fn answer_to(hist: Seq<OutcomeView>, k: int) -> Seq<char> {
    text_of(hist[k]->Exited_stdout)
}

/// Once every query ran, the information is complete, and each field is
/// the trimmed answer to its own query, wherever that query stands in the
/// sequence: the serial is the named device or the answer to
/// `get-serialno`; brand, model, Android version, SDK and ABI are the
/// answers to `getprop` of their properties; resolution and density those
/// to `wm size` and `wm density`; battery is read from `dumpsys battery`
/// and storage from `df /data`.
pub proof fn law_device_info_fields(device: Option<Seq<char>>, hist: Seq<OutcomeView>)
    requires
        hist.len() >= device_info_queries(device).len(),
        forall|i: int| 0 <= i < hist.len() ==> #[trigger] hist[i] is Exited,
    ensures
        device_info_plan(device, hist) is Done,
        device_info_plan(device, hist)->Done_0 is Ok,
        ({
            let info = device_info_plan(device, hist)->Done_0->Ok_0;
            &&& match device {
                Some(d) => info.serial == d,
                None => exists|k: int|
                    #![trigger answer_to(hist, k)]
                    query_at(device, k, seq!["get-serialno"@]) && info.serial == answer_to(hist, k),
            }
            &&& exists|k: int|
                #![trigger answer_to(hist, k)]
                query_at(device, k, getprop_args(device, "ro.product.brand"@)) && info.brand
                    == answer_to(hist, k)
            &&& exists|k: int|
                #![trigger answer_to(hist, k)]
                query_at(device, k, getprop_args(device, "ro.product.model"@)) && info.model
                    == answer_to(hist, k)
            &&& exists|k: int|
                #![trigger answer_to(hist, k)]
                query_at(device, k, getprop_args(device, "ro.build.version.release"@))
                    && info.android == answer_to(hist, k)
            &&& exists|k: int|
                #![trigger answer_to(hist, k)]
                query_at(device, k, getprop_args(device, "ro.build.version.sdk"@)) && info.sdk
                    == answer_to(hist, k)
            &&& exists|k: int|
                #![trigger answer_to(hist, k)]
                query_at(device, k, getprop_args(device, "ro.product.cpu.abi"@)) && info.abi
                    == answer_to(hist, k)
            &&& exists|k: int|
                #![trigger answer_to(hist, k)]
                query_at(device, k, with_device(device, seq!["shell"@, "wm"@, "size"@]))
                    && info.resolution == answer_to(hist, k)
            &&& exists|k: int|
                #![trigger answer_to(hist, k)]
                query_at(device, k, with_device(device, seq!["shell"@, "wm"@, "density"@]))
                    && info.density == answer_to(hist, k)
            &&& exists|k: int|
                #![trigger answer_to(hist, k)]
                query_at(device, k, with_device(device, seq!["shell"@, "dumpsys"@, "battery"@]))
                    && info.battery == battery_line(answer_to(hist, k))
            &&& exists|k: int|
                #![trigger answer_to(hist, k)]
                query_at(device, k, with_device(device, seq!["shell"@, "df"@, "/data"@]))
                    && info.storage == last_line(answer_to(hist, k))
        }),
{
    let qs = device_info_queries(device);
    let seen = hist.take(qs.len() as int);
    lemma_first_not_started_bounds(seen);
    if first_not_started(seen) < seen.len() {
        assert(seen[first_not_started(seen)] == hist[first_not_started(seen)]);
    }
    let info = device_info_plan(device, hist)->Done_0->Ok_0;
    let o: int = if device is Some {
        0
    } else {
        1
    };
    if device is None {
        assert(query_at(device, 0, seq!["get-serialno"@]) && info.serial == answer_to(hist, 0));
    }
    assert(query_at(device, o, getprop_args(device, "ro.product.brand"@)) && info.brand == answer_to(hist, o));
    assert(query_at(device, o + 1, getprop_args(device, "ro.product.model"@)) && info.model == answer_to(hist, o + 1));
    assert(query_at(device, o + 2, getprop_args(device, "ro.build.version.release"@)) && info.android == answer_to(hist, o + 2));
    assert(query_at(device, o + 3, getprop_args(device, "ro.build.version.sdk"@)) && info.sdk == answer_to(hist, o + 3));
    assert(query_at(device, o + 4, getprop_args(device, "ro.product.cpu.abi"@)) && info.abi == answer_to(hist, o + 4));
    assert(query_at(device, o + 5, with_device(device, seq!["shell"@, "wm"@, "size"@])) && info.resolution == answer_to(hist, o + 5));
    assert(query_at(device, o + 6, with_device(device, seq!["shell"@, "wm"@, "density"@])) && info.density == answer_to(hist, o + 6));
    assert(query_at(device, o + 7, with_device(device, seq!["shell"@, "dumpsys"@, "battery"@])) && info.battery == battery_line(answer_to(hist, o + 7)));
    assert(query_at(device, o + 8, with_device(device, seq!["shell"@, "df"@, "/data"@])) && info.storage == last_line(answer_to(hist, o + 8)));
}

// ---------------------------------------------------------------------
// The application list
// ---------------------------------------------------------------------

/// An item gives an application exactly when its `package` member is a
/// non-empty string, and then with that package. Its name is the first
/// string among the members `app_name`, `project_name` and `name`, in
/// that order, whatever the later ones hold; the package when none is.
pub proof fn law_app_name_order(item: JsonValue)
    ensures
        app_of_item(item) is Some <==> (json_text(json_get(item, "package"@)) matches Some(p)
            && p.len() > 0),
        app_of_item(item) matches Some(a) ==> json_text(json_get(item, "package"@)) == Some(
            a.package,
        ),
        app_of_item(item) matches Some(a) ==> (json_text(json_get(item, "app_name"@)) matches Some(
            n,
        ) ==> a.name == n),
        app_of_item(item) matches Some(a) ==> (json_text(json_get(item, "app_name"@)) is None
            ==> (json_text(json_get(item, "project_name"@)) matches Some(n) ==> a.name == n)),
        app_of_item(item) matches Some(a) ==> (json_text(json_get(item, "app_name"@)) is None
            && json_text(json_get(item, "project_name"@)) is None ==> (json_text(
            json_get(item, "name"@),
        ) matches Some(n) ==> a.name == n)),
        app_of_item(item) matches Some(a) ==> (json_text(json_get(item, "app_name"@)) is None
            && json_text(json_get(item, "project_name"@)) is None && json_text(
            json_get(item, "name"@),
        ) is None ==> a.name == a.package),
{
}

// ---------------------------------------------------------------------
// Commands addressed to a chosen device
// ---------------------------------------------------------------------

/// `-s d` addresses a command to device `d`; without a device the command
/// is left as it is.
pub proof fn law_device_prefix(d: Seq<char>, rest: Seq<Seq<char>>)
    ensures
        with_device(Some(d), rest) == seq!["-s"@, d] + rest,
        with_device(Some(d), rest).take(2) == seq!["-s"@, d],
        with_device(None, rest) == rest,
{
    assert((seq!["-s"@, d] + rest).take(2) =~= seq!["-s"@, d]);
}

/// Every command that an operation on a chosen device `d` asks for is the
/// command for no device, preceded by `-s d`; and the commands for no
/// device are the adb subcommands of the operations.
pub proof fn law_commands_address_the_device(d: Seq<char>, package: Seq<char>, path: Seq<char>, activity: Seq<char>, buffer: Option<Seq<char>>, output: Seq<char>, mbps: u32)
    ensures
        alarm_args(Some(d)) == seq!["-s"@, d] + alarm_args(None),
        alarm_args(None) == seq!["shell"@, "dumpsys"@, "alarm"@],
        activities_args(Some(d)) == seq!["-s"@, d] + activities_args(None),
        activities_args(None) == seq!["shell"@, "dumpsys"@, "activity"@, "activities"@],
        clear_log_args(Some(d)) == seq!["-s"@, d] + clear_log_args(None),
        clear_log_args(None) == seq!["logcat"@, "-c"@],
        resolve_pids_args(Some(d), package) == seq!["-s"@, d] + resolve_pids_args(None, package),
        resolve_pids_args(None, package) == seq!["shell"@, "pidof"@, package],
        open_backdoor_args(Some(d), package, activity) == seq!["-s"@, d] + open_backdoor_args(
            None,
            package,
            activity,
        ),
        open_backdoor_args(None, package, activity) == seq![
            "shell"@,
            "am"@,
            "start"@,
            "-n"@,
            package + "/"@ + activity,
        ],
        force_stop_args(Some(d), package) == seq!["-s"@, d] + force_stop_args(None, package),
        force_stop_args(None, package) == seq!["shell"@, "am"@, "force-stop"@, package],
        launch_args(Some(d), package) == seq!["-s"@, d] + launch_args(None, package),
        launch_args(None, package) == seq![
            "shell"@,
            "monkey"@,
            "-p"@,
            package,
            "-c"@,
            "android.intent.category.LAUNCHER"@,
            "1"@,
        ],
        screencap_args(Some(d)) == seq!["-s"@, d] + screencap_args(None),
        screencap_args(None) == seq!["exec-out"@, "screencap"@, "-p"@],
        install_args(Some(d), path) == seq!["-s"@, d] + install_args(None, path),
        install_args(None, path) == seq!["install"@, "-r"@, path],
        clear_data_args(Some(d), package) == seq!["-s"@, d] + clear_data_args(None, package),
        clear_data_args(None, package) == seq!["shell"@, "pm"@, "clear"@, package],
        uninstall_args(Some(d), package) == seq!["-s"@, d] + uninstall_args(None, package),
        uninstall_args(None, package) == seq!["uninstall"@, package],
        logcat_args_spec(Some(d), buffer) == seq!["-s"@, d] + logcat_args_spec(None, buffer),
        logcat_args_spec(None, None) == seq!["logcat"@, "-v"@, "threadtime"@],
        record_args_spec(Some(d), output, mbps) == seq!["-s"@, d] + record_args_spec(
            None,
            output,
            mbps,
        ),
        mirror_args_spec(Some(d), mbps) == seq!["-s"@, d] + mirror_args_spec(None, mbps),
        forall|k: int|
            0 <= k < device_info_queries(Some(d)).len() ==> (#[trigger] device_info_queries(
                Some(d),
            )[k]).take(2) == seq!["-s"@, d],
{
    let qs = device_info_queries(Some(d));
    assert forall|k: int| 0 <= k < qs.len() implies (#[trigger] qs[k]).take(2) == seq!["-s"@, d] by {
        assert(qs[k].take(2) =~= seq!["-s"@, d]);
    }
    assert(logcat_args_spec(Some(d), buffer) =~= seq!["-s"@, d] + logcat_args_spec(None, buffer));
    assert(logcat_args_spec(None, None) =~= seq!["logcat"@, "-v"@, "threadtime"@]);
}


// ---------------------------------------------------------------------
// Fields of a listed device
// ---------------------------------------------------------------------

proof fn lemma_prefixes_differ(f: Seq<char>)
    ensures
        starts_with(f, "model:"@) ==> !starts_with(f, "usb:"@) && !starts_with(f, "product:"@),
        starts_with(f, "product:"@) ==> !starts_with(f, "usb:"@),
{
    reveal_strlit("model:");
    reveal_strlit("product:");
    reveal_strlit("usb:");
    if starts_with(f, "model:"@) {
        assert(f[0] == f.subrange(0, "model:"@.len() as int)[0]);
        if starts_with(f, "usb:"@) {
            assert(f[0] == f.subrange(0, "usb:"@.len() as int)[0]);
        }
        if starts_with(f, "product:"@) {
            assert(f[0] == f.subrange(0, "product:"@.len() as int)[0]);
        }
    }
    if starts_with(f, "product:"@) && starts_with(f, "usb:"@) {
        assert(f[0] == f.subrange(0, "product:"@.len() as int)[0]);
        assert(f[0] == f.subrange(0, "usb:"@.len() as int)[0]);
    }
}

/// The value of the last field with prefix `key` among `fs`, or nothing.
pub open spec fn last_tagged(fs: Seq<Seq<char>>, key: Seq<char>, v: Seq<char>) -> bool {
    ||| (forall|j: int| 0 <= j < fs.len() ==> !starts_with(#[trigger] fs[j], key)) && v == Seq::<
        char,
    >::empty()
    ||| exists|j: int|
        0 <= j < fs.len() && starts_with(#[trigger] fs[j], key) && (forall|k: int|
            j < k < fs.len() ==> !starts_with(#[trigger] fs[k], key)) && v == fs[j].skip(
            key.len() as int,
        )
}

proof fn lemma_scan_fields(fs: Seq<Seq<char>>)
    ensures
        scan_fields(fs).2 <==> exists|j: int| 0 <= j < fs.len() && starts_with(#[trigger] fs[j], "usb:"@),
        last_tagged(fs, "model:"@, scan_fields(fs).0),
        last_tagged(fs, "product:"@, scan_fields(fs).1),
    decreases fs.len(),
{
    if fs.len() > 0 {
        let d = fs.drop_last();
        let f = fs.last();
        lemma_scan_fields(d);
        lemma_prefixes_differ(f);
        assert forall|j: int| 0 <= j < d.len() implies #[trigger] d[j] == fs[j] by {}
        assert(fs[fs.len() - 1] == f);
        let (m, p, u) = scan_fields(d);
        // usb
        if exists|j: int| 0 <= j < fs.len() && starts_with(#[trigger] fs[j], "usb:"@) {
            let j = choose|j: int| 0 <= j < fs.len() && starts_with(#[trigger] fs[j], "usb:"@);
            if j < d.len() {
                assert(starts_with(d[j], "usb:"@));
            }
        }
        // model
        if starts_with(f, "model:"@) {
            assert(last_tagged(fs, "model:"@, scan_fields(fs).0)) by {
                assert(scan_fields(fs).0 == fs[fs.len() - 1].skip("model:"@.len() as int));
            }
        } else {
            assert(scan_fields(fs).0 == m);
            if forall|j: int| 0 <= j < d.len() ==> !starts_with(#[trigger] d[j], "model:"@) {
                assert forall|j: int| 0 <= j < fs.len() implies !starts_with(#[trigger] fs[j], "model:"@) by {
                    if j < d.len() {
                        assert(!starts_with(d[j], "model:"@));
                    }
                }
            } else {
                let j = choose|j: int|
                    0 <= j < d.len() && starts_with(#[trigger] d[j], "model:"@) && (forall|k: int|
                        j < k < d.len() ==> !starts_with(#[trigger] d[k], "model:"@)) && m == d[j].skip(
                        "model:"@.len() as int,
                    );
                assert(starts_with(fs[j], "model:"@));
                assert forall|k: int| j < k < fs.len() implies !starts_with(#[trigger] fs[k], "model:"@) by {
                    if k < d.len() {
                        assert(!starts_with(d[k], "model:"@));
                    }
                }
            }
        }
        // product
        if starts_with(f, "product:"@) {
            assert(!starts_with(f, "model:"@));
            assert(last_tagged(fs, "product:"@, scan_fields(fs).1)) by {
                assert(scan_fields(fs).1 == fs[fs.len() - 1].skip("product:"@.len() as int));
            }
        } else {
            assert(scan_fields(fs).1 == p);
            if forall|j: int| 0 <= j < d.len() ==> !starts_with(#[trigger] d[j], "product:"@) {
                assert forall|j: int| 0 <= j < fs.len() implies !starts_with(#[trigger] fs[j], "product:"@) by {
                    if j < d.len() {
                        assert(!starts_with(d[j], "product:"@));
                    }
                }
            } else {
                let j = choose|j: int|
                    0 <= j < d.len() && starts_with(#[trigger] d[j], "product:"@) && (forall|k: int|
                        j < k < d.len() ==> !starts_with(#[trigger] d[k], "product:"@)) && p == d[j].skip(
                        "product:"@.len() as int,
                    );
                assert(starts_with(fs[j], "product:"@));
                assert forall|k: int| j < k < fs.len() implies !starts_with(#[trigger] fs[k], "product:"@) by {
                    if k < d.len() {
                        assert(!starts_with(d[k], "product:"@));
                    }
                }
            }
        }
    }
}

/// The fields of a device line: its first word is the serial, its second
/// the state; among the later words, the last one that starts with
/// `model:` gives the model and the last one that starts with `product:`
/// the product (nothing when there is none); the transport is `usb`
/// exactly when one of them starts with `usb:`, and `wifi` otherwise.
pub proof fn law_device_fields(ws: Seq<Seq<char>>)
    ensures
        ({
            let d = device_of_words(ws);
            let fs = if ws.len() > 2 {
                ws.skip(2)
            } else {
                Seq::<Seq<char>>::empty()
            };
            &&& ws.len() > 0 ==> d.serial == ws[0]
            &&& ws.len() > 1 ==> d.state == ws[1]
            &&& d.transport == if exists|j: int| 2 <= j < ws.len() && starts_with(#[trigger] ws[j], "usb:"@) {
                "usb"@
            } else {
                "wifi"@
            }
            &&& last_tagged(fs, "model:"@, d.model)
            &&& last_tagged(fs, "product:"@, d.product)
        }),
{
    let fs = if ws.len() > 2 {
        ws.skip(2)
    } else {
        Seq::<Seq<char>>::empty()
    };
    lemma_scan_fields(fs);
    if exists|j: int| 2 <= j < ws.len() && starts_with(#[trigger] ws[j], "usb:"@) {
        let j = choose|j: int| 2 <= j < ws.len() && starts_with(#[trigger] ws[j], "usb:"@);
        assert(fs[j - 2] == ws[j]);
    }
    if exists|j: int| 0 <= j < fs.len() && starts_with(#[trigger] fs[j], "usb:"@) {
        let j = choose|j: int| 0 <= j < fs.len() && starts_with(#[trigger] fs[j], "usb:"@);
        assert(fs[j] == ws[j + 2]);
    }
}

/// Each device of a listing is the one that the words of its line describe
/// (see [`law_device_fields`]).
pub proof fn law_device_from_its_line(text: Seq<char>)
    ensures
        forall|i: int|
            #![trigger filled_lines(after_header(text))[i]]
            0 <= i < parse_device_list(text).len() ==> parse_device_list(text)[i] == device_of_words(
                words(filled_lines(after_header(text))[i]),
            ),
{
    let body = after_header(text);
    lemma_devices_follow_lines(body);
    assert forall|i: int|
        #![trigger filled_lines(after_header(text))[i]]
        0 <= i < parse_device_list(text).len() implies parse_device_list(text)[i]
        == device_of_words(words(filled_lines(after_header(text))[i])) by {
        law_words_ignore_trim(filled_lines(body)[i]);
    }
}

// ---------------------------------------------------------------------
// Activity names
// ---------------------------------------------------------------------

/// A token names an activity exactly when, once braces and semicolons are
/// stripped from its ends, its first `/` is neither its first nor its last
/// character and the text before it contains a `.`. The package is that
/// text; the activity is the text after the `/`, prefixed with the package
/// when it starts with `.`.
pub proof fn law_activity_token(tok: Seq<char>)
    ensures
        ({
            let t = trim_by(tok, true);
            &&& (exists|s: int|
                0 < s < t.len() - 1 && t[s] == '/' && (forall|i: int| 0 <= i < s ==> t[i] != '/')
                    && contains(#[trigger] t.take(s), seq!['.'])) ==> activity_of_token(tok) is Some
            &&& activity_of_token(tok) matches Some((p, a)) ==> exists|s: int|
                0 < s < t.len() - 1 && t[s] == '/' && (forall|i: int| 0 <= i < s ==> t[i] != '/')
                    && p == #[trigger] t.take(s) && contains(p, seq!['.']) && a == if t[s + 1] == '.' {
                    p + t.skip(s + 1)
                } else {
                    t.skip(s + 1)
                }
        }),
{
    let t = trim_by(tok, true);
    lemma_find_char_valid(t, '/');
    if exists|s: int|
        0 < s < t.len() - 1 && t[s] == '/' && (forall|i: int| 0 <= i < s ==> t[i] != '/')
            && contains(#[trigger] t.take(s), seq!['.']) {
        let s = choose|s: int|
            0 < s < t.len() - 1 && t[s] == '/' && (forall|i: int| 0 <= i < s ==> t[i] != '/')
                && contains(#[trigger] t.take(s), seq!['.']);
        let f = find_char(t, '/');
        assert(f is Some);
        assert(f->0 == s) by {
            if f->0 < s {
                assert(t[f->0] != '/');
            }
            if f->0 > s {
                assert(t[s] != '/');
            }
        }
    }
    if activity_of_token(tok) is Some {
        let s = find_char(t, '/')->0;
        assert(t.skip(s + 1)[0] == t[s + 1]);
        assert(t.take(s) == t.take(s));
    }
}

proof fn lemma_first_named_token(ws: Seq<Seq<char>>, k: int)
    requires
        0 <= k < ws.len(),
        activity_of_token(ws[k]) is Some,
        forall|j: int| 0 <= j < k ==> activity_of_token(#[trigger] ws[j]) is None,
    ensures
        crate::activity::activity_in_tokens(ws) == activity_of_token(ws[k]),
    decreases k,
{
    if k > 0 {
        let t = ws.drop_first();
        assert(activity_of_token(ws[0]) is None);
        assert(t[k - 1] == ws[k]);
        assert forall|j: int| 0 <= j < k - 1 implies activity_of_token(#[trigger] t[j]) is None by {
            assert(t[j] == ws[j + 1]);
        }
        lemma_first_named_token(t, k - 1);
    }
}

proof fn lemma_no_named_token(ws: Seq<Seq<char>>)
    requires
        forall|j: int| 0 <= j < ws.len() ==> activity_of_token(#[trigger] ws[j]) is None,
    ensures
        crate::activity::activity_in_tokens(ws) is None,
    decreases ws.len(),
{
    if ws.len() > 0 {
        let t = ws.drop_first();
        assert(activity_of_token(ws[0]) is None);
        assert forall|j: int| 0 <= j < t.len() implies activity_of_token(#[trigger] t[j]) is None by {
            assert(t[j] == ws[j + 1]);
        }
        lemma_no_named_token(t);
    }
}

/// The activity of a line is named by its first word that names one; a
/// line none of whose words names one names none.
pub proof fn law_first_named_word(line: Seq<char>)
    ensures
        (forall|j: int| 0 <= j < words(line).len() ==> activity_of_token(#[trigger] words(line)[j])
            is None) ==> resumed_activity(line) is None,
        forall|k: int|
            0 <= k < words(line).len() && activity_of_token(#[trigger] words(line)[k]) is Some && (
            forall|j: int| 0 <= j < k ==> activity_of_token(words(line)[j]) is None)
                ==> resumed_activity(line) == activity_of_token(words(line)[k]),
{
    let ws = words(line);
    if forall|j: int| 0 <= j < ws.len() ==> activity_of_token(#[trigger] ws[j]) is None {
        lemma_no_named_token(ws);
    }
    assert forall|k: int|
        0 <= k < ws.len() && activity_of_token(#[trigger] ws[k]) is Some && (forall|j: int|
            0 <= j < k ==> activity_of_token(ws[j]) is None) implies resumed_activity(line)
        == activity_of_token(ws[k]) by {
        lemma_first_named_token(ws, k);
    }
}

// ---------------------------------------------------------------------
// Alarms
// ---------------------------------------------------------------------

/// The lines that mention `needle`, in order.
pub open spec fn mentioning(ls: Seq<Seq<char>>, needle: Seq<char>) -> Seq<Seq<char>> {
    ls.filter(|l: Seq<char>| contains(l, needle))
}

proof fn lemma_mentioning(ls: Seq<Seq<char>>, needle: Seq<char>)
    ensures
        lines_mentioning(ls, needle) == mentioning(ls, needle),
    decreases ls.len(),
{
    reveal(Seq::filter);
    if ls.len() > 0 {
        lemma_mentioning(ls.drop_last(), needle);
    }
}

/// The alarm report is the lines of the dump that mention the package, in
/// order and joined by newlines; when no line does, it says so.
pub proof fn law_alarm_report(out: Seq<char>, package: Seq<char>)
    ensures
        mentioning(lines(out), package).len() == 0 ==> crate::activity::alarm_report(out, package)
            == "Alarm 中未找到："@ + package,
        mentioning(lines(out), package).len() > 0 ==> crate::activity::alarm_report(out, package)
            == join(mentioning(lines(out), package), "\n"@),
{
    lemma_mentioning(lines(out), package);
}

// ---------------------------------------------------------------------
// The application list, item by item
// ---------------------------------------------------------------------

/// The items that describe an application, in order.
pub open spec fn app_items(items: Seq<JsonValue>) -> Seq<JsonValue> {
    items.filter(|x: JsonValue| app_of_item(x) is Some)
}

/// The list holds one application per item that describes one, in the
/// order of the items, and nothing else.
pub proof fn law_apps_follow_items(items: Seq<JsonValue>)
    ensures
        apps_of_items(items).len() == app_items(items).len(),
        forall|i: int|
            #![trigger app_items(items)[i]]
            0 <= i < apps_of_items(items).len() ==> app_of_item(app_items(items)[i]) == Some(
                apps_of_items(items)[i],
            ),
    decreases items.len(),
{
    reveal(Seq::filter);
    if items.len() > 0 {
        let d = items.drop_last();
        law_apps_follow_items(d);
        let f = app_items(items);
        let g = app_items(d);
        let prev = apps_of_items(d);
        assert forall|i: int|
            #![trigger app_items(items)[i]]
            0 <= i < apps_of_items(items).len() implies app_of_item(app_items(items)[i]) == Some(
            apps_of_items(items)[i],
        ) by {
            if i < prev.len() {
                assert(apps_of_items(items)[i] == prev[i]);
                assert(f[i] == g[i]);
                assert(app_of_item(app_items(d)[i]) == Some(prev[i]));
            }
        }
    }
}

// ---------------------------------------------------------------------
// Reading command output
// ---------------------------------------------------------------------

/// A short command answers with trimmed output: on success its stdout, or
/// its stderr when stdout is blank; on failure its stderr, or its stdout
/// when stderr is blank. A command that cannot start answers with the
/// reason, after `无法执行 adb：`.
pub proof fn law_capture_choice(success: bool, stdout: Seq<u8>, stderr: Seq<u8>, e: Seq<char>)
    ensures
        success && text_of(stdout).len() > 0 ==> capture(
            OutcomeView::Exited { success, stdout, stderr },
        ) == Ok::<Seq<char>, Seq<char>>(text_of(stdout)),
        success && text_of(stdout).len() == 0 ==> capture(
            OutcomeView::Exited { success, stdout, stderr },
        ) == Ok::<Seq<char>, Seq<char>>(text_of(stderr)),
        !success && text_of(stderr).len() > 0 ==> capture(
            OutcomeView::Exited { success, stdout, stderr },
        ) == Err::<Seq<char>, Seq<char>>(text_of(stderr)),
        !success && text_of(stderr).len() == 0 ==> capture(
            OutcomeView::Exited { success, stdout, stderr },
        ) == Err::<Seq<char>, Seq<char>>(text_of(stdout)),
        capture(OutcomeView::NotStarted(e)) == Err::<Seq<char>, Seq<char>>("无法执行 adb："@ + e),
        status_only(OutcomeView::Exited { success, stdout, stderr }) == if success {
            Ok::<(), Seq<char>>(())
        } else {
            Err(text_of(stderr))
        },
        shell_text(OutcomeView::Exited { success, stdout, stderr }) == Ok::<Seq<char>, Seq<char>>(
            text_of(stdout),
        ),
{
}

/// The process ids are the words of what `pidof` printed.
pub proof fn law_pids_are_words(success: bool, stdout: Seq<u8>, stderr: Seq<u8>)
    ensures
        crate::ops::pids_result(OutcomeView::Exited { success, stdout, stderr }) == Ok::<
            Seq<Seq<char>>,
            Seq<char>,
        >(words(crate::command::utf8_lossy(stdout))),
{
    let raw = crate::command::utf8_lossy(stdout);
    law_words_ignore_trim(raw);
    if text_of(stdout).len() == 0 {
        assert(words(trim(raw)) =~= Seq::<Seq<char>>::empty());
    }
}


// ---------------------------------------------------------------------
// Whole answers
// ---------------------------------------------------------------------

/// A successful listing gives one device per non-blank line after its
/// header, in order, each the device its line's words describe; a failed
/// one gives its trimmed stderr, or a fixed message when that is blank.
pub proof fn law_list_devices_answer(success: bool, stdout: Seq<u8>, stderr: Seq<u8>)
    ensures
        ({
            let r = crate::devices::devices_result(OutcomeView::Exited { success, stdout, stderr });
            let ls = filled_lines(after_header(crate::command::utf8_lossy(stdout)));
            &&& success ==> r is Ok && r->Ok_0.len() == ls.len() && forall|i: int|
                #![trigger ls[i]]
                0 <= i < ls.len() ==> r->Ok_0[i] == device_of_words(words(ls[i]))
            &&& !success && text_of(stderr).len() > 0 ==> r == Err::<Seq<DeviceView>, Seq<char>>(
                text_of(stderr),
            )
            &&& !success && text_of(stderr).len() == 0 ==> r == Err::<Seq<DeviceView>, Seq<char>>(
                "adb devices 执行失败"@,
            )
        }),
{
    let text = crate::command::utf8_lossy(stdout);
    law_one_device_per_line(text);
    law_device_from_its_line(text);
}

/// The activity answer comes from the lines of the trimmed dump: the
/// first line that mentions `ResumedActivity` and names an activity, or
/// the note that none was found.
pub proof fn law_current_activity_answer(success: bool, stdout: Seq<u8>, stderr: Seq<u8>)
    ensures
        ({
            let r = crate::activity::current_activity_result(
                OutcomeView::Exited { success, stdout, stderr },
            );
            let ls = lines(text_of(stdout));
            &&& (forall|k: int| 0 <= k < ls.len() ==> !names_resumed(#[trigger] ls[k])) ==> r
                == Ok::<Seq<char>, Seq<char>>("未找到当前 Activity"@)
            &&& forall|k: int|
                0 <= k < ls.len() && names_resumed(#[trigger] ls[k]) && (forall|j: int|
                    0 <= j < k ==> !names_resumed(ls[j])) ==> r == Ok::<Seq<char>, Seq<char>>(
                    named_report(ls[k]),
                )
        }),
{
    let ls = lines(text_of(stdout));
    law_activity_report_source(ls);
    assert forall|k: int|
        0 <= k < ls.len() && names_resumed(#[trigger] ls[k]) && (forall|j: int|
            0 <= j < k ==> !names_resumed(ls[j])) implies crate::activity::activity_report(ls)
        == named_report(ls[k]) by {
        lemma_report_first(ls, k);
    }
}

/// The alarm answer lists the lines of the trimmed dump that mention the
/// package, or says that none does.
pub proof fn law_app_alarm_answer(success: bool, stdout: Seq<u8>, stderr: Seq<u8>, package: Seq<char>)
    ensures
        ({
            let r = crate::activity::app_alarm_result(
                OutcomeView::Exited { success, stdout, stderr },
                package,
            );
            let sel = mentioning(lines(text_of(stdout)), package);
            &&& sel.len() == 0 ==> r == Ok::<Seq<char>, Seq<char>>("Alarm 中未找到："@ + package)
            &&& sel.len() > 0 ==> r == Ok::<Seq<char>, Seq<char>>(join(sel, "\n"@))
        }),
{
    law_alarm_report(text_of(stdout), package);
}

proof fn lemma_pairing_address_first(ls: Seq<Seq<char>>, k: int)
    requires
        0 <= k < ls.len(),
        contains(ls[k], "_adb-tls-pairing._tcp"@),
        forall|j: int| 0 <= j < k ==> !contains(#[trigger] ls[j], "_adb-tls-pairing._tcp"@),
    ensures
        crate::ops::pairing_address_in(ls) == if words(ls[k]).len() > 2 {
            Some(words(ls[k])[2])
        } else {
            None
        },
    decreases k,
{
    if k > 0 {
        let t = ls.drop_first();
        assert(!contains(ls[0], "_adb-tls-pairing._tcp"@));
        assert(t[k - 1] == ls[k]);
        assert forall|j: int| 0 <= j < k - 1 implies !contains(#[trigger] t[j], "_adb-tls-pairing._tcp"@) by {
            assert(t[j] == ls[j + 1]);
        }
        lemma_pairing_address_first(t, k - 1);
    }
}

proof fn lemma_pairing_address_none(ls: Seq<Seq<char>>)
    requires
        forall|j: int| 0 <= j < ls.len() ==> !contains(#[trigger] ls[j], "_adb-tls-pairing._tcp"@),
    ensures
        crate::ops::pairing_address_in(ls) is None,
    decreases ls.len(),
{
    if ls.len() > 0 {
        let t = ls.drop_first();
        assert(!contains(ls[0], "_adb-tls-pairing._tcp"@));
        assert forall|j: int| 0 <= j < t.len() implies !contains(#[trigger] t[j], "_adb-tls-pairing._tcp"@) by {
            assert(t[j] == ls[j + 1]);
        }
        lemma_pairing_address_none(t);
    }
}

/// The mDNS answer is the third word of the first line of the listing that
/// announces `_adb-tls-pairing._tcp` (nothing when that line has fewer
/// words, or when no line announces it), whatever the exit status.
pub proof fn law_mdns_answer(success: bool, stdout: Seq<u8>, stderr: Seq<u8>)
    ensures
        ({
            let r = crate::ops::mdns_result(OutcomeView::Exited { success, stdout, stderr });
            let ls = lines(crate::command::utf8_lossy(stdout));
            &&& (forall|j: int| 0 <= j < ls.len() ==> !contains(#[trigger] ls[j], "_adb-tls-pairing._tcp"@))
                ==> r == Ok::<Option<Seq<char>>, Seq<char>>(None)
            &&& forall|k: int|
                0 <= k < ls.len() && contains(#[trigger] ls[k], "_adb-tls-pairing._tcp"@) && (forall|j: int|
                    0 <= j < k ==> !contains(ls[j], "_adb-tls-pairing._tcp"@)) ==> r == Ok::<
                    Option<Seq<char>>,
                    Seq<char>,
                >(
                    if words(ls[k]).len() > 2 {
                        Some(words(ls[k])[2])
                    } else {
                        None
                    },
                )
        }),
{
    let ls = lines(crate::command::utf8_lossy(stdout));
    if forall|j: int| 0 <= j < ls.len() ==> !contains(#[trigger] ls[j], "_adb-tls-pairing._tcp"@) {
        lemma_pairing_address_none(ls);
    }
    assert forall|k: int|
        0 <= k < ls.len() && contains(#[trigger] ls[k], "_adb-tls-pairing._tcp"@) && (forall|j: int|
            0 <= j < k ==> !contains(ls[j], "_adb-tls-pairing._tcp"@)) implies crate::ops::pairing_address_in(ls)
        == if words(ls[k]).len() > 2 {
        Some(words(ls[k])[2])
    } else {
        None
    } by {
        lemma_pairing_address_first(ls, k);
    }
}


// ---------------------------------------------------------------------
// Binaries
// ---------------------------------------------------------------------

/// The environment gives a non-empty path.
pub open spec fn env_nonempty(env_value: Option<Seq<char>>) -> bool {
    match env_value {
        Some(p) => p.len() > 0,
        None => false,
    }
}

/// A non-empty path from the environment wins; otherwise a bundled binary
/// that exists; otherwise the fallback. A configured binary is used as it
/// is, and `adb` / `scrcpy` from the PATH otherwise.
pub proof fn law_binary_priority(
    env_value: Option<Seq<char>>,
    bundled: Option<Seq<char>>,
    fallback: Seq<char>,
    configured: Option<Seq<char>>,
    default: Seq<char>,
)
    ensures
        match env_value {
            Some(p) => p.len() > 0 ==> chosen_path(env_value, bundled, fallback) == p,
            None => true,
        },
        !env_nonempty(env_value) ==> match bundled {
            Some(b) => chosen_path(env_value, bundled, fallback) == b,
            None => chosen_path(env_value, bundled, fallback) == fallback,
        },
        match configured {
            Some(c) => configured_or(configured, default) == c,
            None => configured_or(configured, default) == default,
        },
{
}

/// scrcpy always learns which `adb` to use, and learns of a server exactly
/// when one is known.
pub proof fn law_scrcpy_env(adb: Seq<char>, server: Seq<char>)
    ensures
        scrcpy_env_spec(adb, server).len() > 0,
        scrcpy_env_spec(adb, server)[0] == ("ADB"@, adb),
        scrcpy_env_spec(adb, server).len() == 2 <==> server.len() > 0,
        server.len() > 0 ==> scrcpy_env_spec(adb, server)[1] == ("SCRCPY_SERVER_PATH"@, server),
        scrcpy_env_spec(adb, server).len() <= 2,
{
}

} // verus!
