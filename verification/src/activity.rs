//! Reports read from `dumpsys`: the resumed activity and an application's
//! alarms.
use vstd::prelude::*;
use crate::command::{history_of, one_command, shell_output, shell_text, with_device, device_args, strings, AdbStep, Outcome, OutcomeView};
use crate::text::{chars_of, concat, contains, contains_chars, copy_str, find_char, find_char_exec, join, join_strings, lines, seqs_of, split_lines, split_words, string_of, trim_by, trim_chars_by, words, strs_of, chars_range, lemma_find_char_valid, append};

verus! {

/// The package and full activity named by one token of an activity
/// record, such as `com.example/.MainActivity}`: braces and semicolons
/// are stripped from its ends, it must hold a `/` that is neither its
/// first nor its last character, and the package before that `/` must
/// contain a `.`. An activity that starts with `.` is relative to the
/// package and is completed with it.
pub open spec fn activity_of_token(tok: Seq<char>) -> Option<(Seq<char>, Seq<char>)> {
    let t = trim_by(tok, true);
    match find_char(t, '/') {
        None => None,
        Some(s) => if s == 0 || s >= t.len() - 1 {
            None
        } else {
            let pkg = t.take(s);
            let act = t.skip(s + 1);
            if !contains(pkg, seq!['.']) {
                None
            } else {
                Some(
                    (
                        pkg,
                        if act[0] == '.' {
                            pkg + act
                        } else {
                            act
                        },
                    ),
                )
            }
        },
    }
}

/// The first token that names an activity.
pub open spec fn activity_in_tokens(toks: Seq<Seq<char>>) -> Option<(Seq<char>, Seq<char>)>
    decreases toks.len(),
{
    if toks.len() == 0 {
        None
    } else {
        match activity_of_token(toks[0]) {
            Some(r) => Some(r),
            None => activity_in_tokens(toks.drop_first()),
        }
    }
}

/// The package and activity of a line such as
/// `ResumedActivity: ActivityRecord{hash u0 com.example/.Main t123}`.
pub open spec fn resumed_activity(line: Seq<char>) -> Option<(Seq<char>, Seq<char>)> {
    activity_in_tokens(words(line))
}

/// The report of the first line that mentions `ResumedActivity` and names
/// an activity.
pub open spec fn activity_report(ls: Seq<Seq<char>>) -> Seq<char>
    decreases ls.len(),
{
    if ls.len() == 0 {
        "未找到当前 Activity"@
    } else if contains(ls[0], "ResumedActivity"@) && resumed_activity(ls[0]) is Some {
        let (p, a) = resumed_activity(ls[0])->0;
        "包名："@ + p + "\nActivity："@ + a
    } else {
        activity_report(ls.drop_first())
    }
}

/// `adb [-s <device>] shell dumpsys activity activities`.
pub open spec fn activities_args(device: Option<Seq<char>>) -> Seq<Seq<char>> {
    with_device(device, seq!["shell"@, "dumpsys"@, "activity"@, "activities"@])
}

/// The report on the resumed activity, from the activity dump.
pub open spec fn current_activity_result(o: OutcomeView) -> Result<Seq<char>, Seq<char>> {
    match shell_text(o) {
        Ok(out) => Ok(activity_report(lines(out))),
        Err(e) => Err(e),
    }
}

/// The lines that contain `needle`, in order.
pub open spec fn lines_mentioning(ls: Seq<Seq<char>>, needle: Seq<char>) -> Seq<Seq<char>>
    decreases ls.len(),
{
    if ls.len() == 0 {
        seq![]
    } else {
        let prev = lines_mentioning(ls.drop_last(), needle);
        if contains(ls.last(), needle) {
            prev.push(ls.last())
        } else {
            prev
        }
    }
}

/// The alarm report of a package: the lines of the alarm dump that
/// mention it, one per line, or a note that there are none.
pub open spec fn alarm_report(out: Seq<char>, package: Seq<char>) -> Seq<char> {
    let sel = lines_mentioning(lines(out), package);
    if sel.len() == 0 {
        "Alarm 中未找到："@ + package
    } else {
        join(sel, "\n"@)
    }
}

/// `adb [-s <device>] shell dumpsys alarm`.
pub open spec fn alarm_args(device: Option<Seq<char>>) -> Seq<Seq<char>> {
    with_device(device, seq!["shell"@, "dumpsys"@, "alarm"@])
}

/// The alarm report, from the alarm dump.
pub open spec fn app_alarm_result(o: OutcomeView, package: Seq<char>) -> Result<
    Seq<char>,
    Seq<char>,
> {
    match shell_text(o) {
        Ok(out) => Ok(alarm_report(out, package)),
        Err(e) => Err(e),
    }
}

// ---------------------------------------------------------------------
// Code
// ---------------------------------------------------------------------

/// The package and activity named by one token (see
/// [`activity_of_token`]).
fn activity_from_token(tok: &Vec<char>) -> (res: Option<(String, String)>)
    ensures
        res.deep_view() == activity_of_token(tok@),
{
    let t = trim_chars_by(tok, true);
    proof {
        lemma_find_char_valid(t@, '/');
    }
    match find_char_exec(&t, '/') {
        None => None,
        Some(s) => {
            if s == 0 || s >= t.len() - 1 {
                return None;
            }
            let pkg = chars_range(&t, 0, s);
            let act = chars_range(&t, s + 1, t.len());
            assert(pkg@ =~= t@.take(s as int));
            assert(act@ =~= t@.skip(s + 1));
            let dot: Vec<char> = vec!['.'];
            assert(dot@ =~= seq!['.']);
            if !contains_chars(&pkg, &dot) {
                return None;
            }
            let p = string_of(&pkg);
            let a = string_of(&act);
            if act[0] == '.' {
                let full = concat(p.as_str(), a.as_str());
                Some((p, full))
            } else {
                Some((p, a))
            }
        },
    }
}

/// The package and full activity name in a `ResumedActivity` line (see
/// [`resumed_activity`]).
pub fn parse_resumed_activity(line: &str) -> (res: Option<(String, String)>)
    ensures
        res.deep_view() == resumed_activity(line@),
{
    let cs = chars_of(line);
    let toks = split_words(&cs);
    let ghost tv = seqs_of(toks@);
    let mut i: usize = 0;
    assert(tv.skip(0) =~= tv);
    while i < toks.len()
        invariant
            i <= toks.len(),
            tv == seqs_of(toks@),
            tv == words(line@),
            activity_in_tokens(tv.skip(i as int)) == activity_in_tokens(tv),
        decreases toks.len() - i,
    {
        let ghost rest = tv.skip(i as int);
        assert(rest[0] == toks@[i as int]@);
        assert(rest.drop_first() =~= tv.skip(i + 1));
        let r = activity_from_token(&toks[i]);
        if r.is_some() {
            return r;
        }
        i = i + 1;
    }
    None
}

/// The report of the first line naming a resumed activity (see
/// [`activity_report`]).
fn report_activity(out: &str) -> (res: String)
    ensures
        res@ == activity_report(lines(out@)),
{
    let cs = chars_of(out);
    let ls = split_lines(&cs);
    let marker = chars_of("ResumedActivity");
    let ghost lv = seqs_of(ls@);
    let mut i: usize = 0;
    assert(lv.skip(0) =~= lv);
    while i < ls.len()
        invariant
            i <= ls.len(),
            lv == seqs_of(ls@),
            lv == lines(out@),
            marker@ == "ResumedActivity"@,
            activity_report(lv.skip(i as int)) == activity_report(lv),
        decreases ls.len() - i,
    {
        let ghost rest = lv.skip(i as int);
        assert(rest[0] == ls@[i as int]@);
        assert(rest.drop_first() =~= lv.skip(i + 1));
        if contains_chars(&ls[i], &marker) {
            let line = string_of(&ls[i]);
            match parse_resumed_activity(line.as_str()) {
                Some((p, a)) => {
                    let mut res = concat("包名：", p.as_str());
                    append(&mut res, "\nActivity：");
                    append(&mut res, a.as_str());
                    return res;
                },
                None => {},
            }
        }
        i = i + 1;
    }
    copy_str("未找到当前 Activity")
}

/// The resumed activity of a device: its package and full activity name.
pub fn current_activity(device: Option<&str>, history: &Vec<Outcome>) -> (step: AdbStep<String>)
    ensures
        step.deep_view() == one_command(
            activities_args(device.deep_view()),
            history_of(history@),
            |o: OutcomeView| current_activity_result(o),
        ),
{
    if history.len() == 0 {
        let rest = strings(&vec!["shell", "dumpsys", "activity", "activities"]);
        assert(rest.deep_view() =~= seq!["shell"@, "dumpsys"@, "activity"@, "activities"@]);
        return AdbStep::Run(device_args(device, rest));
    }
    assert(history_of(history@)[0] == history@[0]@);
    match shell_output(&history[0]) {
        Ok(out) => AdbStep::Done(Ok(report_activity(out.as_str()))),
        Err(e) => AdbStep::Done(Err(e)),
    }
}

/// The alarm report of a package (see [`alarm_report`]).
fn report_alarms(out: &str, package: &str) -> (res: String)
    ensures
        res@ == alarm_report(out@, package@),
{
    let cs = chars_of(out);
    let ls = split_lines(&cs);
    let needle = chars_of(package);
    let ghost lv = seqs_of(ls@);
    let mut sel: Vec<String> = Vec::new();
    let mut i: usize = 0;
    assert(lv.take(0) =~= seq![]);
    assert(strs_of(sel@) =~= seq![]);
    while i < ls.len()
        invariant
            i <= ls.len(),
            lv == seqs_of(ls@),
            lv == lines(out@),
            needle@ == package@,
            strs_of(sel@) == lines_mentioning(lv.take(i as int), package@),
        decreases ls.len() - i,
    {
        assert(lv.take(i + 1).drop_last() =~= lv.take(i as int));
        assert(lv.take(i + 1).last() == ls@[i as int]@);
        if contains_chars(&ls[i], &needle) {
            let line = string_of(&ls[i]);
            proof {
                crate::text::lemma_strs_of_push(sel@, line);
            }
            sel.push(line);
        }
        i = i + 1;
    }
    assert(lv.take(ls.len() as int) =~= lv);
    if sel.len() == 0 {
        concat("Alarm 中未找到：", package)
    } else {
        join_strings(&sel, "\n")
    }
}

/// The alarms of an application (`dumpsys alarm`, filtered by package).
pub fn app_alarm(device: Option<&str>, package: &str, history: &Vec<Outcome>) -> (step: AdbStep<
    String,
>)
    ensures
        step.deep_view() == one_command(
            alarm_args(device.deep_view()),
            history_of(history@),
            |o: OutcomeView| app_alarm_result(o, package@),
        ),
{
    if history.len() == 0 {
        let rest = strings(&vec!["shell", "dumpsys", "alarm"]);
        assert(rest.deep_view() =~= seq!["shell"@, "dumpsys"@, "alarm"@]);
        return AdbStep::Run(device_args(device, rest));
    }
    assert(history_of(history@)[0] == history@[0]@);
    match shell_output(&history[0]) {
        Ok(out) => AdbStep::Done(Ok(report_alarms(out.as_str(), package))),
        Err(e) => AdbStep::Done(Err(e)),
    }
}

} // verus!
