//! Device information, gathered with a sequence of shell queries.
use vstd::prelude::*;
use crate::command::{history_of, run_failed, run_failed_message, text_of, with_device, device_args, strings, push_arg, output_text, AdbStep, Outcome, OutcomeView, StepView};
use crate::text::{chars_of, contains, contains_chars, copy_str, lines, seqs_of, split_lines, string_of, trim, trim_chars};

verus! {

/// Device information.
#[derive(Debug, PartialEq, Eq)]
pub struct DeviceInfo {
    pub serial: String,
    pub brand: String,
    pub model: String,
    pub android: String,
    pub sdk: String,
    pub abi: String,
    pub resolution: String,
    pub density: String,
    pub battery: String,
    pub storage: String,
}

/// The mathematical model of a [`DeviceInfo`].
pub struct DeviceInfoView {
    pub serial: Seq<char>,
    pub brand: Seq<char>,
    pub model: Seq<char>,
    pub android: Seq<char>,
    pub sdk: Seq<char>,
    pub abi: Seq<char>,
    pub resolution: Seq<char>,
    pub density: Seq<char>,
    pub battery: Seq<char>,
    pub storage: Seq<char>,
}

impl DeepView for DeviceInfo {
    type V = DeviceInfoView;

    open spec fn deep_view(&self) -> DeviceInfoView {
        DeviceInfoView {
            serial: self.serial@,
            brand: self.brand@,
            model: self.model@,
            android: self.android@,
            sdk: self.sdk@,
            abi: self.abi@,
            resolution: self.resolution@,
            density: self.density@,
            battery: self.battery@,
            storage: self.storage@,
        }
    }
}

/// `adb [-s <device>] shell getprop <key>`.
pub open spec fn getprop_args(device: Option<Seq<char>>, key: Seq<char>) -> Seq<Seq<char>> {
    with_device(device, seq!["shell"@, "getprop"@, key])
}

/// The queries that gather device information, in order: the serial
/// number (only when no device is named), five properties, the screen
/// size and density, the battery state and the `/data` usage.
pub open spec fn device_info_queries(device: Option<Seq<char>>) -> Seq<Seq<Seq<char>>> {
    let props = seq![
        getprop_args(device, "ro.product.brand"@),
        getprop_args(device, "ro.product.model"@),
        getprop_args(device, "ro.build.version.release"@),
        getprop_args(device, "ro.build.version.sdk"@),
        getprop_args(device, "ro.product.cpu.abi"@),
        with_device(device, seq!["shell"@, "wm"@, "size"@]),
        with_device(device, seq!["shell"@, "wm"@, "density"@]),
        with_device(device, seq!["shell"@, "dumpsys"@, "battery"@]),
        with_device(device, seq!["shell"@, "df"@, "/data"@]),
    ];
    match device {
        Some(_) => props,
        None => seq![seq!["get-serialno"@]] + props,
    }
}

/// The first line that contains `needle`.
pub open spec fn first_line_with(ls: Seq<Seq<char>>, needle: Seq<char>) -> Option<Seq<char>>
    decreases ls.len(),
{
    if ls.len() == 0 {
        None
    } else if contains(ls[0], needle) {
        Some(ls[0])
    } else {
        first_line_with(ls.drop_first(), needle)
    }
}

/// The battery level line of a battery dump, trimmed, or nothing.
pub open spec fn battery_line(out: Seq<char>) -> Seq<char> {
    match first_line_with(lines(out), "level:"@) {
        Some(l) => trim(l),
        None => seq![],
    }
}

/// The last line of a text, or nothing.
pub open spec fn last_line(out: Seq<char>) -> Seq<char> {
    let ls = lines(out);
    if ls.len() > 0 {
        ls.last()
    } else {
        seq![]
    }
}

/// The information that the answers `outs` to the queries give.
pub open spec fn assemble_info(device: Option<Seq<char>>, outs: Seq<Seq<char>>) -> DeviceInfoView {
    let o: int = if device is Some {
        0
    } else {
        1
    };
    DeviceInfoView {
        serial: match device {
            Some(d) => d,
            None => outs[0],
        },
        brand: outs[o],
        model: outs[o + 1],
        android: outs[o + 2],
        sdk: outs[o + 3],
        abi: outs[o + 4],
        resolution: outs[o + 5],
        density: outs[o + 6],
        battery: battery_line(outs[o + 7]),
        storage: last_line(outs[o + 8]),
    }
}

/// The position of the first outcome whose process did not start, or the
/// length of the history when all did.
pub open spec fn first_not_started(h: Seq<OutcomeView>) -> int
    decreases h.len(),
{
    if h.len() == 0 {
        0
    } else if h[0] is NotStarted {
        0
    } else {
        1 + first_not_started(h.drop_first())
    }
}

/// Gathering device information: run the queries in order, stop at the
/// first one that cannot be started, and assemble the trimmed outputs.
pub open spec fn device_info_plan(device: Option<Seq<char>>, hist: Seq<OutcomeView>) -> StepView<
    DeviceInfoView,
> {
    let qs = device_info_queries(device);
    let seen = if hist.len() < qs.len() {
        hist
    } else {
        hist.take(qs.len() as int)
    };
    let f = first_not_started(seen);
    if f < seen.len() {
        StepView::Done(Err(run_failed(hist[f]->NotStarted_0)))
    } else if hist.len() < qs.len() {
        StepView::Run(qs[hist.len() as int])
    } else {
        StepView::Done(
            Ok(assemble_info(device, Seq::new(qs.len(), |i: int| text_of(hist[i]->Exited_stdout)))),
        )
    }
}

// ---------------------------------------------------------------------
// Code
// ---------------------------------------------------------------------

/// The query for one system property.
pub fn getprop(device: Option<&str>, key: &str) -> (args: Vec<String>)
    ensures
        args.deep_view() == getprop_args(device.deep_view(), key@),
{
    let mut rest = strings(&vec!["shell", "getprop"]);
    push_arg(&mut rest, copy_str(key));
    assert(rest.deep_view() =~= seq!["shell"@, "getprop"@, key@]);
    device_args(device, rest)
}

fn shell_query(device: Option<&str>, a: &str, b: &str) -> (args: Vec<String>)
    ensures
        args.deep_view() == with_device(device.deep_view(), seq!["shell"@, a@, b@]),
{
    let mut rest = strings(&vec!["shell"]);
    push_arg(&mut rest, copy_str(a));
    push_arg(&mut rest, copy_str(b));
    assert(rest.deep_view() =~= seq!["shell"@, a@, b@]);
    device_args(device, rest)
}

fn push_query(qs: &mut Vec<Vec<String>>, q: Vec<String>)
    ensures
        final(qs).deep_view() == old(qs).deep_view().push(q.deep_view()),
{
    let ghost before = old(qs)@;
    qs.push(q);
    assert forall|k: int| 0 <= k < before.len() + 1 implies #[trigger] qs.deep_view()[k]
        == old(qs).deep_view().push(q.deep_view())[k] by {
        if k < before.len() {
            assert(qs@[k] == before[k]);
        }
    }
    assert(qs.deep_view() =~= old(qs).deep_view().push(q.deep_view()));
}

/// The queries of [`device_info_queries`].
fn info_queries(device: Option<&str>) -> (qs: Vec<Vec<String>>)
    ensures
        qs.deep_view() == device_info_queries(device.deep_view()),
{
    let mut qs: Vec<Vec<String>> = Vec::new();
    assert(qs.deep_view() =~= seq![]);
    if device.is_none() {
        let q = strings(&vec!["get-serialno"]);
        assert(q.deep_view() =~= seq!["get-serialno"@]);
        push_query(&mut qs, q);
    }
    let ghost head = qs.deep_view();
    assert(device is None ==> head =~= seq![seq!["get-serialno"@]]);
    assert(device is Some ==> head =~= seq![]);
    push_query(&mut qs, getprop(device, "ro.product.brand"));
    push_query(&mut qs, getprop(device, "ro.product.model"));
    push_query(&mut qs, getprop(device, "ro.build.version.release"));
    push_query(&mut qs, getprop(device, "ro.build.version.sdk"));
    push_query(&mut qs, getprop(device, "ro.product.cpu.abi"));
    push_query(&mut qs, shell_query(device, "wm", "size"));
    push_query(&mut qs, shell_query(device, "wm", "density"));
    push_query(&mut qs, shell_query(device, "dumpsys", "battery"));
    push_query(&mut qs, shell_query(device, "df", "/data"));
    let ghost d = device.deep_view();
    let ghost props = seq![
        getprop_args(d, "ro.product.brand"@),
        getprop_args(d, "ro.product.model"@),
        getprop_args(d, "ro.build.version.release"@),
        getprop_args(d, "ro.build.version.sdk"@),
        getprop_args(d, "ro.product.cpu.abi"@),
        with_device(d, seq!["shell"@, "wm"@, "size"@]),
        with_device(d, seq!["shell"@, "wm"@, "density"@]),
        with_device(d, seq!["shell"@, "dumpsys"@, "battery"@]),
        with_device(d, seq!["shell"@, "df"@, "/data"@]),
    ];
    assert(qs.deep_view() =~= head + props);
    qs
}

/// The battery level line of a battery dump (see [`battery_line`]).
fn battery_level(out: &str) -> (res: String)
    ensures
        res@ == battery_line(out@),
{
    let cs = chars_of(out);
    let ls = split_lines(&cs);
    let marker = chars_of("level:");
    let ghost lv = seqs_of(ls@);
    let mut i: usize = 0;
    assert(lv.skip(0) =~= lv);
    while i < ls.len()
        invariant
            i <= ls.len(),
            lv == seqs_of(ls@),
            lv == lines(out@),
            marker@ == "level:"@,
            first_line_with(lv.skip(i as int), "level:"@) == first_line_with(lv, "level:"@),
        decreases ls.len() - i,
    {
        let ghost rest = lv.skip(i as int);
        assert(rest[0] == ls@[i as int]@);
        assert(rest.drop_first() =~= lv.skip(i + 1));
        if contains_chars(&ls[i], &marker) {
            let t = trim_chars(&ls[i]);
            return string_of(&t);
        }
        i = i + 1;
    }
    String::new()
}

/// The last line of a text (see [`last_line`]).
fn final_line(out: &str) -> (res: String)
    ensures
        res@ == last_line(out@),
{
    let cs = chars_of(out);
    let ls = split_lines(&cs);
    if ls.len() > 0 {
        assert(seqs_of(ls@).last() == ls@[ls.len() - 1]@);
        string_of(&ls[ls.len() - 1])
    } else {
        String::new()
    }
}

/// One step of gathering device information: the next query to run, or
/// the information (see [`device_info_plan`]).
pub fn device_info(device: Option<&str>, history: &Vec<Outcome>) -> (step: AdbStep<DeviceInfo>)
    ensures
        step.deep_view() == device_info_plan(device.deep_view(), history_of(history@)),
{
    let ghost hv = history_of(history@);
    let qs = info_queries(device);
    let n = qs.len();
    let ghost seen = if hv.len() < n {
        hv
    } else {
        hv.take(n as int)
    };
    let limit = if history.len() < n {
        history.len()
    } else {
        n
    };
    let mut outs: Vec<String> = Vec::new();
    let mut i: usize = 0;
    assert(seen.skip(0) =~= seen);
    while i < limit
        invariant
            i <= limit,
            limit == seen.len(),
            limit <= history.len(),
            limit <= n,
            n == device_info_queries(device.deep_view()).len(),
            hv == history_of(history@),
            seen == (if hv.len() < n {
                hv
            } else {
                hv.take(n as int)
            }),
            first_not_started(seen) == i + first_not_started(seen.skip(i as int)),
            outs@.len() == i,
            forall|k: int| 0 <= k < i ==> #[trigger] outs@[k]@ == text_of(hv[k]->Exited_stdout),
            forall|k: int| 0 <= k < i ==> #[trigger] hv[k] is Exited,
        decreases limit - i,
    {
        let ghost rest = seen.skip(i as int);
        assert(rest[0] == hv[i as int]);
        assert(hv[i as int] == history@[i as int]@);
        assert(rest.drop_first() =~= seen.skip(i + 1));
        match &history[i] {
            Outcome::NotStarted(e) => {
                return AdbStep::Done(Err(run_failed_message(e)));
            },
            Outcome::Exited { stdout, .. } => {
                outs.push(output_text(stdout));
            },
        }
        i = i + 1;
    }
    assert(seen.skip(limit as int).len() == 0);
    if history.len() < n {
        let q = qs[history.len()].clone();
        assert(q.deep_view() == qs.deep_view()[history.len() as int]);
        return AdbStep::Run(q);
    }
    let ghost texts = Seq::new(n as nat, |k: int| text_of(hv[k]->Exited_stdout));
    let o: usize = if device.is_some() {
        0
    } else {
        1
    };
    let serial = match device {
        Some(d) => copy_str(d),
        None => outs[0].clone(),
    };
    let info = DeviceInfo {
        serial,
        brand: outs[o].clone(),
        model: outs[o + 1].clone(),
        android: outs[o + 2].clone(),
        sdk: outs[o + 3].clone(),
        abi: outs[o + 4].clone(),
        resolution: outs[o + 5].clone(),
        density: outs[o + 6].clone(),
        battery: battery_level(outs[o + 7].as_str()),
        storage: final_line(outs[o + 8].as_str()),
    };
    assert(info.deep_view() == assemble_info(device.deep_view(), texts));
    AdbStep::Done(Ok(info))
}

} // verus!
