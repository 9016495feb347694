//! Device enumeration: `adb devices -l` and the parse of its listing.
use vstd::prelude::*;
use crate::command::{history_of, one_command, output_text, text_of, utf8_lossy, AdbStep, Outcome, OutcomeView, decode_lossy, strings};
use crate::text::{chars_of, concat, copy_str, lines, seqs_of, split_lines, split_words, starts_with, starts_with_chars, string_of, string_of_range, trim, trim_chars, words};

verus! {

/// One connected device (USB or WiFi).
#[derive(Debug, PartialEq, Eq)]
pub struct Device {
    pub serial: String,
    pub state: String,
    pub model: String,
    pub product: String,
    /// "usb" or "wifi"
    pub transport: String,
}

/// The mathematical model of a [`Device`].
pub struct DeviceView {
    pub serial: Seq<char>,
    pub state: Seq<char>,
    pub model: Seq<char>,
    pub product: Seq<char>,
    pub transport: Seq<char>,
}

impl DeepView for Device {
    type V = DeviceView;

    open spec fn deep_view(&self) -> DeviceView {
        DeviceView {
            serial: self.serial@,
            state: self.state@,
            model: self.model@,
            product: self.product@,
            transport: self.transport@,
        }
    }
}

/// What the fields after serial and state say: the value of the last
/// `model:` field, of the last `product:` field, and whether some field
/// starts with `usb:`.
pub open spec fn scan_fields(fs: Seq<Seq<char>>) -> (Seq<char>, Seq<char>, bool)
    decreases fs.len(),
{
    if fs.len() == 0 {
        (seq![], seq![], false)
    } else {
        let (m, p, u) = scan_fields(fs.drop_last());
        let f = fs.last();
        if starts_with(f, "model:"@) {
            (f.skip("model:"@.len() as int), p, u)
        } else if starts_with(f, "product:"@) {
            (m, f.skip("product:"@.len() as int), u)
        } else if starts_with(f, "usb:"@) {
            (m, p, true)
        } else {
            (m, p, u)
        }
    }
}

/// The device described by the words of one listing line.
pub open spec fn device_of_words(ws: Seq<Seq<char>>) -> DeviceView {
    let fields = if ws.len() > 2 {
        ws.skip(2)
    } else {
        seq![]
    };
    let (m, p, u) = scan_fields(fields);
    DeviceView {
        serial: if ws.len() > 0 {
            ws[0]
        } else {
            seq![]
        },
        state: if ws.len() > 1 {
            ws[1]
        } else {
            seq![]
        },
        model: m,
        product: p,
        transport: if u {
            "usb"@
        } else {
            "wifi"@
        },
    }
}

/// The devices of listing lines: one per line that is not blank.
pub open spec fn devices_of(ls: Seq<Seq<char>>) -> Seq<DeviceView>
    decreases ls.len(),
{
    if ls.len() == 0 {
        seq![]
    } else {
        let prev = devices_of(ls.drop_last());
        let t = trim(ls.last());
        if t.len() == 0 {
            prev
        } else {
            prev.push(device_of_words(words(t)))
        }
    }
}

/// The devices in the text of `adb devices -l`: every line after the
/// first (the header) that is not blank.
pub open spec fn parse_device_list(text: Seq<char>) -> Seq<DeviceView> {
    let ls = lines(text);
    devices_of(
        if ls.len() > 0 {
            ls.drop_first()
        } else {
            ls
        },
    )
}

/// The arguments of the enumeration.
pub open spec fn list_devices_args() -> Seq<Seq<char>> {
    seq!["devices"@, "-l"@]
}

/// The result of the enumeration, from the outcome of `adb devices -l`.
pub open spec fn devices_result(o: OutcomeView) -> Result<Seq<DeviceView>, Seq<char>> {
    match o {
        OutcomeView::NotStarted(e) => Err("无法执行 adb，请确认已安装 Android Platform-Tools："@ + e),
        OutcomeView::Exited { success, stdout, stderr } => {
            if !success {
                let err = text_of(stderr);
                Err(
                    if err.len() == 0 {
                        "adb devices 执行失败"@
                    } else {
                        err
                    },
                )
            } else {
                Ok(parse_device_list(utf8_lossy(stdout)))
            }
        },
    }
}

// ---------------------------------------------------------------------
// Code
// ---------------------------------------------------------------------

/// The text after a known prefix of `f`.
fn after_prefix(f: &Vec<char>, n: usize) -> (res: String)
    requires
        n <= f.len(),
    ensures
        res@ == f@.skip(n as int),
{
    let res = string_of_range(f, n, f.len());
    assert(f@.subrange(n as int, f@.len() as int) =~= f@.skip(n as int));
    res
}

/// The device described by the words of one listing line.
pub fn device_from_words(ws: &Vec<Vec<char>>) -> (d: Device)
    ensures
        d.deep_view() == device_of_words(seqs_of(ws@)),
{
    let ghost wv = seqs_of(ws@);
    let serial = if ws.len() > 0 {
        string_of(&ws[0])
    } else {
        String::new()
    };
    let state = if ws.len() > 1 {
        string_of(&ws[1])
    } else {
        String::new()
    };
    let model_p = chars_of("model:");
    let product_p = chars_of("product:");
    let usb_p = chars_of("usb:");
    let mut model = String::new();
    let mut product = String::new();
    let mut is_usb = false;
    let ghost fields = if wv.len() > 2 {
        wv.skip(2)
    } else {
        seq![]
    };
    let mut j: usize = 2;
    assert(fields.take(0) =~= seq![]);
    while j < ws.len()
        invariant
            2 <= j,
            ws.len() > 2 ==> j <= ws.len(),
            ws.len() <= 2 ==> j == 2,
            wv == seqs_of(ws@),
            fields == (if wv.len() > 2 {
                wv.skip(2)
            } else {
                seq![]
            }),
            model_p@ == "model:"@,
            product_p@ == "product:"@,
            usb_p@ == "usb:"@,
            (model@, product@, is_usb) == scan_fields(fields.take(j - 2)),
        decreases ws.len() - j,
    {
        let f = &ws[j];
        assert(fields.take(j - 1).drop_last() =~= fields.take(j - 2));
        assert(fields.take(j - 1).last() == f@);
        if starts_with_chars(f, &model_p) {
            model = after_prefix(f, model_p.len());
        } else if starts_with_chars(f, &product_p) {
            product = after_prefix(f, product_p.len());
        } else if starts_with_chars(f, &usb_p) {
            is_usb = true;
        }
        j = j + 1;
    }
    proof {
        if ws.len() > 2 {
            assert(fields.take(ws.len() - 2) =~= fields);
        } else {
            assert(wv.len() == ws@.len());
            assert(fields.take(j - 2) =~= fields);
        }
    }
    let transport = if is_usb {
        copy_str("usb")
    } else {
        copy_str("wifi")
    };
    Device { serial, state, model, product, transport }
}

/// The devices in the text of `adb devices -l` (see [`parse_device_list`]).
pub fn parse_devices(text: &str) -> (res: Vec<Device>)
    ensures
        res.deep_view() == parse_device_list(text@),
{
    let cs = chars_of(text);
    let ls = split_lines(&cs);
    let ghost lv = seqs_of(ls@);
    let ghost body = if lv.len() > 0 {
        lv.drop_first()
    } else {
        lv
    };
    let mut out: Vec<Device> = Vec::new();
    if ls.len() == 0 {
        assert(out.deep_view() =~= seq![]);
        return out;
    }
    let mut i: usize = 1;
    assert(body.take(0) =~= seq![]);
    assert(out.deep_view() =~= seq![]);
    while i < ls.len()
        invariant
            1 <= i <= ls.len(),
            lv == seqs_of(ls@),
            lv == lines(cs@),
            cs@ == text@,
            body == lv.drop_first(),
            out@.len() == devices_of(body.take(i - 1)).len(),
            out.deep_view() == devices_of(body.take(i - 1)),
        decreases ls.len() - i,
    {
        let t = trim_chars(&ls[i]);
        assert(body.take(i as int).drop_last() =~= body.take(i - 1));
        assert(body.take(i as int).last() == ls@[i as int]@);
        if t.len() > 0 {
            let ws = split_words(&t);
            let d = device_from_words(&ws);
            let ghost before = out.deep_view();
            out.push(d);
            assert(out.deep_view() =~= before.push(d.deep_view()));
        }
        i = i + 1;
    }
    assert(body.take(ls.len() - 1) =~= body);
    out
}

/// The result of the enumeration from the outcome of `adb devices -l`
/// (see [`devices_result`]).
fn devices_from_outcome(o: &Outcome) -> (res: Result<Vec<Device>, String>)
    ensures
        match (res, devices_result(o@)) {
            (Ok(v), Ok(w)) => v.deep_view() == w,
            (Err(e), Err(f)) => e@ == f,
            _ => false,
        },
{
    match o {
        Outcome::NotStarted(e) => Err(
            concat("无法执行 adb，请确认已安装 Android Platform-Tools：", e.as_str()),
        ),
        Outcome::Exited { success, stdout, stderr } => {
            if !*success {
                let err = output_text(stderr);
                if err.as_str().is_empty() {
                    Err(copy_str("adb devices 执行失败"))
                } else {
                    Err(err)
                }
            } else {
                let text = decode_lossy(stdout);
                Ok(parse_devices(text.as_str()))
            }
        },
    }
}

/// Enumerates the devices: runs `adb devices -l` and parses its listing.
pub fn list_devices(history: &Vec<Outcome>) -> (step: AdbStep<Vec<Device>>)
    ensures
        step.deep_view() == one_command(
            list_devices_args(),
            history_of(history@),
            |o: OutcomeView| devices_result(o),
        ),
{
    if history.len() == 0 {
        let args = strings(&vec!["devices", "-l"]);
        assert(args.deep_view() =~= list_devices_args());
        AdbStep::Run(args)
    } else {
        let r = devices_from_outcome(&history[0]);
        assert(history_of(history@)[0] == history@[0]@);
        AdbStep::Done(r)
    }
}

} // verus!
