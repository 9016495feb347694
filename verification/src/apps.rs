//! The application list for the application filter: a JSON document
//! `{ "projects": [...] }` or `{ "apps": [...] }` whose items name a
//! package and, optionally, a display name.
use vstd::prelude::*;
use crate::text::{concat, copy_str};

verus! {

/// The shape of a JSON document, as far as the application list reads it.
/// Numbers are kept as a bare marker: nothing here reads their value.
#[derive(Debug, PartialEq, Eq)]
pub enum JsonValue {
    Null,
    Bool(bool),
    Number,
    Str(String),
    Array(Vec<JsonValue>),
    /// The members of an object, each key once.
    Object(Vec<(String, JsonValue)>),
}

#[verifier::external_type_specification]
#[verifier::external_body]
pub struct ExSerdeJsonValue(serde_json::Value);

/// One application of the list.
#[derive(Debug, PartialEq, Eq)]
pub struct App {
    pub name: String,
    pub package: String,
}

/// The mathematical model of an [`App`].
pub struct AppView {
    pub name: Seq<char>,
    pub package: Seq<char>,
}

impl DeepView for App {
    type V = AppView;

    open spec fn deep_view(&self) -> AppView {
        AppView { name: self.name@, package: self.package@ }
    }
}

/// What `serde_json::from_str` makes of a text: a value, or the text of
/// its error.
pub uninterp spec fn json_parse(text: Seq<char>) -> Result<JsonValue, Seq<char>>;

/// The value of the first member named `key`.
pub open spec fn member(es: Seq<(String, JsonValue)>, key: Seq<char>) -> Option<JsonValue>
    decreases es.len(),
{
    if es.len() == 0 {
        None
    } else if es[0].0@ == key {
        Some(es[0].1)
    } else {
        member(es.drop_first(), key)
    }
}

/// `Value::get`: the member `key` of an object; nothing for other values.
pub open spec fn json_get(v: JsonValue, key: Seq<char>) -> Option<JsonValue> {
    match v {
        JsonValue::Object(es) => member(es@, key),
        _ => None,
    }
}

/// The text of a value that is a string.
pub open spec fn json_text(v: Option<JsonValue>) -> Option<Seq<char>> {
    match v {
        Some(JsonValue::Str(s)) => Some(s@),
        _ => None,
    }
}

/// The application an item describes: it needs a non-empty `package`
/// string; its name is the first string among `app_name`, `project_name`
/// and `name`, else the package.
pub open spec fn app_of_item(item: JsonValue) -> Option<AppView> {
    match json_text(json_get(item, "package"@)) {
        None => None,
        Some(pkg) => if pkg.len() == 0 {
            None
        } else {
            let name = match json_text(json_get(item, "app_name"@)) {
                Some(n) => n,
                None => match json_text(json_get(item, "project_name"@)) {
                    Some(n) => n,
                    None => match json_text(json_get(item, "name"@)) {
                        Some(n) => n,
                        None => pkg,
                    },
                },
            };
            Some(AppView { name, package: pkg })
        },
    }
}

/// The applications of the items, in order, skipping items without one.
pub open spec fn apps_of_items(items: Seq<JsonValue>) -> Seq<AppView>
    decreases items.len(),
{
    if items.len() == 0 {
        seq![]
    } else {
        let prev = apps_of_items(items.drop_last());
        match app_of_item(items.last()) {
            Some(a) => prev.push(a),
            None => prev,
        }
    }
}

/// The application list of a document: the array under `projects` or,
/// when there is no `projects` member, under `apps`.
pub open spec fn app_list(v: JsonValue) -> Result<Seq<AppView>, Seq<char>> {
    let list = match json_get(v, "projects"@) {
        Some(x) => Some(x),
        None => json_get(v, "apps"@),
    };
    match list {
        Some(JsonValue::Array(items)) => Ok(apps_of_items(items@)),
        _ => Err("配置中缺少 projects/apps 数组"@),
    }
}

/// The application list of a text.
pub open spec fn app_list_of_text(text: Seq<char>) -> Result<Seq<AppView>, Seq<char>> {
    match json_parse(text) {
        Err(e) => Err("JSON 解析失败："@ + e),
        Ok(v) => app_list(v),
    }
}

// ---------------------------------------------------------------------
// Code
// ---------------------------------------------------------------------

/// Moves a `serde_json::Value` into a [`JsonValue`], variant by variant;
/// nothing is claimed of it beyond its use by [`parse_json`].
#[verifier::external_body]
fn json_value_from(v: serde_json::Value) -> JsonValue {
    match v {
        serde_json::Value::Null => JsonValue::Null,
        serde_json::Value::Bool(b) => JsonValue::Bool(b),
        serde_json::Value::Number(_) => JsonValue::Number,
        serde_json::Value::String(s) => JsonValue::Str(s),
        serde_json::Value::Array(a) => JsonValue::Array(a.into_iter().map(json_value_from).collect()),
        serde_json::Value::Object(m) => JsonValue::Object(
            m.into_iter().map(|(k, x)| (k, json_value_from(x))).collect(),
        ),
    }
}

/// Parses a JSON text with `serde_json::from_str::<serde_json::Value>`.
/// The contract names the outcome (`json_parse`) and claims nothing more:
/// the value on success, the parser's error message on failure, both
/// functions of the text alone.
#[verifier::external_body]
fn parse_json(text: &str) -> (res: Result<JsonValue, String>)
    ensures
        match res {
            Ok(v) => json_parse(text@) == Ok::<JsonValue, Seq<char>>(v),
            Err(e) => json_parse(text@) == Err::<JsonValue, Seq<char>>(e@),
        },
{
    match serde_json::from_str::<serde_json::Value>(text) {
        Ok(v) => Ok(json_value_from(v)),
        Err(e) => Err(e.to_string()),
    }
}

/// The member `key` of a value (`Value::get`).
pub fn json_member<'a>(v: &'a JsonValue, key: &str) -> (res: Option<&'a JsonValue>)
    ensures
        match res {
            Some(x) => json_get(*v, key@) == Some(*x),
            None => json_get(*v, key@) is None,
        },
{
    match v {
        JsonValue::Object(es) => {
            let k = copy_str(key);
            assert(json_get(*v, key@) == member(es@, key@));
            let mut i: usize = 0;
            assert(es@.skip(0) =~= es@);
            while i < es.len()
                invariant
                    i <= es.len(),
                    k@ == key@,
                    json_get(*v, key@) == member(es@, key@),
                    member(es@.skip(i as int), key@) == member(es@, key@),
                decreases es.len() - i,
            {
                let ghost rest = es@.skip(i as int);
                assert(rest[0] == es@[i as int]);
                assert(rest.drop_first() =~= es@.skip(i + 1));
                if es[i].0 == k {
                    assert(rest[0].0@ == key@);
                    assert(member(rest, key@) == Some(es@[i as int].1));
                    let r = &es[i].1;
                    assert(*r == es@[i as int].1);
                    return Some(r);
                }
                i = i + 1;
            }
            None
        },
        _ => None,
    }
}

/// The text of a member that is a string.
fn member_text(v: &JsonValue, key: &str) -> (res: Option<String>)
    ensures
        res.deep_view() == json_text(json_get(*v, key@)),
{
    match json_member(v, key) {
        Some(JsonValue::Str(s)) => Some(s.clone()),
        _ => None,
    }
}

/// The application an item describes (see [`app_of_item`]).
pub fn app_from_item(item: &JsonValue) -> (res: Option<App>)
    ensures
        res.deep_view() == app_of_item(*item),
{
    let pkg = match member_text(item, "package") {
        Some(p) => p,
        None => {
            return None;
        },
    };
    if pkg.as_str().is_empty() {
        return None;
    }
    let name = match member_text(item, "app_name") {
        Some(n) => n,
        None => match member_text(item, "project_name") {
            Some(n) => n,
            None => match member_text(item, "name") {
                Some(n) => n,
                None => pkg.clone(),
            },
        },
    };
    Some(App { name, package: pkg })
}

/// The application list of a document (see [`app_list`]).
pub fn apps_from_json(v: &JsonValue) -> (res: Result<Vec<App>, String>)
    ensures
        match (res, app_list(*v)) {
            (Ok(a), Ok(b)) => a.deep_view() == b,
            (Err(e), Err(f)) => e@ == f,
            _ => false,
        },
{
    let list = match json_member(v, "projects") {
        Some(x) => Some(x),
        None => json_member(v, "apps"),
    };
    let items = match list {
        Some(JsonValue::Array(items)) => items,
        _ => {
            return Err(copy_str("配置中缺少 projects/apps 数组"));
        },
    };
    let mut apps: Vec<App> = Vec::new();
    let mut i: usize = 0;
    assert(items@.take(0) =~= seq![]);
    assert(apps.deep_view() =~= seq![]);
    while i < items.len()
        invariant
            i <= items.len(),
            apps@.len() == apps_of_items(items@.take(i as int)).len(),
            apps.deep_view() == apps_of_items(items@.take(i as int)),
        decreases items.len() - i,
    {
        assert(items@.take(i + 1).drop_last() =~= items@.take(i as int));
        assert(items@.take(i + 1).last() == items@[i as int]);
        match app_from_item(&items[i]) {
            Some(a) => {
                let ghost before = apps.deep_view();
                apps.push(a);
                assert(apps.deep_view() =~= before.push(a.deep_view()));
            },
            None => {},
        }
        i = i + 1;
    }
    assert(items@.take(items.len() as int) =~= items@);
    Ok(apps)
}

/// The application list of a JSON text (see [`app_list_of_text`]).
pub fn parse_app_list(body: &str) -> (res: Result<Vec<App>, String>)
    ensures
        match (res, app_list_of_text(body@)) {
            (Ok(a), Ok(b)) => a.deep_view() == b,
            (Err(e), Err(f)) => e@ == f,
            _ => false,
        },
{
    match parse_json(body) {
        Err(e) => Err(concat("JSON 解析失败：", e.as_str())),
        Ok(v) => apps_from_json(&v),
    }
}

} // verus!
