//! Reading a configuration file: the TOML document as the configuration
//! reads it, the sectioned layout (`[app]`, `[build]`, `[window]`, ...)
//! flattened to top-level fields, and field decoding with defaults.

use vstd::prelude::*;
use crate::config::{
    default_description, default_entry, default_exclude, default_exclude_spec, default_output,
    default_protocol, default_rendering_mode, default_user_agent, default_version, string_views,
    validate_spec, ConfigError, NefuConfig, VERSION,
};
use crate::kv::{kv_get, kv_insert, kv_map, map_of, pairs_view};
use crate::text::{owned, utf8_text};

verus! {

// ==================== The document ====================

/// A value nested inside an array or a table of the document.
#[derive(Debug)]
pub enum TomlItem {
    Str(String),
    Int(i64),
    Bool(bool),
    /// A float, a date-time, or a deeper array or table: no field reads one.
    Other,
}

/// A top-level value of the document, or a value of a top-level table.
#[derive(Debug)]
pub enum TomlValue {
    Str(String),
    Int(i64),
    Bool(bool),
    Array(Vec<TomlItem>),
    Table(Vec<(String, TomlItem)>),
    /// A float or a date-time: no field reads one.
    Other,
}

/// What an item holds, with its text as characters.
pub enum ItemModel {
    Str(Seq<char>),
    Int(i64),
    Bool(bool),
    Other,
}

/// What a value holds, with its texts as characters.
pub enum ValueModel {
    Str(Seq<char>),
    Int(i64),
    Bool(bool),
    Array(Seq<ItemModel>),
    Table(Seq<(Seq<char>, ItemModel)>),
    Other,
}

impl View for TomlItem {
    type V = ItemModel;

    open spec fn view(&self) -> ItemModel {
        match self {
            TomlItem::Str(s) => ItemModel::Str(s@),
            TomlItem::Int(i) => ItemModel::Int(*i),
            TomlItem::Bool(b) => ItemModel::Bool(*b),
            TomlItem::Other => ItemModel::Other,
        }
    }
}

/// The items of an array, by their views.
pub open spec fn item_views(v: Seq<TomlItem>) -> Seq<ItemModel> {
    v.map_values(|x: TomlItem| x@)
}

impl View for TomlValue {
    type V = ValueModel;

    open spec fn view(&self) -> ValueModel {
        match self {
            TomlValue::Str(s) => ValueModel::Str(s@),
            TomlValue::Int(i) => ValueModel::Int(*i),
            TomlValue::Bool(b) => ValueModel::Bool(*b),
            TomlValue::Array(v) => ValueModel::Array(item_views(v@)),
            TomlValue::Table(t) => ValueModel::Table(pairs_view(t@)),
            TomlValue::Other => ValueModel::Other,
        }
    }
}

#[verifier::external_type_specification]
#[verifier::external_body]
pub struct ExTomlValue(toml::Value);

/// The top-level table that `toml::from_str` reads from a text, by views;
/// `None` where the text is not a TOML document.
pub uninterp spec fn toml_document_spec(text: Seq<char>) -> Option<Seq<(Seq<char>, ValueModel)>>;

/// An item of the document, converted variant by variant.
#[verifier::external_body]
fn toml_item(v: toml::Value) -> TomlItem {
    match v {
        toml::Value::String(s) => TomlItem::Str(s),
        toml::Value::Integer(i) => TomlItem::Int(i),
        toml::Value::Float(_) => TomlItem::Other,
        toml::Value::Boolean(b) => TomlItem::Bool(b),
        toml::Value::Datetime(_) => TomlItem::Other,
        toml::Value::Array(_) => TomlItem::Other,
        toml::Value::Table(_) => TomlItem::Other,
    }
}

/// A top-level value of the document, converted variant by variant.
#[verifier::external_body]
fn toml_value(v: toml::Value) -> TomlValue {
    match v {
        toml::Value::String(s) => TomlValue::Str(s),
        toml::Value::Integer(i) => TomlValue::Int(i),
        toml::Value::Float(_) => TomlValue::Other,
        toml::Value::Boolean(b) => TomlValue::Bool(b),
        toml::Value::Datetime(_) => TomlValue::Other,
        toml::Value::Array(a) => TomlValue::Array(a.into_iter().map(toml_item).collect()),
        toml::Value::Table(t) => TomlValue::Table(t.into_iter().map(|(k, x)| (k, toml_item(x))).collect()),
    }
}

/// `toml::from_str::<toml::Table>`: the document's top-level table, or
/// `None` where the text is not TOML. The result is named, not stated:
/// the TOML grammar is the toml crate's.
#[verifier::external_body]
fn parse_toml_document(text: &str) -> (r: Option<Vec<(String, TomlValue)>>)
    ensures
        match r {
            Some(t) => toml_document_spec(text@) == Some(pairs_view(t@)),
            None => toml_document_spec(text@) is None,
        },
{
    match toml::from_str::<toml::Table>(text) {
        Ok(t) => Some(t.into_iter().map(|(k, v)| (k, toml_value(v))).collect()),
        Err(_) => None,
    }
}

// ==================== Field kinds ====================

/// A text field is absent or a string.
pub open spec fn text_ok(m: Map<Seq<char>, ValueModel>, k: Seq<char>) -> bool {
    !m.contains_key(k) || m[k] is Str
}

/// A flag field is absent or a boolean.
pub open spec fn flag_ok(m: Map<Seq<char>, ValueModel>, k: Seq<char>) -> bool {
    !m.contains_key(k) || m[k] is Bool
}

/// A number field is absent or an integer that fits in `u32`.
pub open spec fn number_ok(m: Map<Seq<char>, ValueModel>, k: Seq<char>) -> bool {
    !m.contains_key(k) || (m[k] is Int && 0 <= m[k]->Int_0 <= u32::MAX)
}

/// A list field is absent or an array of strings.
pub open spec fn list_ok(m: Map<Seq<char>, ValueModel>, k: Seq<char>) -> bool {
    !m.contains_key(k) || (m[k] is Array && forall|i: int|
        0 <= i < m[k]->Array_0.len() ==> (#[trigger] m[k]->Array_0[i]) is Str)
}

/// A pairs field is absent or a table of strings.
pub open spec fn pairs_ok(m: Map<Seq<char>, ValueModel>, k: Seq<char>) -> bool {
    !m.contains_key(k) || (m[k] is Table && forall|i: int|
        0 <= i < m[k]->Table_0.len() ==> (#[trigger] m[k]->Table_0[i]).1 is Str)
}

/// The text of an item (empty for other kinds).
pub open spec fn item_text(v: ItemModel) -> Seq<char> {
    match v {
        ItemModel::Str(s) => s,
        _ => Seq::empty(),
    }
}

/// The value of a text field, or `d` where it is absent.
pub open spec fn text_value(m: Map<Seq<char>, ValueModel>, k: Seq<char>, d: Seq<char>) -> Seq<char> {
    if m.contains_key(k) {
        m[k]->Str_0
    } else {
        d
    }
}

/// The value of an optional text field.
pub open spec fn opt_text_value(m: Map<Seq<char>, ValueModel>, k: Seq<char>) -> Option<Seq<char>> {
    if m.contains_key(k) {
        Some(m[k]->Str_0)
    } else {
        None
    }
}

/// The value of a flag field, or `d` where it is absent.
pub open spec fn flag_value(m: Map<Seq<char>, ValueModel>, k: Seq<char>, d: bool) -> bool {
    if m.contains_key(k) {
        m[k]->Bool_0
    } else {
        d
    }
}

/// The value of an optional flag field.
pub open spec fn opt_flag_value(m: Map<Seq<char>, ValueModel>, k: Seq<char>) -> Option<bool> {
    if m.contains_key(k) {
        Some(m[k]->Bool_0)
    } else {
        None
    }
}

/// The value of a number field, or `d` where it is absent.
pub open spec fn number_value(m: Map<Seq<char>, ValueModel>, k: Seq<char>, d: int) -> int {
    if m.contains_key(k) {
        m[k]->Int_0 as int
    } else {
        d
    }
}

/// The value of an optional number field.
pub open spec fn opt_number_value(m: Map<Seq<char>, ValueModel>, k: Seq<char>) -> Option<int> {
    if m.contains_key(k) {
        Some(m[k]->Int_0 as int)
    } else {
        None
    }
}

/// The value of a list field, or `d` where it is absent.
pub open spec fn list_value(m: Map<Seq<char>, ValueModel>, k: Seq<char>, d: Seq<Seq<char>>) -> Seq<Seq<char>> {
    if m.contains_key(k) {
        m[k]->Array_0.map_values(|v: ItemModel| item_text(v))
    } else {
        d
    }
}

/// The value of a pairs field (no pairs where it is absent).
pub open spec fn pairs_value(m: Map<Seq<char>, ValueModel>, k: Seq<char>) -> Seq<(Seq<char>, Seq<char>)> {
    if m.contains_key(k) {
        m[k]->Table_0.map_values(|p: (Seq<char>, ItemModel)| (p.0, item_text(p.1)))
    } else {
        Seq::empty()
    }
}

/// The number of an optional `u32` field, as an integer.
pub open spec fn opt_u32_int(v: Option<u32>) -> Option<int> {
    match v {
        Some(n) => Some(n as int),
        None => None,
    }
}

/// The text of an optional `String` field.
pub open spec fn opt_string_view(v: Option<String>) -> Option<Seq<char>> {
    match v {
        Some(s) => Some(s@),
        None => None,
    }
}

/// Every field of the table has the type that the field takes.
pub open spec fn fields_ok(m: Map<Seq<char>, ValueModel>) -> bool {
    &&& text_ok(m, "entry"@)
    &&& text_ok(m, "output"@)
    &&& text_ok(m, "description"@)
    &&& text_ok(m, "version"@)
    &&& text_ok(m, "author"@)
    &&& flag_ok(m, "debug"@)
    &&& text_ok(m, "preload"@)
    &&& number_ok(m, "window_width"@)
    &&& number_ok(m, "window_height"@)
    &&& number_ok(m, "min_width"@)
    &&& number_ok(m, "min_height"@)
    &&& number_ok(m, "max_width"@)
    &&& number_ok(m, "max_height"@)
    &&& flag_ok(m, "fullscreen"@)
    &&& flag_ok(m, "resizable"@)
    &&& flag_ok(m, "decorations"@)
    &&& flag_ok(m, "always_on_top"@)
    &&& text_ok(m, "user_agent"@)
    &&& text_ok(m, "icon"@)
    &&& text_ok(m, "title"@)
    &&& flag_ok(m, "transparent"@)
    &&& text_ok(m, "tray_icon"@)
    &&& list_ok(m, "allowed_domains"@)
    &&& pairs_ok(m, "headers"@)
    &&& list_ok(m, "exclude"@)
    &&& pairs_ok(m, "env"@)
    &&& text_ok(m, "csp"@)
    &&& flag_ok(m, "context_menu"@)
    &&& flag_ok(m, "drag_drop"@)
    &&& text_ok(m, "protocol"@)
    &&& text_ok(m, "update_url"@)
    &&& flag_ok(m, "single_instance"@)
    &&& flag_ok(m, "persist_window_state"@)
    &&& text_ok(m, "rendering_mode"@)
    &&& flag_ok(m, "render_optimization"@)
    &&& pairs_ok(m, "scripts"@)
}

/// The first field, in declaration order, whose value has the wrong type.
pub open spec fn first_invalid_field(m: Map<Seq<char>, ValueModel>) -> Seq<char> {
    if !text_ok(m, "entry"@) {
        "entry"@
    } else if !text_ok(m, "output"@) {
        "output"@
    } else if !text_ok(m, "description"@) {
        "description"@
    } else if !text_ok(m, "version"@) {
        "version"@
    } else if !text_ok(m, "author"@) {
        "author"@
    } else if !flag_ok(m, "debug"@) {
        "debug"@
    } else if !text_ok(m, "preload"@) {
        "preload"@
    } else if !number_ok(m, "window_width"@) {
        "window_width"@
    } else if !number_ok(m, "window_height"@) {
        "window_height"@
    } else if !number_ok(m, "min_width"@) {
        "min_width"@
    } else if !number_ok(m, "min_height"@) {
        "min_height"@
    } else if !number_ok(m, "max_width"@) {
        "max_width"@
    } else if !number_ok(m, "max_height"@) {
        "max_height"@
    } else if !flag_ok(m, "fullscreen"@) {
        "fullscreen"@
    } else if !flag_ok(m, "resizable"@) {
        "resizable"@
    } else if !flag_ok(m, "decorations"@) {
        "decorations"@
    } else if !flag_ok(m, "always_on_top"@) {
        "always_on_top"@
    } else if !text_ok(m, "user_agent"@) {
        "user_agent"@
    } else if !text_ok(m, "icon"@) {
        "icon"@
    } else if !text_ok(m, "title"@) {
        "title"@
    } else if !flag_ok(m, "transparent"@) {
        "transparent"@
    } else if !text_ok(m, "tray_icon"@) {
        "tray_icon"@
    } else if !list_ok(m, "allowed_domains"@) {
        "allowed_domains"@
    } else if !pairs_ok(m, "headers"@) {
        "headers"@
    } else if !list_ok(m, "exclude"@) {
        "exclude"@
    } else if !pairs_ok(m, "env"@) {
        "env"@
    } else if !text_ok(m, "csp"@) {
        "csp"@
    } else if !flag_ok(m, "context_menu"@) {
        "context_menu"@
    } else if !flag_ok(m, "drag_drop"@) {
        "drag_drop"@
    } else if !text_ok(m, "protocol"@) {
        "protocol"@
    } else if !text_ok(m, "update_url"@) {
        "update_url"@
    } else if !flag_ok(m, "single_instance"@) {
        "single_instance"@
    } else if !flag_ok(m, "persist_window_state"@) {
        "persist_window_state"@
    } else if !text_ok(m, "rendering_mode"@) {
        "rendering_mode"@
    } else if !flag_ok(m, "render_optimization"@) {
        "render_optimization"@
    } else if !pairs_ok(m, "scripts"@) {
        "scripts"@
    } else {
        Seq::empty()
    }
}

/// `c` holds the fields that the table gives, with defaults for absent ones.
pub open spec fn decoded_config(c: NefuConfig, m: Map<Seq<char>, ValueModel>) -> bool {
    &&& c.entry@ == text_value(m, "entry"@, "index.html"@)
    &&& c.output@ == text_value(m, "output"@, "myapp"@)
    &&& c.description@ == text_value(m, "description"@, "Nefu App"@)
    &&& c.version@ == text_value(m, "version"@, "1.0.0"@)
    &&& c.author@ == text_value(m, "author"@, Seq::<char>::empty())
    &&& c.debug == flag_value(m, "debug"@, false)
    &&& opt_string_view(c.preload) == opt_text_value(m, "preload"@)
    &&& c.window_width == number_value(m, "window_width"@, 1024)
    &&& c.window_height == number_value(m, "window_height"@, 768)
    &&& opt_u32_int(c.min_width) == opt_number_value(m, "min_width"@)
    &&& opt_u32_int(c.min_height) == opt_number_value(m, "min_height"@)
    &&& opt_u32_int(c.max_width) == opt_number_value(m, "max_width"@)
    &&& opt_u32_int(c.max_height) == opt_number_value(m, "max_height"@)
    &&& c.fullscreen == flag_value(m, "fullscreen"@, false)
    &&& c.resizable == flag_value(m, "resizable"@, true)
    &&& c.decorations == flag_value(m, "decorations"@, true)
    &&& c.always_on_top == flag_value(m, "always_on_top"@, false)
    &&& c.user_agent@ == text_value(m, "user_agent"@, "nefu/"@ + VERSION@)
    &&& opt_string_view(c.icon) == opt_text_value(m, "icon"@)
    &&& opt_string_view(c.title) == opt_text_value(m, "title"@)
    &&& c.transparent == opt_flag_value(m, "transparent"@)
    &&& opt_string_view(c.tray_icon) == opt_text_value(m, "tray_icon"@)
    &&& string_views(c.allowed_domains@) == list_value(m, "allowed_domains"@, Seq::<Seq<char>>::empty())
    &&& pairs_view(c.headers@) == pairs_value(m, "headers"@)
    &&& string_views(c.exclude@) == list_value(m, "exclude"@, default_exclude_spec())
    &&& pairs_view(c.env@) == pairs_value(m, "env"@)
    &&& opt_string_view(c.csp) == opt_text_value(m, "csp"@)
    &&& c.context_menu == flag_value(m, "context_menu"@, true)
    &&& c.drag_drop == flag_value(m, "drag_drop"@, false)
    &&& c.protocol@ == text_value(m, "protocol"@, "nefu"@)
    &&& opt_string_view(c.update_url) == opt_text_value(m, "update_url"@)
    &&& c.single_instance == flag_value(m, "single_instance"@, false)
    &&& c.persist_window_state == flag_value(m, "persist_window_state"@, true)
    &&& c.rendering_mode@ == text_value(m, "rendering_mode"@, "auto"@)
    &&& c.render_optimization == flag_value(m, "render_optimization"@, true)
    &&& pairs_view(c.scripts@) == pairs_value(m, "scripts"@)
}


/// The error naming field `k`.
pub open spec fn names_field(e: ConfigError, k: Seq<char>) -> bool {
    e matches ConfigError::InvalidField(n) && n@ == k
}

fn invalid(k: &str) -> (e: ConfigError)
    ensures
        names_field(e, k@),
{
    ConfigError::InvalidField(owned(k))
}

fn text_field(t: &Vec<(String, TomlValue)>, k: &str, d: String) -> (r: Result<String, ConfigError>)
    ensures
        match r {
            Ok(v) => text_ok(map_of(t@), k@) && v@ == text_value(map_of(t@), k@, d@),
            Err(e) => !text_ok(map_of(t@), k@) && names_field(e, k@),
        },
{
    match kv_get(t, k) {
        None => Ok(d),
        Some(TomlValue::Str(s)) => Ok(s.clone()),
        Some(_) => Err(invalid(k)),
    }
}

fn opt_text_field(t: &Vec<(String, TomlValue)>, k: &str) -> (r: Result<Option<String>, ConfigError>)
    ensures
        match r {
            Ok(v) => text_ok(map_of(t@), k@) && opt_string_view(v) == opt_text_value(map_of(t@), k@),
            Err(e) => !text_ok(map_of(t@), k@) && names_field(e, k@),
        },
{
    match kv_get(t, k) {
        None => Ok(None),
        Some(TomlValue::Str(s)) => Ok(Some(s.clone())),
        Some(_) => Err(invalid(k)),
    }
}

fn flag_field(t: &Vec<(String, TomlValue)>, k: &str, d: bool) -> (r: Result<bool, ConfigError>)
    ensures
        match r {
            Ok(v) => flag_ok(map_of(t@), k@) && v == flag_value(map_of(t@), k@, d),
            Err(e) => !flag_ok(map_of(t@), k@) && names_field(e, k@),
        },
{
    match kv_get(t, k) {
        None => Ok(d),
        Some(TomlValue::Bool(b)) => Ok(*b),
        Some(_) => Err(invalid(k)),
    }
}

fn opt_flag_field(t: &Vec<(String, TomlValue)>, k: &str) -> (r: Result<Option<bool>, ConfigError>)
    ensures
        match r {
            Ok(v) => flag_ok(map_of(t@), k@) && v == opt_flag_value(map_of(t@), k@),
            Err(e) => !flag_ok(map_of(t@), k@) && names_field(e, k@),
        },
{
    match kv_get(t, k) {
        None => Ok(None),
        Some(TomlValue::Bool(b)) => Ok(Some(*b)),
        Some(_) => Err(invalid(k)),
    }
}

fn number_field(t: &Vec<(String, TomlValue)>, k: &str, d: u32) -> (r: Result<u32, ConfigError>)
    ensures
        match r {
            Ok(v) => number_ok(map_of(t@), k@) && v == number_value(map_of(t@), k@, d as int),
            Err(e) => !number_ok(map_of(t@), k@) && names_field(e, k@),
        },
{
    match kv_get(t, k) {
        None => Ok(d),
        Some(TomlValue::Int(i)) => {
            if 0 <= *i && *i <= 4294967295 {
                Ok(*i as u32)
            } else {
                Err(invalid(k))
            }
        },
        Some(_) => Err(invalid(k)),
    }
}

fn opt_number_field(t: &Vec<(String, TomlValue)>, k: &str) -> (r: Result<Option<u32>, ConfigError>)
    ensures
        match r {
            Ok(v) => number_ok(map_of(t@), k@) && opt_u32_int(v) == opt_number_value(map_of(t@), k@),
            Err(e) => !number_ok(map_of(t@), k@) && names_field(e, k@),
        },
{
    match kv_get(t, k) {
        None => Ok(None),
        Some(TomlValue::Int(i)) => {
            if 0 <= *i && *i <= 4294967295 {
                Ok(Some(*i as u32))
            } else {
                Err(invalid(k))
            }
        },
        Some(_) => Err(invalid(k)),
    }
}

fn no_strings() -> (r: Vec<String>)
    ensures
        string_views(r@) == Seq::<Seq<char>>::empty(),
{
    let r: Vec<String> = Vec::new();
    assert(string_views(r@) =~= Seq::<Seq<char>>::empty());
    r
}

fn list_field(t: &Vec<(String, TomlValue)>, k: &str, d: Vec<String>) -> (r: Result<Vec<String>, ConfigError>)
    ensures
        match r {
            Ok(v) => list_ok(map_of(t@), k@) && string_views(v@) == list_value(map_of(t@), k@, string_views(d@)),
            Err(e) => !list_ok(map_of(t@), k@) && names_field(e, k@),
        },
{
    match kv_get(t, k) {
        None => Ok(d),
        Some(TomlValue::Array(items)) => {
            let ghost iv = item_views(items@);
            let mut out: Vec<String> = Vec::new();
            let mut i: usize = 0;
            while i < items.len()
                invariant
                    0 <= i <= items@.len(),
                    iv == item_views(items@),
                    map_of(t@).contains_key(k@),
                    map_of(t@)[k@] == ValueModel::Array(iv),
                    out@.len() == i,
                    forall|j: int| 0 <= j < i ==> (#[trigger] iv[j]) is Str,
                    forall|j: int| 0 <= j < i ==> (#[trigger] out@[j])@ == item_text(iv[j]),
                decreases items@.len() - i,
            {
                match &items[i] {
                    TomlItem::Str(s) => {
                        assert(iv[i as int] == items@[i as int]@);
                        out.push(s.clone());
                    },
                    _ => {
                        assert(iv[i as int] == items@[i as int]@);
                        assert(map_of(t@)[k@] == ValueModel::Array(iv));
                        assert(!(map_of(t@)[k@]->Array_0[i as int] is Str));
                        return Err(invalid(k));
                    },
                }
                i = i + 1;
            }
            assert(string_views(out@) =~= iv.map_values(|v: ItemModel| item_text(v)));
            Ok(out)
        },
        Some(_) => Err(invalid(k)),
    }
}

fn pairs_field(t: &Vec<(String, TomlValue)>, k: &str) -> (r: Result<Vec<(String, String)>, ConfigError>)
    ensures
        match r {
            Ok(v) => pairs_ok(map_of(t@), k@) && pairs_view(v@) == pairs_value(map_of(t@), k@),
            Err(e) => !pairs_ok(map_of(t@), k@) && names_field(e, k@),
        },
{
    match kv_get(t, k) {
        None => {
            let out: Vec<(String, String)> = Vec::new();
            assert(pairs_view(out@) =~= Seq::<(Seq<char>, Seq<char>)>::empty());
            Ok(out)
        },
        Some(TomlValue::Table(items)) => {
            let ghost iv = pairs_view(items@);
            let mut out: Vec<(String, String)> = Vec::new();
            let mut i: usize = 0;
            while i < items.len()
                invariant
                    0 <= i <= items@.len(),
                    iv == pairs_view(items@),
                    map_of(t@).contains_key(k@),
                    map_of(t@)[k@] == ValueModel::Table(iv),
                    out@.len() == i,
                    forall|j: int| 0 <= j < i ==> (#[trigger] iv[j]).1 is Str,
                    forall|j: int| 0 <= j < i ==> (#[trigger] out@[j]).0@ == iv[j].0 && out@[j].1@ == item_text(iv[j].1),
                decreases items@.len() - i,
            {
                let name = items[i].0.clone();
                match &items[i].1 {
                    TomlItem::Str(s) => {
                        assert(iv[i as int] == (items@[i as int].0@, items@[i as int].1@));
                        out.push((name, s.clone()));
                    },
                    _ => {
                        assert(iv[i as int] == (items@[i as int].0@, items@[i as int].1@));
                        assert(map_of(t@)[k@] == ValueModel::Table(iv));
                        assert(!(map_of(t@)[k@]->Table_0[i as int].1 is Str));
                        return Err(invalid(k));
                    },
                }
                i = i + 1;
            }
            assert(pairs_view(out@) =~= iv.map_values(|p: (Seq<char>, ItemModel)| (p.0, item_text(p.1))));
            Ok(out)
        },
        Some(_) => Err(invalid(k)),
    }
}

impl NefuConfig {
    /// Reads the fields of a flat table, each absent field taking its
    /// default; a field of the wrong type (an integer outside `u32` for a
    /// number) is refused, the first in declaration order named.
    #[verifier::rlimit(50)]
    pub fn from_table(t: &Vec<(String, TomlValue)>) -> (r: Result<NefuConfig, ConfigError>)
        ensures
            match r {
                Ok(c) => fields_ok(map_of(t@)) && decoded_config(c, map_of(t@)),
                Err(e) => !fields_ok(map_of(t@)) && names_field(e, first_invalid_field(map_of(t@))),
            },
    {
        let entry = match text_field(t, "entry", default_entry()) {
            Ok(v) => v,
            Err(e) => return Err(e),
        };
        let output = match text_field(t, "output", default_output()) {
            Ok(v) => v,
            Err(e) => return Err(e),
        };
        let description = match text_field(t, "description", default_description()) {
            Ok(v) => v,
            Err(e) => return Err(e),
        };
        let version = match text_field(t, "version", default_version()) {
            Ok(v) => v,
            Err(e) => return Err(e),
        };
        let author = match text_field(t, "author", String::new()) {
            Ok(v) => v,
            Err(e) => return Err(e),
        };
        let debug = match flag_field(t, "debug", false) {
            Ok(v) => v,
            Err(e) => return Err(e),
        };
        let preload = match opt_text_field(t, "preload") {
            Ok(v) => v,
            Err(e) => return Err(e),
        };
        let window_width = match number_field(t, "window_width", 1024) {
            Ok(v) => v,
            Err(e) => return Err(e),
        };
        let window_height = match number_field(t, "window_height", 768) {
            Ok(v) => v,
            Err(e) => return Err(e),
        };
        let min_width = match opt_number_field(t, "min_width") {
            Ok(v) => v,
            Err(e) => return Err(e),
        };
        let min_height = match opt_number_field(t, "min_height") {
            Ok(v) => v,
            Err(e) => return Err(e),
        };
        let max_width = match opt_number_field(t, "max_width") {
            Ok(v) => v,
            Err(e) => return Err(e),
        };
        let max_height = match opt_number_field(t, "max_height") {
            Ok(v) => v,
            Err(e) => return Err(e),
        };
        let fullscreen = match flag_field(t, "fullscreen", false) {
            Ok(v) => v,
            Err(e) => return Err(e),
        };
        let resizable = match flag_field(t, "resizable", true) {
            Ok(v) => v,
            Err(e) => return Err(e),
        };
        let decorations = match flag_field(t, "decorations", true) {
            Ok(v) => v,
            Err(e) => return Err(e),
        };
        let always_on_top = match flag_field(t, "always_on_top", false) {
            Ok(v) => v,
            Err(e) => return Err(e),
        };
        let user_agent = match text_field(t, "user_agent", default_user_agent()) {
            Ok(v) => v,
            Err(e) => return Err(e),
        };
        let icon = match opt_text_field(t, "icon") {
            Ok(v) => v,
            Err(e) => return Err(e),
        };
        let title = match opt_text_field(t, "title") {
            Ok(v) => v,
            Err(e) => return Err(e),
        };
        let transparent = match opt_flag_field(t, "transparent") {
            Ok(v) => v,
            Err(e) => return Err(e),
        };
        let tray_icon = match opt_text_field(t, "tray_icon") {
            Ok(v) => v,
            Err(e) => return Err(e),
        };
        let allowed_domains = match list_field(t, "allowed_domains", no_strings()) {
            Ok(v) => v,
            Err(e) => return Err(e),
        };
        let headers = match pairs_field(t, "headers") {
            Ok(v) => v,
            Err(e) => return Err(e),
        };
        let exclude = match list_field(t, "exclude", default_exclude()) {
            Ok(v) => v,
            Err(e) => return Err(e),
        };
        let env = match pairs_field(t, "env") {
            Ok(v) => v,
            Err(e) => return Err(e),
        };
        let csp = match opt_text_field(t, "csp") {
            Ok(v) => v,
            Err(e) => return Err(e),
        };
        let context_menu = match flag_field(t, "context_menu", true) {
            Ok(v) => v,
            Err(e) => return Err(e),
        };
        let drag_drop = match flag_field(t, "drag_drop", false) {
            Ok(v) => v,
            Err(e) => return Err(e),
        };
        let protocol = match text_field(t, "protocol", default_protocol()) {
            Ok(v) => v,
            Err(e) => return Err(e),
        };
        let update_url = match opt_text_field(t, "update_url") {
            Ok(v) => v,
            Err(e) => return Err(e),
        };
        let single_instance = match flag_field(t, "single_instance", false) {
            Ok(v) => v,
            Err(e) => return Err(e),
        };
        let persist_window_state = match flag_field(t, "persist_window_state", true) {
            Ok(v) => v,
            Err(e) => return Err(e),
        };
        let rendering_mode = match text_field(t, "rendering_mode", default_rendering_mode()) {
            Ok(v) => v,
            Err(e) => return Err(e),
        };
        let render_optimization = match flag_field(t, "render_optimization", true) {
            Ok(v) => v,
            Err(e) => return Err(e),
        };
        let scripts = match pairs_field(t, "scripts") {
            Ok(v) => v,
            Err(e) => return Err(e),
        };
        Ok(NefuConfig {
            entry,
            output,
            description,
            version,
            author,
            debug,
            preload,
            window_width,
            window_height,
            min_width,
            min_height,
            max_width,
            max_height,
            fullscreen,
            resizable,
            decorations,
            always_on_top,
            user_agent,
            icon,
            title,
            transparent,
            tray_icon,
            allowed_domains,
            headers,
            exclude,
            env,
            csp,
            context_menu,
            drag_drop,
            protocol,
            update_url,
            single_instance,
            persist_window_state,
            rendering_mode,
            render_optimization,
            scripts,
        })
    }
}


// ==================== The sectioned layout ====================

/// A document is sectioned where it has an `[app]`, `[build]`, `[dev]` or
/// `[window]` entry.
pub open spec fn is_sectioned(m: Map<Seq<char>, ValueModel>) -> bool {
    m.contains_key("app"@) || m.contains_key("build"@) || m.contains_key("dev"@) || m.contains_key(
        "window"@,
    )
}

/// The table under `name`: empty where there is none or the entry is not a table.
pub open spec fn section(m: Map<Seq<char>, ValueModel>, name: Seq<char>) -> Map<Seq<char>, ItemModel> {
    if m.contains_key(name) && m[name] is Table {
        kv_map(m[name]->Table_0)
    } else {
        Map::empty()
    }
}

/// The string under `k`, as a top-level value; `None` for other kinds.
pub open spec fn text_entry(sec: Map<Seq<char>, ItemModel>, k: Seq<char>) -> Option<ValueModel> {
    if sec.contains_key(k) && sec[k] is Str {
        Some(ValueModel::Str(sec[k]->Str_0))
    } else {
        None
    }
}

/// The integer under `k`, as a top-level value; `None` for other kinds.
pub open spec fn int_entry(sec: Map<Seq<char>, ItemModel>, k: Seq<char>) -> Option<ValueModel> {
    if sec.contains_key(k) && sec[k] is Int {
        Some(ValueModel::Int(sec[k]->Int_0))
    } else {
        None
    }
}

/// The boolean under `k` (negated where `negate`), as a top-level value;
/// `None` for other kinds.
pub open spec fn bool_entry(sec: Map<Seq<char>, ItemModel>, k: Seq<char>, negate: bool) -> Option<ValueModel> {
    if sec.contains_key(k) && sec[k] is Bool {
        Some(ValueModel::Bool(if negate { !sec[k]->Bool_0 } else { sec[k]->Bool_0 }))
    } else {
        None
    }
}

/// The result of `Path::file_stem` on a path, as text.
pub uninterp spec fn path_file_stem_spec(p: Seq<char>) -> Option<Seq<char>>;

/// `Path::new(p).file_stem()`, as text. Which part of a name counts as the
/// stem is left to std and only named here.
#[verifier::external_body]
pub(crate) fn path_file_stem(p: &str) -> (r: Option<String>)
    ensures
        match r {
            Some(s) => path_file_stem_spec(p@) == Some(s@),
            None => path_file_stem_spec(p@) is None,
        },
{
    std::path::Path::new(p).file_stem().map(|s| s.to_string_lossy().into_owned())
}

/// `[build] output`, reduced to its file stem (the whole text where it has none).
pub open spec fn output_entry(build: Map<Seq<char>, ItemModel>) -> Option<ValueModel> {
    if build.contains_key("output"@) && build["output"@] is Str {
        let v = build["output"@]->Str_0;
        Some(ValueModel::Str(
            match path_file_stem_spec(v) {
                Some(s) => s,
                None => v,
            },
        ))
    } else {
        None
    }
}

/// `f` with `k` set to `v` where there is one.
pub open spec fn put(f: Map<Seq<char>, ValueModel>, k: Seq<char>, v: Option<ValueModel>) -> Map<Seq<char>, ValueModel> {
    match v {
        Some(x) => f.insert(k, x),
        None => f,
    }
}

/// The fields that `[app]` gives.
pub open spec fn app_fields(app: Map<Seq<char>, ItemModel>) -> Map<Seq<char>, ValueModel> {
    put(put(put(put(put(put(put(Map::empty(),
        "output"@, text_entry(app, "name"@)),
        "version"@, text_entry(app, "version"@)),
        "window_width"@, int_entry(app, "width"@)),
        "window_height"@, int_entry(app, "height"@)),
        "resizable"@, bool_entry(app, "resizable"@, false)),
        "fullscreen"@, bool_entry(app, "fullscreen"@, false)),
        "icon"@, text_entry(app, "icon"@))
}

/// `f` with the fields that `[build]` gives.
pub open spec fn build_fields(f: Map<Seq<char>, ValueModel>, build: Map<Seq<char>, ItemModel>) -> Map<Seq<char>, ValueModel> {
    put(put(put(f,
        "entry"@, text_entry(build, "entry"@)),
        "preload"@, text_entry(build, "preload"@)),
        "output"@, output_entry(build))
}

/// `f` with the fields that `[window]` gives (`frameless` sets `decorations`
/// to its negation).
pub open spec fn window_fields(f: Map<Seq<char>, ValueModel>, w: Map<Seq<char>, ItemModel>) -> Map<Seq<char>, ValueModel> {
    put(put(put(put(put(put(put(f,
        "title"@, text_entry(w, "title"@)),
        "min_width"@, int_entry(w, "min_width"@)),
        "min_height"@, int_entry(w, "min_height"@)),
        "max_width"@, int_entry(w, "max_width"@)),
        "max_height"@, int_entry(w, "max_height"@)),
        "decorations"@, bool_entry(w, "frameless"@, true)),
        "always_on_top"@, bool_entry(w, "always_on_top"@, false))
}

/// The flat fields of a sectioned document; top-level fields outside the
/// sections, and `[dev]`, give none.
pub open spec fn sectioned_flat(m: Map<Seq<char>, ValueModel>) -> Map<Seq<char>, ValueModel> {
    window_fields(
        build_fields(app_fields(section(m, "app"@)), section(m, "build"@)),
        section(m, "window"@),
    )
}

/// The flat fields that a document gives.
pub open spec fn effective_fields(m: Map<Seq<char>, ValueModel>) -> Map<Seq<char>, ValueModel> {
    if is_sectioned(m) {
        sectioned_flat(m)
    } else {
        m
    }
}

/// The section table under `name`.
fn section_of<'a>(t: &'a Vec<(String, TomlValue)>, name: &str) -> (r: Option<&'a Vec<(String, TomlItem)>>)
    ensures
        match r {
            Some(s) => map_of(s@) == section(map_of(t@), name@),
            None => section(map_of(t@), name@) == Map::<Seq<char>, ItemModel>::empty(),
        },
{
    match kv_get(t, name) {
        Some(TomlValue::Table(s)) => Some(s),
        _ => None,
    }
}

/// The section as a map (empty where there is none).
pub open spec fn section_map(s: Option<&Vec<(String, TomlItem)>>) -> Map<Seq<char>, ItemModel> {
    match s {
        Some(v) => map_of(v@),
        None => Map::empty(),
    }
}

fn put_text(f: &mut Vec<(String, TomlValue)>, key: &str, s: Option<&Vec<(String, TomlItem)>>, k: &str)
    ensures
        map_of(final(f)@) == put(map_of(old(f)@), key@, text_entry(section_map(s), k@)),
{
    if let Some(sec) = s {
        if let Some(TomlItem::Str(v)) = kv_get(sec, k) {
            kv_insert(f, owned(key), TomlValue::Str(v.clone()));
        }
    }
}

fn put_int(f: &mut Vec<(String, TomlValue)>, key: &str, s: Option<&Vec<(String, TomlItem)>>, k: &str)
    ensures
        map_of(final(f)@) == put(map_of(old(f)@), key@, int_entry(section_map(s), k@)),
{
    if let Some(sec) = s {
        if let Some(TomlItem::Int(v)) = kv_get(sec, k) {
            kv_insert(f, owned(key), TomlValue::Int(*v));
        }
    }
}

fn put_bool(f: &mut Vec<(String, TomlValue)>, key: &str, s: Option<&Vec<(String, TomlItem)>>, k: &str, negate: bool)
    ensures
        map_of(final(f)@) == put(map_of(old(f)@), key@, bool_entry(section_map(s), k@, negate)),
{
    if let Some(sec) = s {
        if let Some(TomlItem::Bool(v)) = kv_get(sec, k) {
            let b = if negate { !*v } else { *v };
            kv_insert(f, owned(key), TomlValue::Bool(b));
        }
    }
}

fn put_output(f: &mut Vec<(String, TomlValue)>, s: Option<&Vec<(String, TomlItem)>>)
    ensures
        map_of(final(f)@) == put(map_of(old(f)@), "output"@, output_entry(section_map(s))),
{
    if let Some(sec) = s {
        if let Some(TomlItem::Str(v)) = kv_get(sec, "output") {
            let stem = match path_file_stem(v.as_str()) {
                Some(st) => st,
                None => v.clone(),
            };
            kv_insert(f, owned("output"), TomlValue::Str(stem));
        }
    }
}

/// The flat fields of a sectioned document: `[app]` name, version, width,
/// height, resizable, fullscreen and icon; `[build]` entry, preload and
/// output (its file stem, replacing `[app] name`); `[window]` title, the
/// size bounds, frameless (as `decorations`, negated) and always_on_top.
/// A key of another type than its field reads is passed over.
pub fn from_sectioned(t: &Vec<(String, TomlValue)>) -> (r: Vec<(String, TomlValue)>)
    ensures
        map_of(r@) == sectioned_flat(map_of(t@)),
{
    let app = section_of(t, "app");
    let build = section_of(t, "build");
    let window = section_of(t, "window");
    let mut f: Vec<(String, TomlValue)> = Vec::new();
    assert(map_of(f@) =~= Map::<Seq<char>, ValueModel>::empty());
    put_text(&mut f, "output", app, "name");
    put_text(&mut f, "version", app, "version");
    put_int(&mut f, "window_width", app, "width");
    put_int(&mut f, "window_height", app, "height");
    put_bool(&mut f, "resizable", app, "resizable", false);
    put_bool(&mut f, "fullscreen", app, "fullscreen", false);
    put_text(&mut f, "icon", app, "icon");
    assert(map_of(f@) == app_fields(section(map_of(t@), "app"@)));
    put_text(&mut f, "entry", build, "entry");
    put_text(&mut f, "preload", build, "preload");
    put_output(&mut f, build);
    put_text(&mut f, "title", window, "title");
    put_int(&mut f, "min_width", window, "min_width");
    put_int(&mut f, "min_height", window, "min_height");
    put_int(&mut f, "max_width", window, "max_width");
    put_int(&mut f, "max_height", window, "max_height");
    put_bool(&mut f, "decorations", window, "frameless", true);
    put_bool(&mut f, "always_on_top", window, "always_on_top", false);
    f
}

fn has_key(t: &Vec<(String, TomlValue)>, k: &str) -> (r: bool)
    ensures
        r == map_of(t@).contains_key(k@),
{
    kv_get(t, k).is_some()
}

// ==================== Loading ====================

/// Two configurations that a table gives are validated alike.
proof fn lemma_validate_determined(c1: NefuConfig, c2: NefuConfig, f: Map<Seq<char>, ValueModel>)
    requires
        decoded_config(c1, f),
        decoded_config(c2, f),
    ensures
        validate_spec(c1) == validate_spec(c2),
{
    assert(c1.min_width == c2.min_width);
    assert(c1.max_width == c2.max_width);
    assert(c1.min_height == c2.min_height);
    assert(c1.max_height == c2.max_height);
}

/// The `[window]` section of a sectioned document sets the window fields
/// as written: a string `title`, the integer `min_width`, `min_height`,
/// `max_width` and `max_height`, and the boolean `always_on_top` each give
/// the field of that name its value; only `frameless` is negated, into
/// `decorations`. So any configuration read from the document has
/// `always_on_top` as written and `decorations` as the negation of
/// `frameless`.
#[verifier::spinoff_prover]
pub proof fn law_window_section(m: Map<Seq<char>, ValueModel>)
    ensures
        ({
            let w = section(m, "window"@);
            let f = effective_fields(m);
            &&& forall|b: bool|
                w.contains_key("always_on_top"@) && w["always_on_top"@] == ItemModel::Bool(b) ==> (f.contains_key(
                    "always_on_top"@,
                ) && f["always_on_top"@] == ValueModel::Bool(b) && forall|c: NefuConfig|
                    #[trigger] decoded_config(c, f) ==> c.always_on_top == b)
            &&& forall|b: bool|
                w.contains_key("frameless"@) && w["frameless"@] == ItemModel::Bool(b) ==> (f.contains_key(
                    "decorations"@,
                ) && f["decorations"@] == ValueModel::Bool(!b) && forall|c: NefuConfig|
                    #[trigger] decoded_config(c, f) ==> c.decorations == !b)
            &&& forall|t: Seq<char>|
                w.contains_key("title"@) && w["title"@] == ItemModel::Str(t) ==> (f.contains_key("title"@)
                    && f["title"@] == ValueModel::Str(t))
            &&& forall|n: i64|
                w.contains_key("min_width"@) && w["min_width"@] == ItemModel::Int(n) ==> (f.contains_key(
                    "min_width"@,
                ) && f["min_width"@] == ValueModel::Int(n))
            &&& forall|n: i64|
                w.contains_key("min_height"@) && w["min_height"@] == ItemModel::Int(n) ==> (f.contains_key(
                    "min_height"@,
                ) && f["min_height"@] == ValueModel::Int(n))
            &&& forall|n: i64|
                w.contains_key("max_width"@) && w["max_width"@] == ItemModel::Int(n) ==> (f.contains_key(
                    "max_width"@,
                ) && f["max_width"@] == ValueModel::Int(n))
            &&& forall|n: i64|
                w.contains_key("max_height"@) && w["max_height"@] == ItemModel::Int(n) ==> (f.contains_key(
                    "max_height"@,
                ) && f["max_height"@] == ValueModel::Int(n))
        }),
{
    reveal_strlit("window");
    reveal_strlit("title");
    reveal_strlit("min_width");
    reveal_strlit("min_height");
    reveal_strlit("max_width");
    reveal_strlit("max_height");
    reveal_strlit("decorations");
    reveal_strlit("always_on_top");
    reveal_strlit("frameless");
    assert("title"@.len() == 5 && "min_width"@.len() == 9 && "min_height"@.len() == 10 && "max_width"@.len()
        == 9 && "max_height"@.len() == 10 && "decorations"@.len() == 11 && "always_on_top"@.len() == 13);
    assert("min_width"@[1] == 'i' && "max_width"@[1] == 'a' && "min_height"@[1] == 'i' && "max_height"@[1]
        == 'a');
    let w = section(m, "window"@);
    if m.contains_key("window"@) && m["window"@] is Table {
        assert(is_sectioned(m));
        let base = build_fields(app_fields(section(m, "app"@)), section(m, "build"@));
        assert(effective_fields(m) == window_fields(base, w));
    } else {
        assert(w =~= Map::<Seq<char>, ItemModel>::empty());
    }
}

/// What loading a document whose top-level table is `m` answers: the first
/// field of the wrong type, else the configuration with its validation.
pub open spec fn document_outcome(m: Map<Seq<char>, ValueModel>, r: Result<NefuConfig, ConfigError>) -> bool {
    let f = effective_fields(m);
    match r {
        Ok(c) => fields_ok(f) && decoded_config(c, f) && validate_spec(c) is Ok,
        Err(e) => if !fields_ok(f) {
            names_field(e, first_invalid_field(f))
        } else {
            forall|c: NefuConfig| #[trigger] decoded_config(c, f) ==> validate_spec(c) == Err::<(), ConfigError>(e)
        },
    }
}

impl NefuConfig {
    /// Reads a parsed document: a sectioned one is flattened first; then the
    /// fields are read and the configuration validated.
    pub fn from_document(t: &Vec<(String, TomlValue)>) -> (r: Result<NefuConfig, ConfigError>)
        ensures
            document_outcome(map_of(t@), r),
    {
        let sectioned = has_key(t, "app") || has_key(t, "build") || has_key(t, "dev") || has_key(t, "window");
        let decoded = if sectioned {
            let flat = from_sectioned(t);
            NefuConfig::from_table(&flat)
        } else {
            NefuConfig::from_table(t)
        };
        match decoded {
            Ok(c) => match c.validate() {
                Ok(()) => Ok(c),
                Err(e) => {
                    proof {
                        let f = effective_fields(map_of(t@));
                        assert forall|c2: NefuConfig| #[trigger] decoded_config(c2, f) implies validate_spec(c2) == Err::<(), ConfigError>(e) by {
                            lemma_validate_determined(c, c2, f);
                        }
                    }
                    Err(e)
                },
            },
            Err(e) => Err(e),
        }
    }

    /// Parses and validates configuration text (flat or sectioned TOML).
    pub fn load_from_str(content: &str) -> (r: Result<NefuConfig, ConfigError>)
        ensures
            match toml_document_spec(content@) {
                None => r == Err::<NefuConfig, ConfigError>(ConfigError::InvalidToml),
                Some(d) => document_outcome(kv_map(d), r),
            },
    {
        match parse_toml_document(content) {
            None => Err(ConfigError::InvalidToml),
            Some(t) => NefuConfig::from_document(&t),
        }
    }

    /// Parses and validates configuration bytes, which must be UTF-8.
    pub fn load_from_bytes(bytes: &[u8]) -> (r: Result<NefuConfig, ConfigError>)
        ensures
            !vstd::utf8::valid_utf8(bytes@) ==> r == Err::<NefuConfig, ConfigError>(ConfigError::NotUtf8),
            vstd::utf8::valid_utf8(bytes@) ==> match toml_document_spec(vstd::utf8::decode_utf8(bytes@)) {
                None => r == Err::<NefuConfig, ConfigError>(ConfigError::InvalidToml),
                Some(d) => document_outcome(kv_map(d), r),
            },
    {
        match utf8_text(bytes) {
            None => Err(ConfigError::NotUtf8),
            Some(text) => NefuConfig::load_from_str(text.as_str()),
        }
    }
}

} // verus!
