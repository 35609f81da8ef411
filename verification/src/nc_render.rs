//! The `.nc` page language, JSON syntax: a tree of components
//! (`{"component": "button", "text": "Submit", ...}`) rendered to Bootstrap
//! HTML, and the page around it.

use vstd::prelude::*;
use crate::text::{chars_of, decimal, decimal_spec, has_prefix, has_suffix, owned, push_all, push_str, starts_with_str, string_from};

verus! {

// ==================== The JSON model ====================

/// A JSON value as the renderer reads it (numbers carry nothing: no
/// attribute reads one).
#[derive(Debug)]
pub enum NcJson {
    Null,
    Bool(bool),
    Number,
    Str(String),
    Array(Vec<NcJson>),
    Object(Vec<(String, NcJson)>),
}

/// A JSON value with its texts as characters.
pub enum JsonModel {
    Null,
    Bool(bool),
    Number,
    Str(Seq<char>),
    Array(Seq<JsonModel>),
    Object(Seq<(Seq<char>, JsonModel)>),
}

/// The model of a value.
pub open spec fn json_view(j: NcJson) -> JsonModel
    decreases j,
{
    match j {
        NcJson::Null => JsonModel::Null,
        NcJson::Bool(b) => JsonModel::Bool(b),
        NcJson::Number => JsonModel::Number,
        NcJson::Str(s) => JsonModel::Str(s@),
        NcJson::Array(v) => {
            proof {
                assert(decreases_to!(j => v));
                assert(decreases_to!(v => v@));
            }
            JsonModel::Array(values_view(v@))
        },
        NcJson::Object(es) => {
            proof {
                assert(decreases_to!(j => es));
                assert(decreases_to!(es => es@));
            }
            JsonModel::Object(entries_view(es@))
        },
    }
}

/// The models of values.
pub open spec fn values_view(v: Seq<NcJson>) -> Seq<JsonModel>
    decreases v,
{
    if v.len() == 0 {
        Seq::empty()
    } else {
        proof {
            assert(decreases_to!(v => v[v.len() - 1]));
            assert(decreases_to!(v => v.subrange(0, v.len() - 1)));
        }
        values_view(v.drop_last()).push(json_view(v.last()))
    }
}

/// The models of object entries.
pub open spec fn entries_view(es: Seq<(String, NcJson)>) -> Seq<(Seq<char>, JsonModel)>
    decreases es,
{
    if es.len() == 0 {
        Seq::empty()
    } else {
        proof {
            assert(decreases_to!(es => es[es.len() - 1]));
            assert(decreases_to!(es[es.len() - 1] => es[es.len() - 1].1));
            assert(decreases_to!(es => es.subrange(0, es.len() - 1)));
        }
        entries_view(es.drop_last()).push((es.last().0@, json_view(es.last().1)))
    }
}

pub proof fn lemma_values_view(v: Seq<NcJson>)
    ensures
        values_view(v).len() == v.len(),
        forall|i: int| 0 <= i < v.len() ==> #[trigger] values_view(v)[i] == json_view(v[i]),
    decreases v.len(),
{
    if v.len() > 0 {
        lemma_values_view(v.drop_last());
        assert forall|i: int| 0 <= i < v.len() implies #[trigger] values_view(v)[i] == json_view(v[i]) by {
            if i < v.len() - 1 {
                assert(v.drop_last()[i] == v[i]);
            }
        }
    }
}

pub proof fn lemma_entries_view(es: Seq<(String, NcJson)>)
    ensures
        entries_view(es).len() == es.len(),
        forall|i: int| 0 <= i < es.len() ==> #[trigger] entries_view(es)[i] == (es[i].0@, json_view(es[i].1)),
    decreases es.len(),
{
    if es.len() > 0 {
        lemma_entries_view(es.drop_last());
        assert forall|i: int| 0 <= i < es.len() implies #[trigger] entries_view(es)[i] == (es[i].0@, json_view(
            es[i].1,
        )) by {
            if i < es.len() - 1 {
                assert(es.drop_last()[i] == es[i]);
            }
        }
    }
}

/// The JSON value that `serde_json::from_str` reads from a text, by its
/// model; `None` where the text is not JSON.
pub uninterp spec fn json_model_spec(text: Seq<char>) -> Option<JsonModel>;

#[verifier::external_type_specification]
#[verifier::external_body]
pub struct ExJsonValue(serde_json::Value);

/// A `serde_json::Value`, converted variant by variant.
#[verifier::external_body]
fn nc_json(v: serde_json::Value) -> NcJson {
    match v {
        serde_json::Value::Null => NcJson::Null,
        serde_json::Value::Bool(b) => NcJson::Bool(b),
        serde_json::Value::Number(_) => NcJson::Number,
        serde_json::Value::String(s) => NcJson::Str(s),
        serde_json::Value::Array(a) => NcJson::Array(a.into_iter().map(nc_json).collect()),
        serde_json::Value::Object(m) => NcJson::Object(m.into_iter().map(|(k, x)| (k, nc_json(x))).collect()),
    }
}

/// `serde_json::from_str::<serde_json::Value>`: the JSON value of a text,
/// or `None` where it is not JSON. The result is named, not stated: the
/// JSON grammar and the order in which an object's entries come out are
/// serde_json's.
#[verifier::external_body]
pub(crate) fn parse_json(text: &str) -> (r: Option<NcJson>)
    ensures
        match r {
            Some(j) => json_model_spec(text@) == Some(json_view(j)),
            None => json_model_spec(text@) is None,
        },
{
    match serde_json::from_str::<serde_json::Value>(text) {
        Ok(v) => Some(nc_json(v)),
        Err(_) => None,
    }
}

// ==================== Reading components ====================

/// The first entry of an object under `key`.
pub open spec fn entry_of(es: Seq<(Seq<char>, JsonModel)>, key: Seq<char>) -> Option<JsonModel>
    decreases es.len(),
{
    if es.len() == 0 {
        None
    } else if es[0].0 == key {
        Some(es[0].1)
    } else {
        entry_of(es.skip(1), key)
    }
}

/// The value under `key` where `j` is an object that has one.
pub open spec fn get(j: JsonModel, key: Seq<char>) -> Option<JsonModel> {
    match j {
        JsonModel::Object(es) => entry_of(es, key),
        _ => None,
    }
}

/// The text of a string value.
pub open spec fn as_str(j: Option<JsonModel>) -> Option<Seq<char>> {
    match j {
        Some(JsonModel::Str(s)) => Some(s),
        _ => None,
    }
}

/// The component kind: the text under `component`, else under `type`,
/// else `div`.
pub open spec fn kind(j: JsonModel) -> Seq<char> {
    match as_str(get(j, "component"@)) {
        Some(k) => k,
        None => match as_str(get(j, "type"@)) {
            Some(k) => k,
            None => "div"@,
        },
    }
}

/// A text attribute: the field itself where it is text, else the field of
/// `props` where that is text.
pub open spec fn sattr(j: JsonModel, name: Seq<char>) -> Option<Seq<char>> {
    match as_str(get(j, name)) {
        Some(s) => Some(s),
        None => match get(j, "props"@) {
            Some(p) => as_str(get(p, name)),
            None => None,
        },
    }
}

/// A text attribute, or `d` where there is none.
pub open spec fn attr_or(j: JsonModel, name: Seq<char>, d: Seq<char>) -> Seq<char> {
    match sattr(j, name) {
        Some(s) => s,
        None => d,
    }
}

/// Any attribute: the field itself, else the field of `props`.
pub open spec fn attr(j: JsonModel, name: Seq<char>) -> Option<JsonModel> {
    match get(j, name) {
        Some(v) => Some(v),
        None => match get(j, "props"@) {
            Some(p) => get(p, name),
            None => None,
        },
    }
}

/// The children: the elements of the `children` array.
pub open spec fn kids(j: JsonModel) -> Seq<JsonModel> {
    match get(j, "children"@) {
        Some(JsonModel::Array(s)) => s,
        _ => Seq::empty(),
    }
}

/// The texts of the string elements, joined.
pub open spec fn string_elements(s: Seq<JsonModel>) -> Seq<char>
    decreases s.len(),
{
    if s.len() == 0 {
        Seq::empty()
    } else {
        string_elements(s.drop_last()) + match s.last() {
            JsonModel::Str(t) => t,
            _ => Seq::empty(),
        }
    }
}

/// The text of a component: its `text` attribute, else its string
/// children joined.
pub open spec fn text(j: JsonModel) -> Seq<char> {
    match sattr(j, "text"@) {
        Some(t) => t,
        None => string_elements(kids(j)),
    }
}

/// `true` or `yes`.
pub open spec fn yes(s: Seq<char>) -> bool {
    s == "true"@ || s == "yes"@
}

/// ` name="value"` where the value is not empty.
pub open spec fn opt_attr(name: Seq<char>, value: Seq<char>) -> Seq<char> {
    if value.len() > 0 {
        " "@ + name + "=\""@ + value + "\""@
    } else {
        Seq::empty()
    }
}

/// ` value` where the value is not empty (a class list's last part).
pub open spec fn opt_class(value: Seq<char>) -> Seq<char> {
    if value.len() > 0 {
        " "@ + value
    } else {
        Seq::empty()
    }
}

/// The `data-*` attributes of `props` that hold text, in order.
pub open spec fn data_attrs_of(es: Seq<(Seq<char>, JsonModel)>) -> Seq<char>
    decreases es.len(),
{
    if es.len() == 0 {
        Seq::empty()
    } else {
        data_attrs_of(es.drop_last()) + match es.last().1 {
            JsonModel::Str(v) => if has_prefix(es.last().0, "data-"@) {
                " "@ + es.last().0 + "=\""@ + v + "\""@
            } else {
                Seq::empty()
            },
            _ => Seq::empty(),
        }
    }
}

/// The `data-*` attributes of a component's `props` object.
pub open spec fn data_attrs(j: JsonModel) -> Seq<char> {
    match get(j, "props"@) {
        Some(JsonModel::Object(es)) => data_attrs_of(es),
        _ => Seq::empty(),
    }
}

pub proof fn lemma_entry_smaller(es: Seq<(Seq<char>, JsonModel)>, key: Seq<char>)
    ensures
        entry_of(es, key) matches Some(v) ==> decreases_to!(es => v),
    decreases es.len(),
{
    if es.len() > 0 {
        if es[0].0 == key {
            assert(decreases_to!(es => es[0]));
            assert(decreases_to!(es[0] => es[0].1));
        } else {
            lemma_entry_smaller(es.skip(1), key);
            assert(decreases_to!(es => es.subrange(1, es.len() as int)));
        }
    }
}

pub proof fn lemma_get_smaller(j: JsonModel, key: Seq<char>)
    ensures
        get(j, key) matches Some(v) ==> decreases_to!(j => v),
{
    if let JsonModel::Object(es) = j {
        lemma_entry_smaller(es, key);
        assert(decreases_to!(j => es));
    }
}

pub proof fn lemma_kids_smaller(j: JsonModel)
    ensures
        decreases_to!(j => kids(j)) || kids(j).len() == 0,
{
    lemma_get_smaller(j, "children"@);
    if let Some(JsonModel::Array(s)) = get(j, "children"@) {
        assert(decreases_to!(JsonModel::Array(s) => s));
    }
}

pub proof fn lemma_body_smaller(j: JsonModel)
    ensures
        attr(j, "body"@) matches Some(b) ==> decreases_to!(j => b),
{
    lemma_get_smaller(j, "body"@);
    lemma_get_smaller(j, "props"@);
    if let Some(p) = get(j, "props"@) {
        lemma_get_smaller(p, "body"@);
    }
}

// ==================== What a component renders to ====================

/// Progress percentages by value and maximum text, as the caller computes
/// them (the last entry for a pair counts; a pair without one is 0).
pub open spec fn percent_of(t: Seq<(Seq<char>, Seq<char>, u32)>, value: Seq<char>, max: Seq<char>) -> u32
    decreases t.len(),
{
    if t.len() == 0 {
        0
    } else if t.last().0 == value && t.last().1 == max {
        t.last().2
    } else {
        percent_of(t.drop_last(), value, max)
    }
}

/// A plain wrapper element: `<tag class="...">children</tag>`.
pub open spec fn wrap_html(tag: Seq<char>, class: Seq<char>, ch: Seq<char>) -> Seq<char> {
    "<"@ + tag + " class=\""@ + class + "\">"@ + ch + "</"@ + tag + ">"@
}

/// A `<label class="form-label">` where the label is not empty.
pub open spec fn form_label(label: Seq<char>) -> Seq<char> {
    if label.len() > 0 {
        "<label class=\"form-label\">"@ + label + "</label>"@
    } else {
        Seq::empty()
    }
}

pub open spec fn text_html(j: JsonModel, ch: Seq<char>) -> Seq<char> {
    let tag = attr_or(j, "tag"@, "p"@);
    "<"@ + tag + opt_attr("class"@, attr_or(j, "class"@, ""@)) + ">"@ + text(j) + ch + "</"@ + tag + ">"@
}

pub open spec fn heading_html(j: JsonModel) -> Seq<char> {
    let level = attr_or(j, "level"@, "2"@);
    "<h"@ + level + opt_attr("class"@, attr_or(j, "class"@, ""@)) + ">"@ + text(j) + "</h"@ + level + ">"@
}

pub open spec fn image_html(j: JsonModel) -> Seq<char> {
    "<img src=\""@ + attr_or(j, "src"@, ""@) + "\" alt=\""@ + attr_or(j, "alt"@, ""@) + "\""@ + opt_attr(
        "class"@,
        attr_or(j, "class"@, "img-fluid"@),
    ) + opt_attr("width"@, attr_or(j, "width"@, ""@)) + opt_attr("height"@, attr_or(j, "height"@, ""@)) + ">"@
}

pub open spec fn icon_html(j: JsonModel) -> Seq<char> {
    "<i class=\"fa-"@ + attr_or(j, "name"@, "circle"@) + opt_class(attr_or(j, "class"@, ""@)) + "\"></i>"@
}

pub open spec fn button_html(j: JsonModel, ch: Seq<char>) -> Seq<char> {
    let color = attr_or(j, "color"@, "primary"@);
    let variant = if yes(attr_or(j, "outline"@, ""@)) {
        "btn-outline-"@ + color
    } else {
        "btn-"@ + color
    };
    let size = attr_or(j, "size"@, ""@);
    "<button class=\"btn "@ + variant + (if size.len() > 0 {
        " btn-"@ + size
    } else {
        Seq::empty()
    }) + opt_class(attr_or(j, "class"@, ""@)) + "\""@ + opt_attr("onclick"@, attr_or(j, "onclick"@, ""@))
        + data_attrs(j) + ">"@ + text(j) + ch + "</button>"@
}

/// A button's colour class: `btn-outline-<color>` where its `outline`
/// attribute is `true` or `yes`, `btn-<color>` otherwise, with the colour
/// `primary` where none is given; it opens the class list after `btn`.
#[verifier::spinoff_prover]
pub proof fn law_button_variant(j: JsonModel, ch: Seq<char>)
    ensures
        ({
            let color = match sattr(j, "color"@) {
                Some(c) => c,
                None => "primary"@,
            };
            &&& (sattr(j, "outline"@) == Some("true"@) || sattr(j, "outline"@) == Some("yes"@)) ==> has_prefix(
                button_html(j, ch),
                "<button class=\"btn btn-outline-"@ + color,
            )
            &&& !(sattr(j, "outline"@) == Some("true"@) || sattr(j, "outline"@) == Some("yes"@)) ==> has_prefix(
                button_html(j, ch),
                "<button class=\"btn btn-"@ + color,
            )
        }),
{
    reveal_strlit("<button class=\"btn ");
    reveal_strlit("<button class=\"btn btn-outline-");
    reveal_strlit("<button class=\"btn btn-");
    reveal_strlit("btn-outline-");
    reveal_strlit("btn-");
    reveal_strlit("true");
    reveal_strlit("yes");
    reveal_strlit("");
    let color = attr_or(j, "color"@, "primary"@);
    let variant = if yes(attr_or(j, "outline"@, ""@)) {
        "btn-outline-"@ + color
    } else {
        "btn-"@ + color
    };
    let pre = "<button class=\"btn "@ + variant;
    let s = button_html(j, ch);
    assert(s.subrange(0, pre.len() as int) =~= pre);
    assert(has_prefix(s, pre));
    assert(color == match sattr(j, "color"@) {
        Some(c) => c,
        None => "primary"@,
    });
    if sattr(j, "outline"@) == Some("true"@) || sattr(j, "outline"@) == Some("yes"@) {
        assert(yes(attr_or(j, "outline"@, ""@)));
        assert(pre =~= "<button class=\"btn btn-outline-"@ + color);
    } else {
        match sattr(j, "outline"@) {
            Some(o) => {
                assert(o != "true"@ && o != "yes"@);
            },
            None => {
                assert(""@.len() == 0);
                assert("true"@.len() == 4);
                assert(""@ != "true"@ && ""@ != "yes"@);
            },
        }
        assert(!yes(attr_or(j, "outline"@, ""@)));
        assert(pre =~= "<button class=\"btn btn-"@ + color);
    }
}

/// An attribute is set: its text is `true` or `yes`.
pub open spec fn flag_set(j: JsonModel, name: Seq<char>) -> bool {
    sattr(j, name) == Some("true"@) || sattr(j, name) == Some("yes"@)
}

proof fn lemma_flag_set(j: JsonModel, name: Seq<char>)
    ensures
        yes(attr_or(j, name, ""@)) == flag_set(j, name),
{
    reveal_strlit("true");
    reveal_strlit("yes");
    reveal_strlit("");
    assert(""@.len() == 0 && "true"@.len() == 4 && "yes"@.len() == 3);
}

/// Inline code is a bare `<code>` element around the text; otherwise the
/// code is a block, `<pre><code ...>`.
pub proof fn law_code_inline(j: JsonModel)
    ensures
        flag_set(j, "inline"@) ==> code_html(j) == "<code>"@ + text(j) + "</code>"@,
        !flag_set(j, "inline"@) ==> has_prefix(code_html(j), "<pre><code"@),
{
    lemma_flag_set(j, "inline"@);
    if !flag_set(j, "inline"@) {
        let s = code_html(j);
        assert(s.subrange(0, "<pre><code"@.len() as int) =~= "<pre><code"@);
    }
}

/// An alert has the class of its colour (`info` where none is given); a
/// dismissible one also has the dismissing classes and ends with a close
/// button, any other ends with its text.
pub proof fn law_alert_dismissible(j: JsonModel)
    ensures
        ({
            let color = match sattr(j, "color"@) {
                Some(c) => c,
                None => "info"@,
            };
            &&& flag_set(j, "dismissible"@) ==> has_prefix(
                alert_html(j),
                "<div class=\"alert alert-"@ + color + " alert-dismissible fade show"@,
            ) && has_suffix(
                alert_html(j),
                "<button type=\"button\" class=\"btn-close\" data-bs-dismiss=\"alert\"></button></div>"@,
            )
            &&& !flag_set(j, "dismissible"@) ==> has_prefix(alert_html(j), "<div class=\"alert alert-"@ + color)
                && has_suffix(alert_html(j), "\" role=\"alert\">"@ + text(j) + "</div>"@)
        }),
{
    lemma_flag_set(j, "dismissible"@);
    let color = attr_or(j, "color"@, "info"@);
    assert(color == match sattr(j, "color"@) {
        Some(c) => c,
        None => "info"@,
    });
    let s = alert_html(j);
    let close = "<button type=\"button\" class=\"btn-close\" data-bs-dismiss=\"alert\"></button>"@;
    if flag_set(j, "dismissible"@) {
        let pre = "<div class=\"alert alert-"@ + color + " alert-dismissible fade show"@;
        assert(s.subrange(0, pre.len() as int) =~= pre);
        let suf = close + "</div>"@;
        assert(s.subrange(s.len() - suf.len(), s.len() as int) =~= suf);
        assert(has_prefix(s, pre) && has_suffix(s, suf));
        reveal_strlit("<button type=\"button\" class=\"btn-close\" data-bs-dismiss=\"alert\"></button>");
        reveal_strlit("</div>");
        reveal_strlit("<button type=\"button\" class=\"btn-close\" data-bs-dismiss=\"alert\"></button></div>");
        assert(suf =~= "<button type=\"button\" class=\"btn-close\" data-bs-dismiss=\"alert\"></button></div>"@);
    } else {
        let pre = "<div class=\"alert alert-"@ + color;
        assert(s.subrange(0, pre.len() as int) =~= pre);
        let suf = "\" role=\"alert\">"@ + text(j) + "</div>"@;
        assert(s.subrange(s.len() - suf.len(), s.len() as int) =~= suf);
        assert(has_prefix(s, pre) && has_suffix(s, suf));
    }
}

/// A table's classes: `table`, then ` table-bordered`, ` table-striped`
/// and ` table-hover` for each of those attributes that is set, in that
/// order.
pub proof fn law_table_flags(j: JsonModel)
    ensures
        has_prefix(
            table_classes(j),
            "table"@ + (if flag_set(j, "bordered"@) {
                " table-bordered"@
            } else {
                ""@
            }) + (if flag_set(j, "striped"@) {
                " table-striped"@
            } else {
                ""@
            }) + (if flag_set(j, "hover"@) {
                " table-hover"@
            } else {
                ""@
            }),
        ),
{
    lemma_flag_set(j, "bordered"@);
    lemma_flag_set(j, "striped"@);
    lemma_flag_set(j, "hover"@);
    reveal_strlit("");
    let pre = "table"@ + (if flag_set(j, "bordered"@) {
        " table-bordered"@
    } else {
        ""@
    }) + (if flag_set(j, "striped"@) {
        " table-striped"@
    } else {
        ""@
    }) + (if flag_set(j, "hover"@) {
        " table-hover"@
    } else {
        ""@
    });
    let s = table_classes(j);
    assert(s.subrange(0, pre.len() as int) =~= pre);
}

/// A list group's classes: `list-group`, then ` list-group-flush` and
/// ` list-group-numbered` for each of those attributes that is set.
pub proof fn law_list_group_flags(j: JsonModel)
    ensures
        has_prefix(
            list_group_html(j),
            "<ul class=\"list-group"@ + (if flag_set(j, "flush"@) {
                " list-group-flush"@
            } else {
                ""@
            }) + (if flag_set(j, "numbered"@) {
                " list-group-numbered"@
            } else {
                ""@
            }),
        ),
{
    lemma_flag_set(j, "flush"@);
    lemma_flag_set(j, "numbered"@);
    reveal_strlit("");
    let pre = "<ul class=\"list-group"@ + (if flag_set(j, "flush"@) {
        " list-group-flush"@
    } else {
        ""@
    }) + (if flag_set(j, "numbered"@) {
        " list-group-numbered"@
    } else {
        ""@
    });
    let s = list_group_html(j);
    assert(s.subrange(0, pre.len() as int) =~= pre);
}

/// A progress bar's classes: `progress-bar`, then ` bg-<color>` where a
/// colour is given, and ` progress-bar-striped` and
/// ` progress-bar-animated` for each of those attributes that is set.
#[verifier::spinoff_prover]
pub proof fn law_progress_flags(j: JsonModel, pc: Seq<(Seq<char>, Seq<char>, u32)>)
    ensures
        has_prefix(
            progress_html(j, pc),
            "<div class=\"progress\"><div class=\"progress-bar"@ + (match sattr(j, "color"@) {
                Some(c) => if c.len() > 0 {
                    " bg-"@ + c
                } else {
                    ""@
                },
                None => ""@,
            }) + (if flag_set(j, "striped"@) {
                " progress-bar-striped"@
            } else {
                ""@
            }) + (if flag_set(j, "animated"@) {
                " progress-bar-animated"@
            } else {
                ""@
            }) + "\" role=\"progressbar\""@,
        ),
{
    lemma_flag_set(j, "striped"@);
    lemma_flag_set(j, "animated"@);
    reveal_strlit("");
    assert(""@.len() == 0);
    let color = attr_or(j, "color"@, ""@);
    let pre = "<div class=\"progress\"><div class=\"progress-bar"@ + (if color.len() > 0 {
        " bg-"@ + color
    } else {
        Seq::empty()
    }) + (if flag_set(j, "striped"@) {
        " progress-bar-striped"@
    } else {
        Seq::empty()
    }) + (if flag_set(j, "animated"@) {
        " progress-bar-animated"@
    } else {
        Seq::empty()
    }) + "\" role=\"progressbar\""@;
    let s = progress_html(j, pc);
    reveal_strlit("\" role=\"progressbar\"");
    reveal_strlit("\" role=\"progressbar\" style=\"width: ");
    let head = "<div class=\"progress\"><div class=\"progress-bar"@ + (if color.len() > 0 {
        " bg-"@ + color
    } else {
        Seq::empty()
    }) + (if flag_set(j, "striped"@) {
        " progress-bar-striped"@
    } else {
        Seq::empty()
    }) + (if flag_set(j, "animated"@) {
        " progress-bar-animated"@
    } else {
        Seq::empty()
    });
    let full = head + "\" role=\"progressbar\" style=\"width: "@;
    assert(s.subrange(0, full.len() as int) =~= full);
    assert(pre =~= head + "\" role=\"progressbar\""@);
    assert(full.subrange(0, pre.len() as int) =~= pre);
    assert(s.subrange(0, pre.len() as int) =~= pre);
    assert(has_prefix(s, pre));
    assert(""@ =~= Seq::<char>::empty());
    assert(pre == "<div class=\"progress\"><div class=\"progress-bar"@ + (match sattr(j, "color"@) {
        Some(c) => if c.len() > 0 {
            " bg-"@ + c
        } else {
            ""@
        },
        None => ""@,
    }) + (if flag_set(j, "striped"@) {
        " progress-bar-striped"@
    } else {
        ""@
    }) + (if flag_set(j, "animated"@) {
        " progress-bar-animated"@
    } else {
        ""@
    }) + "\" role=\"progressbar\""@);
}

/// A check input is marked ` checked` exactly where its `checked`
/// attribute is set: right before the end of the input tag.
#[verifier::spinoff_prover]
pub proof fn law_check_checked(j: JsonModel, input_type: Seq<char>, extra: Seq<char>)
    ensures
        ({
            let id = match sattr(j, "id"@) {
                Some(i) => i,
                None => ""@,
            };
            has_prefix(
                check_html(j, input_type, extra),
                "<div class=\"form-check\"><input class=\"form-check-input\" type=\""@ + input_type + "\""@ + extra
                    + opt_attr("id"@, id) + (if flag_set(j, "checked"@) {
                    " checked"@
                } else {
                    ""@
                }) + "><label"@,
            )
        }),
{
    lemma_flag_set(j, "checked"@);
    reveal_strlit("");
    assert(""@ =~= Seq::<char>::empty());
    let id = attr_or(j, "id"@, ""@);
    let pre = "<div class=\"form-check\"><input class=\"form-check-input\" type=\""@ + input_type + "\""@ + extra
        + opt_attr("id"@, id) + (if flag_set(j, "checked"@) {
        " checked"@
    } else {
        ""@
    }) + "><label"@;
    let s = check_html(j, input_type, extra);
    reveal_strlit("><label");
    reveal_strlit("><label class=\"form-check-label\"");
    let head = "<div class=\"form-check\"><input class=\"form-check-input\" type=\""@ + input_type + "\""@ + extra
        + opt_attr("id"@, id) + (if flag_set(j, "checked"@) {
        " checked"@
    } else {
        Seq::empty()
    });
    let full = head + "><label class=\"form-check-label\""@;
    assert(s.subrange(0, full.len() as int) =~= full);
    assert(pre =~= head + "><label"@);
    assert(full.subrange(0, pre.len() as int) =~= pre);
    assert(s.subrange(0, pre.len() as int) =~= pre);
}

pub open spec fn input_html(j: JsonModel) -> Seq<char> {
    form_label(attr_or(j, "label"@, ""@)) + "<input type=\""@ + attr_or(j, "type"@, "text"@)
        + "\" class=\"form-control"@ + opt_class(attr_or(j, "class"@, ""@)) + "\" placeholder=\""@ + attr_or(
        j,
        "placeholder"@,
        ""@,
    ) + "\" value=\""@ + attr_or(j, "value"@, ""@) + "\">"@
}

pub open spec fn textarea_html(j: JsonModel) -> Seq<char> {
    form_label(attr_or(j, "label"@, ""@)) + "<textarea class=\"form-control"@ + opt_class(
        attr_or(j, "class"@, ""@),
    ) + "\" placeholder=\""@ + attr_or(j, "placeholder"@, ""@) + "\" rows=\""@ + attr_or(j, "rows"@, "3"@)
        + "\">"@ + text(j) + "</textarea>"@
}

/// The `<option>` elements of a select's children of kind `option`.
pub open spec fn options_html(s: Seq<JsonModel>) -> Seq<char>
    decreases s.len(),
{
    if s.len() == 0 {
        Seq::empty()
    } else {
        options_html(s.drop_last()) + if kind(s.last()) == "option"@ {
            "<option value=\""@ + attr_or(s.last(), "value"@, ""@) + "\">"@ + text(s.last()) + "</option>"@
        } else {
            Seq::empty()
        }
    }
}

pub open spec fn select_html(j: JsonModel) -> Seq<char> {
    form_label(attr_or(j, "label"@, ""@)) + "<select class=\"form-select"@ + opt_class(attr_or(j, "class"@, ""@))
        + "\">"@ + options_html(kids(j)) + "</select>"@
}

/// A check input of a type, with its extra attributes, then its label.
pub open spec fn check_html(j: JsonModel, input_type: Seq<char>, extra: Seq<char>) -> Seq<char> {
    let id = attr_or(j, "id"@, ""@);
    "<div class=\"form-check\"><input class=\"form-check-input\" type=\""@ + input_type + "\""@ + extra
        + opt_attr("id"@, id) + (if yes(attr_or(j, "checked"@, ""@)) {
        " checked"@
    } else {
        Seq::empty()
    }) + "><label class=\"form-check-label\""@ + opt_attr("for"@, id) + ">"@ + attr_or(j, "label"@, ""@)
        + "</label></div>"@
}

pub open spec fn radio_extra(j: JsonModel) -> Seq<char> {
    " name=\""@ + attr_or(j, "name"@, ""@) + "\" value=\""@ + attr_or(j, "value"@, ""@) + "\""@
}

/// The rows of a table section: each row's children as cells of `tag`.
pub open spec fn cells_html(s: Seq<JsonModel>, tag: Seq<char>) -> Seq<char>
    decreases s.len(),
{
    if s.len() == 0 {
        Seq::empty()
    } else {
        cells_html(s.drop_last(), tag) + "<"@ + tag + ">"@ + text(s.last()) + "</"@ + tag + ">"@
    }
}

pub open spec fn rows_html(s: Seq<JsonModel>, tag: Seq<char>) -> Seq<char>
    decreases s.len(),
{
    if s.len() == 0 {
        Seq::empty()
    } else {
        rows_html(s.drop_last(), tag) + "<tr>"@ + cells_html(kids(s.last()), tag) + "</tr>"@
    }
}

pub open spec fn table_classes(j: JsonModel) -> Seq<char> {
    "table"@ + (if yes(attr_or(j, "bordered"@, ""@)) {
        " table-bordered"@
    } else {
        Seq::empty()
    }) + (if yes(attr_or(j, "striped"@, ""@)) {
        " table-striped"@
    } else {
        Seq::empty()
    }) + (if yes(attr_or(j, "hover"@, ""@)) {
        " table-hover"@
    } else {
        Seq::empty()
    }) + opt_class(attr_or(j, "class"@, ""@))
}

pub open spec fn alert_html(j: JsonModel) -> Seq<char> {
    let d = yes(attr_or(j, "dismissible"@, ""@));
    "<div class=\"alert alert-"@ + attr_or(j, "color"@, "info"@) + (if d {
        " alert-dismissible fade show"@
    } else {
        Seq::empty()
    }) + opt_class(attr_or(j, "class"@, ""@)) + "\" role=\"alert\">"@ + text(j) + (if d {
        "<button type=\"button\" class=\"btn-close\" data-bs-dismiss=\"alert\"></button>"@
    } else {
        Seq::empty()
    }) + "</div>"@
}

pub open spec fn badge_html(j: JsonModel) -> Seq<char> {
    "<span class=\"badge bg-"@ + attr_or(j, "color"@, "secondary"@) + opt_class(attr_or(j, "class"@, ""@))
        + "\">"@ + text(j) + "</span>"@
}

pub open spec fn progress_html(j: JsonModel, pc: Seq<(Seq<char>, Seq<char>, u32)>) -> Seq<char> {
    let value = attr_or(j, "value"@, "0"@);
    let max = attr_or(j, "max"@, "100"@);
    let color = attr_or(j, "color"@, ""@);
    let percent = decimal_spec(percent_of(pc, value, max) as nat);
    let label = attr_or(j, "label"@, ""@);
    "<div class=\"progress\"><div class=\"progress-bar"@ + (if color.len() > 0 {
        " bg-"@ + color
    } else {
        Seq::empty()
    }) + (if yes(attr_or(j, "striped"@, ""@)) {
        " progress-bar-striped"@
    } else {
        Seq::empty()
    }) + (if yes(attr_or(j, "animated"@, ""@)) {
        " progress-bar-animated"@
    } else {
        Seq::empty()
    }) + "\" role=\"progressbar\" style=\"width: "@ + percent + "%\" aria-valuenow=\""@ + value
        + "\" aria-valuemin=\"0\" aria-valuemax=\""@ + max + "\">"@ + (if label.len() > 0 {
        label
    } else {
        percent + "%"@
    }) + "</div></div>"@
}

pub open spec fn spinner_html(j: JsonModel) -> Seq<char> {
    let t = attr_or(j, "type"@, "border"@);
    let size = attr_or(j, "size"@, ""@);
    "<div class=\"spinner-"@ + t + " text-"@ + attr_or(j, "color"@, "primary"@) + (if size.len() > 0 {
        " spinner-"@ + t + "-"@ + size
    } else {
        Seq::empty()
    }) + opt_class(attr_or(j, "class"@, ""@))
        + "\" role=\"status\"><span class=\"visually-hidden\">Loading...</span></div>"@
}

pub open spec fn modal_html(j: JsonModel, ch: Seq<char>) -> Seq<char> {
    let size = attr_or(j, "size"@, ""@);
    "<div class=\"modal fade\" id=\""@ + attr_or(j, "id"@, "modal"@) + "\" tabindex=\"-1\">\n  <div class=\"modal-dialog"@
        + (if size.len() > 0 {
        " modal-"@ + size
    } else {
        Seq::empty()
    }) + opt_class(attr_or(j, "class"@, ""@))
        + "\">\n    <div class=\"modal-content\">\n      <div class=\"modal-header\">\n        <h5 class=\"modal-title\">"@
        + attr_or(j, "title"@, "Title"@)
        + "</h5>\n        <button type=\"button\" class=\"btn-close\" data-bs-dismiss=\"modal\"></button>\n      </div>\n      <div class=\"modal-body\">"@
        + ch + "</div></div></div></div>"@
}

pub open spec fn navbar_html(j: JsonModel, ch: Seq<char>) -> Seq<char> {
    let fixed = attr_or(j, "fixed"@, ""@);
    let brand = attr_or(j, "brand"@, ""@);
    "<nav class=\"navbar navbar-expand-lg navbar-"@ + attr_or(j, "color"@, "light"@) + " bg-"@ + attr_or(
        j,
        "bg"@,
        "light"@,
    ) + (if fixed.len() > 0 {
        " fixed-"@ + fixed
    } else {
        Seq::empty()
    }) + opt_class(attr_or(j, "class"@, ""@)) + "\"><div class=\"container-fluid\">"@ + (if brand.len() > 0 {
        "<a class=\"navbar-brand\" href=\"#\">"@ + brand + "</a>"@
    } else {
        Seq::empty()
    }) + ch + "</div></nav>"@
}

/// The tab buttons, the `i`-th first; the first is active.
pub open spec fn tab_buttons(s: Seq<JsonModel>, id: Seq<char>) -> Seq<char>
    decreases s.len(),
{
    if s.len() == 0 {
        Seq::empty()
    } else {
        let i = (s.len() - 1) as nat;
        tab_buttons(s.drop_last(), id) + "<li class=\"nav-item\" role=\"presentation\">\n                <button class=\"nav-link"@
            + (if i == 0 {
            " active"@
        } else {
            Seq::empty()
        }) + "\" id=\""@ + id + "-tab-"@ + decimal_spec(i) + "\" data-bs-toggle=\"tab\" data-bs-target=\"#"@ + id
            + "-"@ + decimal_spec(i) + "\" type=\"button\" role=\"tab\">"@ + attr_or(
            s.last(),
            "title"@,
            "Tab "@ + decimal_spec(i + 1),
        ) + "</button>\n              </li>"@
    }
}

/// The accordion items; the first is open.
pub open spec fn accordion_items(s: Seq<JsonModel>, id: Seq<char>) -> Seq<char>
    decreases s.len(),
{
    if s.len() == 0 {
        Seq::empty()
    } else {
        let i = (s.len() - 1) as nat;
        accordion_items(s.drop_last(), id)
            + "<div class=\"accordion-item\">\n                <h2 class=\"accordion-header\">\n                  <button class=\"accordion-button"@
            + (if i == 0 {
            Seq::empty()
        } else {
            " collapsed"@
        }) + "\" type=\"button\" data-bs-toggle=\"collapse\" data-bs-target=\"#"@ + id + "-collapse-"@
            + decimal_spec(i) + "\">"@ + attr_or(s.last(), "title"@, "Item "@ + decimal_spec(i + 1))
            + "</button>\n                </h2>\n                <div id=\""@ + id + "-collapse-"@ + decimal_spec(i)
            + "\" class=\"accordion-collapse collapse"@ + (if i == 0 {
            " show"@
        } else {
            Seq::empty()
        }) + "\" data-bs-parent=\"#"@ + id
            + "\">\n                  <div class=\"accordion-body\"></div></div></div>"@
    }
}

/// The carousel indicators of `n` slides.
pub open spec fn carousel_indicators(n: nat, id: Seq<char>) -> Seq<char>
    decreases n,
{
    if n == 0 {
        Seq::empty()
    } else {
        let i = (n - 1) as nat;
        carousel_indicators(i, id) + "<button type=\"button\" data-bs-target=\"#"@ + id + "\" data-bs-slide-to=\""@
            + decimal_spec(i) + "\""@ + (if i == 0 {
            " class=\"active\""@
        } else {
            Seq::empty()
        }) + "</button>"@
    }
}

pub open spec fn carousel_controls(id: Seq<char>) -> Seq<char> {
    "<button class=\"carousel-control-prev\" type=\"button\" data-bs-target=\"#"@ + id
        + "\" data-bs-slide=\"prev\">\n            <span class=\"carousel-control-prev-icon\"></span>\n          </button>\n          <button class=\"carousel-control-next\" type=\"button\" data-bs-target=\"#"@
        + id
        + "\" data-bs-slide=\"next\">\n            <span class=\"carousel-control-next-icon\"></span>\n          </button>"@
}

/// The items of a dropdown menu.
pub open spec fn dropdown_items(s: Seq<JsonModel>) -> Seq<char>
    decreases s.len(),
{
    if s.len() == 0 {
        Seq::empty()
    } else {
        dropdown_items(s.drop_last()) + if kind(s.last()) == "divider"@ {
            "<li><hr class=\"dropdown-divider\"></li>"@
        } else {
            "<li><a class=\"dropdown-item\" href=\""@ + attr_or(s.last(), "href"@, "#"@) + "\">"@ + text(s.last())
                + "</a></li>"@
        }
    }
}

pub open spec fn dropdown_html(j: JsonModel) -> Seq<char> {
    "<div class=\"dropdown"@ + opt_class(attr_or(j, "class"@, ""@)) + "\"><button class=\"btn btn-"@ + attr_or(
        j,
        "color"@,
        "secondary"@,
    ) + " dropdown-toggle\" type=\"button\" data-bs-toggle=\"dropdown\">"@ + text(j)
        + "</button>\n           <ul class=\"dropdown-menu\">"@ + dropdown_items(kids(j)) + "</ul></div>"@
}

/// ` active` and ` disabled` for a child whose attribute is `true`.
pub open spec fn state_classes(c: JsonModel) -> Seq<char> {
    (if attr_or(c, "active"@, ""@) == "true"@ {
        " active"@
    } else {
        Seq::empty()
    }) + (if attr_or(c, "disabled"@, ""@) == "true"@ {
        " disabled"@
    } else {
        Seq::empty()
    })
}

pub open spec fn list_items(s: Seq<JsonModel>) -> Seq<char>
    decreases s.len(),
{
    if s.len() == 0 {
        Seq::empty()
    } else {
        list_items(s.drop_last()) + "<li class=\"list-group-item"@ + state_classes(s.last()) + opt_class(
            attr_or(s.last(), "class"@, ""@),
        ) + "\">"@ + text(s.last()) + "</li>"@
    }
}

pub open spec fn list_group_html(j: JsonModel) -> Seq<char> {
    "<ul class=\"list-group"@ + (if yes(attr_or(j, "flush"@, ""@)) {
        " list-group-flush"@
    } else {
        Seq::empty()
    }) + (if yes(attr_or(j, "numbered"@, ""@)) {
        " list-group-numbered"@
    } else {
        Seq::empty()
    }) + opt_class(attr_or(j, "class"@, ""@)) + "\">"@ + list_items(kids(j)) + "</ul>"@
}

pub open spec fn page_items(s: Seq<JsonModel>) -> Seq<char>
    decreases s.len(),
{
    if s.len() == 0 {
        Seq::empty()
    } else {
        page_items(s.drop_last()) + "<li class=\"page-item"@ + state_classes(s.last())
            + "\"><a class=\"page-link\" href=\"#\">"@ + text(s.last()) + "</a></li>"@
    }
}

pub open spec fn pagination_html(j: JsonModel) -> Seq<char> {
    let size = attr_or(j, "size"@, ""@);
    "<nav><ul class=\"pagination"@ + (if size.len() > 0 {
        " pagination-"@ + size
    } else {
        Seq::empty()
    }) + opt_class(attr_or(j, "class"@, ""@)) + "\">"@ + page_items(kids(j)) + "</ul></nav>"@
}

pub open spec fn crumbs(s: Seq<JsonModel>) -> Seq<char>
    decreases s.len(),
{
    if s.len() == 0 {
        Seq::empty()
    } else {
        crumbs(s.drop_last()) + if attr_or(s.last(), "active"@, ""@) == "true"@ {
            "<li class=\"breadcrumb-item active\">"@ + text(s.last()) + "</li>"@
        } else {
            "<li class=\"breadcrumb-item\"><a href=\""@ + attr_or(s.last(), "href"@, "#"@) + "\">"@ + text(s.last())
                + "</a></li>"@
        }
    }
}

pub open spec fn tooltip_html(j: JsonModel) -> Seq<char> {
    "<span class=\""@ + attr_or(j, "class"@, ""@) + "\" data-bs-toggle=\"tooltip\" data-bs-placement=\""@
        + attr_or(j, "placement"@, "top"@) + "\" title=\""@ + attr_or(j, "title"@, ""@) + "\">"@ + text(j)
        + "</span>"@
}

pub open spec fn popover_html(j: JsonModel) -> Seq<char> {
    "<span class=\""@ + attr_or(j, "class"@, ""@) + "\" data-bs-toggle=\"popover\" data-bs-placement=\""@
        + attr_or(j, "placement"@, "right"@) + "\" title=\""@ + attr_or(j, "title"@, ""@)
        + "\" data-bs-content=\""@ + attr_or(j, "content"@, ""@) + "\">"@ + text(j) + "</span>"@
}

pub open spec fn toast_html(j: JsonModel, ch: Seq<char>) -> Seq<char> {
    "<div class=\"toast "@ + attr_or(j, "class"@, ""@)
        + "\" role=\"alert\">\n            <div class=\"toast-header\">\n              <strong class=\"me-auto\">"@
        + attr_or(j, "title"@, "Notification"@) + "</strong>\n              <small>"@ + attr_or(
        j,
        "time"@,
        "Just now"@,
    )
        + "</small>\n              <button type=\"button\" class=\"btn-close\" data-bs-dismiss=\"toast\"></button>\n            </div>\n            <div class=\"toast-body\">"@
        + ch + "</div></div>"@
}

pub open spec fn offcanvas_html(j: JsonModel, ch: Seq<char>) -> Seq<char> {
    "<div class=\"offcanvas offcanvas-"@ + attr_or(j, "placement"@, "start"@) + " "@ + attr_or(j, "class"@, ""@)
        + "\" tabindex=\"-1\" id=\""@ + attr_or(j, "id"@, "offcanvas"@)
        + "\">\n            <div class=\"offcanvas-header\">\n              <h5 class=\"offcanvas-title\">"@
        + attr_or(j, "title"@, "Title"@)
        + "</h5>\n              <button type=\"button\" class=\"btn-close\" data-bs-dismiss=\"offcanvas\"></button>\n            </div>\n            <div class=\"offcanvas-body\">"@
        + ch + "</div></div>"@
}

pub open spec fn form_html(j: JsonModel, ch: Seq<char>) -> Seq<char> {
    "<form action=\""@ + attr_or(j, "action"@, ""@) + "\" method=\""@ + attr_or(j, "method"@, "post"@)
        + "\" class=\""@ + attr_or(j, "class"@, ""@) + "\">"@ + ch + "</form>"@
}

pub open spec fn nav_items(s: Seq<JsonModel>) -> Seq<char>
    decreases s.len(),
{
    if s.len() == 0 {
        Seq::empty()
    } else {
        nav_items(s.drop_last()) + "<li class=\"nav-item"@ + (if attr_or(s.last(), "active"@, ""@) == "true"@ {
            " active"@
        } else {
            Seq::empty()
        }) + "\"><a class=\"nav-link\" href=\""@ + attr_or(s.last(), "href"@, "#"@) + "\">"@ + text(s.last())
            + "</a></li>"@
    }
}

pub open spec fn grid_classes(j: JsonModel) -> Seq<char> {
    let gap = attr_or(j, "gap"@, "3"@);
    "row row-cols-"@ + attr_or(j, "cols"@, "3"@) + (if gap.len() > 0 {
        " g-"@ + gap
    } else {
        Seq::empty()
    }) + opt_class(attr_or(j, "class"@, ""@))
}

pub open spec fn code_html(j: JsonModel) -> Seq<char> {
    if yes(attr_or(j, "inline"@, ""@)) {
        "<code>"@ + text(j) + "</code>"@
    } else {
        let language = attr_or(j, "language"@, ""@);
        "<pre><code"@ + (if language.len() > 0 {
            " class=\"language-"@ + language + "\""@
        } else {
            Seq::empty()
        }) + ">"@ + text(j) + "</code></pre>"@
    }
}

pub open spec fn generic_html(j: JsonModel, ch: Seq<char>) -> Seq<char> {
    let k = kind(j);
    "<"@ + k + opt_attr("class"@, attr_or(j, "class"@, ""@)) + opt_attr("id"@, attr_or(j, "id"@, ""@))
        + opt_attr("style"@, attr_or(j, "style"@, ""@)) + opt_attr("onclick"@, attr_or(j, "onclick"@, ""@))
        + data_attrs(j) + ">"@ + text(j) + ch + "</"@ + k + ">"@
}

/// The page a `page` component renders to, around its body.
pub open spec fn page_html(j: JsonModel, body: Seq<char>) -> Seq<char> {
    "<!DOCTYPE html>\n<html lang=\""@ + attr_or(j, "lang"@, "zh-CN"@) + PAGE_HEAD_MIDDLE@ + attr_or(
        j,
        "title"@,
        "Nefu App"@,
    ) + PAGE_AFTER_TITLE@ + "<div id=\"app\" class=\""@ + attr_or(j, "class"@, ""@) + "\">\n        "@ + body
        + PAGE_TAIL@
}

/// The page text between the language and the title.
pub const PAGE_HEAD_MIDDLE: &'static str = "\">
<head>
    <meta charset=\"UTF-8\">
    <meta name=\"viewport\" content=\"width=device-width, initial-scale=1.0\">
    <title>";

/// The page text between the title and the application element.
pub const PAGE_AFTER_TITLE: &'static str = "</title>
    <link rel=\"stylesheet\" href=\"https://cdn.jsdelivr.net/npm/bootstrap@5.3.0/dist/css/bootstrap.min.css\">
    <link rel=\"stylesheet\" href=\"https://cdnjs.cloudflare.com/ajax/libs/font-awesome/6.5.0/css/all.min.css\">
    <link href=\"https://fonts.googleapis.com/css2?family=Inter:wght@300;400;500;600;700&display=swap\" rel=\"stylesheet\">
    <style>
        * { margin: 0; padding: 0; box-sizing: border-box; }
        body { font-family: 'Inter', -apple-system, sans-serif; }
        #app { min-height: 100vh; }
    </style>
</head>
<body>
    ";

/// The page text after the body.
pub const PAGE_TAIL: &'static str = "
    </div>
    <script src=\"https://cdn.jsdelivr.net/npm/bootstrap@5.3.0/dist/js/bootstrap.bundle.min.js\"></script>
</body>
</html>";

/// The page around a rendered root component, titled by the root's own
/// `title` field (`Nefu App` without one).
pub open spec fn assembled_page(body: Seq<char>, root: JsonModel) -> Seq<char> {
    "<!DOCTYPE html>\n<html lang=\"zh-CN"@ + PAGE_HEAD_MIDDLE@ + (match as_str(get(root, "title"@)) {
        Some(t) => t,
        None => "Nefu App"@,
    }) + PAGE_AFTER_TITLE@ + "<div id=\"app\">\n        "@ + body + PAGE_TAIL@
}

/// A table around its rendered parts.
pub open spec fn table_html(j: JsonModel, parts: Seq<char>) -> Seq<char> {
    "<table class=\""@ + table_classes(j) + "\">"@ + parts + "</table>"@
}

/// Tabs: the buttons, then the panes.
pub open spec fn tabs_html(j: JsonModel, panes: Seq<char>) -> Seq<char> {
    let id = attr_or(j, "id"@, "tabs"@);
    "<ul class=\"nav nav-tabs\" id=\""@ + id + "\" role=\"tablist\">"@ + tab_buttons(kids(j), id)
        + "</ul><div class=\"tab-content\">"@ + panes + "</div>"@
}

/// A carousel: indicators, the slides, and the controls.
pub open spec fn carousel_html(j: JsonModel, slides: Seq<char>) -> Seq<char> {
    let id = attr_or(j, "id"@, "carousel"@);
    "<div id=\""@ + id + "\" class=\"carousel slide\" data-bs-ride=\"carousel\"><div class=\"carousel-indicators\">"@
        + carousel_indicators(kids(j).len(), id) + "</div><div class=\"carousel-inner\">"@ + slides + "</div>"@
        + carousel_controls(id) + "</div>"@
}

/// A grid around its columns.
pub open spec fn grid_html(j: JsonModel, cols: Seq<char>) -> Seq<char> {
    "<div class=\""@ + grid_classes(j) + "\">"@ + cols + "</div>"@
}

/// The HTML of a component: by its kind, with its children rendered in
/// turn; an unknown kind becomes an element of that name.
pub open spec fn render(j: JsonModel, pc: Seq<(Seq<char>, Seq<char>, u32)>) -> Seq<char>
    decreases j,
{
    proof {
        lemma_kids_smaller(j);
        lemma_body_smaller(j);
    }
    let k = kind(j);
    let ch = if kids(j).len() > 0 {
        render_list(kids(j), pc)
    } else {
        Seq::empty()
    };
    if k == "raw"@ || k == "html"@ {
        attr_or(j, "content"@, ""@)
    } else if k == "page"@ {
        let body = if ch.len() == 0 {
            match attr(j, "body"@) {
                Some(b) => {
                    proof {
                        lemma_kids_smaller(b);
                    }
                    if kids(b).len() > 0 {
                        render_list(kids(b), pc)
                    } else {
                        Seq::empty()
                    }
                },
                None => Seq::empty(),
            }
        } else {
            ch
        };
        page_html(j, body)
    } else if k == "body"@ || k == "radio-group"@ {
        (if k == "radio-group"@ {
            form_label(attr_or(j, "label"@, ""@))
        } else {
            Seq::empty()
        }) + ch
    } else if k == "text"@ || k == "paragraph"@ {
        text_html(j, ch)
    } else if k == "heading"@ {
        heading_html(j)
    } else if k == "image"@ || k == "img"@ {
        image_html(j)
    } else if k == "icon"@ {
        icon_html(j)
    } else if k == "button"@ {
        button_html(j, ch)
    } else if k == "input"@ {
        input_html(j)
    } else if k == "textarea"@ {
        textarea_html(j)
    } else if k == "select"@ {
        select_html(j)
    } else if k == "checkbox"@ {
        check_html(j, "checkbox"@, Seq::empty())
    } else if k == "radio"@ {
        check_html(j, "radio"@, radio_extra(j))
    } else if k == "table"@ {
        table_html(
            j,
            if kids(j).len() > 0 {
                table_parts(kids(j), pc)
            } else {
                Seq::empty()
            },
        )
    } else if k == "card"@ {
        "<div class=\"card"@ + opt_class(attr_or(j, "class"@, ""@)) + "\">"@ + ch + "</div>"@
    } else if k == "alert"@ {
        alert_html(j)
    } else if k == "modal"@ {
        modal_html(j, ch)
    } else if k == "navbar"@ {
        navbar_html(j, ch)
    } else if k == "container"@ || k == "row"@ || k == "col"@ {
        wrap_html("div"@, attr_or(j, "class"@, k), ch)
    } else if k == "badge"@ {
        badge_html(j)
    } else if k == "progress"@ {
        progress_html(j, pc)
    } else if k == "spinner"@ {
        spinner_html(j)
    } else if k == "tabs"@ {
        tabs_html(
            j,
            if kids(j).len() > 0 {
                tab_panes(kids(j), attr_or(j, "id"@, "tabs"@), pc)
            } else {
                Seq::empty()
            },
        )
    } else if k == "accordion"@ {
        let id = attr_or(j, "id"@, "accordion"@);
        "<div class=\"accordion\" id=\""@ + id + "\">"@ + accordion_items(kids(j), id) + "</div>"@
    } else if k == "carousel"@ {
        carousel_html(
            j,
            if kids(j).len() > 0 {
                carousel_items(kids(j), pc)
            } else {
                Seq::empty()
            },
        )
    } else if k == "dropdown"@ {
        dropdown_html(j)
    } else if k == "list"@ || k == "list-group"@ {
        list_group_html(j)
    } else if k == "pagination"@ {
        pagination_html(j)
    } else if k == "breadcrumb"@ {
        "<nav><ol class=\"breadcrumb\">"@ + crumbs(kids(j)) + "</ol></nav>"@
    } else if k == "tooltip"@ {
        tooltip_html(j)
    } else if k == "popover"@ {
        popover_html(j)
    } else if k == "toast"@ {
        toast_html(j, ch)
    } else if k == "offcanvas"@ {
        offcanvas_html(j, ch)
    } else if k == "form"@ {
        form_html(j, ch)
    } else if k == "nav"@ {
        "<ul class=\""@ + attr_or(j, "class"@, "nav"@) + "\">"@ + nav_items(kids(j)) + "</ul>"@
    } else if k == "footer"@ || k == "header"@ {
        wrap_html(k, attr_or(j, "class"@, k), ch)
    } else if k == "sidebar"@ {
        wrap_html("aside"@, attr_or(j, "class"@, "sidebar"@), ch)
    } else if k == "grid"@ {
        grid_html(
            j,
            if kids(j).len() > 0 {
                grid_cols(kids(j), pc)
            } else {
                Seq::empty()
            },
        )
    } else if k == "divider"@ || k == "separator"@ {
        "<hr class=\""@ + attr_or(j, "class"@, ""@) + "\">"@
    } else if k == "spacer"@ {
        "<div style=\"height: "@ + attr_or(j, "size"@, "3"@) + "rem\"></div>"@
    } else if k == "code"@ {
        code_html(j)
    } else {
        generic_html(j, ch)
    }
}

proof fn lemma_kind_literals()
    ensures
        "accordion"@.len() == 9 && "accordion"@[0] == 'a' && "accordion"@[1] == 'c' && "accordion"@[2] == 'c' && "accordion"@[3] == 'o' && "accordion"@[4] == 'r' && "accordion"@[5] == 'd' && "accordion"@[6] == 'i' && "accordion"@[7] == 'o' && "accordion"@[8] == 'n',
        "alert"@.len() == 5 && "alert"@[0] == 'a' && "alert"@[1] == 'l' && "alert"@[2] == 'e' && "alert"@[3] == 'r' && "alert"@[4] == 't',
        "badge"@.len() == 5 && "badge"@[0] == 'b' && "badge"@[1] == 'a' && "badge"@[2] == 'd' && "badge"@[3] == 'g' && "badge"@[4] == 'e',
        "body"@.len() == 4 && "body"@[0] == 'b' && "body"@[1] == 'o' && "body"@[2] == 'd' && "body"@[3] == 'y',
        "breadcrumb"@.len() == 10 && "breadcrumb"@[0] == 'b' && "breadcrumb"@[1] == 'r' && "breadcrumb"@[2] == 'e' && "breadcrumb"@[3] == 'a' && "breadcrumb"@[4] == 'd' && "breadcrumb"@[5] == 'c' && "breadcrumb"@[6] == 'r' && "breadcrumb"@[7] == 'u' && "breadcrumb"@[8] == 'm' && "breadcrumb"@[9] == 'b',
        "button"@.len() == 6 && "button"@[0] == 'b' && "button"@[1] == 'u' && "button"@[2] == 't' && "button"@[3] == 't' && "button"@[4] == 'o' && "button"@[5] == 'n',
        "card"@.len() == 4 && "card"@[0] == 'c' && "card"@[1] == 'a' && "card"@[2] == 'r' && "card"@[3] == 'd',
        "carousel"@.len() == 8 && "carousel"@[0] == 'c' && "carousel"@[1] == 'a' && "carousel"@[2] == 'r' && "carousel"@[3] == 'o' && "carousel"@[4] == 'u' && "carousel"@[5] == 's' && "carousel"@[6] == 'e' && "carousel"@[7] == 'l',
        "checkbox"@.len() == 8 && "checkbox"@[0] == 'c' && "checkbox"@[1] == 'h' && "checkbox"@[2] == 'e' && "checkbox"@[3] == 'c' && "checkbox"@[4] == 'k' && "checkbox"@[5] == 'b' && "checkbox"@[6] == 'o' && "checkbox"@[7] == 'x',
        "code"@.len() == 4 && "code"@[0] == 'c' && "code"@[1] == 'o' && "code"@[2] == 'd' && "code"@[3] == 'e',
        "col"@.len() == 3 && "col"@[0] == 'c' && "col"@[1] == 'o' && "col"@[2] == 'l',
        "container"@.len() == 9 && "container"@[0] == 'c' && "container"@[1] == 'o' && "container"@[2] == 'n' && "container"@[3] == 't' && "container"@[4] == 'a' && "container"@[5] == 'i' && "container"@[6] == 'n' && "container"@[7] == 'e' && "container"@[8] == 'r',
        "divider"@.len() == 7 && "divider"@[0] == 'd' && "divider"@[1] == 'i' && "divider"@[2] == 'v' && "divider"@[3] == 'i' && "divider"@[4] == 'd' && "divider"@[5] == 'e' && "divider"@[6] == 'r',
        "dropdown"@.len() == 8 && "dropdown"@[0] == 'd' && "dropdown"@[1] == 'r' && "dropdown"@[2] == 'o' && "dropdown"@[3] == 'p' && "dropdown"@[4] == 'd' && "dropdown"@[5] == 'o' && "dropdown"@[6] == 'w' && "dropdown"@[7] == 'n',
        "footer"@.len() == 6 && "footer"@[0] == 'f' && "footer"@[1] == 'o' && "footer"@[2] == 'o' && "footer"@[3] == 't' && "footer"@[4] == 'e' && "footer"@[5] == 'r',
        "form"@.len() == 4 && "form"@[0] == 'f' && "form"@[1] == 'o' && "form"@[2] == 'r' && "form"@[3] == 'm',
        "grid"@.len() == 4 && "grid"@[0] == 'g' && "grid"@[1] == 'r' && "grid"@[2] == 'i' && "grid"@[3] == 'd',
        "header"@.len() == 6 && "header"@[0] == 'h' && "header"@[1] == 'e' && "header"@[2] == 'a' && "header"@[3] == 'd' && "header"@[4] == 'e' && "header"@[5] == 'r',
        "heading"@.len() == 7 && "heading"@[0] == 'h' && "heading"@[1] == 'e' && "heading"@[2] == 'a' && "heading"@[3] == 'd' && "heading"@[4] == 'i' && "heading"@[5] == 'n' && "heading"@[6] == 'g',
        "html"@.len() == 4 && "html"@[0] == 'h' && "html"@[1] == 't' && "html"@[2] == 'm' && "html"@[3] == 'l',
        "icon"@.len() == 4 && "icon"@[0] == 'i' && "icon"@[1] == 'c' && "icon"@[2] == 'o' && "icon"@[3] == 'n',
        "image"@.len() == 5 && "image"@[0] == 'i' && "image"@[1] == 'm' && "image"@[2] == 'a' && "image"@[3] == 'g' && "image"@[4] == 'e',
        "img"@.len() == 3 && "img"@[0] == 'i' && "img"@[1] == 'm' && "img"@[2] == 'g',
        "input"@.len() == 5 && "input"@[0] == 'i' && "input"@[1] == 'n' && "input"@[2] == 'p' && "input"@[3] == 'u' && "input"@[4] == 't',
        "list"@.len() == 4 && "list"@[0] == 'l' && "list"@[1] == 'i' && "list"@[2] == 's' && "list"@[3] == 't',
        "list-group"@.len() == 10 && "list-group"@[0] == 'l' && "list-group"@[1] == 'i' && "list-group"@[2] == 's' && "list-group"@[3] == 't' && "list-group"@[4] == '-' && "list-group"@[5] == 'g' && "list-group"@[6] == 'r' && "list-group"@[7] == 'o' && "list-group"@[8] == 'u' && "list-group"@[9] == 'p',
        "modal"@.len() == 5 && "modal"@[0] == 'm' && "modal"@[1] == 'o' && "modal"@[2] == 'd' && "modal"@[3] == 'a' && "modal"@[4] == 'l',
        "nav"@.len() == 3 && "nav"@[0] == 'n' && "nav"@[1] == 'a' && "nav"@[2] == 'v',
        "navbar"@.len() == 6 && "navbar"@[0] == 'n' && "navbar"@[1] == 'a' && "navbar"@[2] == 'v' && "navbar"@[3] == 'b' && "navbar"@[4] == 'a' && "navbar"@[5] == 'r',
        "offcanvas"@.len() == 9 && "offcanvas"@[0] == 'o' && "offcanvas"@[1] == 'f' && "offcanvas"@[2] == 'f' && "offcanvas"@[3] == 'c' && "offcanvas"@[4] == 'a' && "offcanvas"@[5] == 'n' && "offcanvas"@[6] == 'v' && "offcanvas"@[7] == 'a' && "offcanvas"@[8] == 's',
        "page"@.len() == 4 && "page"@[0] == 'p' && "page"@[1] == 'a' && "page"@[2] == 'g' && "page"@[3] == 'e',
        "pagination"@.len() == 10 && "pagination"@[0] == 'p' && "pagination"@[1] == 'a' && "pagination"@[2] == 'g' && "pagination"@[3] == 'i' && "pagination"@[4] == 'n' && "pagination"@[5] == 'a' && "pagination"@[6] == 't' && "pagination"@[7] == 'i' && "pagination"@[8] == 'o' && "pagination"@[9] == 'n',
        "paragraph"@.len() == 9 && "paragraph"@[0] == 'p' && "paragraph"@[1] == 'a' && "paragraph"@[2] == 'r' && "paragraph"@[3] == 'a' && "paragraph"@[4] == 'g' && "paragraph"@[5] == 'r' && "paragraph"@[6] == 'a' && "paragraph"@[7] == 'p' && "paragraph"@[8] == 'h',
        "popover"@.len() == 7 && "popover"@[0] == 'p' && "popover"@[1] == 'o' && "popover"@[2] == 'p' && "popover"@[3] == 'o' && "popover"@[4] == 'v' && "popover"@[5] == 'e' && "popover"@[6] == 'r',
        "progress"@.len() == 8 && "progress"@[0] == 'p' && "progress"@[1] == 'r' && "progress"@[2] == 'o' && "progress"@[3] == 'g' && "progress"@[4] == 'r' && "progress"@[5] == 'e' && "progress"@[6] == 's' && "progress"@[7] == 's',
        "radio"@.len() == 5 && "radio"@[0] == 'r' && "radio"@[1] == 'a' && "radio"@[2] == 'd' && "radio"@[3] == 'i' && "radio"@[4] == 'o',
        "radio-group"@.len() == 11 && "radio-group"@[0] == 'r' && "radio-group"@[1] == 'a' && "radio-group"@[2] == 'd' && "radio-group"@[3] == 'i' && "radio-group"@[4] == 'o' && "radio-group"@[5] == '-' && "radio-group"@[6] == 'g' && "radio-group"@[7] == 'r' && "radio-group"@[8] == 'o' && "radio-group"@[9] == 'u' && "radio-group"@[10] == 'p',
        "raw"@.len() == 3 && "raw"@[0] == 'r' && "raw"@[1] == 'a' && "raw"@[2] == 'w',
        "row"@.len() == 3 && "row"@[0] == 'r' && "row"@[1] == 'o' && "row"@[2] == 'w',
        "select"@.len() == 6 && "select"@[0] == 's' && "select"@[1] == 'e' && "select"@[2] == 'l' && "select"@[3] == 'e' && "select"@[4] == 'c' && "select"@[5] == 't',
        "separator"@.len() == 9 && "separator"@[0] == 's' && "separator"@[1] == 'e' && "separator"@[2] == 'p' && "separator"@[3] == 'a' && "separator"@[4] == 'r' && "separator"@[5] == 'a' && "separator"@[6] == 't' && "separator"@[7] == 'o' && "separator"@[8] == 'r',
        "sidebar"@.len() == 7 && "sidebar"@[0] == 's' && "sidebar"@[1] == 'i' && "sidebar"@[2] == 'd' && "sidebar"@[3] == 'e' && "sidebar"@[4] == 'b' && "sidebar"@[5] == 'a' && "sidebar"@[6] == 'r',
        "spacer"@.len() == 6 && "spacer"@[0] == 's' && "spacer"@[1] == 'p' && "spacer"@[2] == 'a' && "spacer"@[3] == 'c' && "spacer"@[4] == 'e' && "spacer"@[5] == 'r',
        "spinner"@.len() == 7 && "spinner"@[0] == 's' && "spinner"@[1] == 'p' && "spinner"@[2] == 'i' && "spinner"@[3] == 'n' && "spinner"@[4] == 'n' && "spinner"@[5] == 'e' && "spinner"@[6] == 'r',
        "table"@.len() == 5 && "table"@[0] == 't' && "table"@[1] == 'a' && "table"@[2] == 'b' && "table"@[3] == 'l' && "table"@[4] == 'e',
        "tabs"@.len() == 4 && "tabs"@[0] == 't' && "tabs"@[1] == 'a' && "tabs"@[2] == 'b' && "tabs"@[3] == 's',
        "text"@.len() == 4 && "text"@[0] == 't' && "text"@[1] == 'e' && "text"@[2] == 'x' && "text"@[3] == 't',
        "textarea"@.len() == 8 && "textarea"@[0] == 't' && "textarea"@[1] == 'e' && "textarea"@[2] == 'x' && "textarea"@[3] == 't' && "textarea"@[4] == 'a' && "textarea"@[5] == 'r' && "textarea"@[6] == 'e' && "textarea"@[7] == 'a',
        "toast"@.len() == 5 && "toast"@[0] == 't' && "toast"@[1] == 'o' && "toast"@[2] == 'a' && "toast"@[3] == 's' && "toast"@[4] == 't',
        "tooltip"@.len() == 7 && "tooltip"@[0] == 't' && "tooltip"@[1] == 'o' && "tooltip"@[2] == 'o' && "tooltip"@[3] == 'l' && "tooltip"@[4] == 't' && "tooltip"@[5] == 'i' && "tooltip"@[6] == 'p',
{
    reveal_strlit("accordion");
    assert("accordion"@.len() == 9 && "accordion"@[0] == 'a' && "accordion"@[1] == 'c' && "accordion"@[2] == 'c' && "accordion"@[3] == 'o' && "accordion"@[4] == 'r' && "accordion"@[5] == 'd' && "accordion"@[6] == 'i' && "accordion"@[7] == 'o' && "accordion"@[8] == 'n');
    reveal_strlit("alert");
    assert("alert"@.len() == 5 && "alert"@[0] == 'a' && "alert"@[1] == 'l' && "alert"@[2] == 'e' && "alert"@[3] == 'r' && "alert"@[4] == 't');
    reveal_strlit("badge");
    assert("badge"@.len() == 5 && "badge"@[0] == 'b' && "badge"@[1] == 'a' && "badge"@[2] == 'd' && "badge"@[3] == 'g' && "badge"@[4] == 'e');
    reveal_strlit("body");
    assert("body"@.len() == 4 && "body"@[0] == 'b' && "body"@[1] == 'o' && "body"@[2] == 'd' && "body"@[3] == 'y');
    reveal_strlit("breadcrumb");
    assert("breadcrumb"@.len() == 10 && "breadcrumb"@[0] == 'b' && "breadcrumb"@[1] == 'r' && "breadcrumb"@[2] == 'e' && "breadcrumb"@[3] == 'a' && "breadcrumb"@[4] == 'd' && "breadcrumb"@[5] == 'c' && "breadcrumb"@[6] == 'r' && "breadcrumb"@[7] == 'u' && "breadcrumb"@[8] == 'm' && "breadcrumb"@[9] == 'b');
    reveal_strlit("button");
    assert("button"@.len() == 6 && "button"@[0] == 'b' && "button"@[1] == 'u' && "button"@[2] == 't' && "button"@[3] == 't' && "button"@[4] == 'o' && "button"@[5] == 'n');
    reveal_strlit("card");
    assert("card"@.len() == 4 && "card"@[0] == 'c' && "card"@[1] == 'a' && "card"@[2] == 'r' && "card"@[3] == 'd');
    reveal_strlit("carousel");
    assert("carousel"@.len() == 8 && "carousel"@[0] == 'c' && "carousel"@[1] == 'a' && "carousel"@[2] == 'r' && "carousel"@[3] == 'o' && "carousel"@[4] == 'u' && "carousel"@[5] == 's' && "carousel"@[6] == 'e' && "carousel"@[7] == 'l');
    reveal_strlit("checkbox");
    assert("checkbox"@.len() == 8 && "checkbox"@[0] == 'c' && "checkbox"@[1] == 'h' && "checkbox"@[2] == 'e' && "checkbox"@[3] == 'c' && "checkbox"@[4] == 'k' && "checkbox"@[5] == 'b' && "checkbox"@[6] == 'o' && "checkbox"@[7] == 'x');
    reveal_strlit("code");
    assert("code"@.len() == 4 && "code"@[0] == 'c' && "code"@[1] == 'o' && "code"@[2] == 'd' && "code"@[3] == 'e');
    reveal_strlit("col");
    assert("col"@.len() == 3 && "col"@[0] == 'c' && "col"@[1] == 'o' && "col"@[2] == 'l');
    reveal_strlit("container");
    assert("container"@.len() == 9 && "container"@[0] == 'c' && "container"@[1] == 'o' && "container"@[2] == 'n' && "container"@[3] == 't' && "container"@[4] == 'a' && "container"@[5] == 'i' && "container"@[6] == 'n' && "container"@[7] == 'e' && "container"@[8] == 'r');
    reveal_strlit("divider");
    assert("divider"@.len() == 7 && "divider"@[0] == 'd' && "divider"@[1] == 'i' && "divider"@[2] == 'v' && "divider"@[3] == 'i' && "divider"@[4] == 'd' && "divider"@[5] == 'e' && "divider"@[6] == 'r');
    reveal_strlit("dropdown");
    assert("dropdown"@.len() == 8 && "dropdown"@[0] == 'd' && "dropdown"@[1] == 'r' && "dropdown"@[2] == 'o' && "dropdown"@[3] == 'p' && "dropdown"@[4] == 'd' && "dropdown"@[5] == 'o' && "dropdown"@[6] == 'w' && "dropdown"@[7] == 'n');
    reveal_strlit("footer");
    assert("footer"@.len() == 6 && "footer"@[0] == 'f' && "footer"@[1] == 'o' && "footer"@[2] == 'o' && "footer"@[3] == 't' && "footer"@[4] == 'e' && "footer"@[5] == 'r');
    reveal_strlit("form");
    assert("form"@.len() == 4 && "form"@[0] == 'f' && "form"@[1] == 'o' && "form"@[2] == 'r' && "form"@[3] == 'm');
    reveal_strlit("grid");
    assert("grid"@.len() == 4 && "grid"@[0] == 'g' && "grid"@[1] == 'r' && "grid"@[2] == 'i' && "grid"@[3] == 'd');
    reveal_strlit("header");
    assert("header"@.len() == 6 && "header"@[0] == 'h' && "header"@[1] == 'e' && "header"@[2] == 'a' && "header"@[3] == 'd' && "header"@[4] == 'e' && "header"@[5] == 'r');
    reveal_strlit("heading");
    assert("heading"@.len() == 7 && "heading"@[0] == 'h' && "heading"@[1] == 'e' && "heading"@[2] == 'a' && "heading"@[3] == 'd' && "heading"@[4] == 'i' && "heading"@[5] == 'n' && "heading"@[6] == 'g');
    reveal_strlit("html");
    assert("html"@.len() == 4 && "html"@[0] == 'h' && "html"@[1] == 't' && "html"@[2] == 'm' && "html"@[3] == 'l');
    reveal_strlit("icon");
    assert("icon"@.len() == 4 && "icon"@[0] == 'i' && "icon"@[1] == 'c' && "icon"@[2] == 'o' && "icon"@[3] == 'n');
    reveal_strlit("image");
    assert("image"@.len() == 5 && "image"@[0] == 'i' && "image"@[1] == 'm' && "image"@[2] == 'a' && "image"@[3] == 'g' && "image"@[4] == 'e');
    reveal_strlit("img");
    assert("img"@.len() == 3 && "img"@[0] == 'i' && "img"@[1] == 'm' && "img"@[2] == 'g');
    reveal_strlit("input");
    assert("input"@.len() == 5 && "input"@[0] == 'i' && "input"@[1] == 'n' && "input"@[2] == 'p' && "input"@[3] == 'u' && "input"@[4] == 't');
    reveal_strlit("list");
    assert("list"@.len() == 4 && "list"@[0] == 'l' && "list"@[1] == 'i' && "list"@[2] == 's' && "list"@[3] == 't');
    reveal_strlit("list-group");
    assert("list-group"@.len() == 10 && "list-group"@[0] == 'l' && "list-group"@[1] == 'i' && "list-group"@[2] == 's' && "list-group"@[3] == 't' && "list-group"@[4] == '-' && "list-group"@[5] == 'g' && "list-group"@[6] == 'r' && "list-group"@[7] == 'o' && "list-group"@[8] == 'u' && "list-group"@[9] == 'p');
    reveal_strlit("modal");
    assert("modal"@.len() == 5 && "modal"@[0] == 'm' && "modal"@[1] == 'o' && "modal"@[2] == 'd' && "modal"@[3] == 'a' && "modal"@[4] == 'l');
    reveal_strlit("nav");
    assert("nav"@.len() == 3 && "nav"@[0] == 'n' && "nav"@[1] == 'a' && "nav"@[2] == 'v');
    reveal_strlit("navbar");
    assert("navbar"@.len() == 6 && "navbar"@[0] == 'n' && "navbar"@[1] == 'a' && "navbar"@[2] == 'v' && "navbar"@[3] == 'b' && "navbar"@[4] == 'a' && "navbar"@[5] == 'r');
    reveal_strlit("offcanvas");
    assert("offcanvas"@.len() == 9 && "offcanvas"@[0] == 'o' && "offcanvas"@[1] == 'f' && "offcanvas"@[2] == 'f' && "offcanvas"@[3] == 'c' && "offcanvas"@[4] == 'a' && "offcanvas"@[5] == 'n' && "offcanvas"@[6] == 'v' && "offcanvas"@[7] == 'a' && "offcanvas"@[8] == 's');
    reveal_strlit("page");
    assert("page"@.len() == 4 && "page"@[0] == 'p' && "page"@[1] == 'a' && "page"@[2] == 'g' && "page"@[3] == 'e');
    reveal_strlit("pagination");
    assert("pagination"@.len() == 10 && "pagination"@[0] == 'p' && "pagination"@[1] == 'a' && "pagination"@[2] == 'g' && "pagination"@[3] == 'i' && "pagination"@[4] == 'n' && "pagination"@[5] == 'a' && "pagination"@[6] == 't' && "pagination"@[7] == 'i' && "pagination"@[8] == 'o' && "pagination"@[9] == 'n');
    reveal_strlit("paragraph");
    assert("paragraph"@.len() == 9 && "paragraph"@[0] == 'p' && "paragraph"@[1] == 'a' && "paragraph"@[2] == 'r' && "paragraph"@[3] == 'a' && "paragraph"@[4] == 'g' && "paragraph"@[5] == 'r' && "paragraph"@[6] == 'a' && "paragraph"@[7] == 'p' && "paragraph"@[8] == 'h');
    reveal_strlit("popover");
    assert("popover"@.len() == 7 && "popover"@[0] == 'p' && "popover"@[1] == 'o' && "popover"@[2] == 'p' && "popover"@[3] == 'o' && "popover"@[4] == 'v' && "popover"@[5] == 'e' && "popover"@[6] == 'r');
    reveal_strlit("progress");
    assert("progress"@.len() == 8 && "progress"@[0] == 'p' && "progress"@[1] == 'r' && "progress"@[2] == 'o' && "progress"@[3] == 'g' && "progress"@[4] == 'r' && "progress"@[5] == 'e' && "progress"@[6] == 's' && "progress"@[7] == 's');
    reveal_strlit("radio");
    assert("radio"@.len() == 5 && "radio"@[0] == 'r' && "radio"@[1] == 'a' && "radio"@[2] == 'd' && "radio"@[3] == 'i' && "radio"@[4] == 'o');
    reveal_strlit("radio-group");
    assert("radio-group"@.len() == 11 && "radio-group"@[0] == 'r' && "radio-group"@[1] == 'a' && "radio-group"@[2] == 'd' && "radio-group"@[3] == 'i' && "radio-group"@[4] == 'o' && "radio-group"@[5] == '-' && "radio-group"@[6] == 'g' && "radio-group"@[7] == 'r' && "radio-group"@[8] == 'o' && "radio-group"@[9] == 'u' && "radio-group"@[10] == 'p');
    reveal_strlit("raw");
    assert("raw"@.len() == 3 && "raw"@[0] == 'r' && "raw"@[1] == 'a' && "raw"@[2] == 'w');
    reveal_strlit("row");
    assert("row"@.len() == 3 && "row"@[0] == 'r' && "row"@[1] == 'o' && "row"@[2] == 'w');
    reveal_strlit("select");
    assert("select"@.len() == 6 && "select"@[0] == 's' && "select"@[1] == 'e' && "select"@[2] == 'l' && "select"@[3] == 'e' && "select"@[4] == 'c' && "select"@[5] == 't');
    reveal_strlit("separator");
    assert("separator"@.len() == 9 && "separator"@[0] == 's' && "separator"@[1] == 'e' && "separator"@[2] == 'p' && "separator"@[3] == 'a' && "separator"@[4] == 'r' && "separator"@[5] == 'a' && "separator"@[6] == 't' && "separator"@[7] == 'o' && "separator"@[8] == 'r');
    reveal_strlit("sidebar");
    assert("sidebar"@.len() == 7 && "sidebar"@[0] == 's' && "sidebar"@[1] == 'i' && "sidebar"@[2] == 'd' && "sidebar"@[3] == 'e' && "sidebar"@[4] == 'b' && "sidebar"@[5] == 'a' && "sidebar"@[6] == 'r');
    reveal_strlit("spacer");
    assert("spacer"@.len() == 6 && "spacer"@[0] == 's' && "spacer"@[1] == 'p' && "spacer"@[2] == 'a' && "spacer"@[3] == 'c' && "spacer"@[4] == 'e' && "spacer"@[5] == 'r');
    reveal_strlit("spinner");
    assert("spinner"@.len() == 7 && "spinner"@[0] == 's' && "spinner"@[1] == 'p' && "spinner"@[2] == 'i' && "spinner"@[3] == 'n' && "spinner"@[4] == 'n' && "spinner"@[5] == 'e' && "spinner"@[6] == 'r');
    reveal_strlit("table");
    assert("table"@.len() == 5 && "table"@[0] == 't' && "table"@[1] == 'a' && "table"@[2] == 'b' && "table"@[3] == 'l' && "table"@[4] == 'e');
    reveal_strlit("tabs");
    assert("tabs"@.len() == 4 && "tabs"@[0] == 't' && "tabs"@[1] == 'a' && "tabs"@[2] == 'b' && "tabs"@[3] == 's');
    reveal_strlit("text");
    assert("text"@.len() == 4 && "text"@[0] == 't' && "text"@[1] == 'e' && "text"@[2] == 'x' && "text"@[3] == 't');
    reveal_strlit("textarea");
    assert("textarea"@.len() == 8 && "textarea"@[0] == 't' && "textarea"@[1] == 'e' && "textarea"@[2] == 'x' && "textarea"@[3] == 't' && "textarea"@[4] == 'a' && "textarea"@[5] == 'r' && "textarea"@[6] == 'e' && "textarea"@[7] == 'a');
    reveal_strlit("toast");
    assert("toast"@.len() == 5 && "toast"@[0] == 't' && "toast"@[1] == 'o' && "toast"@[2] == 'a' && "toast"@[3] == 's' && "toast"@[4] == 't');
    reveal_strlit("tooltip");
    assert("tooltip"@.len() == 7 && "tooltip"@[0] == 't' && "tooltip"@[1] == 'o' && "tooltip"@[2] == 'o' && "tooltip"@[3] == 'l' && "tooltip"@[4] == 't' && "tooltip"@[5] == 'i' && "tooltip"@[6] == 'p');
}

#[verifier::spinoff_prover]
proof fn lemma_render_kind_button(j: JsonModel, pc: Seq<(Seq<char>, Seq<char>, u32)>)
    ensures
        (kind(j) == "button"@) ==> has_prefix(render(j, pc), "<button class=\"btn "@),
{
    if kind(j) == "button"@ {
        lemma_kind_literals();
        let s = render(j, pc);
        let pre = "<button class=\"btn "@;
        assert(s.subrange(0, pre.len() as int) =~= pre);
        assert(has_prefix(s, pre));
    }
}

#[verifier::spinoff_prover]
proof fn lemma_render_kind_alert(j: JsonModel, pc: Seq<(Seq<char>, Seq<char>, u32)>)
    ensures
        (kind(j) == "alert"@) ==> has_prefix(render(j, pc), "<div class=\"alert alert-"@),
{
    if kind(j) == "alert"@ {
        lemma_kind_literals();
        let s = render(j, pc);
        let pre = "<div class=\"alert alert-"@;
        assert(s.subrange(0, pre.len() as int) =~= pre);
        assert(has_prefix(s, pre));
    }
}

#[verifier::spinoff_prover]
proof fn lemma_render_kind_badge(j: JsonModel, pc: Seq<(Seq<char>, Seq<char>, u32)>)
    ensures
        (kind(j) == "badge"@) ==> has_prefix(render(j, pc), "<span class=\"badge bg-"@),
{
    if kind(j) == "badge"@ {
        lemma_kind_literals();
        let s = render(j, pc);
        let pre = "<span class=\"badge bg-"@;
        assert(s.subrange(0, pre.len() as int) =~= pre);
        assert(has_prefix(s, pre));
    }
}

#[verifier::spinoff_prover]
proof fn lemma_render_kind_image(j: JsonModel, pc: Seq<(Seq<char>, Seq<char>, u32)>)
    ensures
        (kind(j) == "image"@ || kind(j) == "img"@) ==> has_prefix(render(j, pc), "<img src=\""@),
{
    if kind(j) == "image"@ || kind(j) == "img"@ {
        lemma_kind_literals();
        let s = render(j, pc);
        let pre = "<img src=\""@;
        assert(s.subrange(0, pre.len() as int) =~= pre);
        assert(has_prefix(s, pre));
    }
}

#[verifier::spinoff_prover]
proof fn lemma_render_kind_icon(j: JsonModel, pc: Seq<(Seq<char>, Seq<char>, u32)>)
    ensures
        (kind(j) == "icon"@) ==> has_prefix(render(j, pc), "<i class=\"fa-"@),
{
    if kind(j) == "icon"@ {
        lemma_kind_literals();
        let s = render(j, pc);
        let pre = "<i class=\"fa-"@;
        assert(s.subrange(0, pre.len() as int) =~= pre);
        assert(has_prefix(s, pre));
    }
}

#[verifier::spinoff_prover]
proof fn lemma_render_kind_spinner(j: JsonModel, pc: Seq<(Seq<char>, Seq<char>, u32)>)
    ensures
        (kind(j) == "spinner"@) ==> has_prefix(render(j, pc), "<div class=\"spinner-"@),
{
    if kind(j) == "spinner"@ {
        lemma_kind_literals();
        let s = render(j, pc);
        let pre = "<div class=\"spinner-"@;
        assert(s.subrange(0, pre.len() as int) =~= pre);
        assert(has_prefix(s, pre));
    }
}

#[verifier::spinoff_prover]
proof fn lemma_render_kind_list(j: JsonModel, pc: Seq<(Seq<char>, Seq<char>, u32)>)
    ensures
        (kind(j) == "list"@ || kind(j) == "list-group"@) ==> has_prefix(render(j, pc), "<ul class=\"list-group"@),
{
    if kind(j) == "list"@ || kind(j) == "list-group"@ {
        lemma_kind_literals();
        let s = render(j, pc);
        let pre = "<ul class=\"list-group"@;
        assert(s.subrange(0, pre.len() as int) =~= pre);
        assert(has_prefix(s, pre));
    }
}

#[verifier::spinoff_prover]
proof fn lemma_render_kind_card(j: JsonModel, pc: Seq<(Seq<char>, Seq<char>, u32)>)
    ensures
        (kind(j) == "card"@) ==> has_prefix(render(j, pc), "<div class=\"card"@),
{
    if kind(j) == "card"@ {
        lemma_kind_literals();
        let s = render(j, pc);
        let pre = "<div class=\"card"@;
        assert(s.subrange(0, pre.len() as int) =~= pre);
        assert(has_prefix(s, pre));
    }
}

#[verifier::spinoff_prover]
proof fn lemma_render_kind_breadcrumb(j: JsonModel, pc: Seq<(Seq<char>, Seq<char>, u32)>)
    ensures
        (kind(j) == "breadcrumb"@) ==> has_prefix(render(j, pc), "<nav><ol class=\"breadcrumb\">"@),
{
    if kind(j) == "breadcrumb"@ {
        lemma_kind_literals();
        let s = render(j, pc);
        let pre = "<nav><ol class=\"breadcrumb\">"@;
        assert(s.subrange(0, pre.len() as int) =~= pre);
        assert(has_prefix(s, pre));
    }
}

#[verifier::spinoff_prover]
proof fn lemma_render_kind_divider(j: JsonModel, pc: Seq<(Seq<char>, Seq<char>, u32)>)
    ensures
        (kind(j) == "divider"@ || kind(j) == "separator"@) ==> has_prefix(render(j, pc), "<hr class=\""@),
{
    if kind(j) == "divider"@ || kind(j) == "separator"@ {
        lemma_kind_literals();
        let s = render(j, pc);
        let pre = "<hr class=\""@;
        assert(s.subrange(0, pre.len() as int) =~= pre);
        assert(has_prefix(s, pre));
    }
}

#[verifier::spinoff_prover]
proof fn lemma_render_kind_spacer(j: JsonModel, pc: Seq<(Seq<char>, Seq<char>, u32)>)
    ensures
        (kind(j) == "spacer"@) ==> has_prefix(render(j, pc), "<div style=\"height: "@),
{
    if kind(j) == "spacer"@ {
        lemma_kind_literals();
        let s = render(j, pc);
        let pre = "<div style=\"height: "@;
        assert(s.subrange(0, pre.len() as int) =~= pre);
        assert(has_prefix(s, pre));
    }
}

#[verifier::spinoff_prover]
proof fn lemma_render_kind_heading(j: JsonModel, pc: Seq<(Seq<char>, Seq<char>, u32)>)
    ensures
        (kind(j) == "heading"@) ==> has_prefix(render(j, pc), "<h"@),
{
    if kind(j) == "heading"@ {
        lemma_kind_literals();
        let s = render(j, pc);
        let pre = "<h"@;
        assert(s.subrange(0, pre.len() as int) =~= pre);
        assert(has_prefix(s, pre));
    }
}

/// Each kind of component renders as its own element: a button as a
/// `<button>` of class `btn`, an alert as a `<div>` of class `alert`, a
/// badge as a `<span>` of class `badge`, an image as an `<img>`, an icon
/// as an `<i>` of a Font Awesome class, a spinner, a list group, a card, a
/// breadcrumb, a divider (`<hr>`), a spacer and a heading (`<h...>`)
/// likewise.
pub proof fn law_render_kinds(j: JsonModel, pc: Seq<(Seq<char>, Seq<char>, u32)>)
    ensures
        (kind(j) == "button"@) ==> has_prefix(render(j, pc), "<button class=\"btn "@),
        (kind(j) == "alert"@) ==> has_prefix(render(j, pc), "<div class=\"alert alert-"@),
        (kind(j) == "badge"@) ==> has_prefix(render(j, pc), "<span class=\"badge bg-"@),
        (kind(j) == "image"@ || kind(j) == "img"@) ==> has_prefix(render(j, pc), "<img src=\""@),
        (kind(j) == "icon"@) ==> has_prefix(render(j, pc), "<i class=\"fa-"@),
        (kind(j) == "spinner"@) ==> has_prefix(render(j, pc), "<div class=\"spinner-"@),
        (kind(j) == "list"@ || kind(j) == "list-group"@) ==> has_prefix(render(j, pc), "<ul class=\"list-group"@),
        (kind(j) == "card"@) ==> has_prefix(render(j, pc), "<div class=\"card"@),
        (kind(j) == "breadcrumb"@) ==> has_prefix(render(j, pc), "<nav><ol class=\"breadcrumb\">"@),
        (kind(j) == "divider"@ || kind(j) == "separator"@) ==> has_prefix(render(j, pc), "<hr class=\""@),
        (kind(j) == "spacer"@) ==> has_prefix(render(j, pc), "<div style=\"height: "@),
        (kind(j) == "heading"@) ==> has_prefix(render(j, pc), "<h"@),
{
    lemma_render_kind_button(j, pc);
    lemma_render_kind_alert(j, pc);
    lemma_render_kind_badge(j, pc);
    lemma_render_kind_image(j, pc);
    lemma_render_kind_icon(j, pc);
    lemma_render_kind_spinner(j, pc);
    lemma_render_kind_list(j, pc);
    lemma_render_kind_card(j, pc);
    lemma_render_kind_breadcrumb(j, pc);
    lemma_render_kind_divider(j, pc);
    lemma_render_kind_spacer(j, pc);
    lemma_render_kind_heading(j, pc);
}

/// The HTML of components, in order.
pub open spec fn render_list(s: Seq<JsonModel>, pc: Seq<(Seq<char>, Seq<char>, u32)>) -> Seq<char>
    decreases s,
{
    if s.len() == 0 {
        Seq::empty()
    } else {
        proof {
            assert(decreases_to!(s => s[s.len() - 1]));
            assert(decreases_to!(s => s.subrange(0, s.len() - 1)));
        }
        render_list(s.drop_last(), pc) + render(s.last(), pc)
    }
}

/// A table's children: `thead`/`header` and `tbody`/`body` sections as
/// rows of cells, anything else rendered as a component.
pub open spec fn table_parts(s: Seq<JsonModel>, pc: Seq<(Seq<char>, Seq<char>, u32)>) -> Seq<char>
    decreases s,
{
    if s.len() == 0 {
        Seq::empty()
    } else {
        proof {
            assert(decreases_to!(s => s[s.len() - 1]));
            assert(decreases_to!(s => s.subrange(0, s.len() - 1)));
        }
        let c = s.last();
        let k = kind(c);
        table_parts(s.drop_last(), pc) + if k == "thead"@ || k == "header"@ {
            "<thead>"@ + rows_html(kids(c), "th"@) + "</thead>"@
        } else if k == "tbody"@ || k == "body"@ {
            "<tbody>"@ + rows_html(kids(c), "td"@) + "</tbody>"@
        } else {
            render(c, pc)
        }
    }
}

/// The tab panes; the first is shown.
pub open spec fn tab_panes(s: Seq<JsonModel>, id: Seq<char>, pc: Seq<(Seq<char>, Seq<char>, u32)>) -> Seq<char>
    decreases s,
{
    if s.len() == 0 {
        Seq::empty()
    } else {
        proof {
            assert(decreases_to!(s => s[s.len() - 1]));
            assert(decreases_to!(s => s.subrange(0, s.len() - 1)));
        }
        let i = (s.len() - 1) as nat;
        tab_panes(s.drop_last(), id, pc) + "<div class=\"tab-pane fade"@ + (if i == 0 {
            " show active"@
        } else {
            Seq::empty()
        }) + "\" id=\""@ + id + "-"@ + decimal_spec(i) + "\" role=\"tabpanel\">"@ + render(s.last(), pc)
            + "</div>"@
    }
}

/// The carousel slides; the first is active.
pub open spec fn carousel_items(s: Seq<JsonModel>, pc: Seq<(Seq<char>, Seq<char>, u32)>) -> Seq<char>
    decreases s,
{
    if s.len() == 0 {
        Seq::empty()
    } else {
        proof {
            assert(decreases_to!(s => s[s.len() - 1]));
            assert(decreases_to!(s => s.subrange(0, s.len() - 1)));
        }
        carousel_items(s.drop_last(), pc) + "<div class=\"carousel-item"@ + (if s.len() == 1 {
            " active"@
        } else {
            Seq::empty()
        }) + "\">"@ + render(s.last(), pc) + "</div>"@
    }
}

/// The grid cells, each child in a column.
pub open spec fn grid_cols(s: Seq<JsonModel>, pc: Seq<(Seq<char>, Seq<char>, u32)>) -> Seq<char>
    decreases s,
{
    if s.len() == 0 {
        Seq::empty()
    } else {
        proof {
            assert(decreases_to!(s => s[s.len() - 1]));
            assert(decreases_to!(s => s.subrange(0, s.len() - 1)));
        }
        grid_cols(s.drop_last(), pc) + "<div class=\"col\">"@ + render(s.last(), pc) + "</div>"@
    }
}

// ==================== Reading components, executably ====================

fn same_text(a: &str, b: &str) -> (r: bool)
    ensures
        r == (a@ == b@),
{
    let x = chars_of(a);
    let y = chars_of(b);
    crate::text::seq_eq(x.as_slice(), y.as_slice())
}

/// The value under `key` where `j` is an object that has one.
pub fn get_exec<'a>(j: &'a NcJson, key: &str) -> (r: Option<&'a NcJson>)
    ensures
        match r {
            Some(x) => get(json_view(*j), key@) == Some(json_view(*x)),
            None => get(json_view(*j), key@) is None,
        },
{
    match j {
        NcJson::Object(es) => {
            let ghost v = entries_view(es@);
            proof {
                lemma_entries_view(es@);
                assert(v.skip(0) =~= v);
            }
            let mut k: usize = 0;
            while k < es.len()
                invariant
                    0 <= k <= es@.len(),
                    v == entries_view(es@),
                    v.len() == es@.len(),
                    forall|i: int| 0 <= i < es@.len() ==> #[trigger] v[i] == (es@[i].0@, json_view(es@[i].1)),
                    entry_of(v, key@) == entry_of(v.skip(k as int), key@),
                    json_view(*j) == JsonModel::Object(v),
                decreases es@.len() - k,
            {
                let ghost rest = v.skip(k as int);
                assert(rest[0] == v[k as int]);
                if same_text(es[k].0.as_str(), key) {
                    return Some(&es[k].1);
                }
                assert(rest.skip(1) =~= v.skip(k + 1));
                k = k + 1;
            }
            None
        },
        _ => None,
    }
}

/// The text of a string value.
pub fn as_str_exec<'a>(j: Option<&'a NcJson>) -> (r: Option<&'a String>)
    ensures
        match r {
            Some(s) => as_str(match j {
                Some(x) => Some(json_view(*x)),
                None => None,
            }) == Some(s@),
            None => as_str(match j {
                Some(x) => Some(json_view(*x)),
                None => None,
            }) is None,
        },
{
    match j {
        Some(NcJson::Str(s)) => Some(s),
        _ => None,
    }
}

/// A text attribute, flat or under `props`.
pub fn sattr_exec<'a>(j: &'a NcJson, name: &str) -> (r: Option<&'a String>)
    ensures
        match r {
            Some(s) => sattr(json_view(*j), name@) == Some(s@),
            None => sattr(json_view(*j), name@) is None,
        },
{
    match as_str_exec(get_exec(j, name)) {
        Some(s) => Some(s),
        None => match get_exec(j, "props") {
            Some(p) => as_str_exec(get_exec(p, name)),
            None => None,
        },
    }
}

/// A text attribute, or `d`.
pub fn attr_or_exec(j: &NcJson, name: &str, d: &str) -> (r: Vec<char>)
    ensures
        r@ == attr_or(json_view(*j), name@, d@),
{
    match sattr_exec(j, name) {
        Some(s) => chars_of(s.as_str()),
        None => chars_of(d),
    }
}

/// Any attribute, flat or under `props`.
pub fn attr_exec<'a>(j: &'a NcJson, name: &str) -> (r: Option<&'a NcJson>)
    ensures
        match r {
            Some(x) => attr(json_view(*j), name@) == Some(json_view(*x)),
            None => attr(json_view(*j), name@) is None,
        },
{
    match get_exec(j, name) {
        Some(v) => Some(v),
        None => match get_exec(j, "props") {
            Some(p) => get_exec(p, name),
            None => None,
        },
    }
}

/// The component kind.
pub fn kind_exec(j: &NcJson) -> (r: Vec<char>)
    ensures
        r@ == kind(json_view(*j)),
{
    match as_str_exec(get_exec(j, "component")) {
        Some(k) => chars_of(k.as_str()),
        None => match as_str_exec(get_exec(j, "type")) {
            Some(k) => chars_of(k.as_str()),
            None => chars_of("div"),
        },
    }
}

/// The children array, where there is one.
pub fn kids_exec<'a>(j: &'a NcJson) -> (r: Option<&'a Vec<NcJson>>)
    ensures
        match r {
            Some(v) => kids(json_view(*j)) == values_view(v@),
            None => kids(json_view(*j)).len() == 0,
        },
{
    match get_exec(j, "children") {
        Some(NcJson::Array(v)) => Some(v),
        _ => None,
    }
}

/// The text of a component.
pub fn text_exec(j: &NcJson) -> (r: Vec<char>)
    ensures
        r@ == text(json_view(*j)),
{
    match sattr_exec(j, "text") {
        Some(t) => chars_of(t.as_str()),
        None => {
            let mut out: Vec<char> = Vec::new();
            match kids_exec(j) {
                Some(v) => {
                    let ghost s = values_view(v@);
                    proof {
                        lemma_values_view(v@);
                    }
                    let mut i: usize = 0;
                    while i < v.len()
                        invariant
                            0 <= i <= v@.len(),
                            s == values_view(v@),
                            s.len() == v@.len(),
                            forall|k: int| 0 <= k < v@.len() ==> #[trigger] s[k] == json_view(v@[k]),
                            out@ == string_elements(s.take(i as int)),
                        decreases v@.len() - i,
                    {
                        assert(s.take(i + 1).drop_last() =~= s.take(i as int));
                        assert(s.take(i + 1).last() == s[i as int]);
                        if let NcJson::Str(t) = &v[i] {
                            push_str(&mut out, t.as_str());
                        }
                        i = i + 1;
                    }
                    assert(s.take(v@.len() as int) =~= s);
                },
                None => {},
            }
            out
        },
    }
}

/// Whether a text is `true` or `yes`.
fn yes_exec(s: &[char]) -> (r: bool)
    ensures
        r == yes(s@),
{
    crate::text::eq_str(s, "true") || crate::text::eq_str(s, "yes")
}

/// Appends ` name="value"` where the value is not empty.
fn push_opt_attr(o: &mut Vec<char>, name: &str, value: &[char])
    ensures
        final(o)@ == old(o)@ + opt_attr(name@, value@),
{
    if value.len() > 0 {
        push_str(o, " ");
        push_str(o, name);
        push_str(o, "=\"");
        push_all(o, value);
        push_str(o, "\"");
        assert(final(o)@ =~= old(o)@ + opt_attr(name@, value@));
    } else {
        assert(old(o)@ + opt_attr(name@, value@) =~= old(o)@);
    }
}

/// Appends ` value` where the value is not empty.
fn push_opt_class(o: &mut Vec<char>, value: &[char])
    ensures
        final(o)@ == old(o)@ + opt_class(value@),
{
    if value.len() > 0 {
        push_str(o, " ");
        push_all(o, value);
    } else {
        assert(old(o)@ + opt_class(value@) =~= old(o)@);
    }
}

/// The `data-*` attributes of the component's `props`.
fn data_attrs_exec(j: &NcJson) -> (r: Vec<char>)
    ensures
        r@ == data_attrs(json_view(*j)),
{
    let mut out: Vec<char> = Vec::new();
    match get_exec(j, "props") {
        Some(NcJson::Object(es)) => {
            let ghost v = entries_view(es@);
            proof {
                lemma_entries_view(es@);
                reveal_strlit("data-");
            }
            let mut i: usize = 0;
            while i < es.len()
                invariant
                    0 <= i <= es@.len(),
                    v == entries_view(es@),
                    v.len() == es@.len(),
                    forall|k: int| 0 <= k < es@.len() ==> #[trigger] v[k] == (es@[k].0@, json_view(es@[k].1)),
                    out@ == data_attrs_of(v.take(i as int)),
                decreases es@.len() - i,
            {
                assert(v.take(i + 1).drop_last() =~= v.take(i as int));
                assert(v.take(i + 1).last() == v[i as int]);
                if let NcJson::Str(val) = &es[i].1 {
                    let key = chars_of(es[i].0.as_str());
                    if starts_with_str(key.as_slice(), "data-") {
                        push_str(&mut out, " ");
                        push_all(&mut out, key.as_slice());
                        push_str(&mut out, "=\"");
                        push_str(&mut out, val.as_str());
                        push_str(&mut out, "\"");
                    }
                }
                i = i + 1;
            }
            assert(v.take(es@.len() as int) =~= v);
        },
        _ => {},
    }
    out
}

/// The view of a percentage table.
pub open spec fn percents_view(t: Seq<(String, String, u32)>) -> Seq<(Seq<char>, Seq<char>, u32)> {
    t.map_values(|p: (String, String, u32)| (p.0@, p.1@, p.2))
}

fn percent_exec(t: &Vec<(String, String, u32)>, value: &[char], max: &[char]) -> (r: u32)
    ensures
        r == percent_of(percents_view(t@), value@, max@),
{
    let ghost pv = percents_view(t@);
    let mut n = t.len();
    assert(pv.take(n as int) =~= pv);
    while n > 0
        invariant
            n <= t@.len(),
            pv == percents_view(t@),
            percent_of(pv.take(n as int), value@, max@) == percent_of(pv, value@, max@),
        decreases n,
    {
        let e = &t[n - 1];
        let a = chars_of(e.0.as_str());
        let b = chars_of(e.1.as_str());
        assert(pv.take(n as int).last() == pv[n - 1]);
        assert(pv.take(n as int).drop_last() =~= pv.take(n - 1));
        if crate::text::seq_eq(a.as_slice(), value) && crate::text::seq_eq(b.as_slice(), max) {
            return e.2;
        }
        n = n - 1;
    }
    0
}

// ==================== Rendering, kind by kind ====================

/// Appends `s` where `cond` holds.
fn push_if(o: &mut Vec<char>, cond: bool, s: &str)
    ensures
        final(o)@ == old(o)@ + (if cond {
            s@
        } else {
            Seq::empty()
        }),
{
    if cond {
        push_str(o, s);
    } else {
        assert(old(o)@ + Seq::<char>::empty() =~= old(o)@);
    }
}

/// Appends `prefix` and `value` where the value is not empty.
fn push_prefixed(o: &mut Vec<char>, prefix: &str, value: &[char])
    ensures
        final(o)@ == old(o)@ + (if value@.len() > 0 {
            prefix@ + value@
        } else {
            Seq::empty()
        }),
{
    if value.len() > 0 {
        push_str(o, prefix);
        push_all(o, value);
        assert(final(o)@ =~= old(o)@ + (prefix@ + value@));
    } else {
        assert(old(o)@ + Seq::<char>::empty() =~= old(o)@);
    }
}

fn push_form_label(o: &mut Vec<char>, label: &[char])
    ensures
        final(o)@ == old(o)@ + form_label(label@),
{
    if label.len() > 0 {
        push_str(o, "<label class=\"form-label\">");
        push_all(o, label);
        push_str(o, "</label>");
        assert(final(o)@ =~= old(o)@ + form_label(label@));
    } else {
        assert(old(o)@ + form_label(label@) =~= old(o)@);
    }
}

fn text_exec_html(j: &NcJson, ch: &[char]) -> (r: Vec<char>)
    ensures
        r@ == text_html(json_view(*j), ch@),
{
    let tag = attr_or_exec(j, "tag", "p");
    let mut o = chars_of("<");
    push_all(&mut o, tag.as_slice());
    push_opt_attr(&mut o, "class", attr_or_exec(j, "class", "").as_slice());
    push_str(&mut o, ">");
    push_all(&mut o, text_exec(j).as_slice());
    push_all(&mut o, ch);
    push_str(&mut o, "</");
    push_all(&mut o, tag.as_slice());
    push_str(&mut o, ">");
    o
}

fn heading_exec(j: &NcJson) -> (r: Vec<char>)
    ensures
        r@ == heading_html(json_view(*j)),
{
    let level = attr_or_exec(j, "level", "2");
    let mut o = chars_of("<h");
    push_all(&mut o, level.as_slice());
    push_opt_attr(&mut o, "class", attr_or_exec(j, "class", "").as_slice());
    push_str(&mut o, ">");
    push_all(&mut o, text_exec(j).as_slice());
    push_str(&mut o, "</h");
    push_all(&mut o, level.as_slice());
    push_str(&mut o, ">");
    o
}

fn image_exec(j: &NcJson) -> (r: Vec<char>)
    ensures
        r@ == image_html(json_view(*j)),
{
    let mut o = chars_of("<img src=\"");
    push_all(&mut o, attr_or_exec(j, "src", "").as_slice());
    push_str(&mut o, "\" alt=\"");
    push_all(&mut o, attr_or_exec(j, "alt", "").as_slice());
    push_str(&mut o, "\"");
    push_opt_attr(&mut o, "class", attr_or_exec(j, "class", "img-fluid").as_slice());
    push_opt_attr(&mut o, "width", attr_or_exec(j, "width", "").as_slice());
    push_opt_attr(&mut o, "height", attr_or_exec(j, "height", "").as_slice());
    push_str(&mut o, ">");
    o
}

fn icon_exec(j: &NcJson) -> (r: Vec<char>)
    ensures
        r@ == icon_html(json_view(*j)),
{
    let mut o = chars_of("<i class=\"fa-");
    push_all(&mut o, attr_or_exec(j, "name", "circle").as_slice());
    push_opt_class(&mut o, attr_or_exec(j, "class", "").as_slice());
    push_str(&mut o, "\"></i>");
    o
}

fn button_exec(j: &NcJson, ch: &[char]) -> (r: Vec<char>)
    ensures
        r@ == button_html(json_view(*j), ch@),
{
    let color = attr_or_exec(j, "color", "primary");
    let outline = attr_or_exec(j, "outline", "");
    let mut o = chars_of("<button class=\"btn ");
    if yes_exec(outline.as_slice()) {
        push_str(&mut o, "btn-outline-");
    } else {
        push_str(&mut o, "btn-");
    }
    push_all(&mut o, color.as_slice());
    let ghost before_size = o@;
    push_prefixed(&mut o, " btn-", attr_or_exec(j, "size", "").as_slice());
    push_opt_class(&mut o, attr_or_exec(j, "class", "").as_slice());
    push_str(&mut o, "\"");
    push_opt_attr(&mut o, "onclick", attr_or_exec(j, "onclick", "").as_slice());
    push_all(&mut o, data_attrs_exec(j).as_slice());
    push_str(&mut o, ">");
    push_all(&mut o, text_exec(j).as_slice());
    push_all(&mut o, ch);
    push_str(&mut o, "</button>");
    assert(o@ =~= button_html(json_view(*j), ch@));
    o
}

fn input_exec(j: &NcJson) -> (r: Vec<char>)
    ensures
        r@ == input_html(json_view(*j)),
{
    let mut o: Vec<char> = Vec::new();
    push_form_label(&mut o, attr_or_exec(j, "label", "").as_slice());
    push_str(&mut o, "<input type=\"");
    push_all(&mut o, attr_or_exec(j, "type", "text").as_slice());
    push_str(&mut o, "\" class=\"form-control");
    push_opt_class(&mut o, attr_or_exec(j, "class", "").as_slice());
    push_str(&mut o, "\" placeholder=\"");
    push_all(&mut o, attr_or_exec(j, "placeholder", "").as_slice());
    push_str(&mut o, "\" value=\"");
    push_all(&mut o, attr_or_exec(j, "value", "").as_slice());
    push_str(&mut o, "\">");
    assert(o@ =~= input_html(json_view(*j)));
    o
}

fn textarea_exec(j: &NcJson) -> (r: Vec<char>)
    ensures
        r@ == textarea_html(json_view(*j)),
{
    let mut o: Vec<char> = Vec::new();
    push_form_label(&mut o, attr_or_exec(j, "label", "").as_slice());
    push_str(&mut o, "<textarea class=\"form-control");
    push_opt_class(&mut o, attr_or_exec(j, "class", "").as_slice());
    push_str(&mut o, "\" placeholder=\"");
    push_all(&mut o, attr_or_exec(j, "placeholder", "").as_slice());
    push_str(&mut o, "\" rows=\"");
    push_all(&mut o, attr_or_exec(j, "rows", "3").as_slice());
    push_str(&mut o, "\">");
    push_all(&mut o, text_exec(j).as_slice());
    push_str(&mut o, "</textarea>");
    assert(o@ =~= textarea_html(json_view(*j)));
    o
}

fn select_exec(j: &NcJson) -> (r: Vec<char>)
    ensures
        r@ == select_html(json_view(*j)),
{
    let mut o: Vec<char> = Vec::new();
    push_form_label(&mut o, attr_or_exec(j, "label", "").as_slice());
    push_str(&mut o, "<select class=\"form-select");
    push_opt_class(&mut o, attr_or_exec(j, "class", "").as_slice());
    push_str(&mut o, "\">");
    let ghost head = o@;
    match kids_exec(j) {
        Some(v) => {
            let ghost s = values_view(v@);
            proof {
                lemma_values_view(v@);
                assert(s.take(0) =~= Seq::<JsonModel>::empty());
            }
            let mut i: usize = 0;
            while i < v.len()
                invariant
                    0 <= i <= v@.len(),
                    s == values_view(v@),
                    s.len() == v@.len(),
                    forall|k: int| 0 <= k < v@.len() ==> #[trigger] s[k] == json_view(v@[k]),
                    o@ == head + options_html(s.take(i as int)),
                decreases v@.len() - i,
            {
                let c = &v[i];
                assert(s.take(i + 1).drop_last() =~= s.take(i as int));
                assert(s.take(i + 1).last() == json_view(*c));
                let k = kind_exec(c);
                if crate::text::eq_str(k.as_slice(), "option") {
                    push_str(&mut o, "<option value=\"");
                    push_all(&mut o, attr_or_exec(c, "value", "").as_slice());
                    push_str(&mut o, "\">");
                    push_all(&mut o, text_exec(c).as_slice());
                    push_str(&mut o, "</option>");
                }
                i = i + 1;
                assert(o@ =~= head + options_html(s.take(i as int)));
            }
            assert(s.take(v@.len() as int) =~= s);
        },
        None => {},
    }
    push_str(&mut o, "</select>");
    assert(o@ =~= select_html(json_view(*j)));
    o
}

fn check_exec(j: &NcJson, input_type: &str, extra: &[char]) -> (r: Vec<char>)
    ensures
        r@ == check_html(json_view(*j), input_type@, extra@),
{
    let id = attr_or_exec(j, "id", "");
    let mut o = chars_of("<div class=\"form-check\"><input class=\"form-check-input\" type=\"");
    push_str(&mut o, input_type);
    push_str(&mut o, "\"");
    push_all(&mut o, extra);
    push_opt_attr(&mut o, "id", id.as_slice());
    push_if(&mut o, yes_exec(attr_or_exec(j, "checked", "").as_slice()), " checked");
    push_str(&mut o, "><label class=\"form-check-label\"");
    push_opt_attr(&mut o, "for", id.as_slice());
    push_str(&mut o, ">");
    push_all(&mut o, attr_or_exec(j, "label", "").as_slice());
    push_str(&mut o, "</label></div>");
    o
}

fn radio_extra_exec(j: &NcJson) -> (r: Vec<char>)
    ensures
        r@ == radio_extra(json_view(*j)),
{
    let mut o = chars_of(" name=\"");
    push_all(&mut o, attr_or_exec(j, "name", "").as_slice());
    push_str(&mut o, "\" value=\"");
    push_all(&mut o, attr_or_exec(j, "value", "").as_slice());
    push_str(&mut o, "\"");
    o
}

fn alert_exec(j: &NcJson) -> (r: Vec<char>)
    ensures
        r@ == alert_html(json_view(*j)),
{
    let d = yes_exec(attr_or_exec(j, "dismissible", "").as_slice());
    let mut o = chars_of("<div class=\"alert alert-");
    push_all(&mut o, attr_or_exec(j, "color", "info").as_slice());
    push_if(&mut o, d, " alert-dismissible fade show");
    push_opt_class(&mut o, attr_or_exec(j, "class", "").as_slice());
    push_str(&mut o, "\" role=\"alert\">");
    push_all(&mut o, text_exec(j).as_slice());
    push_if(&mut o, d, "<button type=\"button\" class=\"btn-close\" data-bs-dismiss=\"alert\"></button>");
    push_str(&mut o, "</div>");
    o
}

fn badge_exec(j: &NcJson) -> (r: Vec<char>)
    ensures
        r@ == badge_html(json_view(*j)),
{
    let mut o = chars_of("<span class=\"badge bg-");
    push_all(&mut o, attr_or_exec(j, "color", "secondary").as_slice());
    push_opt_class(&mut o, attr_or_exec(j, "class", "").as_slice());
    push_str(&mut o, "\">");
    push_all(&mut o, text_exec(j).as_slice());
    push_str(&mut o, "</span>");
    o
}

fn progress_exec(j: &NcJson, pc: &Vec<(String, String, u32)>) -> (r: Vec<char>)
    ensures
        r@ == progress_html(json_view(*j), percents_view(pc@)),
{
    let value = attr_or_exec(j, "value", "0");
    let max = attr_or_exec(j, "max", "100");
    let percent = decimal(percent_exec(pc, value.as_slice(), max.as_slice()) as u64);
    let label = attr_or_exec(j, "label", "");
    let mut o = chars_of("<div class=\"progress\"><div class=\"progress-bar");
    push_prefixed(&mut o, " bg-", attr_or_exec(j, "color", "").as_slice());
    push_if(&mut o, yes_exec(attr_or_exec(j, "striped", "").as_slice()), " progress-bar-striped");
    push_if(&mut o, yes_exec(attr_or_exec(j, "animated", "").as_slice()), " progress-bar-animated");
    push_str(&mut o, "\" role=\"progressbar\" style=\"width: ");
    push_all(&mut o, percent.as_slice());
    push_str(&mut o, "%\" aria-valuenow=\"");
    push_all(&mut o, value.as_slice());
    push_str(&mut o, "\" aria-valuemin=\"0\" aria-valuemax=\"");
    push_all(&mut o, max.as_slice());
    push_str(&mut o, "\">");
    if label.len() > 0 {
        push_all(&mut o, label.as_slice());
    } else {
        push_all(&mut o, percent.as_slice());
        push_str(&mut o, "%");
    }
    push_str(&mut o, "</div></div>");
    assert(o@ =~= progress_html(json_view(*j), percents_view(pc@)));
    o
}

fn spinner_exec(j: &NcJson) -> (r: Vec<char>)
    ensures
        r@ == spinner_html(json_view(*j)),
{
    let t = attr_or_exec(j, "type", "border");
    let size = attr_or_exec(j, "size", "");
    let mut o = chars_of("<div class=\"spinner-");
    push_all(&mut o, t.as_slice());
    push_str(&mut o, " text-");
    push_all(&mut o, attr_or_exec(j, "color", "primary").as_slice());
    if size.len() > 0 {
        push_str(&mut o, " spinner-");
        push_all(&mut o, t.as_slice());
        push_str(&mut o, "-");
        push_all(&mut o, size.as_slice());
    }
    push_opt_class(&mut o, attr_or_exec(j, "class", "").as_slice());
    push_str(&mut o, "\" role=\"status\"><span class=\"visually-hidden\">Loading...</span></div>");
    assert(o@ =~= spinner_html(json_view(*j)));
    o
}

fn modal_exec(j: &NcJson, ch: &[char]) -> (r: Vec<char>)
    ensures
        r@ == modal_html(json_view(*j), ch@),
{
    let mut o = chars_of("<div class=\"modal fade\" id=\"");
    push_all(&mut o, attr_or_exec(j, "id", "modal").as_slice());
    push_str(&mut o, "\" tabindex=\"-1\">\n  <div class=\"modal-dialog");
    push_prefixed(&mut o, " modal-", attr_or_exec(j, "size", "").as_slice());
    push_opt_class(&mut o, attr_or_exec(j, "class", "").as_slice());
    push_str(
        &mut o,
        "\">\n    <div class=\"modal-content\">\n      <div class=\"modal-header\">\n        <h5 class=\"modal-title\">",
    );
    push_all(&mut o, attr_or_exec(j, "title", "Title").as_slice());
    push_str(
        &mut o,
        "</h5>\n        <button type=\"button\" class=\"btn-close\" data-bs-dismiss=\"modal\"></button>\n      </div>\n      <div class=\"modal-body\">",
    );
    push_all(&mut o, ch);
    push_str(&mut o, "</div></div></div></div>");
    o
}

fn navbar_exec(j: &NcJson, ch: &[char]) -> (r: Vec<char>)
    ensures
        r@ == navbar_html(json_view(*j), ch@),
{
    let brand = attr_or_exec(j, "brand", "");
    let mut o = chars_of("<nav class=\"navbar navbar-expand-lg navbar-");
    push_all(&mut o, attr_or_exec(j, "color", "light").as_slice());
    push_str(&mut o, " bg-");
    push_all(&mut o, attr_or_exec(j, "bg", "light").as_slice());
    push_prefixed(&mut o, " fixed-", attr_or_exec(j, "fixed", "").as_slice());
    push_opt_class(&mut o, attr_or_exec(j, "class", "").as_slice());
    push_str(&mut o, "\"><div class=\"container-fluid\">");
    if brand.len() > 0 {
        push_str(&mut o, "<a class=\"navbar-brand\" href=\"#\">");
        push_all(&mut o, brand.as_slice());
        push_str(&mut o, "</a>");
    }
    push_all(&mut o, ch);
    push_str(&mut o, "</div></nav>");
    assert(o@ =~= navbar_html(json_view(*j), ch@));
    o
}

fn tab_buttons_exec(v: &Vec<NcJson>, id: &[char]) -> (r: Vec<char>)
    ensures
        r@ == tab_buttons(values_view(v@), id@),
{
    let ghost s = values_view(v@);
    proof {
        lemma_values_view(v@);
        assert(s.take(0) =~= Seq::<JsonModel>::empty());
    }
    let mut o: Vec<char> = Vec::new();
    let mut i: usize = 0;
    while i < v.len()
        invariant
            0 <= i <= v@.len(),
            s == values_view(v@),
            s.len() == v@.len(),
            forall|k: int| 0 <= k < v@.len() ==> #[trigger] s[k] == json_view(v@[k]),
            o@ == tab_buttons(s.take(i as int), id@),
        decreases v@.len() - i,
    {
        let c = &v[i];
        assert(s.take(i + 1).drop_last() =~= s.take(i as int));
        assert(s.take(i + 1).last() == json_view(*c));
        let n = decimal(i as u64);
        let mut dflt = chars_of("Tab ");
        push_all(&mut dflt, decimal(i as u64 + 1).as_slice());
        let title = match sattr_exec(c, "title") {
            Some(t) => chars_of(t.as_str()),
            None => dflt,
        };
        push_str(&mut o, "<li class=\"nav-item\" role=\"presentation\">\n                <button class=\"nav-link");
        push_if(&mut o, i == 0, " active");
        push_str(&mut o, "\" id=\"");
        push_all(&mut o, id);
        push_str(&mut o, "-tab-");
        push_all(&mut o, n.as_slice());
        push_str(&mut o, "\" data-bs-toggle=\"tab\" data-bs-target=\"#");
        push_all(&mut o, id);
        push_str(&mut o, "-");
        push_all(&mut o, n.as_slice());
        push_str(&mut o, "\" type=\"button\" role=\"tab\">");
        push_all(&mut o, title.as_slice());
        push_str(&mut o, "</button>\n              </li>");
        i = i + 1;
        assert(o@ =~= tab_buttons(s.take(i as int), id@));
    }
    assert(s.take(v@.len() as int) =~= s);
    o
}

fn accordion_items_exec(v: &Vec<NcJson>, id: &[char]) -> (r: Vec<char>)
    ensures
        r@ == accordion_items(values_view(v@), id@),
{
    let ghost s = values_view(v@);
    proof {
        lemma_values_view(v@);
        assert(s.take(0) =~= Seq::<JsonModel>::empty());
    }
    let mut o: Vec<char> = Vec::new();
    let mut i: usize = 0;
    while i < v.len()
        invariant
            0 <= i <= v@.len(),
            s == values_view(v@),
            s.len() == v@.len(),
            forall|k: int| 0 <= k < v@.len() ==> #[trigger] s[k] == json_view(v@[k]),
            o@ == accordion_items(s.take(i as int), id@),
        decreases v@.len() - i,
    {
        let c = &v[i];
        assert(s.take(i + 1).drop_last() =~= s.take(i as int));
        assert(s.take(i + 1).last() == json_view(*c));
        let n = decimal(i as u64);
        let mut dflt = chars_of("Item ");
        push_all(&mut dflt, decimal(i as u64 + 1).as_slice());
        let title = match sattr_exec(c, "title") {
            Some(t) => chars_of(t.as_str()),
            None => dflt,
        };
        push_str(
            &mut o,
            "<div class=\"accordion-item\">\n                <h2 class=\"accordion-header\">\n                  <button class=\"accordion-button",
        );
        push_if(&mut o, i != 0, " collapsed");
        push_str(&mut o, "\" type=\"button\" data-bs-toggle=\"collapse\" data-bs-target=\"#");
        push_all(&mut o, id);
        push_str(&mut o, "-collapse-");
        push_all(&mut o, n.as_slice());
        push_str(&mut o, "\">");
        push_all(&mut o, title.as_slice());
        push_str(&mut o, "</button>\n                </h2>\n                <div id=\"");
        push_all(&mut o, id);
        push_str(&mut o, "-collapse-");
        push_all(&mut o, n.as_slice());
        push_str(&mut o, "\" class=\"accordion-collapse collapse");
        push_if(&mut o, i == 0, " show");
        push_str(&mut o, "\" data-bs-parent=\"#");
        push_all(&mut o, id);
        push_str(&mut o, "\">\n                  <div class=\"accordion-body\"></div></div></div>");
        i = i + 1;
        assert(o@ =~= accordion_items(s.take(i as int), id@));
    }
    assert(s.take(v@.len() as int) =~= s);
    o
}

fn carousel_indicators_exec(n: usize, id: &[char]) -> (r: Vec<char>)
    ensures
        r@ == carousel_indicators(n as nat, id@),
{
    let mut o: Vec<char> = Vec::new();
    let mut i: usize = 0;
    while i < n
        invariant
            0 <= i <= n,
            o@ == carousel_indicators(i as nat, id@),
        decreases n - i,
    {
        push_str(&mut o, "<button type=\"button\" data-bs-target=\"#");
        push_all(&mut o, id);
        push_str(&mut o, "\" data-bs-slide-to=\"");
        push_all(&mut o, decimal(i as u64).as_slice());
        push_str(&mut o, "\"");
        push_if(&mut o, i == 0, " class=\"active\"");
        push_str(&mut o, "</button>");
        i = i + 1;
        assert(o@ =~= carousel_indicators(i as nat, id@));
    }
    o
}

fn carousel_controls_exec(id: &[char]) -> (r: Vec<char>)
    ensures
        r@ == carousel_controls(id@),
{
    let mut o = chars_of("<button class=\"carousel-control-prev\" type=\"button\" data-bs-target=\"#");
    push_all(&mut o, id);
    push_str(
        &mut o,
        "\" data-bs-slide=\"prev\">\n            <span class=\"carousel-control-prev-icon\"></span>\n          </button>\n          <button class=\"carousel-control-next\" type=\"button\" data-bs-target=\"#",
    );
    push_all(&mut o, id);
    push_str(
        &mut o,
        "\" data-bs-slide=\"next\">\n            <span class=\"carousel-control-next-icon\"></span>\n          </button>",
    );
    o
}

fn dropdown_exec(j: &NcJson) -> (r: Vec<char>)
    ensures
        r@ == dropdown_html(json_view(*j)),
{
    let mut o = chars_of("<div class=\"dropdown");
    push_opt_class(&mut o, attr_or_exec(j, "class", "").as_slice());
    push_str(&mut o, "\"><button class=\"btn btn-");
    push_all(&mut o, attr_or_exec(j, "color", "secondary").as_slice());
    push_str(&mut o, " dropdown-toggle\" type=\"button\" data-bs-toggle=\"dropdown\">");
    push_all(&mut o, text_exec(j).as_slice());
    push_str(&mut o, "</button>\n           <ul class=\"dropdown-menu\">");
    let ghost head = o@;
    match kids_exec(j) {
        Some(v) => {
            let ghost s = values_view(v@);
            proof {
                lemma_values_view(v@);
                assert(s.take(0) =~= Seq::<JsonModel>::empty());
            }
            let mut i: usize = 0;
            while i < v.len()
                invariant
                    0 <= i <= v@.len(),
                    s == values_view(v@),
                    s.len() == v@.len(),
                    forall|k: int| 0 <= k < v@.len() ==> #[trigger] s[k] == json_view(v@[k]),
                    o@ == head + dropdown_items(s.take(i as int)),
                decreases v@.len() - i,
            {
                let c = &v[i];
                assert(s.take(i + 1).drop_last() =~= s.take(i as int));
                assert(s.take(i + 1).last() == json_view(*c));
                let k = kind_exec(c);
                if crate::text::eq_str(k.as_slice(), "divider") {
                    push_str(&mut o, "<li><hr class=\"dropdown-divider\"></li>");
                } else {
                    push_str(&mut o, "<li><a class=\"dropdown-item\" href=\"");
                    push_all(&mut o, attr_or_exec(c, "href", "#").as_slice());
                    push_str(&mut o, "\">");
                    push_all(&mut o, text_exec(c).as_slice());
                    push_str(&mut o, "</a></li>");
                }
                i = i + 1;
                assert(o@ =~= head + dropdown_items(s.take(i as int)));
            }
            assert(s.take(v@.len() as int) =~= s);
        },
        None => {},
    }
    push_str(&mut o, "</ul></div>");
    assert(o@ =~= dropdown_html(json_view(*j)));
    o
}

fn state_classes_exec(c: &NcJson) -> (r: Vec<char>)
    ensures
        r@ == state_classes(json_view(*c)),
{
    let mut o: Vec<char> = Vec::new();
    push_if(&mut o, crate::text::eq_str(attr_or_exec(c, "active", "").as_slice(), "true"), " active");
    push_if(&mut o, crate::text::eq_str(attr_or_exec(c, "disabled", "").as_slice(), "true"), " disabled");
    assert(o@ =~= state_classes(json_view(*c)));
    o
}

/// The items of a list-like component: `which` 0 for list groups, 1 for
/// pagination, 2 for breadcrumbs, 3 for navs.
pub open spec fn items_of(s: Seq<JsonModel>, which: u8) -> Seq<char> {
    if which == 0 {
        list_items(s)
    } else if which == 1 {
        page_items(s)
    } else if which == 2 {
        crumbs(s)
    } else {
        nav_items(s)
    }
}

fn items_exec(j: &NcJson, which: u8) -> (r: Vec<char>)
    ensures
        r@ == items_of(kids(json_view(*j)), which),
{
    let mut o: Vec<char> = Vec::new();
    match kids_exec(j) {
        Some(v) => {
            let ghost s = values_view(v@);
            proof {
                lemma_values_view(v@);
                assert(s.take(0) =~= Seq::<JsonModel>::empty());
            }
            let mut i: usize = 0;
            while i < v.len()
                invariant
                    0 <= i <= v@.len(),
                    s == values_view(v@),
                    s.len() == v@.len(),
                    forall|k: int| 0 <= k < v@.len() ==> #[trigger] s[k] == json_view(v@[k]),
                    o@ == items_of(s.take(i as int), which),
                decreases v@.len() - i,
            {
                let c = &v[i];
                assert(s.take(i + 1).drop_last() =~= s.take(i as int));
                assert(s.take(i + 1).last() == json_view(*c));
                let t = text_exec(c);
                if which == 0 {
                    push_str(&mut o, "<li class=\"list-group-item");
                    push_all(&mut o, state_classes_exec(c).as_slice());
                    push_opt_class(&mut o, attr_or_exec(c, "class", "").as_slice());
                    push_str(&mut o, "\">");
                    push_all(&mut o, t.as_slice());
                    push_str(&mut o, "</li>");
                } else if which == 1 {
                    push_str(&mut o, "<li class=\"page-item");
                    push_all(&mut o, state_classes_exec(c).as_slice());
                    push_str(&mut o, "\"><a class=\"page-link\" href=\"#\">");
                    push_all(&mut o, t.as_slice());
                    push_str(&mut o, "</a></li>");
                } else if which == 2 {
                    if crate::text::eq_str(attr_or_exec(c, "active", "").as_slice(), "true") {
                        push_str(&mut o, "<li class=\"breadcrumb-item active\">");
                        push_all(&mut o, t.as_slice());
                        push_str(&mut o, "</li>");
                    } else {
                        push_str(&mut o, "<li class=\"breadcrumb-item\"><a href=\"");
                        push_all(&mut o, attr_or_exec(c, "href", "#").as_slice());
                        push_str(&mut o, "\">");
                        push_all(&mut o, t.as_slice());
                        push_str(&mut o, "</a></li>");
                    }
                } else {
                    push_str(&mut o, "<li class=\"nav-item");
                    push_if(&mut o, crate::text::eq_str(attr_or_exec(c, "active", "").as_slice(), "true"), " active");
                    push_str(&mut o, "\"><a class=\"nav-link\" href=\"");
                    push_all(&mut o, attr_or_exec(c, "href", "#").as_slice());
                    push_str(&mut o, "\">");
                    push_all(&mut o, t.as_slice());
                    push_str(&mut o, "</a></li>");
                }
                i = i + 1;
                assert(o@ =~= items_of(s.take(i as int), which));
            }
            assert(s.take(v@.len() as int) =~= s);
        },
        None => {
            assert(items_of(kids(json_view(*j)), which) =~= Seq::<char>::empty());
        },
    }
    o
}

fn list_group_exec(j: &NcJson) -> (r: Vec<char>)
    ensures
        r@ == list_group_html(json_view(*j)),
{
    let mut o = chars_of("<ul class=\"list-group");
    push_if(&mut o, yes_exec(attr_or_exec(j, "flush", "").as_slice()), " list-group-flush");
    push_if(&mut o, yes_exec(attr_or_exec(j, "numbered", "").as_slice()), " list-group-numbered");
    push_opt_class(&mut o, attr_or_exec(j, "class", "").as_slice());
    push_str(&mut o, "\">");
    push_all(&mut o, items_exec(j, 0).as_slice());
    push_str(&mut o, "</ul>");
    o
}

fn pagination_exec(j: &NcJson) -> (r: Vec<char>)
    ensures
        r@ == pagination_html(json_view(*j)),
{
    let mut o = chars_of("<nav><ul class=\"pagination");
    push_prefixed(&mut o, " pagination-", attr_or_exec(j, "size", "").as_slice());
    push_opt_class(&mut o, attr_or_exec(j, "class", "").as_slice());
    push_str(&mut o, "\">");
    push_all(&mut o, items_exec(j, 1).as_slice());
    push_str(&mut o, "</ul></nav>");
    assert(o@ =~= pagination_html(json_view(*j)));
    o
}

fn tooltip_exec(j: &NcJson) -> (r: Vec<char>)
    ensures
        r@ == tooltip_html(json_view(*j)),
{
    let mut o = chars_of("<span class=\"");
    push_all(&mut o, attr_or_exec(j, "class", "").as_slice());
    push_str(&mut o, "\" data-bs-toggle=\"tooltip\" data-bs-placement=\"");
    push_all(&mut o, attr_or_exec(j, "placement", "top").as_slice());
    push_str(&mut o, "\" title=\"");
    push_all(&mut o, attr_or_exec(j, "title", "").as_slice());
    push_str(&mut o, "\">");
    push_all(&mut o, text_exec(j).as_slice());
    push_str(&mut o, "</span>");
    o
}

fn popover_exec(j: &NcJson) -> (r: Vec<char>)
    ensures
        r@ == popover_html(json_view(*j)),
{
    let mut o = chars_of("<span class=\"");
    push_all(&mut o, attr_or_exec(j, "class", "").as_slice());
    push_str(&mut o, "\" data-bs-toggle=\"popover\" data-bs-placement=\"");
    push_all(&mut o, attr_or_exec(j, "placement", "right").as_slice());
    push_str(&mut o, "\" title=\"");
    push_all(&mut o, attr_or_exec(j, "title", "").as_slice());
    push_str(&mut o, "\" data-bs-content=\"");
    push_all(&mut o, attr_or_exec(j, "content", "").as_slice());
    push_str(&mut o, "\">");
    push_all(&mut o, text_exec(j).as_slice());
    push_str(&mut o, "</span>");
    o
}

fn toast_exec(j: &NcJson, ch: &[char]) -> (r: Vec<char>)
    ensures
        r@ == toast_html(json_view(*j), ch@),
{
    let mut o = chars_of("<div class=\"toast ");
    push_all(&mut o, attr_or_exec(j, "class", "").as_slice());
    push_str(&mut o, "\" role=\"alert\">\n            <div class=\"toast-header\">\n              <strong class=\"me-auto\">");
    push_all(&mut o, attr_or_exec(j, "title", "Notification").as_slice());
    push_str(&mut o, "</strong>\n              <small>");
    push_all(&mut o, attr_or_exec(j, "time", "Just now").as_slice());
    push_str(
        &mut o,
        "</small>\n              <button type=\"button\" class=\"btn-close\" data-bs-dismiss=\"toast\"></button>\n            </div>\n            <div class=\"toast-body\">",
    );
    push_all(&mut o, ch);
    push_str(&mut o, "</div></div>");
    o
}

fn offcanvas_exec(j: &NcJson, ch: &[char]) -> (r: Vec<char>)
    ensures
        r@ == offcanvas_html(json_view(*j), ch@),
{
    let mut o = chars_of("<div class=\"offcanvas offcanvas-");
    push_all(&mut o, attr_or_exec(j, "placement", "start").as_slice());
    push_str(&mut o, " ");
    push_all(&mut o, attr_or_exec(j, "class", "").as_slice());
    push_str(&mut o, "\" tabindex=\"-1\" id=\"");
    push_all(&mut o, attr_or_exec(j, "id", "offcanvas").as_slice());
    push_str(&mut o, "\">\n            <div class=\"offcanvas-header\">\n              <h5 class=\"offcanvas-title\">");
    push_all(&mut o, attr_or_exec(j, "title", "Title").as_slice());
    push_str(
        &mut o,
        "</h5>\n              <button type=\"button\" class=\"btn-close\" data-bs-dismiss=\"offcanvas\"></button>\n            </div>\n            <div class=\"offcanvas-body\">",
    );
    push_all(&mut o, ch);
    push_str(&mut o, "</div></div>");
    o
}

fn form_exec(j: &NcJson, ch: &[char]) -> (r: Vec<char>)
    ensures
        r@ == form_html(json_view(*j), ch@),
{
    let mut o = chars_of("<form action=\"");
    push_all(&mut o, attr_or_exec(j, "action", "").as_slice());
    push_str(&mut o, "\" method=\"");
    push_all(&mut o, attr_or_exec(j, "method", "post").as_slice());
    push_str(&mut o, "\" class=\"");
    push_all(&mut o, attr_or_exec(j, "class", "").as_slice());
    push_str(&mut o, "\">");
    push_all(&mut o, ch);
    push_str(&mut o, "</form>");
    o
}

fn code_exec(j: &NcJson) -> (r: Vec<char>)
    ensures
        r@ == code_html(json_view(*j)),
{
    let t = text_exec(j);
    if yes_exec(attr_or_exec(j, "inline", "").as_slice()) {
        let mut o = chars_of("<code>");
        push_all(&mut o, t.as_slice());
        push_str(&mut o, "</code>");
        o
    } else {
        let language = attr_or_exec(j, "language", "");
        let mut o = chars_of("<pre><code");
        if language.len() > 0 {
            push_str(&mut o, " class=\"language-");
            push_all(&mut o, language.as_slice());
            push_str(&mut o, "\"");
        }
        push_str(&mut o, ">");
        push_all(&mut o, t.as_slice());
        push_str(&mut o, "</code></pre>");
        assert(o@ =~= code_html(json_view(*j)));
        o
    }
}

fn generic_exec(j: &NcJson, ch: &[char]) -> (r: Vec<char>)
    ensures
        r@ == generic_html(json_view(*j), ch@),
{
    let k = kind_exec(j);
    let mut o = chars_of("<");
    push_all(&mut o, k.as_slice());
    push_opt_attr(&mut o, "class", attr_or_exec(j, "class", "").as_slice());
    push_opt_attr(&mut o, "id", attr_or_exec(j, "id", "").as_slice());
    push_opt_attr(&mut o, "style", attr_or_exec(j, "style", "").as_slice());
    push_opt_attr(&mut o, "onclick", attr_or_exec(j, "onclick", "").as_slice());
    push_all(&mut o, data_attrs_exec(j).as_slice());
    push_str(&mut o, ">");
    push_all(&mut o, text_exec(j).as_slice());
    push_all(&mut o, ch);
    push_str(&mut o, "</");
    push_all(&mut o, k.as_slice());
    push_str(&mut o, ">");
    o
}

fn rows_exec(v: &Vec<NcJson>, tag: &str) -> (r: Vec<char>)
    ensures
        r@ == rows_html(values_view(v@), tag@),
{
    let ghost s = values_view(v@);
    proof {
        lemma_values_view(v@);
        assert(s.take(0) =~= Seq::<JsonModel>::empty());
    }
    let mut o: Vec<char> = Vec::new();
    let mut i: usize = 0;
    while i < v.len()
        invariant
            0 <= i <= v@.len(),
            s == values_view(v@),
            s.len() == v@.len(),
            forall|k: int| 0 <= k < v@.len() ==> #[trigger] s[k] == json_view(v@[k]),
            o@ == rows_html(s.take(i as int), tag@),
        decreases v@.len() - i,
    {
        let row = &v[i];
        assert(s.take(i + 1).drop_last() =~= s.take(i as int));
        assert(s.take(i + 1).last() == json_view(*row));
        let ghost head = o@;
        push_str(&mut o, "<tr>");
        let ghost mid = o@;
        match kids_exec(row) {
            Some(cells) => {
                let ghost cs = values_view(cells@);
                proof {
                    lemma_values_view(cells@);
                    assert(cs.take(0) =~= Seq::<JsonModel>::empty());
                }
                let mut k: usize = 0;
                while k < cells.len()
                    invariant
                        0 <= k <= cells@.len(),
                        cs == values_view(cells@),
                        cs.len() == cells@.len(),
                        forall|m: int| 0 <= m < cells@.len() ==> #[trigger] cs[m] == json_view(cells@[m]),
                        o@ == mid + cells_html(cs.take(k as int), tag@),
                    decreases cells@.len() - k,
                {
                    assert(cs.take(k + 1).drop_last() =~= cs.take(k as int));
                    assert(cs.take(k + 1).last() == json_view(cells@[k as int]));
                    push_str(&mut o, "<");
                    push_str(&mut o, tag);
                    push_str(&mut o, ">");
                    push_all(&mut o, text_exec(&cells[k]).as_slice());
                    push_str(&mut o, "</");
                    push_str(&mut o, tag);
                    push_str(&mut o, ">");
                    k = k + 1;
                    assert(o@ =~= mid + cells_html(cs.take(k as int), tag@));
                }
                assert(cs.take(cells@.len() as int) =~= cs);
            },
            None => {
                assert(o@ =~= mid + cells_html(kids(json_view(*row)), tag@));
            },
        }
        push_str(&mut o, "</tr>");
        i = i + 1;
        assert(o@ =~= rows_html(s.take(i as int), tag@));
    }
    assert(s.take(v@.len() as int) =~= s);
    o
}

fn kids_text_rows(c: &NcJson, tag: &str) -> (r: Vec<char>)
    ensures
        r@ == rows_html(kids(json_view(*c)), tag@),
{
    match kids_exec(c) {
        Some(v) => rows_exec(v, tag),
        None => {
            assert(rows_html(kids(json_view(*c)), tag@) =~= Seq::<char>::empty());
            Vec::new()
        },
    }
}

/// Renders a component and its children.
pub fn render_exec(j: &NcJson, pc: &Vec<(String, String, u32)>) -> (r: Vec<char>)
    ensures
        r@ == render(json_view(*j), percents_view(pc@)),
    decreases json_view(*j), 2nat,
{
    let ghost m = json_view(*j);
    let ghost pcv = percents_view(pc@);
    proof {
        lemma_kids_smaller(m);
        lemma_body_smaller(m);
    }
    let k = kind_exec(j);
    let kv = kids_exec(j);
    let ch: Vec<char> = match kv {
        Some(v) => {
            proof {
                lemma_values_view(v@);
            }
            if v.len() > 0 {
                render_list_exec(v, pc)
            } else {
                Vec::new()
            }
        },
        None => Vec::new(),
    };
    assert(ch@ == (if kids(m).len() > 0 {
        render_list(kids(m), pcv)
    } else {
        Seq::empty()
    }));
    let ks = k.as_slice();
    let c = ch.as_slice();
    if crate::text::eq_str(ks, "raw") || crate::text::eq_str(ks, "html") {
        attr_or_exec(j, "content", "")
    } else if crate::text::eq_str(ks, "page") {
        let mut body: Vec<char> = Vec::new();
        if ch.len() == 0 {
            match attr_exec(j, "body") {
                Some(b) => {
                    proof {
                        lemma_kids_smaller(json_view(*b));
                    }
                    match kids_exec(b) {
                        Some(bv) => {
                            proof {
                                lemma_values_view(bv@);
                            }
                            if bv.len() > 0 {
                                body = render_list_exec(bv, pc);
                            }
                        },
                        None => {},
                    }
                },
                None => {},
            }
        } else {
            body = ch;
        }
        page_exec(j, body.as_slice())
    } else if crate::text::eq_str(ks, "body") || crate::text::eq_str(ks, "radio-group") {
        let mut o: Vec<char> = Vec::new();
        if crate::text::eq_str(ks, "radio-group") {
            push_form_label(&mut o, attr_or_exec(j, "label", "").as_slice());
        }
        push_all(&mut o, c);
        assert(o@ =~= render(m, pcv));
        o
    } else if crate::text::eq_str(ks, "text") || crate::text::eq_str(ks, "paragraph") {
        text_exec_html(j, c)
    } else if crate::text::eq_str(ks, "heading") {
        heading_exec(j)
    } else if crate::text::eq_str(ks, "image") || crate::text::eq_str(ks, "img") {
        image_exec(j)
    } else if crate::text::eq_str(ks, "icon") {
        icon_exec(j)
    } else if crate::text::eq_str(ks, "button") {
        button_exec(j, c)
    } else if crate::text::eq_str(ks, "input") {
        input_exec(j)
    } else if crate::text::eq_str(ks, "textarea") {
        textarea_exec(j)
    } else if crate::text::eq_str(ks, "select") {
        select_exec(j)
    } else if crate::text::eq_str(ks, "checkbox") {
        let e: Vec<char> = Vec::new();
        check_exec(j, "checkbox", e.as_slice())
    } else if crate::text::eq_str(ks, "radio") {
        check_exec(j, "radio", radio_extra_exec(j).as_slice())
    } else {
        render_more(j, pc, ks, c)
    }
}

/// The rest of the kinds: tables and the components after them.
fn render_more(j: &NcJson, pc: &Vec<(String, String, u32)>, ks: &[char], c: &[char]) -> (r: Vec<char>)
    requires
        ks@ == kind(json_view(*j)),
        c@ == (if kids(json_view(*j)).len() > 0 {
            render_list(kids(json_view(*j)), percents_view(pc@))
        } else {
            Seq::empty()
        }),
        !(ks@ == "raw"@ || ks@ == "html"@ || ks@ == "page"@ || ks@ == "body"@ || ks@ == "radio-group"@ || ks@
            == "text"@ || ks@ == "paragraph"@ || ks@ == "heading"@ || ks@ == "image"@ || ks@ == "img"@ || ks@
            == "icon"@ || ks@ == "button"@ || ks@ == "input"@ || ks@ == "textarea"@ || ks@ == "select"@ || ks@
            == "checkbox"@ || ks@ == "radio"@),
    ensures
        r@ == render(json_view(*j), percents_view(pc@)),
    decreases json_view(*j), 1nat,
{
    let ghost m = json_view(*j);
    let ghost pcv = percents_view(pc@);
    proof {
        lemma_kids_smaller(m);
    }
    let kv = kids_exec(j);
    if crate::text::eq_str(ks, "table") {
        let mut parts: Vec<char> = Vec::new();
        match kv {
            Some(v) => {
                proof {
                    lemma_values_view(v@);
                }
                if v.len() > 0 {
                    parts = table_parts_exec(v, pc);
                }
            },
            None => {},
        }
        let mut o = chars_of("<table class=\"");
        push_str(&mut o, "table");
        push_if(&mut o, yes_exec(attr_or_exec(j, "bordered", "").as_slice()), " table-bordered");
        push_if(&mut o, yes_exec(attr_or_exec(j, "striped", "").as_slice()), " table-striped");
        push_if(&mut o, yes_exec(attr_or_exec(j, "hover", "").as_slice()), " table-hover");
        push_opt_class(&mut o, attr_or_exec(j, "class", "").as_slice());
        push_str(&mut o, "\">");
        push_all(&mut o, parts.as_slice());
        push_str(&mut o, "</table>");
        assert(o@ =~= table_html(m, parts@));
        o
    } else if crate::text::eq_str(ks, "card") {
        let mut o = chars_of("<div class=\"card");
        push_opt_class(&mut o, attr_or_exec(j, "class", "").as_slice());
        push_str(&mut o, "\">");
        push_all(&mut o, c);
        push_str(&mut o, "</div>");
        o
    } else if crate::text::eq_str(ks, "alert") {
        alert_exec(j)
    } else if crate::text::eq_str(ks, "modal") {
        modal_exec(j, c)
    } else if crate::text::eq_str(ks, "navbar") {
        navbar_exec(j, c)
    } else if crate::text::eq_str(ks, "container") || crate::text::eq_str(ks, "row") || crate::text::eq_str(
        ks,
        "col",
    ) {
        let cls = match sattr_exec(j, "class") {
            Some(x) => chars_of(x.as_str()),
            None => slice_all(ks),
        };
        wrap_exec("div", cls.as_slice(), c)
    } else if crate::text::eq_str(ks, "badge") {
        badge_exec(j)
    } else if crate::text::eq_str(ks, "progress") {
        progress_exec(j, pc)
    } else if crate::text::eq_str(ks, "spinner") {
        spinner_exec(j)
    } else if crate::text::eq_str(ks, "tabs") {
        let id = attr_or_exec(j, "id", "tabs");
        let mut panes: Vec<char> = Vec::new();
        let mut o = chars_of("<ul class=\"nav nav-tabs\" id=\"");
        push_all(&mut o, id.as_slice());
        push_str(&mut o, "\" role=\"tablist\">");
        match kv {
            Some(v) => {
                proof {
                    lemma_values_view(v@);
                }
                push_all(&mut o, tab_buttons_exec(v, id.as_slice()).as_slice());
                if v.len() > 0 {
                    panes = tab_panes_exec(v, id.as_slice(), pc);
                }
            },
            None => {
                assert(tab_buttons(kids(m), id@) =~= Seq::<char>::empty());
            },
        }
        push_str(&mut o, "</ul><div class=\"tab-content\">");
        push_all(&mut o, panes.as_slice());
        push_str(&mut o, "</div>");
        assert(o@ =~= tabs_html(m, panes@));
        o
    } else if crate::text::eq_str(ks, "accordion") {
        let id = attr_or_exec(j, "id", "accordion");
        let mut o = chars_of("<div class=\"accordion\" id=\"");
        push_all(&mut o, id.as_slice());
        push_str(&mut o, "\">");
        match kv {
            Some(v) => {
                push_all(&mut o, accordion_items_exec(v, id.as_slice()).as_slice());
            },
            None => {
                assert(accordion_items(kids(m), id@) =~= Seq::<char>::empty());
            },
        }
        push_str(&mut o, "</div>");
        assert(o@ =~= render(m, pcv));
        o
    } else if crate::text::eq_str(ks, "carousel") {
        render_carousel(j, pc)
    } else if crate::text::eq_str(ks, "dropdown") {
        dropdown_exec(j)
    } else if crate::text::eq_str(ks, "list") || crate::text::eq_str(ks, "list-group") {
        list_group_exec(j)
    } else if crate::text::eq_str(ks, "pagination") {
        pagination_exec(j)
    } else if crate::text::eq_str(ks, "breadcrumb") {
        let mut o = chars_of("<nav><ol class=\"breadcrumb\">");
        push_all(&mut o, items_exec(j, 2).as_slice());
        push_str(&mut o, "</ol></nav>");
        o
    } else if crate::text::eq_str(ks, "tooltip") {
        tooltip_exec(j)
    } else if crate::text::eq_str(ks, "popover") {
        popover_exec(j)
    } else if crate::text::eq_str(ks, "toast") {
        toast_exec(j, c)
    } else if crate::text::eq_str(ks, "offcanvas") {
        offcanvas_exec(j, c)
    } else if crate::text::eq_str(ks, "form") {
        form_exec(j, c)
    } else if crate::text::eq_str(ks, "nav") {
        let mut o = chars_of("<ul class=\"");
        push_all(&mut o, attr_or_exec(j, "class", "nav").as_slice());
        push_str(&mut o, "\">");
        push_all(&mut o, items_exec(j, 3).as_slice());
        push_str(&mut o, "</ul>");
        o
    } else if crate::text::eq_str(ks, "footer") || crate::text::eq_str(ks, "header") {
        let cls = match sattr_exec(j, "class") {
            Some(x) => chars_of(x.as_str()),
            None => slice_all(ks),
        };
        let tag = string_from(ks);
        wrap_exec(tag.as_str(), cls.as_slice(), c)
    } else if crate::text::eq_str(ks, "sidebar") {
        wrap_exec("aside", attr_or_exec(j, "class", "sidebar").as_slice(), c)
    } else if crate::text::eq_str(ks, "grid") {
        let mut cols: Vec<char> = Vec::new();
        match kv {
            Some(v) => {
                proof {
                    lemma_values_view(v@);
                }
                if v.len() > 0 {
                    cols = grid_cols_exec(v, pc);
                }
            },
            None => {},
        }
        let mut o = chars_of("<div class=\"");
        push_str(&mut o, "row row-cols-");
        push_all(&mut o, attr_or_exec(j, "cols", "3").as_slice());
        push_prefixed(&mut o, " g-", attr_or_exec(j, "gap", "3").as_slice());
        push_opt_class(&mut o, attr_or_exec(j, "class", "").as_slice());
        push_str(&mut o, "\">");
        push_all(&mut o, cols.as_slice());
        push_str(&mut o, "</div>");
        assert(o@ =~= grid_html(m, cols@));
        o
    } else if crate::text::eq_str(ks, "divider") || crate::text::eq_str(ks, "separator") {
        let mut o = chars_of("<hr class=\"");
        push_all(&mut o, attr_or_exec(j, "class", "").as_slice());
        push_str(&mut o, "\">");
        o
    } else if crate::text::eq_str(ks, "spacer") {
        let mut o = chars_of("<div style=\"height: ");
        push_all(&mut o, attr_or_exec(j, "size", "3").as_slice());
        push_str(&mut o, "rem\"></div>");
        o
    } else if crate::text::eq_str(ks, "code") {
        code_exec(j)
    } else {
        generic_exec(j, c)
    }
}

fn slice_all(s: &[char]) -> (r: Vec<char>)
    ensures
        r@ == s@,
{
    let r = crate::text::slice_chars(s, 0, s.len());
    assert(s@.subrange(0, s@.len() as int) =~= s@);
    r
}

fn wrap_exec(tag: &str, class: &[char], ch: &[char]) -> (r: Vec<char>)
    ensures
        r@ == wrap_html(tag@, class@, ch@),
{
    let mut o = chars_of("<");
    push_str(&mut o, tag);
    push_str(&mut o, " class=\"");
    push_all(&mut o, class);
    push_str(&mut o, "\">");
    push_all(&mut o, ch);
    push_str(&mut o, "</");
    push_str(&mut o, tag);
    push_str(&mut o, ">");
    o
}

fn render_carousel(j: &NcJson, pc: &Vec<(String, String, u32)>) -> (r: Vec<char>)
    ensures
        r@ == carousel_html(
            json_view(*j),
            if kids(json_view(*j)).len() > 0 {
                carousel_items(kids(json_view(*j)), percents_view(pc@))
            } else {
                Seq::empty()
            },
        ),
    decreases json_view(*j), 0nat,
{
    let ghost m = json_view(*j);
    let ghost pcv = percents_view(pc@);
    proof {
        lemma_kids_smaller(m);
    }
    let id = attr_or_exec(j, "id", "carousel");
    let kv = kids_exec(j);
    let mut slides: Vec<char> = Vec::new();
    let n: usize = match kv {
        Some(v) => {
            proof {
                lemma_values_view(v@);
            }
            if v.len() > 0 {
                slides = carousel_items_exec(v, pc);
            }
            v.len()
        },
        None => 0,
    };
    let mut o = chars_of("<div id=\"");
    push_all(&mut o, id.as_slice());
    push_str(&mut o, "\" class=\"carousel slide\" data-bs-ride=\"carousel\"><div class=\"carousel-indicators\">");
    push_all(&mut o, carousel_indicators_exec(n, id.as_slice()).as_slice());
    push_str(&mut o, "</div><div class=\"carousel-inner\">");
    push_all(&mut o, slides.as_slice());
    push_str(&mut o, "</div>");
    push_all(&mut o, carousel_controls_exec(id.as_slice()).as_slice());
    push_str(&mut o, "</div>");
    assert(o@ =~= carousel_html(m, slides@));
    o
}

fn page_exec(j: &NcJson, body: &[char]) -> (r: Vec<char>)
    ensures
        r@ == page_html(json_view(*j), body@),
{
    let mut o = chars_of("<!DOCTYPE html>\n<html lang=\"");
    push_all(&mut o, attr_or_exec(j, "lang", "zh-CN").as_slice());
    push_str(&mut o, PAGE_HEAD_MIDDLE);
    push_all(&mut o, attr_or_exec(j, "title", "Nefu App").as_slice());
    push_str(&mut o, PAGE_AFTER_TITLE);
    push_str(&mut o, "<div id=\"app\" class=\"");
    push_all(&mut o, attr_or_exec(j, "class", "").as_slice());
    push_str(&mut o, "\">\n        ");
    push_all(&mut o, body);
    push_str(&mut o, PAGE_TAIL);
    o
}

/// Renders components in order.
fn render_list_exec(v: &Vec<NcJson>, pc: &Vec<(String, String, u32)>) -> (r: Vec<char>)
    ensures
        r@ == render_list(values_view(v@), percents_view(pc@)),
    decreases values_view(v@), 0nat,
{
    let ghost s = values_view(v@);
    proof {
        lemma_values_view(v@);
        assert(s.take(0) =~= Seq::<JsonModel>::empty());
    }
    let mut o: Vec<char> = Vec::new();
    let mut i: usize = 0;
    while i < v.len()
        invariant
            0 <= i <= v@.len(),
            s == values_view(v@),
            s.len() == v@.len(),
            forall|k: int| 0 <= k < v@.len() ==> #[trigger] s[k] == json_view(v@[k]),
            o@ == render_list(s.take(i as int), percents_view(pc@)),
        decreases v@.len() - i,
    {
        assert(s.take(i + 1).drop_last() =~= s.take(i as int));
        assert(s.take(i + 1).last() == s[i as int]);
        assert(decreases_to!(s => s[i as int]));
        let h = render_exec(&v[i], pc);
        push_all(&mut o, h.as_slice());
        i = i + 1;
    }
    assert(s.take(v@.len() as int) =~= s);
    o
}

fn table_parts_exec(v: &Vec<NcJson>, pc: &Vec<(String, String, u32)>) -> (r: Vec<char>)
    ensures
        r@ == table_parts(values_view(v@), percents_view(pc@)),
    decreases values_view(v@), 0nat,
{
    let ghost s = values_view(v@);
    proof {
        lemma_values_view(v@);
        assert(s.take(0) =~= Seq::<JsonModel>::empty());
    }
    let mut o: Vec<char> = Vec::new();
    let mut i: usize = 0;
    while i < v.len()
        invariant
            0 <= i <= v@.len(),
            s == values_view(v@),
            s.len() == v@.len(),
            forall|k: int| 0 <= k < v@.len() ==> #[trigger] s[k] == json_view(v@[k]),
            o@ == table_parts(s.take(i as int), percents_view(pc@)),
        decreases v@.len() - i,
    {
        assert(s.take(i + 1).drop_last() =~= s.take(i as int));
        assert(s.take(i + 1).last() == s[i as int]);
        assert(decreases_to!(s => s[i as int]));
        let c = &v[i];
        let k = kind_exec(c);
        if crate::text::eq_str(k.as_slice(), "thead") || crate::text::eq_str(k.as_slice(), "header") {
            push_str(&mut o, "<thead>");
            push_all(&mut o, kids_text_rows(c, "th").as_slice());
            push_str(&mut o, "</thead>");
        } else if crate::text::eq_str(k.as_slice(), "tbody") || crate::text::eq_str(k.as_slice(), "body") {
            push_str(&mut o, "<tbody>");
            push_all(&mut o, kids_text_rows(c, "td").as_slice());
            push_str(&mut o, "</tbody>");
        } else {
            let h = render_exec(c, pc);
            push_all(&mut o, h.as_slice());
        }
        i = i + 1;
        assert(o@ =~= table_parts(s.take(i as int), percents_view(pc@)));
    }
    assert(s.take(v@.len() as int) =~= s);
    o
}

fn tab_panes_exec(v: &Vec<NcJson>, id: &[char], pc: &Vec<(String, String, u32)>) -> (r: Vec<char>)
    ensures
        r@ == tab_panes(values_view(v@), id@, percents_view(pc@)),
    decreases values_view(v@), 0nat,
{
    let ghost s = values_view(v@);
    proof {
        lemma_values_view(v@);
        assert(s.take(0) =~= Seq::<JsonModel>::empty());
    }
    let mut o: Vec<char> = Vec::new();
    let mut i: usize = 0;
    while i < v.len()
        invariant
            0 <= i <= v@.len(),
            s == values_view(v@),
            s.len() == v@.len(),
            forall|k: int| 0 <= k < v@.len() ==> #[trigger] s[k] == json_view(v@[k]),
            o@ == tab_panes(s.take(i as int), id@, percents_view(pc@)),
        decreases v@.len() - i,
    {
        assert(s.take(i + 1).drop_last() =~= s.take(i as int));
        assert(s.take(i + 1).last() == s[i as int]);
        assert(decreases_to!(s => s[i as int]));
        push_str(&mut o, "<div class=\"tab-pane fade");
        push_if(&mut o, i == 0, " show active");
        push_str(&mut o, "\" id=\"");
        push_all(&mut o, id);
        push_str(&mut o, "-");
        push_all(&mut o, decimal(i as u64).as_slice());
        push_str(&mut o, "\" role=\"tabpanel\">");
        let h = render_exec(&v[i], pc);
        push_all(&mut o, h.as_slice());
        push_str(&mut o, "</div>");
        i = i + 1;
        assert(o@ =~= tab_panes(s.take(i as int), id@, percents_view(pc@)));
    }
    assert(s.take(v@.len() as int) =~= s);
    o
}

fn carousel_items_exec(v: &Vec<NcJson>, pc: &Vec<(String, String, u32)>) -> (r: Vec<char>)
    ensures
        r@ == carousel_items(values_view(v@), percents_view(pc@)),
    decreases values_view(v@), 0nat,
{
    let ghost s = values_view(v@);
    proof {
        lemma_values_view(v@);
        assert(s.take(0) =~= Seq::<JsonModel>::empty());
    }
    let mut o: Vec<char> = Vec::new();
    let mut i: usize = 0;
    while i < v.len()
        invariant
            0 <= i <= v@.len(),
            s == values_view(v@),
            s.len() == v@.len(),
            forall|k: int| 0 <= k < v@.len() ==> #[trigger] s[k] == json_view(v@[k]),
            o@ == carousel_items(s.take(i as int), percents_view(pc@)),
        decreases v@.len() - i,
    {
        assert(s.take(i + 1).drop_last() =~= s.take(i as int));
        assert(s.take(i + 1).last() == s[i as int]);
        assert(decreases_to!(s => s[i as int]));
        push_str(&mut o, "<div class=\"carousel-item");
        push_if(&mut o, i == 0, " active");
        push_str(&mut o, "\">");
        let h = render_exec(&v[i], pc);
        push_all(&mut o, h.as_slice());
        push_str(&mut o, "</div>");
        i = i + 1;
        assert(o@ =~= carousel_items(s.take(i as int), percents_view(pc@)));
    }
    assert(s.take(v@.len() as int) =~= s);
    o
}

fn grid_cols_exec(v: &Vec<NcJson>, pc: &Vec<(String, String, u32)>) -> (r: Vec<char>)
    ensures
        r@ == grid_cols(values_view(v@), percents_view(pc@)),
    decreases values_view(v@), 0nat,
{
    let ghost s = values_view(v@);
    proof {
        lemma_values_view(v@);
        assert(s.take(0) =~= Seq::<JsonModel>::empty());
    }
    let mut o: Vec<char> = Vec::new();
    let mut i: usize = 0;
    while i < v.len()
        invariant
            0 <= i <= v@.len(),
            s == values_view(v@),
            s.len() == v@.len(),
            forall|k: int| 0 <= k < v@.len() ==> #[trigger] s[k] == json_view(v@[k]),
            o@ == grid_cols(s.take(i as int), percents_view(pc@)),
        decreases v@.len() - i,
    {
        assert(s.take(i + 1).drop_last() =~= s.take(i as int));
        assert(s.take(i + 1).last() == s[i as int]);
        assert(decreases_to!(s => s[i as int]));
        push_str(&mut o, "<div class=\"col\">");
        let h = render_exec(&v[i], pc);
        push_all(&mut o, h.as_slice());
        push_str(&mut o, "</div>");
        i = i + 1;
        assert(o@ =~= grid_cols(s.take(i as int), percents_view(pc@)));
    }
    assert(s.take(v@.len() as int) =~= s);
    o
}

// ==================== Pages ====================

/// The page of a JSON file's root component: refused where the root is
/// not an object or names no kind; a `page` root with an `html` field is
/// its own page; any other root is rendered into the standard page.
pub open spec fn old_page(root: JsonModel, pc: Seq<(Seq<char>, Seq<char>, u32)>) -> Result<Seq<char>, crate::nc_parser::NcFailure> {
    if !(root is Object) {
        Err(crate::nc_parser::NcFailure::RootNotObject)
    } else if as_str(get(root, "component"@)) is None && as_str(get(root, "type"@)) is None {
        Err(crate::nc_parser::NcFailure::MissingKind)
    } else if kind(root) == "page"@ && get(root, "html"@) is Some {
        Ok(render(root, pc))
    } else {
        Ok(assembled_page(render(root, pc), root))
    }
}

/// Renders a component tree to HTML; progress bars take their percentage
/// from `percents` by their value and maximum texts.
pub fn render_component(root: &NcJson, percents: &Vec<(String, String, u32)>) -> (r: String)
    ensures
        r@ == render(json_view(*root), percents_view(percents@)),
{
    let v = render_exec(root, percents);
    string_from(v.as_slice())
}

/// The page of a parsed JSON root (see `old_page`).
pub fn old_syntax_page(root: &NcJson, percents: &Vec<(String, String, u32)>) -> (r: Result<String, crate::nc_parser::NcError>)
    ensures
        match old_page(json_view(*root), percents_view(percents@)) {
            Ok(p) => r is Ok && r->Ok_0@ == p,
            Err(f) => r is Err && r->Err_0@ == f,
        },
{
    match root {
        NcJson::Object(_) => {},
        _ => {
            return Err(crate::nc_parser::NcError::RootNotObject);
        },
    }
    if as_str_exec(get_exec(root, "component")).is_none() && as_str_exec(get_exec(root, "type")).is_none() {
        return Err(crate::nc_parser::NcError::MissingKind);
    }
    let body = render_exec(root, percents);
    let k = kind_exec(root);
    if crate::text::eq_str(k.as_slice(), "page") && get_exec(root, "html").is_some() {
        return Ok(string_from(body.as_slice()));
    }
    let mut o = chars_of("<!DOCTYPE html>\n<html lang=\"zh-CN");
    push_str(&mut o, PAGE_HEAD_MIDDLE);
    match as_str_exec(get_exec(root, "title")) {
        Some(t) => push_str(&mut o, t.as_str()),
        None => push_str(&mut o, "Nefu App"),
    }
    push_str(&mut o, PAGE_AFTER_TITLE);
    push_str(&mut o, "<div id=\"app\">\n        ");
    push_all(&mut o, body.as_slice());
    push_str(&mut o, PAGE_TAIL);
    assert(o@ =~= assembled_page(body@, json_view(*root)));
    Ok(string_from(o.as_slice()))
}

/// The page of a file in the JSON syntax: `NotJson` where the (trimmed)
/// text is not JSON, else the page of its root.
pub open spec fn old_syntax_spec(content: Seq<char>, pc: Seq<(Seq<char>, Seq<char>, u32)>) -> Result<Seq<char>, crate::nc_parser::NcFailure> {
    match json_model_spec(crate::text::trim_spec(content)) {
        None => Err(crate::nc_parser::NcFailure::NotJson),
        Some(root) => old_page(root, pc),
    }
}

/// Parses a file in the JSON syntax and renders its page.
pub fn parse_old_syntax(content: &str, percents: &Vec<(String, String, u32)>) -> (r: Result<String, crate::nc_parser::NcError>)
    ensures
        match old_syntax_spec(content@, percents_view(percents@)) {
            Ok(p) => r is Ok && r->Ok_0@ == p,
            Err(f) => r is Err && r->Err_0@ == f,
        },
{
    let v = chars_of(content);
    let t = crate::text::trim(v.as_slice());
    let text = string_from(t.as_slice());
    match parse_json(text.as_str()) {
        None => Err(crate::nc_parser::NcError::NotJson),
        Some(root) => old_syntax_page(&root, percents),
    }
}

// ==================== Progress bars ====================

/// The value and maximum texts of every `progress` component anywhere in
/// a value, depth first, entries and elements in order.
pub open spec fn progress_pairs_spec(j: JsonModel) -> Seq<(Seq<char>, Seq<char>)>
    decreases j,
{
    match j {
        JsonModel::Array(s) => {
            proof {
                assert(decreases_to!(j => s));
            }
            list_pairs(s)
        },
        JsonModel::Object(es) => {
            proof {
                assert(decreases_to!(j => es));
            }
            (if kind(j) == "progress"@ {
                seq![(attr_or(j, "value"@, "0"@), attr_or(j, "max"@, "100"@))]
            } else {
                Seq::empty()
            }) + entry_pairs(es)
        },
        _ => Seq::empty(),
    }
}

pub open spec fn list_pairs(s: Seq<JsonModel>) -> Seq<(Seq<char>, Seq<char>)>
    decreases s,
{
    if s.len() == 0 {
        Seq::empty()
    } else {
        proof {
            assert(decreases_to!(s => s[s.len() - 1]));
            assert(decreases_to!(s => s.subrange(0, s.len() - 1)));
        }
        list_pairs(s.drop_last()) + progress_pairs_spec(s.last())
    }
}

pub open spec fn entry_pairs(es: Seq<(Seq<char>, JsonModel)>) -> Seq<(Seq<char>, Seq<char>)>
    decreases es,
{
    if es.len() == 0 {
        Seq::empty()
    } else {
        proof {
            assert(decreases_to!(es => es[es.len() - 1]));
            assert(decreases_to!(es[es.len() - 1] => es[es.len() - 1].1));
            assert(decreases_to!(es => es.subrange(0, es.len() - 1)));
        }
        entry_pairs(es.drop_last()) + progress_pairs_spec(es.last().1)
    }
}

/// The texts of pairs of strings.
pub open spec fn pair_views(v: Seq<(String, String)>) -> Seq<(Seq<char>, Seq<char>)> {
    v.map_values(|p: (String, String)| (p.0@, p.1@))
}

#[verifier::rlimit(40)]
fn push_progress_pairs(j: &NcJson, out: &mut Vec<(String, String)>)
    ensures
        pair_views(final(out)@) == pair_views(old(out)@) + progress_pairs_spec(json_view(*j)),
    decreases json_view(*j),
{
    let ghost m = json_view(*j);
    match j {
        NcJson::Array(v) => {
            let ghost s = values_view(v@);
            let ghost start = pair_views(out@);
            proof {
                lemma_values_view(v@);
                assert(s.take(0) =~= Seq::<JsonModel>::empty());
                assert(m == JsonModel::Array(s));
                assert(decreases_to!(m => m->Array_0));
            }
            let mut i: usize = 0;
            while i < v.len()
                invariant
                    0 <= i <= v@.len(),
                    s == values_view(v@),
                    s.len() == v@.len(),
                    m == JsonModel::Array(s),
                    m == json_view(*j),
                    decreases_to!(m => s),
                    forall|k: int| 0 <= k < v@.len() ==> #[trigger] s[k] == json_view(v@[k]),
                    pair_views(out@) == start + list_pairs(s.take(i as int)),
                decreases v@.len() - i,
            {
                assert(s.take(i + 1).drop_last() =~= s.take(i as int));
                assert(s.take(i + 1).last() == s[i as int]);
                assert(decreases_to!(s => s[i as int]));
                push_progress_pairs(&v[i], out);
                i = i + 1;
                assert(pair_views(out@) =~= start + list_pairs(s.take(i as int)));
            }
            assert(s.take(v@.len() as int) =~= s);
        },
        NcJson::Object(es) => {
            let ghost e = entries_view(es@);
            proof {
                lemma_entries_view(es@);
                assert(e.take(0) =~= Seq::<(Seq<char>, JsonModel)>::empty());
                assert(m == JsonModel::Object(e));
                assert(decreases_to!(m => m->Object_0));
            }
            let k = kind_exec(j);
            if crate::text::eq_str(k.as_slice(), "progress") {
                let a = attr_or_exec(j, "value", "0");
                let b = attr_or_exec(j, "max", "100");
                let ghost before = pair_views(out@);
                out.push((string_from(a.as_slice()), string_from(b.as_slice())));
                assert(pair_views(out@) =~= before.push((a@, b@)));
            }
            let ghost start = pair_views(out@);
            let mut i: usize = 0;
            while i < es.len()
                invariant
                    0 <= i <= es@.len(),
                    e == entries_view(es@),
                    e.len() == es@.len(),
                    m == JsonModel::Object(e),
                    m == json_view(*j),
                    decreases_to!(m => e),
                    forall|q: int| 0 <= q < es@.len() ==> #[trigger] e[q] == (es@[q].0@, json_view(es@[q].1)),
                    pair_views(out@) == start + entry_pairs(e.take(i as int)),
                decreases es@.len() - i,
            {
                assert(e.take(i + 1).drop_last() =~= e.take(i as int));
                assert(e.take(i + 1).last() == e[i as int]);
                assert(decreases_to!(e => e[i as int]));
                assert(decreases_to!(e[i as int] => e[i as int].1));
                push_progress_pairs(&es[i].1, out);
                i = i + 1;
                assert(pair_views(out@) =~= start + entry_pairs(e.take(i as int)));
            }
            assert(e.take(es@.len() as int) =~= e);
        },
        _ => {
            assert(pair_views(out@) =~= pair_views(out@) + progress_pairs_spec(m));
        },
    }
}

/// The value and maximum texts of the progress components of a file in
/// the JSON syntax (none where it is not JSON): the pairs whose
/// percentages the page takes from its table.
pub fn progress_pairs(content: &str) -> (r: Vec<(String, String)>)
    ensures
        pair_views(r@) == match json_model_spec(crate::text::trim_spec(content@)) {
            Some(root) => progress_pairs_spec(root),
            None => Seq::empty(),
        },
{
    let v = chars_of(content);
    let t = crate::text::trim(v.as_slice());
    let text = string_from(t.as_slice());
    let mut out: Vec<(String, String)> = Vec::new();
    match parse_json(text.as_str()) {
        None => {
            assert(pair_views(out@) =~= Seq::<(Seq<char>, Seq<char>)>::empty());
        },
        Some(root) => {
            assert(pair_views(out@) =~= Seq::<(Seq<char>, Seq<char>)>::empty());
            push_progress_pairs(&root, &mut out);
            assert(pair_views(out@) =~= progress_pairs_spec(json_view(root)));
        },
    }
    out
}

} // verus!
