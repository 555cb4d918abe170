//! YAML documents as plain values.

use vstd::prelude::*;

use crate::parser::smf;
use crate::parser::smf::parse_smf_number;
use crate::text;
use crate::text::{chars_of, same_text, trimmed};

verus! {

/// A YAML value. A tagged value holds nothing that a configuration reads.
#[derive(Debug)]
pub enum Yaml {
    Null,
    Bool(bool),
    /// A number: its value where it is an integer of 64 bits, and its text.
    Number { value: Option<i64>, text: String },
    Text(String),
    Sequence(Vec<Yaml>),
    Mapping(Vec<(Yaml, Yaml)>),
    Tagged,
}

pub enum YamlView {
    Null,
    Bool(bool),
    Number { value: Option<i64>, text: Seq<char> },
    Text(Seq<char>),
    Sequence(Seq<YamlView>),
    Mapping(Seq<(YamlView, YamlView)>),
    Tagged,
}

impl Yaml {
    pub open spec fn contents(self) -> YamlView
        decreases self,
    {
        match self {
            Yaml::Null => YamlView::Null,
            Yaml::Bool(b) => YamlView::Bool(b),
            Yaml::Number { value, text } => YamlView::Number { value, text: text@ },
            Yaml::Text(s) => YamlView::Text(s@),
            Yaml::Sequence(items) => YamlView::Sequence(
                Seq::new(
                    items@.len(),
                    |i: int|
                        if 0 <= i < items@.len() {
                            items@[i].contents()
                        } else {
                            YamlView::Null
                        },
                ),
            ),
            Yaml::Mapping(entries) => YamlView::Mapping(
                Seq::new(
                    entries@.len(),
                    |i: int|
                        if 0 <= i < entries@.len() {
                            (entries@[i].0.contents(), entries@[i].1.contents())
                        } else {
                            (YamlView::Null, YamlView::Null)
                        },
                ),
            ),
            Yaml::Tagged => YamlView::Tagged,
        }
    }
}

// ---------------------------------------------------------------------------
// Documents
// ---------------------------------------------------------------------------
/// `serde_yaml::Value`, any YAML value.
#[verifier::external_type_specification]
#[verifier::external_body]
pub struct ExYamlValue(serde_yaml::Value);

/// What a `serde_yaml::Value` holds.
pub uninterp spec fn value_contents(value: serde_yaml::Value) -> YamlView;

/// What `serde_yaml::from_str` reads in a text: the document, or the message of
/// its error.
pub uninterp spec fn yaml_document(text: Seq<char>) -> Result<YamlView, Seq<char>>;

/// `serde_yaml::from_str` reads the one document of a text, or fails with an
/// error that is shown as its message. Which texts are documents, and what they
/// hold, is not stated here.
#[verifier::external_body]
fn read_value(text: &str) -> (r: Result<serde_yaml::Value, String>)
    ensures
        match r {
            Ok(v) => yaml_document(text@) == Ok::<YamlView, Seq<char>>(value_contents(v)),
            Err(e) => yaml_document(text@) == Err::<YamlView, Seq<char>>(e@),
        },
{
    serde_yaml::from_str(text).map_err(|e| e.to_string())
}

/// The plain value that holds what a `serde_yaml::Value` holds: each variant of
/// it by the variant of the same name, a number by `Number::as_i64` and its
/// display, sequences and mappings in their order.
#[verifier::external_body]
fn plain_value(value: serde_yaml::Value) -> (r: Yaml)
    ensures
        r.contents() == value_contents(value),
{
    match value {
        serde_yaml::Value::Null => Yaml::Null,
        serde_yaml::Value::Bool(b) => Yaml::Bool(b),
        serde_yaml::Value::Number(n) => Yaml::Number { value: n.as_i64(), text: n.to_string() },
        serde_yaml::Value::String(s) => Yaml::Text(s),
        serde_yaml::Value::Sequence(v) => Yaml::Sequence(v.into_iter().map(plain_value).collect()),
        serde_yaml::Value::Mapping(m) => Yaml::Mapping(
            m.into_iter().map(|(k, v)| (plain_value(k), plain_value(v))).collect(),
        ),
        serde_yaml::Value::Tagged(_) => Yaml::Tagged,
    }
}

pub open spec fn document_view(r: Result<Yaml, String>) -> Result<YamlView, Seq<char>> {
    match r {
        Ok(y) => Ok(y.contents()),
        Err(e) => Err(e@),
    }
}

/// The document of a text.
pub fn read_document(text: &str) -> (r: Result<Yaml, String>)
    ensures
        document_view(r) == yaml_document(text@),
{
    match read_value(text) {
        Ok(v) => Ok(plain_value(v)),
        Err(e) => Err(e),
    }
}

// ---------------------------------------------------------------------------
// Reading values
// ---------------------------------------------------------------------------
pub open spec fn opt_contents(v: Option<&Yaml>) -> Option<YamlView> {
    match v {
        Some(y) => Some(y.contents()),
        None => None,
    }
}

/// The value of the first entry from `i` on whose key is the given text.
pub open spec fn entry_from(entries: Seq<(YamlView, YamlView)>, i: int, key: Seq<char>) -> Option<
    YamlView,
>
    decreases entries.len() - i,
{
    if i < 0 || i >= entries.len() {
        None
    } else if entries[i].0 == YamlView::Text(key) {
        Some(entries[i].1)
    } else {
        entry_from(entries, i + 1, key)
    }
}

/// A field of a mapping.
pub open spec fn field(v: Option<YamlView>, key: Seq<char>) -> Option<YamlView> {
    match v {
        Some(YamlView::Mapping(entries)) => entry_from(entries, 0, key),
        _ => None,
    }
}

pub open spec fn text_of(v: Option<YamlView>) -> Option<Seq<char>> {
    match v {
        Some(YamlView::Text(s)) => Some(s),
        _ => None,
    }
}

/// A truth value, or one of the words for it.
pub open spec fn bool_of(v: Option<YamlView>) -> Option<bool> {
    match v {
        Some(YamlView::Bool(b)) => Some(b),
        Some(YamlView::Text(s)) => if s == "true"@ || s == "on"@ || s == "yes"@ {
            Some(true)
        } else if s == "false"@ || s == "off"@ || s == "no"@ {
            Some(false)
        } else {
            None
        },
        _ => None,
    }
}

/// A 32-bit integer, as a number or as a text in one of the bases.
pub open spec fn int_of(v: Option<YamlView>) -> Option<int> {
    match v {
        Some(YamlView::Number { value, text }) => match value {
            Some(n) => if i32::MIN <= n <= i32::MAX {
                Some(n as int)
            } else {
                None
            },
            None => None,
        },
        Some(YamlView::Text(s)) => smf::smf_number(text::trim(s)),
        _ => None,
    }
}

pub open spec fn within(v: Option<int>, high: int) -> Option<int> {
    match v {
        Some(n) => if 0 <= n <= high {
            Some(n)
        } else {
            None
        },
        None => None,
    }
}

pub open spec fn u8_of(v: Option<YamlView>) -> Option<u8> {
    match within(int_of(v), 255) {
        Some(n) => Some(n as u8),
        None => None,
    }
}

pub open spec fn u16_of(v: Option<YamlView>) -> Option<u16> {
    match within(int_of(v), 65535) {
        Some(n) => Some(n as u16),
        None => None,
    }
}

/// The text of a mapping's key: a text, or a number as it is written.
pub open spec fn key_text(v: YamlView) -> Option<Seq<char>> {
    match v {
        YamlView::Text(s) => Some(s),
        YamlView::Number { value, text } => Some(text),
        _ => None,
    }
}

pub open spec fn opt_str(v: Option<&str>) -> Option<Seq<char>> {
    match v {
        Some(s) => Some(s@),
        None => None,
    }
}

pub fn get_field<'a>(v: Option<&'a Yaml>, key: &str) -> (r: Option<&'a Yaml>)
    ensures
        opt_contents(r) == field(opt_contents(v), key@),
{
    match v {
        Some(Yaml::Mapping(entries)) => {
            let ghost all = v->0.contents()->Mapping_0;
            let mut i: usize = 0;
            while i < entries.len()
                invariant
                    i <= entries@.len(),
                    all.len() == entries@.len(),
                    opt_contents(v) == Some(YamlView::Mapping(all)),
                    forall|k: int|
                        0 <= k < entries@.len() ==> #[trigger] all[k] == (
                            entries@[k].0.contents(),
                            entries@[k].1.contents(),
                        ),
                    entry_from(all, 0, key@) == entry_from(all, i as int, key@),
                decreases entries@.len() - i,
            {
                assert(all[i as int] == (
                    entries@[i as int].0.contents(),
                    entries@[i as int].1.contents(),
                ));
                match &entries[i].0 {
                    Yaml::Text(s) => {
                        if same_text(s.as_str(), key) {
                            return Some(&entries[i].1);
                        }
                    },
                    _ => {},
                }
                i += 1;
            }
            None
        },
        _ => None,
    }
}

pub fn yaml_string<'a>(v: Option<&'a Yaml>) -> (r: Option<&'a str>)
    ensures
        opt_str(r) == text_of(opt_contents(v)),
{
    match v {
        Some(Yaml::Text(s)) => Some(s.as_str()),
        _ => None,
    }
}

pub fn yaml_bool(v: Option<&Yaml>) -> (r: Option<bool>)
    ensures
        r == bool_of(opt_contents(v)),
{
    match v {
        Some(Yaml::Bool(b)) => Some(*b),
        Some(Yaml::Text(s)) => {
            let t = s.as_str();
            if same_text(t, "true") || same_text(t, "on") || same_text(t, "yes") {
                Some(true)
            } else if same_text(t, "false") || same_text(t, "off") || same_text(t, "no") {
                Some(false)
            } else {
                None
            }
        },
        _ => None,
    }
}

pub fn yaml_i32(v: Option<&Yaml>) -> (r: Option<i32>)
    ensures
        smf::opt_i32(r) == int_of(opt_contents(v)),
{
    match v {
        Some(Yaml::Number { value, .. }) => match value {
            Some(n) => if i32::MIN as i64 <= *n && *n <= i32::MAX as i64 {
                Some(*n as i32)
            } else {
                None
            },
            None => None,
        },
        Some(Yaml::Text(s)) => {
            let c = chars_of(s.as_str());
            parse_smf_number(trimmed(&c))
        },
        _ => None,
    }
}

pub fn yaml_u8(v: Option<&Yaml>) -> (r: Option<u8>)
    ensures
        r == u8_of(opt_contents(v)),
{
    match yaml_i32(v) {
        Some(n) => if 0 <= n && n <= 255 {
            Some(n as u8)
        } else {
            None
        },
        None => None,
    }
}

pub fn yaml_u16(v: Option<&Yaml>) -> (r: Option<u16>)
    ensures
        r == u16_of(opt_contents(v)),
{
    match yaml_i32(v) {
        Some(n) => if 0 <= n && n <= 65535 {
            Some(n as u16)
        } else {
            None
        },
        None => None,
    }
}

pub fn yaml_key_string<'a>(v: &'a Yaml) -> (r: Option<&'a str>)
    ensures
        opt_str(r) == key_text(v.contents()),
{
    match v {
        Yaml::Text(s) => Some(s.as_str()),
        Yaml::Number { text, .. } => Some(text.as_str()),
        _ => None,
    }
}

} // verus!
