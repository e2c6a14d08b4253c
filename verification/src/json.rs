//! Reading JSON. The text is searched by the `gjson` crate; this module holds
//! what a search gives as plain values, and says which paths it hands over.

use vstd::prelude::*;
use vstd::string::*;

verus! {

/// The kind of a JSON value.
#[derive(Clone, Copy, Debug, PartialEq, Eq, Structural)]
pub enum Kind {
    Null,
    False,
    Number,
    Text,
    True,
    Array,
    Object,
}

/// What a search of a JSON text found at a path.
#[derive(Debug, PartialEq, Eq)]
pub struct Field {
    /// Whether the path led to a value.
    pub exists: bool,
    /// The kind of the value; `Null` where there is none.
    pub kind: Kind,
    /// The value as text: a string without its quotes and escapes, anything
    /// else as it is written in the JSON.
    pub text: String,
    /// The value as a whole number.
    pub whole: i32,
}

/// A [`Field`] in contracts.
pub struct FieldView {
    pub exists: bool,
    pub kind: Kind,
    pub text: Seq<char>,
    pub whole: i32,
}

impl View for Field {
    type V = FieldView;

    open spec fn view(&self) -> FieldView {
        FieldView { exists: self.exists, kind: self.kind, text: self.text@, whole: self.whole }
    }
}

/// What `gjson::get` finds in `json` at `path`, with the text that its
/// `str` gives read as UTF-8.
pub uninterp spec fn json_get(json: Seq<char>, path: Seq<char>) -> FieldView;

/// Whether `gjson::valid` accepts `json`.
pub uninterp spec fn json_valid(json: Seq<char>) -> bool;

/// A character of a key: an ASCII letter or digit, or `_`.
pub open spec fn key_char(c: char) -> bool {
    ('a' <= c && c <= 'z') || ('A' <= c && c <= 'Z') || ('0' <= c && c <= '9') || c == '_'
}

/// A name made of key characters only: the name of one field.
pub open spec fn key_name(name: Seq<char>) -> bool {
    forall|i: int| 0 <= i < name.len() ==> key_char(#[trigger] name[i])
}

/// A path made of keys and indices with the separator `.` between them.
pub open spec fn key_path(path: Seq<char>) -> bool {
    forall|i: int| 0 <= i < path.len() ==> key_char(#[trigger] path[i]) || path[i] == '.'
}

/// A key path with the counter `#` for its last component: the path of the
/// number of elements of an array.
pub open spec fn count_path(path: Seq<char>) -> bool {
    &&& path.len() >= 2
    &&& path[path.len() - 2] == '.'
    &&& path[path.len() - 1] == '#'
    &&& key_path(path.subrange(0, path.len() - 2))
}

/// A path that this crate hands to `gjson`: a key path or a count path. Such
/// a path has none of the characters by which `gjson` tells a query, a
/// modifier, a wildcard or an escape, and collects no values into an array.
pub open spec fn plain_path(path: Seq<char>) -> bool {
    key_path(path) || count_path(path)
}

/// A field that is not there.
pub open spec fn no_field() -> FieldView {
    FieldView { exists: false, kind: Kind::Null, text: Seq::empty(), whole: 0 }
}

/// The field that a search for `name` gives: what `gjson` finds where the
/// name is made of key characters, and nothing for any other name.
pub open spec fn field_named(json: Seq<char>, name: Seq<char>) -> FieldView {
    if key_name(name) {
        json_get(json, name)
    } else {
        no_field()
    }
}

/// Calls `gjson::get` and copies out of the `gjson::Value` that it returns
/// what `exists`, `kind`, `str` and `i32` give. The bytes of `str` are taken
/// over by `String::from_utf8_lossy`: on text that is no JSON `gjson` can
/// cut a character in two, and what is no UTF-8 is replaced there. The
/// contract claims that the call returns for every text, JSON or not, and
/// every plain path, and that what comes out depends on these two texts
/// alone. Other paths are left out: among them are some on which `gjson`
/// panics.
#[verifier::external_body]
pub(crate) fn lookup(json: &str, path: &str) -> (field: Field)
    requires
        plain_path(path@),
    ensures
        field@ == json_get(json@, path@),
{
    let value = gjson::get(json, path);
    let kind = match value.kind() {
        gjson::Kind::Null => Kind::Null,
        gjson::Kind::False => Kind::False,
        gjson::Kind::Number => Kind::Number,
        gjson::Kind::String => Kind::Text,
        gjson::Kind::True => Kind::True,
        gjson::Kind::Array => Kind::Array,
        gjson::Kind::Object => Kind::Object,
    };
    let text = String::from_utf8_lossy(value.str().as_bytes()).into_owned();
    Field { exists: value.exists(), kind, text, whole: value.i32() }
}

/// Calls `gjson::valid`. The contract claims that the call returns for every
/// text, and that its answer depends on the text alone. `gjson::valid`
/// descends once for each level of nesting, so it returns as far as the
/// stack holds.
#[verifier::external_body]
pub(crate) fn is_valid(json: &str) -> (valid: bool)
    ensures
        valid == json_valid(json@),
{
    gjson::valid(json)
}

fn is_key_char(c: char) -> (key: bool)
    ensures
        key == key_char(c),
{
    ('a' <= c && c <= 'z') || ('A' <= c && c <= 'Z') || ('0' <= c && c <= '9') || c == '_'
}

/// Whether `name` is made of key characters only.
pub fn is_key_name(name: &str) -> (key: bool)
    ensures
        key == key_name(name@),
{
    let n = name.unicode_len();
    let mut i: usize = 0;
    while i < n
        invariant
            n == name@.len(),
            i <= n,
            forall|j: int| 0 <= j < i ==> key_char(#[trigger] name@[j]),
        decreases n - i,
    {
        if !is_key_char(name.get_char(i)) {
            return false;
        }
        i += 1;
    }
    true
}

/// A field that is not there.
pub fn absent() -> (field: Field)
    ensures
        field@ == no_field(),
{
    Field { exists: false, kind: Kind::Null, text: String::new(), whole: 0 }
}

/// Searches `json` for the field `name`; a name that is not made of key
/// characters names no field.
pub fn find_field(json: &str, name: &str) -> (field: Field)
    ensures
        field@ == field_named(json@, name@),
{
    if is_key_name(name) {
        lookup(json, name)
    } else {
        absent()
    }
}

} // verus!
