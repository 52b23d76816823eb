//! Editing a new project's `moon.pkg.json` so that the compiled WebAssembly
//! module exports the functions the runtime calls.

use vstd::prelude::*;
use serde_json::Value;
use crate::text::digit_char;

verus! {

broadcast use vstd::string::group_string_axioms;

#[verifier::external_type_specification]
#[verifier::external_body]
pub struct ExJsonValue(serde_json::Value);

#[verifier::external_type_specification]
#[verifier::external_body]
#[verifier::reject_recursive_types(K)]
#[verifier::reject_recursive_types(V)]
pub struct ExJsonMap<K, V>(serde_json::Map<K, V>);

#[verifier::external_type_specification]
#[verifier::external_body]
pub struct ExJsonError(serde_json::Error);

/// The compact JSON text of a value, as serde_json's compact serializer
/// (`to_string`, or `Display` on `Value`) writes it. Only named: the value is
/// opaque here.
pub uninterp spec fn json_text(value: Value) -> Seq<char>;

/// The members of a JSON object (`serde_json::Map<String, Value>`): each
/// member name with the compact JSON text of its value.
pub uninterp spec fn json_members(object: serde_json::Map<String, Value>) -> Map<Seq<char>, Seq<char>>;

/// The text that `serde_json::to_string_pretty` writes for a JSON object:
/// its members in the map's order, indented by two spaces. Only named: the
/// printer is not written out here.
pub uninterp spec fn json_pretty_text(object: serde_json::Map<String, Value>) -> Seq<char>;

/// What `serde_json::from_str::<Option<Map<String, Value>>>` makes of `text`:
/// `None` when it refuses the text, `Some(None)` when the text is `null`, and
/// `Some(Some(members))` when it is an object, with each member name mapped
/// to the compact JSON text of its value (a later member of the same name
/// replaces an earlier one). The text is accepted when it holds one JSON
/// value, an object or `null`, with nothing but white space around it, nested
/// at most 128 deep and with numbers that fit the number types serde_json
/// parses into. Only named: the JSON grammar is not written out here.
pub uninterp spec fn json_object_members(text: Seq<char>) -> Option<Option<Map<Seq<char>, Seq<char>>>>;

/// The hexadecimal digit for `d`, which is below sixteen, in lower case.
pub open spec fn hex_digit(d: int) -> char {
    if d < 10 {
        digit_char(d as nat)
    } else if d == 10 {
        'a'
    } else if d == 11 {
        'b'
    } else if d == 12 {
        'c'
    } else if d == 13 {
        'd'
    } else if d == 14 {
        'e'
    } else {
        'f'
    }
}

/// How serde_json writes one character inside a JSON string: `"` and `\`
/// behind a backslash, the short escapes for backspace, tab, line feed, form
/// feed and carriage return, `\u00XX` for the other control characters below
/// 0x20, and every other character as it is.
pub open spec fn escaped_char(c: char) -> Seq<char> {
    if c == '"' {
        seq!['\\', '"']
    } else if c == '\\' {
        seq!['\\', '\\']
    } else if c == '\u{8}' {
        seq!['\\', 'b']
    } else if c == '\t' {
        seq!['\\', 't']
    } else if c == '\n' {
        seq!['\\', 'n']
    } else if c == '\u{c}' {
        seq!['\\', 'f']
    } else if c == '\r' {
        seq!['\\', 'r']
    } else if (c as int) < 0x20 {
        seq!['\\', 'u', '0', '0', hex_digit(c as int / 16), hex_digit(c as int % 16)]
    } else {
        seq![c]
    }
}

/// The characters of `s`, each written as inside a JSON string.
pub open spec fn escaped(s: Seq<char>) -> Seq<char>
    decreases s.len(),
{
    if s.len() == 0 {
        Seq::empty()
    } else {
        escaped(s.drop_last()) + escaped_char(s.last())
    }
}

/// `s` as a JSON string: quoted, with its characters escaped.
pub open spec fn json_quoted(s: Seq<char>) -> Seq<char> {
    seq!['"'] + escaped(s) + seq!['"']
}

/// The strings `items` as JSON strings, separated by commas.
pub open spec fn json_string_items(items: Seq<Seq<char>>) -> Seq<char>
    decreases items.len(),
{
    if items.len() == 0 {
        Seq::empty()
    } else if items.len() == 1 {
        json_quoted(items[0])
    } else {
        json_string_items(items.drop_last()) + seq![','] + json_quoted(items.last())
    }
}

/// The compact JSON text of the array of the strings `items`.
pub open spec fn json_string_array(items: Seq<Seq<char>>) -> Seq<char> {
    seq!['['] + json_string_items(items) + seq![']']
}

/// The compact JSON text of the object with the single member `key`, whose
/// value has the compact text `value`.
pub open spec fn json_single_member(key: Seq<char>, value: Seq<char>) -> Seq<char> {
    seq!['{'] + json_quoted(key) + seq![':'] + value + seq!['}']
}

/// `serde_json::from_str::<Option<Map<String, Value>>>`: `None` for `null`,
/// the object otherwise; its members are those the name above gives.
#[verifier::external_body]
fn parse_optional_object(text: &str) -> (r: Result<Option<serde_json::Map<String, Value>>, serde_json::Error>)
    ensures
        r is Err <==> json_object_members(text@) is None,
        r matches Ok(None) <==> json_object_members(text@) == Some(
            None::<Map<Seq<char>, Seq<char>>>,
        ),
        r matches Ok(Some(object)) ==> json_object_members(text@) == Some(
            Some(json_members(object)),
        ),
{
    serde_json::from_str::<Option<serde_json::Map<String, Value>>>(text)
}

/// The members of an object that has none.
pub open spec fn no_members() -> Map<Seq<char>, Seq<char>> {
    Map::empty()
}

/// `serde_json::Map::new`: an object without members.
#[verifier::external_body]
fn new_object() -> (r: serde_json::Map<String, Value>)
    ensures
        json_members(r) == no_members(),
{
    serde_json::Map::new()
}

/// `Value::from(Vec<String>)`: the JSON array of the given strings.
#[verifier::external_body]
fn string_array(items: Vec<String>) -> (r: Value)
    ensures
        json_text(r) == json_string_array(items.deep_view()),
{
    Value::from(items)
}

/// `Value::from_iter` over one key/value pair: the JSON object with that
/// single member.
#[verifier::external_body]
fn single_member_object(key: String, value: Value) -> (r: Value)
    ensures
        json_text(r) == json_single_member(key@, json_text(value)),
{
    Value::from_iter([(key, value)])
}

/// `serde_json::Map::insert`: sets the member `key` to `value`, replacing an
/// earlier member of that name; the other members stay as they are.
#[verifier::external_body]
fn insert_member(object: &mut serde_json::Map<String, Value>, key: String, value: Value)
    ensures
        json_members(*final(object)) == json_members(*old(object)).insert(key@, json_text(value)),
{
    object.insert(key, value);
}

/// `serde_json::to_string_pretty` on an object. Serialization fails only for
/// a `Serialize` impl that errs or for a map with keys that are not strings,
/// neither of which a `Map<String, Value>` has, so it succeeds.
#[verifier::external_body]
fn to_pretty_text(object: &serde_json::Map<String, Value>) -> (r: Result<String, serde_json::Error>)
    ensures
        r is Ok,
        r matches Ok(text) ==> text@ == json_pretty_text(*object),
{
    serde_json::to_string_pretty(object)
}

/// A string that JSON writes as it is: no quote, backslash or control character.
pub open spec fn is_plain_json_text(s: Seq<char>) -> bool {
    forall|i: int| 0 <= i < s.len() ==> (#[trigger] s[i] as int) >= 0x20 && s[i] != '"' && s[i] != '\\'
}

/// A string without quote, backslash or control characters is written inside
/// a JSON string as it is.
pub proof fn lemma_plain_text_unescaped(s: Seq<char>)
    requires
        is_plain_json_text(s),
    ensures
        escaped(s) == s,
    decreases s.len(),
{
    if s.len() > 0 {
        lemma_plain_text_unescaped(s.drop_last());
        assert(s.drop_last() + seq![s.last()] =~= s);
    }
}

/// The functions that the compiled module exports for the runtime.
pub fn wasm_exports() -> (r: Vec<String>)
    ensures
        r.deep_view() == seq!["h_rs"@, "h_rd"@, "h_re"@],
{
    let mut r: Vec<String> = Vec::new();
    r.push("h_rs".to_string());
    r.push("h_rd".to_string());
    r.push("h_re".to_string());
    assert(r.deep_view() =~= seq!["h_rs"@, "h_rd"@, "h_re"@]);
    r
}

/// Why `moon.pkg.json` could not be edited.
#[derive(Debug)]
pub enum ManifestError {
    /// The file is not one JSON object (or `null`); serde_json's error says
    /// where it went wrong.
    InvalidJson(serde_json::Error),
}

/// `link`, the member that tells moon how to link the module.
pub open spec fn link_key() -> Seq<char> {
    seq!['l', 'i', 'n', 'k']
}

/// The compact JSON text that the member `link` is given.
pub open spec fn wasm_link_text() -> Seq<char> {
    "{\"wasm\":{\"exports\":[\"h_rs\",\"h_rd\",\"h_re\"]}}"@
}

/// The members of the object that `text` holds; `null` stands for an object
/// without members.
pub open spec fn manifest_members(text: Seq<char>) -> Map<Seq<char>, Seq<char>> {
    match json_object_members(text) {
        Some(Some(members)) => members,
        _ => no_members(),
    }
}

/// Reads the text of `moon.pkg.json` as a JSON object; `null` is read as an
/// object without members.
pub fn parse_manifest(text: &str) -> (r: Result<serde_json::Map<String, Value>, ManifestError>)
    ensures
        r is Err <==> json_object_members(text@) is None,
        r matches Ok(object) ==> json_members(object) == manifest_members(text@),
{
    match parse_optional_object(text) {
        Ok(Some(object)) => Ok(object),
        Ok(None) => Ok(new_object()),
        Err(e) => Err(ManifestError::InvalidJson(e)),
    }
}

proof fn lemma_plain_quoted(s: Seq<char>)
    requires
        is_plain_json_text(s),
    ensures
        json_quoted(s) == seq!['"'] + s + seq!['"'],
{
    lemma_plain_text_unescaped(s);
}

/// Sets the member `link` of the object to
/// `{"wasm":{"exports":["h_rs","h_rd","h_re"]}}`, replacing an earlier
/// `link`; the other members stay as they are.
pub fn set_wasm_link(object: &mut serde_json::Map<String, Value>)
    ensures
        json_members(*final(object)) == json_members(*old(object)).insert(
            link_key(),
            wasm_link_text(),
        ),
{
    let names = wasm_exports();
    let exports = string_array(names);
    let exports_key = "exports";
    let wasm_key = "wasm";
    let key = "link";
    let wasm = single_member_object(exports_key.to_string(), exports);
    let link_value = single_member_object(wasm_key.to_string(), wasm);
    proof {
        reveal_strlit("link");
        reveal_strlit("wasm");
        reveal_strlit("exports");
        reveal_strlit("h_rs");
        reveal_strlit("h_rd");
        reveal_strlit("h_re");
        reveal_strlit("{\"wasm\":{\"exports\":[\"h_rs\",\"h_rd\",\"h_re\"]}}");
        lemma_plain_quoted("wasm"@);
        lemma_plain_quoted("exports"@);
        lemma_plain_quoted("h_rs"@);
        lemma_plain_quoted("h_rd"@);
        lemma_plain_quoted("h_re"@);
        let items = seq!["h_rs"@, "h_rd"@, "h_re"@];
        reveal_with_fuel(json_string_items, 3);
        assert(items.drop_last().drop_last() =~= seq!["h_rs"@]);
        assert(items.drop_last() =~= seq!["h_rs"@, "h_rd"@]);
        assert(json_string_items(items) =~= seq!['"', 'h', '_', 'r', 's', '"', ',', '"', 'h', '_', 'r', 'd', '"', ',', '"', 'h', '_', 'r', 'e', '"']);
        assert(json_text(link_value) =~= wasm_link_text());
    }
    assert(key@ =~= link_key());
    insert_member(object, key.to_string(), link_value);
}

/// The object's text as `moon.pkg.json` holds it: pretty-printed JSON.
pub fn manifest_text(object: &serde_json::Map<String, Value>) -> (r: String)
    ensures
        r@ == json_pretty_text(*object),
{
    match to_pretty_text(object) {
        Ok(text) => text,
        Err(_) => {
            assert(false);
            String::new()
        },
    }
}

/// The text of `moon.pkg.json` with its member `link` set to
/// `{"wasm":{"exports":["h_rs","h_rd","h_re"]}}`, pretty-printed; the other
/// members keep their values. A file holding `null` is taken as an object
/// without members; every text that is an object or `null` is edited, any
/// other is refused.
pub fn add_wasm_link(manifest: &str) -> (r: Result<String, ManifestError>)
    ensures
        r is Err <==> json_object_members(manifest@) is None,
        r matches Ok(text) ==> exists|object: serde_json::Map<String, Value>|
            #[trigger] json_pretty_text(object) == text@ && json_members(object)
                == manifest_members(manifest@).insert(link_key(), wasm_link_text()),
{
    let mut object = match parse_manifest(manifest) {
        Ok(object) => object,
        Err(e) => {
            return Err(e);
        },
    };
    set_wasm_link(&mut object);
    let text = manifest_text(&object);
    assert(json_pretty_text(object) == text@);
    Ok(text)
}

} // verus!
