//! JSON texts of the request bodies, as serde_json writes them, and the parse
//! of the sheet that the sheet service sends back.

use vstd::prelude::*;
use crate::text::digit_char;

verus! {

/// A hexadecimal digit, in lower case.
pub open spec fn hex_digit(n: nat) -> char {
    if n < 10 {
        digit_char(n)
    } else if n == 10 {
        'a'
    } else if n == 11 {
        'b'
    } else if n == 12 {
        'c'
    } else if n == 13 {
        'd'
    } else if n == 14 {
        'e'
    } else {
        'f'
    }
}

/// How serde_json writes one character inside a string literal: '"' and '\'
/// behind a backslash; backspace, tab, line feed, form feed and carriage
/// return as "\b", "\t", "\n", "\f" and "\r"; the other characters below
/// U+0020 as "\u00" and two lower-case hexadecimal digits; every other
/// character as itself.
pub open spec fn json_escape(c: char) -> Seq<char> {
    let u = c as u32;
    if c == '"' {
        seq!['\\', '"']
    } else if c == '\\' {
        seq!['\\', '\\']
    } else if u == 0x08 {
        seq!['\\', 'b']
    } else if u == 0x09 {
        seq!['\\', 't']
    } else if u == 0x0a {
        seq!['\\', 'n']
    } else if u == 0x0c {
        seq!['\\', 'f']
    } else if u == 0x0d {
        seq!['\\', 'r']
    } else if u < 0x20 {
        seq!['\\', 'u', '0', '0', hex_digit((u / 16) as nat), hex_digit((u % 16) as nat)]
    } else {
        seq![c]
    }
}

/// The characters of a text, each as serde_json writes it in a literal.
pub open spec fn json_escaped(s: Seq<char>) -> Seq<char>
    decreases s.len(),
{
    if s.len() == 0 {
        Seq::empty()
    } else {
        json_escaped(s.drop_last()) + json_escape(s.last())
    }
}

/// The JSON string literal that serde_json writes for the text `s`: the
/// escaped text between double quotes.
pub open spec fn json_str(s: Seq<char>) -> Seq<char> {
    seq!['"'] + json_escaped(s) + seq!['"']
}

/// The rows of a sheet that serde_json reads from the JSON text `text` as a
/// `Vec<Vec<String>>`, or `None` where serde_json refuses the text.
pub uninterp spec fn parsed_sheet(text: Seq<char>) -> Option<Seq<Seq<Seq<char>>>>;

/// The items joined by commas.
pub open spec fn joined(items: Seq<Seq<char>>) -> Seq<char>
    decreases items.len(),
{
    if items.len() == 0 {
        Seq::empty()
    } else if items.len() == 1 {
        items[0]
    } else {
        joined(items.drop_last()) + seq![','] + items.last()
    }
}

/// A compact JSON array of already written JSON values.
pub open spec fn json_array(items: Seq<Seq<char>>) -> Seq<char> {
    seq!['['] + joined(items) + seq![']']
}

/// The JSON literals of a sequence of texts.
pub open spec fn json_strs(strs: Seq<Seq<char>>) -> Seq<Seq<char>> {
    strs.map_values(|s: Seq<char>| json_str(s))
}

/// The compact JSON array of strings, as serde_json writes a `Vec<String>`.
pub open spec fn json_string_array(strs: Seq<Seq<char>>) -> Seq<char> {
    json_array(json_strs(strs))
}

/// The compact JSON array of arrays of strings, as serde_json writes a
/// `Vec<Vec<String>>`.
pub open spec fn json_rows(rows: Seq<Seq<Seq<char>>>) -> Seq<char> {
    json_array(rows.map_values(|r: Seq<Seq<char>>| json_string_array(r)))
}

/// The body that writes rows over a range: an object with the fields "data"
/// (the rows) and "range", written compactly, keys in alphabetical order.
pub open spec fn update_json_text(rows: Seq<Seq<Seq<char>>>, range: Seq<char>) -> Seq<char> {
    "{\"data\":"@ + json_rows(rows) + ",\"range\":"@ + json_str(range) + "}"@
}

/// The body of a message: an object with the fields "message" and "phone",
/// written compactly, keys in alphabetical order.
pub open spec fn message_json_text(phone: Seq<char>, message: Seq<char>) -> Seq<char> {
    "{\"message\":"@ + json_str(message) + ",\"phone\":"@ + json_str(phone) + "}"@
}

/// Serializes rows with `serde_json::to_string` on the `Vec<Vec<String>>`.
/// The contract says that the result is the compact array of arrays of
/// string literals that serde_json's serializer writes (`begin_array`,
/// `begin_array_value` with ',' between values, `end_array`, and the literals
/// of `format_escaped_str`). serde_json writes into a `Vec<u8>`, which never
/// fails, and strings and sequences have no other error, so the `Err` arm is
/// not taken.
#[verifier::external_body]
fn serialize_rows(rows: &Vec<Vec<String>>) -> (res: String)
    ensures
        res@ == json_rows(rows.deep_view()),
{
    match serde_json::to_string(rows) {
        Ok(t) => t,
        Err(_) => String::new(),
    }
}

/// Writes the object {"range": range, "data": rows} with `Value::to_string`
/// (serde_json's `Display` for `Value`, which writes compactly). serde_json's
/// `Map` is a `BTreeMap` unless its feature `preserve_order` is on, which this
/// crate does not turn on, so the keys come out in alphabetical order, as the
/// contract says.
#[verifier::external_body]
fn serialize_update(rows: &Vec<Vec<String>>, range: &str) -> (res: String)
    ensures
        res@ == update_json_text(rows.deep_view(), range@),
{
    let mut object = serde_json::Map::new();
    object.insert("range".to_string(), serde_json::Value::from(range));
    object.insert("data".to_string(), serde_json::Value::from(rows.clone()));
    serde_json::Value::Object(object).to_string()
}

/// Writes the object {"phone": phone, "message": message} with
/// `serde_json::to_string`. As for `serialize_update`, the keys come out in
/// alphabetical order, and writing a `Value` of strings into a `Vec<u8>` has
/// no error, so the `Err` arm is not taken.
#[verifier::external_body]
fn serialize_message(phone: &str, message: &str) -> (res: String)
    ensures
        res@ == message_json_text(phone@, message@),
{
    let mut object = serde_json::Map::new();
    object.insert("phone".to_string(), serde_json::Value::from(phone));
    object.insert("message".to_string(), serde_json::Value::from(message));
    match serde_json::to_string(&serde_json::Value::Object(object)) {
        Ok(t) => t,
        Err(_) => String::new(),
    }
}

/// The JSON text of the rows of a sheet.
pub fn rows_json(rows: &Vec<Vec<String>>) -> (res: String)
    ensures
        res@ == json_rows(rows.deep_view()),
{
    serialize_rows(rows)
}

/// The JSON text that writes `rows` over the range `range`.
pub fn update_json(rows: &Vec<Vec<String>>, range: &str) -> (res: String)
    ensures
        res@ == update_json_text(rows.deep_view(), range@),
{
    serialize_update(rows, range)
}

/// The JSON text that sends `message` to `phone`.
pub fn message_json(phone: &str, message: &str) -> (res: String)
    ensures
        res@ == message_json_text(phone@, message@),
{
    serialize_message(phone, message)
}

/// serde_json's error type, carried through opaquely.
#[verifier::external_type_specification]
#[verifier::external_body]
pub struct ExJsonError(serde_json::Error);

/// Reads a sheet with `serde_json::from_str::<Vec<Vec<String>>>`. The contract
/// says that it succeeds exactly where `parsed_sheet` is `Some`, and then gives
/// those rows; the error is serde_json's.
#[verifier::external_body]
fn parse_rows(text: &str) -> (res: Result<Vec<Vec<String>>, serde_json::Error>)
    ensures
        res is Ok <==> parsed_sheet(text@) is Some,
        res matches Ok(rows) ==> rows.deep_view() == parsed_sheet(text@)->0,
{
    serde_json::from_str::<Vec<Vec<String>>>(text)
}

/// The rows of the JSON text of a sheet, or serde_json's error where the text
/// is not a JSON array of arrays of strings.
pub fn parse_sheet(text: &str) -> (res: Result<Vec<Vec<String>>, serde_json::Error>)
    ensures
        res is Ok <==> parsed_sheet(text@) is Some,
        res matches Ok(rows) ==> rows.deep_view() == parsed_sheet(text@)->0,
{
    parse_rows(text)
}

} // verus!
