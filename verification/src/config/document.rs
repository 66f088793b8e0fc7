//! The configuration file as a JSON document: the text of a fresh file, and
//! the text of a file after the startup preference was written into it.
//!
//! Reading and writing JSON is the work of `serde_json`. What this module
//! states of it is not proved here; each such statement stands above the
//! function that carries it.

use vstd::prelude::*;

verus! {

/// `serde_json::Value`, a JSON value. Nothing of its inside is known here.
#[verifier::external_type_specification]
#[verifier::external_body]
pub struct ExJsonValue(serde_json::Value);

/// `serde_json::Error`, why `serde_json` could not read a text.
#[verifier::external_type_specification]
#[verifier::external_body]
pub struct ExJsonError(serde_json::Error);

/// Whether a JSON value is an object.
pub uninterp spec fn json_is_object(doc: serde_json::Value) -> bool;

/// The members of a JSON object: each name with the JSON text of its value.
pub uninterp spec fn json_members(doc: serde_json::Value) -> Map<Seq<char>, Seq<char>>;

/// What `serde_json::from_slice` reads from the bytes: nothing where they
/// are no JSON text, else whether the value is an object, and its members.
pub uninterp spec fn json_parse(bytes: Seq<u8>) -> Option<(bool, Map<Seq<char>, Seq<char>>)>;

/// The text that `serde_json::to_string_pretty` gives for the object with
/// these members.
pub uninterp spec fn json_pretty_object(members: Map<Seq<char>, Seq<char>>) -> Seq<char>;

/// The members of the object that has none.
pub open spec fn no_members() -> Map<Seq<char>, Seq<char>> {
    Map::empty()
}

/// The JSON text of a truth value.
pub open spec fn bool_text(value: bool) -> Seq<char> {
    if value {
        "true"@
    } else {
        "false"@
    }
}

/// The JSON text of the object without members.
pub open spec fn empty_object_text() -> Seq<char> {
    "{}"@
}

/// Calls `serde_json::from_slice` for a `Value`. Claimed: the outcome
/// depends on the bytes alone.
#[verifier::external_body]
fn parse_document(bytes: &[u8]) -> (r: Result<serde_json::Value, serde_json::Error>)
    ensures
        match r {
            Ok(doc) => json_parse(bytes@) == Some((json_is_object(doc), json_members(doc))),
            Err(_) => json_parse(bytes@) is None,
        },
{
    serde_json::from_slice::<serde_json::Value>(bytes)
}

/// Makes `Value::Object` of `Map::new()`. Claimed: it is an object and has
/// no member.
#[verifier::external_body]
fn empty_document() -> (r: serde_json::Value)
    ensures
        json_is_object(r),
        json_members(r) == no_members(),
{
    serde_json::Value::Object(serde_json::Map::new())
}

/// Calls `Value::is_object`.
#[verifier::external_body]
fn is_object(doc: &serde_json::Value) -> (r: bool)
    ensures
        r == json_is_object(*doc),
{
    doc.is_object()
}

/// Calls `Map::insert` on the members of an object, with `Value::Bool`.
/// Claimed: the member `key` is then the truth value, the other members
/// stay.
#[verifier::external_body]
fn set_bool(doc: &mut serde_json::Value, key: &str, value: bool)
    requires
        json_is_object(*old(doc)),
    ensures
        json_is_object(*final(doc)),
        json_members(*final(doc)) == json_members(*old(doc)).insert(key@, bool_text(value)),
{
    if let serde_json::Value::Object(members) = doc {
        members.insert(key.to_string(), serde_json::Value::Bool(value));
    }
}

/// Calls `Map::insert` on the members of an object, with an object that
/// has no member. Claimed: the member `key` is then `{}`, the other
/// members stay.
#[verifier::external_body]
fn set_empty_object(doc: &mut serde_json::Value, key: &str)
    requires
        json_is_object(*old(doc)),
    ensures
        json_is_object(*final(doc)),
        json_members(*final(doc)) == json_members(*old(doc)).insert(key@, empty_object_text()),
{
    if let serde_json::Value::Object(members) = doc {
        members.insert(key.to_string(), serde_json::Value::Object(serde_json::Map::new()));
    }
}

/// Calls `serde_json::to_string_pretty` on an object. Claimed: printing
/// succeeds, and the text depends on the members alone. A `Value` is
/// printed into a vector of bytes, which takes every write; its keys are
/// strings and its numbers are finite, so no step of the printer fails.
#[verifier::external_body]
fn pretty_text(doc: &serde_json::Value) -> (r: Result<String, serde_json::Error>)
    requires
        json_is_object(*doc),
    ensures
        r is Ok,
        r matches Ok(text) ==> text@ == json_pretty_object(json_members(*doc)),
{
    serde_json::to_string_pretty(doc)
}

/// Why no text of the configuration file could be made.
#[derive(Debug, Clone, Copy, PartialEq, Eq, Structural)]
pub enum DocumentError {
    /// The file holds no JSON text.
    Parse,
    /// The file holds JSON, but no object.
    NotAnObject,
}

/// The name of the member that holds the startup preference.
pub open spec fn startup_key() -> Seq<char> {
    "start_with_windows"@
}

/// The name of the member that holds the global presets.
pub open spec fn inputs_key() -> Seq<char> {
    "inputs"@
}

/// The members of the configuration file after the startup preference was
/// written into it. A file that is not there counts as an object without
/// members; a file that holds anything but an object is left alone.
pub open spec fn patched_members(existing: Option<Seq<u8>>, enabled: bool) -> Result<
    Map<Seq<char>, Seq<char>>,
    DocumentError,
> {
    match existing {
        None => Ok(no_members().insert(startup_key(), bool_text(enabled))),
        Some(bytes) => match json_parse(bytes) {
            None => Err(DocumentError::Parse),
            Some((is_object, members)) => if is_object {
                Ok(members.insert(startup_key(), bool_text(enabled)))
            } else {
                Err(DocumentError::NotAnObject)
            },
        },
    }
}

/// The members that the file holds now: none where the file is not there.
pub open spec fn present_members(existing: Option<Seq<u8>>) -> Map<Seq<char>, Seq<char>> {
    match existing {
        None => no_members(),
        Some(bytes) => match json_parse(bytes) {
            Some((_, members)) => members,
            None => no_members(),
        },
    }
}

/// Writing the startup preference changes that member and no other: the
/// document then holds the preference as written, and every other member
/// as before.
pub proof fn lemma_patch_sets_only_the_preference(existing: Option<Seq<u8>>, enabled: bool)
    ensures
        patched_members(existing, enabled) matches Ok(members) ==> {
            &&& members.contains_key(startup_key())
            &&& members[startup_key()] == bool_text(enabled)
            &&& forall|name: Seq<char>|
                name != startup_key() ==> (members.contains_key(name) <==> present_members(
                    existing,
                ).contains_key(name))
            &&& forall|name: Seq<char>|
                name != startup_key() && members.contains_key(name) ==> members[name]
                    == present_members(existing)[name]
        },
{
}

/// The members of a fresh configuration file: startup off, no presets.
pub open spec fn default_members() -> Map<Seq<char>, Seq<char>> {
    no_members().insert(startup_key(), bool_text(false)).insert(inputs_key(), empty_object_text())
}

/// The text of the file for an object with these members: the object
/// printed for people to read, and a line end.
pub open spec fn document_text(members: Map<Seq<char>, Seq<char>>) -> Seq<char> {
    json_pretty_object(members).push('\n')
}

/// The text of the file from the printed document: a line end is put
/// after it.
fn finish_document(printed: String) -> (r: String)
    ensures
        r@ == printed@.push('\n'),
{
    let mut text = printed;
    text.push('\n');
    text
}

/// The text of the configuration file with the startup preference
/// `enabled` written into it. `existing` is what the file holds now, if it
/// is there. The other members stay as they are.
///
/// A file that is not there, or that holds an object, always gives a text.
/// A file that holds no JSON, or JSON that is no object, gives none.
pub fn patch_start_with_windows(existing: Option<&[u8]>, enabled: bool) -> (r: Result<
    String,
    DocumentError,
>)
    ensures
        match patched_members(
            match existing {
                Some(bytes) => Some(bytes@),
                None => None,
            },
            enabled,
        ) {
            Ok(members) => r matches Ok(text) && text@ == document_text(members),
            Err(e) => r == Err::<String, DocumentError>(e),
        },
{
    let mut doc = match existing {
        None => empty_document(),
        Some(bytes) => match parse_document(bytes) {
            Ok(doc) => doc,
            Err(_) => {
                return Err(DocumentError::Parse);
            },
        },
    };
    if !is_object(&doc) {
        return Err(DocumentError::NotAnObject);
    }
    set_bool(&mut doc, "start_with_windows", enabled);
    Ok(finish_document(pretty_text(&doc).unwrap()))
}

/// The text of a fresh configuration file.
pub fn default_config_text() -> (r: String)
    ensures
        r@ == document_text(default_members()),
{
    let mut doc = empty_document();
    set_bool(&mut doc, "start_with_windows", false);
    set_empty_object(&mut doc, "inputs");
    finish_document(pretty_text(&doc).unwrap())
}

} // verus!
