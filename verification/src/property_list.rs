//! Reading property lists, by the `plist` crate.
use vstd::prelude::*;

verus! {

#[verifier::external_type_specification]
#[verifier::external_body]
pub struct ExValue(plist::Value);

#[verifier::external_type_specification]
#[verifier::external_body]
pub struct ExError(plist::Error);

/// The entries of the dictionary `value` that hold a string, by their keys;
/// none where `value` is no dictionary.
pub uninterp spec fn string_entries(value: plist::Value) -> Map<Seq<char>, Seq<char>>;

/// The string entries of the dictionary that `plist::Value::from_reader_xml`
/// reads from `text`; nothing where it reads none.
pub uninterp spec fn xml_string_entries(text: Seq<char>) -> Option<Map<Seq<char>, Seq<char>>>;

/// The string entries of the dictionary that `plist::Value::from_reader`
/// reads from `bytes`; nothing where it reads none.
pub uninterp spec fn plist_string_entries(bytes: Seq<u8>) -> Option<Map<Seq<char>, Seq<char>>>;

/// Calls `plist::Value::from_reader_xml` on the bytes of `text`. The
/// contract names what was read and claims nothing of it, but that the same
/// text reads the same.
#[verifier::external_body]
pub(crate) fn parse_xml(text: &str) -> (res: Result<plist::Value, plist::Error>)
    ensures
        res is Ok <==> xml_string_entries(text@) is Some,
        res is Ok ==> xml_string_entries(text@) == Some(string_entries(res->Ok_0)),
{
    plist::Value::from_reader_xml(text.as_bytes())
}

/// Calls `plist::Value::from_reader` on `bytes`, in whichever encoding they
/// are. The contract names what was read and claims nothing of it, but that
/// the same bytes read the same.
#[verifier::external_body]
pub(crate) fn parse_bytes(bytes: &[u8]) -> (res: Result<plist::Value, plist::Error>)
    ensures
        res is Ok <==> plist_string_entries(bytes@) is Some,
        res is Ok ==> plist_string_entries(bytes@) == Some(string_entries(res->Ok_0)),
{
    plist::Value::from_reader(std::io::Cursor::new(bytes))
}

/// Looks `key` up by `plist::Value::as_dictionary`, `plist::Dictionary::get`
/// and `plist::Value::as_string`: the string that the dictionary `value`
/// holds under `key`, if it is a dictionary and holds one.
#[verifier::external_body]
pub(crate) fn string_entry(value: &plist::Value, key: &str) -> (res: Option<String>)
    ensures
        res is Some <==> string_entries(*value).dom().contains(key@),
        res is Some ==> res->0@ == string_entries(*value)[key@],
{
    match value.as_dictionary() {
        Some(dictionary) => match dictionary.get(key) {
            Some(entry) => match entry.as_string() {
                Some(text) => Some(text.to_string()),
                None => None,
            },
            None => None,
        },
        None => None,
    }
}

/// Renders a `plist::Error` by its `Display`. Nothing is claimed of the text.
#[verifier::external_body]
pub(crate) fn error_text(error: &plist::Error) -> (res: String) {
    format!("{}", error)
}

} // verus!
