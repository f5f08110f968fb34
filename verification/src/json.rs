//! Reading a JSON command object, by `serde_json_core`.
//!
//! A command object has a single member, whose key names the command and whose
//! value is a text, a pair of numbers or a flag. Each kind of value is read by a
//! call of its own; a repeated key is told apart from a single member by reading
//! the object once more as an externally tagged value.
use heapless::LinearMap;
use vstd::prelude::*;

verus! {

/// `heapless`'s fixed-capacity string, carried as an opaque type.
#[verifier::external_type_specification]
#[verifier::external_body]
pub struct ExString<const N: usize>(heapless::String<N>);

/// The text that a fixed-capacity string holds.
pub uninterp spec fn text_of(string: heapless::String<16>) -> Seq<char>;

/// Borrows the text of a string by `heapless::String::as_str`. Trusted: this is
/// the text that the string holds.
#[verifier::external_body]
pub(crate) fn borrow_text<'a>(string: &'a heapless::String<16>) -> (text: &'a str)
    ensures
        text@ == text_of(*string),
{
    string.as_str()
}

/// The member of the JSON object in `body`, where it reads as an object with one
/// key whose values are texts of at most 16 bytes; of a repeated key, the last
/// value.
pub uninterp spec fn json_text(body: Seq<u8>) -> Option<(Seq<char>, Seq<char>)>;

/// The same with pairs of a `u8` and a `u16` for values.
pub uninterp spec fn json_pair(body: Seq<u8>) -> Option<(Seq<char>, (u8, u16))>;

/// The same with `true` and `false` for values.
pub uninterp spec fn json_flag(body: Seq<u8>) -> Option<(Seq<char>, bool)>;

/// Whether `body` reads as an externally tagged value: an object with exactly one
/// member, whatever its value.
pub uninterp spec fn json_single(body: Seq<u8>) -> bool;

/// A text member, by the texts it holds.
pub open spec fn text_member(member: Option<(&str, heapless::String<16>)>) -> Option<
    (Seq<char>, Seq<char>),
> {
    match member {
        Some((key, value)) => Some((key@, text_of(value))),
        None => None,
    }
}

/// A pair member, by the text of its key.
pub open spec fn pair_member(member: Option<(&str, (u8, u16))>) -> Option<(Seq<char>, (u8, u16))> {
    match member {
        Some((key, value)) => Some((key@, value)),
        None => None,
    }
}

/// A flag member, by the text of its key.
pub open spec fn flag_member(member: Option<(&str, bool)>) -> Option<(Seq<char>, bool)> {
    match member {
        Some((key, value)) => Some((key@, value)),
        None => None,
    }
}

/// Reads `body` by `serde_json_core::from_slice` as a map of capacity one from
/// keys to texts. Trusted: the member, or the failure to read one, depends on the
/// bytes alone, and an empty body holds none.
#[verifier::external_body]
pub(crate) fn read_text<'a>(body: &'a [u8]) -> (member: Option<(&'a str, heapless::String<16>)>)
    ensures
        text_member(member) == json_text(body@),
        body@.len() == 0 ==> member is None,
{
    let (object, _): (LinearMap<&'a str, heapless::String<16>, 1>, usize) =
        serde_json_core::from_slice(body).ok()?;
    let (key, value) = object.iter().next()?;
    Some((*key, value.clone()))
}

/// Reads `body` by `serde_json_core::from_slice` as a map of capacity one from
/// keys to pairs of numbers. Trusted: the member, or the failure to read one,
/// depends on the bytes alone, and an empty body holds none.
#[verifier::external_body]
pub(crate) fn read_pair<'a>(body: &'a [u8]) -> (member: Option<(&'a str, (u8, u16))>)
    ensures
        pair_member(member) == json_pair(body@),
        body@.len() == 0 ==> member is None,
{
    let (object, _): (LinearMap<&'a str, (u8, u16), 1>, usize) =
        serde_json_core::from_slice(body).ok()?;
    let (key, value) = object.iter().next()?;
    Some((*key, *value))
}

/// Reads `body` by `serde_json_core::from_slice` as a map of capacity one from
/// keys to flags. Trusted: the member, or the failure to read one, depends on the
/// bytes alone, and an empty body holds none.
#[verifier::external_body]
pub(crate) fn read_flag<'a>(body: &'a [u8]) -> (member: Option<(&'a str, bool)>)
    ensures
        flag_member(member) == json_flag(body@),
        body@.len() == 0 ==> member is None,
{
    let (object, _): (LinearMap<&'a str, bool, 1>, usize) =
        serde_json_core::from_slice(body).ok()?;
    let (key, value) = object.iter().next()?;
    Some((*key, *value))
}

/// Reads `body` by `serde_json_core`'s `Deserializer::deserialize_enum`, ignoring
/// the key and the value, and then its `Deserializer::end`. Trusted: whether both
/// succeed depends on the bytes alone. The reader recurses into nested arrays and
/// objects, so the call is for bodies that were read as a plain member before,
/// whose values do not nest.
#[verifier::external_body]
pub(crate) fn is_single(body: &[u8]) -> (single: bool)
    requires
        json_text(body@) is Some || json_pair(body@) is Some || json_flag(body@) is Some,
    ensures
        single == json_single(body@),
{
    let mut reader = serde_json_core::de::Deserializer::new(body, None);
    serde::Deserializer::deserialize_enum(&mut reader, "", &[], serde::de::IgnoredAny).is_ok()
        && reader.end().is_ok()
}

/// A member is viewed by the text of its key and by its value, unchanged, and where
/// there is no member the view has none.
pub proof fn lemma_members_are_viewed_as_read(
    text: Option<(&str, heapless::String<16>)>,
    pair: Option<(&str, (u8, u16))>,
    flag: Option<(&str, bool)>,
)
    ensures
        text is None <==> text_member(text) is None,
        text matches Some((key, value)) ==> text_member(text) == Some((key@, text_of(value))),
        pair is None <==> pair_member(pair) is None,
        pair matches Some((key, value)) ==> pair_member(pair) == Some((key@, value)),
        flag is None <==> flag_member(flag) is None,
        flag matches Some((key, value)) ==> flag_member(flag) == Some((key@, value)),
{
}

} // verus!
