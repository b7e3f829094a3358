//! Calls into the standard library and other crates whose results the rest of the
//! library builds on. Every contract in this file is taken on trust.
use crate::paths::{file_name_on, is_unread};
use crate::text::{ascii_lower, ascii_lowered, contains, is_digit, str_option, text_option};
use mime_guess::MimeGuess;
use serde_json::Value;
use std::path::Path;
use std::path::PathBuf;
use std::time::SystemTime;
use url::Url;
use uuid::Uuid;
use vstd::prelude::*;
use vstd::utf8::{decode_utf8, is_ascii_chars, valid_utf8};

verus! {

// Letter case.

/// What `char::to_lowercase` yields for a character.
pub uninterp spec fn lowercase_of(c: char) -> Seq<char>;

/// `char::to_lowercase`: the Unicode lower case of one character, which may be several
/// characters long. An ASCII character has its ASCII lower case.
#[verifier::external_body]
pub(crate) fn char_lowercase(c: char) -> (lower: Vec<char>)
    ensures
        lower@ == lowercase_of(c),
        (c as u32) < 128 ==> lower@ == seq![ascii_lower(c)],
{
    c.to_lowercase().collect()
}

/// What `str::to_lowercase` yields for a text.
pub uninterp spec fn lowercase_text(s: Seq<char>) -> Seq<char>;

/// What is known of the lower case of a text: it is its own lower case; the only ASCII
/// characters in it are small letters and what stands in the text and is no capital; and
/// a text that differs in the case of ASCII letters only has the same lower case.
pub open spec fn is_lower_case_of(text: Seq<char>, lower: Seq<char>) -> bool {
    &&& lowercase_text(lower) == lower
    &&& forall|i: int|
        0 <= i < lower.len() && (#[trigger] lower[i] as u32) < 128 ==> 'a' <= lower[i] <= 'z' || (
        text.contains(lower[i]) && !('A' <= lower[i] <= 'Z'))
    &&& forall|other: Seq<char>|
        ascii_lowered(other) == ascii_lowered(text) ==> #[trigger] lowercase_text(other) == lower
}

/// `str::to_lowercase`: the Unicode lower case of a text. An ASCII text has its ASCII
/// lower case. To lower a text once more, or to change the case of its ASCII letters
/// before, makes no difference, and no ASCII character comes in but small letters.
#[verifier::external_body]
pub(crate) fn lowercase(text: &str) -> (lower: String)
    ensures
        lower@ == lowercase_text(text@),
        is_ascii_chars(text@) ==> lower@ == ascii_lowered(text@),
        is_lower_case_of(text@, lower@),
{
    text.to_lowercase()
}

/// What `String::from_utf8_lossy` yields for bytes.
pub uninterp spec fn lossy_text(bytes: Seq<u8>) -> Seq<char>;

/// `String::from_utf8_lossy`: the text that bytes encode, with replacement characters
/// for what is not UTF-8. Bytes that are UTF-8 throughout are decoded as they stand.
#[verifier::external_body]
pub(crate) fn utf8_lossy(bytes: &Vec<u8>) -> (text: String)
    ensures
        text@ == lossy_text(bytes@),
        valid_utf8(bytes@) ==> text@ == decode_utf8(bytes@),
{
    String::from_utf8_lossy(bytes).into_owned()
}

// Paths.

/// `Path::file_name`: the last component of a path, where that is an ordinary name. It is
/// a part of the path. The rules that apply are those of the platform, Unix or Windows.
/// (How Windows reads a path that begins with two separators is not stated, unless a
/// server, a share and a file name stand there.)
#[verifier::external_body]
pub(crate) fn path_file_name(path: &str) -> (name: Option<String>)
    ensures
        text_option(name) matches Some(n) ==> n.len() > 0 && contains(path@, n),
        !is_unread(path@, true) ==> text_option(name) == file_name_on(path@, false) || text_option(
            name,
        ) == file_name_on(path@, true),
{
    Path::new(path).file_name().and_then(|name| name.to_str()).map(|name| name.to_string())
}

/// A single ordinary path component on either platform.
pub open spec fn is_plain_component(s: Seq<char>) -> bool {
    &&& s.len() > 0
    &&& s != seq!['.']
    &&& s != seq!['.', '.']
    &&& forall|i: int| 0 <= i < s.len() ==> #[trigger] s[i] != '/' && s[i] != '\\' && s[i] != ':'
}

/// A path whose prefix makes Windows take what follows literally.
pub open spec fn is_verbatim(path: Seq<char>) -> bool {
    path.len() >= 4 && path.take(4) == seq!['\\', '\\', '?', '\\']
}

/// What is known of `base` joined with `component` whatever the platform: the component
/// stands behind the base and at most one separator, slash or backslash. There is no
/// separator behind an empty base or one that ends in a slash, and there is one unless
/// the base ends in a slash, a backslash or a colon.
pub open spec fn may_be_joined(base: Seq<char>, component: Seq<char>, path: Seq<char>) -> bool {
    is_plain_component(component) && !is_verbatim(base) ==> {
        let bare = base + component;
        let slashed = base.push('/') + component;
        let backslashed = base.push('\\') + component;
        if base.len() == 0 || base.last() == '/' {
            path == bare
        } else if base.last() == '\\' || base.last() == ':' {
            path == bare || path == slashed || path == backslashed
        } else {
            path == slashed || path == backslashed
        }
    }
}

/// `Path::join`: a path with one more component. Of a base with a verbatim prefix
/// nothing is said: Windows rewrites such a base.
#[verifier::external_body]
pub(crate) fn path_join(base: &str, component: &str) -> (path: String)
    ensures
        may_be_joined(base@, component@, path@),
{
    PathBuf::from(base).join(component).to_string_lossy().into_owned()
}

// The clock.

/// `SystemTime::now`, as whole seconds since the Unix epoch; nothing for a clock that is
/// set before it. The reading itself is the machine's, so nothing more is said of it.
#[verifier::external_body]
pub(crate) fn unix_seconds() -> (seconds: Option<u64>) {
    SystemTime::now().duration_since(SystemTime::UNIX_EPOCH).ok().map(|since| since.as_secs())
}

// Identifiers.

pub open spec fn is_lower_hex(c: char) -> bool {
    is_digit(c) || 'a' <= c <= 'f'
}

/// The text of a random UUID: 36 characters, hyphens in four places, the version digit 4,
/// a variant digit of 8, 9, a or b, and lower-case hexadecimal digits elsewhere.
pub open spec fn is_uuid_text(s: Seq<char>) -> bool {
    &&& s.len() == 36
    &&& s[8] == '-' && s[13] == '-' && s[18] == '-' && s[23] == '-'
    &&& s[14] == '4'
    &&& s[19] == '8' || s[19] == '9' || s[19] == 'a' || s[19] == 'b'
    &&& forall|i: int|
        0 <= i < 36 && i != 8 && i != 13 && i != 18 && i != 23 ==> is_lower_hex(#[trigger] s[i])
}

/// `Uuid::new_v4`: a random identifier, as text. (It panics where the operating system
/// yields no random bytes.)
#[verifier::external_body]
pub(crate) fn new_uuid_text() -> (id: String)
    ensures
        is_uuid_text(id@),
{
    Uuid::new_v4().to_string()
}

// Media types.

/// The first media type that the `mime_guess` tables hold for a file extension.
pub uninterp spec fn mime_for_extension(extension: Seq<char>) -> Option<Seq<char>>;

/// `MimeGuess::from_ext` and its first entry: the media type of a file extension. There
/// is none for the empty extension.
#[verifier::external_body]
pub(crate) fn mime_from_extension(extension: &str) -> (mime: Option<String>)
    ensures
        text_option(mime) == mime_for_extension(extension@),
        extension@.len() == 0 ==> mime is None,
{
    MimeGuess::from_ext(extension).first_raw().map(|mime| mime.to_string())
}

// URLs.

/// What `Url::parse` makes of a text: the serialised URL, or the message of its error.
pub uninterp spec fn parsed_url(text: Seq<char>) -> Result<Seq<char>, Seq<char>>;

pub open spec fn result_texts(r: Result<String, String>) -> Result<Seq<char>, Seq<char>> {
    match r {
        Ok(s) => Ok(s@),
        Err(s) => Err(s@),
    }
}

/// `Url::parse`: the URL that a text denotes, serialised, or the message of the error.
#[verifier::external_body]
pub(crate) fn parse_url(text: &str) -> (url: Result<String, String>)
    ensures
        result_texts(url) == parsed_url(text@),
{
    Url::parse(text).map(|url| url.to_string()).map_err(|error| error.to_string())
}

// JSON.

/// A JSON document. A number is known by the unsigned integer that it is, if it is one.
pub enum Json {
    Null,
    Bool(bool),
    Number(Option<u64>),
    Text(Seq<char>),
    Array(Seq<Json>),
    Object(Map<Seq<char>, Json>),
}

impl Json {
    /// The member `key` of an object.
    pub open spec fn member(self, key: Seq<char>) -> Option<Json> {
        match self {
            Json::Object(members) if members.contains_key(key) => Some(members[key]),
            _ => None,
        }
    }

    pub open spec fn unsigned(self) -> Option<u64> {
        match self {
            Json::Number(n) => n,
            _ => None,
        }
    }

    pub open spec fn text(self) -> Option<Seq<char>> {
        match self {
            Json::Text(s) => Some(s),
            _ => None,
        }
    }
}

#[verifier::external_type_specification]
#[verifier::external_body]
pub struct ExValue(Value);

/// What a `serde_json::Value` holds.
pub uninterp spec fn json_of(value: Value) -> Json;

/// The document that `serde_json` reads from a text, if it accepts the text.
pub uninterp spec fn parsed_json(text: Seq<char>) -> Option<Json>;

pub open spec fn json_option(value: Option<Value>) -> Option<Json> {
    match value {
        Some(v) => Some(json_of(v)),
        None => None,
    }
}

/// `serde_json::from_str` into a `Value`.
#[verifier::external_body]
pub(crate) fn parse_json(text: &str) -> (value: Option<Value>)
    ensures
        json_option(value) == parsed_json(text@),
{
    serde_json::from_str::<Value>(text).ok()
}

/// `Value::get` with a text: the member of that name of an object, nothing otherwise.
#[verifier::external_body]
pub(crate) fn json_member<'a>(value: &'a Value, key: &str) -> (member: Option<&'a Value>)
    ensures
        match member {
            Some(found) => json_of(*value).member(key@) == Some(json_of(*found)),
            None => json_of(*value).member(key@) is None,
        },
{
    value.get(key)
}

/// `Value::as_u64`: the unsigned integer that a value is, if it is one.
#[verifier::external_body]
pub(crate) fn json_unsigned(value: &Value) -> (number: Option<u64>)
    ensures
        number == json_of(*value).unsigned(),
{
    value.as_u64()
}

/// `Value::as_str`: the text that a value is, if it is one.
#[verifier::external_body]
pub(crate) fn json_text(value: &Value) -> (text: Option<&str>)
    ensures
        str_option(text) == json_of(*value).text(),
{
    value.as_str()
}

} // verus!
