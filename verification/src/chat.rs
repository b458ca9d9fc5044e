//! Text components: styled text that travels as a JSON object.

use vstd::prelude::*;
use vstd::string::StringExecFns;
use vstd::utf8::encode_utf8;
use crate::buffer::DecodeBuffer;
use crate::error::{FieldReadError, FieldWriteError};
use crate::text::{read_string, string_decoding, string_encoding, write_string, MAX_LENGTH};

verus! {

/// The JSON string literal that stands for `text`: the text between double
/// quotes, with the escapes that JSON asks for.
pub uninterp spec fn json_string(text: Seq<char>) -> Seq<char>;

/// `serde_json::to_string` on a `str`: the JSON string literal for `text`.
/// Writing a string into memory has no way to fail.
#[verifier::external_body]
pub(crate) fn json_quote(text: &str) -> (out: String)
    ensures
        out@ == json_string(text@),
{
    serde_json::to_string(text).unwrap_or_default()
}

/// The string that the member `member` of the JSON object `json` holds, or
/// nothing when `json` is no JSON object, when the object has no such
/// member, or when the member holds no string.
pub uninterp spec fn json_member(json: Seq<char>, member: Seq<char>) -> Option<Seq<char>>;

/// `serde_json::from_str` into a `serde_json::Value`, then `Value::get` and
/// `Value::as_str`: the string that a member of a JSON object holds.
#[verifier::external_body]
fn json_string_member(json: &str, member: &str) -> (out: Option<String>)
    ensures
        match json_member(json@, member@) {
            Some(s) => out.is_some() && out.unwrap()@ == s,
            None => out.is_none(),
        },
{
    let value: serde_json::Value = serde_json::from_str(json).ok()?;
    value.get(member)?.as_str().map(String::from)
}

/// The text component that travels as the string field at the front of
/// `s`.
pub open spec fn message_decoding(s: Seq<u8>) -> Result<(Seq<char>, nat), FieldReadError> {
    match string_decoding(s) {
        Err(e) => Err(e),
        Ok((json, n)) => match json_member(json, "text"@) {
            Some(text) => Ok((text, n)),
            None => Err(FieldReadError::JsonDecode),
        },
    }
}

/// The JSON text of a text component that holds plain text.
pub open spec fn message_json(text: Seq<char>) -> Seq<char> {
    "{\"text\":"@ + json_string(text) + "}"@
}

/// A text component that holds plain text.
#[derive(Debug, Clone, PartialEq, Eq)]
pub struct Message {
    text: String,
}

impl View for Message {
    type V = Seq<char>;

    closed spec fn view(&self) -> Seq<char> {
        self.text@
    }
}

impl Message {
    pub fn new(text: String) -> (m: Message)
        ensures
            m@ == text@,
    {
        Message { text }
    }

    /// The plain text of the component.
    pub fn text(&self) -> (t: &str)
        ensures
            t@ == self@,
    {
        self.text.as_str()
    }

    /// The JSON object that carries the component.
    pub fn to_json(&self) -> (json: String)
        ensures
            json@ == message_json(self@),
    {
        let quoted = json_quote(self.text.as_str());
        let mut json = String::from_str("{\"text\":");
        json.append(quoted.as_str());
        json.append("}");
        json
    }

    /// Reads a component from its JSON object: the string of the member
    /// `text`.
    pub fn from_json(json: &str) -> (m: Option<Message>)
        ensures
            match json_member(json@, "text"@) {
                Some(text) => m.is_some() && m.unwrap()@ == text,
                None => m.is_none(),
            },
    {
        match json_string_member(json, "text") {
            Some(text) => Some(Message { text }),
            None => None,
        }
    }

    /// Reads a string field and the component that its JSON text holds.
    pub fn read_from(r: &mut DecodeBuffer) -> (res: Result<Message, FieldReadError>)
        ensures
            final(r).data() == old(r).data(),
            match message_decoding(old(r).remaining()) {
                Ok((text, n)) => res.is_ok() && res.unwrap()@ == text && final(r).offset() == old(
                    r,
                ).offset() + n && final(r).remaining() == old(r).remaining().skip(n as int),
                Err(e) => res == Err::<Message, FieldReadError>(e),
            },
    {
        let json = match read_string(r) {
            Ok(json) => json,
            Err(e) => {
                return Err(e);
            },
        };
        match Message::from_json(json.as_str()) {
            Some(m) => Ok(m),
            None => Err(FieldReadError::JsonDecode),
        }
    }

    /// Appends the JSON text of the component as a string field. Fails,
    /// leaving `buffer` as it was, when the JSON text is too long for the
    /// length prefix.
    pub fn write_to(&self, buffer: &mut Vec<u8>) -> (res: Result<(), FieldWriteError>)
        ensures
            encode_utf8(message_json(self@)).len() <= MAX_LENGTH ==> res.is_ok() && final(buffer)@
                == old(buffer)@ + string_encoding(message_json(self@)),
            encode_utf8(message_json(self@)).len() > MAX_LENGTH ==> res == Err::<
                (),
                FieldWriteError,
            >(FieldWriteError::LengthOverflow) && final(buffer)@ == old(buffer)@,
    {
        let json = self.to_json();
        write_string(buffer, json.as_str())
    }
}

} // verus!
