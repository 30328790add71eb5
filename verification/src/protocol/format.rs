//! The formats of request and response bodies, and responses.
use vstd::prelude::*;
use vstd::string::StringExecFns;
use crate::utils::text::{chars_of, chars_equal};

verus! {

/// The format of input and output values.
#[derive(Debug, Clone, Copy, PartialEq, Eq, Structural)]
pub enum Format {
    /// JSON.
    Json,
}

impl Default for Format {
    fn default() -> (r: Format)
        ensures
            r == Format::Json,
    {
        Format::Json
    }
}

/// The media type of the JSON format.
pub const JSON_MEDIA_TYPE: &'static str = "application/json";

impl Format {
    /// The format named by a media type, if it is known.
    pub fn from_media_type(s: &str) -> (r: Option<Format>)
        ensures
            r == (if s@ == JSON_MEDIA_TYPE@ {
                Some(Format::Json)
            } else {
                None::<Format>
            }),
    {
        let a = chars_of(s);
        let b = chars_of(JSON_MEDIA_TYPE);
        if chars_equal(&a, &b) {
            Some(Format::Json)
        } else {
            None
        }
    }

    /// The media type of the format.
    pub fn media_type(&self) -> (r: String)
        ensures
            r@ == JSON_MEDIA_TYPE@,
    {
        match self {
            Format::Json => String::from_str(JSON_MEDIA_TYPE),
        }
    }
}

/// A value that is either owned or borrowed.
pub enum MaybeOwned<'a, T> {
    Owned(T),
    Borrowed(&'a T),
}

impl<'a, T> MaybeOwned<'a, T> {
    /// The value, however it is held.
    pub fn get(&self) -> (r: &T)
        ensures
            *r == (match *self {
                MaybeOwned::Owned(v) => v,
                MaybeOwned::Borrowed(v) => *v,
            }),
    {
        match self {
            MaybeOwned::Owned(v) => v,
            MaybeOwned::Borrowed(v) => v,
        }
    }
}

/// A response: its body and the format the body is in.
pub struct Response {
    pub body: Vec<u8>,
    pub fmt: Format,
}

} // verus!
