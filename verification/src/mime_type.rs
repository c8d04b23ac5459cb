//! Media types for response bodies.
use vstd::prelude::*;

use crate::text::str_eq;

verus! {

/// A media type and whether bodies of this type are binary (never
/// compressed when sent).
#[derive(Debug, Clone, PartialEq, Eq, Hash)]
pub struct MimeType {
    pub name: String,
    pub is_binary: bool,
}

/// For the media types this server knows, whether they are binary.
pub open spec fn known_mime_binary(s: Seq<char>) -> Option<bool> {
    if s == "text/plain"@ {
        Some(false)
    } else if s == "text/html"@ {
        Some(false)
    } else if s == "text/css"@ {
        Some(false)
    } else if s == "text/javascript"@ {
        Some(false)
    } else if s == "text/csv"@ {
        Some(false)
    } else if s == "application/json"@ {
        Some(false)
    } else if s == "application/xml"@ {
        Some(false)
    } else if s == "application/octet-stream"@ {
        Some(true)
    } else if s == "application/pdf"@ {
        Some(true)
    } else if s == "application/zip"@ {
        Some(true)
    } else if s == "application/x-www-form-urlencoded"@ {
        Some(false)
    } else if s == "image/png"@ {
        Some(true)
    } else if s == "image/jpeg"@ {
        Some(true)
    } else if s == "image/gif"@ {
        Some(true)
    } else if s == "image/webp"@ {
        Some(true)
    } else if s == "audio/mpeg"@ {
        Some(true)
    } else if s == "audio/ogg"@ {
        Some(true)
    } else if s == "video/mp4"@ {
        Some(true)
    } else if s == "video/webm"@ {
        Some(true)
    } else if s == "multipart/form-data"@ {
        Some(false)
    } else {
        None
    }
}

impl MimeType {
    /// A media type with the given name.
    pub fn new(name: &str, is_binary: bool) -> (r: Self)
        ensures
            r.name@ == name@,
            r.is_binary == is_binary,
    {
        MimeType { name: String::from_str(name), is_binary }
    }

    /// The known media type named `s`, if any.
    pub fn from_str(s: &str) -> (r: Option<Self>)
        ensures
            match known_mime_binary(s@) {
                Some(b) => r matches Some(m) && m.name@ == s@ && m.is_binary == b,
                None => r is None,
            },
    {
        if str_eq(s, "text/plain") {
            Some(MimeType::new("text/plain", false))
        } else if str_eq(s, "text/html") {
            Some(MimeType::new("text/html", false))
        } else if str_eq(s, "text/css") {
            Some(MimeType::new("text/css", false))
        } else if str_eq(s, "text/javascript") {
            Some(MimeType::new("text/javascript", false))
        } else if str_eq(s, "text/csv") {
            Some(MimeType::new("text/csv", false))
        } else if str_eq(s, "application/json") {
            Some(MimeType::new("application/json", false))
        } else if str_eq(s, "application/xml") {
            Some(MimeType::new("application/xml", false))
        } else if str_eq(s, "application/octet-stream") {
            Some(MimeType::new("application/octet-stream", true))
        } else if str_eq(s, "application/pdf") {
            Some(MimeType::new("application/pdf", true))
        } else if str_eq(s, "application/zip") {
            Some(MimeType::new("application/zip", true))
        } else if str_eq(s, "application/x-www-form-urlencoded") {
            Some(MimeType::new("application/x-www-form-urlencoded", false))
        } else if str_eq(s, "image/png") {
            Some(MimeType::new("image/png", true))
        } else if str_eq(s, "image/jpeg") {
            Some(MimeType::new("image/jpeg", true))
        } else if str_eq(s, "image/gif") {
            Some(MimeType::new("image/gif", true))
        } else if str_eq(s, "image/webp") {
            Some(MimeType::new("image/webp", true))
        } else if str_eq(s, "audio/mpeg") {
            Some(MimeType::new("audio/mpeg", true))
        } else if str_eq(s, "audio/ogg") {
            Some(MimeType::new("audio/ogg", true))
        } else if str_eq(s, "video/mp4") {
            Some(MimeType::new("video/mp4", true))
        } else if str_eq(s, "video/webm") {
            Some(MimeType::new("video/webm", true))
        } else if str_eq(s, "multipart/form-data") {
            Some(MimeType::new("multipart/form-data", false))
        } else {
            None
        }
    }

    /// The name of the media type, as written in a `Content-Type` header.
    pub fn to_string(&self) -> (r: String)
        ensures
            r@ == self.name@,
    {
        self.name.clone()
    }
}

/// The known media types and whether each is binary, in the order they
/// are listed.
pub open spec fn known_mime_types() -> Seq<(Seq<char>, bool)> {
    seq![
        ("text/plain"@, false),
        ("text/html"@, false),
        ("text/css"@, false),
        ("text/javascript"@, false),
        ("text/csv"@, false),
        ("application/json"@, false),
        ("application/xml"@, false),
        ("application/octet-stream"@, true),
        ("application/pdf"@, true),
        ("application/zip"@, true),
        ("application/x-www-form-urlencoded"@, false),
        ("image/png"@, true),
        ("image/jpeg"@, true),
        ("image/gif"@, true),
        ("image/webp"@, true),
        ("audio/mpeg"@, true),
        ("audio/ogg"@, true),
        ("video/mp4"@, true),
        ("video/webm"@, true),
        ("multipart/form-data"@, false),
    ]
}

/// `text/plain`.
#[allow(non_snake_case)]
pub fn TEXT_PLAIN() -> (r: MimeType)
    ensures
        r.name@ == "text/plain"@,
        r.is_binary == false,
{
    MimeType::new("text/plain", false)
}

/// `text/html`.
#[allow(non_snake_case)]
pub fn TEXT_HTML() -> (r: MimeType)
    ensures
        r.name@ == "text/html"@,
        r.is_binary == false,
{
    MimeType::new("text/html", false)
}

/// `text/css`.
#[allow(non_snake_case)]
pub fn TEXT_CSS() -> (r: MimeType)
    ensures
        r.name@ == "text/css"@,
        r.is_binary == false,
{
    MimeType::new("text/css", false)
}

/// `text/javascript`.
#[allow(non_snake_case)]
pub fn TEXT_JAVASCRIPT() -> (r: MimeType)
    ensures
        r.name@ == "text/javascript"@,
        r.is_binary == false,
{
    MimeType::new("text/javascript", false)
}

/// `text/csv`.
#[allow(non_snake_case)]
pub fn TEXT_CSV() -> (r: MimeType)
    ensures
        r.name@ == "text/csv"@,
        r.is_binary == false,
{
    MimeType::new("text/csv", false)
}

/// `application/json`.
#[allow(non_snake_case)]
pub fn APPLICATION_JSON() -> (r: MimeType)
    ensures
        r.name@ == "application/json"@,
        r.is_binary == false,
{
    MimeType::new("application/json", false)
}

/// `application/xml`.
#[allow(non_snake_case)]
pub fn APPLICATION_XML() -> (r: MimeType)
    ensures
        r.name@ == "application/xml"@,
        r.is_binary == false,
{
    MimeType::new("application/xml", false)
}

/// `application/octet-stream`.
#[allow(non_snake_case)]
pub fn APPLICATION_OCTET_STREAM() -> (r: MimeType)
    ensures
        r.name@ == "application/octet-stream"@,
        r.is_binary == true,
{
    MimeType::new("application/octet-stream", true)
}

/// `application/pdf`.
#[allow(non_snake_case)]
pub fn APPLICATION_PDF() -> (r: MimeType)
    ensures
        r.name@ == "application/pdf"@,
        r.is_binary == true,
{
    MimeType::new("application/pdf", true)
}

/// `application/zip`.
#[allow(non_snake_case)]
pub fn APPLICATION_ZIP() -> (r: MimeType)
    ensures
        r.name@ == "application/zip"@,
        r.is_binary == true,
{
    MimeType::new("application/zip", true)
}

/// `application/x-www-form-urlencoded`.
#[allow(non_snake_case)]
pub fn APPLICATION_FORM_URLENCODED() -> (r: MimeType)
    ensures
        r.name@ == "application/x-www-form-urlencoded"@,
        r.is_binary == false,
{
    MimeType::new("application/x-www-form-urlencoded", false)
}

/// `image/png`.
#[allow(non_snake_case)]
pub fn IMAGE_PNG() -> (r: MimeType)
    ensures
        r.name@ == "image/png"@,
        r.is_binary == true,
{
    MimeType::new("image/png", true)
}

/// `image/jpeg`.
#[allow(non_snake_case)]
pub fn IMAGE_JPEG() -> (r: MimeType)
    ensures
        r.name@ == "image/jpeg"@,
        r.is_binary == true,
{
    MimeType::new("image/jpeg", true)
}

/// `image/gif`.
#[allow(non_snake_case)]
pub fn IMAGE_GIF() -> (r: MimeType)
    ensures
        r.name@ == "image/gif"@,
        r.is_binary == true,
{
    MimeType::new("image/gif", true)
}

/// `image/webp`.
#[allow(non_snake_case)]
pub fn IMAGE_WEBP() -> (r: MimeType)
    ensures
        r.name@ == "image/webp"@,
        r.is_binary == true,
{
    MimeType::new("image/webp", true)
}

/// `audio/mpeg`.
#[allow(non_snake_case)]
pub fn AUDIO_MPEG() -> (r: MimeType)
    ensures
        r.name@ == "audio/mpeg"@,
        r.is_binary == true,
{
    MimeType::new("audio/mpeg", true)
}

/// `audio/ogg`.
#[allow(non_snake_case)]
pub fn AUDIO_OGG() -> (r: MimeType)
    ensures
        r.name@ == "audio/ogg"@,
        r.is_binary == true,
{
    MimeType::new("audio/ogg", true)
}

/// `video/mp4`.
#[allow(non_snake_case)]
pub fn VIDEO_MP4() -> (r: MimeType)
    ensures
        r.name@ == "video/mp4"@,
        r.is_binary == true,
{
    MimeType::new("video/mp4", true)
}

/// `video/webm`.
#[allow(non_snake_case)]
pub fn VIDEO_WEBM() -> (r: MimeType)
    ensures
        r.name@ == "video/webm"@,
        r.is_binary == true,
{
    MimeType::new("video/webm", true)
}

/// `multipart/form-data`.
#[allow(non_snake_case)]
pub fn MULTIPART_FORM_DATA() -> (r: MimeType)
    ensures
        r.name@ == "multipart/form-data"@,
        r.is_binary == false,
{
    MimeType::new("multipart/form-data", false)
}

/// Every known media type, in the order they are listed.
#[allow(non_snake_case)]
pub fn ALL() -> (r: Vec<MimeType>)
    ensures
        r@.len() == known_mime_types().len(),
        forall|i: int| 0 <= i < r@.len() ==> (#[trigger] r@[i].name@, r@[i].is_binary) == known_mime_types()[i],
{
    let v = vec![
        TEXT_PLAIN(),
        TEXT_HTML(),
        TEXT_CSS(),
        TEXT_JAVASCRIPT(),
        TEXT_CSV(),
        APPLICATION_JSON(),
        APPLICATION_XML(),
        APPLICATION_OCTET_STREAM(),
        APPLICATION_PDF(),
        APPLICATION_ZIP(),
        APPLICATION_FORM_URLENCODED(),
        IMAGE_PNG(),
        IMAGE_JPEG(),
        IMAGE_GIF(),
        IMAGE_WEBP(),
        AUDIO_MPEG(),
        AUDIO_OGG(),
        VIDEO_MP4(),
        VIDEO_WEBM(),
        MULTIPART_FORM_DATA(),
    ];
    v
}

} // verus!
