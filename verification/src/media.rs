//! Media types as plain values. The `mime` crate parses a `Content-Type`
//! header; the parts that the crawler reads are held here as text.

use vstd::prelude::*;
use crate::text::same_text;

verus! {

/// A parsed media type.
#[derive(Debug, PartialEq, Eq)]
pub struct MediaType {
    /// The whole type as the parser normalised it, parameters included.
    pub text: String,
    /// The top-level type, lower-cased.
    pub type_: String,
    /// The subtype, lower-cased, without a structured-syntax suffix.
    pub subtype: String,
    /// The structured-syntax suffix after `+`, if there is one.
    pub suffix: Option<String>,
}

/// What a [`MediaType`] stands for.
pub struct MediaModel {
    pub text: Seq<char>,
    pub type_: Seq<char>,
    pub subtype: Seq<char>,
    pub suffix: Option<Seq<char>>,
}

/// The text of an optional string.
pub open spec fn text_view(text: Option<String>) -> Option<Seq<char>> {
    match text {
        Some(t) => Some(t@),
        None => None,
    }
}

impl View for MediaType {
    type V = MediaModel;

    open spec fn view(&self) -> MediaModel {
        MediaModel {
            text: self.text@,
            type_: self.type_@,
            subtype: self.subtype@,
            suffix: text_view(self.suffix),
        }
    }
}

impl Clone for MediaType {
    fn clone(&self) -> (out: Self)
        ensures
            out == *self,
    {
        MediaType {
            text: self.text.clone(),
            type_: self.type_.clone(),
            subtype: self.subtype.clone(),
            suffix: match &self.suffix {
                Some(s) => Some(s.clone()),
                None => None,
            },
        }
    }
}

/// The views of an optional media type.
pub open spec fn media_view(media: Option<MediaType>) -> Option<MediaModel> {
    match media {
        Some(m) => Some(m@),
        None => None,
    }
}

/// What a response body is, as far as the crawler cares.
#[derive(Clone, Copy, Debug, PartialEq, Eq, Structural)]
pub enum ContentKind {
    /// `text/html` without a suffix, whatever its parameters.
    Html,
    /// A subtype `plain` of `text`, whatever its suffix and parameters.
    PlainText,
    /// Anything else, an unreadable header included.
    Other,
}

/// Two media types name the same type, subtype and suffix. Parameters such as
/// `charset` play no part.
pub open spec fn same_essence(a: MediaModel, b: MediaModel) -> bool {
    a.type_ == b.type_ && a.subtype == b.subtype && a.suffix == b.suffix
}

/// The kind of a media type.
pub open spec fn kind_of(media: MediaModel) -> ContentKind {
    if media.type_ == "text"@ && media.subtype == "html"@ && media.suffix is None {
        ContentKind::Html
    } else if media.type_ == "text"@ && media.subtype == "plain"@ {
        ContentKind::PlainText
    } else {
        ContentKind::Other
    }
}

/// The kind of an optional media type: none is `Other`.
pub open spec fn kind_of_optional(media: Option<MediaModel>) -> ContentKind {
    match media {
        Some(m) => kind_of(m),
        None => ContentKind::Other,
    }
}

impl MediaType {
    /// Parses the text of a `Content-Type` header. A malformed header gives
    /// `None`.
    pub fn parse(header: &str) -> (out: Option<MediaType>)
        ensures
            media_view(out) == mime_parse(header@),
    {
        parse_mime(header)
    }

    /// Whether both name the same type, subtype and suffix.
    pub fn same_essence(&self, other: &MediaType) -> (same: bool)
        ensures
            same == same_essence(self@, other@),
    {
        let suffix = match (&self.suffix, &other.suffix) {
            (Some(a), Some(b)) => same_text(a.as_str(), b.as_str()),
            (None, None) => true,
            _ => false,
        };
        suffix && same_text(self.type_.as_str(), other.type_.as_str()) && same_text(
            self.subtype.as_str(),
            other.subtype.as_str(),
        )
    }

    /// Classifies the media type.
    pub fn kind(&self) -> (kind: ContentKind)
        ensures
            kind == kind_of(self@),
    {
        if same_text(self.type_.as_str(), "text") {
            if same_text(self.subtype.as_str(), "html") && self.suffix.is_none() {
                return ContentKind::Html;
            }
            if same_text(self.subtype.as_str(), "plain") {
                return ContentKind::PlainText;
            }
        }
        ContentKind::Other
    }
}

/// The media type that the `mime` crate reads from `header`, or `None` where
/// it reports an error.
pub uninterp spec fn mime_parse(header: Seq<char>) -> Option<MediaModel>;

/// Parses a media type.
///
/// Trusted: calls `<mime::Mime as FromStr>::from_str` and copies the
/// normalised text, the type, the subtype and the suffix of the result. The
/// contract only gives the outcome its name, [`mime_parse`].
#[verifier::external_body]
pub(crate) fn parse_mime(header: &str) -> (out: Option<MediaType>)
    ensures
        media_view(out) == mime_parse(header@),
{
    let parsed = header.parse::<mime::Mime>().ok()?;
    Some(MediaType {
        text: parsed.as_ref().to_string(),
        type_: parsed.type_().as_str().to_string(),
        subtype: parsed.subtype().as_str().to_string(),
        suffix: parsed.suffix().map(|name| name.as_str().to_string()),
    })
}

/// Classifies the text of a `Content-Type` header: `Other` where it does not
/// parse.
pub fn classify_content_type(header: &str) -> (kind: ContentKind)
    ensures
        kind == kind_of_optional(mime_parse(header@)),
{
    match MediaType::parse(header) {
        Some(media) => media.kind(),
        None => ContentKind::Other,
    }
}

} // verus!
