//! The decisions of the album-art loader: which source an art URL is read
//! from, and how a fetched image is decoded.
//!
//! `file://` URLs are read from disk and `http(s)://` URLs fetched over the
//! network by the program; every other URL is refused here.

use vstd::prelude::*;

use crate::common::error::{debug_quoted, debug_str, ArtError};
use crate::text::push_str;

verus! {

/// `image::DynamicImage`, a decoded image.
#[verifier::external_type_specification]
#[verifier::external_body]
pub struct ExDynamicImage(image::DynamicImage);

/// Where the bytes of an art URL come from.
#[derive(Debug, Clone, Copy, PartialEq, Eq, Structural)]
pub enum ArtSource {
    /// A `file://` URL: read from disk.
    File,
    /// An `http://` or `https://` URL: fetched over the network.
    Http,
}

/// What `url::Url::parse` makes of a text: the scheme of the parsed URL,
/// or the display text of the parse error. A function of the text alone.
pub uninterp spec fn url_parse_scheme(s: Seq<char>) -> Result<Seq<char>, Seq<char>>;

/// `url::Url::parse`, taken by the scheme of the URL it parses (through
/// `Url::scheme`) or by the display text of its error: the outcome named
/// by [`url_parse_scheme`].
#[verifier::external_body]
fn parse_url_scheme(url: &str) -> (r: Result<String, String>)
    ensures
        (match r {
            Ok(s) => url_parse_scheme(url@) == Ok::<Seq<char>, Seq<char>>(s@),
            Err(e) => url_parse_scheme(url@) == Err::<Seq<char>, Seq<char>>(e@),
        }),
{
    match url::Url::parse(url) {
        Ok(u) => Ok(u.scheme().to_string()),
        Err(e) => Err(e.to_string()),
    }
}

/// Whether `r` is what a URL whose parse gave `parsed` leads to: a parse
/// error is a network error with its text; the scheme `file` is read from
/// disk, `http` and `https` are fetched; any other scheme is refused with
/// `unsupported scheme` and the scheme's quoted form.
pub open spec fn source_outcome(
    parsed: Result<Seq<char>, Seq<char>>,
    r: Result<ArtSource, ArtError>,
) -> bool {
    match parsed {
        Err(e) => r matches Err(ArtError::Network(m)) && m@ == e,
        Ok(s) => if s == "file"@ {
            r == Ok::<ArtSource, ArtError>(ArtSource::File)
        } else if s == "http"@ || s == "https"@ {
            r == Ok::<ArtSource, ArtError>(ArtSource::Http)
        } else {
            r matches Err(ArtError::Network(m)) && m@ == "unsupported scheme "@ + debug_str(s)
        },
    }
}

/// Whether `s` holds exactly the characters of `lit`.
fn string_is(s: &String, lit: &str) -> (r: bool)
    ensures
        r == (s@ == lit@),
{
    let l = String::from_str(lit);
    *s == l
}

/// A parse outcome taken by the views of its strings.
pub open spec fn parsed_view(parsed: Result<String, String>) -> Result<Seq<char>, Seq<char>> {
    match parsed {
        Ok(s) => Ok(s@),
        Err(e) => Err(e@),
    }
}

/// The source of a URL whose parse gave `parsed`.
pub fn source_for_parsed(parsed: Result<String, String>) -> (r: Result<ArtSource, ArtError>)
    ensures
        source_outcome(parsed_view(parsed), r),
{
    match parsed {
        Err(e) => Err(ArtError::Network(e)),
        Ok(s) => {
            proof {
                reveal_strlit("file");
                reveal_strlit("http");
                reveal_strlit("https");
            }
            if string_is(&s, "file") {
                Ok(ArtSource::File)
            } else if string_is(&s, "http") || string_is(&s, "https") {
                Ok(ArtSource::Http)
            } else {
                let mut m = String::new();
                push_str(&mut m, "unsupported scheme ");
                let q = debug_quoted(s.as_str());
                push_str(&mut m, q.as_str());
                proof {
                    reveal_strlit("unsupported scheme ");
                }
                Err(ArtError::Network(m))
            }
        },
    }
}

/// Where the art at `url` is read from: an empty URL means no art; any
/// other is parsed, and its scheme decides.
pub fn plan_fetch(url: &str) -> (r: Result<ArtSource, ArtError>)
    ensures
        url@.len() == 0 ==> r matches Err(ArtError::Unavailable),
        url@.len() > 0 ==> source_outcome(url_parse_scheme(url@), r),
{
    if url.unicode_len() == 0 {
        return Err(ArtError::Unavailable);
    }
    let parsed = parse_url_scheme(url);
    source_for_parsed(parsed)
}

/// What `url::Url::to_file_path` gives for the URL that a text parses to:
/// the bytes of the local path (the percent-decoded path segments), or
/// `None` when the URL names no local path. A function of the text alone
/// for the Unix targets this program is built for.
pub uninterp spec fn url_to_file_path(s: Seq<char>) -> Option<Seq<u8>>;

/// `url::Url::parse` followed by `Url::to_file_path`, the path taken as its
/// bytes: fails with the parse error's text exactly when the URL does not
/// parse (as [`url_parse_scheme`] names it); otherwise gives the path that
/// [`url_to_file_path`] names, or `None` when there is none.
#[verifier::external_body]
fn url_file_path(url: &str) -> (r: Result<Option<Vec<u8>>, String>)
    ensures
        (match r {
            Ok(_) => url_parse_scheme(url@) is Ok,
            Err(e) => url_parse_scheme(url@) == Err::<Seq<char>, Seq<char>>(e@),
        }),
        (match r {
            Ok(Some(b)) => url_to_file_path(url@) == Some(b@),
            Ok(None) => url_to_file_path(url@) is None,
            Err(_) => true,
        }),
{
    match url::Url::parse(url) {
        Ok(u) => match u.to_file_path() {
            Ok(p) => Ok(Some(p.into_os_string().into_encoded_bytes())),
            Err(()) => Ok(None),
        },
        Err(e) => Err(e.to_string()),
    }
}

/// The local path of a `file://` art URL from what looking it up gave: a
/// parse error is a network error with its text, a URL that names no local
/// path is the network error `invalid file:// URL`, else the path's bytes.
pub fn file_path_from(found: Result<Option<Vec<u8>>, String>) -> (r: Result<Vec<u8>, ArtError>)
    ensures
        (match found {
            Err(e) => r matches Err(ArtError::Network(m)) && m@ == e@,
            Ok(None) => r matches Err(ArtError::Network(m)) && m@ == "invalid file:// URL"@,
            Ok(Some(p)) => r matches Ok(q) && q@ == p@,
        }),
{
    match found {
        Err(e) => Err(ArtError::Network(e)),
        Ok(None) => Err(ArtError::Network(String::from_str("invalid file:// URL"))),
        Ok(Some(p)) => Ok(p),
    }
}

/// The bytes of the local path that the `file://` art URL `url` names. A
/// URL that does not parse fails with the parser's text; one that names no
/// local path fails with `invalid file:// URL`.
pub fn file_path_for(url: &str) -> (r: Result<Vec<u8>, ArtError>)
    ensures
        url_parse_scheme(url@) matches Err(e) ==> r matches Err(ArtError::Network(m)) && m@ == e,
        url_parse_scheme(url@) is Ok ==> (match url_to_file_path(url@) {
            Some(p) => r matches Ok(q) && q@ == p,
            None => r matches Err(ArtError::Network(m)) && m@ == "invalid file:// URL"@,
        }),
{
    let found = url_file_path(url);
    file_path_from(found)
}

/// What `image::load_from_memory` makes of some bytes: `None` when they
/// decode to an image, else the display text of the decoding error. A
/// function of the bytes alone.
pub uninterp spec fn image_decode_error(bytes: Seq<u8>) -> Option<Seq<char>>;

/// The image that `image::load_from_memory` decodes from some bytes, when
/// it decodes one. A function of the bytes alone (no decoding hooks are
/// registered by this program).
pub uninterp spec fn decoded_image(bytes: Seq<u8>) -> image::DynamicImage;

/// `image::load_from_memory`: succeeds exactly when [`image_decode_error`]
/// names no error for the bytes, with the image [`decoded_image`] names,
/// and otherwise fails with that error's text.
#[verifier::external_body]
fn load_from_memory(bytes: &[u8]) -> (r: Result<image::DynamicImage, String>)
    ensures
        r is Ok <==> image_decode_error(bytes@) is None,
        r matches Ok(img) ==> img == decoded_image(bytes@),
        r matches Err(e) ==> image_decode_error(bytes@) == Some(e@),
{
    match image::load_from_memory(bytes) {
        Ok(img) => Ok(img),
        Err(e) => Err(e.to_string()),
    }
}

/// Decode fetched art: the image, or a decoding error with the decoder's
/// text.
pub fn decode_image(bytes: &[u8]) -> (r: Result<image::DynamicImage, ArtError>)
    ensures
        r is Ok <==> image_decode_error(bytes@) is None,
        r matches Ok(img) ==> img == decoded_image(bytes@),
        r matches Err(e) ==> e matches ArtError::Decode(m) && image_decode_error(bytes@) == Some(
            m@,
        ),
{
    match load_from_memory(bytes) {
        Ok(img) => Ok(img),
        Err(e) => Err(ArtError::Decode(e)),
    }
}

} // verus!
