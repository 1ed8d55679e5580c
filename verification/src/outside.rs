//! The calls into `mailparse` and `regex`, and the one `std` conversion, that
//! the verifier takes on trust. Each contract here is believed, not proved.

use vstd::prelude::*;
use vstd::utf8::{decode_utf8, valid_utf8};
use crate::headers::{texts, Header, HeaderStore};
use crate::text::no_capitals;

verus! {

#[verifier::external_type_specification]
#[verifier::external_body]
pub struct ExMailParseError(mailparse::MailParseError);

/// What `mailparse::parse_headers` makes of a header block: the name and the
/// unfolded, decoded value of each header in order, or nothing where it
/// reports an error.
pub uninterp spec fn header_fields(block: Seq<u8>) -> Option<Seq<(Seq<char>, Seq<char>)>>;

/// What `mailparse::parse_content_type` makes of a `Content-Type` value: the
/// lower-cased MIME type, and the `boundary` parameter where there is one.
pub uninterp spec fn content_type_fields(value: Seq<char>) -> (Seq<char>, Option<Seq<char>>);

/// What `mailparse::body::Body` decodes a body to under a named transfer
/// encoding, or nothing where the decoder reports an error.
pub uninterp spec fn transfer_decoded(body: Seq<u8>, encoding: Seq<char>) -> Option<Seq<u8>>;

/// The non-overlapping matches, left to right, that `regex::Regex::find_iter`
/// finds for a pattern in a text, or nothing where the pattern does not
/// compile.
pub uninterp spec fn regex_matches(pattern: Seq<char>, text: Seq<char>) -> Option<Seq<Seq<char>>>;

/// The first capture group of the leftmost match that `regex::Regex::captures`
/// finds, or nothing where the pattern does not compile, does not match, or
/// the group took no part in the match.
pub uninterp spec fn regex_first_group(pattern: Seq<char>, text: Seq<char>) -> Option<Seq<char>>;

/// The text that `String::from_utf8_lossy` reads from bytes.
pub uninterp spec fn lossy_text(bytes: Seq<u8>) -> Seq<char>;

/// `mailparse::parse_headers` on a header block, each header handed out by
/// `get_key` and `get_value`. Claimed: the outcome is a function of the bytes
/// alone, named `header_fields`.
#[verifier::external_body]
pub(crate) fn parse_header_block(block: &[u8]) -> (r: Result<HeaderStore, mailparse::MailParseError>)
    ensures
        r.is_ok() == header_fields(block@).is_some(),
        r matches Ok(hs) ==> hs@ == header_fields(block@).unwrap(),
{
    let (found, _) = mailparse::parse_headers(block)?;
    Ok(HeaderStore {
        entries: found.iter().map(|h| Header { name: h.get_key(), value: h.get_value() }).collect(),
    })
}

/// `mailparse::parse_content_type` on a header value. Claimed: the MIME type
/// and the boundary parameter are functions of the value alone, named
/// `content_type_fields`; and the MIME type, which comes out of
/// `to_lowercase`, holds no ASCII capital letter.
#[verifier::external_body]
pub(crate) fn parse_content_type(value: &str) -> (r: (String, Option<String>))
    ensures
        r.0@ == content_type_fields(value@).0,
        no_capitals(r.0@),
        r.1.is_some() == content_type_fields(value@).1.is_some(),
        r.1 matches Some(b) ==> b@ == content_type_fields(value@).1.unwrap(),
{
    let parsed = mailparse::parse_content_type(value);
    let boundary = parsed.params.get("boundary").cloned();
    (parsed.mimetype, boundary)
}

/// `mailparse::body::Body::new` on a body and a transfer encoding, then the
/// decoder of the variant it chose. Claimed: the outcome is a function of
/// both, named `transfer_decoded`.
#[verifier::external_body]
pub(crate) fn transfer_decode(body: &[u8], encoding: &str) -> (r: Result<Vec<u8>, mailparse::MailParseError>)
    ensures
        r.is_ok() == transfer_decoded(body@, encoding@).is_some(),
        r matches Ok(v) ==> v@ == transfer_decoded(body@, encoding@).unwrap(),
{
    let ctype = mailparse::ParsedContentType::default();
    let named = Some(encoding.to_string());
    match mailparse::body::Body::new(body, &ctype, &named) {
        mailparse::body::Body::Base64(b) => b.get_decoded(),
        mailparse::body::Body::QuotedPrintable(b) => b.get_decoded(),
        mailparse::body::Body::SevenBit(b) => Ok(b.get_raw().to_vec()),
        mailparse::body::Body::EightBit(b) => Ok(b.get_raw().to_vec()),
        mailparse::body::Body::Binary(b) => Ok(b.get_raw().to_vec()),
    }
}

/// `regex::Regex::new`, then `find_iter` on the text. Claimed: the matches are
/// a function of pattern and text, named `regex_matches`.
#[verifier::external_body]
pub(crate) fn find_all(pattern: &str, text: &str) -> (r: Option<Vec<String>>)
    ensures
        r.is_some() == regex_matches(pattern@, text@).is_some(),
        r matches Some(v) ==> texts(v@) == regex_matches(pattern@, text@).unwrap(),
{
    match regex::Regex::new(pattern) {
        Ok(re) => Some(re.find_iter(text).map(|m| m.as_str().to_string()).collect()),
        Err(_) => None,
    }
}

/// `regex::Regex::new`, then `captures` on the text and group 1 of what it
/// found. Claimed: the group is a function of pattern and text, named
/// `regex_first_group`.
#[verifier::external_body]
pub(crate) fn first_group(pattern: &str, text: &str) -> (r: Option<String>)
    ensures
        r.is_some() == regex_first_group(pattern@, text@).is_some(),
        r matches Some(v) ==> v@ == regex_first_group(pattern@, text@).unwrap(),
{
    match regex::Regex::new(pattern) {
        Ok(re) => re.captures(text).and_then(|c| c.get(1)).map(|m| m.as_str().to_string()),
        Err(_) => None,
    }
}

/// `String::from_utf8_lossy`. Claimed: the text is a function of the bytes,
/// named `lossy_text`, and for valid UTF-8 it is the text that the bytes
/// encode.
#[verifier::external_body]
pub(crate) fn bytes_to_text(bytes: &[u8]) -> (r: String)
    ensures
        r@ == lossy_text(bytes@),
        valid_utf8(bytes@) ==> r@ == decode_utf8(bytes@),
{
    String::from_utf8_lossy(bytes).into_owned()
}

} // verus!
