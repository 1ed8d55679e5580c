//! The MIME tree: splitting a raw message into headers and body, cutting a
//! multipart body into its sections, and building the tree of parts.

use vstd::prelude::*;
use vstd::slice::slice_subrange;
use vstd::slice::slice_to_vec;
use vstd::string::*;
use vstd::utf8::encode_utf8;
use crate::folding::{unfold, unfolded};
use crate::headers::{first_from, HeaderStore};
use crate::outside::{content_type_fields, header_fields, transfer_decoded};
use crate::outside::{parse_content_type, parse_header_block, transfer_decode};
use crate::text::{eq_ignore_case, has_prefix, no_capitals, occurs_at, same_name, trim, trimmed};

verus! {

/// Why a message could not be taken apart.
#[derive(Clone, Copy, Debug, PartialEq, Eq)]
pub enum ParseError {
    /// No blank line parts headers from body, or the headers cannot be read.
    MalformedMessage,
}

/// One node of the MIME tree.
#[derive(Debug)]
pub struct MessagePart {
    pub headers: HeaderStore,
    pub content_type: String,
    pub content_disposition: String,
    pub body: Vec<u8>,
    pub children: Vec<MessagePart>,
}

/// The bytes open with a line break: the first line is blank, and the
/// header block is empty.
pub open spec fn leading_break(raw: Seq<u8>) -> int {
    if raw.len() >= 2 && raw[0] == 13 && raw[1] == 10 {
        2
    } else if raw.len() >= 1 && raw[0] == 10 {
        1
    } else {
        0
    }
}

/// Length of the blank-line separator that starts at `i`: that of a line
/// break with which the bytes open, 4 for CRLF CRLF, 2 for LF LF, 0 where
/// none starts there.
pub open spec fn sep_len(raw: Seq<u8>, i: int) -> int {
    if i == 0 && leading_break(raw) > 0 {
        leading_break(raw)
    } else if 0 <= i && i + 4 <= raw.len() && raw[i] == 13 && raw[i + 1] == 10 && raw[i + 2] == 13 && raw[i + 3]
        == 10 {
        4
    } else if 0 <= i && i + 2 <= raw.len() && raw[i] == 10 && raw[i + 1] == 10 {
        2
    } else {
        0
    }
}

/// Index of the first separator at or after `i`, or the length where there is none.
pub open spec fn split_point(raw: Seq<u8>, i: int) -> int
    decreases raw.len() - i,
{
    if i < 0 || i >= raw.len() {
        raw.len() as int
    } else if sep_len(raw, i) > 0 {
        i
    } else {
        split_point(raw, i + 1)
    }
}

/// The bytes before the first separator.
pub open spec fn header_block(raw: Seq<u8>) -> Seq<u8> {
    raw.subrange(0, split_point(raw, 0))
}

/// The bytes behind the first separator.
pub open spec fn body_block(raw: Seq<u8>) -> Seq<u8> {
    let i = split_point(raw, 0);
    raw.subrange(i + sep_len(raw, i), raw.len() as int)
}

/// A delimiter line for `boundary` starts at `p`: two dashes and the boundary,
/// at the start of a line.
pub open spec fn is_delim_at(body: Seq<u8>, boundary: Seq<u8>, p: int) -> bool {
    0 <= p && p + 2 + boundary.len() <= body.len() && (p == 0 || body[p - 1] == 10) && body[p] == 45
        && body[p + 1] == 45 && body.subrange(p + 2, p + 2 + boundary.len()) == boundary
}

/// Start of the first delimiter line at or after `p`, or the length.
pub open spec fn next_delim(body: Seq<u8>, boundary: Seq<u8>, p: int) -> int
    decreases body.len() - p,
{
    if p < 0 || p >= body.len() {
        body.len() as int
    } else if is_delim_at(body, boundary, p) {
        p
    } else {
        next_delim(body, boundary, p + 1)
    }
}

/// Index just behind the first line feed at or after `p`, or the length.
pub open spec fn line_end(body: Seq<u8>, p: int) -> int
    decreases body.len() - p,
{
    if p < 0 || p >= body.len() {
        body.len() as int
    } else if body[p] == 10 {
        p + 1
    } else {
        line_end(body, p + 1)
    }
}

/// Two dashes follow at `after`: the delimiter is the closing one.
pub open spec fn is_close(body: Seq<u8>, after: int) -> bool {
    0 <= after && after + 2 <= body.len() && body[after] == 45 && body[after + 1] == 45
}

/// End of a section that starts at `s` and is followed by a delimiter at `q`:
/// the line break before the delimiter belongs to the delimiter.
pub open spec fn content_end(body: Seq<u8>, s: int, q: int) -> int {
    if s < q <= body.len() && body[q - 1] == 10 {
        if s < q - 1 && body[q - 2] == 13 {
            q - 2
        } else {
            q - 1
        }
    } else {
        q
    }
}

/// The sections that follow the delimiter line at `p`, as index pairs into
/// the body. A section runs from the end of one delimiter line to the start
/// of the next; the closing delimiter ends the list, and what follows the
/// last delimiter is dropped.
pub open spec fn sections_from(body: Seq<u8>, boundary: Seq<u8>, p: int) -> Seq<(int, int)>
    decreases body.len() - p,
{
    let after = p + 2 + boundary.len();
    if p < 0 || after > body.len() || is_close(body, after) {
        Seq::empty()
    } else {
        let s = line_end(body, after);
        let q = next_delim(body, boundary, s);
        if q <= p || q >= body.len() {
            Seq::empty()
        } else {
            seq![(s, content_end(body, s, q))] + sections_from(body, boundary, q)
        }
    }
}

/// The sections of a multipart body, in order.
pub open spec fn sections(body: Seq<u8>, boundary: Seq<u8>) -> Seq<(int, int)> {
    sections_from(body, boundary, next_delim(body, boundary, 0))
}

/// The index pairs that a vector holds.
pub open spec fn spans(v: Seq<(usize, usize)>) -> Seq<(int, int)> {
    Seq::new(v.len(), |i: int| (v[i].0 as int, v[i].1 as int))
}

/// The `Content-Type` value that governs a part.
pub open spec fn content_type_value(hs: Seq<(Seq<char>, Seq<char>)>) -> Seq<char> {
    match first_from(hs, "Content-Type"@, 0) {
        Some(v) => v,
        None => "text/plain; charset=us-ascii"@,
    }
}

/// The disposition of a part: its header's value, or `inline`.
pub open spec fn disposition_value(hs: Seq<(Seq<char>, Seq<char>)>) -> Seq<char> {
    match first_from(hs, "Content-Disposition"@, 0) {
        Some(v) => v,
        None => "inline"@,
    }
}

/// The lower-cased MIME type of a part.
pub open spec fn mime_type(hs: Seq<(Seq<char>, Seq<char>)>) -> Seq<char> {
    content_type_fields(content_type_value(hs)).0
}

/// The boundary in bytes, where the type is a multipart one and a boundary
/// parameter came with it.
pub open spec fn boundary_bytes(content_type: Seq<char>, boundary: Option<Seq<char>>) -> Option<Seq<u8>> {
    if occurs_at(content_type, "multipart/"@, 0) && boundary.is_some() {
        Some(encode_utf8(boundary.unwrap()))
    } else {
        None
    }
}

/// The sections into which a body falls under a type and its boundary
/// parameter; none for a type that is not multipart or comes without one.
pub open spec fn declared_sections(content_type: Seq<char>, boundary: Option<Seq<char>>, body: Seq<u8>) -> Seq<
    (int, int),
> {
    match boundary_bytes(content_type, boundary) {
        Some(b) => sections(body, b),
        None => Seq::empty(),
    }
}

/// The sections into which a part's body falls, by its own headers.
pub open spec fn part_sections(hs: Seq<(Seq<char>, Seq<char>)>, body: Seq<u8>) -> Seq<(int, int)> {
    let f = content_type_fields(content_type_value(hs));
    declared_sections(f.0, f.1, body)
}

/// A decoder's outcome, or the bytes as they stand where it failed.
pub open spec fn or_raw(decoded: Option<Seq<u8>>, raw: Seq<u8>) -> Seq<u8> {
    match decoded {
        Some(d) => d,
        None => raw,
    }
}

/// The body of a leaf under its `Content-Transfer-Encoding`: decoded for
/// `base64` and `quoted-printable`, unchanged for anything else, and
/// unchanged too where decoding fails.
pub open spec fn decoded_body(raw: Seq<u8>, encoding: Option<Seq<char>>) -> Seq<u8> {
    match encoding {
        None => raw,
        Some(e) => {
            if same_name(trimmed(e), "base64"@) {
                or_raw(transfer_decoded(raw, "base64"@), raw)
            } else if same_name(trimmed(e), "quoted-printable"@) {
                or_raw(transfer_decoded(raw, "quoted-printable"@), raw)
            } else {
                raw
            }
        },
    }
}

/// The headers of a message: its header block, unfolded and then read; none
/// where the block cannot be read.
pub open spec fn read_headers(raw: Seq<u8>) -> Option<Seq<(Seq<char>, Seq<char>)>> {
    header_fields(unfolded(header_block(raw)))
}

/// The bytes split into headers and body, and the headers can be read.
pub open spec fn parseable(raw: Seq<u8>) -> bool {
    split_point(raw, 0) < raw.len() && read_headers(raw).is_some()
}

/// A part that stands for bytes which could not be parsed: no headers, the
/// default type, the bytes as its body.
pub open spec fn is_opaque_leaf(part: MessagePart, raw: Seq<u8>) -> bool {
    part.headers@.len() == 0 && part.content_type@ == "text/plain"@ && part.content_disposition@
        == "inline"@ && part.body@ == raw && part.children@.len() == 0
}

/// `part` is the part with these headers, this MIME type and boundary
/// parameter, and this body block: a leaf with the decoded body where the
/// body does not fall into sections, else a container with one child for
/// each section, in order.
pub open spec fn built_from(
    part: MessagePart,
    hs: Seq<(Seq<char>, Seq<char>)>,
    content_type: Seq<char>,
    boundary: Option<Seq<char>>,
    body: Seq<u8>,
) -> bool
    decreases body.len(), 1int,
{
    let secs = declared_sections(content_type, boundary, body);
    &&& part.headers@ == hs
    &&& part.content_type@ == content_type
    &&& no_capitals(content_type)
    &&& part.content_disposition@ == disposition_value(hs)
    &&& if secs.len() == 0 {
        part.children@.len() == 0 && part.body@ == decoded_body(
            body,
            first_from(hs, "Content-Transfer-Encoding"@, 0),
        )
    } else {
        &&& part.body@.len() == 0
        &&& part.children@.len() == secs.len()
        &&& forall|k: int|
            0 <= k < secs.len() ==> {
                let sub = body.subrange((#[trigger] secs[k]).0, secs[k].1);
                &&& 0 <= secs[k].0 <= secs[k].1 <= body.len()
                &&& if parseable(sub) {
                    represents(part.children@[k], sub)
                } else {
                    is_opaque_leaf(part.children@[k], sub)
                }
            }
    }
}

/// `part` is the tree that `raw` describes.
pub open spec fn represents(part: MessagePart, raw: Seq<u8>) -> bool
    decreases raw.len(), 0int,
{
    let body = body_block(raw);
    let hs = read_headers(raw).unwrap();
    let f = content_type_fields(content_type_value(hs));
    parseable(raw) && body.len() < raw.len() && built_from(part, hs, f.0, f.1, body)
}

impl MessagePart {
    /// A part is a leaf or a container, never both.
    pub open spec fn shape_ok(&self) -> bool {
        self.children@.len() == 0 || self.body@.len() == 0
    }

    /// Every part of the tree is a leaf or a container, never both, and
    /// carries its MIME type in lower case.
    pub open spec fn well_formed(&self) -> bool
        decreases self,
    {
        self.shape_ok() && no_capitals(self.content_type@) && forall|k: int|
            0 <= k < self.children@.len() ==> (#[trigger] self.children[k]).well_formed()
    }

    /// Whether the part carries no children.
    pub fn is_leaf(&self) -> (r: bool)
        ensures
            r == (self.children@.len() == 0),
    {
        self.children.len() == 0
    }
}

/// Finds the first blank line: its index and the length of the separator.
pub fn find_separator(raw: &[u8]) -> (r: Option<(usize, usize)>)
    ensures
        r.is_some() == (split_point(raw@, 0) < raw@.len()),
        r.is_some() ==> r.unwrap().0 == split_point(raw@, 0),
        r.is_some() ==> r.unwrap().1 == sep_len(raw@, r.unwrap().0 as int),
        r.is_some() ==> r.unwrap().1 > 0 && r.unwrap().0 + r.unwrap().1 <= raw@.len(),
{
    let n: usize = raw.len();
    if n >= 2 && raw[0] == 13 && raw[1] == 10 {
        return Some((0, 2));
    }
    if n >= 1 && raw[0] == 10 {
        return Some((0, 1));
    }
    let mut i: usize = 0;
    while i < n
        invariant
            i <= n,
            n == raw@.len(),
            leading_break(raw@) == 0,
            split_point(raw@, 0) == split_point(raw@, i as int),
        decreases n - i,
    {
        if n - i >= 4 && raw[i] == 13 && raw[i + 1] == 10 && raw[i + 2] == 13 && raw[i + 3] == 10 {
            return Some((i, 4));
        }
        if n - i >= 2 && raw[i] == 10 && raw[i + 1] == 10 {
            return Some((i, 2));
        }
        i += 1;
    }
    None
}

/// Whether a delimiter line for `boundary` starts at `p`.
pub fn delim_at(body: &[u8], boundary: &[u8], p: usize) -> (r: bool)
    ensures
        r == is_delim_at(body@, boundary@, p as int),
{
    let n: usize = body.len();
    let m: usize = boundary.len();
    if p > n || m > n - p || n - p - m < 2 {
        return false;
    }
    if p > 0 && body[p - 1] != 10 {
        return false;
    }
    if body[p] != 45 || body[p + 1] != 45 {
        return false;
    }
    let mut k: usize = 0;
    while k < m
        invariant
            k <= m,
            n == body@.len(),
            m == boundary@.len(),
            p + 2 + m <= n,
            forall|j: int| 0 <= j < k ==> body@[p + 2 + j] == #[trigger] boundary@[j],
        decreases m - k,
    {
        if body[p + 2 + k] != boundary[k] {
            assert(body@.subrange(p + 2, p + 2 + m)[k as int] == body@[p + 2 + k]);
            return false;
        }
        k += 1;
    }
    assert(body@.subrange(p + 2, p + 2 + m) =~= boundary@);
    true
}

/// Start of the first delimiter line at or after `p`.
pub fn find_delim(body: &[u8], boundary: &[u8], p: usize) -> (r: usize)
    requires
        p <= body@.len(),
    ensures
        r == next_delim(body@, boundary@, p as int),
        p <= r <= body@.len(),
        r < body@.len() ==> is_delim_at(body@, boundary@, r as int),
{
    let n: usize = body.len();
    let mut i: usize = p;
    while i < n
        invariant
            p <= i <= n,
            n == body@.len(),
            next_delim(body@, boundary@, p as int) == next_delim(body@, boundary@, i as int),
        decreases n - i,
    {
        if delim_at(body, boundary, i) {
            return i;
        }
        i += 1;
    }
    n
}

/// Index just behind the first line feed at or after `p`.
pub fn find_line_end(body: &[u8], p: usize) -> (r: usize)
    requires
        p <= body@.len(),
    ensures
        r == line_end(body@, p as int),
        p <= r <= body@.len(),
{
    let n: usize = body.len();
    let mut i: usize = p;
    while i < n
        invariant
            p <= i <= n,
            n == body@.len(),
            line_end(body@, p as int) == line_end(body@, i as int),
        decreases n - i,
    {
        if body[i] == 10 {
            return i + 1;
        }
        i += 1;
    }
    n
}

/// Cuts a multipart body into its sections, as index pairs into the body.
pub fn split_sections(body: &[u8], boundary: &[u8]) -> (r: Vec<(usize, usize)>)
    ensures
        spans(r@) == sections(body@, boundary@),
        forall|k: int| 0 <= k < r@.len() ==> (#[trigger] r@[k]).0 <= r@[k].1 <= body@.len(),
{
    let n: usize = body.len();
    let m: usize = boundary.len();
    let mut out: Vec<(usize, usize)> = Vec::new();
    assert(spans(out@) =~= Seq::<(int, int)>::empty());
    let mut p: usize = find_delim(body, boundary, 0);
    if p >= n {
        return out;
    }
    loop
        invariant
            n == body@.len(),
            m == boundary@.len(),
            p < n,
            is_delim_at(body@, boundary@, p as int),
            sections(body@, boundary@) == spans(out@) + sections_from(body@, boundary@, p as int),
            forall|k: int| 0 <= k < out@.len() ==> (#[trigger] out@[k]).0 <= out@[k].1 <= body@.len(),
        decreases n - p,
    {
        let after: usize = p + 2 + m;
        if n - after >= 2 && body[after] == 45 && body[after + 1] == 45 {
            assert(spans(out@) + Seq::<(int, int)>::empty() =~= spans(out@));
            return out;
        }
        let s: usize = find_line_end(body, after);
        let q: usize = find_delim(body, boundary, s);
        if q >= n {
            assert(spans(out@) + Seq::<(int, int)>::empty() =~= spans(out@));
            return out;
        }
        let mut e: usize = q;
        if q > s && body[q - 1] == 10 {
            if q - 1 > s && body[q - 2] == 13 {
                e = q - 2;
            } else {
                e = q - 1;
            }
        }
        let ghost before = spans(out@);
        out.push((s, e));
        assert(spans(out@) =~= before.push((s as int, e as int)));
        assert(spans(out@) + sections_from(body@, boundary@, q as int) =~= before + sections_from(
            body@,
            boundary@,
            p as int,
        ));
        p = q;
    }
}

/// Decodes a leaf's body under the value of its `Content-Transfer-Encoding`.
pub fn decode_body(raw: &[u8], encoding: Option<String>) -> (r: Vec<u8>)
    ensures
        r@ == decoded_body(
            raw@,
            match encoding {
                Some(e) => Some(e@),
                None => None,
            },
        ),
{
    match encoding {
        None => slice_to_vec(raw),
        Some(e) => {
            let t = trim(e.as_str());
            if eq_ignore_case(t.as_str(), "base64") {
                finish_decoding(transfer_decode(raw, "base64"), raw)
            } else if eq_ignore_case(t.as_str(), "quoted-printable") {
                finish_decoding(transfer_decode(raw, "quoted-printable"), raw)
            } else {
                slice_to_vec(raw)
            }
        },
    }
}

/// The decoder's bytes, or the raw ones where it reported an error.
pub fn finish_decoding(decoded: Result<Vec<u8>, mailparse::MailParseError>, raw: &[u8]) -> (r: Vec<u8>)
    ensures
        r@ == (match decoded {
            Ok(v) => v@,
            Err(_) => raw@,
        }),
{
    match decoded {
        Ok(v) => v,
        Err(_) => slice_to_vec(raw),
    }
}

/// The default MIME type is written in lower case.
pub proof fn plain_type_is_lower_case()
    ensures
        no_capitals("text/plain"@),
{
    reveal_strlit("text/plain");
}

/// The part that stands for a section which could not be parsed.
pub fn opaque_leaf(raw: &[u8]) -> (r: MessagePart)
    ensures
        is_opaque_leaf(r, raw@),
        r.well_formed(),
{
    proof {
        plain_type_is_lower_case();
    }
    MessagePart {
        headers: HeaderStore::new(),
        content_type: "text/plain".to_owned(),
        content_disposition: "inline".to_owned(),
        body: slice_to_vec(raw),
        children: Vec::new(),
    }
}

/// The view of an optional text.
pub open spec fn text_of(t: Option<String>) -> Option<Seq<char>> {
    match t {
        Some(v) => Some(v@),
        None => None,
    }
}

/// Builds a part from its headers, its MIME type and boundary parameter, and
/// its body block: cuts a multipart body into sections and builds a child
/// from each, or decodes the body of a leaf.
pub fn build_part(headers: HeaderStore, content_type: String, boundary: Option<String>, body: &[u8]) -> (r:
    MessagePart)
    requires
        no_capitals(content_type@),
    ensures
        built_from(r, headers@, content_type@, text_of(boundary), body@),
        r.well_formed(),
    decreases body@.len(), 1int,
{
    let content_disposition = match headers.first("Content-Disposition") {
        Some(v) => v,
        None => "inline".to_owned(),
    };
    let mut children: Vec<MessagePart> = Vec::new();
    let ghost secs = declared_sections(content_type@, text_of(boundary), body@);
    if has_prefix(content_type.as_str(), "multipart/") {
        if let Some(b) = boundary {
            let found = split_sections(body, b.as_str().as_bytes());
            let mut k: usize = 0;
            while k < found.len()
                invariant
                    k <= found@.len(),
                    spans(found@) == secs,
                    children@.len() == k,
                    forall|j: int| 0 <= j < k ==> (#[trigger] children[j]).well_formed(),
                    forall|j: int| 0 <= j < found@.len() ==> (#[trigger] found@[j]).0 <= found@[j].1 <= body@.len(),
                    forall|j: int|
                        0 <= j < k ==> {
                            let sub = body@.subrange((#[trigger] secs[j]).0, secs[j].1);
                            if parseable(sub) {
                                represents(children@[j], sub)
                            } else {
                                is_opaque_leaf(children@[j], sub)
                            }
                        },
                decreases found@.len() - k,
            {
                let (a, z) = found[k];
                assert(secs[k as int] == (a as int, z as int));
                let sub = slice_subrange(body, a, z);
                let child = match parse_message(sub) {
                    Ok(c) => c,
                    Err(_) => opaque_leaf(sub),
                };
                children.push(child);
                k += 1;
            }
        }
    }
    let body_bytes = if children.len() == 0 {
        decode_body(body, headers.first("Content-Transfer-Encoding"))
    } else {
        Vec::new()
    };
    MessagePart { headers, content_type, content_disposition, body: body_bytes, children }
}

/// Builds the MIME tree of a raw message.
///
/// Fails exactly where no blank line parts headers from body or the header
/// block cannot be read. A section of a multipart body that cannot be parsed
/// becomes an opaque leaf and does not fail the whole.
pub fn parse_message(raw: &[u8]) -> (r: Result<MessagePart, ParseError>)
    ensures
        r.is_ok() == parseable(raw@),
        r matches Ok(part) ==> represents(part, raw@) && part.well_formed(),
        r matches Err(e) ==> e == ParseError::MalformedMessage,
    decreases raw@.len(), 0int,
{
    let total: usize = raw.len();
    let found_at = find_separator(raw);
    if found_at.is_none() {
        return Err(ParseError::MalformedMessage);
    }
    let at = found_at.unwrap();
    let i: usize = at.0;
    let n: usize = at.1;
    let block = slice_subrange(raw, 0, i);
    let body = slice_subrange(raw, i + n, total);
    let flat = unfold(block);
    let headers = match parse_header_block(flat.as_slice()) {
        Ok(h) => h,
        Err(_) => {
            return Err(ParseError::MalformedMessage);
        },
    };
    let declared = match headers.first("Content-Type") {
        Some(v) => v,
        None => "text/plain; charset=us-ascii".to_owned(),
    };
    let (content_type, boundary) = parse_content_type(declared.as_str());
    Ok(build_part(headers, content_type, boundary, body))
}

} // verus!
