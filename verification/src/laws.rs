//! What holds of the library as a whole, stated over its models and proved.

use vstd::prelude::*;
use crate::folding::unfolded;
use crate::headers::{all_from, first_from};
use crate::mime::{body_block, decoded_body, is_opaque_leaf, parseable, part_sections, represents};
use crate::mime::{content_end, is_delim_at, line_end, next_delim, sections, sections_from};
use crate::mime::{disposition_value, header_block, mime_type, plain_type_is_lower_case, read_headers};
use crate::mime::{sep_len, split_point, MessagePart};
use crate::outside::transfer_decoded;
use crate::signals::{is_spoofed, leaf_findings, part_findings, spoof_findings, spoof_text, Category};
use crate::text::{cut_blank, decimal, is_space, same_name, skip_blank, trimmed};

verus! {

/// The split point is a separator, and no separator starts before it.
pub proof fn split_point_is_first_separator(raw: Seq<u8>, from: int)
    requires
        0 <= from <= raw.len(),
    ensures
        from <= split_point(raw, from) <= raw.len(),
        split_point(raw, from) < raw.len() ==> sep_len(raw, split_point(raw, from)) > 0,
        forall|j: int| from <= j < split_point(raw, from) ==> sep_len(raw, j) == 0,
    decreases raw.len() - from,
{
    if from < raw.len() && sep_len(raw, from) == 0 {
        split_point_is_first_separator(raw, from + 1);
    }
}

/// A message without a blank line between headers and body has no tree; the
/// empty message is one such.
pub proof fn missing_separator_is_malformed(raw: Seq<u8>)
    requires
        forall|j: int| 0 <= j < raw.len() ==> sep_len(raw, j) == 0,
    ensures
        !parseable(raw),
        forall|part: MessagePart| !represents(part, raw),
{
    split_point_is_first_separator(raw, 0);
}

/// A body without a transfer encoding, or under one that is neither `base64`
/// nor `quoted-printable`, is stored as it stands.
pub proof fn identity_decoding_keeps_body(raw: Seq<u8>, encoding: Option<Seq<char>>)
    requires
        encoding.is_some() ==> !same_name(trimmed(encoding.unwrap()), "base64"@) && !same_name(
            trimmed(encoding.unwrap()),
            "quoted-printable"@,
        ),
    ensures
        decoded_body(raw, encoding) == raw,
{
}

/// A message whose body does not fall into sections is a single leaf: it has
/// no children, and its body is the decoded body block.
pub proof fn single_part_is_leaf(part: MessagePart, raw: Seq<u8>)
    requires
        represents(part, raw),
        part_sections(part.headers@, body_block(raw)).len() == 0,
    ensures
        part.children@.len() == 0,
        part.body@ == decoded_body(
            body_block(raw),
            first_from(part.headers@, "Content-Transfer-Encoding"@, 0),
        ),
{
}

/// A multipart message has one child for each section of its body, in the
/// order of the sections, and the container itself carries no body.
pub proof fn children_follow_sections(part: MessagePart, raw: Seq<u8>, k: int)
    requires
        represents(part, raw),
        0 <= k < part_sections(part.headers@, body_block(raw)).len(),
    ensures
        part.children@.len() == part_sections(part.headers@, body_block(raw)).len(),
        part.body@.len() == 0,
        ({
            let span = part_sections(part.headers@, body_block(raw))[k];
            let sub = body_block(raw).subrange(span.0, span.1);
            if parseable(sub) {
                represents(part.children@[k], sub)
            } else {
                is_opaque_leaf(part.children@[k], sub)
            }
        }),
{
}

/// Every tree that stands for a message is well formed: each of its parts
/// is a leaf or a container, never both.
pub proof fn tree_is_well_formed(part: MessagePart, raw: Seq<u8>)
    requires
        represents(part, raw),
    ensures
        part.well_formed(),
    decreases raw.len(),
{
    let body = body_block(raw);
    let secs = part_sections(part.headers@, body);
    if secs.len() > 0 {
        assert forall|k: int| 0 <= k < part.children@.len() implies (#[trigger] part.children[k]).well_formed() by {
            let sub = body.subrange(secs[k].0, secs[k].1);
            if parseable(sub) {
                tree_is_well_formed(part.children@[k], sub);
            } else {
                plain_type_is_lower_case();
            }
        }
    }
}

/// The spoofing warning is given exactly where `From` and `Reply-To` are both
/// present and their trimmed values differ; it is then the only finding of
/// its pass and names both values.
pub proof fn spoofing_reported_iff_values_differ(hs: Seq<(Seq<char>, Seq<char>)>)
    ensures
        is_spoofed(hs) <==> spoof_findings(hs).len() == 1,
        !is_spoofed(hs) <==> spoof_findings(hs).len() == 0,
        is_spoofed(hs) <==> (first_from(hs, "From"@, 0).is_some() && first_from(hs, "Reply-To"@, 0).is_some()
            && trimmed(first_from(hs, "From"@, 0).unwrap()) != trimmed(
            first_from(hs, "Reply-To"@, 0).unwrap(),
        )),
        is_spoofed(hs) ==> spoof_findings(hs)[0].0 == Category::ReplyToSpoof && spoof_findings(hs)[0].2
            == spoof_text(
            trimmed(first_from(hs, "From"@, 0).unwrap()),
            trimmed(first_from(hs, "Reply-To"@, 0).unwrap()),
        ),
{
}

/// The warning text holds both values as they stand.
pub proof fn spoof_text_holds_both(from: Seq<char>, reply_to: Seq<char>)
    ensures
        spoof_text(from, reply_to).subrange(6, 6 + from.len() as int) == from,
        spoof_text(from, reply_to).subrange(18 + from.len() as int, 18 + from.len() as int + reply_to.len() as int) == reply_to,
{
    reveal_strlit("From='");
    reveal_strlit("' Reply-To='");
    reveal_strlit("'");
    assert(spoof_text(from, reply_to).subrange(6, 6 + from.len() as int) =~= from);
    assert(spoof_text(from, reply_to).subrange(18 + from.len() as int, 18 + from.len() as int + reply_to.len() as int)
        =~= reply_to);
}

/// The first value under a name is the head of all values under it.
pub proof fn first_is_head_of_all(hs: Seq<(Seq<char>, Seq<char>)>, name: Seq<char>, i: int)
    requires
        0 <= i,
    ensures
        first_from(hs, name, i).is_some() == (all_from(hs, name, i).len() > 0),
        first_from(hs, name, i).is_some() ==> first_from(hs, name, i).unwrap() == all_from(hs, name, i)[0],
    decreases hs.len() - i,
{
    if i < hs.len() && !same_name(hs[i].0, name) {
        first_is_head_of_all(hs, name, i + 1);
    }
}

/// Inserting a header keeps what was found before, in its order, and adds
/// the new value behind it where the name matches.
pub proof fn insert_keeps_order(
    hs: Seq<(Seq<char>, Seq<char>)>,
    added: (Seq<char>, Seq<char>),
    name: Seq<char>,
    i: int,
)
    requires
        0 <= i <= hs.len(),
    ensures
        all_from(hs.push(added), name, i) == all_from(hs, name, i) + (if same_name(added.0, name) {
            seq![added.1]
        } else {
            Seq::empty()
        }),
        first_from(hs, name, i).is_some() ==> first_from(hs.push(added), name, i) == first_from(hs, name, i),
    decreases hs.len() - i,
{
    let more = hs.push(added);
    if i < hs.len() {
        insert_keeps_order(hs, added, name, i + 1);
        assert(more[i] == hs[i]);
        assert(all_from(more, name, i) =~= all_from(hs, name, i) + (if same_name(added.0, name) {
            seq![added.1]
        } else {
            Seq::empty()
        }));
    } else {
        assert(more[i] == added);
        assert(all_from(more, name, i + 1) =~= Seq::<Seq<char>>::empty());
        assert(all_from(more, name, i) =~= all_from(hs, name, i) + (if same_name(added.0, name) {
            seq![added.1]
        } else {
            Seq::empty()
        }));
    }
}

/// The end of a line lies at or behind where the search began.
pub proof fn line_end_in_bounds(body: Seq<u8>, p: int)
    requires
        0 <= p <= body.len(),
    ensures
        p <= line_end(body, p) <= body.len(),
    decreases body.len() - p,
{
    if p < body.len() && body[p] != 10 {
        line_end_in_bounds(body, p + 1);
    }
}

/// The next delimiter lies at or behind where the search began, and is one.
pub proof fn next_delim_in_bounds(body: Seq<u8>, boundary: Seq<u8>, p: int)
    requires
        0 <= p <= body.len(),
    ensures
        p <= next_delim(body, boundary, p) <= body.len(),
        next_delim(body, boundary, p) < body.len() ==> is_delim_at(body, boundary, next_delim(body, boundary, p)),
    decreases body.len() - p,
{
    if p < body.len() && !is_delim_at(body, boundary, p) {
        next_delim_in_bounds(body, boundary, p + 1);
    }
}

/// The sections behind a delimiter lie inside the body, behind that
/// delimiter, and one behind the other in the order of the list.
pub proof fn sections_from_are_ordered(body: Seq<u8>, boundary: Seq<u8>, p: int)
    requires
        0 <= p,
    ensures
        forall|k: int|
            0 <= k < sections_from(body, boundary, p).len() ==> p < (#[trigger] sections_from(
                body,
                boundary,
                p,
            )[k]).0 <= sections_from(body, boundary, p)[k].1 < body.len(),
        forall|k: int|
            0 <= k && k + 1 < sections_from(body, boundary, p).len() ==> (#[trigger] sections_from(
                body,
                boundary,
                p,
            )[k]).1 < sections_from(body, boundary, p)[k + 1].0,
    decreases body.len() - p,
{
    let after = p + 2 + boundary.len();
    if after <= body.len() {
        line_end_in_bounds(body, after);
        let s = line_end(body, after);
        next_delim_in_bounds(body, boundary, s);
        let q = next_delim(body, boundary, s);
        if q < body.len() {
            sections_from_are_ordered(body, boundary, q);
            let rest = sections_from(body, boundary, q);
            let all = sections_from(body, boundary, p);
            let head = (s, content_end(body, s, q));
            if all.len() > 0 {
                assert(all =~= seq![head] + rest);
                assert(all[0] == head);
                assert forall|k: int| 1 <= k < all.len() implies all[k] == rest[k - 1] by {}
            }
        }
    }
}

/// The sections of a multipart body lie inside the body and follow one
/// another in the order of the list: the order of the children is the order
/// in which the sections stand in the message.
pub proof fn sections_are_ordered(body: Seq<u8>, boundary: Seq<u8>)
    ensures
        forall|k: int|
            0 <= k < sections(body, boundary).len() ==> 0 <= (#[trigger] sections(body, boundary)[k]).0
                <= sections(body, boundary)[k].1 < body.len(),
        forall|k: int|
            0 <= k && k + 1 < sections(body, boundary).len() ==> (#[trigger] sections(body, boundary)[k]).1
                < sections(body, boundary)[k + 1].0,
{
    next_delim_in_bounds(body, boundary, 0);
    sections_from_are_ordered(body, boundary, next_delim(body, boundary, 0));
}

/// A part carries the headers of its header block, the lower-cased MIME type
/// that they declare, and their disposition, `inline` where they name none.
pub proof fn part_carries_its_headers(part: MessagePart, raw: Seq<u8>)
    requires
        represents(part, raw),
    ensures
        Some(part.headers@) == read_headers(raw),
        part.content_type@ == mime_type(part.headers@),
        part.content_disposition@ == disposition_value(part.headers@),
        first_from(part.headers@, "Content-Disposition"@, 0).is_none() ==> part.content_disposition@
            == "inline"@,
{
}

/// Two messages whose header blocks differ only in how their headers are
/// folded over lines carry the same headers.
pub proof fn folding_does_not_change_headers(first: MessagePart, raw: Seq<u8>, second: MessagePart, folded: Seq<u8>)
    requires
        represents(first, raw),
        represents(second, folded),
        unfolded(header_block(raw)) == unfolded(header_block(folded)),
    ensures
        first.headers@ == second.headers@,
        first.content_type@ == second.content_type@,
        first.content_disposition@ == second.content_disposition@,
{
}

/// The body block of a message that splits is shorter than the message, so
/// every part of a tree stands for fewer bytes than its parent.
pub proof fn body_is_shorter_than_message(raw: Seq<u8>)
    requires
        split_point(raw, 0) < raw.len(),
    ensures
        body_block(raw).len() < raw.len(),
        header_block(raw).len() + sep_len(raw, split_point(raw, 0)) + body_block(raw).len() == raw.len(),
{
    split_point_is_first_separator(raw, 0);
}

/// Skipping blanks stops at the first character that is none: everything
/// passed over is blank.
pub proof fn skip_blank_stops(s: Seq<char>, i: int)
    requires
        0 <= i <= s.len(),
    ensures
        i <= skip_blank(s, i) <= s.len(),
        skip_blank(s, i) < s.len() ==> !is_space(s[skip_blank(s, i)]),
        forall|k: int| i <= k < skip_blank(s, i) ==> is_space(#[trigger] s[k]),
    decreases s.len() - i,
{
    if i < s.len() && is_space(s[i]) {
        skip_blank_stops(s, i + 1);
    }
}

/// Cutting blanks off the end stops behind the last character that is none:
/// everything cut off is blank.
pub proof fn cut_blank_stops(s: Seq<char>, lo: int, j: int)
    requires
        0 <= lo <= j <= s.len(),
    ensures
        lo <= cut_blank(s, lo, j) <= j,
        cut_blank(s, lo, j) > lo ==> !is_space(s[cut_blank(s, lo, j) - 1]),
        forall|k: int| cut_blank(s, lo, j) <= k < j ==> is_space(#[trigger] s[k]),
    decreases j - lo,
{
    if lo < j && is_space(s[j - 1]) {
        cut_blank_stops(s, lo, j - 1);
    }
}

/// A trimmed text neither begins nor ends with a blank, and the text it was
/// cut from is that text with blanks alone before and behind it.
pub proof fn trimmed_has_no_outer_blanks(s: Seq<char>)
    ensures
        trimmed(s).len() > 0 ==> !is_space(trimmed(s)[0]) && !is_space(trimmed(s)[trimmed(s).len() - 1]),
        exists|before: Seq<char>, behind: Seq<char>|
            s == before + trimmed(s) + behind && (forall|k: int|
                0 <= k < before.len() ==> is_space(#[trigger] before[k])) && (forall|k: int|
                0 <= k < behind.len() ==> is_space(#[trigger] behind[k])),
{
    skip_blank_stops(s, 0);
    let lo = skip_blank(s, 0);
    cut_blank_stops(s, lo, s.len() as int);
    let hi = cut_blank(s, lo, s.len() as int);
    let before = s.subrange(0, lo);
    let behind = s.subrange(hi, s.len() as int);
    assert(s =~= before + trimmed(s) + behind);
    assert forall|k: int| 0 <= k < before.len() implies is_space(#[trigger] before[k]) by {
        assert(before[k] == s[k]);
    }
    assert forall|k: int| 0 <= k < behind.len() implies is_space(#[trigger] behind[k]) by {
        assert(behind[k] == s[hi + k]);
    }
}

/// A single-part message is reported as exactly one leaf: the walk gives the
/// findings of that leaf and no others, and its size finding is the decimal
/// numeral of the length of the stored body.
pub proof fn single_leaf_is_reported_once(part: MessagePart, raw: Seq<u8>)
    requires
        represents(part, raw),
        part_sections(part.headers@, body_block(raw)).len() == 0,
    ensures
        part.children@.len() == 0,
        part_findings(part) == leaf_findings(part),
        part_findings(part).len() >= 3,
        part_findings(part)[0] == (Category::HeaderEcho, "content-type"@, part.content_type@),
        part_findings(part)[1] == (Category::HeaderEcho, "content-disposition"@, part.content_disposition@),
        part_findings(part)[2] == (Category::HeaderEcho, "body-size"@, decimal(part.body@.len())),
{
}

/// The body of a single-part message is what its transfer encoding stands
/// for. Without an encoding, or under one that is neither `base64` nor
/// `quoted-printable`, it is the body block itself. Under `base64` or
/// `quoted-printable`, where the decoder gives `decoded` for the body block,
/// the leaf holds `decoded` and reports its length.
pub proof fn leaf_holds_the_decoded_body(part: MessagePart, raw: Seq<u8>, decoded: Seq<u8>)
    requires
        represents(part, raw),
        part_sections(part.headers@, body_block(raw)).len() == 0,
    ensures
        ({
            let encoding = first_from(part.headers@, "Content-Transfer-Encoding"@, 0);
            let body = body_block(raw);
            let base64 = encoding.is_some() && same_name(trimmed(encoding.unwrap()), "base64"@);
            let quoted = encoding.is_some() && !base64 && same_name(
                trimmed(encoding.unwrap()),
                "quoted-printable"@,
            );
            &&& !base64 && !quoted ==> part.body@ == body
            &&& base64 && transfer_decoded(body, "base64"@) == Some(decoded) ==> part.body@ == decoded
            &&& quoted && transfer_decoded(body, "quoted-printable"@) == Some(decoded) ==> part.body@
                == decoded
            &&& base64 && transfer_decoded(body, "base64"@).is_none() ==> part.body@ == body
            &&& quoted && transfer_decoded(body, "quoted-printable"@).is_none() ==> part.body@ == body
            &&& part.body@ == decoded ==> part_findings(part)[2] == (
                Category::HeaderEcho,
                "body-size"@,
                decimal(decoded.len()),
            )
        }),
{
    single_leaf_is_reported_once(part, raw);
}

} // verus!
