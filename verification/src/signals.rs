//! The security-signal passes: what the headers and the parts of a message
//! give away, as an ordered list of findings.

use vstd::prelude::*;
use vstd::string::*;
use vstd::utf8::{decode_utf8, valid_utf8};
use crate::headers::{all_from, first_from, texts, HeaderStore};
use crate::mime::MessagePart;
use crate::outside::{bytes_to_text, find_all, first_group};
use crate::outside::{lossy_text, regex_first_group, regex_matches};
use crate::text::{after_last, contains, contains_text, eq_ignore_case, find_after_last, find_char};
use crate::text::{decimal, decimal_text, index_of, same_name, slice_text, trim, trimmed};

verus! {

/// The kind of a finding.
#[derive(Clone, Copy, Debug, PartialEq, Eq)]
pub enum Category {
    AuthHeader,
    SenderIp,
    ReplyToSpoof,
    Url,
    SuspiciousAttachment,
    HeaderEcho,
}

/// One unit of extracted information.
#[derive(Clone, Debug, PartialEq, Eq)]
pub struct Finding {
    pub category: Category,
    pub label: String,
    pub value: String,
}

impl Finding {
    /// Category, label and value.
    pub open spec fn view(&self) -> (Category, Seq<char>, Seq<char>) {
        (self.category, self.label@, self.value@)
    }
}

/// The findings that a vector holds.
pub open spec fn views(v: Seq<Finding>) -> Seq<(Category, Seq<char>, Seq<char>)> {
    Seq::new(v.len(), |i: int| v[i]@)
}

/// One finding per value, all of one category and label.
pub open spec fn tagged(category: Category, label: Seq<char>, values: Seq<Seq<char>>) -> Seq<
    (Category, Seq<char>, Seq<char>),
> {
    Seq::new(values.len(), |i: int| (category, label, values[i]))
}

/// The matches of a pattern, none where there is no list.
pub open spec fn or_none(found: Option<Seq<Seq<char>>>) -> Seq<Seq<char>> {
    match found {
        Some(m) => m,
        None => Seq::empty(),
    }
}

/// A text without the double quotes around it, where it has both.
pub open spec fn unquoted(s: Seq<char>) -> Seq<char> {
    if s.len() >= 2 && s[0] == '"' && s[s.len() - 1] == '"' {
        s.subrange(1, s.len() - 1)
    } else {
        s
    }
}

/// An address value holds `<`, and `>` somewhere behind it.
pub open spec fn has_angle(v: Seq<char>) -> bool {
    let lt = index_of(v, '<', 0);
    lt < v.len() && index_of(v, '>', lt + 1) < v.len()
}

/// The display name of an address: what stands before the first `<`, trimmed
/// and unquoted; empty where the value has no angle brackets.
pub open spec fn display_name(v: Seq<char>) -> Seq<char> {
    if has_angle(v) {
        unquoted(trimmed(v.subrange(0, index_of(v, '<', 0))))
    } else {
        Seq::empty()
    }
}

/// The email of an address: what stands between the angle brackets, trimmed;
/// the whole trimmed value where it has none.
pub open spec fn email_of(v: Seq<char>) -> Seq<char> {
    if has_angle(v) {
        let lt = index_of(v, '<', 0);
        trimmed(v.subrange(lt + 1, index_of(v, '>', lt + 1)))
    } else {
        trimmed(v)
    }
}

/// Name and email of the first header called `name`, where there is one.
pub open spec fn address_findings(
    hs: Seq<(Seq<char>, Seq<char>)>,
    name: Seq<char>,
    name_label: Seq<char>,
    email_label: Seq<char>,
) -> Seq<(Category, Seq<char>, Seq<char>)> {
    match first_from(hs, name, 0) {
        Some(v) => seq![
            (Category::HeaderEcho, name_label, display_name(v)),
            (Category::HeaderEcho, email_label, email_of(v)),
        ],
        None => Seq::empty(),
    }
}

/// The trimmed subject, where there is one.
pub open spec fn subject_findings(hs: Seq<(Seq<char>, Seq<char>)>) -> Seq<(Category, Seq<char>, Seq<char>)> {
    match first_from(hs, "Subject"@, 0) {
        Some(v) => seq![(Category::HeaderEcho, "subject"@, trimmed(v))],
        None => Seq::empty(),
    }
}

/// The first value of one authentication header, where it is present.
pub open spec fn auth_finding(hs: Seq<(Seq<char>, Seq<char>)>, name: Seq<char>) -> Seq<
    (Category, Seq<char>, Seq<char>),
> {
    match first_from(hs, name, 0) {
        Some(v) => seq![(Category::AuthHeader, name, v)],
        None => Seq::empty(),
    }
}

/// The authentication headers, in their fixed order.
pub open spec fn auth_findings(hs: Seq<(Seq<char>, Seq<char>)>) -> Seq<(Category, Seq<char>, Seq<char>)> {
    auth_finding(hs, "Authentication-Results"@) + auth_finding(hs, "Received-SPF"@) + auth_finding(
        hs,
        "DKIM-Signature"@,
    ) + auth_finding(hs, "ARC-Authentication-Results"@) + auth_finding(hs, "DMARC-Filter"@)
}

/// The pattern of an IPv4-shaped text: four groups of one to three digits.
pub open spec fn ip_pattern() -> Seq<char> {
    "(\\d{1,3}\\.){3}\\d{1,3}"@
}

/// The pattern of a URL: the scheme, then everything up to a blank, a quote
/// or an angle bracket.
pub open spec fn url_pattern() -> Seq<char> {
    "https?://[^\\s\"'<>]+"@
}

/// The pattern of a quoted `filename` parameter: its value, in the first
/// group, is what stands between `filename="` and the next double quote.
pub open spec fn quoted_filename_pattern() -> Seq<char> {
    "filename=\"([^\"]+)\""@
}

/// The pattern of an unquoted `filename` parameter: its value, in the first
/// group, runs up to the next semicolon.
pub open spec fn bare_filename_pattern() -> Seq<char> {
    "filename=([^\";]+)"@
}

/// The value of the `filename` parameter of a disposition: the quoted value
/// where there is one, else the unquoted one.
pub open spec fn filename_value(disposition: Seq<char>) -> Option<Seq<char>> {
    match regex_first_group(quoted_filename_pattern(), disposition) {
        Some(v) => Some(v),
        None => regex_first_group(bare_filename_pattern(), disposition),
    }
}

/// The IP findings of the `Received` values from index `i` on.
pub open spec fn ip_findings_from(values: Seq<Seq<char>>, i: int) -> Seq<(Category, Seq<char>, Seq<char>)>
    decreases values.len() - i,
{
    if i < 0 || i >= values.len() {
        Seq::empty()
    } else {
        tagged(Category::SenderIp, "sender ip"@, or_none(regex_matches(ip_pattern(), values[i])))
            + ip_findings_from(values, i + 1)
    }
}

/// One finding for every IPv4-shaped text in every `Received` header.
pub open spec fn ip_findings(hs: Seq<(Seq<char>, Seq<char>)>) -> Seq<(Category, Seq<char>, Seq<char>)> {
    ip_findings_from(all_from(hs, "Received"@, 0), 0)
}

/// The text of the spoofing warning for two header values.
pub open spec fn spoof_text(from: Seq<char>, reply_to: Seq<char>) -> Seq<char> {
    "From='"@ + from + "' Reply-To='"@ + reply_to + "'"@
}

/// `From` and `Reply-To` are both present and their trimmed values differ.
pub open spec fn is_spoofed(hs: Seq<(Seq<char>, Seq<char>)>) -> bool {
    let from = first_from(hs, "From"@, 0);
    let reply_to = first_from(hs, "Reply-To"@, 0);
    from.is_some() && reply_to.is_some() && trimmed(from.unwrap()) != trimmed(reply_to.unwrap())
}

/// The one spoofing warning, where `is_spoofed` holds.
pub open spec fn spoof_findings(hs: Seq<(Seq<char>, Seq<char>)>) -> Seq<(Category, Seq<char>, Seq<char>)> {
    if is_spoofed(hs) {
        seq![
            (
                Category::ReplyToSpoof,
                "reply-to spoofing"@,
                spoof_text(
                    trimmed(first_from(hs, "From"@, 0).unwrap()),
                    trimmed(first_from(hs, "Reply-To"@, 0).unwrap()),
                ),
            ),
        ]
    } else {
        Seq::empty()
    }
}

/// The extension of a file name: what follows its last dot.
pub open spec fn extension(name: Seq<char>) -> Option<Seq<char>> {
    let k = after_last(name, '.', name.len() as int);
    if k <= 0 {
        None
    } else {
        Some(name.subrange(k, name.len() as int))
    }
}

/// The extension is on the denylist, letter case aside.
pub open spec fn listed(e: Seq<char>) -> bool {
    same_name(e, "exe"@) || same_name(e, "scr"@) || same_name(e, "js"@) || same_name(e, "bat"@)
        || same_name(e, "cmd"@) || same_name(e, "vbs"@) || same_name(e, "docm"@) || same_name(
        e,
        "xlsm"@,
    ) || same_name(e, "pptm"@) || same_name(e, "zip"@) || same_name(e, "rar"@)
}

/// A file name with an extension that is on the denylist.
pub open spec fn suspicious_name(name: Seq<char>) -> bool {
    extension(name).is_some() && listed(extension(name).unwrap())
}

/// What an attachment's file name gives: the name itself, and the warning
/// where its extension is on the denylist; nothing without a name.
pub open spec fn filename_findings(name: Option<Seq<char>>) -> Seq<(Category, Seq<char>, Seq<char>)> {
    match name {
        None => Seq::empty(),
        Some(n) => if suspicious_name(n) {
            seq![
                (Category::HeaderEcho, "attachment filename"@, n),
                (Category::SuspiciousAttachment, "suspicious attachment"@, n),
            ]
        } else {
            seq![(Category::HeaderEcho, "attachment filename"@, n)]
        },
    }
}

/// The findings of a part's disposition: those of its file name where the
/// disposition holds the word `attachment`, none otherwise.
pub open spec fn attachment_findings(disposition: Seq<char>) -> Seq<(Category, Seq<char>, Seq<char>)> {
    if contains_text(disposition, "attachment"@) {
        filename_findings(filename_value(disposition))
    } else {
        Seq::empty()
    }
}

/// The URL findings of a body.
pub open spec fn url_findings(body: Seq<u8>) -> Seq<(Category, Seq<char>, Seq<char>)> {
    tagged(Category::Url, "url"@, or_none(regex_matches(url_pattern(), lossy_text(body))))
}

/// What a leaf gives: its type, disposition and size, its URLs, its attachment.
pub open spec fn leaf_findings(part: MessagePart) -> Seq<(Category, Seq<char>, Seq<char>)> {
    seq![
        (Category::HeaderEcho, "content-type"@, part.content_type@),
        (Category::HeaderEcho, "content-disposition"@, part.content_disposition@),
        (Category::HeaderEcho, "body-size"@, decimal(part.body@.len())),
    ] + url_findings(part.body@) + attachment_findings(part.content_disposition@)
}

/// The findings of the children of `part` from index `i` on, each walked in turn.
pub open spec fn children_findings(part: MessagePart, i: int) -> Seq<(Category, Seq<char>, Seq<char>)>
    decreases part, part.children@.len() - i,
{
    if i < 0 || i >= part.children@.len() {
        Seq::empty()
    } else {
        part_findings(part.children[i]) + children_findings(part, i + 1)
    }
}

/// The findings of a tree, depth first and parents before children: a leaf
/// gives its own, a container one finding that names its type and then those
/// of its children in order.
pub open spec fn part_findings(part: MessagePart) -> Seq<(Category, Seq<char>, Seq<char>)>
    decreases part, part.children@.len() + 1,
{
    if part.children@.len() == 0 {
        leaf_findings(part)
    } else {
        seq![(Category::HeaderEcho, "multipart"@, part.content_type@)] + children_findings(part, 0)
    }
}

/// Everything the passes find, in their fixed order.
pub open spec fn all_findings(root: MessagePart) -> Seq<(Category, Seq<char>, Seq<char>)> {
    let hs = root.headers@;
    address_findings(hs, "From"@, "from name"@, "from email"@) + address_findings(
        hs,
        "To"@,
        "to name"@,
        "to email"@,
    ) + address_findings(hs, "Reply-To"@, "reply-to name"@, "reply-to email"@) + subject_findings(hs)
        + auth_findings(hs) + ip_findings(hs) + spoof_findings(hs) + part_findings(root)
}

/// Appends one finding.
pub fn emit(out: &mut Vec<Finding>, category: Category, label: &str, value: String)
    ensures
        views(final(out)@) == views(old(out)@).push((category, label@, value@)),
{
    out.push(Finding { category, label: label.to_owned(), value });
    assert(views(out@) =~= views(old(out)@).push((category, label@, value@)));
}

/// Appends one finding for each value.
pub fn emit_each(out: &mut Vec<Finding>, category: Category, label: &str, values: &Vec<String>)
    ensures
        views(final(out)@) == views(old(out)@) + tagged(category, label@, texts(values@)),
{
    let n: usize = values.len();
    let mut i: usize = 0;
    assert(views(out@) =~= views(old(out)@) + tagged(category, label@, texts(values@)).take(0));
    while i < n
        invariant
            i <= n,
            n == values@.len(),
            views(out@) == views(old(out)@) + tagged(category, label@, texts(values@)).take(i as int),
        decreases n - i,
    {
        let ghost before = views(out@);
        emit(out, category, label, values[i].clone());
        assert(views(out@) =~= views(old(out)@) + tagged(category, label@, texts(values@)).take(i + 1));
        i += 1;
    }
    assert(tagged(category, label@, texts(values@)).take(n as int) =~= tagged(
        category,
        label@,
        texts(values@),
    ));
}

/// Splits an address value into display name and email.
pub fn parse_address(value: &str) -> (r: (String, String))
    ensures
        r.0@ == display_name(value@),
        r.1@ == email_of(value@),
{
    let n: usize = value.unicode_len();
    let lt: usize = find_char(value, '<', 0);
    if lt < n {
        let gt: usize = find_char(value, '>', lt + 1);
        if gt < n {
            let before = slice_text(value, 0, lt);
            let inside = slice_text(value, lt + 1, gt);
            let name = trim(before.as_str());
            let k: usize = name.as_str().unicode_len();
            let shown = if k >= 2 && name.as_str().get_char(0) == '"' && name.as_str().get_char(k - 1) == '"' {
                slice_text(name.as_str(), 1, k - 1)
            } else {
                name
            };
            return (shown, trim(inside.as_str()));
        }
    }
    let empty = String::new();
    assert(empty@ =~= Seq::<char>::empty());
    (empty, trim(value))
}

/// Pass: name and email of one address header.
pub fn address_pass(headers: &HeaderStore, name: &str, name_label: &str, email_label: &str, out: &mut Vec<Finding>)
    ensures
        views(final(out)@) == views(old(out)@) + address_findings(headers@, name@, name_label@, email_label@),
{
    match headers.first(name) {
        Some(v) => {
            let parsed = parse_address(v.as_str());
            emit(out, Category::HeaderEcho, name_label, parsed.0);
            emit(out, Category::HeaderEcho, email_label, parsed.1);
            assert(views(out@) =~= views(old(out)@) + address_findings(
                headers@,
                name@,
                name_label@,
                email_label@,
            ));
        },
        None => {
            assert(views(out@) =~= views(old(out)@) + address_findings(
                headers@,
                name@,
                name_label@,
                email_label@,
            ));
        },
    }
}

/// Pass: the subject.
pub fn subject_pass(headers: &HeaderStore, out: &mut Vec<Finding>)
    ensures
        views(final(out)@) == views(old(out)@) + subject_findings(headers@),
{
    match headers.first("Subject") {
        Some(v) => {
            emit(out, Category::HeaderEcho, "subject", trim(v.as_str()));
        },
        None => {},
    }
    assert(views(out@) =~= views(old(out)@) + subject_findings(headers@));
}

/// Pass: one authentication header.
pub fn auth_pass(headers: &HeaderStore, name: &str, out: &mut Vec<Finding>)
    ensures
        views(final(out)@) == views(old(out)@) + auth_finding(headers@, name@),
{
    match headers.first(name) {
        Some(v) => {
            emit(out, Category::AuthHeader, name, v);
        },
        None => {},
    }
    assert(views(out@) =~= views(old(out)@) + auth_finding(headers@, name@));
}

/// Pass: the authentication headers in their fixed order.
pub fn get_auth_headers(headers: &HeaderStore, out: &mut Vec<Finding>)
    ensures
        views(final(out)@) == views(old(out)@) + auth_findings(headers@),
{
    auth_pass(headers, "Authentication-Results", out);
    auth_pass(headers, "Received-SPF", out);
    auth_pass(headers, "DKIM-Signature", out);
    auth_pass(headers, "ARC-Authentication-Results", out);
    auth_pass(headers, "DMARC-Filter", out);
    assert(views(out@) =~= views(old(out)@) + auth_findings(headers@));
}

/// The IPv4-shaped texts in one header value, in scan order.
pub fn scan_ips(value: &str) -> (r: Vec<String>)
    ensures
        texts(r@) == or_none(regex_matches(ip_pattern(), value@)),
{
    keep_matches(find_all("(\\d{1,3}\\.){3}\\d{1,3}", value))
}

/// The list of matches, empty where there is none.
pub fn keep_matches(found: Option<Vec<String>>) -> (r: Vec<String>)
    ensures
        texts(r@) == (match found {
            Some(v) => texts(v@),
            None => Seq::empty(),
        }),
{
    match found {
        Some(v) => v,
        None => {
            let v: Vec<String> = Vec::new();
            assert(texts(v@) =~= Seq::<Seq<char>>::empty());
            v
        },
    }
}

/// Pass: the sender IPs of every `Received` header, in header order.
pub fn extract_ips_from_received(headers: &HeaderStore, out: &mut Vec<Finding>)
    ensures
        views(final(out)@) == views(old(out)@) + ip_findings(headers@),
{
    let received = headers.all("Received");
    let n: usize = received.len();
    let mut i: usize = 0;
    assert(views(out@) + ip_findings_from(texts(received@), 0) =~= views(old(out)@) + ip_findings(headers@));
    while i < n
        invariant
            i <= n,
            n == received@.len(),
            views(out@) + ip_findings_from(texts(received@), i as int) == views(old(out)@) + ip_findings(
                headers@,
            ),
        decreases n - i,
    {
        let ghost before = views(out@);
        let found = scan_ips(received[i].as_str());
        emit_each(out, Category::SenderIp, "sender ip", &found);
        assert(views(out@) + ip_findings_from(texts(received@), i + 1) =~= before + ip_findings_from(
            texts(received@),
            i as int,
        ));
        i += 1;
    }
    assert(views(out@) + ip_findings_from(texts(received@), n as int) =~= views(out@));
}

/// The first `From` and `Reply-To` values.
pub fn get_header_addresses(headers: &HeaderStore) -> (r: (Option<String>, Option<String>))
    ensures
        r.0.is_some() == first_from(headers@, "From"@, 0).is_some(),
        r.0.is_some() ==> r.0.unwrap()@ == first_from(headers@, "From"@, 0).unwrap(),
        r.1.is_some() == first_from(headers@, "Reply-To"@, 0).is_some(),
        r.1.is_some() ==> r.1.unwrap()@ == first_from(headers@, "Reply-To"@, 0).unwrap(),
{
    (headers.first("From"), headers.first("Reply-To"))
}

/// Pass: the spoofing warning, given exactly where `From` and `Reply-To` are
/// both present and their trimmed values differ.
pub fn spoof_pass(headers: &HeaderStore, out: &mut Vec<Finding>)
    ensures
        views(final(out)@) == views(old(out)@) + spoof_findings(headers@),
        is_spoofed(headers@) ==> final(out)@.len() == old(out)@.len() + 1,
        !is_spoofed(headers@) ==> views(final(out)@) == views(old(out)@),
{
    let both = get_header_addresses(headers);
    match both {
        (Some(f), Some(r)) => {
            let from = trim(f.as_str());
            let reply_to = trim(r.as_str());
            if from != reply_to {
                let text = "From='".to_owned().concat(from.as_str()).concat("' Reply-To='").concat(
                    reply_to.as_str(),
                ).concat("'");
                emit(out, Category::ReplyToSpoof, "reply-to spoofing", text);
            }
        },
        _ => {},
    }
    assert(views(out@) =~= views(old(out)@) + spoof_findings(headers@));
}

/// Whether a file name carries an extension that is on the denylist.
pub fn is_suspicious_attachment(filename: &str) -> (r: bool)
    ensures
        r == suspicious_name(filename@),
{
    let n: usize = filename.unicode_len();
    let k: usize = find_after_last(filename, '.');
    if k == 0 {
        return false;
    }
    let ext = slice_text(filename, k, n);
    let e = ext.as_str();
    eq_ignore_case(e, "exe") || eq_ignore_case(e, "scr") || eq_ignore_case(e, "js") || eq_ignore_case(e, "bat")
        || eq_ignore_case(e, "cmd") || eq_ignore_case(e, "vbs") || eq_ignore_case(e, "docm")
        || eq_ignore_case(e, "xlsm") || eq_ignore_case(e, "pptm") || eq_ignore_case(e, "zip")
        || eq_ignore_case(e, "rar")
}

/// The value of the `filename` parameter of a disposition.
pub fn extract_filename(content_disp: &str) -> (r: Option<String>)
    ensures
        r.is_some() == filename_value(content_disp@).is_some(),
        r.is_some() ==> r.unwrap()@ == filename_value(content_disp@).unwrap(),
{
    pick_filename(first_group("filename=\"([^\"]+)\"", content_disp), content_disp)
}

/// The quoted value where the search for one found it, else what the search
/// for an unquoted value finds in the disposition.
pub fn pick_filename(quoted: Option<String>, content_disp: &str) -> (r: Option<String>)
    ensures
        r.is_some() == (quoted.is_some() || regex_first_group(
            bare_filename_pattern(),
            content_disp@,
        ).is_some()),
        quoted.is_some() ==> r == quoted,
        quoted.is_none() && r.is_some() ==> r.unwrap()@ == regex_first_group(
            bare_filename_pattern(),
            content_disp@,
        ).unwrap(),
{
    match quoted {
        Some(v) => Some(v),
        None => first_group("filename=([^\";]+)", content_disp),
    }
}

/// The URLs in a text, in scan order.
pub fn extract_urls(body: &str) -> (r: Vec<String>)
    ensures
        texts(r@) == or_none(regex_matches(url_pattern(), body@)),
{
    keep_matches(find_all("https?://[^\\s\"'<>]+", body))
}

/// Reports an attachment's file name, and warns where its extension is on
/// the denylist.
pub fn report_filename(name: Option<String>, out: &mut Vec<Finding>)
    ensures
        views(final(out)@) == views(old(out)@) + filename_findings(
            match name {
                Some(n) => Some(n@),
                None => None,
            },
        ),
{
    match name {
        Some(n) => {
            let warn = is_suspicious_attachment(n.as_str());
            let again = n.clone();
            emit(out, Category::HeaderEcho, "attachment filename", n);
            if warn {
                emit(out, Category::SuspiciousAttachment, "suspicious attachment", again);
            }
            assert(views(out@) =~= views(old(out)@) + filename_findings(Some(again@)));
        },
        None => {
            assert(views(out@) =~= views(old(out)@) + filename_findings(None));
        },
    }
}

/// Pass: file name and warning for an attachment.
pub fn attachment_pass(disposition: &str, out: &mut Vec<Finding>)
    ensures
        views(final(out)@) == views(old(out)@) + attachment_findings(disposition@),
{
    if contains(disposition, "attachment") {
        report_filename(extract_filename(disposition), out);
    } else {
        assert(views(out@) =~= views(old(out)@) + attachment_findings(disposition@));
    }
}

/// The URLs in a body, read as text: as UTF-8 where the bytes are valid
/// UTF-8, with stand-in characters for what is not.
pub fn body_urls(body: &[u8]) -> (r: Vec<String>)
    ensures
        texts(r@) == or_none(regex_matches(url_pattern(), lossy_text(body@))),
        valid_utf8(body@) ==> texts(r@) == or_none(regex_matches(url_pattern(), decode_utf8(body@))),
{
    let text = bytes_to_text(body);
    extract_urls(text.as_str())
}

/// Pass: the walk over the tree.
pub fn process_mime_parts(part: &MessagePart, out: &mut Vec<Finding>)
    ensures
        views(final(out)@) == views(old(out)@) + part_findings(*part),
    decreases part,
{
    if part.children.len() == 0 {
        emit(out, Category::HeaderEcho, "content-type", part.content_type.clone());
        emit(out, Category::HeaderEcho, "content-disposition", part.content_disposition.clone());
        emit(out, Category::HeaderEcho, "body-size", decimal_text(part.body.len()));
        let urls = body_urls(part.body.as_slice());
        emit_each(out, Category::Url, "url", &urls);
        attachment_pass(part.content_disposition.as_str(), out);
        assert(views(out@) =~= views(old(out)@) + part_findings(*part));
    } else {
        emit(out, Category::HeaderEcho, "multipart", part.content_type.clone());
        let n: usize = part.children.len();
        let mut i: usize = 0;
        assert(views(out@) + children_findings(*part, 0) =~= views(old(out)@) + part_findings(*part));
        while i < n
            invariant
                i <= n,
                n == part.children@.len(),
                views(out@) + children_findings(*part, i as int) == views(old(out)@) + part_findings(*part),
            decreases n - i,
        {
            let ghost before = views(out@);
            process_mime_parts(&part.children[i], out);
            assert(views(out@) + children_findings(*part, i + 1) =~= before + children_findings(
                *part,
                i as int,
            ));
            i += 1;
        }
        assert(views(out@) + children_findings(*part, n as int) =~= views(out@));
    }
}

/// Runs every pass over a built tree, in the fixed order.
pub fn extract_findings(root: &MessagePart) -> (r: Vec<Finding>)
    ensures
        views(r@) == all_findings(*root),
{
    let mut out: Vec<Finding> = Vec::new();
    assert(views(out@) =~= Seq::<(Category, Seq<char>, Seq<char>)>::empty());
    address_pass(&root.headers, "From", "from name", "from email", &mut out);
    address_pass(&root.headers, "To", "to name", "to email", &mut out);
    address_pass(&root.headers, "Reply-To", "reply-to name", "reply-to email", &mut out);
    subject_pass(&root.headers, &mut out);
    get_auth_headers(&root.headers, &mut out);
    extract_ips_from_received(&root.headers, &mut out);
    spoof_pass(&root.headers, &mut out);
    process_mime_parts(root, &mut out);
    assert(views(out@) =~= all_findings(*root));
    out
}

} // verus!
