//! Messages as the home page shows them: list rows, ranked search results,
//! and the viewer with its sandboxed document.

use vstd::prelude::*;

use crate::format::{elapsed_seconds, relative_time, relative_time_spec, UtcTime};
use crate::text::{clone_opt_string, join_segments, opt_chars, push_str, strings_view};

verus! {

// ---------------------------------------------------------------------------
// The stored message, as far as the home page reads it
// ---------------------------------------------------------------------------

/// An address with its optional display name.
#[derive(Clone, Debug, PartialEq)]
pub struct NamedAddress {
    pub address: String,
    pub name: Option<String>,
}

/// The fields of a stored message that the home page shows.
#[derive(Clone, Debug, PartialEq)]
pub struct Message {
    pub id: u64,
    /// The message's public token, already rendered.
    pub token: String,
    pub from_name: Option<String>,
    pub from_address: String,
    pub subject: Option<String>,
    pub snippet: String,
    pub sent_date: Option<UtcTime>,
    pub has_attachments: bool,
    pub attachment_count: i32,
    pub to_addresses: Vec<NamedAddress>,
    pub cc_addresses: Vec<NamedAddress>,
}

/// The fields of a stored attachment that the viewer lists.
#[derive(Clone, Debug, PartialEq)]
pub struct MessageAttachment {
    pub token: String,
    pub filename: Option<String>,
    pub content_type: String,
    pub size_bytes: i64,
}

/// A message body rendered for display.
#[derive(Clone, Debug, PartialEq)]
pub struct RenderedBody {
    /// Sanitized HTML, when the message has an HTML body.
    pub html: Option<String>,
    /// Plain text, when it has no HTML body.
    pub text: Option<String>,
    pub has_remote_content: bool,
}

/// One full-text search hit, in rank order.
#[derive(Clone, Debug, PartialEq)]
pub struct SearchHit {
    pub message_id: u64,
    pub account_id: u64,
    pub snippet: String,
}

/// The current time (`chrono::Utc::now`). It comes from the clock, so only
/// its shape is stated: the nanoseconds are those of a `Duration`, below one
/// second.
#[verifier::external_body]
pub(crate) fn utc_now() -> (r: UtcTime)
    ensures
        r.wf(),
{
    let n = chrono::Utc::now();
    UtcTime { secs: n.timestamp(), nanos: n.timestamp_subsec_nanos() }
}

// ---------------------------------------------------------------------------
// List rows
// ---------------------------------------------------------------------------

/// One message row of the account list and of the search results.
#[derive(Clone, Debug, PartialEq)]
pub struct MessageRowDto {
    /// Row key, and what the viewer opens.
    pub token: String,
    pub from_name: Option<String>,
    pub from_address: String,
    /// `None` when the message has no subject.
    pub subject: Option<String>,
    pub snippet: String,
    /// When the message was sent, relative to now; `None` when unknown.
    pub sent_at_display: Option<String>,
    pub has_attachments: bool,
    pub attachment_count: i32,
}

/// `row` shows `m`; its sent date is relative to `now`.
pub open spec fn row_of(m: Message, row: MessageRowDto, now: UtcTime) -> bool {
    &&& row.token@ == m.token@
    &&& opt_chars(row.from_name) == opt_chars(m.from_name)
    &&& row.from_address@ == m.from_address@
    &&& opt_chars(row.subject) == opt_chars(m.subject)
    &&& row.snippet@ == m.snippet@
    &&& row.has_attachments == m.has_attachments
    &&& row.attachment_count == m.attachment_count
    &&& opt_chars(row.sent_at_display) == match m.sent_date {
        Some(d) => Some(relative_time_spec(elapsed_seconds(d, now))),
        None => None,
    }
}

/// `row` shows `m`, its sent date relative to some well-formed moment.
pub open spec fn row_shows(m: Message, row: MessageRowDto) -> bool {
    exists|now: UtcTime| now.wf() && row_of(m, row, now)
}

/// The row of a message, with its sent date relative to `now`.
pub fn message_to_row_at(m: &Message, now: UtcTime) -> (r: MessageRowDto)
    ensures
        row_of(*m, r, now),
{
    let sent = match m.sent_date {
        Some(d) => Some(relative_time(d, now)),
        None => None,
    };
    MessageRowDto {
        token: m.token.clone(),
        from_name: clone_opt_string(&m.from_name),
        from_address: m.from_address.clone(),
        subject: clone_opt_string(&m.subject),
        snippet: m.snippet.clone(),
        sent_at_display: sent,
        has_attachments: m.has_attachments,
        attachment_count: m.attachment_count,
    }
}

/// The row of a message, with its sent date relative to the current time.
pub fn message_to_row(m: &Message) -> (r: MessageRowDto)
    ensures
        row_shows(*m, r),
{
    let now = utc_now();
    message_to_row_at(m, now)
}

/// What a row shows as the sender: the name, else the address.
pub fn row_sender(row: &MessageRowDto) -> (r: String)
    ensures
        r@ == match row.from_name {
            Some(n) => n@,
            None => row.from_address@,
        },
{
    match &row.from_name {
        Some(n) => n.clone(),
        None => row.from_address.clone(),
    }
}

/// What a row or the viewer shows as the subject: "(no subject)" when there
/// is none.
pub fn subject_display(subject: &Option<String>) -> (r: String)
    ensures
        r@ == match subject {
            Some(s) => s@,
            None => "(no subject)"@,
        },
{
    match subject {
        Some(s) => s.clone(),
        None => String::from_str("(no subject)"),
    }
}

// ---------------------------------------------------------------------------
// Search results
// ---------------------------------------------------------------------------

/// Position of the last message with id `id` among the first `n`, if any.
pub open spec fn last_with_id(msgs: Seq<Message>, id: u64, n: nat) -> Option<nat>
    decreases n,
{
    if n == 0 {
        None
    } else if msgs[n - 1].id == id {
        Some((n - 1) as nat)
    } else {
        last_with_id(msgs, id, (n - 1) as nat)
    }
}

/// The messages that the hits resolve to, in hit order; a hit whose message
/// is missing is dropped, and where ids repeat the last message counts.
pub open spec fn resolve_hits(hits: Seq<SearchHit>, msgs: Seq<Message>) -> Seq<Message>
    decreases hits.len(),
{
    if hits.len() == 0 {
        Seq::empty()
    } else {
        let prev = resolve_hits(hits.drop_last(), msgs);
        match last_with_id(msgs, hits.last().message_id, msgs.len()) {
            Some(k) => prev.push(msgs[k as int]),
            None => prev,
        }
    }
}

proof fn lemma_last_with_id_bound(msgs: Seq<Message>, id: u64, n: nat)
    ensures
        last_with_id(msgs, id, n) matches Some(k) ==> k < n,
    decreases n,
{
    if n > 0 {
        lemma_last_with_id_bound(msgs, id, (n - 1) as nat);
    }
}

fn find_last_with_id(msgs: &Vec<Message>, id: u64) -> (r: Option<usize>)
    ensures
        r matches Some(k) ==> k < msgs@.len() && last_with_id(msgs@, id, msgs@.len()) == Some(k as nat),
        r is None ==> last_with_id(msgs@, id, msgs@.len()) is None,
{
    let mut n: usize = msgs.len();
    while n > 0
        invariant
            n <= msgs.len(),
            last_with_id(msgs@, id, msgs@.len()) == last_with_id(msgs@, id, n as nat),
        decreases n,
    {
        if msgs[n - 1].id == id {
            return Some(n - 1);
        }
        n = n - 1;
    }
    None
}

/// Joins ranked hits to their messages, keeping the rank order and dropping
/// a hit whose message is gone.
pub fn order_rows_by_hits(hits: &Vec<SearchHit>, messages: &Vec<Message>) -> (r: Vec<MessageRowDto>)
    ensures
        r@.len() == resolve_hits(hits@, messages@).len(),
        forall|k: int| 0 <= k < r@.len() ==> row_shows(resolve_hits(hits@, messages@)[k], #[trigger] r@[k]),
{
    let mut r: Vec<MessageRowDto> = Vec::new();
    let mut i: usize = 0;
    while i < hits.len()
        invariant
            i <= hits.len(),
            r@.len() == resolve_hits(hits@.take(i as int), messages@).len(),
            forall|k: int| 0 <= k < r@.len() ==> row_shows(
                resolve_hits(hits@.take(i as int), messages@)[k],
                #[trigger] r@[k],
            ),
        decreases hits.len() - i,
    {
        let ghost prev = resolve_hits(hits@.take(i as int), messages@);
        proof {
            assert(hits@.take(i + 1).drop_last() =~= hits@.take(i as int));
            assert(hits@.take(i + 1).last() == hits@[i as int]);
        }
        match find_last_with_id(messages, hits[i].message_id) {
            Some(k) => {
                proof {
                    lemma_last_with_id_bound(messages@, hits@[i as int].message_id, messages@.len());
                }
                let row = message_to_row(&messages[k]);
                r.push(row);
                assert(last_with_id(messages@, hits@.take(i + 1).last().message_id, messages@.len()) == Some(
                    k as nat,
                ));
                assert(resolve_hits(hits@.take(i + 1), messages@) == resolve_hits(
                    hits@.take(i + 1).drop_last(),
                    messages@,
                ).push(messages@[k as int]));
                assert(resolve_hits(hits@.take(i + 1), messages@) == prev.push(messages@[k as int]));
            },
            None => {
                assert(resolve_hits(hits@.take(i + 1), messages@) == prev);
            },
        }
        i = i + 1;
    }
    assert(hits@.take(hits.len() as int) =~= hits@);
    r
}

/// One page of search results: the rows of the hits' messages in rank order,
/// and how many hits the page consumed (a hit whose message is gone still
/// counts, so the next page starts after it).
pub fn search_page(hits: &Vec<SearchHit>, messages: &Vec<Message>) -> (r: (Vec<MessageRowDto>, u32))
    ensures
        r.0@.len() == resolve_hits(hits@, messages@).len(),
        forall|k: int| 0 <= k < r.0@.len() ==> row_shows(resolve_hits(hits@, messages@)[k], #[trigger] r.0@[k]),
        r.1 == hits@.len() as u32,
{
    let rows = order_rows_by_hits(hits, messages);
    (rows, hits.len() as u32)
}

/// The rows of a page of an account's messages, in the order given.
pub fn messages_to_rows(messages: &Vec<Message>) -> (r: Vec<MessageRowDto>)
    ensures
        r@.len() == messages@.len(),
        forall|k: int| 0 <= k < r@.len() ==> row_shows(messages@[k], #[trigger] r@[k]),
{
    let mut r: Vec<MessageRowDto> = Vec::new();
    let mut i: usize = 0;
    while i < messages.len()
        invariant
            i <= messages.len(),
            r@.len() == i,
            forall|k: int| 0 <= k < i ==> row_shows(messages@[k], #[trigger] r@[k]),
        decreases messages.len() - i,
    {
        r.push(message_to_row(&messages[i]));
        i = i + 1;
    }
    r
}

// ---------------------------------------------------------------------------
// The viewer
// ---------------------------------------------------------------------------

/// One attachment row of the viewer.
#[derive(Clone, Debug, PartialEq)]
pub struct AttachmentDto {
    pub token: String,
    pub filename: Option<String>,
    pub content_type: String,
    pub size_bytes: i64,
}

/// Everything the viewer shows of one message.
#[derive(Clone, Debug, PartialEq)]
pub struct MessageViewDto {
    pub token: String,
    pub subject: Option<String>,
    pub from: String,
    pub to: Vec<String>,
    pub cc: Vec<String>,
    pub date_display: Option<String>,
    /// Sanitized HTML for the sandboxed frame.
    pub body_html: Option<String>,
    /// Plain text when there is no HTML.
    pub body_text: Option<String>,
    pub has_remote_content: bool,
    pub attachments: Vec<AttachmentDto>,
}

/// How an address is shown: the name, else the address.
pub open spec fn address_display(a: NamedAddress) -> Seq<char> {
    match a.name {
        Some(n) => n@,
        None => a.address@,
    }
}

pub open spec fn addresses_display(v: Seq<NamedAddress>, out: Seq<String>) -> bool {
    out.len() == v.len() && forall|k: int| 0 <= k < v.len() ==> (#[trigger] out[k])@ == address_display(v[k])
}

pub open spec fn attachment_row(a: MessageAttachment, d: AttachmentDto) -> bool {
    d.token@ == a.token@ && opt_chars(d.filename) == opt_chars(a.filename) && d.content_type@
        == a.content_type@ && d.size_bytes == a.size_bytes
}

/// `dto` shows message `m` with its attachments and rendered body, the date
/// relative to `now`.
pub open spec fn view_of(
    m: Message,
    atts: Seq<MessageAttachment>,
    rendered: Option<RenderedBody>,
    dto: MessageViewDto,
    now: UtcTime,
) -> bool {
    &&& dto.token@ == m.token@
    &&& opt_chars(dto.subject) == opt_chars(m.subject)
    &&& dto.from@ == match m.from_name {
        Some(n) => n@,
        None => m.from_address@,
    }
    &&& addresses_display(m.to_addresses@, dto.to@)
    &&& addresses_display(m.cc_addresses@, dto.cc@)
    &&& opt_chars(dto.date_display) == match m.sent_date {
        Some(d) => Some(relative_time_spec(elapsed_seconds(d, now))),
        None => None,
    }
    &&& match rendered {
        Some(b) => opt_chars(dto.body_html) == opt_chars(b.html) && opt_chars(dto.body_text) == opt_chars(b.text)
            && dto.has_remote_content == b.has_remote_content,
        None => dto.body_html is None && dto.body_text is None && !dto.has_remote_content,
    }
    &&& dto.attachments@.len() == atts.len()
    &&& forall|k: int| 0 <= k < atts.len() ==> attachment_row(atts[k], #[trigger] dto.attachments@[k])
}

fn display_addresses(v: &Vec<NamedAddress>) -> (r: Vec<String>)
    ensures
        addresses_display(v@, r@),
{
    let mut r: Vec<String> = Vec::new();
    let mut i: usize = 0;
    while i < v.len()
        invariant
            i <= v.len(),
            r@.len() == i,
            forall|k: int| 0 <= k < i ==> (#[trigger] r@[k])@ == address_display(v@[k]),
        decreases v.len() - i,
    {
        let a = &v[i];
        let s = match &a.name {
            Some(n) => n.clone(),
            None => a.address.clone(),
        };
        r.push(s);
        i = i + 1;
    }
    r
}

/// Assembles the viewer's data; the date is relative to `now`. `rendered` is
/// `None` when the raw message is unavailable: headers and attachments
/// only.
pub fn build_dto_at(
    message: &Message,
    attachments: &Vec<MessageAttachment>,
    rendered: Option<RenderedBody>,
    now: UtcTime,
) -> (r: MessageViewDto)
    ensures
        view_of(*message, attachments@, rendered, r, now),
{
    let from = match &message.from_name {
        Some(n) => n.clone(),
        None => message.from_address.clone(),
    };
    let (body_html, body_text, has_remote_content) = match rendered {
        Some(b) => (b.html, b.text, b.has_remote_content),
        None => (None, None, false),
    };
    let mut atts: Vec<AttachmentDto> = Vec::new();
    let mut i: usize = 0;
    while i < attachments.len()
        invariant
            i <= attachments.len(),
            atts@.len() == i,
            forall|k: int| 0 <= k < i ==> attachment_row(attachments@[k], #[trigger] atts@[k]),
        decreases attachments.len() - i,
    {
        let a = &attachments[i];
        atts.push(
            AttachmentDto {
                token: a.token.clone(),
                filename: clone_opt_string(&a.filename),
                content_type: a.content_type.clone(),
                size_bytes: a.size_bytes,
            },
        );
        i = i + 1;
    }
    let date_display = match message.sent_date {
        Some(d) => Some(relative_time(d, now)),
        None => None,
    };
    MessageViewDto {
        token: message.token.clone(),
        subject: clone_opt_string(&message.subject),
        from,
        to: display_addresses(&message.to_addresses),
        cc: display_addresses(&message.cc_addresses),
        date_display,
        body_html,
        body_text,
        has_remote_content,
        attachments: atts,
    }
}

/// Assembles the viewer's data, the date relative to the current time.
pub fn build_dto(message: &Message, attachments: &Vec<MessageAttachment>, rendered: Option<RenderedBody>) -> (r:
    MessageViewDto)
    ensures
        exists|now: UtcTime| now.wf() && view_of(*message, attachments@, rendered, r, now),
{
    let now = utc_now();
    build_dto_at(message, attachments, rendered, now)
}

/// The image sources the frame's policy allows: remote ones only after the
/// user opted in.
pub open spec fn img_src_policy(load_remote: bool) -> Seq<char> {
    if load_remote {
        "img-src 'self' data: https: http:"@
    } else {
        "img-src 'self' data:"@
    }
}

/// The document of the sandboxed frame around a sanitized body: a strict
/// content security policy, links opening in a new tab, and an opaque light
/// page.
pub open spec fn srcdoc_spec(body_html: Seq<char>, load_remote: bool) -> Seq<char> {
    "<!doctype html><html><head><meta charset=\"utf-8\"><meta http-equiv=\"Content-Security-Policy\" content=\"default-src 'none'; base-uri 'none'; "@
        + img_src_policy(load_remote)
        + "; font-src 'self'\"><base target=\"_blank\"><meta name=\"color-scheme\" content=\"light\"></head><body bgcolor=\"#ffffff\" text=\"#111827\">"@
        + body_html + "</body></html>"@
}

/// Builds the frame document for a sanitized body.
pub fn build_srcdoc(body_html: &str, load_remote: bool) -> (r: String)
    ensures
        r@ == srcdoc_spec(body_html@, load_remote),
{
    let img_src = if load_remote {
        "img-src 'self' data: https: http:"
    } else {
        "img-src 'self' data:"
    };
    let mut r = String::from_str(
        "<!doctype html><html><head><meta charset=\"utf-8\"><meta http-equiv=\"Content-Security-Policy\" content=\"default-src 'none'; base-uri 'none'; ",
    );
    push_str(&mut r, img_src);
    push_str(
        &mut r,
        "; font-src 'self'\"><base target=\"_blank\"><meta name=\"color-scheme\" content=\"light\"></head><body bgcolor=\"#ffffff\" text=\"#111827\">",
    );
    push_str(&mut r, body_html);
    push_str(&mut r, "</body></html>");
    r
}

/// The viewer offers to load remote content only for a message that has
/// some, and only until it was loaded.
pub fn show_remote_content_bar(has_remote_content: bool, load_remote: bool) -> (r: bool)
    ensures
        r == (has_remote_content && !load_remote),
{
    has_remote_content && !load_remote
}

/// How an attachment is named in the viewer: its file name, else its type.
pub fn attachment_label(a: &AttachmentDto) -> (r: String)
    ensures
        r@ == match a.filename {
            Some(f) => f@,
            None => a.content_type@,
        },
{
    match &a.filename {
        Some(f) => f.clone(),
        None => a.content_type.clone(),
    }
}

/// What the viewer shows as the message body.
#[derive(Clone, Debug, PartialEq)]
pub enum BodyView {
    /// The sandboxed frame with this document.
    Frame(String),
    /// Preformatted plain text.
    Text(String),
    /// The note that the message has nothing to show.
    Nothing,
}

/// The body shown: the HTML in its frame when there is HTML, else the plain
/// text, else nothing.
pub fn body_view(dto: &MessageViewDto, load_remote: bool) -> (r: BodyView)
    ensures
        match dto.body_html {
            Some(h) => r matches BodyView::Frame(d) && d@ == srcdoc_spec(h@, load_remote),
            None => match dto.body_text {
                Some(t) => r matches BodyView::Text(x) && x@ == t@,
                None => r matches BodyView::Nothing,
            },
        },
{
    match &dto.body_html {
        Some(h) => BodyView::Frame(build_srcdoc(h.as_str(), load_remote)),
        None => match &dto.body_text {
            Some(t) => BodyView::Text(t.clone()),
            None => BodyView::Nothing,
        },
    }
}

/// A header line of addresses, such as `To: a, b`; none for an empty list.
pub fn address_line(label: &str, addrs: &Vec<String>) -> (r: Option<String>)
    ensures
        addrs@.len() == 0 ==> r is None,
        addrs@.len() > 0 ==> (r matches Some(l) && l@ == label@ + ": "@ + join_segments(
            strings_view(addrs@),
            ", "@,
        )),
{
    if addrs.len() == 0 {
        return None;
    }
    let mut out = String::new();
    push_str(&mut out, label);
    push_str(&mut out, ": ");
    push_str(&mut out, addrs[0].as_str());
    let mut k: usize = 1;
    while k < addrs.len()
        invariant
            1 <= k <= addrs@.len(),
            out@ == label@ + ": "@ + join_segments(strings_view(addrs@).take(k as int), ", "@),
        decreases addrs@.len() - k,
    {
        proof {
            let v = strings_view(addrs@);
            assert(v.take(k + 1).drop_last() =~= v.take(k as int));
            assert(v.take(k + 1).last() == addrs@[k as int]@);
        }
        push_str(&mut out, ", ");
        push_str(&mut out, addrs[k].as_str());
        k = k + 1;
    }
    assert(strings_view(addrs@).take(addrs@.len() as int) =~= strings_view(addrs@));
    Some(out)
}

} // verus!
