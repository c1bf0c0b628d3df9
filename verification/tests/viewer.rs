use mailkeep::format::UtcTime;
use mailkeep::viewer::{
    address_line, attachment_label, body_view, build_dto, build_dto_at, build_srcdoc, message_to_row, message_to_row_at, order_rows_by_hits,
    row_sender, show_remote_content_bar, subject_display, AttachmentDto, Message, MessageAttachment, NamedAddress,
    BodyView, RenderedBody, SearchHit,
};

fn now_utc() -> UtcTime {
    let n = chrono::Utc::now();
    UtcTime { secs: n.timestamp(), nanos: n.timestamp_subsec_nanos() }
}

fn sample() -> Message {
    Message {
        id: 7,
        token: "M_7".into(),
        from_name: None,
        from_address: "alice@example.com".into(),
        subject: None,
        snippet: "preview".into(),
        sent_date: None,
        has_attachments: false,
        attachment_count: 0,
        to_addresses: vec![],
        cc_addresses: vec![],
    }
}

#[test]
fn message_to_row_uses_address_when_no_name_and_keeps_none_subject() {
    let m = sample();
    let row = message_to_row(&m);
    assert_eq!(row.from_address, "alice@example.com");
    assert_eq!(row.from_name, None);
    assert_eq!(row.subject, None);
    assert_eq!(row.sent_at_display, None);
    assert_eq!(row.token, "M_7");
    assert_eq!(row_sender(&row), "alice@example.com");
    assert_eq!(subject_display(&row.subject), "(no subject)");
}

#[test]
fn message_to_row_formats_sent_date_when_present() {
    let mut m = sample();
    let now = now_utc();
    m.sent_date = Some(UtcTime { secs: now.secs - 5 * 60, nanos: now.nanos });
    let row = message_to_row(&m);
    assert_eq!(row.sent_at_display.as_deref(), Some("5m ago"));
}

fn msg(id: u64) -> Message {
    Message { id, token: format!("M_{id}"), ..sample() }
}

fn hit(message_id: u64) -> SearchHit {
    SearchHit { message_id, account_id: 1, snippet: String::new() }
}

#[test]
fn preserves_hit_order_and_drops_unresolved() {
    let hits = vec![hit(3), hit(1), hit(2), hit(99)];
    let messages = vec![msg(1), msg(2), msg(3)];
    let rows = order_rows_by_hits(&hits, &messages);
    let tokens: Vec<String> = rows.iter().map(|r| r.token.clone()).collect();
    assert_eq!(tokens, vec!["M_3".to_string(), "M_1".to_string(), "M_2".to_string()]);
}

fn sample_message(now: UtcTime) -> Message {
    Message {
        subject: Some("Hi".into()),
        sent_date: Some(UtcTime { secs: now.secs - 5 * 60, nanos: now.nanos }),
        from_name: Some("Alice".into()),
        to_addresses: vec![
            NamedAddress { address: "bob@example.com".into(), name: Some("Bob Jones".into()) },
            NamedAddress { address: "carol@example.com".into(), name: None },
        ],
        cc_addresses: vec![NamedAddress { address: "dan@example.com".into(), name: None }],
        ..sample()
    }
}

fn sample_attachment() -> MessageAttachment {
    MessageAttachment {
        token: "T_9".into(),
        filename: Some("report.pdf".into()),
        content_type: "application/pdf".into(),
        size_bytes: 2048,
    }
}

#[test]
fn build_dto_maps_headers_body_and_attachments() {
    let rendered = RenderedBody { html: Some("<p>hi</p>".into()), text: None, has_remote_content: true };
    let dto = build_dto(&sample_message(now_utc()), &vec![sample_attachment()], Some(rendered));
    assert_eq!(dto.subject.as_deref(), Some("Hi"));
    assert_eq!(dto.from, "Alice");
    assert_eq!(dto.to, vec!["Bob Jones".to_string(), "carol@example.com".to_string()]);
    assert_eq!(dto.cc, vec!["dan@example.com".to_string()]);
    assert_eq!(dto.date_display.as_deref(), Some("5m ago"));
    assert_eq!(dto.body_html.as_deref(), Some("<p>hi</p>"));
    assert!(dto.has_remote_content);
    assert_eq!(dto.attachments.len(), 1);
    assert_eq!(dto.attachments[0].filename.as_deref(), Some("report.pdf"));
}

#[test]
fn build_dto_from_falls_back_to_address_without_name() {
    let mut message = sample_message(now_utc());
    message.from_name = None;
    let dto = build_dto(&message, &vec![], None);
    assert_eq!(dto.from, "alice@example.com");
}

#[test]
fn build_srcdoc_pins_security_contract() {
    let blocked = build_srcdoc("<p>x</p>", false);
    assert!(blocked.contains("default-src 'none'"));
    assert!(blocked.contains("base-uri 'none'"));
    assert!(blocked.contains("img-src 'self' data:"));
    assert!(!blocked.contains("https:"), "blocked mode must not permit remote image schemes");
    assert!(blocked.contains("<base target=\"_blank\">"));
    assert!(blocked.contains("<p>x</p>"));
    assert!(blocked.contains("<meta name=\"color-scheme\" content=\"light\">"));
    assert!(blocked.contains("bgcolor=\"#ffffff\""), "email frame must have an opaque light background");
    assert!(blocked.contains("text=\"#111827\""), "email frame must set a dark default text color");
    assert!(!blocked.contains("<style"), "no injected <style>: it would be blocked by the strict CSP");
    let allowed = build_srcdoc("<p>x</p>", true);
    assert!(allowed.contains("img-src 'self' data: https: http:"));
}

#[test]
fn build_dto_blob_missing_is_headers_only() {
    let dto = build_dto(&sample_message(now_utc()), &vec![sample_attachment()], None);
    assert!(dto.body_html.is_none());
    assert!(dto.body_text.is_none());
    assert!(!dto.has_remote_content);
    assert_eq!(dto.attachments.len(), 1, "attachments still listed without a body");
}

#[test]
fn srcdoc_is_exact() {
    assert_eq!(
        build_srcdoc("B", false),
        "<!doctype html><html><head><meta charset=\"utf-8\"><meta http-equiv=\"Content-Security-Policy\" content=\"default-src 'none'; base-uri 'none'; img-src 'self' data:; font-src 'self'\"><base target=\"_blank\"><meta name=\"color-scheme\" content=\"light\"></head><body bgcolor=\"#ffffff\" text=\"#111827\">B</body></html>"
    );
}

#[test]
fn fixed_clock_dates_and_labels() {
    let now = UtcTime { secs: 1_000_000, nanos: 0 };
    let mut m = sample();
    m.sent_date = Some(UtcTime { secs: 1_000_000 - 3 * 3600, nanos: 0 });
    assert_eq!(message_to_row_at(&m, now).sent_at_display.as_deref(), Some("3h ago"));
    let dto = build_dto_at(&m, &vec![], Some(RenderedBody { html: None, text: Some("plain".into()), has_remote_content: false }), now);
    assert_eq!(dto.date_display.as_deref(), Some("3h ago"));
    assert_eq!(dto.body_text.as_deref(), Some("plain"));
    assert!(show_remote_content_bar(true, false));
    assert!(!show_remote_content_bar(true, true));
    let a = AttachmentDto { token: "t".into(), filename: None, content_type: "image/png".into(), size_bytes: 1 };
    assert_eq!(attachment_label(&a), "image/png");
}

#[test]
fn duplicate_ids_resolve_to_the_last_message() {
    let mut second = msg(5);
    second.token = "M_5b".into();
    let rows = order_rows_by_hits(&vec![hit(5)], &vec![msg(5), second]);
    assert_eq!(rows.len(), 1);
    assert_eq!(rows[0].token, "M_5b");
}

#[test]
fn search_page_counts_every_hit() {
    let (rows, count) = mailkeep::viewer::search_page(&vec![hit(2), hit(42)], &vec![msg(2)]);
    assert_eq!(rows.len(), 1);
    assert_eq!(count, 2);
    let rows = mailkeep::viewer::messages_to_rows(&vec![msg(4), msg(3)]);
    let tokens: Vec<&str> = rows.iter().map(|r| r.token.as_str()).collect();
    assert_eq!(tokens, vec!["M_4", "M_3"]);
}

#[test]
fn viewer_body_and_address_lines() {
    let rendered = RenderedBody { html: Some("<p>hi</p>".into()), text: Some("hi".into()), has_remote_content: false };
    let dto = build_dto(&sample_message(now_utc()), &vec![], Some(rendered));
    assert_eq!(body_view(&dto, false), BodyView::Frame(build_srcdoc("<p>hi</p>", false)));
    let text_only = RenderedBody { html: None, text: Some("plain".into()), has_remote_content: false };
    let dto = build_dto(&sample_message(now_utc()), &vec![], Some(text_only));
    assert_eq!(body_view(&dto, true), BodyView::Text("plain".into()));
    let dto = build_dto(&sample_message(now_utc()), &vec![], None);
    assert_eq!(body_view(&dto, true), BodyView::Nothing);
    assert_eq!(
        address_line("To", &vec!["Bob Jones".to_string(), "carol@example.com".to_string()]),
        Some("To: Bob Jones, carol@example.com".to_string())
    );
    assert_eq!(address_line("Cc", &vec!["dan@example.com".to_string()]), Some("Cc: dan@example.com".to_string()));
    assert_eq!(address_line("Cc", &vec![]), None);
}
