use jottrace::error::JottraceError;
use jottrace::web::{
    http_response, journal_event_with_payload, journal_query_from_target, paginate, payload_request_key, percent_decode,
    render_error_page, route_request, state_href, target_path, url_encode, EventKey, JournalQuery,
    Route, SelectedSessionKey,
};

#[test]
fn url_encode_then_decode_gives_back_the_text() {
    for text in ["plain", "a b&c=d/é", "100% sure?", "", "snow ☃ man"] {
        assert_eq!(percent_decode(&url_encode(text)), text);
    }
    assert_eq!(url_encode("a b"), "a%20b");
    assert_eq!(url_encode("x&y=z"), "x%26y%3Dz");
    assert_eq!(percent_decode("a+b%2Fc"), "a b/c");
}

#[test]
fn query_is_read_from_the_target() {
    let q = journal_query_from_target(
        "/?source=claude_cli&session=abc%20d&q=hello+world&payload=1&session_offset=50&event_offset=25&event_generation=2&event_seq=7",
    );
    assert_eq!(q.selected_source.as_deref(), Some("claude_cli"));
    assert_eq!(q.selected_source_session_id.as_deref(), Some("abc d"));
    assert_eq!(q.search.as_deref(), Some("hello world"));
    assert!(q.include_payload_search);
    assert_eq!(q.session_offset, 50);
    assert_eq!(q.event_offset, 25);
    assert_eq!(q.expanded_event, Some(EventKey { generation: 2, seq: 7 }));

    let huge = journal_query_from_target("/?session_offset=100001&event_seq=3");
    assert_eq!(huge.session_offset, 0);
    assert_eq!(huge.expanded_event, None);
    assert_eq!(journal_query_from_target("/"), JournalQuery::default());
}

#[test]
fn state_links_round_trip_through_the_query_reader() {
    let query = JournalQuery {
        search: Some("needle & thread".to_string()),
        include_payload_search: true,
        ..JournalQuery::default()
    };
    let key = SelectedSessionKey { source: Some("codex_cli"), source_session_id: "s 1" };
    let href = state_href(Some(key), &query, 50, 25, Some(EventKey { generation: 1, seq: 3 }));
    let back = journal_query_from_target(&href);
    assert_eq!(back.selected_source.as_deref(), Some("codex_cli"));
    assert_eq!(back.selected_source_session_id.as_deref(), Some("s 1"));
    assert_eq!(back.search.as_deref(), Some("needle & thread"));
    assert!(back.include_payload_search);
    assert_eq!(back.session_offset, 50);
    assert_eq!(back.event_offset, 25);
    assert_eq!(back.expanded_event, Some(EventKey { generation: 1, seq: 3 }));
}

#[test]
fn links_without_a_selection_read_back_as_the_state_they_carry() {
    let query = JournalQuery { search: Some(String::new()), ..JournalQuery::default() };
    let href = state_href(None, &query, 0, 0, None);
    assert_eq!(href, "/");
    assert_eq!(journal_query_from_target(&href), JournalQuery::default());
    let event = EventKey { generation: i64::MIN, seq: -1 };
    let href = state_href(None, &JournalQuery::default(), 100000, 0, Some(event));
    let back = journal_query_from_target(&href);
    assert_eq!(back.expanded_event, Some(event));
    assert_eq!(back.session_offset, 100000);
    assert_eq!(back.selected_source_session_id, None);
}

#[test]
fn requests_are_routed_by_method_and_path() {
    assert_eq!(route_request(""), Route::BadRequest);
    assert_eq!(route_request("POST / HTTP/1.1\r\n\r\n"), Route::MethodNotAllowed);
    assert_eq!(route_request("GET /nope HTTP/1.1\r\n\r\n"), Route::NotFound);
    match route_request("GET /?q=x HTTP/1.1\r\nHost: a\r\n\r\n") {
        Route::Home(q) => assert_eq!(q.search.as_deref(), Some("x")),
        other => panic!("unexpected route {other:?}"),
    }
    match route_request("GET /payload?session=s&event_generation=0&event_seq=4 HTTP/1.1\r\n\r\n") {
        Route::Payload(q) => {
            let (source, id, key) = payload_request_key(&q).expect("payload key");
            assert_eq!(source, None);
            assert_eq!(id, "s");
            assert_eq!(key, EventKey { generation: 0, seq: 4 });
        }
        other => panic!("unexpected route {other:?}"),
    }
    assert_eq!(target_path("/payload?x=1"), "/payload");
}

#[test]
fn responses_and_error_pages() {
    assert_eq!(
        http_response("200 OK", "text/plain; charset=utf-8", "hé"),
        "HTTP/1.1 200 OK\r\nContent-Type: text/plain; charset=utf-8\r\nContent-Length: 3\r\nCache-Control: no-store\r\nConnection: close\r\n\r\nhé"
    );
    let page = render_error_page("/j/<db>", &JottraceError::MissingHome);
    assert!(page.contains("<dd>/j/&lt;db&gt;</dd>"));
    assert!(page.contains("HOME is not set and JOTTRACE_HOME was not provided"));
}

#[test]
fn paging_keeps_one_page_and_reports_neighbours() {
    let (items, page) = paginate(vec![1, 2, 3], 10, 2);
    assert_eq!(items, vec![1, 2]);
    assert!(page.has_previous);
    assert!(page.has_next);
    let (items, page) = paginate(vec![1], 0, 2);
    assert_eq!(items, vec![1]);
    assert!(!page.has_previous);
    assert!(!page.has_next);
}

#[test]
fn event_previews_show_the_payload_or_why_it_cannot_be_read() {
    let event = journal_event_with_payload(1, 2, None, "raw".to_string(), 5, b"hello".to_vec());
    assert_eq!(event.payload_preview, "hello");
    assert_eq!(event.payload_error, None);
    let long = vec![b'x'; 5000];
    let event = journal_event_with_payload(1, 3, None, "raw".to_string(), 5000, long);
    assert_eq!(event.payload_preview.chars().count(), 280);
    let event = journal_event_with_payload(1, 4, None, "lz4".to_string(), 3, b"abc".to_vec());
    assert_eq!(event.payload_preview, "");
    assert_eq!(event.payload_error.as_deref(), Some("unsupported event payload codec: lz4"));
    let event = journal_event_with_payload(1, 5, None, "zstd".to_string(), 3, b"abc".to_vec());
    assert!(event
        .payload_error
        .as_deref()
        .is_some_and(|m| m.starts_with("failed to process event payload codec zstd: ")));
}
