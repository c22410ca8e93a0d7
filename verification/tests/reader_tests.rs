use feed_lib::encoding::parser_input;
use feed_lib::feed::Feed;
use feed_lib::feed_reader::{
    accept_response, normalize, normalize_entries, normalize_entry, read_feed_data,
    read_multiple_feeds, read_response, FeedError, Fetched, ParsedEntry, ParsedFeed,
};

const ALPHA_ID: &str = "b1a96dd646bccaa24cef7a3db22a6f995f05658f4f1c3272913e258c03e6fb24";
const BETA_ID: &str = "703390318bd55aef50b7823d2b90a846debff99e6e3d401a24a921b733912a6d";
const NO_TITLE_ID: &str = "30a3b02cbee402e6f6ce1788dfd094e1ec4daab56a13774625d410623f445673";
const CAFE_ID: &str = "73473dcc12b763085904a5279d048c4d5b3b008c46f1f32443b99de04aa83a14";

const RSS_TWO: &str = "<?xml version=\"1.0\"?><rss version=\"2.0\"><channel>\
<title>News</title><link>http://example.com/</link><description>d</description>\
<item><title>Alpha</title></item>\
<item><title>Beta</title></item>\
</channel></rss>";

const RSS_FULL: &str = "<?xml version=\"1.0\"?><rss version=\"2.0\"><channel>\
<title>News</title><link>http://example.com/</link><description>d</description>\
<item><title>First</title><link>http://example.com/1</link>\
<description>About the first</description>\
<pubDate>Mon, 01 Jan 2024 00:00:00 GMT</pubDate></item>\
</channel></rss>";

const ATOM_ONE: &str = "<feed xmlns=\"http://www.w3.org/2005/Atom\">\
<title type=\"text\">sample feed</title><updated>2005-07-31T12:29:29Z</updated><id>feed1</id>\
<entry><title>sample entry</title><id>entry1</id>\
<link href=\"http://example.com/a\"/><link href=\"http://example.com/b\"/>\
<published>2005-07-31T12:29:29Z</published><summary>short</summary></entry>\
</feed>";

const JSON_ONE: &str = "{\"version\":\"https://jsonfeed.org/version/1\",\"title\":\"J\",\
\"items\":[{\"id\":\"1\",\"title\":\"From JSON\",\"url\":\"http://example.com/j\"}]}";

fn feed() -> Feed {
    Feed::new("News".into(), "http://example.com/rss".into())
}

fn titled(title: Option<&str>) -> ParsedEntry {
    ParsedEntry { title: title.map(str::to_string), links: vec![], summary: None, published: None }
}

fn ok(body: &[u8]) -> Fetched {
    Fetched::Response { status: 200, body: body.to_vec() }
}

/// What the parser makes of a decoded text, in the library's own types.
fn parse(text: &str) -> Result<ParsedFeed, FeedError> {
    match feed_rs::parser::parse(parser_input(text).as_slice()) {
        Ok(parsed) => Ok(ParsedFeed {
            title: parsed.title.map(|t| t.content),
            entries: parsed
                .entries
                .into_iter()
                .map(|e| ParsedEntry {
                    title: e.title.map(|t| t.content),
                    links: e.links.into_iter().map(|l| l.href).collect(),
                    summary: e.summary.map(|s| s.content),
                    published: e.published.map(|d| d.timestamp()),
                })
                .collect(),
        }),
        Err(error) => Err(FeedError::Parse(error.to_string())),
    }
}

/// A fetched feed on its way to the reader: decoded, then parsed.
fn document(fetched: Fetched) -> Result<ParsedFeed, FeedError> {
    parse(&read_response(fetched, None)?)
}

#[test]
fn parse_rss_keeps_entry_count_and_order() {
    let document = parse(RSS_TWO).unwrap();
    assert_eq!(document.title, Some("News".to_string()));
    assert_eq!(document.entries.len(), 2);
    assert_eq!(document.entries[0].title, Some("Alpha".to_string()));
    assert_eq!(document.entries[1].title, Some("Beta".to_string()));
    assert_eq!(document.entries[0].published, None);
    assert_eq!(document.entries[0].summary, None);
    assert!(document.entries[0].links.is_empty());
}

#[test]
fn parse_rss_reads_link_summary_and_date() {
    let document = parse(RSS_FULL).unwrap();
    assert_eq!(document.entries.len(), 1);
    let entry = &document.entries[0];
    assert_eq!(entry.title, Some("First".to_string()));
    assert_eq!(entry.links, vec!["http://example.com/1".to_string()]);
    assert_eq!(entry.summary, Some("About the first".to_string()));
    assert_eq!(entry.published, Some(1704067200));
}

#[test]
fn parse_atom_reads_links_in_order() {
    let document = parse(ATOM_ONE).unwrap();
    assert_eq!(document.title, Some("sample feed".to_string()));
    assert_eq!(document.entries.len(), 1);
    let entry = &document.entries[0];
    assert_eq!(entry.title, Some("sample entry".to_string()));
    assert_eq!(
        entry.links,
        vec!["http://example.com/a".to_string(), "http://example.com/b".to_string()]
    );
    assert_eq!(entry.summary, Some("short".to_string()));
    assert_eq!(entry.published, Some(1122812969));
}

#[test]
fn parse_json_feed() {
    let document = parse(JSON_ONE).unwrap();
    assert_eq!(document.entries.len(), 1);
    assert_eq!(document.entries[0].title, Some("From JSON".to_string()));
    assert_eq!(document.entries[0].links, vec!["http://example.com/j".to_string()]);
}

#[test]
fn malformed_documents_give_a_parse_error_and_no_item() {
    let truncated = "<?xml version=\"1.0\"?><rss version=\"2.0\"><channel><item><title>Al";
    let unknown_root = "<html><body>not a feed</body></html>";
    let not_markup = "just some words";
    for text in [truncated, unknown_root, not_markup, ""] {
        match read_feed_data(&feed(), document(ok(text.as_bytes()))) {
            Err(FeedError::Parse(reason)) => assert!(!reason.is_empty()),
            other => panic!("expected a parse error, got {:?}", other),
        }
    }
}

#[test]
fn normalize_entry_maps_every_field() {
    let entry = ParsedEntry {
        title: Some("Alpha".into()),
        links: vec!["http://example.com/1".into(), "http://example.com/2".into()],
        summary: Some("About".into()),
        published: Some(1704067200),
    };
    let item = normalize_entry(&entry, &feed(), "2024-01-02T00:00:00+00:00".into());
    assert_eq!(item.id, ALPHA_ID);
    assert_eq!(item.title, "Alpha");
    assert_eq!(item.link, "http://example.com/1");
    assert_eq!(item.description, Some("About".to_string()));
    assert_eq!(item.pub_date, 1704067200);
    assert_eq!(item.source, "News");
    assert_eq!(item.url, "http://example.com/rss");
    assert_eq!(item.added_at, "2024-01-02T00:00:00+00:00");
}

#[test]
fn normalize_entry_defaults() {
    let item = normalize_entry(&titled(None), &feed(), "now".into());
    assert_eq!(item.title, "No title");
    assert_eq!(item.id, NO_TITLE_ID);
    assert_eq!(item.link, "");
    assert_eq!(item.description, None);
    assert_eq!(item.pub_date, 0);

    let item = normalize_entry(&titled(Some("")), &feed(), "now".into());
    assert_eq!(item.title, "No title");
    assert_eq!(item.id, NO_TITLE_ID);
}

#[test]
fn normalize_id_depends_on_title_alone() {
    let one = ParsedEntry {
        title: Some("Beta".into()),
        links: vec!["http://example.com/1".into()],
        summary: Some("one".into()),
        published: Some(1),
    };
    let other_feed = Feed::new("Other".into(), "http://other.com/rss".into());
    let first = normalize_entry(&one, &feed(), "t1".into());
    let second = normalize_entry(&titled(Some("Beta")), &other_feed, "t2".into());
    assert_eq!(first.id, BETA_ID);
    assert_eq!(second.id, BETA_ID);
    assert_ne!(first.id, first.title);
}

#[test]
fn normalize_twice_agrees_on_content() {
    let entry = ParsedEntry {
        title: Some("Alpha".into()),
        links: vec!["http://example.com/1".into()],
        summary: Some("About".into()),
        published: Some(7),
    };
    let first = normalize(&entry, &feed());
    let second = normalize(&entry, &feed());
    assert_eq!(first.id, second.id);
    assert_eq!(first.title, second.title);
    assert_eq!(first.link, second.link);
    assert_eq!(first.description, second.description);
    assert_eq!(first.pub_date, second.pub_date);
    assert_eq!(first.source, second.source);
    assert_eq!(first.url, second.url);
    assert!(!first.added_at.is_empty());
    assert!(!second.added_at.is_empty());
}

#[test]
fn normalize_entries_keeps_order() {
    let document = ParsedFeed {
        title: None,
        entries: vec![titled(Some("Beta")), titled(None), titled(Some("Alpha"))],
    };
    let items = normalize_entries(&document, &feed());
    assert_eq!(items.len(), 3);
    assert_eq!(items[0].id, BETA_ID);
    assert_eq!(items[1].id, NO_TITLE_ID);
    assert_eq!(items[2].id, ALPHA_ID);
    let none = normalize_entries(&ParsedFeed { title: None, entries: vec![] }, &feed());
    assert!(none.is_empty());
}

#[test]
fn accept_response_reads_success_only() {
    assert_eq!(accept_response(ok(b"body")).unwrap(), b"body".to_vec());
    let edge = Fetched::Response { status: 299, body: vec![1] };
    assert_eq!(accept_response(edge).unwrap(), vec![1]);
    for status in [199u16, 300, 301, 404, 500] {
        let fetched = Fetched::Response { status, body: b"x".to_vec() };
        match accept_response(fetched) {
            Err(FeedError::Transport(Some(code))) => assert_eq!(code, status),
            other => panic!("expected a transport error, got {:?}", other),
        }
    }
    assert!(matches!(accept_response(Fetched::Failed), Err(FeedError::Transport(None))));
}

#[test]
fn read_response_decodes_a_successful_body() {
    assert_eq!(read_response(ok(b"caf\xE9"), None).unwrap(), "caf\u{e9}");
    assert_eq!(read_response(ok(b"\x80"), Some("windows-1252")).unwrap(), "\u{20ac}");
    let missing = Fetched::Response { status: 404, body: b"caf\xE9".to_vec() };
    assert!(matches!(read_response(missing, None), Err(FeedError::Transport(Some(404)))));
    assert!(matches!(read_response(Fetched::Failed, None), Err(FeedError::Transport(None))));
}

#[test]
fn read_feed_data_gives_items_in_document_order() {
    let items = read_feed_data(&feed(), document(ok(RSS_TWO.as_bytes()))).unwrap();
    assert_eq!(items.len(), 2);
    assert_eq!(items[0].title, "Alpha");
    assert_eq!(items[0].id, ALPHA_ID);
    assert_eq!(items[0].pub_date, 0);
    assert_eq!(items[0].source, "News");
    assert_eq!(items[0].url, "http://example.com/rss");
    assert!(!items[0].added_at.is_empty());
    assert_eq!(items[1].title, "Beta");
    assert_eq!(items[1].id, BETA_ID);
    assert_eq!(items[1].pub_date, 0);
}

#[test]
fn read_feed_data_reads_a_utf16_document() {
    let mut body = vec![0xFF, 0xFE];
    for unit in RSS_TWO.encode_utf16() {
        body.extend_from_slice(&unit.to_le_bytes());
    }
    let items = read_feed_data(&feed(), document(ok(&body))).unwrap();
    assert_eq!(items.len(), 2);
    assert_eq!(items[0].title, "Alpha");
    assert_eq!(items[1].title, "Beta");
}

#[test]
fn read_feed_data_reads_a_document_in_its_declared_encoding() {
    let declared = b"<?xml version=\"1.0\" encoding=\"ISO-8859-1\"?><rss version=\"2.0\"><channel>\
<title>News</title><item><title>Caf\xE9</title></item></channel></rss>";
    let items = read_feed_data(&feed(), document(ok(declared))).unwrap();
    assert_eq!(items.len(), 1);
    assert_eq!(items[0].title, "Caf\u{e9}");
    assert_eq!(items[0].id, CAFE_ID);

    let undeclared = b"<rss version=\"2.0\"><channel>\
<title>News</title><item><title>Caf\xE9</title></item></channel></rss>";
    let items = read_feed_data(&feed(), document(ok(undeclared))).unwrap();
    assert_eq!(items[0].title, "Caf\u{e9}");
    assert_eq!(items[0].id, CAFE_ID);
}

#[test]
fn read_feed_data_passes_an_earlier_error_on() {
    let not_found = Fetched::Response { status: 404, body: RSS_TWO.as_bytes().to_vec() };
    let outcome = read_feed_data(&feed(), document(not_found));
    assert!(matches!(outcome, Err(FeedError::Transport(Some(404)))));
    let outcome = read_feed_data(&feed(), document(Fetched::Failed));
    assert!(matches!(outcome, Err(FeedError::Transport(None))));
    let outcome = read_feed_data(&feed(), Err(FeedError::Parse("no root element".into())));
    assert!(matches!(outcome, Err(FeedError::Parse(reason)) if reason == "no root element"));
}

#[test]
fn read_multiple_feeds_isolates_failures() {
    let other = Feed::new("Other".into(), "http://other.com/rss".into());
    let failed = Fetched::Response { status: 500, body: vec![] };
    let jobs = vec![
        (feed(), document(ok(RSS_TWO.as_bytes()))),
        (other.clone(), document(failed)),
        (other.clone(), document(ok(b"garbage"))),
        (other, document(ok(RSS_FULL.as_bytes()))),
    ];
    let outcomes = read_multiple_feeds(jobs);
    assert_eq!(outcomes.len(), 4);
    assert_eq!(outcomes[0].as_ref().unwrap().len(), 2);
    assert!(matches!(outcomes[1], Err(FeedError::Transport(Some(500)))));
    assert!(matches!(outcomes[2], Err(FeedError::Parse(_))));
    let last = outcomes[3].as_ref().unwrap();
    assert_eq!(last.len(), 1);
    assert_eq!(last[0].source, "Other");
    assert_eq!(last[0].pub_date, 1704067200);
    assert!(read_multiple_feeds(vec![]).is_empty());
}
