use feed_lib::encoding::parser_input;
use feed_lib::feed::Feed;
use feed_lib::feed_item::FeedItem;
use feed_lib::feed_manager::{pair_jobs, FeedManager};
use feed_lib::feed_reader::{read_response, FeedError, Fetched, ParsedEntry, ParsedFeed};
use feed_lib::feed_storage::Tally;

const ALPHA_ID: &str = "b1a96dd646bccaa24cef7a3db22a6f995f05658f4f1c3272913e258c03e6fb24";
const BETA_ID: &str = "703390318bd55aef50b7823d2b90a846debff99e6e3d401a24a921b733912a6d";

const RSS_TWO: &str = "<?xml version=\"1.0\"?><rss version=\"2.0\"><channel>\
<title>News</title><link>http://example.com/</link><description>d</description>\
<item><title>Alpha</title></item>\
<item><title>Beta</title></item>\
</channel></rss>";

const RSS_THREE: &str = "<?xml version=\"1.0\"?><rss version=\"2.0\"><channel>\
<title>More</title><link>http://example.com/</link><description>d</description>\
<item><title>Gamma</title></item>\
<item><title>Alpha</title><link>http://example.com/other-alpha</link></item>\
<item><title>Gamma</title><link>http://example.com/second-gamma</link></item>\
</channel></rss>";

/// What the parser makes of a decoded text, in the library's own types.
fn parse(text: &str) -> Result<ParsedFeed, FeedError> {
    match feed_rs::parser::parse(parser_input(text).as_slice()) {
        Ok(parsed) => Ok(ParsedFeed {
            title: parsed.title.map(|t| t.content),
            entries: parsed
                .entries
                .into_iter()
                .map(|e| ParsedEntry {
                    title: e.title.map(|t| t.content),
                    links: e.links.into_iter().map(|l| l.href).collect(),
                    summary: e.summary.map(|s| s.content),
                    published: e.published.map(|d| d.timestamp()),
                })
                .collect(),
        }),
        Err(error) => Err(FeedError::Parse(error.to_string())),
    }
}

/// A fetched feed on its way to the manager: decoded, then parsed.
fn fetched(status: u16, body: &str) -> Result<ParsedFeed, FeedError> {
    let response = Fetched::Response { status, body: body.as_bytes().to_vec() };
    parse(&read_response(response, None)?)
}

fn ok(body: &str) -> Result<ParsedFeed, FeedError> {
    fetched(200, body)
}

fn item(id: &str, title: &str) -> FeedItem {
    FeedItem::new(
        id.into(),
        title.into(),
        String::new(),
        None,
        0,
        "News".into(),
        "http://example.com/rss".into(),
        "at normalization".into(),
    )
}

fn count(manager: &FeedManager, id: &str) -> u64 {
    manager.count_items(&id.to_string())
}

#[test]
fn test_feed_manager() {
    let mut manager = FeedManager::new();
    let feed = Feed::new("Test FeedManager".into(), "http://example.com/feedmanager".into());
    manager.add_feed(feed.clone());
    assert!(manager.get_feeds().iter().any(|f| f.url == feed.url && f.title == feed.title));
    manager.remove_feed(feed.clone());
    assert!(manager.get_feeds().iter().all(|f| f.url != feed.url));
}

#[test]
fn test_add_and_get_feeds() {
    let mut manager = FeedManager::new();
    let feed = Feed::new("Test FeedStorage".into(), "http://example.com/feedstorage".into());
    manager.add_feed(feed.clone());
    let feeds = manager.get_feeds();
    assert!(feeds.iter().any(|f| f.url == feed.url && f.title == feed.title));
    manager.remove_feed(feed.clone());
    let feeds_after_drop = manager.get_feeds();
    assert!(feeds_after_drop.iter().all(|f| f.url != feed.url));
}

#[test]
fn new_manager_is_empty() {
    let manager = FeedManager::new();
    assert!(manager.get_feeds().is_empty());
    assert!(manager.get_items().is_empty());
}

#[test]
fn add_feed_twice_leaves_one_record() {
    let mut manager = FeedManager::new();
    manager.add_feed(Feed::new("T".into(), "http://a.com/rss".into()));
    manager.add_feed(Feed::new("T".into(), "http://a.com/rss".into()));
    assert_eq!(manager.count_feeds(&"http://a.com/rss".to_string()), 1);
    assert_eq!(manager.get_feeds().len(), 1);
    manager.add_feed(Feed::new("Another title".into(), "http://a.com/rss".into()));
    assert_eq!(manager.count_feeds(&"http://a.com/rss".to_string()), 1);
    assert_eq!(manager.get_feeds()[0].title, "T");
    manager.add_feed(Feed::new("T".into(), "http://b.com/rss".into()));
    assert_eq!(manager.get_feeds().len(), 2);
}

#[test]
fn remove_feed_deletes_every_record_of_the_title() {
    let mut manager = FeedManager::new();
    manager.add_feed(Feed::new("A".into(), "http://a1.com".into()));
    manager.add_feed(Feed::new("B".into(), "http://b.com".into()));
    manager.add_feed(Feed::new("A".into(), "http://a2.com".into()));
    manager.add_feed(Feed::new("C".into(), "http://c.com".into()));
    manager.remove_feed(Feed::new("A".into(), "_".into()));
    let left: Vec<String> = manager.get_feeds().iter().map(|f| f.title.clone()).collect();
    assert_eq!(left, vec!["B".to_string(), "C".to_string()]);
    manager.remove_feed(Feed::new("Nobody".into(), "_".into()));
    assert_eq!(manager.get_feeds().len(), 2);
}

#[test]
fn get_feed_finds_the_first_of_a_title() {
    let mut manager = FeedManager::new();
    manager.add_feed(Feed::new("B".into(), "http://b.com".into()));
    manager.add_feed(Feed::new("A".into(), "http://a1.com".into()));
    manager.add_feed(Feed::new("A".into(), "http://a2.com".into()));
    assert_eq!(manager.get_feed("A".into()).unwrap().url, "http://a1.com");
    assert_eq!(manager.get_feed("B".into()).unwrap().url, "http://b.com");
    match manager.get_feed("Z".into()) {
        Err(FeedError::NotFound(title)) => assert_eq!(title, "Z"),
        other => panic!("expected not found, got {:?}", other),
    }
}

#[test]
fn get_feeds_hides_incomplete_records() {
    let mut manager = FeedManager::new();
    manager.add_feed(Feed::new("".into(), "http://untitled.com".into()));
    manager.add_feed(Feed::new("A".into(), "http://a.com".into()));
    assert_eq!(manager.get_feeds().len(), 1);
    assert_eq!(manager.count_feeds(&"http://untitled.com".to_string()), 1);
    assert_eq!(manager.get_feed("".into()).unwrap().url, "http://untitled.com");
}

#[test]
fn gateway_stores_an_identifier_once() {
    let mut manager = FeedManager::new();
    assert!(!manager.item_exists(&"X".to_string()));
    assert!(manager.add_feed_item(item("X", "First"), "t1"));
    assert!(manager.item_exists(&"X".to_string()));
    assert_eq!(count(&manager, "X"), 1);
    assert!(!manager.add_feed_item(item("X", "Second"), "t2"));
    assert_eq!(count(&manager, "X"), 1);
    let items = manager.get_items();
    assert_eq!(items.len(), 1);
    assert_eq!(items[0].title, "First");
    assert_eq!(items[0].added_at, "t1");
    assert!(manager.add_feed_item(item("Y", "Other"), "t3"));
    assert_eq!(manager.get_items().len(), 2);
}

#[test]
fn store_items_tallies_new_and_known() {
    let mut manager = FeedManager::new();
    let tally = manager.store_items(vec![item("1", "a"), item("2", "b"), item("1", "c")], "t1");
    assert_eq!(tally, Tally { stored: 2, duplicates: 1, failed: 0 });
    let ids: Vec<String> = manager.get_items().iter().map(|i| i.id.clone()).collect();
    assert_eq!(ids, vec!["1".to_string(), "2".to_string()]);
    let tally = manager.store_items(vec![], "t2");
    assert_eq!(tally, Tally { stored: 0, duplicates: 0, failed: 0 });
}

#[test]
fn ingest_into_an_empty_store() {
    let mut manager = FeedManager::new();
    let feed = Feed::new("News".into(), "http://example.com/rss".into());
    let report = manager.ingest_feed(&feed, ok(RSS_TWO), "2024-01-02T03:04:05+00:00").unwrap();
    assert_eq!(report, Tally { stored: 2, duplicates: 0, failed: 0 });
    let items = manager.get_items();
    assert_eq!(items.len(), 2);
    assert_eq!(items[0].id, ALPHA_ID);
    assert_eq!(items[0].title, "Alpha");
    assert_eq!(items[0].pub_date, 0);
    assert_eq!(items[0].added_at, "2024-01-02T03:04:05+00:00");
    assert_eq!(items[0].source, "News");
    assert_eq!(items[0].url, "http://example.com/rss");
    assert_eq!(items[1].id, BETA_ID);
    assert_eq!(items[1].title, "Beta");
    assert_eq!(items[1].pub_date, 0);
    assert!(!items[1].added_at.is_empty());
}

#[test]
fn ingest_a_second_time_stores_nothing() {
    let mut manager = FeedManager::new();
    let feed = Feed::new("News".into(), "http://example.com/rss".into());
    manager.ingest_feed(&feed, ok(RSS_TWO), "first").unwrap();
    let report = manager.ingest_feed(&feed, ok(RSS_TWO), "second").unwrap();
    assert_eq!(report, Tally { stored: 0, duplicates: 2, failed: 0 });
    let items = manager.get_items();
    assert_eq!(items.len(), 2);
    assert_eq!(items[0].added_at, "first");
    assert_eq!(items[1].added_at, "first");
}

#[test]
fn ingest_collapses_equal_titles() {
    let mut manager = FeedManager::new();
    let news = Feed::new("News".into(), "http://example.com/rss".into());
    let more = Feed::new("More".into(), "http://example.com/more".into());
    manager.ingest_feed(&news, ok(RSS_TWO), "t1").unwrap();
    let report = manager.ingest_feed(&more, ok(RSS_THREE), "t2").unwrap();
    assert_eq!(report, Tally { stored: 1, duplicates: 2, failed: 0 });
    let items = manager.get_items();
    assert_eq!(items.len(), 3);
    assert_eq!(items[2].title, "Gamma");
    assert_eq!(items[2].link, "");
    assert_eq!(items[2].source, "More");
    assert_eq!(items[0].source, "News");
}

#[test]
fn fetch_passes_over_a_title_that_does_not_resolve() {
    let mut manager = FeedManager::new();
    manager.add_feed(Feed::new("One".into(), "http://one.com/rss".into()));
    manager.add_feed(Feed::new("Two".into(), "http://two.com/rss".into()));
    let titles = Some(vec!["One".to_string(), "Missing".to_string(), "Two".to_string()]);
    let chosen = manager.select_feeds(&titles);
    assert_eq!(chosen.len(), 2);
    assert_eq!(chosen[0].title, "One");
    assert_eq!(chosen[1].title, "Two");
    let reports = manager.fetch_feeds(titles, vec![ok(RSS_TWO), ok(RSS_THREE)], "now");
    assert_eq!(reports.len(), 2);
    assert_eq!(*reports[0].as_ref().unwrap(), Tally { stored: 2, duplicates: 0, failed: 0 });
    assert_eq!(*reports[1].as_ref().unwrap(), Tally { stored: 1, duplicates: 2, failed: 0 });
    let items = manager.get_items();
    assert_eq!(items.len(), 3);
    assert_eq!(items[0].source, "One");
    assert_eq!(items[2].source, "Two");
}

#[test]
fn fetch_goes_on_after_a_feed_that_is_not_found() {
    let mut manager = FeedManager::new();
    manager.add_feed(Feed::new("Gone".into(), "http://gone.com/rss".into()));
    manager.add_feed(Feed::new("Bad".into(), "http://bad.com/rss".into()));
    manager.add_feed(Feed::new("Here".into(), "http://here.com/rss".into()));
    let responses = vec![fetched(404, "not found"), ok("<html>no feed</html>"), ok(RSS_TWO)];
    let reports = manager.fetch_feeds(None, responses, "now");
    assert_eq!(reports.len(), 3);
    assert!(matches!(reports[0], Err(FeedError::Transport(Some(404)))));
    assert!(matches!(reports[1], Err(FeedError::Parse(_))));
    assert_eq!(*reports[2].as_ref().unwrap(), Tally { stored: 2, duplicates: 0, failed: 0 });
    let items = manager.get_items();
    assert_eq!(items.len(), 2);
    assert!(items.iter().all(|i| i.source == "Here"));
    assert_eq!(manager.get_feeds().len(), 3);
}

#[test]
fn fetch_counts_a_feed_without_response_as_not_answered() {
    let mut manager = FeedManager::new();
    manager.add_feed(Feed::new("One".into(), "http://one.com/rss".into()));
    manager.add_feed(Feed::new("Two".into(), "http://two.com/rss".into()));
    let reports = manager.fetch_feeds(None, vec![ok(RSS_TWO)], "now");
    assert_eq!(reports.len(), 2);
    assert!(reports[0].is_ok());
    assert!(matches!(reports[1], Err(FeedError::Transport(None))));
    let none = FeedManager::new().fetch_feeds(None, vec![ok(RSS_TWO)], "now");
    assert!(none.is_empty());
}

#[test]
fn select_without_titles_takes_the_listed_feeds() {
    let mut manager = FeedManager::new();
    manager.add_feed(Feed::new("".into(), "http://untitled.com".into()));
    manager.add_feed(Feed::new("A".into(), "http://a.com".into()));
    let chosen = manager.select_feeds(&None);
    assert_eq!(chosen.len(), 1);
    assert_eq!(chosen[0].title, "A");
    let by_title = manager.select_feeds(&Some(vec!["A".to_string(), "A".to_string()]));
    assert_eq!(by_title.len(), 2);
    assert!(manager.select_feeds(&Some(vec![])).is_empty());
}

#[test]
fn pair_jobs_matches_by_position() {
    let feeds = vec![
        Feed::new("A".into(), "http://a.com".into()),
        Feed::new("B".into(), "http://b.com".into()),
    ];
    let jobs = pair_jobs(feeds.clone(), vec![ok(RSS_TWO)]);
    assert_eq!(jobs.len(), 2);
    assert_eq!(jobs[0].0.title, "A");
    assert_eq!(jobs[0].1.as_ref().unwrap().entries.len(), 2);
    assert_eq!(jobs[1].0.title, "B");
    assert!(matches!(jobs[1].1, Err(FeedError::Transport(None))));
    let extra = pair_jobs(feeds, vec![fetched(500, ""), fetched(500, ""), ok(RSS_TWO)]);
    assert_eq!(extra.len(), 2);
    assert!(matches!(extra[1].1, Err(FeedError::Transport(Some(500)))));
}

#[test]
fn ingest_reports_every_feed() {
    let mut manager = FeedManager::new();
    let news = Feed::new("News".into(), "http://example.com/rss".into());
    let unanswered = Err(FeedError::Transport(None));
    let jobs = vec![(news.clone(), unanswered), (news.clone(), ok(RSS_TWO)), (news, ok(RSS_TWO))];
    let reports = manager.ingest(jobs, "now");
    assert_eq!(reports.len(), 3);
    assert!(matches!(reports[0], Err(FeedError::Transport(None))));
    assert_eq!(*reports[1].as_ref().unwrap(), Tally { stored: 2, duplicates: 0, failed: 0 });
    assert_eq!(*reports[2].as_ref().unwrap(), Tally { stored: 0, duplicates: 2, failed: 0 });
    assert_eq!(manager.get_items().len(), 2);
}
