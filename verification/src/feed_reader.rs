//! From a fetched feed document to canonical items: decoding the bytes for
//! the parser, and normalizing every entry of what it parsed.

use crate::encoding::{decode_body, decoded, label_bytes};
use crate::feed::{Feed, FeedView};
use crate::feed_item::{item_views, text_view, FeedItem, FeedItemView};
use vstd::prelude::*;

verus! {

/// One entry of a parsed document, before normalization.
#[derive(Debug)]
pub struct ParsedEntry {
    pub title: Option<String>,
    pub links: Vec<String>,
    pub summary: Option<String>,
    /// Seconds since the Unix epoch.
    pub published: Option<i64>,
}

/// The mathematical value of a [`ParsedEntry`].
pub struct ParsedEntryView {
    pub title: Option<Seq<char>>,
    pub links: Seq<Seq<char>>,
    pub summary: Option<Seq<char>>,
    pub published: Option<i64>,
}

impl View for ParsedEntry {
    type V = ParsedEntryView;

    open spec fn view(&self) -> ParsedEntryView {
        ParsedEntryView {
            title: text_view(self.title),
            links: self.links@.map_values(|link: String| link@),
            summary: text_view(self.summary),
            published: self.published,
        }
    }
}

/// A parsed document: the feed's own title and its entries in document order.
#[derive(Debug)]
pub struct ParsedFeed {
    pub title: Option<String>,
    pub entries: Vec<ParsedEntry>,
}

/// The mathematical value of a [`ParsedFeed`].
pub struct ParsedFeedView {
    pub title: Option<Seq<char>>,
    pub entries: Seq<ParsedEntryView>,
}

impl View for ParsedFeed {
    type V = ParsedFeedView;

    open spec fn view(&self) -> ParsedFeedView {
        ParsedFeedView {
            title: text_view(self.title),
            entries: self.entries@.map_values(|entry: ParsedEntry| entry@),
        }
    }
}

/// The lower-case hexadecimal SHA-256 digest of a text's UTF-8 bytes.
pub uninterp spec fn sha256_hex(text: Seq<char>) -> Seq<char>;

/// Hashes the text with `sha2::Sha256::digest` and renders the digest in
/// lower-case hexadecimal. Trusted: the result is the one named by
/// [`sha256_hex`].
#[verifier::external_body]
fn digest_hex(text: &str) -> (hex: String)
    ensures
        hex@ == sha256_hex(text@),
{
    format!("{:x}", <sha2::Sha256 as sha2::Digest>::digest(text))
}

/// The current time from `chrono::Utc::now`, in RFC 3339 form. Nothing is
/// claimed of the text: it differs from call to call.
#[verifier::external_body]
fn timestamp_now() -> (stamp: String) {
    chrono::Utc::now().to_rfc3339()
}

/// The title an item gets when its entry has none.
pub open spec fn placeholder_title() -> Seq<char> {
    "No title"@
}

/// The title of the item made from an entry: the entry's own where it has a
/// non-empty one, else the placeholder.
pub open spec fn item_title(entry: ParsedEntryView) -> Seq<char> {
    match entry.title {
        Some(title) if title.len() > 0 => title,
        _ => placeholder_title(),
    }
}

/// The link of the item made from an entry: the first listed, else empty.
pub open spec fn item_link(entry: ParsedEntryView) -> Seq<char> {
    if entry.links.len() > 0 {
        entry.links[0]
    } else {
        Seq::empty()
    }
}

/// The publication time of the item made from an entry, `0` when unknown.
pub open spec fn item_pub_date(entry: ParsedEntryView) -> i64 {
    match entry.published {
        Some(seconds) => seconds,
        None => 0,
    }
}

/// The canonical item of an entry of a feed, added at the given time. Its
/// identifier depends on the title alone.
pub open spec fn normalized_item(
    entry: ParsedEntryView,
    feed: FeedView,
    added_at: Seq<char>,
) -> FeedItemView {
    FeedItemView {
        id: sha256_hex(item_title(entry)),
        title: item_title(entry),
        link: item_link(entry),
        description: entry.summary,
        pub_date: item_pub_date(entry),
        source: feed.title,
        url: feed.url,
        added_at,
    }
}

/// Normalizing is repeatable: the same entry of the same feed gives, at any
/// two times, items that agree on identifier, title, link, description,
/// publication time, source and URL. Only the time of adding may differ.
pub proof fn lemma_normalization_repeatable(
    entry: ParsedEntryView,
    feed: FeedView,
    first_time: Seq<char>,
    second_time: Seq<char>,
)
    ensures
        normalized_item(entry, feed, first_time).same_content(
            normalized_item(entry, feed, second_time),
        ),
{
}

/// The identifier is made of the title alone: entries that end up with the
/// same title have the same identifier, whatever else they hold and
/// whichever feed they are from.
pub proof fn lemma_same_title_same_id(
    entry: ParsedEntryView,
    feed: FeedView,
    other: ParsedEntryView,
    other_feed: FeedView,
    first_time: Seq<char>,
    second_time: Seq<char>,
)
    requires
        item_title(entry) == item_title(other),
    ensures
        normalized_item(entry, feed, first_time).id == normalized_item(
            other,
            other_feed,
            second_time,
        ).id,
{
}

/// Normalizes one entry of `feed` into an item stamped with `added_at`.
/// Every entry has an item: missing fields take their defaults.
pub fn normalize_entry(entry: &ParsedEntry, feed: &Feed, added_at: String) -> (item: FeedItem)
    ensures
        item@ == normalized_item(entry@, feed@, added_at@),
{
    let title = match &entry.title {
        Some(text) if !text.as_str().is_empty() => text.clone(),
        _ => "No title".to_owned(),
    };
    let link = if entry.links.len() > 0 {
        entry.links[0].clone()
    } else {
        String::new()
    };
    let description = match &entry.summary {
        Some(text) => Some(text.clone()),
        None => None,
    };
    let pub_date: i64 = match entry.published {
        Some(seconds) => seconds,
        None => 0,
    };
    let id = digest_hex(title.as_str());
    let source = feed.title.clone();
    let url = feed.url.clone();
    FeedItem::new(id, title, link, description, pub_date, source, url, added_at)
}

/// What came of fetching a feed's URL.
#[derive(Debug)]
pub enum Fetched {
    /// The server answered with this status and body.
    Response { status: u16, body: Vec<u8> },
    /// No answer came: the connection failed or timed out.
    Failed,
}

/// Why a feed, an item or a lookup was given up.
#[derive(Debug)]
pub enum FeedError {
    /// The fetch failed: with `Some` status the server answered without
    /// success, with `None` it did not answer.
    Transport(Option<u16>),
    /// The parser took the document for no RSS, Atom or JSON feed; the text
    /// is the parser's own.
    Parse(String),
    /// The store could not be reached or refused a write; the text is the
    /// store's own.
    Storage(String),
    /// No feed of this title is subscribed.
    NotFound(String),
}

/// Whether an HTTP status reports success.
pub open spec fn is_success(status: u16) -> bool {
    200 <= status <= 299
}

/// Whether `items` are the canonical items of `entries`, one for one and in
/// the same order, whatever the time each was stamped with.
pub open spec fn items_match(
    items: Seq<FeedItemView>,
    entries: Seq<ParsedEntryView>,
    feed: FeedView,
) -> bool {
    &&& items.len() == entries.len()
    &&& forall|i: int|
        0 <= i < items.len() ==> #[trigger] items[i] == normalized_item(
            entries[i],
            feed,
            items[i].added_at,
        )
}

/// Whether `outcome` is what reading `feed` from `parsed` gives: a feed
/// that was given up before stays given up, with the same error and no
/// item; a parsed document gives the item of every entry.
pub open spec fn read_outcome(
    feed: FeedView,
    parsed: Result<ParsedFeed, FeedError>,
    outcome: Result<Vec<FeedItem>, FeedError>,
) -> bool {
    match parsed {
        Err(error) => outcome == Err::<Vec<FeedItem>, FeedError>(error),
        Ok(document) => outcome matches Ok(items) && items_match(
            item_views(items@),
            document@.entries,
            feed,
        ),
    }
}

/// Normalizes one entry of `feed`, stamped with the current time.
pub fn normalize(entry: &ParsedEntry, feed: &Feed) -> (item: FeedItem)
    ensures
        item@ == normalized_item(entry@, feed@, item@.added_at),
{
    normalize_entry(entry, feed, timestamp_now())
}

/// Normalizes every entry of a document, in document order, each stamped
/// with the time at which it was reached.
pub fn normalize_entries(document: &ParsedFeed, feed: &Feed) -> (items: Vec<FeedItem>)
    ensures
        items_match(item_views(items@), document@.entries, feed@),
{
    let mut items: Vec<FeedItem> = Vec::new();
    let mut i: usize = 0;
    while i < document.entries.len()
        invariant
            i <= document.entries.len(),
            items_match(item_views(items@), document@.entries.take(i as int), feed@),
        decreases document.entries.len() - i,
    {
        let item = normalize(&document.entries[i], feed);
        proof {
            let before = item_views(items@);
            let after = item_views(items@.push(item));
            assert(after =~= before.push(item@));
            assert(document@.entries.take(i + 1) =~= document@.entries.take(i as int).push(
                document.entries[i as int]@,
            ));
        }
        items.push(item);
        i += 1;
    }
    proof {
        assert(document@.entries.take(i as int) =~= document@.entries);
    }
    items
}

/// The text of a fetched document: the body of a successful response,
/// decoded under the encoding that `declared` names, or under the one found
/// in the body where it names none. A failed fetch or a status other than
/// success gives the transport error instead.
pub fn read_response(fetched: Fetched, declared: Option<&str>) -> (outcome: Result<
    String,
    FeedError,
>)
    ensures
        match fetched {
            Fetched::Failed => outcome == Err::<String, FeedError>(FeedError::Transport(None)),
            Fetched::Response { status, body } => if is_success(status) {
                outcome matches Ok(text) && text@ == decoded(body@, label_bytes(declared))
            } else {
                outcome == Err::<String, FeedError>(FeedError::Transport(Some(status)))
            },
        },
{
    match accept_response(fetched) {
        Ok(body) => Ok(decode_body(&body, declared)),
        Err(error) => Err(error),
    }
}

/// Tells a usable response from a failed fetch: only a body that came with
/// a success status is read.
pub fn accept_response(fetched: Fetched) -> (outcome: Result<Vec<u8>, FeedError>)
    ensures
        match fetched {
            Fetched::Failed => outcome == Err::<Vec<u8>, FeedError>(FeedError::Transport(None)),
            Fetched::Response { status, body } => if is_success(status) {
                outcome == Ok::<Vec<u8>, FeedError>(body)
            } else {
                outcome == Err::<Vec<u8>, FeedError>(FeedError::Transport(Some(status)))
            },
        },
{
    match fetched {
        Fetched::Failed => Err(FeedError::Transport(None)),
        Fetched::Response { status, body } => {
            if 200 <= status && status <= 299 {
                Ok(body)
            } else {
                Err(FeedError::Transport(Some(status)))
            }
        },
    }
}

/// Reads one feed from what parsing its document came to: every entry of
/// the document is normalized, in document order. A feed that was given up
/// on the way here, at the fetch or by the parser, is skipped whole: its
/// error is passed on and it brings no item.
pub fn read_feed_data(feed: &Feed, parsed: Result<ParsedFeed, FeedError>) -> (outcome: Result<
    Vec<FeedItem>,
    FeedError,
>)
    ensures
        read_outcome(feed@, parsed, outcome),
{
    match parsed {
        Ok(document) => Ok(normalize_entries(&document, feed)),
        Err(error) => Err(error),
    }
}

/// Reads several feeds, each from its own document. A feed that was given
/// up leaves the others untouched: every feed has its own outcome, in the
/// order given.
pub fn read_multiple_feeds(jobs: Vec<(Feed, Result<ParsedFeed, FeedError>)>) -> (outcomes: Vec<
    Result<Vec<FeedItem>, FeedError>,
>)
    ensures
        outcomes.len() == jobs.len(),
        forall|i: int|
            0 <= i < jobs.len() ==> read_outcome(jobs[i].0@, jobs[i].1, #[trigger] outcomes[i]),
{
    let ghost all = jobs@;
    let mut outcomes: Vec<Result<Vec<FeedItem>, FeedError>> = Vec::new();
    for job in it: jobs
        invariant
            it.seq() == all,
            outcomes@.len() == it.index(),
            forall|i: int|
                0 <= i < outcomes@.len() ==> read_outcome(
                    all[i].0@,
                    all[i].1,
                    #[trigger] outcomes@[i],
                ),
    {
        let (feed, parsed) = job;
        let outcome = read_feed_data(&feed, parsed);
        outcomes.push(outcome);
    }
    outcomes
}

} // verus!
