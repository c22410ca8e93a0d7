//! The feed manager: the registry of subscribed feeds and the items stored
//! for them, held in memory, and the fetch that brings new items in.

use crate::feed::{feed_views, Feed, FeedView};
use crate::feed_item::{item_views, FeedItem, FeedItemView};
use crate::feed_reader::{
    items_match, normalized_item, read_feed_data, FeedError, ParsedEntryView, ParsedFeed,
};
use crate::feed_storage::{
    chosen_feeds, count_id, count_url, first_titled, found_feeds, lemma_count_id_push,
    lemma_distinct_items_all_stored, lemma_persisted_all_content, lemma_persisted_all_twice,
    listed_feeds, persisted, persisted_all, registered, resolved, selected, stamped,
    without_title, ItemWriter, Tally, WriteStep,
};
use vstd::prelude::*;

verus! {

/// The mathematical value of a [`FeedManager`]: the stored feeds and the
/// stored items, each in the order in which they were stored.
pub struct FeedManagerView {
    pub feeds: Seq<FeedView>,
    pub items: Seq<FeedItemView>,
}

/// The registry of feeds and the store of items, in memory.
pub struct FeedManager {
    feeds: Vec<Feed>,
    feeds_items: Vec<FeedItem>,
}

impl View for FeedManager {
    type V = FeedManagerView;

    closed spec fn view(&self) -> FeedManagerView {
        FeedManagerView { feeds: feed_views(self.feeds@), items: item_views(self.feeds_items@) }
    }
}

/// The values of a list of titles.
pub open spec fn title_views(titles: Seq<String>) -> Seq<Seq<char>> {
    titles.map_values(|title: String| title@)
}

/// The values of the titles that a fetch is asked for, if any are given.
pub open spec fn wanted(feeds: Option<Vec<String>>) -> Option<Seq<Seq<char>>> {
    match feeds {
        Some(titles) => Some(title_views(titles@)),
        None => None,
    }
}

/// The items that one feed brings: the canonical item of every entry of its
/// document, in document order; none where the feed was given up.
pub open spec fn contribution(
    feed: FeedView,
    parsed: Result<ParsedFeed, FeedError>,
    stamp: Seq<char>,
) -> Seq<FeedItemView> {
    match parsed {
        Ok(document) => document@.entries.map_values(
            |entry: ParsedEntryView| normalized_item(entry, feed, stamp),
        ),
        Err(_) => Seq::empty(),
    }
}

/// The stored items after the feeds were ingested one after the other, each
/// from its own document.
pub open spec fn ingested(
    store: Seq<FeedItemView>,
    jobs: Seq<(FeedView, Result<ParsedFeed, FeedError>)>,
    stamp: Seq<char>,
) -> Seq<FeedItemView>
    decreases jobs.len(),
{
    if jobs.len() == 0 {
        store
    } else {
        persisted_all(
            ingested(store, jobs.drop_last(), stamp),
            contribution(jobs.last().0, jobs.last().1, stamp),
            stamp,
        )
    }
}

/// The values of a list of feeds with their documents.
pub open spec fn job_views(jobs: Seq<(Feed, Result<ParsedFeed, FeedError>)>) -> Seq<
    (FeedView, Result<ParsedFeed, FeedError>),
> {
    jobs.map_values(|job: (Feed, Result<ParsedFeed, FeedError>)| (job.0@, job.1))
}

/// Each feed with the document at its own position; a feed without one
/// counts as not answered.
pub open spec fn paired(feeds: Seq<FeedView>, documents: Seq<Result<ParsedFeed, FeedError>>) -> Seq<
    (FeedView, Result<ParsedFeed, FeedError>),
> {
    Seq::new(
        feeds.len(),
        |i: int|
            (
                feeds[i],
                if i < documents.len() {
                    documents[i]
                } else {
                    Err(FeedError::Transport(None))
                },
            ),
    )
}

/// Whether `report` is the report of ingesting a feed from `parsed` into a
/// store that held `before` and holds `after`: the error with which the feed
/// was given up, or the tally of its items, none of which can fail in
/// memory.
pub open spec fn report_matches(
    parsed: Result<ParsedFeed, FeedError>,
    before: Seq<FeedItemView>,
    after: Seq<FeedItemView>,
    report: Result<Tally, FeedError>,
) -> bool {
    match parsed {
        Err(error) => report == Err::<Tally, FeedError>(error),
        Ok(document) => {
            &&& report matches Ok(tally)
            &&& tally.failed == 0
            &&& tally.stored == after.len() - before.len()
            &&& tally.stored + tally.duplicates == document@.entries.len()
        },
    }
}

impl FeedManager {
    /// A manager with no feed and no item.
    pub fn new() -> (manager: FeedManager)
        ensures
            manager@.feeds == Seq::<FeedView>::empty(),
            manager@.items == Seq::<FeedItemView>::empty(),
    {
        let manager = FeedManager { feeds: Vec::new(), feeds_items: Vec::new() };
        proof {
            assert(feed_views(manager.feeds@) =~= Seq::<FeedView>::empty());
            assert(item_views(manager.feeds_items@) =~= Seq::<FeedItemView>::empty());
        }
        manager
    }

    /// How many stored feeds have the URL.
    pub fn count_feeds(&self, url: &String) -> (count: u64)
        ensures
            count == count_url(self@.feeds, url@),
    {
        let mut count: u64 = 0;
        let mut i: usize = 0;
        while i < self.feeds.len()
            invariant
                i <= self.feeds.len(),
                count <= i,
                count == count_url(feed_views(self.feeds@).take(i as int), url@),
            decreases self.feeds.len() - i,
        {
            proof {
                let next = feed_views(self.feeds@).take(i + 1);
                assert(next.drop_last() =~= feed_views(self.feeds@).take(i as int));
                assert(next.last() == self.feeds[i as int]@);
            }
            if self.feeds[i].url == *url {
                count = count + 1;
            }
            i += 1;
        }
        proof {
            assert(feed_views(self.feeds@).take(i as int) =~= feed_views(self.feeds@));
        }
        count
    }

    /// Subscribes a feed. Adding is idempotent by URL: a feed whose URL is
    /// already stored changes nothing, and is no error.
    pub fn add_feed(&mut self, feed: Feed)
        ensures
            final(self)@.feeds == registered(old(self)@.feeds, feed@),
            final(self)@.items == old(self)@.items,
    {
        let same_url = self.count_feeds(&feed.url);
        match crate::feed_storage::add_feed(&feed, same_url) {
            Some(record) => {
                proof {
                    assert(feed_views(self.feeds@.push(record)) =~= feed_views(self.feeds@).push(
                        record@,
                    ));
                }
                self.feeds.push(record);
            },
            None => {},
        }
    }

    /// Removes every stored feed that has the title of `feed`; its URL is
    /// not looked at. Removing a title that is not stored changes nothing,
    /// and is no error. Stored items stay.
    pub fn remove_feed(&mut self, feed: Feed)
        ensures
            final(self)@.feeds == without_title(old(self)@.feeds, feed@.title),
            final(self)@.items == old(self)@.items,
    {
        let kept = crate::feed_storage::drop_feed(&self.feeds, &feed);
        self.feeds = kept;
    }

    /// The subscribed feeds: the stored ones that have a title and a URL, in
    /// the order in which they were stored.
    pub fn get_feeds(&self) -> (feeds: Vec<Feed>)
        ensures
            feed_views(feeds@) == listed_feeds(self@.feeds),
    {
        crate::feed_storage::get_feeds(&self.feeds)
    }

    /// The first stored feed of the title, or `FeedError::NotFound` with the
    /// title where no stored feed has it.
    pub fn get_feed(&self, title: String) -> (outcome: Result<Feed, FeedError>)
        ensures
            match outcome {
                Ok(feed) => first_titled(self@.feeds, title@) == Some(feed@),
                Err(error) => first_titled(self@.feeds, title@) is None && error
                    == FeedError::NotFound(title),
            },
    {
        let mut found: Option<Feed> = None;
        let mut i: usize = 0;
        while i < self.feeds.len() && found.is_none()
            invariant
                i <= self.feeds.len(),
                match found {
                    Some(feed) => first_titled(self@.feeds, title@) == Some(feed@),
                    None => first_titled(feed_views(self.feeds@).take(i as int), title@) is None,
                },
            decreases self.feeds.len() - i,
        {
            proof {
                let next = feed_views(self.feeds@).take(i + 1);
                assert(next.drop_last() =~= feed_views(self.feeds@).take(i as int));
                assert(next.last() == self.feeds[i as int]@);
            }
            if self.feeds[i].title == title {
                let copy = self.feeds[i].clone();
                proof {
                    lemma_first_titled_prefix(feed_views(self.feeds@), title@, i + 1);
                }
                found = Some(copy);
            }
            i += 1;
        }
        proof {
            if found.is_none() {
                assert(feed_views(self.feeds@).take(i as int) =~= feed_views(self.feeds@));
            }
        }
        crate::feed_storage::get_feed(title, found)
    }

    /// How many stored items have the identifier.
    pub fn count_items(&self, id: &String) -> (count: u64)
        ensures
            count == count_id(self@.items, id@),
    {
        let mut count: u64 = 0;
        let mut i: usize = 0;
        while i < self.feeds_items.len()
            invariant
                i <= self.feeds_items.len(),
                count <= i,
                count == count_id(item_views(self.feeds_items@).take(i as int), id@),
            decreases self.feeds_items.len() - i,
        {
            proof {
                let next = item_views(self.feeds_items@).take(i + 1);
                assert(next.drop_last() =~= item_views(self.feeds_items@).take(i as int));
                assert(next.last() == self.feeds_items[i as int]@);
            }
            if self.feeds_items[i].id == *id {
                count = count + 1;
            }
            i += 1;
        }
        proof {
            assert(item_views(self.feeds_items@).take(i as int) =~= item_views(
                self.feeds_items@,
            ));
        }
        count
    }

    /// Whether an item with the identifier is stored.
    pub fn item_exists(&self, id: &String) -> (exists: bool)
        ensures
            exists == (count_id(self@.items, id@) > 0),
    {
        self.count_items(id) > 0
    }

    /// The stored items, in the order in which they were stored.
    pub fn get_items(&self) -> (items: Vec<FeedItem>)
        ensures
            item_views(items@) == self@.items,
    {
        let mut items: Vec<FeedItem> = Vec::new();
        let mut i: usize = 0;
        while i < self.feeds_items.len()
            invariant
                i <= self.feeds_items.len(),
                item_views(items@) == item_views(self.feeds_items@).take(i as int),
            decreases self.feeds_items.len() - i,
        {
            let copy = self.feeds_items[i].clone();
            proof {
                assert(item_views(items@.push(copy)) =~= item_views(items@).push(copy@));
                assert(item_views(self.feeds_items@).take(i + 1) =~= item_views(
                    self.feeds_items@,
                ).take(i as int).push(copy@));
            }
            items.push(copy);
            i += 1;
        }
        proof {
            assert(item_views(self.feeds_items@).take(i as int) =~= item_views(
                self.feeds_items@,
            ));
        }
        items
    }

    /// Stores the item as it is, stamped with the time of the write.
    fn insert_item(&mut self, item: FeedItem, stamp: &str)
        ensures
            final(self)@.feeds == old(self)@.feeds,
            final(self)@.items == old(self)@.items.push(stamped(item@, stamp@)),
    {
        let mut item = item;
        item.update_added_at(stamp.to_owned());
        proof {
            assert(item_views(self.feeds_items@.push(item)) =~= item_views(
                self.feeds_items@,
            ).push(item@));
        }
        self.feeds_items.push(item);
    }

    /// Sends one item through the gateway at time `stamp`: it is stored
    /// where no stored item has its identifier, and dropped where one has.
    /// Tells whether it was stored.
    pub fn add_feed_item(&mut self, item: FeedItem, stamp: &str) -> (stored: bool)
        ensures
            final(self)@.feeds == old(self)@.feeds,
            final(self)@.items == persisted(old(self)@.items, item@, stamp@),
            stored == (count_id(old(self)@.items, item@.id) == 0),
    {
        let ghost given = item@;
        let mut items: Vec<FeedItem> = Vec::new();
        items.push(item);
        proof {
            assert(item_views(items@) =~= seq![given]);
            reveal_with_fuel(persisted_all, 2);
            assert(seq![given].drop_last() =~= Seq::<FeedItemView>::empty());
            assert(seq![given].last() == given);
            assert(persisted_all(self@.items, seq![given], stamp@) == persisted(
                self@.items,
                given,
                stamp@,
            ));
        }
        let tally = self.store_items(items, stamp);
        proof {
            lemma_count_id_push(old(self)@.items, stamped(given, stamp@), given.id);
        }
        tally.stored == 1
    }

    /// Sends the items through the gateway at time `stamp`, one after the
    /// other in the order given. In memory no write fails, so every item is
    /// either stored or a duplicate.
    pub fn store_items(&mut self, items: Vec<FeedItem>, stamp: &str) -> (tally: Tally)
        ensures
            final(self)@.feeds == old(self)@.feeds,
            final(self)@.items == persisted_all(old(self)@.items, item_views(items@), stamp@),
            tally.failed == 0,
            tally.stored == final(self)@.items.len() - old(self)@.items.len(),
            tally.stored + tally.duplicates == items.len(),
    {
        let ghost given = item_views(items@);
        let ghost before = self@.items;
        let mut writer = ItemWriter::new(items);
        proof {
            assert(given.take(0) =~= Seq::<FeedItemView>::empty());
        }
        while !writer.is_done()
            invariant
                writer@.wf(),
                writer@.items == given,
                self@.feeds == old(self)@.feeds,
                self@.items == persisted_all(before, given.take(writer@.next as int), stamp@),
                writer@.inserting ==> count_id(self@.items, given[writer@.next as int].id) == 0,
                writer@.tally.failed == 0,
                writer@.tally.stored == self@.items.len() - before.len(),
            decreases writer@.remaining(),
        {
            let ghost at = writer@.next as int;
            proof {
                assert(given.take(at + 1).drop_last() =~= given.take(at));
                assert(given.take(at + 1).last() == given[at]);
            }
            match writer.step() {
                WriteStep::Count(id) => {
                    let count = self.count_items(&id);
                    writer.on_counted(Ok(count));
                },
                WriteStep::Insert(item) => {
                    self.insert_item(item, stamp);
                    writer.on_inserted(Ok(()));
                },
                WriteStep::Done => {},
            }
        }
        proof {
            assert(given.take(writer@.next as int) =~= given);
        }
        writer.tally()
    }

    /// Ingests one feed from what parsing its document came to, at time
    /// `stamp`. A feed that was given up is skipped whole and stores nothing.
    pub fn ingest_feed(
        &mut self,
        feed: &Feed,
        parsed: Result<ParsedFeed, FeedError>,
        stamp: &str,
    ) -> (report: Result<Tally, FeedError>)
        ensures
            final(self)@.feeds == old(self)@.feeds,
            final(self)@.items == persisted_all(
                old(self)@.items,
                contribution(feed@, parsed, stamp@),
                stamp@,
            ),
            report_matches(parsed, old(self)@.items, final(self)@.items, report),
    {
        match read_feed_data(feed, parsed) {
            Ok(items) => {
                proof {
                    let fresh = contribution(feed@, parsed, stamp@);
                    let read = item_views(items@);
                    assert forall|k: int| 0 <= k < read.len() implies (#[trigger] read[k])
                        .same_content(fresh[k]) by {}
                    lemma_persisted_all_content(self@.items, read, fresh, stamp@);
                }
                Ok(self.store_items(items, stamp))
            },
            Err(error) => Err(error),
        }
    }

    /// Ingests several feeds, one after the other in the order given, each
    /// from its own document. A feed that is skipped does not stop the
    /// others: every feed is attempted and has its own report.
    pub fn ingest(
        &mut self,
        jobs: Vec<(Feed, Result<ParsedFeed, FeedError>)>,
        stamp: &str,
    ) -> (reports: Vec<Result<Tally, FeedError>>)
        ensures
            final(self)@.feeds == old(self)@.feeds,
            final(self)@.items == ingested(old(self)@.items, job_views(jobs@), stamp@),
            reports.len() == jobs.len(),
            forall|i: int|
                0 <= i < jobs.len() ==> report_matches(
                    jobs[i].1,
                    ingested(old(self)@.items, job_views(jobs@).take(i), stamp@),
                    ingested(old(self)@.items, job_views(jobs@).take(i + 1), stamp@),
                    #[trigger] reports[i],
                ),
    {
        let ghost all = job_views(jobs@);
        let ghost given = jobs@;
        let ghost before = self@.items;
        let mut reports: Vec<Result<Tally, FeedError>> = Vec::new();
        proof {
            assert(all.take(0) =~= Seq::<(FeedView, Result<ParsedFeed, FeedError>)>::empty());
        }
        for job in it: jobs
            invariant
                it.seq() == given,
                all == job_views(given),
                self@.feeds == old(self)@.feeds,
                self@.items == ingested(before, all.take(it.index() as int), stamp@),
                reports@.len() == it.index(),
                forall|i: int|
                    0 <= i < reports@.len() ==> report_matches(
                        given[i].1,
                        ingested(before, all.take(i), stamp@),
                        ingested(before, all.take(i + 1), stamp@),
                        #[trigger] reports@[i],
                    ),
        {
            let ghost at = it.index() as int;
            proof {
                assert(all.take(at + 1).drop_last() =~= all.take(at));
                assert(all.take(at + 1).last() == (job.0@, job.1));
            }
            let (feed, parsed) = job;
            let report = self.ingest_feed(&feed, parsed, stamp);
            reports.push(report);
        }
        proof {
            assert(all.take(given.len() as int) =~= all);
        }
        reports
    }

    /// The feeds that a fetch is for. Without titles these are the
    /// subscribed feeds; with titles, the feed of each title in the order of
    /// the titles, a title that resolves to no feed being passed over.
    pub fn select_feeds(&self, feeds: &Option<Vec<String>>) -> (chosen: Vec<Feed>)
        ensures
            feed_views(chosen@) == selected(self@.feeds, wanted(*feeds)),
    {
        match feeds {
            None => self.get_feeds(),
            Some(titles) => {
                let mut lookups: Vec<Result<Feed, FeedError>> = Vec::new();
                let mut i: usize = 0;
                proof {
                    assert(title_views(titles@).take(0) =~= Seq::<Seq<char>>::empty());
                }
                while i < titles.len()
                    invariant
                        i <= titles.len(),
                        found_feeds(lookups@) == resolved(
                            self@.feeds,
                            title_views(titles@).take(i as int),
                        ),
                    decreases titles.len() - i,
                {
                    let lookup = self.get_feed(titles[i].clone());
                    proof {
                        let next = title_views(titles@).take(i + 1);
                        assert(next.drop_last() =~= title_views(titles@).take(i as int));
                        assert(next.last() == titles[i as int]@);
                        assert(lookups@.push(lookup).drop_last() =~= lookups@);
                    }
                    lookups.push(lookup);
                    i += 1;
                }
                proof {
                    assert(title_views(titles@).take(i as int) =~= title_views(titles@));
                }
                chosen_feeds(lookups)
            },
        }
    }

    /// Fetches feeds into the store at time `stamp`: all subscribed feeds
    /// where no titles are given, else the feeds that the titles resolve to.
    /// Fetching and parsing are the caller's: `documents` holds what came of
    /// them, one outcome per chosen feed and in the same order, and a feed
    /// left without one counts as not answered. Feeds are ingested in that
    /// order; one that is skipped does not stop the others.
    pub fn fetch_feeds(
        &mut self,
        feeds: Option<Vec<String>>,
        documents: Vec<Result<ParsedFeed, FeedError>>,
        stamp: &str,
    ) -> (reports: Vec<Result<Tally, FeedError>>)
        ensures
            final(self)@.feeds == old(self)@.feeds,
            final(self)@.items == ingested(
                old(self)@.items,
                paired(selected(old(self)@.feeds, wanted(feeds)), documents@),
                stamp@,
            ),
            reports.len() == selected(old(self)@.feeds, wanted(feeds)).len(),
            forall|i: int|
                0 <= i < reports.len() ==> {
                    let jobs = paired(selected(old(self)@.feeds, wanted(feeds)), documents@);
                    report_matches(
                        jobs[i].1,
                        ingested(old(self)@.items, jobs.take(i), stamp@),
                        ingested(old(self)@.items, jobs.take(i + 1), stamp@),
                        #[trigger] reports[i],
                    )
                },
    {
        let chosen = self.select_feeds(&feeds);
        let jobs = pair_jobs(chosen, documents);
        self.ingest(jobs, stamp)
    }
}

/// Pairs each feed with the document at its own position. A feed without a
/// document is paired with a fetch that was not answered; a document
/// without a feed is dropped.
pub fn pair_jobs(feeds: Vec<Feed>, documents: Vec<Result<ParsedFeed, FeedError>>) -> (jobs: Vec<
    (Feed, Result<ParsedFeed, FeedError>),
>)
    ensures
        job_views(jobs@) == paired(feed_views(feeds@), documents@),
{
    let ghost given = documents@;
    let mut jobs: Vec<(Feed, Result<ParsedFeed, FeedError>)> = Vec::new();
    for document in it: documents
        invariant
            it.seq() == given,
            jobs@.len() == if it.index() <= feeds@.len() {
                it.index() as int
            } else {
                feeds@.len() as int
            },
            forall|i: int|
                0 <= i < jobs@.len() ==> (#[trigger] jobs@[i]).0@ == feeds@[i]@ && jobs@[i].1
                    == given[i],
    {
        let at = jobs.len();
        if at < feeds.len() {
            jobs.push((feeds[at].clone(), document));
        }
    }
    let mut at = jobs.len();
    while at < feeds.len()
        invariant
            at == jobs@.len(),
            at <= feeds@.len(),
            given.len() <= feeds@.len() ==> at >= given.len(),
            given.len() > feeds@.len() ==> at == feeds@.len(),
            forall|i: int|
                0 <= i < jobs@.len() ==> (#[trigger] jobs@[i]).0@ == feeds@[i]@ && jobs@[i].1 == (
                if i < given.len() {
                    given[i]
                } else {
                    Err::<ParsedFeed, FeedError>(FeedError::Transport(None))
                }),
        decreases feeds.len() - at,
    {
        jobs.push((feeds[at].clone(), Err(FeedError::Transport(None))));
        at += 1;
    }
    proof {
        assert(job_views(jobs@) =~= paired(feed_views(feeds@), given));
    }
    jobs
}

/// A feed that was given up, at the fetch or by the parser, brings no item,
/// so ingesting it leaves the store alone.
pub proof fn lemma_skipped_feed_stores_nothing(
    store: Seq<FeedItemView>,
    feed: FeedView,
    error: FeedError,
    stamp: Seq<char>,
)
    ensures
        contribution(feed, Err(error), stamp) == Seq::<FeedItemView>::empty(),
        persisted_all(store, contribution(feed, Err(error), stamp), stamp) == store,
{
}

/// A parsed document brings one item per entry, in document order.
pub proof fn lemma_contribution_keeps_order(feed: FeedView, document: ParsedFeed, stamp: Seq<char>)
    ensures
        items_match(contribution(feed, Ok(document), stamp), document@.entries, feed),
{
}

/// A document whose entries all get different identifiers, ingested into an
/// empty store, is stored whole: one record per entry, in document order,
/// each with the entry's title, link, description and publication time, the
/// feed's title as source and the feed's URL, stamped with the time of the
/// write.
pub proof fn lemma_fresh_document_stored_whole(
    feed: FeedView,
    document: ParsedFeed,
    stamp: Seq<char>,
)
    requires
        forall|i: int, j: int|
            0 <= i < j < document@.entries.len() ==> (#[trigger] normalized_item(
                document@.entries[i],
                feed,
                stamp,
            )).id != (#[trigger] normalized_item(document@.entries[j], feed, stamp)).id,
    ensures
        persisted_all(Seq::empty(), contribution(feed, Ok(document), stamp), stamp)
            == contribution(feed, Ok(document), stamp),
        items_match(
            persisted_all(Seq::empty(), contribution(feed, Ok(document), stamp), stamp),
            document@.entries,
            feed,
        ),
{
    let items = contribution(feed, Ok(document), stamp);
    assert forall|i: int, j: int| 0 <= i < j < items.len() implies (#[trigger] items[i]).id != (
    #[trigger] items[j]).id by {
        assert(items[i] == normalized_item(document@.entries[i], feed, stamp));
        assert(items[j] == normalized_item(document@.entries[j], feed, stamp));
    }
    lemma_distinct_items_all_stored(items, stamp);
    assert(items.map_values(|item: FeedItemView| stamped(item, stamp)) =~= items);
}

/// Ingesting the same document a second time, at whatever later time,
/// stores nothing new: every identifier it brings is stored already.
pub proof fn lemma_ingest_twice(
    store: Seq<FeedItemView>,
    feed: FeedView,
    parsed: Result<ParsedFeed, FeedError>,
    stamp: Seq<char>,
    later: Seq<char>,
)
    ensures
        persisted_all(
            persisted_all(store, contribution(feed, parsed, stamp), stamp),
            contribution(feed, parsed, later),
            later,
        ) == persisted_all(store, contribution(feed, parsed, stamp), stamp),
{
    let first = contribution(feed, parsed, stamp);
    let second = contribution(feed, parsed, later);
    let after = persisted_all(store, first, stamp);
    assert forall|k: int| 0 <= k < second.len() implies (#[trigger] second[k]).same_content(
        first[k],
    ) by {}
    lemma_persisted_all_content(after, second, first, later);
    lemma_persisted_all_twice(store, first, stamp, later);
}

/// A title that resolves to no feed is passed over: the fetch is for the
/// same feeds as without it.
pub proof fn lemma_unresolved_title_passed_over(
    feeds: Seq<FeedView>,
    titles: Seq<Seq<char>>,
    title: Seq<char>,
)
    requires
        first_titled(feeds, title) is None,
    ensures
        resolved(feeds, titles.push(title)) == resolved(feeds, titles),
{
    assert(titles.push(title).drop_last() =~= titles);
}

/// What is found in the first stored feeds is found in all of them: a later
/// feed of the same title never takes the place of an earlier one.
pub proof fn lemma_first_titled_prefix(feeds: Seq<FeedView>, title: Seq<char>, n: int)
    requires
        0 <= n <= feeds.len(),
        first_titled(feeds.take(n), title) is Some,
    ensures
        first_titled(feeds, title) == first_titled(feeds.take(n), title),
    decreases feeds.len() - n,
{
    if n < feeds.len() {
        assert(feeds.take(n + 1).drop_last() =~= feeds.take(n));
        lemma_first_titled_prefix(feeds, title, n + 1);
    } else {
        assert(feeds.take(n) =~= feeds);
    }
}

} // verus!
