//! What the store is asked and what is made of its answers: the rules of
//! the feed registry and of the item gateway, kept apart from the store
//! itself so that any driver, over any store, follows the same ones.

use crate::feed::{feed_views, Feed, FeedView};
use crate::feed_item::{item_views, FeedItem, FeedItemView};
use crate::feed_reader::FeedError;
use vstd::prelude::*;
use vstd::utf8::encode_utf8;

verus! {

/// The bytes that stand for themselves in a percent-encoded text: ASCII
/// letters and digits, `-`, `.`, `_` and `~`.
pub open spec fn is_unreserved(byte: u8) -> bool {
    ||| 0x30 <= byte <= 0x39
    ||| 0x41 <= byte <= 0x5A
    ||| 0x61 <= byte <= 0x7A
    ||| byte == 0x2D
    ||| byte == 0x2E
    ||| byte == 0x5F
    ||| byte == 0x7E
}

/// The upper-case hexadecimal digit of a value below sixteen.
pub open spec fn hex_digit(nibble: u8) -> char {
    if nibble < 10 {
        (0x30 + nibble) as u8 as char
    } else {
        (0x41 + nibble - 10) as u8 as char
    }
}

/// One byte, percent-encoded.
pub open spec fn percent_encoded_byte(byte: u8) -> Seq<char> {
    if is_unreserved(byte) {
        seq![byte as char]
    } else {
        seq!['%', hex_digit(byte / 16), hex_digit(byte % 16)]
    }
}

/// A byte string, percent-encoded byte by byte.
pub open spec fn percent_encoded(bytes: Seq<u8>) -> Seq<char>
    decreases bytes.len(),
{
    if bytes.len() == 0 {
        Seq::empty()
    } else {
        percent_encoded(bytes.drop_last()) + percent_encoded_byte(bytes.last())
    }
}

/// Calls `urlencoding::encode`. Trusted: every byte of the text's UTF-8 form
/// but letters, digits, `-`, `.`, `_` and `~` becomes `%` and two upper-case
/// hexadecimal digits.
#[verifier::external_body]
fn percent_encode(text: &str) -> (encoded: String)
    ensures
        encoded@ == percent_encoded(encode_utf8(text@)),
{
    urlencoding::encode(text).into_owned()
}

/// The address of the store for the given account, host and application
/// name. Only the password is percent-encoded.
pub open spec fn connection_url_text(
    login: Seq<char>,
    password: Seq<char>,
    host: Seq<char>,
    cluster: Seq<char>,
) -> Seq<char> {
    "mongodb+srv://"@ + login + ":"@ + percent_encoded(encode_utf8(password)) + "@"@ + host
        + "/?retryWrites=true&w=majority&appName="@ + cluster
}

/// Builds the address under which the store is reached.
pub fn connection_url(login: &str, password: &str, host: &str, cluster: &str) -> (url: String)
    ensures
        url@ == connection_url_text(login@, password@, host@, cluster@),
{
    let encoded = percent_encode(password);
    let mut url = String::from_str("mongodb+srv://");
    url.append(login);
    url.append(":");
    url.append(encoded.as_str());
    url.append("@");
    url.append(host);
    url.append("/?retryWrites=true&w=majority&appName=");
    url.append(cluster);
    url
}

/// A feed as a stored record gives it: a field that the record lacks is
/// empty.
pub fn stored_feed(title: Option<String>, url: Option<String>) -> (feed: Feed)
    ensures
        feed@.title == match title {
            Some(text) => text@,
            None => Seq::empty(),
        },
        feed@.url == match url {
            Some(text) => text@,
            None => Seq::empty(),
        },
{
    let title = match title {
        Some(text) => text,
        None => String::new(),
    };
    let url = match url {
        Some(text) => text,
        None => String::new(),
    };
    Feed::new(title, url)
}

/// A record is listed when it has both a title and a URL.
pub open spec fn is_listed(feed: FeedView) -> bool {
    feed.title.len() > 0 && feed.url.len() > 0
}

/// The records that are listed, in their stored order.
pub open spec fn listed_feeds(records: Seq<FeedView>) -> Seq<FeedView> {
    records.filter(|feed: FeedView| is_listed(feed))
}

/// The subscribed feeds among all stored records: those with a title and a
/// URL, in their stored order.
pub fn get_feeds(records: &Vec<Feed>) -> (feeds: Vec<Feed>)
    ensures
        feed_views(feeds@) == listed_feeds(feed_views(records@)),
{
    let mut feeds: Vec<Feed> = Vec::new();
    let mut i: usize = 0;
    proof {
        reveal(Seq::filter);
    }
    while i < records.len()
        invariant
            i <= records.len(),
            feed_views(feeds@) == listed_feeds(feed_views(records@).take(i as int)),
        decreases records.len() - i,
    {
        let record = &records[i];
        proof {
            reveal(Seq::filter);
            let seen = feed_views(records@).take(i as int);
            let next = feed_views(records@).take(i + 1);
            assert(next.drop_last() =~= seen);
            assert(next.last() == record@);
        }
        if !record.title.as_str().is_empty() && !record.url.as_str().is_empty() {
            let copy = record.clone();
            proof {
                assert(feed_views(feeds@.push(copy)) =~= feed_views(feeds@).push(copy@));
            }
            feeds.push(copy);
        }
        i += 1;
    }
    proof {
        assert(feed_views(records@).take(i as int) =~= feed_views(records@));
    }
    feeds
}

/// The records that stay when a feed is dropped: every record but those
/// with the feed's title, in their stored order. The feed's URL is not
/// looked at.
pub fn drop_feed(records: &Vec<Feed>, feed: &Feed) -> (kept: Vec<Feed>)
    ensures
        feed_views(kept@) == without_title(feed_views(records@), feed@.title),
{
    let mut kept: Vec<Feed> = Vec::new();
    let mut i: usize = 0;
    proof {
        reveal(Seq::filter);
    }
    while i < records.len()
        invariant
            i <= records.len(),
            feed_views(kept@) == without_title(feed_views(records@).take(i as int), feed@.title),
        decreases records.len() - i,
    {
        proof {
            reveal(Seq::filter);
            let next = feed_views(records@).take(i + 1);
            assert(next.drop_last() =~= feed_views(records@).take(i as int));
            assert(next.last() == records[i as int]@);
        }
        if records[i].title != feed.title {
            let copy = records[i].clone();
            proof {
                assert(feed_views(kept@.push(copy)) =~= feed_views(kept@).push(copy@));
            }
            kept.push(copy);
        }
        i += 1;
    }
    proof {
        assert(feed_views(records@).take(i as int) =~= feed_views(records@));
    }
    kept
}

/// The feed of a title from what the store found for it: the record, or
/// `FeedError::NotFound` with the title where there is none.
pub fn get_feed(title: String, found: Option<Feed>) -> (outcome: Result<Feed, FeedError>)
    ensures
        match found {
            Some(feed) => outcome == Ok::<Feed, FeedError>(feed),
            None => outcome == Err::<Feed, FeedError>(FeedError::NotFound(title)),
        },
{
    match found {
        Some(feed) => Ok(feed),
        None => Err(FeedError::NotFound(title)),
    }
}

/// The feeds among the outcomes of a list of lookups: the feed of every
/// lookup that found one, in the order of the lookups.
pub open spec fn found_feeds(lookups: Seq<Result<Feed, FeedError>>) -> Seq<FeedView>
    decreases lookups.len(),
{
    if lookups.len() == 0 {
        Seq::empty()
    } else {
        match lookups.last() {
            Ok(feed) => found_feeds(lookups.drop_last()).push(feed@),
            Err(_) => found_feeds(lookups.drop_last()),
        }
    }
}

/// The feeds that a fetch by titles is for, from the outcome of looking up
/// each title: a title that resolved gives its feed, one that did not is
/// passed over and stops nothing.
pub fn chosen_feeds(lookups: Vec<Result<Feed, FeedError>>) -> (chosen: Vec<Feed>)
    ensures
        feed_views(chosen@) == found_feeds(lookups@),
{
    let ghost all = lookups@;
    let mut chosen: Vec<Feed> = Vec::new();
    proof {
        assert(all.take(0) =~= Seq::<Result<Feed, FeedError>>::empty());
        assert(feed_views(chosen@) =~= Seq::<FeedView>::empty());
    }
    for lookup in it: lookups
        invariant
            it.seq() == all,
            feed_views(chosen@) == found_feeds(all.take(it.index() as int)),
    {
        proof {
            let next = all.take(it.index() + 1);
            assert(next.drop_last() =~= all.take(it.index() as int));
            assert(next.last() == lookup);
        }
        match lookup {
            Ok(feed) => {
                proof {
                    assert(feed_views(chosen@.push(feed)) =~= feed_views(chosen@).push(feed@));
                }
                chosen.push(feed);
            },
            Err(_) => {},
        }
    }
    proof {
        assert(all.take(all.len() as int) =~= all);
    }
    chosen
}

/// The words in which a lookup that found nothing is reported.
pub fn not_found_message(title: &str) -> (message: String)
    ensures
        message@ == "No feed named '"@ + title@ + "' found"@,
{
    let mut message = String::from_str("No feed named '");
    message.append(title);
    message.append("' found");
    message
}

/// Adding a feed is idempotent by URL: given how many stored records have
/// the feed's URL, the record to insert, or `None` where one is there.
pub fn add_feed(feed: &Feed, same_url: u64) -> (record: Option<Feed>)
    ensures
        match record {
            Some(new) => same_url == 0 && new@ == feed@,
            None => same_url != 0,
        },
{
    if same_url == 0 {
        Some(feed.clone())
    } else {
        None
    }
}

/// How many stored feeds have the URL.
pub open spec fn count_url(feeds: Seq<FeedView>, url: Seq<char>) -> nat
    decreases feeds.len(),
{
    if feeds.len() == 0 {
        0
    } else {
        count_url(feeds.drop_last(), url) + if feeds.last().url == url {
            1nat
        } else {
            0nat
        }
    }
}

/// The registry after `feed` was added: it is appended where no stored feed
/// has its URL, and nothing changes where one has.
pub open spec fn registered(feeds: Seq<FeedView>, feed: FeedView) -> Seq<FeedView> {
    if count_url(feeds, feed.url) == 0 {
        feeds.push(feed)
    } else {
        feeds
    }
}

/// The registry after every feed of the title was removed. The others keep
/// their order.
pub open spec fn without_title(feeds: Seq<FeedView>, title: Seq<char>) -> Seq<FeedView> {
    feeds.filter(|feed: FeedView| feed.title != title)
}

/// The first stored feed of the title, if there is one.
pub open spec fn first_titled(feeds: Seq<FeedView>, title: Seq<char>) -> Option<FeedView>
    decreases feeds.len(),
{
    if feeds.len() == 0 {
        None
    } else {
        match first_titled(feeds.drop_last(), title) {
            Some(feed) => Some(feed),
            None => if feeds.last().title == title {
                Some(feeds.last())
            } else {
                None
            },
        }
    }
}

/// The feeds that a list of titles resolves to, in the order of the titles.
/// A title without a feed is passed over.
pub open spec fn resolved(feeds: Seq<FeedView>, titles: Seq<Seq<char>>) -> Seq<FeedView>
    decreases titles.len(),
{
    if titles.len() == 0 {
        Seq::empty()
    } else {
        match first_titled(feeds, titles.last()) {
            Some(feed) => resolved(feeds, titles.drop_last()).push(feed),
            None => resolved(feeds, titles.drop_last()),
        }
    }
}

/// The feeds that a fetch is for: every listed feed where no titles are
/// given, else those that the titles resolve to.
pub open spec fn selected(feeds: Seq<FeedView>, titles: Option<Seq<Seq<char>>>) -> Seq<FeedView> {
    match titles {
        None => listed_feeds(feeds),
        Some(titles) => resolved(feeds, titles),
    }
}

/// Appending a feed raises the count of its URL by one and leaves every
/// other count alone.
pub proof fn lemma_count_url_push(feeds: Seq<FeedView>, feed: FeedView, url: Seq<char>)
    ensures
        count_url(feeds.push(feed), url) == count_url(feeds, url) + if feed.url == url {
            1nat
        } else {
            0nat
        },
{
    assert(feeds.push(feed).drop_last() =~= feeds);
}

/// Adding is idempotent by URL: a second feed with the URL of the first,
/// whatever its title, leaves the registry as the first left it; and where
/// the URL was stored at most once before, it is stored exactly once after.
pub proof fn lemma_registered_twice(feeds: Seq<FeedView>, first: FeedView, second: FeedView)
    requires
        first.url == second.url,
    ensures
        registered(registered(feeds, first), second) == registered(feeds, first),
        count_url(feeds, first.url) <= 1 ==> count_url(
            registered(registered(feeds, first), second),
            first.url,
        ) == 1,
{
    lemma_count_url_push(feeds, first, first.url);
}

/// A feed that is found has the title asked for and is a stored one, the
/// first of them; where none is found, no stored feed has the title.
pub proof fn lemma_first_titled(feeds: Seq<FeedView>, title: Seq<char>)
    ensures
        match first_titled(feeds, title) {
            Some(feed) => exists|i: int|
                0 <= i < feeds.len() && feeds[i] == feed && feed.title == title && forall|j: int|
                    0 <= j < i ==> (#[trigger] feeds[j]).title != title,
            None => forall|j: int| 0 <= j < feeds.len() ==> (#[trigger] feeds[j]).title != title,
        },
    decreases feeds.len(),
{
    if feeds.len() > 0 {
        let front = feeds.drop_last();
        lemma_first_titled(front, title);
        match first_titled(front, title) {
            Some(feed) => {
                let i = choose|i: int|
                    0 <= i < front.len() && front[i] == feed && feed.title == title && forall|
                        j: int,
                    |
                        0 <= j < i ==> (#[trigger] front[j]).title != title;
                assert(feeds[i] == feed);
                assert forall|j: int| 0 <= j < i implies (#[trigger] feeds[j]).title != title by {
                    assert(front[j] == feeds[j]);
                }
            },
            None => {
                assert forall|j: int| 0 <= j < front.len() implies (#[trigger] feeds[j]).title
                    != title by {
                    assert(front[j] == feeds[j]);
                }
                if feeds.last().title == title {
                    assert(feeds[feeds.len() - 1] == feeds.last());
                }
            },
        }
    }
}

/// After a title was removed no feed has it, and a feed of another title is
/// found as before.
pub proof fn lemma_without_title(feeds: Seq<FeedView>, title: Seq<char>, other: Seq<char>)
    ensures
        first_titled(without_title(feeds, title), title) is None,
        other != title ==> first_titled(without_title(feeds, title), other) == first_titled(
            feeds,
            other,
        ),
    decreases feeds.len(),
{
    reveal(Seq::filter);
    if feeds.len() > 0 {
        lemma_without_title(feeds.drop_last(), title, other);
        let kept = without_title(feeds.drop_last(), title);
        if feeds.last().title != title {
            assert(without_title(feeds, title) == kept.push(feeds.last()));
            assert(kept.push(feeds.last()).drop_last() =~= kept);
        }
    }
}

/// How many stored items have the identifier.
pub open spec fn count_id(items: Seq<FeedItemView>, id: Seq<char>) -> nat
    decreases items.len(),
{
    if items.len() == 0 {
        0
    } else {
        count_id(items.drop_last(), id) + if items.last().id == id {
            1nat
        } else {
            0nat
        }
    }
}

/// The item as the store keeps it: stamped with the time of the write, not
/// with the one it came with.
pub open spec fn stamped(item: FeedItemView, stamp: Seq<char>) -> FeedItemView {
    FeedItemView { added_at: stamp, ..item }
}

/// The stored items after one item went through the gateway at time
/// `stamp`: it is appended where no stored item has its identifier, and
/// nothing changes where one has.
pub open spec fn persisted(
    store: Seq<FeedItemView>,
    item: FeedItemView,
    stamp: Seq<char>,
) -> Seq<FeedItemView> {
    if count_id(store, item.id) == 0 {
        store.push(stamped(item, stamp))
    } else {
        store
    }
}

/// The stored items after a list of items went through the gateway one
/// after the other, in the order of the list.
pub open spec fn persisted_all(
    store: Seq<FeedItemView>,
    items: Seq<FeedItemView>,
    stamp: Seq<char>,
) -> Seq<FeedItemView>
    decreases items.len(),
{
    if items.len() == 0 {
        store
    } else {
        persisted(persisted_all(store, items.drop_last(), stamp), items.last(), stamp)
    }
}

/// No identifier is stored twice.
pub open spec fn unique_ids(store: Seq<FeedItemView>) -> bool {
    forall|id: Seq<char>| #[trigger] count_id(store, id) <= 1
}

/// Appending an item raises the count of its identifier by one and leaves
/// every other count alone.
pub proof fn lemma_count_id_push(store: Seq<FeedItemView>, item: FeedItemView, id: Seq<char>)
    ensures
        count_id(store.push(item), id) == count_id(store, id) + if item.id == id {
            1nat
        } else {
            0nat
        },
{
    assert(store.push(item).drop_last() =~= store);
}

/// The gateway never takes anything away: no count goes down, and the
/// identifier of the item that went through is stored afterwards.
pub proof fn lemma_persisted_keeps(
    store: Seq<FeedItemView>,
    item: FeedItemView,
    stamp: Seq<char>,
    id: Seq<char>,
)
    ensures
        count_id(persisted(store, item, stamp), id) >= count_id(store, id),
        count_id(persisted(store, item, stamp), item.id) >= 1,
{
    lemma_count_id_push(store, stamped(item, stamp), id);
    lemma_count_id_push(store, stamped(item, stamp), item.id);
}

/// An item whose identifier is already stored changes nothing: the store is
/// the same afterwards, and so is the number of items with that identifier.
pub proof fn lemma_duplicate_changes_nothing(
    store: Seq<FeedItemView>,
    item: FeedItemView,
    stamp: Seq<char>,
)
    requires
        count_id(store, item.id) > 0,
    ensures
        persisted(store, item, stamp) == store,
        count_id(persisted(store, item, stamp), item.id) == count_id(store, item.id),
{
}

/// Sending the same identifier through the gateway twice stores it once:
/// the second item, whatever its other fields and whenever it comes, leaves
/// the store as the first left it.
pub proof fn lemma_persisted_twice(
    store: Seq<FeedItemView>,
    first: FeedItemView,
    second: FeedItemView,
    stamp: Seq<char>,
    later: Seq<char>,
)
    requires
        first.id == second.id,
    ensures
        persisted(persisted(store, first, stamp), second, later) == persisted(store, first, stamp),
{
    lemma_persisted_keeps(store, first, stamp, first.id);
}

/// The gateway keeps identifiers unique: a store without a repeated
/// identifier has none after an item went through.
pub proof fn lemma_persisted_unique(store: Seq<FeedItemView>, item: FeedItemView, stamp: Seq<char>)
    requires
        unique_ids(store),
    ensures
        unique_ids(persisted(store, item, stamp)),
{
    assert forall|id: Seq<char>| #[trigger] count_id(persisted(store, item, stamp), id) <= 1 by {
        lemma_count_id_push(store, stamped(item, stamp), id);
        assert(count_id(store, id) <= 1);
    }
}

/// A whole list through the gateway keeps identifiers unique, too.
pub proof fn lemma_persisted_all_unique(
    store: Seq<FeedItemView>,
    items: Seq<FeedItemView>,
    stamp: Seq<char>,
)
    requires
        unique_ids(store),
    ensures
        unique_ids(persisted_all(store, items, stamp)),
    decreases items.len(),
{
    if items.len() > 0 {
        lemma_persisted_all_unique(store, items.drop_last(), stamp);
        lemma_persisted_unique(
            persisted_all(store, items.drop_last(), stamp),
            items.last(),
            stamp,
        );
    }
}

/// After a list went through the gateway no count has gone down, and the
/// identifier of each of its items is stored.
pub proof fn lemma_persisted_all_keeps(
    store: Seq<FeedItemView>,
    items: Seq<FeedItemView>,
    stamp: Seq<char>,
)
    ensures
        forall|id: Seq<char>| #[trigger]
            count_id(persisted_all(store, items, stamp), id) >= count_id(store, id),
        forall|k: int|
            0 <= k < items.len() ==> count_id(
                persisted_all(store, items, stamp),
                #[trigger] items[k].id,
            ) >= 1,
    decreases items.len(),
{
    if items.len() > 0 {
        let before = persisted_all(store, items.drop_last(), stamp);
        lemma_persisted_all_keeps(store, items.drop_last(), stamp);
        assert forall|id: Seq<char>| #[trigger]
            count_id(persisted_all(store, items, stamp), id) >= count_id(store, id) by {
            lemma_persisted_keeps(before, items.last(), stamp, id);
            assert(count_id(before, id) >= count_id(store, id));
        }
        assert forall|k: int| 0 <= k < items.len() implies count_id(
            persisted_all(store, items, stamp),
            #[trigger] items[k].id,
        ) >= 1 by {
            lemma_persisted_keeps(before, items.last(), stamp, items[k].id);
            if k < items.len() - 1 {
                assert(items.drop_last()[k] == items[k]);
            }
        }
    }
}

/// A list of items whose identifiers are all stored goes through the
/// gateway without a trace.
pub proof fn lemma_known_items_change_nothing(
    store: Seq<FeedItemView>,
    items: Seq<FeedItemView>,
    stamp: Seq<char>,
)
    requires
        forall|k: int| 0 <= k < items.len() ==> count_id(store, #[trigger] items[k].id) >= 1,
    ensures
        persisted_all(store, items, stamp) == store,
    decreases items.len(),
{
    if items.len() > 0 {
        assert forall|k: int| 0 <= k < items.drop_last().len() implies count_id(
            store,
            #[trigger] items.drop_last()[k].id,
        ) >= 1 by {
            assert(items.drop_last()[k] == items[k]);
        }
        lemma_known_items_change_nothing(store, items.drop_last(), stamp);
        assert(count_id(store, items[items.len() - 1].id) >= 1);
    }
}

/// Ingesting the same items a second time stores nothing new, whenever the
/// second time is.
pub proof fn lemma_persisted_all_twice(
    store: Seq<FeedItemView>,
    items: Seq<FeedItemView>,
    stamp: Seq<char>,
    later: Seq<char>,
)
    ensures
        persisted_all(persisted_all(store, items, stamp), items, later) == persisted_all(
            store,
            items,
            stamp,
        ),
{
    lemma_persisted_all_keeps(store, items, stamp);
    lemma_known_items_change_nothing(persisted_all(store, items, stamp), items, later);
}

/// An identifier that no stored item has is counted zero times.
pub proof fn lemma_count_id_none(store: Seq<FeedItemView>, id: Seq<char>)
    requires
        forall|k: int| 0 <= k < store.len() ==> (#[trigger] store[k]).id != id,
    ensures
        count_id(store, id) == 0,
    decreases store.len(),
{
    if store.len() > 0 {
        assert forall|k: int| 0 <= k < store.drop_last().len() implies (
        #[trigger] store.drop_last()[k]).id != id by {
            assert(store[k].id != id);
        }
        lemma_count_id_none(store.drop_last(), id);
        assert(store[store.len() - 1].id != id);
    }
}

/// Items with identifiers that all differ, sent into an empty store, are
/// all stored: the store holds each of them, in their order, stamped with
/// the time of the write.
pub proof fn lemma_distinct_items_all_stored(items: Seq<FeedItemView>, stamp: Seq<char>)
    requires
        forall|i: int, j: int|
            0 <= i < j < items.len() ==> (#[trigger] items[i]).id != (#[trigger] items[j]).id,
    ensures
        persisted_all(Seq::empty(), items, stamp) == items.map_values(
            |item: FeedItemView| stamped(item, stamp),
        ),
    decreases items.len(),
{
    let all = items.map_values(|item: FeedItemView| stamped(item, stamp));
    if items.len() == 0 {
        assert(all =~= Seq::<FeedItemView>::empty());
    } else {
        let front = items.drop_last();
        let stored = front.map_values(|item: FeedItemView| stamped(item, stamp));
        assert forall|i: int, j: int| 0 <= i < j < front.len() implies (#[trigger] front[i]).id != (
        #[trigger] front[j]).id by {
            assert(items[i].id != items[j].id);
        }
        lemma_distinct_items_all_stored(front, stamp);
        assert forall|k: int| 0 <= k < stored.len() implies (#[trigger] stored[k]).id
            != items.last().id by {
            assert(items[k].id != items[items.len() - 1].id);
        }
        lemma_count_id_none(stored, items.last().id);
        assert(all =~= stored.push(stamped(items.last(), stamp)));
    }
}

/// What the gateway stores of an item does not depend on the time the item
/// came with: two lists that agree on all content leave the same store.
pub proof fn lemma_persisted_all_content(
    store: Seq<FeedItemView>,
    items: Seq<FeedItemView>,
    others: Seq<FeedItemView>,
    stamp: Seq<char>,
)
    requires
        items.len() == others.len(),
        forall|k: int| 0 <= k < items.len() ==> (#[trigger] items[k]).same_content(others[k]),
    ensures
        persisted_all(store, items, stamp) == persisted_all(store, others, stamp),
    decreases items.len(),
{
    if items.len() > 0 {
        assert forall|k: int| 0 <= k < items.drop_last().len() implies (
        #[trigger] items.drop_last()[k]).same_content(others.drop_last()[k]) by {
            assert(items[k].same_content(others[k]));
        }
        lemma_persisted_all_content(store, items.drop_last(), others.drop_last(), stamp);
        let last = items.len() - 1;
        assert(items[last].same_content(others[last]));
        assert(stamped(items.last(), stamp) == stamped(others.last(), stamp));
    }
}

/// How the items of one feed fared at the gateway.
#[derive(Clone, Copy, Debug, PartialEq, Eq, Structural)]
pub struct Tally {
    /// Items that were new and are stored now.
    pub stored: usize,
    /// Items whose identifier was stored already.
    pub duplicates: usize,
    /// Items given up because the store failed on them.
    pub failed: usize,
}

/// What the driver of an [`ItemWriter`] has to do next.
#[derive(Debug)]
pub enum WriteStep {
    /// Count the stored items with this identifier and answer with
    /// [`ItemWriter::on_counted`].
    Count(String),
    /// Insert this item, stamped with the time of the write, and answer with
    /// [`ItemWriter::on_inserted`].
    Insert(FeedItem),
    /// Every item was attempted.
    Done,
}

/// The mathematical value of an [`ItemWriter`].
pub struct ItemWriterView {
    /// The items to write, in document order.
    pub items: Seq<FeedItemView>,
    /// How many of them are dealt with.
    pub next: nat,
    /// Whether the item at `next` was found absent and awaits its insert.
    pub inserting: bool,
    pub tally: Tally,
}

impl ItemWriterView {
    /// A writer that has attempted nothing yet.
    pub open spec fn start(items: Seq<FeedItemView>) -> ItemWriterView {
        ItemWriterView {
            items,
            next: 0,
            inserting: false,
            tally: Tally { stored: 0, duplicates: 0, failed: 0 },
        }
    }

    pub open spec fn wf(self) -> bool {
        &&& self.next <= self.items.len()
        &&& self.items.len() <= usize::MAX
        &&& self.inserting ==> self.next < self.items.len()
        &&& self.tally.stored + self.tally.duplicates + self.tally.failed == self.next
    }

    pub open spec fn is_done(self) -> bool {
        self.next >= self.items.len()
    }

    /// Whether `step` is what the writer asks for in this state: items are
    /// taken strictly in order, each first counted and then, if absent,
    /// inserted.
    pub open spec fn asks(self, step: WriteStep) -> bool {
        match step {
            WriteStep::Done => self.is_done(),
            WriteStep::Count(id) => !self.is_done() && !self.inserting && id@
                == self.items[self.next as int].id,
            WriteStep::Insert(item) => !self.is_done() && self.inserting && item@
                == self.items[self.next as int],
        }
    }

    /// The writer with the item at `next` left behind.
    pub open spec fn advanced(self, tally: Tally) -> ItemWriterView {
        ItemWriterView { next: self.next + 1, inserting: false, tally, ..self }
    }

    /// The state after the store answered a count. An absent item goes on to
    /// its insert; a present one is a duplicate and a failed count gives the
    /// item up, and either way the next item is taken. An answer that was
    /// not asked for changes nothing.
    pub open spec fn counted(self, reply: Result<u64, FeedError>) -> ItemWriterView {
        if self.is_done() || self.inserting {
            self
        } else {
            match reply {
                Ok(count) => if count == 0 {
                    ItemWriterView { inserting: true, ..self }
                } else {
                    self.advanced(
                        Tally { duplicates: (self.tally.duplicates + 1) as usize, ..self.tally },
                    )
                },
                Err(_) => self.advanced(
                    Tally { failed: (self.tally.failed + 1) as usize, ..self.tally },
                ),
            }
        }
    }

    /// The state after the store answered an insert: the item is stored or
    /// given up, and the next one is taken. An answer that was not asked for
    /// changes nothing.
    pub open spec fn inserted(self, reply: Result<(), FeedError>) -> ItemWriterView {
        if self.is_done() || !self.inserting {
            self
        } else {
            match reply {
                Ok(_) => self.advanced(
                    Tally { stored: (self.tally.stored + 1) as usize, ..self.tally },
                ),
                Err(_) => self.advanced(
                    Tally { failed: (self.tally.failed + 1) as usize, ..self.tally },
                ),
            }
        }
    }

    /// An upper bound on the answers that the writer still needs.
    pub open spec fn remaining(self) -> nat {
        (2 * (self.items.len() - self.next) - if self.inserting {
            1int
        } else {
            0int
        }) as nat
    }
}

/// Every answer that was asked for brings the writer nearer to its end, so
/// a failing store cannot hold it up: each item costs two answers at most.
pub proof fn lemma_writer_progress(
    writer: ItemWriterView,
    count: Result<u64, FeedError>,
    insert: Result<(), FeedError>,
)
    requires
        writer.wf(),
        !writer.is_done(),
    ensures
        writer.counted(count).wf(),
        writer.inserted(insert).wf(),
        !writer.inserting ==> writer.counted(count).remaining() < writer.remaining(),
        writer.inserting ==> writer.inserted(insert).remaining() < writer.remaining(),
{
}

/// Writes a list of items through the gateway without touching the store
/// itself: it says what to ask, and takes the answers.
pub struct ItemWriter {
    items: Vec<FeedItem>,
    next: usize,
    inserting: bool,
    tally: Tally,
}

impl View for ItemWriter {
    type V = ItemWriterView;

    closed spec fn view(&self) -> ItemWriterView {
        ItemWriterView {
            items: item_views(self.items@),
            next: self.next as nat,
            inserting: self.inserting,
            tally: self.tally,
        }
    }
}

impl ItemWriter {
    /// A writer for the items, which it will take in the order given.
    pub fn new(items: Vec<FeedItem>) -> (writer: ItemWriter)
        ensures
            writer@ == ItemWriterView::start(item_views(items@)),
            writer@.wf(),
    {
        let total: usize = items.len();
        assert(item_views(items@).len() == total);
        ItemWriter {
            items,
            next: 0,
            inserting: false,
            tally: Tally { stored: 0, duplicates: 0, failed: 0 },
        }
    }

    /// What to do next.
    pub fn step(&self) -> (step: WriteStep)
        requires
            self@.wf(),
        ensures
            self@.asks(step),
    {
        if self.next >= self.items.len() {
            WriteStep::Done
        } else if self.inserting {
            WriteStep::Insert(self.items[self.next].clone())
        } else {
            WriteStep::Count(self.items[self.next].id.clone())
        }
    }

    /// Takes the store's answer to a count.
    pub fn on_counted(&mut self, reply: Result<u64, FeedError>)
        requires
            old(self)@.wf(),
        ensures
            final(self)@ == old(self)@.counted(reply),
            final(self)@.wf(),
    {
        if self.next >= self.items.len() || self.inserting {
            return ;
        }
        match reply {
            Ok(count) => {
                if count == 0 {
                    self.inserting = true;
                } else {
                    self.tally.duplicates = self.tally.duplicates + 1;
                    self.next = self.next + 1;
                }
            },
            Err(_) => {
                self.tally.failed = self.tally.failed + 1;
                self.next = self.next + 1;
            },
        }
    }

    /// Takes the store's answer to an insert.
    pub fn on_inserted(&mut self, reply: Result<(), FeedError>)
        requires
            old(self)@.wf(),
        ensures
            final(self)@ == old(self)@.inserted(reply),
            final(self)@.wf(),
    {
        if self.next >= self.items.len() || !self.inserting {
            return ;
        }
        match reply {
            Ok(_) => {
                self.tally.stored = self.tally.stored + 1;
            },
            Err(_) => {
                self.tally.failed = self.tally.failed + 1;
            },
        }
        self.inserting = false;
        self.next = self.next + 1;
    }

    /// Whether every item was attempted.
    pub fn is_done(&self) -> (done: bool)
        ensures
            done == self@.is_done(),
    {
        self.next >= self.items.len()
    }

    /// How the items fared so far.
    pub fn tally(&self) -> (tally: Tally)
        ensures
            tally == self@.tally,
    {
        self.tally
    }
}

/// Starts the write of one item: it is counted by its identifier first, and
/// inserted only where the store has none with it.
pub fn add_feed_item(item: FeedItem) -> (writer: ItemWriter)
    ensures
        writer@ == ItemWriterView::start(seq![item@]),
        writer@.wf(),
{
    let mut items: Vec<FeedItem> = Vec::new();
    items.push(item);
    proof {
        assert(item_views(items@) =~= seq![item@]);
    }
    ItemWriter::new(items)
}

} // verus!
