//! A canonical item: one feed entry after normalization, as it is stored.

use vstd::prelude::*;

verus! {

/// The mathematical value of a [`FeedItem`].
pub struct FeedItemView {
    pub id: Seq<char>,
    pub title: Seq<char>,
    pub link: Seq<char>,
    pub description: Option<Seq<char>>,
    pub pub_date: i64,
    pub source: Seq<char>,
    pub url: Seq<char>,
    pub added_at: Seq<char>,
}

impl FeedItemView {
    /// Two items carry the same content when they agree on every field but
    /// the moment they were added.
    pub open spec fn same_content(self, other: FeedItemView) -> bool {
        &&& self.id == other.id
        &&& self.title == other.title
        &&& self.link == other.link
        &&& self.description == other.description
        &&& self.pub_date == other.pub_date
        &&& self.source == other.source
        &&& self.url == other.url
    }
}

/// The view of an optional string.
pub open spec fn text_view(text: Option<String>) -> Option<Seq<char>> {
    match text {
        Some(s) => Some(s@),
        None => None,
    }
}

/// An item as it is stored. `id` is derived from the title alone, `source`
/// and `url` are the title and URL of the feed it came from.
#[derive(Debug)]
pub struct FeedItem {
    pub id: String,
    pub title: String,
    pub link: String,
    pub description: Option<String>,
    pub pub_date: i64,
    pub source: String,
    pub url: String,
    pub added_at: String,
}

impl View for FeedItem {
    type V = FeedItemView;

    open spec fn view(&self) -> FeedItemView {
        FeedItemView {
            id: self.id@,
            title: self.title@,
            link: self.link@,
            description: text_view(self.description),
            pub_date: self.pub_date,
            source: self.source@,
            url: self.url@,
            added_at: self.added_at@,
        }
    }
}

/// The values of a list of items, in order.
pub open spec fn item_views(items: Seq<FeedItem>) -> Seq<FeedItemView> {
    items.map_values(|item: FeedItem| item@)
}

impl Clone for FeedItem {
    fn clone(&self) -> (copy: FeedItem)
        ensures
            copy@ == self@,
    {
        let description = match &self.description {
            Some(text) => Some(text.clone()),
            None => None,
        };
        FeedItem {
            id: self.id.clone(),
            title: self.title.clone(),
            link: self.link.clone(),
            description,
            pub_date: self.pub_date,
            source: self.source.clone(),
            url: self.url.clone(),
            added_at: self.added_at.clone(),
        }
    }
}

impl FeedItem {
    /// Builds an item from its eight fields, each taken as given.
    pub fn new(
        id: String,
        title: String,
        link: String,
        description: Option<String>,
        pub_date: i64,
        source: String,
        url: String,
        added_at: String,
    ) -> (item: FeedItem)
        ensures
            item@ == (FeedItemView {
                id: id@,
                title: title@,
                link: link@,
                description: text_view(description),
                pub_date,
                source: source@,
                url: url@,
                added_at: added_at@,
            }),
    {
        FeedItem { id, title, link, description, pub_date, source, url, added_at }
    }

    /// Replaces the title and leaves every other field alone.
    pub fn update_title(&mut self, new_title: String)
        ensures
            final(self)@ == (FeedItemView { title: new_title@, ..old(self)@ }),
    {
        self.title = new_title;
    }

    /// Replaces the link and leaves every other field alone.
    pub fn update_link(&mut self, new_link: String)
        ensures
            final(self)@ == (FeedItemView { link: new_link@, ..old(self)@ }),
    {
        self.link = new_link;
    }

    /// Replaces the description and leaves every other field alone.
    pub fn update_description(&mut self, new_description: Option<String>)
        ensures
            final(self)@ == (FeedItemView {
                description: text_view(new_description),
                ..old(self)@
            }),
    {
        self.description = new_description;
    }

    /// Replaces the publication time and leaves every other field alone.
    pub fn update_pub_date(&mut self, new_pub_date: i64)
        ensures
            final(self)@ == (FeedItemView { pub_date: new_pub_date, ..old(self)@ }),
    {
        self.pub_date = new_pub_date;
    }

    /// Replaces the source and leaves every other field alone.
    pub fn update_source(&mut self, new_source: String)
        ensures
            final(self)@ == (FeedItemView { source: new_source@, ..old(self)@ }),
    {
        self.source = new_source;
    }

    /// Replaces the URL and leaves every other field alone.
    pub fn update_url(&mut self, new_url: String)
        ensures
            final(self)@ == (FeedItemView { url: new_url@, ..old(self)@ }),
    {
        self.url = new_url;
    }

    /// Replaces the time of adding and leaves every other field alone.
    pub fn update_added_at(&mut self, new_added_at: String)
        ensures
            final(self)@ == (FeedItemView { added_at: new_added_at@, ..old(self)@ }),
    {
        self.added_at = new_added_at;
    }
}

} // verus!
