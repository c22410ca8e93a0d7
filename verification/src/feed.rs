//! A subscribed feed: a display title and the URL it is fetched from.

use vstd::prelude::*;

verus! {

/// The mathematical value of a [`Feed`].
pub struct FeedView {
    pub title: Seq<char>,
    pub url: Seq<char>,
}

/// A subscription. The title is the name it is looked up by.
#[derive(Debug)]
pub struct Feed {
    pub title: String,
    pub url: String,
}

impl View for Feed {
    type V = FeedView;

    open spec fn view(&self) -> FeedView {
        FeedView { title: self.title@, url: self.url@ }
    }
}

/// The values of a list of feeds, in order.
pub open spec fn feed_views(feeds: Seq<Feed>) -> Seq<FeedView> {
    feeds.map_values(|feed: Feed| feed@)
}

impl Clone for Feed {
    fn clone(&self) -> (copy: Feed)
        ensures
            copy@ == self@,
    {
        Feed { title: self.title.clone(), url: self.url.clone() }
    }
}

impl Feed {
    /// Builds a feed from its title and URL.
    pub fn new(title: String, url: String) -> (feed: Feed)
        ensures
            feed@ == (FeedView { title: title@, url: url@ }),
    {
        Feed { title, url }
    }

    /// Replaces the title and leaves the URL alone.
    pub fn update_title(&mut self, new_title: String)
        ensures
            final(self)@ == (FeedView { title: new_title@, ..old(self)@ }),
    {
        self.title = new_title;
    }

    /// Replaces the URL and leaves the title alone.
    pub fn update_url(&mut self, new_url: String)
        ensures
            final(self)@ == (FeedView { url: new_url@, ..old(self)@ }),
    {
        self.url = new_url;
    }
}

} // verus!
