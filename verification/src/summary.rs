//! Things that can be summed up in a line of text.

use vstd::prelude::*;

verus! {

/// The summary of whatever does not give one of its own.
pub const DEFAULT_SUMMARY: &'static str = "Read more...";

/// Something that can be summed up in a line of text.
pub trait Summary {
    /// A one-line summary. Unless a type gives its own, it is
    /// [`DEFAULT_SUMMARY`].
    fn summarize(&self) -> (text: String)
        default_ensures
            text@ == DEFAULT_SUMMARY@,
    {
        DEFAULT_SUMMARY.to_owned()
    }
}

/// An article in a newspaper.
#[derive(Debug, PartialEq, Eq)]
pub struct NewsArticle {
    pub headline: String,
    pub location: String,
    pub author: String,
}

impl NewsArticle {
    /// The summary of an article: headline, author and place.
    pub open spec fn summary(&self) -> Seq<char> {
        self.headline@ + ", by "@ + self.author@ + " ("@ + self.location@ + ")"@
    }
}

impl Summary for NewsArticle {
    fn summarize(&self) -> (text: String)
        ensures
            text@ == self.summary(),
    {
        let mut text = self.headline.clone();
        text.append(", by ");
        text.append(self.author.as_str());
        text.append(" (");
        text.append(self.location.as_str());
        text.append(")");
        text
    }
}

/// A short public post.
#[derive(Debug, PartialEq, Eq)]
pub struct Tweet {
    pub username: String,
    pub content: String,
}

impl Tweet {
    /// The summary of a post: who wrote it, and what.
    pub open spec fn summary(&self) -> Seq<char> {
        self.username@ + ": "@ + self.content@
    }
}

impl Summary for Tweet {
    fn summarize(&self) -> (text: String)
        ensures
            text@ == self.summary(),
    {
        let mut text = self.username.clone();
        text.append(": ");
        text.append(self.content.as_str());
        text
    }
}

/// A message without content of its own. Its summary is the default.
#[derive(Debug, Clone, Copy, PartialEq, Eq)]
pub struct Message {}

impl Summary for Message {

}

/// The headline that announces `item`: its summary after
/// `"Breaking news! "`.
pub fn notify<T: Summary + std::fmt::Display>(item: T) -> (line: String)
    ensures
        exists|summary: String| #[trigger]
            call_ensures(T::summarize, (&item,), summary) && line@ == "Breaking news! "@
                + summary@,
{
    let summary = item.summarize();
    let mut line = "Breaking news! ".to_owned();
    line.append(summary.as_str());
    line
}

/// Hands both arguments back as a pair.
pub fn notify2<T, U>(t: T, u: U) -> (pair: (T, U)) where
    T: Clone + std::fmt::Display,
    U: Clone + std::fmt::Debug,

    ensures
        pair == (t, u),
{
    (t, u)
}

} // verus!
