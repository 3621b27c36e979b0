//! Things that can be summed up in one line of text.

use vstd::prelude::*;
use vstd::string::StringExecFns;

verus! {

/// Something with a one-line summary.
pub trait Summary {
    /// The text of the summary.
    spec fn summary_text(&self) -> Seq<char>;

    /// The summary.
    fn summarize(&self) -> (text: String)
        ensures
            text@ == self.summary_text(),
    ;

    /// A stand-in for a summary, for where the full one is not wanted.
    fn default_summary(&self) -> (text: String)
        default_ensures
            text@ == "(阅读更多...)"@,
    {
        "(阅读更多...)".to_owned()
    }
}

/// A news article.
pub struct NewsArticle {
    pub headline: String,
    pub location: String,
    pub author: String,
    pub content: String,
}

impl Summary for NewsArticle {
    open spec fn summary_text(&self) -> Seq<char> {
        self.headline@ + ", by "@ + self.author@ + " ("@ + self.location@ + ")"@
    }

    /// The headline, the author and, in brackets, the location.
    fn summarize(&self) -> (text: String) {
        let mut text = self.headline.clone();
        text.append(", by ");
        text.append(self.author.as_str());
        text.append(" (");
        text.append(self.location.as_str());
        text.append(")");
        text
    }
}

/// A short public message.
pub struct Tweet {
    pub username: String,
    pub content: String,
    pub reply: bool,
    pub retweet: bool,
}

impl Summary for Tweet {
    open spec fn summary_text(&self) -> Seq<char> {
        self.username@ + ": "@ + self.content@
    }

    /// The user's name, a colon and the message.
    fn summarize(&self) -> (text: String) {
        let mut text = self.username.clone();
        text.append(": ");
        text.append(self.content.as_str());
        text
    }
}

/// The summary of `item`.
pub fn summarize<T: Summary>(item: &T) -> (text: String)
    ensures
        text@ == item.summary_text(),
{
    item.summarize()
}

/// The line that announces `item` as breaking news.
pub fn notify(item: &impl Summary) -> (line: String)
    ensures
        line@ == "突发新闻! "@ + item.summary_text(),
{
    let mut line = "突发新闻! ".to_owned();
    line.append(item.summarize().as_str());
    line
}

/// The line that announces `item` as a notification.
pub fn notify_with_impl<T: Summary>(item: &T) -> (line: String)
    ensures
        line@ == "通知: "@ + item.summary_text(),
{
    let mut line = "通知: ".to_owned();
    line.append(item.summarize().as_str());
    line
}

/// A message by `horse_ebooks`, known to its caller only as something with a
/// summary.
pub fn returns_summarizable() -> (item: impl Summary)
    ensures
        item.summary_text() == "horse_ebooks"@ + ": "@
            + "of course, as you probably already know, people"@,
{
    Tweet {
        username: "horse_ebooks".to_owned(),
        content: "of course, as you probably already know, people".to_owned(),
        reply: false,
        retweet: false,
    }
}

} // verus!
