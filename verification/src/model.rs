use vstd::prelude::*;

verus! {

/// One subscribed feed: its address and the time it was last polled,
/// kept as an RFC 3339 string so it can travel through the config file
/// unchanged.
#[derive(Debug, Clone)]
pub struct Feed {
    pub uri: String,
    pub last_accessed: String,
}

/// Mathematical image of a `Feed`: both fields as character sequences.
pub ghost struct FeedView {
    pub uri: Seq<char>,
    pub last_accessed: Seq<char>,
}

impl View for Feed {
    type V = FeedView;

    open spec fn view(&self) -> FeedView {
        FeedView { uri: self.uri@, last_accessed: self.last_accessed@ }
    }
}

impl DeepView for Feed {
    type V = FeedView;

    open spec fn deep_view(&self) -> FeedView {
        self.view()
    }
}

/// The whole subscription list, in the order it is polled and displayed.
#[derive(Debug)]
pub struct ConfigObj {
    pub feeds: Vec<Feed>,
}

/// One entry of a fetched feed document, reduced to the values the
/// selection logic reads: its title, its first link, and its two
/// candidate dates as whole seconds since the Unix epoch.
#[derive(Debug, Clone)]
pub struct FeedEntry {
    pub title: String,
    pub link: String,
    pub updated: Option<i64>,
    pub published: Option<i64>,
}

/// Mathematical image of a `FeedEntry`.
pub ghost struct EntryView {
    pub title: Seq<char>,
    pub link: Seq<char>,
    pub updated: Option<int>,
    pub published: Option<int>,
}

impl View for FeedEntry {
    type V = EntryView;

    open spec fn view(&self) -> EntryView {
        EntryView {
            title: self.title@,
            link: self.link@,
            updated: match self.updated {
                Some(t) => Some(t as int),
                None => None,
            },
            published: match self.published {
                Some(t) => Some(t as int),
                None => None,
            },
        }
    }
}

impl DeepView for FeedEntry {
    type V = EntryView;

    open spec fn deep_view(&self) -> EntryView {
        self.view()
    }
}

/// A fetched document after parsing: the feed's title, if the document
/// carried one, and its entries in document order.
#[derive(Debug)]
pub struct ParsedFeed {
    pub title: Option<String>,
    pub entries: Vec<FeedEntry>,
}

/// Mathematical image of a `ParsedFeed`.
pub ghost struct ParsedFeedView {
    pub title: Option<Seq<char>>,
    pub entries: Seq<EntryView>,
}

impl View for ParsedFeed {
    type V = ParsedFeedView;

    open spec fn view(&self) -> ParsedFeedView {
        ParsedFeedView {
            title: match self.title {
                Some(ref t) => Some(t@),
                None => None,
            },
            entries: self.entries.deep_view(),
        }
    }
}

/// The report for one source that was polled successfully: the feed's
/// title and one rendered line per selected entry.
#[derive(Debug, Clone)]
pub struct ProcessedFeed {
    pub title: String,
    pub items: Vec<String>,
}

/// Mathematical image of a `ProcessedFeed`.
pub ghost struct ProcessedFeedView {
    pub title: Seq<char>,
    pub items: Seq<Seq<char>>,
}

impl View for ProcessedFeed {
    type V = ProcessedFeedView;

    open spec fn view(&self) -> ProcessedFeedView {
        ProcessedFeedView { title: self.title@, items: self.items.deep_view() }
    }
}

impl DeepView for ProcessedFeed {
    type V = ProcessedFeedView;

    open spec fn deep_view(&self) -> ProcessedFeedView {
        self.view()
    }
}

/// Why a poll, or one source within a poll, failed.
///
/// `NoSourcesConfigured` is the only batch-fatal error; the others are
/// isolated to the one source they name and never abort the run.
#[derive(Debug, Clone, Copy, PartialEq, Eq, Structural)]
pub enum PollError {
    /// The subscription list is empty: there is nothing to poll.
    NoSourcesConfigured,
    /// The network retrieval for one source failed.
    FetchError,
    /// One source's document could not be parsed as a feed.
    ParseError,
    /// One source's document parsed but carries no feed title, so it
    /// cannot be reported.
    MalformedFeed,
    /// One source's stored last-checked timestamp is not valid RFC 3339.
    BadTimestamp,
}

impl PollError {
    /// The diagnostic text for this error, as the CLI prints it.
    pub fn message(&self) -> (r: String)
        ensures
            r@ == self.message_spec(),
    {
        match self {
            PollError::NoSourcesConfigured => {
                "Your feeds list is empty! use `hem add` to add a feed.".to_owned()
            },
            PollError::FetchError => "could not be fetched".to_owned(),
            PollError::ParseError => "is not a valid feed".to_owned(),
            PollError::MalformedFeed => "has no title".to_owned(),
            PollError::BadTimestamp => "has a bad stored timestamp".to_owned(),
        }
    }

    /// What `message` returns for each variant.
    pub open spec fn message_spec(&self) -> Seq<char> {
        match self {
            PollError::NoSourcesConfigured => {
                "Your feeds list is empty! use `hem add` to add a feed."@
            },
            PollError::FetchError => "could not be fetched"@,
            PollError::ParseError => "is not a valid feed"@,
            PollError::MalformedFeed => "has no title"@,
            PollError::BadTimestamp => "has a bad stored timestamp"@,
        }
    }
}

} // verus!
