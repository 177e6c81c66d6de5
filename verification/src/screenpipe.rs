//! Raw observations as the capture service reports them, and what the
//! tracker makes of them.

use crate::text::{join2, signed_decimal, signed_decimal_text};
use crate::time::{rfc3339_value, Timestamp};
use vstd::prelude::*;

verus! {

/// The seconds that one observation stands for.
pub const OBSERVATION_SECS: u64 = 60;

/// The most observations asked for in one fetch.
pub const FETCH_LIMIT: u64 = 100;

/// One observation of activity: what was on screen, when, and for how long.
#[derive(Debug)]
pub struct Activity {
    pub timestamp: Timestamp,
    pub duration_secs: u64,
    pub window_title: String,
    pub app_name: String,
    pub description: String,
}

impl Clone for Activity {
    fn clone(&self) -> (r: Activity)
        ensures
            r == *self,
    {
        Activity {
            timestamp: self.timestamp,
            duration_secs: self.duration_secs,
            window_title: self.window_title.clone(),
            app_name: self.app_name.clone(),
            description: self.description.clone(),
        }
    }
}

/// What the capture service saw in one frame.
#[derive(Debug)]
pub struct ScreenpipeContent {
    pub frame_id: Option<i64>,
    pub text: Option<String>,
    pub timestamp: Option<String>,
    pub app_name: Option<String>,
    pub window_name: Option<String>,
    pub browser_url: Option<String>,
}

/// One entry of a search result.
#[derive(Debug)]
pub struct ScreenpipeSearchEntry {
    pub data_type: String,
    pub content: ScreenpipeContent,
}

/// The result of a search.
#[derive(Debug)]
pub struct ScreenpipeResponse {
    pub data: Vec<ScreenpipeSearchEntry>,
}

/// The text, or the empty text where there is none.
pub open spec fn text_or_empty(text: Option<String>) -> Seq<char> {
    match text {
        Some(t) => t@,
        None => Seq::empty(),
    }
}

/// When a frame was seen: the time it names in RFC 3339 form, or `now` where
/// it names none or one that cannot be read.
pub open spec fn seen_at(content: ScreenpipeContent, now: Timestamp) -> Timestamp {
    match content.timestamp {
        Some(t) => match rfc3339_value(t@) {
            Some(millis) => Timestamp { millis },
            None => now,
        },
        None => now,
    }
}

/// True where `activity` is the observation that a frame stands for: a
/// minute at the frame's time, with its window, application and text, each
/// empty where the frame names none.
pub open spec fn observes(activity: Activity, content: ScreenpipeContent, now: Timestamp) -> bool {
    &&& activity.timestamp == seen_at(content, now)
    &&& activity.duration_secs == OBSERVATION_SECS
    &&& activity.window_title@ == text_or_empty(content.window_name)
    &&& activity.app_name@ == text_or_empty(content.app_name)
    &&& activity.description@ == text_or_empty(content.text)
}

/// A copy of the text, or the empty text where there is none.
fn owned_or_empty(text: &Option<String>) -> (r: String)
    ensures
        r@ == text_or_empty(*text),
{
    match text {
        Some(t) => t.clone(),
        None => String::new(),
    }
}

/// The observation that a frame stands for.
pub fn activity_from(content: &ScreenpipeContent, now: Timestamp) -> (activity: Activity)
    ensures
        observes(activity, *content, now),
{
    let timestamp = match &content.timestamp {
        Some(text) => match Timestamp::parse_rfc3339(text.as_str()) {
            Some(t) => t,
            None => now,
        },
        None => now,
    };
    Activity {
        timestamp,
        duration_secs: OBSERVATION_SECS,
        window_title: owned_or_empty(&content.window_name),
        app_name: owned_or_empty(&content.app_name),
        description: owned_or_empty(&content.text),
    }
}

/// The observations of a search result, one for each entry and in order.
pub fn activities_from(response: &ScreenpipeResponse, now: Timestamp) -> (activities: Vec<
    Activity,
>)
    ensures
        activities@.len() == response.data@.len(),
        forall|i: int|
            0 <= i < activities@.len() ==> observes(
                #[trigger] activities@[i],
                response.data@[i].content,
                now,
            ),
{
    let mut activities: Vec<Activity> = Vec::new();
    let mut i: usize = 0;
    while i < response.data.len()
        invariant
            i <= response.data@.len(),
            activities@.len() == i,
            forall|k: int|
                0 <= k < i ==> observes(
                    #[trigger] activities@[k],
                    response.data@[k].content,
                    now,
                ),
        decreases response.data@.len() - i,
    {
        activities.push(activity_from(&response.data[i].content, now));
        i = i + 1;
    }
    activities
}

/// One parameter of a query.
#[derive(Debug)]
pub struct QueryParam {
    pub name: String,
    pub value: String,
}

/// Where the capture service listens.
#[derive(Debug)]
pub struct ScreenpipeClient {
    base_url: String,
}

impl ScreenpipeClient {
    /// The address of the service.
    pub closed spec fn base(&self) -> Seq<char> {
        self.base_url@
    }

    /// A client of the service at `base_url`.
    pub fn new(base_url: String) -> (c: ScreenpipeClient)
        ensures
            c.base() == base_url@,
    {
        ScreenpipeClient { base_url }
    }

    /// The address observations are searched at.
    pub fn search_url(&self) -> (url: String)
        ensures
            url@ == self.base() + "/search"@,
    {
        join2(self.base_url.as_str(), "/search")
    }

    /// The address that tells whether the service is up.
    pub fn health_url(&self) -> (url: String)
        ensures
            url@ == self.base() + "/health"@,
    {
        join2(self.base_url.as_str(), "/health")
    }

    /// The parameters of the search for what was seen from `since` up to
    /// `now`: the two times in whole seconds since the epoch, and the limit.
    pub fn search_params(since: Timestamp, now: Timestamp) -> (params: Vec<QueryParam>)
        ensures
            params@.len() == 3,
            params@[0].name@ == "start_timestamp"@,
            params@[0].value@ == signed_decimal_text(since.millis / 1000),
            params@[1].name@ == "end_timestamp"@,
            params@[1].value@ == signed_decimal_text(now.millis / 1000),
            params@[2].name@ == "limit"@,
            params@[2].value@ == signed_decimal_text(FETCH_LIMIT as int),
    {
        let mut params: Vec<QueryParam> = Vec::new();
        params.push(
            QueryParam {
                name: "start_timestamp".to_owned(),
                value: signed_decimal(since.unix_secs()),
            },
        );
        params.push(
            QueryParam { name: "end_timestamp".to_owned(), value: signed_decimal(now.unix_secs()) },
        );
        params.push(QueryParam { name: "limit".to_owned(), value: signed_decimal(100) });
        params
    }
}

} // verus!
