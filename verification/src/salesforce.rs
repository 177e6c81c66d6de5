//! The CRM as the core sees it: the payloads it is sent, and what to do
//! with its answers.

use crate::screenpipe::Activity;
use crate::text::{join2, join3};
use crate::time::rfc3339_text;
use vstd::prelude::*;

verus! {

/// What the CRM is sent to sign in.
#[derive(Debug)]
pub struct SalesforceLoginRequest {
    pub grant_type: String,
    pub client_id: String,
    pub client_secret: String,
    pub username: String,
    pub password: String,
}

/// What the CRM answers to a sign-in.
#[derive(Debug)]
pub struct SalesforceLoginResponse {
    pub access_token: String,
    pub instance_url: String,
}

/// A time entry: the unit's name, start, length in seconds and description.
/// The CRM takes the length in minutes; that division is made where the
/// entry is sent.
#[derive(Debug)]
pub struct TimeEntry {
    pub name: String,
    pub start_time: String,
    pub duration_secs: u64,
    pub description: String,
}

/// What to do after the CRM answered a time entry.
#[derive(Debug, Clone, Copy, PartialEq, Eq, Structural)]
pub enum LogTimeStep {
    /// The entry was taken.
    Done,
    /// The token was refused: sign in again and send the entry once more.
    Reauthenticate,
    /// The entry was refused.
    Failed,
}

/// The status that says the token was refused.
pub const UNAUTHORIZED: u16 = 401;

/// True of the statuses that say a request was successful.
pub open spec fn is_success(status: u16) -> bool {
    200 <= status < 300
}

/// What follows an answer: success ends the call; a refused token is
/// answered by signing in again, once; everything else is a failure.
pub open spec fn step_after(status: u16, retried: bool) -> LogTimeStep {
    if is_success(status) {
        LogTimeStep::Done
    } else if status == UNAUTHORIZED && !retried {
        LogTimeStep::Reauthenticate
    } else {
        LogTimeStep::Failed
    }
}

/// What to do after the CRM answered a time entry with `status`; `retried`
/// says that the entry was sent a second time already.
pub fn after_response(status: u16, retried: bool) -> (step: LogTimeStep)
    ensures
        step == step_after(status, retried),
{
    if status >= 200 && status < 300 {
        LogTimeStep::Done
    } else if status == UNAUTHORIZED && !retried {
        LogTimeStep::Reauthenticate
    } else {
        LogTimeStep::Failed
    }
}

/// What a `SalesforceClient` holds, as a plain value.
pub struct CrmView {
    pub instance_url: Seq<char>,
    pub username: Seq<char>,
    pub password: Seq<char>,
    pub security_token: Seq<char>,
    pub client_id: Seq<char>,
    pub client_secret: Seq<char>,
    pub access_token: Option<Seq<char>>,
}

/// The CRM's address, the user's credentials, and the token of the current
/// sign-in.
#[derive(Debug)]
pub struct SalesforceClient {
    instance_url: String,
    username: String,
    password: String,
    security_token: String,
    client_id: String,
    client_secret: String,
    access_token: Option<String>,
}

impl View for SalesforceClient {
    type V = CrmView;

    closed spec fn view(&self) -> CrmView {
        CrmView {
            instance_url: self.instance_url@,
            username: self.username@,
            password: self.password@,
            security_token: self.security_token@,
            client_id: self.client_id@,
            client_secret: self.client_secret@,
            access_token: match self.access_token {
                Some(t) => Some(t@),
                None => None,
            },
        }
    }
}

impl SalesforceClient {
    /// A client that has not signed in.
    pub fn new(
        instance_url: String,
        username: String,
        password: String,
        security_token: String,
        client_id: String,
        client_secret: String,
    ) -> (c: SalesforceClient)
        ensures
            c@ == (CrmView {
                instance_url: instance_url@,
                username: username@,
                password: password@,
                security_token: security_token@,
                client_id: client_id@,
                client_secret: client_secret@,
                access_token: None,
            }),
    {
        SalesforceClient {
            instance_url,
            username,
            password,
            security_token,
            client_id,
            client_secret,
            access_token: None,
        }
    }

    /// The address to sign in at.
    pub fn token_url(&self) -> (url: String)
        ensures
            url@ == self@.instance_url + "/services/oauth2/token"@,
    {
        join2(self.instance_url.as_str(), "/services/oauth2/token")
    }

    /// The address time entries are sent to.
    pub fn time_entry_url(&self) -> (url: String)
        ensures
            url@ == self@.instance_url + "/services/data/v58.0/sobjects/TimeEntry__c"@,
    {
        join2(self.instance_url.as_str(), "/services/data/v58.0/sobjects/TimeEntry__c")
    }

    /// What is sent to sign in: the password is followed by the security
    /// token.
    pub fn login_request(&self) -> (request: SalesforceLoginRequest)
        ensures
            request.grant_type@ == "password"@,
            request.client_id@ == self@.client_id,
            request.client_secret@ == self@.client_secret,
            request.username@ == self@.username,
            request.password@ == self@.password + self@.security_token,
    {
        SalesforceLoginRequest {
            grant_type: "password".to_owned(),
            client_id: self.client_id.clone(),
            client_secret: self.client_secret.clone(),
            username: self.username.clone(),
            password: join2(self.password.as_str(), self.security_token.as_str()),
        }
    }

    /// The token of the current sign-in, if the client has signed in.
    pub fn access_token(&self) -> (token: Option<&String>)
        ensures
            match token {
                Some(t) => self@.access_token == Some(t@),
                None => self@.access_token is None,
            },
    {
        self.access_token.as_ref()
    }

    /// True where the client must sign in before it can send anything.
    pub fn needs_login(&self) -> (b: bool)
        ensures
            b == (self@.access_token is None),
    {
        self.access_token.is_none()
    }

    /// Keeps the token of a sign-in.
    pub fn signed_in(&mut self, response: SalesforceLoginResponse)
        ensures
            final(self)@ == (CrmView {
                access_token: Some(response.access_token@),
                ..old(self)@
            }),
    {
        self.access_token = Some(response.access_token);
    }

    /// Forgets the token.
    pub fn signed_out(&mut self)
        ensures
            final(self)@ == (CrmView { access_token: None, ..old(self)@ }),
    {
        self.access_token = None;
    }

    /// The time entry of a unit: named after its application, starting at
    /// its time in RFC 3339 form, with its seconds, described by application
    /// and window title. `None` where the calendar cannot write the unit's
    /// time.
    pub fn log_time(activity: &Activity) -> (r: Option<TimeEntry>)
        ensures
            match r {
                Some(entry) => {
                    &&& entry.name@ == "Auto-tracked: "@ + activity.app_name@
                    &&& rfc3339_text(activity.timestamp.millis) == Some(entry.start_time@)
                    &&& entry.duration_secs == activity.duration_secs
                    &&& entry.description@ == activity.app_name@ + " - "@ + activity.window_title@
                },
                None => rfc3339_text(activity.timestamp.millis) is None,
            },
    {
        match activity.timestamp.to_rfc3339() {
            Some(start_time) => Some(
                TimeEntry {
                    name: join2("Auto-tracked: ", activity.app_name.as_str()),
                    start_time,
                    duration_secs: activity.duration_secs,
                    description: join3(
                        activity.app_name.as_str(),
                        " - ",
                        activity.window_title.as_str(),
                    ),
                },
            ),
            None => None,
        }
    }
}

} // verus!
