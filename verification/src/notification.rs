//! The notification record: immutable after creation. Only its read/unread
//! status, held by the manager, changes over its lifetime.

use vstd::prelude::*;
use crate::pattern::{lower_of, spec_glob, glob_match};

verus! {

/// Urgency level of a notification.
#[derive(Clone, Copy, Debug, PartialEq, Eq, Structural)]
pub enum Urgency {
    /// Low urgency.
    Low,
    /// Normal urgency (default).
    Normal,
    /// Critical urgency.
    Critical,
}

/// The lowercase name of an urgency level.
pub open spec fn spec_urgency_name(u: Urgency) -> Seq<char> {
    match u {
        Urgency::Low => "low"@,
        Urgency::Normal => "normal"@,
        Urgency::Critical => "critical"@,
    }
}

impl Urgency {
    /// The lowercase name of this urgency level.
    pub fn name(&self) -> (r: &'static str)
        ensures
            r@ == spec_urgency_name(*self),
    {
        match self {
            Urgency::Low => "low",
            Urgency::Normal => "normal",
            Urgency::Critical => "critical",
        }
    }
}

impl Default for Urgency {
    fn default() -> (r: Self)
        ensures
            r == Urgency::Normal,
    {
        Urgency::Normal
    }
}

/// One notification. The identity `id` is assigned by the ingestion
/// collaborator, monotonically, and is unique among the notifications present
/// in a manager.
#[derive(Debug)]
pub struct Notification {
    /// Identity, unique while the notification is present in a manager.
    pub id: u32,
    /// Name of the application that sent the notification.
    pub app_name: String,
    /// Summary text.
    pub summary: String,
    /// Body text.
    pub body: String,
    /// Urgency level.
    pub urgency: Urgency,
    /// Seconds since the epoch, assigned at ingestion.
    pub timestamp: u64,
    /// Seconds until the notification expires; `None` means it never does.
    pub expire_timeout: Option<u64>,
}

impl Clone for Notification {
    fn clone(&self) -> (r: Self)
        ensures
            r == *self,
    {
        Notification {
            id: self.id,
            app_name: self.app_name.clone(),
            summary: self.summary.clone(),
            body: self.body.clone(),
            urgency: self.urgency,
            timestamp: self.timestamp,
            expire_timeout: self.expire_timeout,
        }
    }
}

/// A pass/fail filter on notification text, matched glob-style. A field left
/// as `None` matches everything.
#[derive(Debug)]
pub struct NotificationFilter {
    /// Pattern the app name must match.
    pub app_name: Option<String>,
    /// Pattern the summary must match.
    pub summary: Option<String>,
    /// Pattern the body must match.
    pub body: Option<String>,
}

impl Clone for NotificationFilter {
    fn clone(&self) -> (r: Self)
        ensures
            r == *self,
    {
        NotificationFilter {
            app_name: match &self.app_name {
                Some(p) => Some(p.clone()),
                None => None,
            },
            summary: match &self.summary {
                Some(p) => Some(p.clone()),
                None => None,
            },
            body: match &self.body {
                Some(p) => Some(p.clone()),
                None => None,
            },
        }
    }
}

/// Whether a filter accepts a notification: every specified pattern matches
/// the corresponding field.
pub open spec fn spec_filter_matches(f: NotificationFilter, n: Notification) -> bool {
    &&& match f.app_name {
        Some(p) => spec_glob(lower_of(p@), lower_of(n.app_name@)),
        None => true,
    }
    &&& match f.summary {
        Some(p) => spec_glob(lower_of(p@), lower_of(n.summary@)),
        None => true,
    }
    &&& match f.body {
        Some(p) => spec_glob(lower_of(p@), lower_of(n.body@)),
        None => true,
    }
}

impl Notification {
    /// Whether this notification passes the given filter.
    pub fn matches_filter(&self, filter: &NotificationFilter) -> (r: bool)
        ensures
            r == spec_filter_matches(*filter, *self),
    {
        if let Some(p) = &filter.app_name {
            if !glob_match(p.as_str(), self.app_name.as_str()) {
                return false;
            }
        }
        if let Some(p) = &filter.summary {
            if !glob_match(p.as_str(), self.summary.as_str()) {
                return false;
            }
        }
        if let Some(p) = &filter.body {
            if !glob_match(p.as_str(), self.body.as_str()) {
                return false;
            }
        }
        true
    }
}

} // verus!
