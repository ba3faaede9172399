//! The durable record of a shortened URL.

use vstd::prelude::*;
use chrono::Utc;
use crate::text::chars::optional_text;

verus! {

/// A point in time: whole seconds since the Unix epoch and the nanoseconds
/// past that second.
#[derive(Debug, Clone, Copy, PartialEq, Eq, Structural)]
pub struct Timestamp {
    pub seconds: i64,
    pub nanos: u32,
}

impl Timestamp {
    /// Whether `self` is no later than `other`.
    pub open spec fn le(self, other: Timestamp) -> bool {
        self.seconds < other.seconds || (self.seconds == other.seconds && self.nanos <= other.nanos)
    }

    /// Whether `self` is no later than `other`.
    pub fn no_later_than(self, other: Timestamp) -> (r: bool)
        ensures
            r == self.le(other),
    {
        self.seconds < other.seconds || (self.seconds == other.seconds && self.nanos
            <= other.nanos)
    }

    /// The current time of the system clock.
    ///
    /// Reads `chrono::Utc::now()` and takes it apart with `timestamp` and
    /// `timestamp_subsec_nanos`. Nothing is claimed of the value: it is
    /// whatever the clock says. `Utc::now` panics where the system clock
    /// stands before the Unix epoch.
    #[verifier::external_body]
    pub(crate) fn now() -> Timestamp {
        let now = Utc::now();
        Timestamp { seconds: now.timestamp(), nanos: now.timestamp_subsec_nanos() }
    }
}

/// A shortened URL as the durable store holds it.
#[derive(Debug)]
pub struct TinyUrl {
    pub id: i32,
    pub short_code: String,
    pub long_url: String,
    pub qr_code: Option<String>,
    pub clicks: i32,
    pub created_at: Timestamp,
    pub updated_at: Timestamp,
}

/// What a `TinyUrl` holds, as plain values.
pub struct TinyUrlView {
    pub id: i32,
    pub short_code: Seq<char>,
    pub long_url: Seq<char>,
    pub qr_code: Option<Seq<char>>,
    pub clicks: i32,
    pub created_at: Timestamp,
    pub updated_at: Timestamp,
}

/// Copies an optional string.
pub fn copy_text(s: &Option<String>) -> (r: Option<String>)
    ensures
        optional_text(r) == optional_text(*s),
{
    match s {
        Some(s) => Some(s.clone()),
        None => None,
    }
}

impl View for TinyUrl {
    type V = TinyUrlView;

    open spec fn view(&self) -> TinyUrlView {
        TinyUrlView {
            id: self.id,
            short_code: self.short_code@,
            long_url: self.long_url@,
            qr_code: optional_text(self.qr_code),
            clicks: self.clicks,
            created_at: self.created_at,
            updated_at: self.updated_at,
        }
    }
}

impl Clone for TinyUrl {
    fn clone(&self) -> (copy: Self)
        ensures
            copy@ == self@,
    {
        TinyUrl {
            id: self.id,
            short_code: self.short_code.clone(),
            long_url: self.long_url.clone(),
            qr_code: copy_text(&self.qr_code),
            clicks: self.clicks,
            created_at: self.created_at,
            updated_at: self.updated_at,
        }
    }
}

/// The click statistics of a shortened URL.
#[derive(Debug)]
pub struct UrlStats {
    pub short_code: String,
    pub long_url: String,
    pub clicks: i32,
    pub created_at: Timestamp,
    pub updated_at: Timestamp,
}

/// The click count after one more click: one more, and no more than an `i32`
/// holds.
pub open spec fn clicks_after(clicks: i32) -> i32 {
    if clicks < i32::MAX {
        (clicks + 1) as i32
    } else {
        clicks
    }
}

impl TinyUrl {
    /// A record that has not been stored yet: no id, no clicks, created now.
    pub fn new(short_code: String, long_url: String) -> (url: TinyUrl)
        ensures
            url.id == 0,
            url.short_code@ == short_code@,
            url.long_url@ == long_url@,
            url.qr_code is None,
            url.clicks == 0,
            url.created_at == url.updated_at,
    {
        let now = Timestamp::now();
        TinyUrl {
            id: 0,
            short_code,
            long_url,
            qr_code: None,
            clicks: 0,
            created_at: now,
            updated_at: now,
        }
    }

    /// Counts one click and stamps the record with the current time. A count
    /// that has reached `i32::MAX` stays there.
    pub fn increment_clicks(&mut self)
        ensures
            final(self).clicks == clicks_after(old(self).clicks),
            final(self).id == old(self).id,
            final(self).short_code@ == old(self).short_code@,
            final(self).long_url@ == old(self).long_url@,
            optional_text(final(self).qr_code) == optional_text(old(self).qr_code),
            final(self).created_at == old(self).created_at,
    {
        if self.clicks < i32::MAX {
            self.clicks = self.clicks + 1;
        }
        self.updated_at = Timestamp::now();
    }

    /// The statistics of this record.
    pub fn to_stats(&self) -> (stats: UrlStats)
        ensures
            stats.short_code@ == self.short_code@,
            stats.long_url@ == self.long_url@,
            stats.clicks == self.clicks,
            stats.created_at == self.created_at,
            stats.updated_at == self.updated_at,
    {
        UrlStats {
            short_code: self.short_code.clone(),
            long_url: self.long_url.clone(),
            clicks: self.clicks,
            created_at: self.created_at,
            updated_at: self.updated_at,
        }
    }
}

} // verus!
