//! Weather refresh scheduling: a minimum interval between fetches, requests
//! that collapse into one pending fetch, and the request URL.

use vstd::prelude::*;
use crate::text::{chars_of, substring};

verus! {

/// The least time between two accepted refresh requests, in seconds.
pub const MIN_REFRESH_SECS: u64 = 600;

/// The index of the first character at or after `i` that is not `c`.
pub open spec fn skip_char(s: Seq<char>, c: char, i: int) -> int
    decreases s.len() - i,
{
    if 0 <= i < s.len() && s[i] == c {
        skip_char(s, c, i + 1)
    } else {
        i
    }
}

/// The end of `s[lo..j]` once trailing `c` characters are dropped.
pub open spec fn back_char(s: Seq<char>, c: char, lo: int, j: int) -> int
    decreases j - lo,
{
    if lo < j <= s.len() && s[j - 1] == c {
        back_char(s, c, lo, j - 1)
    } else {
        j
    }
}

/// `s` without leading and trailing double quotes.
pub open spec fn strip_quotes(s: Seq<char>) -> Seq<char> {
    let lo = skip_char(s, '"', 0);
    s.subrange(lo, back_char(s, '"', lo, s.len() as int))
}

/// `s` without leading and trailing double quotes, which configuration
/// storage may leave around a value.
pub fn strip_quotes_str(s: &str) -> (r: String)
    ensures
        r@ == strip_quotes(s@),
{
    let v = chars_of(s);
    let n = v.len();
    let mut lo: usize = 0;
    while lo < n && v[lo] == '"'
        invariant
            n == v@.len(),
            lo <= n,
            skip_char(v@, '"', 0) == skip_char(v@, '"', lo as int),
        decreases n - lo,
    {
        lo = lo + 1;
    }
    let mut hi: usize = n;
    while hi > lo && v[hi - 1] == '"'
        invariant
            n == v@.len(),
            lo <= hi <= n,
            skip_char(v@, '"', 0) == lo,
            back_char(v@, '"', lo as int, n as int) == back_char(v@, '"', lo as int, hi as int),
        decreases hi,
    {
        hi = hi - 1;
    }
    substring(s, lo, hi)
}

/// The current-weather request for `location`, in metric units.
pub open spec fn weather_url_text(location: Seq<char>, api_key: Seq<char>) -> Seq<char> {
    "https://api.openweathermap.org/data/2.5/weather?q="@ + strip_quotes(location) + "&appid="@
        + strip_quotes(api_key) + "&units=metric"@
}

/// The current-weather request for `location`, in metric units, with quotes
/// stripped from both values.
pub fn weather_url(location: &str, api_key: &str) -> (r: String)
    ensures
        r@ == weather_url_text(location@, api_key@),
{
    let mut r = "https://api.openweathermap.org/data/2.5/weather?q=".to_owned();
    let loc = strip_quotes_str(location);
    r.append(loc.as_str());
    r.append("&appid=");
    let key = strip_quotes_str(api_key);
    r.append(key.as_str());
    r.append("&units=metric");
    r
}

/// What `char::to_uppercase` makes of a character.
pub uninterp spec fn upper_of(c: char) -> Seq<char>;

/// Relies on `char::to_uppercase`: the result depends on the character alone.
#[verifier::external_body]
fn uppercase(c: char) -> (r: String)
    ensures
        r@ == upper_of(c),
{
    c.to_uppercase().collect()
}

/// `d` with its first character in upper case.
pub open spec fn capitalized(d: Seq<char>) -> Seq<char> {
    if d.len() == 0 {
        d
    } else {
        upper_of(d[0]) + d.drop_first()
    }
}

/// The text shown for a condition: its description with the first character
/// in upper case, or `Unknown` where there is none.
pub fn describe(description: Option<&str>) -> (r: String)
    ensures
        r@ == match description {
            Some(d) => capitalized(d@),
            None => "Unknown"@,
        },
{
    match description {
        Some(d) => {
            let v = chars_of(d);
            if v.len() == 0 {
                return d.to_owned();
            }
            let mut r = uppercase(v[0]);
            let rest = substring(d, 1, v.len());
            r.append(rest.as_str());
            assert(r@ =~= capitalized(d@));
            r
        },
        None => "Unknown".to_owned(),
    }
}

/// The icon code for a condition, or `01d` where there is none.
pub fn icon_or_default(icon: Option<&str>) -> (r: String)
    ensures
        r@ == match icon {
            Some(i) => i@,
            None => "01d"@,
        },
{
    match icon {
        Some(i) => i.to_owned(),
        None => "01d".to_owned(),
    }
}

/// The state of the weather refresh schedule.
pub struct ScheduleView {
    pub api_key: Seq<char>,
    pub location: Seq<char>,
    pub last_request: Option<u64>,
    pub requested: bool,
}

/// A refresh request at `now` (seconds): accepted, setting the pending flag,
/// where a key and a location are set and no request was accepted in the
/// last `MIN_REFRESH_SECS` seconds.
pub open spec fn update_step(s: ScheduleView, now: u64) -> (ScheduleView, bool) {
    if s.api_key.len() == 0 || s.location.len() == 0 {
        (s, false)
    } else if s.last_request matches Some(t) && now < t + MIN_REFRESH_SECS {
        (s, false)
    } else {
        (ScheduleView { last_request: Some(now), requested: true, ..s }, true)
    }
}

/// The fetcher's check: a pending request is taken and cleared, and yields
/// the URL to fetch where a key and a location are set.
pub open spec fn take_step(s: ScheduleView) -> (ScheduleView, Option<Seq<char>>) {
    if !s.requested {
        (s, None)
    } else if s.api_key.len() == 0 || s.location.len() == 0 {
        (ScheduleView { requested: false, ..s }, None)
    } else {
        (ScheduleView { requested: false, ..s }, Some(weather_url_text(s.location, s.api_key)))
    }
}

pub open spec fn url_view(u: Option<String>) -> Option<Seq<char>> {
    match u {
        Some(x) => Some(x@),
        None => None,
    }
}

/// When the weather is fetched: the key and location, the time of the last
/// accepted request, and whether a fetch is pending.
pub struct WeatherSchedule {
    api_key: String,
    location: String,
    last_request: Option<u64>,
    update_requested: bool,
}

impl View for WeatherSchedule {
    type V = ScheduleView;

    closed spec fn view(&self) -> ScheduleView {
        ScheduleView {
            api_key: self.api_key@,
            location: self.location@,
            last_request: self.last_request,
            requested: self.update_requested,
        }
    }
}

impl WeatherSchedule {
    /// Nothing requested yet: the first request is accepted at once.
    pub fn new(api_key: String, location: String) -> (r: WeatherSchedule)
        ensures
            r@ == (ScheduleView {
                api_key: api_key@,
                location: location@,
                last_request: None,
                requested: false,
            }),
    {
        WeatherSchedule { api_key, location, last_request: None, update_requested: false }
    }

    /// Replaces the key.
    pub fn set_api_key(&mut self, api_key: String)
        ensures
            final(self)@ == (ScheduleView { api_key: api_key@, ..old(self)@ }),
    {
        self.api_key = api_key;
    }

    /// Replaces the location.
    pub fn set_location(&mut self, location: String)
        ensures
            final(self)@ == (ScheduleView { location: location@, ..old(self)@ }),
    {
        self.location = location;
    }

    /// A refresh request at `now_secs`; returns whether it was accepted.
    pub fn update(&mut self, now_secs: u64) -> (r: bool)
        ensures
            (final(self)@, r) == update_step(old(self)@, now_secs),
    {
        if self.api_key.as_str().is_empty() || self.location.as_str().is_empty() {
            return false;
        }
        if let Some(t) = self.last_request {
            if now_secs < t || now_secs - t < MIN_REFRESH_SECS {
                return false;
            }
        }
        self.last_request = Some(now_secs);
        self.update_requested = true;
        true
    }

    /// Takes a pending request: the URL to fetch, if any.
    pub fn take_request(&mut self) -> (r: Option<String>)
        ensures
            (final(self)@, url_view(r)) == take_step(old(self)@),
    {
        if !self.update_requested {
            return None;
        }
        self.update_requested = false;
        if self.api_key.as_str().is_empty() || self.location.as_str().is_empty() {
            return None;
        }
        Some(weather_url(self.location.as_str(), self.api_key.as_str()))
    }
}

/// Two refresh requests less than `MIN_REFRESH_SECS` apart lead to at most
/// one fetch, whether the fetcher checks between them or only after both.
pub proof fn lemma_one_fetch_per_window(s: ScheduleView, t1: u64, t2: u64)
    requires
        !s.requested,
        t1 <= t2,
        t2 < t1 + MIN_REFRESH_SECS,
    ensures
        ({
            let (s1, a) = update_step(s, t1);
            let (s2, f1) = take_step(s1);
            let (s3, b) = update_step(s2, t2);
            let (s4, f2) = take_step(s3);
            !(a && b) && !(f1 is Some && f2 is Some)
        }),
        ({
            let (s1, a) = update_step(s, t1);
            let (s2, b) = update_step(s1, t2);
            let (s3, f1) = take_step(s2);
            let (s4, f2) = take_step(s3);
            !(a && b) && !(f1 is Some && f2 is Some)
        }),
{
}

} // verus!
