//! Desktop notifications: a line-driven reader of the bus monitor's call
//! traces, and the capped, newest-first list of captured notifications.

use vstd::prelude::*;
use crate::text::{
    chars_of, contains, contains_str, find, find_chars, lemma_find_from_bounds, rfind,
    rfind_char, lemma_rfind_bounds, starts_with, starts_with_str, str_eq, substring, trim, trim_str,
};

verus! {

/// A captured desktop notification.
#[derive(Clone, Debug)]
pub struct Notification {
    /// Application that sent the notification.
    pub app_name: String,
    /// Notification title.
    pub summary: String,
    /// Notification body text (may be empty).
    pub body: String,
    /// Unix time of capture, in seconds.
    pub timestamp: u64,
}

/// The contents of a `Notification`.
pub struct NotificationView {
    pub app_name: Seq<char>,
    pub summary: Seq<char>,
    pub body: Seq<char>,
    pub timestamp: u64,
}

impl View for Notification {
    type V = NotificationView;

    open spec fn view(&self) -> NotificationView {
        NotificationView {
            app_name: self.app_name@,
            summary: self.summary@,
            body: self.body@,
            timestamp: self.timestamp,
        }
    }
}

impl Notification {
    /// A copy with the same contents.
    pub fn copied(&self) -> (r: Notification)
        ensures
            r@ == self@,
    {
        Notification {
            app_name: self.app_name.clone(),
            summary: self.summary.clone(),
            body: self.body.clone(),
            timestamp: self.timestamp,
        }
    }
}

// ---------------------------------------------------------------------------
// Reading the call trace
// ---------------------------------------------------------------------------

/// The label given to a notification whose application name is empty.
pub open spec fn fallback_app_name() -> Seq<char> {
    "System"@
}

/// A line that opens a notification call.
pub open spec fn call_marker() -> Seq<char> {
    "Member=Notify"@
}

/// The start of a line that carries a string argument.
pub open spec fn string_marker() -> Seq<char> {
    "STRING \""@
}

/// The text between the first and the last double quote of `t`, where these
/// are two different quotes.
pub open spec fn quoted_value(t: Seq<char>) -> Option<Seq<char>> {
    let a = find(t, seq!['"']);
    let b = rfind(t, '"');
    if a is Some && b is Some && a->0 < b->0 {
        Some(t.subrange(a->0 + 1, b->0))
    } else {
        None
    }
}

/// The state of the trace reader: whether it is inside a notification call,
/// how many string arguments of the call it has seen, and the application
/// name and summary captured so far.
pub struct ReaderView {
    pub in_call: bool,
    pub field_index: nat,
    pub app_name: Seq<char>,
    pub summary: Seq<char>,
}

/// One step of the trace reader on the trimmed line `t`, at Unix time `now`:
/// the next state, and the notification completed by the line, if any.
///
/// A call marker starts a new call. Inside a call, each string argument line
/// with a quoted value counts one argument; the first is the application
/// name, the third the summary, and the fourth the body, which ends the call
/// and completes a notification when the summary is not empty. Other lines
/// change nothing.
pub open spec fn reader_step(r: ReaderView, t: Seq<char>, now: u64) -> (ReaderView, Option<
    NotificationView,
>) {
    if contains(t, call_marker()) {
        (ReaderView { in_call: true, field_index: 0, app_name: seq![], summary: seq![] }, None)
    } else if r.in_call && starts_with(t, string_marker()) && quoted_value(t) is Some {
        let v = quoted_value(t)->0;
        if r.field_index == 0 {
            (ReaderView { field_index: 1, app_name: v, ..r }, None)
        } else if r.field_index == 2 {
            (ReaderView { field_index: 3, summary: v, ..r }, None)
        } else if r.field_index == 3 {
            (
                ReaderView { in_call: false, field_index: 4, ..r },
                if r.summary.len() > 0 {
                    Some(
                        NotificationView {
                            app_name: if r.app_name.len() == 0 {
                                fallback_app_name()
                            } else {
                                r.app_name
                            },
                            summary: r.summary,
                            body: v,
                            timestamp: now,
                        },
                    )
                } else {
                    None
                },
            )
        } else {
            (ReaderView { field_index: r.field_index + 1, ..r }, None)
        }
    } else {
        (r, None)
    }
}

/// The contents of an optional notification.
pub open spec fn view_of_option(n: Option<Notification>) -> Option<NotificationView> {
    match n {
        Some(x) => Some(x@),
        None => None,
    }
}

/// Reads the bus monitor's trace of notification calls, one line at a time.
pub struct NotificationReader {
    in_notify_call: bool,
    field_index: u8,
    app_name: String,
    summary: String,
}

impl View for NotificationReader {
    type V = ReaderView;

    closed spec fn view(&self) -> ReaderView {
        ReaderView {
            in_call: self.in_notify_call,
            field_index: self.field_index as nat,
            app_name: self.app_name@,
            summary: self.summary@,
        }
    }
}

impl NotificationReader {
    pub closed spec fn wf(&self) -> bool {
        &&& self.field_index <= 4
        &&& self.in_notify_call ==> self.field_index <= 3
    }

    /// A reader waiting for the start of a call.
    pub fn new() -> (r: NotificationReader)
        ensures
            r.wf(),
            r@ == (ReaderView { in_call: false, field_index: 0, app_name: seq![], summary: seq![] }),
    {
        NotificationReader {
            in_notify_call: false,
            field_index: 0,
            app_name: String::new(),
            summary: String::new(),
        }
    }

    /// Takes one line of the trace, read at Unix time `now`, and returns the
    /// notification that the line completes, if any.
    pub fn feed_line(&mut self, line: &str, now: u64) -> (r: Option<Notification>)
        requires
            old(self).wf(),
        ensures
            final(self).wf(),
            (final(self)@, view_of_option(r)) == reader_step(old(self)@, trim(line@), now),
    {
        let t = trim_str(line);
        let ts = t.as_str();
        if contains_str(ts, "Member=Notify") {
            self.app_name = String::new();
            self.summary = String::new();
            self.field_index = 0;
            self.in_notify_call = true;
            return None;
        }
        if !self.in_notify_call || !starts_with_str(ts, "STRING \"") {
            return None;
        }
        let tv = chars_of(ts);
        let quote = vec!['"'];
        assert(quote@ =~= seq!['"']);
        let a = find_chars(&tv, &quote, 0);
        let b = rfind_char(&tv, '"');
        let (a, b) = match (a, b) {
            (Some(a), Some(b)) => (a, b),
            _ => return None,
        };
        if a >= b {
            return None;
        }
        proof {
            lemma_find_from_bounds(tv@, seq!['"'], 0);
            lemma_rfind_bounds(tv@, '"', tv@.len() as int);
        }
        let value = substring(ts, a + 1, b);
        if self.field_index == 0 {
            self.app_name = value;
            self.field_index = 1;
            None
        } else if self.field_index == 2 {
            self.summary = value;
            self.field_index = 3;
            None
        } else if self.field_index == 3 {
            self.in_notify_call = false;
            self.field_index = 4;
            if self.summary.as_str().is_empty() {
                return None;
            }
            let app_name = if self.app_name.as_str().is_empty() {
                "System".to_owned()
            } else {
                self.app_name.clone()
            };
            Some(Notification { app_name, summary: self.summary.clone(), body: value, timestamp: now })
        } else {
            self.field_index = self.field_index + 1;
            None
        }
    }
}


// ---------------------------------------------------------------------------
// The notification list
// ---------------------------------------------------------------------------

/// The contents of each notification in `s`.
pub open spec fn views(s: Seq<Notification>) -> Seq<NotificationView> {
    s.map_values(|n: Notification| n@)
}

/// `list` with `n` put in front, cut to its first `max` entries.
pub open spec fn with_newest(list: Seq<NotificationView>, n: NotificationView, max: nat) -> Seq<
    NotificationView,
> {
    let l = seq![n] + list;
    if l.len() > max {
        l.take(max as int)
    } else {
        l
    }
}

/// `list` after each of `ns` is put in front in turn, oldest first.
pub open spec fn with_all_newest(
    list: Seq<NotificationView>,
    ns: Seq<NotificationView>,
    max: nat,
) -> Seq<NotificationView>
    decreases ns.len(),
{
    if ns.len() == 0 {
        list
    } else {
        with_newest(with_all_newest(list, ns.drop_last(), max), ns.last(), max)
    }
}

/// Captured notifications, newest first, at most `max_notifications` of them,
/// together with the reader of the trace they come from.
pub struct NotificationMonitor {
    notifications: Vec<Notification>,
    max_notifications: usize,
    reader: NotificationReader,
}

impl NotificationMonitor {
    /// The notifications held, newest first.
    pub closed spec fn list(&self) -> Seq<NotificationView> {
        views(self.notifications@)
    }

    /// How many notifications are kept at most.
    pub closed spec fn max(&self) -> nat {
        self.max_notifications as nat
    }

    /// The state of the trace reader.
    pub closed spec fn reader_view(&self) -> ReaderView {
        self.reader@
    }

    pub closed spec fn wf(&self) -> bool {
        self.reader.wf()
    }

    /// An empty list that keeps at most `max_notifications` entries.
    pub fn new(max_notifications: usize) -> (r: NotificationMonitor)
        ensures
            r.wf(),
            r.list() == Seq::<NotificationView>::empty(),
            r.max() == max_notifications,
            r.reader_view() == (ReaderView {
                in_call: false,
                field_index: 0,
                app_name: seq![],
                summary: seq![],
            }),
    {
        let r = NotificationMonitor {
            notifications: Vec::new(),
            max_notifications,
            reader: NotificationReader::new(),
        };
        assert(r.list() =~= Seq::<NotificationView>::empty());
        r
    }

    /// A copy of the list, newest first.
    pub fn get_notifications(&self) -> (r: Vec<Notification>)
        ensures
            views(r@) == self.list(),
    {
        let mut r: Vec<Notification> = Vec::new();
        let mut i: usize = 0;
        while i < self.notifications.len()
            invariant
                i <= self.notifications@.len(),
                views(r@) == views(self.notifications@.take(i as int)),
            decreases self.notifications@.len() - i,
        {
            let c = self.notifications[i].copied();
            let ghost before = r@;
            r.push(c);
            assert(r@ == before.push(c));
            assert(views(r@) =~= views(before).push(c@));
            assert(views(self.notifications@.take(i + 1)) =~= views(
                self.notifications@.take(i as int),
            ).push(self.notifications@[i as int]@));
            i = i + 1;
        }
        assert(self.notifications@.take(i as int) =~= self.notifications@);
        r
    }

    /// Puts `n` in front of the list and drops the oldest entries beyond the
    /// cap.
    pub fn add_notification(&mut self, n: Notification)
        ensures
            final(self).wf() == old(self).wf(),
            final(self).list() == with_newest(old(self).list(), n@, old(self).max()),
            final(self).max() == old(self).max(),
            final(self).reader_view() == old(self).reader_view(),
    {
        let ghost nv = n@;
        self.notifications.insert(0, n);
        if self.notifications.len() > self.max_notifications {
            self.notifications.truncate(self.max_notifications);
        }
        assert(final(self).list() =~= with_newest(old(self).list(), nv, old(self).max()));
    }

    /// Empties the list.
    pub fn clear(&mut self)
        ensures
            final(self).wf() == old(self).wf(),
            final(self).list() == Seq::<NotificationView>::empty(),
            final(self).max() == old(self).max(),
            final(self).reader_view() == old(self).reader_view(),
    {
        self.notifications.clear();
        assert(final(self).list() =~= Seq::<NotificationView>::empty());
    }

    /// Removes every notification whose application name is `app_name`.
    pub fn clear_app(&mut self, app_name: &str)
        ensures
            final(self).wf() == old(self).wf(),
            final(self).list() == old(self).list().filter(
                |v: NotificationView| v.app_name != app_name@,
            ),
            final(self).max() == old(self).max(),
            final(self).reader_view() == old(self).reader_view(),
    {
        let ghost keep = |v: NotificationView| v.app_name != app_name@;
        let mut kept: Vec<Notification> = Vec::new();
        let mut i: usize = 0;
        while i < self.notifications.len()
            invariant
                i <= self.notifications@.len(),
                keep == (|v: NotificationView| v.app_name != app_name@),
                views(kept@) == views(self.notifications@.take(i as int)).filter(keep),
            decreases self.notifications@.len() - i,
        {
            let ghost before = views(self.notifications@.take(i as int));
            let ghost after = views(self.notifications@.take(i + 1));
            assert(after.drop_last() =~= before);
            assert(after.last() == self.notifications@[i as int]@);
            proof {
                reveal(Seq::filter);
            }
            assert(after.filter(keep) == if keep(after.last()) {
                before.filter(keep).push(after.last())
            } else {
                before.filter(keep)
            });
            if !str_eq(self.notifications[i].app_name.as_str(), app_name) {
                let c = self.notifications[i].copied();
                let ghost prior = kept@;
                kept.push(c);
                assert(views(kept@) =~= views(prior).push(c@));
            } else {
                assert(self.notifications[i as int].app_name@ == app_name@);
            }
            i = i + 1;
        }
        assert(self.notifications@.take(i as int) =~= self.notifications@);
        self.notifications = kept;
    }

    /// Removes every notification of application `app_name` captured at
    /// `timestamp`.
    pub fn remove_notification(&mut self, app_name: &str, timestamp: u64)
        ensures
            final(self).wf() == old(self).wf(),
            final(self).list() == old(self).list().filter(
                |v: NotificationView| !(v.app_name == app_name@ && v.timestamp == timestamp),
            ),
            final(self).max() == old(self).max(),
            final(self).reader_view() == old(self).reader_view(),
    {
        let ghost keep = |v: NotificationView|
            !(v.app_name == app_name@ && v.timestamp == timestamp);
        let mut kept: Vec<Notification> = Vec::new();
        let mut i: usize = 0;
        while i < self.notifications.len()
            invariant
                i <= self.notifications@.len(),
                keep == (|v: NotificationView|
                    !(v.app_name == app_name@ && v.timestamp == timestamp)),
                views(kept@) == views(self.notifications@.take(i as int)).filter(keep),
            decreases self.notifications@.len() - i,
        {
            let ghost before = views(self.notifications@.take(i as int));
            let ghost after = views(self.notifications@.take(i + 1));
            assert(after.drop_last() =~= before);
            assert(after.last() == self.notifications@[i as int]@);
            proof {
                reveal(Seq::filter);
            }
            assert(after.filter(keep) == if keep(after.last()) {
                before.filter(keep).push(after.last())
            } else {
                before.filter(keep)
            });
            let same = str_eq(self.notifications[i].app_name.as_str(), app_name)
                && self.notifications[i].timestamp == timestamp;
            if !same {
                let c = self.notifications[i].copied();
                let ghost prior = kept@;
                kept.push(c);
                assert(views(kept@) =~= views(prior).push(c@));
            }
            i = i + 1;
        }
        assert(self.notifications@.take(i as int) =~= self.notifications@);
        self.notifications = kept;
    }

    /// Takes one line of the bus monitor's trace, read at Unix time `now`;
    /// a notification that the line completes goes in front of the list.
    pub fn process_line(&mut self, line: &str, now: u64) -> (r: Option<Notification>)
        requires
            old(self).wf(),
        ensures
            final(self).wf(),
            (final(self).reader_view(), view_of_option(r)) == reader_step(
                old(self).reader_view(),
                trim(line@),
                now,
            ),
            final(self).max() == old(self).max(),
            r matches Some(n) ==> final(self).list() == with_newest(
                old(self).list(),
                n@,
                old(self).max(),
            ),
            r is None ==> final(self).list() == old(self).list(),
    {
        let r = self.reader.feed_line(line, now);
        match r {
            Some(n) => {
                let copy = n.copied();
                self.add_notification(copy);
                Some(n)
            },
            None => None,
        }
    }
}

/// Each notification put in goes to the front; after `max + 1` notifications
/// are put into an empty list capped at `max`, the list holds the newest
/// `max` of them, newest first, and the oldest is gone.
pub proof fn lemma_newest_first_capped(ns: Seq<NotificationView>, max: nat)
    requires
        ns.len() == max + 1,
    ensures
        with_all_newest(seq![], ns, max).len() == max,
        forall|k: int| 0 <= k < max ==> #[trigger] with_all_newest(seq![], ns, max)[k] == ns[max - k],
        (forall|j: int| 1 <= j < ns.len() ==> #[trigger] ns[j] != ns[0]) ==> !with_all_newest(
            seq![],
            ns,
            max,
        ).contains(ns[0]),
{
    lemma_with_all_newest(ns, max);
    let r = with_all_newest(seq![], ns, max);
    if forall|j: int| 1 <= j < ns.len() ==> #[trigger] ns[j] != ns[0] {
        if r.contains(ns[0]) {
            let k = choose|k: int| 0 <= k < r.len() && r[k] == ns[0];
            assert(r[k] == ns[max - k]);
        }
    }
}

/// The front of a list with `n` put in is `n`, and the list stays within its
/// cap.
pub proof fn lemma_insert_at_front(list: Seq<NotificationView>, n: NotificationView, max: nat)
    requires
        max > 0,
    ensures
        with_newest(list, n, max)[0] == n,
        with_newest(list, n, max).len() <= max,
        list.len() < max ==> with_newest(list, n, max).len() == list.len() + 1,
{
}

/// Putting `ns` into an empty list, oldest first, leaves the newest of them
/// first, up to the cap.
pub proof fn lemma_with_all_newest(ns: Seq<NotificationView>, max: nat)
    ensures
        with_all_newest(seq![], ns, max).len() == if ns.len() < max {
            ns.len()
        } else {
            max
        },
        forall|k: int|
            0 <= k < with_all_newest(seq![], ns, max).len() ==> #[trigger] with_all_newest(
                seq![],
                ns,
                max,
            )[k] == ns[ns.len() - 1 - k],
    decreases ns.len(),
{
    if ns.len() > 0 {
        lemma_with_all_newest(ns.drop_last(), max);
        let prev = with_all_newest(seq![], ns.drop_last(), max);
        let r = with_all_newest(seq![], ns, max);
        assert(r == with_newest(prev, ns.last(), max));
        assert forall|k: int| 0 <= k < r.len() implies #[trigger] r[k] == ns[ns.len() - 1 - k] by {
            if k > 0 {
                assert(r[k] == prev[k - 1]);
            }
        }
    }
}

} // verus!
