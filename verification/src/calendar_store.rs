//! The stored calendar: events, RSVPs and reminders.
use crate::calendar::{self, CalendarEvent, CalendarEventView, EventRsvp, FieldsCalendarEvent, PartialCalendarEvent, RecurrenceRule, ReminderSent, ReminderSentKey};
use crate::channel_laws;
use crate::clock::now_ms;
use crate::db::ReferenceDb;
use crate::error::Error;
use crate::files::{self, FileView};
use crate::ids::{self, new_id};
use crate::table::{self, KeyedRow, Row};
use crate::text::{self, contains_text, same};
use vstd::prelude::*;

verus! {

impl KeyedRow for CalendarEvent {
    open spec fn id_of(v: CalendarEventView) -> Seq<char> {
        v.id
    }

    fn id_is(&self, id: &str) -> (r: bool) {
        same(self.id.as_str(), id)
    }
}

/// The key of an RSVP.
pub open spec fn rsvp_key() -> spec_fn(EventRsvp) -> (Seq<char>, Seq<char>) {
    |v: EventRsvp| (v.id.event@, v.id.user@)
}

/// The key of a reminder.
pub open spec fn reminder_key() -> spec_fn(ReminderSent) -> (Seq<char>, Seq<char>, i64, i64) {
    |v: ReminderSent| (v.id.event@, v.id.user@, v.id.occurrence, v.id.offset)
}

/// Whether there is at most one RSVP for an event and a user.
pub open spec fn rsvps_apart(rows: Seq<EventRsvp>) -> bool {
    table::unique_by(rows, rsvp_key())
}

/// Whether there is at most one marker for a reminder.
pub open spec fn reminders_apart(rows: Seq<ReminderSent>) -> bool {
    table::unique_by(rows, reminder_key())
}

/// RSVPs of a user to an event.
pub open spec fn rsvp_of(event: Seq<char>, user: Seq<char>) -> spec_fn(EventRsvp) -> bool {
    |v: EventRsvp| v.id.event@ == event && v.id.user@ == user
}

/// Every other RSVP.
pub open spec fn rsvp_not_of(event: Seq<char>, user: Seq<char>) -> spec_fn(EventRsvp) -> bool {
    |v: EventRsvp| !(v.id.event@ == event && v.id.user@ == user)
}

/// RSVPs to an event.
pub open spec fn rsvp_to(event: Seq<char>) -> spec_fn(EventRsvp) -> bool {
    |v: EventRsvp| v.id.event@ == event
}

/// RSVPs to other events.
pub open spec fn rsvp_not_to(event: Seq<char>) -> spec_fn(EventRsvp) -> bool {
    |v: EventRsvp| v.id.event@ != event
}

/// RSVPs of other users.
pub open spec fn rsvp_not_by(user: Seq<char>) -> spec_fn(EventRsvp) -> bool {
    |v: EventRsvp| v.id.user@ != user
}

/// Events of a server whose series overlaps a window. Cancelled series are among
/// them.
pub open spec fn overlapping(server: Seq<char>, from: i64, to: i64) -> spec_fn(CalendarEventView) -> bool {
    |e: CalendarEventView| e.server == server && e.start <= to && e.series_end >= from
}

/// Events, not cancelled, that a reminder may be due for.
pub open spec fn remindable(start_max: i64, series_end_min: i64) -> spec_fn(CalendarEventView) -> bool {
    |e: CalendarEventView|
        !e.cancelled && e.start <= start_max && e.series_end >= series_end_min
}

/// Events of other servers.
pub open spec fn event_not_in(server: Seq<char>) -> spec_fn(CalendarEventView) -> bool {
    |e: CalendarEventView| e.server != server
}

/// Whether an id is that of an event of a server.
pub open spec fn is_event_in(
    events: Seq<CalendarEventView>,
    server: Seq<char>,
    id: Seq<char>,
) -> bool {
    exists|i: int|
        0 <= i < events.len() && (#[trigger] events[i]).server == server && events[i].id == id
}

/// RSVPs to events that a server does not have.
pub open spec fn rsvp_elsewhere(
    events: Seq<CalendarEventView>,
    server: Seq<char>,
) -> spec_fn(EventRsvp) -> bool {
    |v: EventRsvp| !is_event_in(events, server, v.id.event@)
}

/// RSVPs that are not a user's to an event of a server.
pub open spec fn rsvp_not_of_member(
    events: Seq<CalendarEventView>,
    server: Seq<char>,
    user: Seq<char>,
) -> spec_fn(EventRsvp) -> bool {
    |v: EventRsvp| v.id.user@ != user || !is_event_in(events, server, v.id.event@)
}

/// Reminders for events that a server does not have.
pub open spec fn reminder_elsewhere(
    events: Seq<CalendarEventView>,
    server: Seq<char>,
) -> spec_fn(ReminderSent) -> bool {
    |v: ReminderSent| !is_event_in(events, server, v.id.event@)
}

/// Reminders with a key.
pub open spec fn reminder_of(
    event: Seq<char>,
    user: Seq<char>,
    occurrence: i64,
    offset: i64,
) -> spec_fn(ReminderSent) -> bool {
    |v: ReminderSent|
        v.id.event@ == event && v.id.user@ == user && v.id.occurrence == occurrence && v.id.offset
            == offset
}

/// Reminders for occurrences from an instant on.
pub open spec fn reminder_from(occurrence: i64) -> spec_fn(ReminderSent) -> bool {
    |v: ReminderSent| v.id.occurrence >= occurrence
}

/// The ids of the files attached to an event.
pub open spec fn attached_to(event: CalendarEventView) -> Seq<Seq<char>> {
    match event.attachments {
        Some(files) => files.map_values(|file: FileView| file.id),
        None => Seq::empty(),
    }
}

/// The ids of the files attached to a server's events, in the order of the events.
pub open spec fn attachments_in(events: Seq<CalendarEventView>, server: Seq<char>) -> Seq<Seq<char>>
    decreases events.len(),
{
    if events.len() == 0 {
        Seq::empty()
    } else {
        attachments_in(events.drop_last(), server) + if events.last().server == server {
            attached_to(events.last())
        } else {
            Seq::empty()
        }
    }
}

/// The ids of the messages that a server's events were imported from, each once, in the
/// order of the events.
pub open spec fn sources_in(events: Seq<CalendarEventView>, server: Seq<char>) -> Seq<Seq<char>>
    decreases events.len(),
{
    if events.len() == 0 {
        Seq::empty()
    } else {
        let rest = sources_in(events.drop_last(), server);
        match events.last().source_message_id {
            Some(id) => if events.last().server == server && !rest.contains(id) {
                rest.push(id)
            } else {
                rest
            },
            None => rest,
        }
    }
}

/// An RSVP with the answer of another: status, acceptance and time of the answer.
pub open spec fn answered_as(answer: EventRsvp) -> spec_fn(EventRsvp) -> EventRsvp {
    |v: EventRsvp|
        EventRsvp {
            status: answer.status,
            had_accepted: answer.had_accepted,
            responded_at: answer.responded_at,
            ..v
        }
}

/// The ids of the files attached to an event.
fn attached_ids(event: &CalendarEvent) -> (r: Vec<String>)
    ensures
        text::texts(r@) == attached_to(event@),
{
    let mut out: Vec<String> = Vec::new();
    if let Some(files) = &event.attachments {
        let ghost ids = attached_to(event@);
        let mut i: usize = 0;
        while i < files.len()
            invariant
                i <= files.len(),
                ids.len() == files.len(),
                forall|j: int| 0 <= j < files.len() ==> ids[j] == (#[trigger] files@[j])@.id,
                text::texts(out@) =~= ids.take(i as int),
            decreases files.len() - i,
        {
            let ghost before = out@;
            out.push(files[i].id.clone());
            assert(text::texts(out@) =~= text::texts(before).push(files@[i as int].id@));
            assert(ids.take(i + 1) =~= ids.take(i as int).push(ids[i as int]));
            i = i + 1;
        }
        assert(ids.take(i as int) =~= ids);
    }
    assert(event.attachments is None ==> text::texts(out@) =~= attached_to(event@));
    out
}

impl ReferenceDb {
    /// Adds an event; its id must be new.
    pub fn insert_event(&mut self, event: &CalendarEvent) -> (r: Result<(), Error>)
        requires
            old(self).wf(),
        ensures
            final(self).wf(),
            *final(self) == (ReferenceDb {
                calendar_events: final(self).calendar_events,
                ..*old(self)
            }),
            if table::has_id::<CalendarEvent>(old(self).calendar_events@, event.id@) {
                r == Err::<(), Error>(
                    Error::DatabaseError { operation: "insert", collection: "calendar_event" },
                ) && final(self).calendar_events@ == old(self).calendar_events@
            } else {
                r == Ok::<(), Error>(()) && final(self).calendar_events@
                    == old(self).calendar_events@.push(event@)
            },
    {
        if self.calendar_events.contains_id(event.id.as_str()) {
            Err(Error::DatabaseError { operation: "insert", collection: "calendar_event" })
        } else {
            proof {
                table::lemma_keyed_push::<CalendarEvent>(self.calendar_events@, event@);
            }
            self.calendar_events.push(event.dup());
            Ok(())
        }
    }

    /// The event with an id.
    pub fn fetch_event(&self, id: &str) -> (r: Result<CalendarEvent, Error>)
        ensures
            if table::has_id::<CalendarEvent>(self.calendar_events@, id@) {
                r is Ok && r->Ok_0@ == table::row_of::<CalendarEvent>(self.calendar_events@, id@)
            } else {
                r == Err::<CalendarEvent, Error>(Error::NotFound)
            },
    {
        match self.calendar_events.fetch(id) {
            Some(e) => Ok(e),
            None => Err(Error::NotFound),
        }
    }

    /// Events of a server whose series overlaps the window from `from` to `to`.
    pub fn fetch_events_for_server_in_window(&self, server_id: &str, from: i64, to: i64) -> (r: Vec<
        CalendarEvent,
    >)
        ensures
            table::row_views(r@) == self.calendar_events@.filter(
                overlapping(server_id@, from, to),
            ),
    {
        let p = |e: &CalendarEvent| -> (b: bool)
            ensures
                b == overlapping(server_id@, from, to)(e@),
            { same(e.server.as_str(), server_id) && e.start <= to && e.series_end >= from };
        self.calendar_events.select(p, Ghost(overlapping(server_id@, from, to)))
    }

    /// Unsets fields of an event and applies new values. Derived fields are left as
    /// they are. The new values must not hold an id.
    pub fn update_event(
        &mut self,
        id: &str,
        partial: PartialCalendarEvent,
        remove: &Vec<FieldsCalendarEvent>,
    ) -> (r: Result<(), Error>)
        requires
            old(self).wf(),
            partial.id is None,
        ensures
            final(self).wf(),
            *final(self) == (ReferenceDb {
                calendar_events: final(self).calendar_events,
                ..*old(self)
            }),
            r == files::found_or_not(
                table::has_id::<CalendarEvent>(old(self).calendar_events@, id@),
            ),
            final(self).calendar_events@ == table::mapped(
                old(self).calendar_events@,
                table::with_id::<CalendarEvent>(id@),
                |e: CalendarEventView| partial.applied_to(calendar::without_fields(e, remove@)),
            ),
    {
        let ghost f = |e: CalendarEventView|
            partial.applied_to(calendar::without_fields(e, remove@));
        match self.calendar_events.position(id) {
            Some(i) => {
                let mut event = self.calendar_events.get(i);
                proof {
                    lemma_id_kept(event@, remove@);
                }
                event.remove_fields(remove);
                event.apply_options(partial);
                self.calendar_events.replace(i, event, Ghost(f));
                Ok(())
            },
            None => {
                proof {
                    table::lemma_mapped_none(
                        self.calendar_events@,
                        table::with_id::<CalendarEvent>(id@),
                        f,
                    );
                }
                Err(Error::NotFound)
            },
        }
    }

    /// Replaces the event that has the id of the given one.
    pub fn replace_event(&mut self, event: &CalendarEvent) -> (r: Result<(), Error>)
        requires
            old(self).wf(),
        ensures
            final(self).wf(),
            *final(self) == (ReferenceDb {
                calendar_events: final(self).calendar_events,
                ..*old(self)
            }),
            r == files::found_or_not(
                table::has_id::<CalendarEvent>(old(self).calendar_events@, event.id@),
            ),
            final(self).calendar_events@ == table::mapped(
                old(self).calendar_events@,
                table::with_id::<CalendarEvent>(event.id@),
                |e: CalendarEventView| event@,
            ),
    {
        let ghost f = |e: CalendarEventView| event@;
        match self.calendar_events.position(event.id.as_str()) {
            Some(i) => {
                self.calendar_events.replace(i, event.dup(), Ghost(f));
                Ok(())
            },
            None => {
                proof {
                    table::lemma_mapped_none(
                        self.calendar_events@,
                        table::with_id::<CalendarEvent>(event.id@),
                        f,
                    );
                }
                Err(Error::NotFound)
            },
        }
    }

    /// Removes the event with an id.
    pub fn delete_event(&mut self, id: &str) -> (r: Result<(), Error>)
        requires
            old(self).wf(),
        ensures
            final(self).wf(),
            *final(self) == (ReferenceDb {
                calendar_events: final(self).calendar_events,
                ..*old(self)
            }),
            r == files::found_or_not(
                table::has_id::<CalendarEvent>(old(self).calendar_events@, id@),
            ),
            final(self).calendar_events@ == old(self).calendar_events@.filter(
                table::without_id::<CalendarEvent>(id@),
            ),
    {
        if self.calendar_events.delete(id) {
            Ok(())
        } else {
            Err(Error::NotFound)
        }
    }

    fn rsvp_position(&self, event_id: &str, user_id: &str) -> (r: Option<usize>)
        ensures
            r is Some <==> table::any_row(self.event_rsvps@, rsvp_of(event_id@, user_id@)),
            r matches Some(i) ==> i == table::first_row(
                self.event_rsvps@,
                rsvp_of(event_id@, user_id@),
            ) && i < self.event_rsvps@.len() && rsvp_of(event_id@, user_id@)(
                self.event_rsvps@[i as int],
            ),
    {
        let p = |v: &EventRsvp| -> (b: bool)
            ensures
                b == rsvp_of(event_id@, user_id@)(v@),
            { same(v.id.event.as_str(), event_id) && same(v.id.user.as_str(), user_id) };
        self.event_rsvps.find(p, Ghost(rsvp_of(event_id@, user_id@)))
    }

    /// Adds an RSVP unless there is one for its event and user; tells whether it was
    /// added.
    pub fn insert_rsvp_if_absent(&mut self, rsvp: &EventRsvp) -> (r: bool)
        requires
            old(self).wf(),
        ensures
            final(self).wf(),
            *final(self) == (ReferenceDb { event_rsvps: final(self).event_rsvps, ..*old(self) }),
            r == !table::any_row(
                old(self).event_rsvps@,
                rsvp_of(rsvp.id.event@, rsvp.id.user@),
            ),
            final(self).event_rsvps@ == if r {
                old(self).event_rsvps@.push(*rsvp)
            } else {
                old(self).event_rsvps@
            },
    {
        if self.rsvp_position(rsvp.id.event.as_str(), rsvp.id.user.as_str()).is_some() {
            false
        } else {
            proof {
                let rows = self.event_rsvps@;
                let q = rsvp_of(rsvp.id.event@, rsvp.id.user@);
                assert forall|i: int| 0 <= i < rows.len() implies rsvp_key()(#[trigger] rows[i])
                    != rsvp_key()(*rsvp) by {
                    if rsvp_key()(rows[i]) == rsvp_key()(*rsvp) {
                        assert(q(rows[i]));
                    }
                }
                table::lemma_unique_push(rows, rsvp_key(), *rsvp);
            }
            self.event_rsvps.push(rsvp.dup());
            true
        }
    }

    /// The RSVP of a user to an event.
    pub fn fetch_rsvp(&self, event_id: &str, user_id: &str) -> (r: Result<EventRsvp, Error>)
        ensures
            if table::any_row(self.event_rsvps@, rsvp_of(event_id@, user_id@)) {
                r == Ok::<EventRsvp, Error>(
                    self.event_rsvps@[table::first_row(
                        self.event_rsvps@,
                        rsvp_of(event_id@, user_id@),
                    )],
                )
            } else {
                r == Err::<EventRsvp, Error>(Error::NotFound)
            },
    {
        match self.rsvp_position(event_id, user_id) {
            Some(i) => Ok(self.event_rsvps.get(i)),
            None => Err(Error::NotFound),
        }
    }

    /// All RSVPs to an event.
    pub fn fetch_rsvps_for_event(&self, event_id: &str) -> (r: Vec<EventRsvp>)
        ensures
            table::row_views(r@) == self.event_rsvps@.filter(rsvp_to(event_id@)),
    {
        let p = |v: &EventRsvp| -> (b: bool)
            ensures
                b == rsvp_to(event_id@)(v@),
            { same(v.id.event.as_str(), event_id) };
        self.event_rsvps.select(p, Ghost(rsvp_to(event_id@)))
    }

    /// Stores the answer of an RSVP; who was invited by whom and when stays.
    pub fn update_rsvp(&mut self, rsvp: &EventRsvp) -> (r: Result<(), Error>)
        requires
            old(self).wf(),
        ensures
            final(self).wf(),
            *final(self) == (ReferenceDb { event_rsvps: final(self).event_rsvps, ..*old(self) }),
            r == files::found_or_not(
                table::any_row(old(self).event_rsvps@, rsvp_of(rsvp.id.event@, rsvp.id.user@)),
            ),
            final(self).event_rsvps@ == table::mapped(
                old(self).event_rsvps@,
                rsvp_of(rsvp.id.event@, rsvp.id.user@),
                answered_as(*rsvp),
            ),
    {
        let ghost rows = self.event_rsvps@;
        let ghost q = rsvp_of(rsvp.id.event@, rsvp.id.user@);
        match self.rsvp_position(rsvp.id.event.as_str(), rsvp.id.user.as_str()) {
            Some(i) => {
                let mut existing = self.event_rsvps.get(i);
                existing.status = rsvp.status;
                existing.had_accepted = rsvp.had_accepted;
                existing.responded_at = rsvp.responded_at;
                let ghost changed = existing@;
                self.event_rsvps.put(i, existing);
                proof {
                    assert forall|j: int| 0 <= j < rows.len() && j != i implies !q(
                        #[trigger] rows[j],
                    ) by {
                        if j < i {
                            assert(rsvp_key()(rows[j]) != rsvp_key()(rows[i as int]));
                        } else {
                            assert(rsvp_key()(rows[i as int]) != rsvp_key()(rows[j]));
                        }
                    }
                    table::lemma_mapped_one(rows, q, answered_as(*rsvp), i as int, changed);
                    table::lemma_unique_update(rows, rsvp_key(), i as int, changed);
                }
                Ok(())
            },
            None => {
                proof {
                    table::lemma_mapped_none(rows, q, answered_as(*rsvp));
                }
                Err(Error::NotFound)
            },
        }
    }

    fn keep_rsvps(
        &mut self,
        p: impl Fn(&EventRsvp) -> bool,
        Ghost(q): Ghost<spec_fn(EventRsvp) -> bool>,
    )
        requires
            old(self).wf(),
            forall|x: &EventRsvp| #[trigger] call_requires(p, (x,)),
            forall|x: &EventRsvp, b: bool| #[trigger] call_ensures(p, (x,), b) ==> b == q(*x),
        ensures
            final(self).wf(),
            *final(self) == (ReferenceDb { event_rsvps: final(self).event_rsvps, ..*old(self) }),
            final(self).event_rsvps@ == old(self).event_rsvps@.filter(q),
    {
        proof {
            table::lemma_unique_filter(self.event_rsvps@, rsvp_key(), q);
        }
        self.event_rsvps.retain(p, Ghost(q));
    }

    /// Removes the RSVP of a user to an event.
    pub fn delete_rsvp(&mut self, event_id: &str, user_id: &str) -> (r: Result<(), Error>)
        requires
            old(self).wf(),
        ensures
            final(self).wf(),
            *final(self) == (ReferenceDb { event_rsvps: final(self).event_rsvps, ..*old(self) }),
            r == files::found_or_not(
                table::any_row(old(self).event_rsvps@, rsvp_of(event_id@, user_id@)),
            ),
            final(self).event_rsvps@ == old(self).event_rsvps@.filter(
                rsvp_not_of(event_id@, user_id@),
            ),
    {
        let found: bool = self.rsvp_position(event_id, user_id).is_some();
        let p = |v: &EventRsvp| -> (b: bool)
            ensures
                b == rsvp_not_of(event_id@, user_id@)(v@),
            { !(same(v.id.event.as_str(), event_id) && same(v.id.user.as_str(), user_id)) };
        self.keep_rsvps(p, Ghost(rsvp_not_of(event_id@, user_id@)));
        if found {
            Ok(())
        } else {
            Err(Error::NotFound)
        }
    }

    /// Removes all RSVPs to an event.
    pub fn delete_rsvps_for_event(&mut self, event_id: &str)
        requires
            old(self).wf(),
        ensures
            final(self).wf(),
            *final(self) == (ReferenceDb { event_rsvps: final(self).event_rsvps, ..*old(self) }),
            final(self).event_rsvps@ == old(self).event_rsvps@.filter(rsvp_not_to(event_id@)),
    {
        let p = |v: &EventRsvp| -> (b: bool)
            ensures
                b == rsvp_not_to(event_id@)(v@),
            { !same(v.id.event.as_str(), event_id) };
        self.keep_rsvps(p, Ghost(rsvp_not_to(event_id@)));
    }

    /// Removes all RSVPs of a user to events of a server.
    pub fn delete_rsvps_for_member(&mut self, server_id: &str, user_id: &str)
        requires
            old(self).wf(),
        ensures
            final(self).wf(),
            *final(self) == (ReferenceDb { event_rsvps: final(self).event_rsvps, ..*old(self) }),
            final(self).event_rsvps@ == old(self).event_rsvps@.filter(
                rsvp_not_of_member(old(self).calendar_events@, server_id@, user_id@),
            ),
    {
        let ghost events = self.calendar_events@;
        let here = self.event_ids_in(server_id);
        let ghost q = rsvp_not_of_member(events, server_id@, user_id@);
        let p = |v: &EventRsvp| -> (b: bool)
            ensures
                b == q(v@),
            { !same(v.id.user.as_str(), user_id) || !contains_text(&here, v.id.event.as_str()) };
        self.keep_rsvps(p, Ghost(q));
    }

    /// Removes all RSVPs of a user.
    pub fn delete_rsvps_for_user(&mut self, user_id: &str)
        requires
            old(self).wf(),
        ensures
            final(self).wf(),
            *final(self) == (ReferenceDb { event_rsvps: final(self).event_rsvps, ..*old(self) }),
            final(self).event_rsvps@ == old(self).event_rsvps@.filter(rsvp_not_by(user_id@)),
    {
        let p = |v: &EventRsvp| -> (b: bool)
            ensures
                b == rsvp_not_by(user_id@)(v@),
            { !same(v.id.user.as_str(), user_id) };
        self.keep_rsvps(p, Ghost(rsvp_not_by(user_id@)));
    }

    /// The ids of a server's events.
    fn event_ids_in(&self, server_id: &str) -> (r: Vec<String>)
        ensures
            forall|id: Seq<char>| #[trigger]
                text::texts(r@).contains(id) <==> is_event_in(
                    self.calendar_events@,
                    server_id@,
                    id,
                ),
    {
        let events = &self.calendar_events.rows;
        let ghost views = self.calendar_events@;
        let mut out: Vec<String> = Vec::new();
        let mut i: usize = 0;
        assert(views.take(0).len() == 0);
        while i < events.len()
            invariant
                i <= events.len(),
                events == &self.calendar_events.rows,
                views == self.calendar_events@,
                forall|id: Seq<char>| #[trigger]
                    text::texts(out@).contains(id) <==> is_event_in(
                        views.take(i as int),
                        server_id@,
                        id,
                    ),
            decreases events.len() - i,
        {
            let ghost before = out@;
            if same(events[i].server.as_str(), server_id) {
                out.push(events[i].id.clone());
            }
            proof {
                let e = views[i as int];
                assert(e == events@[i as int]@);
                let more = views.take(i + 1);
                assert forall|id: Seq<char>| #[trigger]
                    text::texts(out@).contains(id) <==> is_event_in(more, server_id@, id) by {
                    let a = text::texts(before);
                    let b = text::texts(out@);
                    if b.contains(id) {
                        let k = choose|k: int| 0 <= k < b.len() && b[k] == id;
                        if k < a.len() {
                            assert(a[k] == id);
                            assert(a.contains(id));
                            let w = choose|w: int|
                                0 <= w < i && (#[trigger] views.take(i as int)[w]).server
                                    == server_id@ && views.take(i as int)[w].id == id;
                            assert(more[w].id == id);
                        } else {
                            assert(more[i as int].id == id);
                        }
                    }
                    if is_event_in(more, server_id@, id) {
                        let w = choose|w: int|
                            0 <= w < i + 1 && (#[trigger] more[w]).server == server_id@ && more[w].id
                                == id;
                        if w < i {
                            assert(views.take(i as int)[w].id == id);
                            assert(a.contains(id));
                            let k = choose|k: int| 0 <= k < a.len() && a[k] == id;
                            assert(b[k] == id);
                        } else {
                            assert(b[a.len() as int] == id);
                        }
                    }
                }
            }
            i = i + 1;
        }
        assert(views.take(i as int) =~= views);
        out
    }

    /// The files attached to a server's events.
    fn attachments_of(&self, server_id: &str) -> (r: Vec<String>)
        ensures
            text::texts(r@) == attachments_in(self.calendar_events@, server_id@),
    {
        let events = &self.calendar_events.rows;
        let ghost views = self.calendar_events@;
        let mut out: Vec<String> = Vec::new();
        let mut i: usize = 0;
        assert(text::texts(out@) =~= attachments_in(views.take(0), server_id@));
        while i < events.len()
            invariant
                i <= events.len(),
                events == &self.calendar_events.rows,
                views == self.calendar_events@,
                text::texts(out@) == attachments_in(views.take(i as int), server_id@),
            decreases events.len() - i,
        {
            assert(views.take(i + 1).drop_last() =~= views.take(i as int));
            assert(views.take(i + 1).last() == events@[i as int]@);
            let ghost before = out@;
            if same(events[i].server.as_str(), server_id) {
                let mut more = attached_ids(&events[i]);
                let ghost added = more@;
                out.append(&mut more);
                assert(text::texts(out@) =~= text::texts(before) + text::texts(added));
            } else {
                assert(text::texts(before) + Seq::<Seq<char>>::empty() =~= text::texts(before));
            }
            i = i + 1;
        }
        assert(views.take(i as int) =~= views);
        out
    }

    /// Removes all of a server's calendar: events, their RSVPs and their reminders.
    /// Files attached to the events are marked as deleted.
    pub fn delete_calendar_for_server(&mut self, server_id: &str)
        requires
            old(self).wf(),
        ensures
            final(self).wf(),
            *final(self) == (ReferenceDb {
                calendar_events: final(self).calendar_events,
                event_rsvps: final(self).event_rsvps,
                event_reminders: final(self).event_reminders,
                files: final(self).files,
                ..*old(self)
            }),
            final(self).calendar_events@ == old(self).calendar_events@.filter(
                event_not_in(server_id@),
            ),
            final(self).event_rsvps@ == old(self).event_rsvps@.filter(
                rsvp_elsewhere(old(self).calendar_events@, server_id@),
            ),
            final(self).event_reminders@ == old(self).event_reminders@.filter(
                reminder_elsewhere(old(self).calendar_events@, server_id@),
            ),
            final(self).files@ == table::mapped(
                old(self).files@,
                files::id_among(attachments_in(old(self).calendar_events@, server_id@)),
                files::marked_deleted(),
            ),
    {
        let ghost events = self.calendar_events@;
        let removed = self.event_ids_in(server_id);
        let attachments = self.attachments_of(server_id);
        let p = |e: &CalendarEvent| -> (b: bool)
            ensures
                b == event_not_in(server_id@)(e@),
            { !same(e.server.as_str(), server_id) };
        proof {
            table::lemma_keyed_filter::<CalendarEvent>(events, event_not_in(server_id@));
        }
        self.calendar_events.retain(p, Ghost(event_not_in(server_id@)));
        self.mark_existing_as_deleted(&attachments);
        let ghost q = rsvp_elsewhere(events, server_id@);
        let p = |v: &EventRsvp| -> (b: bool)
            ensures
                b == q(v@),
            { !contains_text(&removed, v.id.event.as_str()) };
        self.keep_rsvps(p, Ghost(q));
        let ghost q = reminder_elsewhere(events, server_id@);
        let p = |v: &ReminderSent| -> (b: bool)
            ensures
                b == q(v@),
            { !contains_text(&removed, v.id.event.as_str()) };
        proof {
            table::lemma_unique_filter(self.event_reminders@, reminder_key(), q);
        }
        self.event_reminders.retain(p, Ghost(q));
    }

    /// The ids of the messages that a server's events were imported from, each once.
    pub fn fetch_imported_source_ids(&self, server_id: &str) -> (r: Vec<String>)
        ensures
            text::texts(r@) == sources_in(self.calendar_events@, server_id@),
            text::texts(r@).no_duplicates(),
    {
        let events = &self.calendar_events.rows;
        let ghost views = self.calendar_events@;
        let mut out: Vec<String> = Vec::new();
        let mut i: usize = 0;
        assert(text::texts(out@) =~= sources_in(views.take(0), server_id@));
        while i < events.len()
            invariant
                i <= events.len(),
                events == &self.calendar_events.rows,
                views == self.calendar_events@,
                text::texts(out@) == sources_in(views.take(i as int), server_id@),
                text::texts(out@).no_duplicates(),
            decreases events.len() - i,
        {
            assert(views.take(i + 1).drop_last() =~= views.take(i as int));
            assert(views.take(i + 1).last() == events@[i as int]@);
            let ghost before = out@;
            if same(events[i].server.as_str(), server_id) {
                if let Some(id) = &events[i].source_message_id {
                    if !contains_text(&out, id.as_str()) {
                        out.push(id.clone());
                        assert(text::texts(out@) =~= text::texts(before).push(id@));
                    }
                }
            }
            i = i + 1;
        }
        assert(views.take(i as int) =~= views);
        out
    }

    /// Events of all servers that a reminder may be due for.
    pub fn fetch_events_in_reminder_window(&self, start_max: i64, series_end_min: i64) -> (r: Vec<
        CalendarEvent,
    >)
        ensures
            table::row_views(r@) == self.calendar_events@.filter(
                remindable(start_max, series_end_min),
            ),
    {
        let p = |e: &CalendarEvent| -> (b: bool)
            ensures
                b == remindable(start_max, series_end_min)(e@),
            { !e.cancelled && e.start <= start_max && e.series_end >= series_end_min };
        self.calendar_events.select(p, Ghost(remindable(start_max, series_end_min)))
    }

    /// Records at a given time that a reminder was sent, unless that was recorded;
    /// tells whether it was new.
    pub fn mark_reminder_sent_at(&mut self, key: &ReminderSentKey, now: i64) -> (r: bool)
        requires
            old(self).wf(),
        ensures
            final(self).wf(),
            *final(self) == (ReferenceDb {
                event_reminders: final(self).event_reminders,
                ..*old(self)
            }),
            r == !table::any_row(
                old(self).event_reminders@,
                reminder_of(key.event@, key.user@, key.occurrence, key.offset),
            ),
            final(self).event_reminders@ == if r {
                old(self).event_reminders@.push(ReminderSent { id: *key, sent_at: now })
            } else {
                old(self).event_reminders@
            },
    {
        let ghost q = reminder_of(key.event@, key.user@, key.occurrence, key.offset);
        let p = |v: &ReminderSent| -> (b: bool)
            ensures
                b == q(v@),
            {
                same(v.id.event.as_str(), key.event.as_str()) && same(
                    v.id.user.as_str(),
                    key.user.as_str(),
                ) && v.id.occurrence == key.occurrence && v.id.offset == key.offset
            };
        if self.event_reminders.find(p, Ghost(q)).is_some() {
            false
        } else {
            let marker = ReminderSent { id: key.copy(), sent_at: now };
            proof {
                let rows = self.event_reminders@;
                assert forall|i: int| 0 <= i < rows.len() implies reminder_key()(
                    #[trigger] rows[i],
                ) != reminder_key()(marker) by {
                    if reminder_key()(rows[i]) == reminder_key()(marker) {
                        assert(q(rows[i]));
                    }
                }
                table::lemma_unique_push(rows, reminder_key(), marker);
            }
            self.event_reminders.push(marker);
            true
        }
    }

    /// Records that a reminder is sent now, unless it was recorded; tells whether it
    /// was new.
    pub fn mark_reminder_sent_if_absent(&mut self, key: &ReminderSentKey) -> (r: bool)
        requires
            old(self).wf(),
        ensures
            final(self).wf(),
            *final(self) == (ReferenceDb {
                event_reminders: final(self).event_reminders,
                ..*old(self)
            }),
            r == !table::any_row(
                old(self).event_reminders@,
                reminder_of(key.event@, key.user@, key.occurrence, key.offset),
            ),
            if r {
                exists|now: i64|
                    final(self).event_reminders@ == #[trigger] old(self).event_reminders@.push(
                        ReminderSent { id: *key, sent_at: now },
                    )
            } else {
                final(self).event_reminders@ == old(self).event_reminders@
            },
    {
        self.mark_reminder_sent_at(key, now_ms())
    }

    /// Removes reminder markers for occurrences before an instant; tells how many.
    pub fn delete_reminders_sent_before(&mut self, occurrence_before: i64) -> (n: usize)
        requires
            old(self).wf(),
        ensures
            final(self).wf(),
            *final(self) == (ReferenceDb {
                event_reminders: final(self).event_reminders,
                ..*old(self)
            }),
            final(self).event_reminders@ == old(self).event_reminders@.filter(
                reminder_from(occurrence_before),
            ),
            n == old(self).event_reminders@.len() - final(self).event_reminders@.len(),
    {
        let before: usize = self.event_reminders.len();
        let p = |v: &ReminderSent| -> (b: bool)
            ensures
                b == reminder_from(occurrence_before)(v@),
            { v.id.occurrence >= occurrence_before };
        proof {
            let rows = self.event_reminders@;
            table::lemma_unique_filter(rows, reminder_key(), reminder_from(occurrence_before));
            rows.lemma_filter_len(reminder_from(occurrence_before));
        }
        self.event_reminders.retain(p, Ghost(reminder_from(occurrence_before)));
        before - self.event_reminders.len()
    }
}

/// What a new event is made of.
pub struct NewEvent {
    pub server: String,
    pub creator: String,
    pub title: String,
    pub description: Option<String>,
    pub location: Option<String>,
    pub start: i64,
    pub end: Option<i64>,
    pub all_day: bool,
    pub timezone: String,
    pub recurrence: Option<RecurrenceRule>,
    pub color: Option<String>,
    pub channel: Option<String>,
}

impl NewEvent {
    /// The event that is made of it under an id at a given time, without the derived
    /// series end.
    pub open spec fn draft(self, id: Seq<char>, now: i64) -> CalendarEventView {
        calendar::with_duration(
            CalendarEventView {
                id,
                server: self.server@,
                channel: text::opt_text(self.channel),
                creator: self.creator@,
                title: self.title@,
                description: text::opt_text(self.description),
                location: text::opt_text(self.location),
                start: self.start,
                end: self.end,
                duration_ms: 0,
                series_end: self.start,
                all_day: self.all_day,
                timezone: self.timezone@,
                recurrence: calendar::opt_rule(self.recurrence),
                color: text::opt_text(self.color),
                cancelled: false,
                attachments: None,
                source_message_id: None,
                created_at: now,
                edited_at: None,
            },
        )
    }

    /// What is wrong with it, under any id and at any time.
    pub open spec fn problem(self) -> Option<&'static str> {
        calendar::first_problem(self.draft(Seq::empty(), 0))
    }

    /// Whether its span can be held and its series laid out.
    pub open spec fn supported(self) -> bool {
        &&& calendar::span_fits(self.start as int, self.end)
        &&& self.recurrence is Some ==> calendar::start_supported(self.start as int)
    }
}

impl CalendarEvent {
    /// Makes an event under an id at a given time: its duration is derived, it is
    /// checked, then its series end is derived.
    pub fn build(new: NewEvent, id: String, now: i64) -> (r: Result<CalendarEvent, Error>)
        requires
            new.supported(),
        ensures
            match calendar::first_problem(new.draft(id@, now)) {
                Some(error) => r == Err::<CalendarEvent, Error>(Error::FailedValidation { error }),
                None => r is Ok && r->Ok_0@ == calendar::with_series_end(new.draft(id@, now)),
            },
    {
        let ghost draft = new.draft(id@, now);
        let mut event = CalendarEvent {
            id,
            server: new.server,
            channel: new.channel,
            creator: new.creator,
            title: new.title,
            description: new.description,
            location: new.location,
            start: new.start,
            end: new.end,
            duration_ms: 0,
            series_end: new.start,
            all_day: new.all_day,
            timezone: new.timezone,
            recurrence: new.recurrence,
            color: new.color,
            cancelled: false,
            attachments: None,
            source_message_id: None,
            created_at: now,
            edited_at: None,
        };
        event.recompute_duration();
        assert(event@ == draft);
        match event.validate() {
            Err(e) => Err(e),
            Ok(_) => {
                event.series_end = event.compute_series_end();
                Ok(event)
            },
        }
    }

    /// Makes an event now under a fresh id and stores it. Nothing is stored where the
    /// event is refused.
    pub fn create(
        db: &mut ReferenceDb,
        server: String,
        creator: String,
        title: String,
        description: Option<String>,
        location: Option<String>,
        start: i64,
        end: Option<i64>,
        all_day: bool,
        timezone: String,
        recurrence: Option<RecurrenceRule>,
        color: Option<String>,
        channel: Option<String>,
    ) -> (r: Result<CalendarEvent, Error>)
        requires
            old(db).wf(),
            calendar::span_fits(start as int, end),
            recurrence is Some ==> calendar::start_supported(start as int),
        ensures
            final(db).wf(),
            *final(db) == (ReferenceDb {
                calendar_events: final(db).calendar_events,
                ..*old(db)
            }),
            r is Err ==> final(db).calendar_events@ == old(db).calendar_events@,
            ({
                let new = NewEvent {
                    server,
                    creator,
                    title,
                    description,
                    location,
                    start,
                    end,
                    all_day,
                    timezone,
                    recurrence,
                    color,
                    channel,
                };
                match new.problem() {
                    Some(error) => r == Err::<CalendarEvent, Error>(
                        Error::FailedValidation { error },
                    ),
                    None => match r {
                        Err(e) => e == (Error::DatabaseError {
                            operation: "insert",
                            collection: "calendar_event",
                        }) && ids::may_clash::<CalendarEvent>(old(db).calendar_events@),
                        Ok(event) => {
                            &&& exists|now: i64|
                                event@ == calendar::with_series_end(
                                    #[trigger] new.draft(event.id@, now),
                                )
                            &&& ids::is_id(event.id@)
                            &&& !table::has_id::<CalendarEvent>(
                                old(db).calendar_events@,
                                event.id@,
                            )
                            &&& final(db).calendar_events@ == old(db).calendar_events@.push(
                                event@,
                            )
                        },
                    },
                }
            }),
    {
        let new = NewEvent {
            server,
            creator,
            title,
            description,
            location,
            start,
            end,
            all_day,
            timezone,
            recurrence,
            color,
            channel,
        };
        let id = new_id();
        let now: i64 = now_ms();
        proof {
            lemma_problem_of_draft(new, id@, now);
        }
        match CalendarEvent::build(new, id, now) {
            Err(e) => Err(e),
            Ok(event) => {
                match db.insert_event(&event) {
                    Ok(_) => Ok(event),
                    Err(e) => Err(e),
                }
            },
        }
    }

    /// Edits an event at a given time and stores it. What was refused is not stored.
    pub fn edit_at(
        &mut self,
        db: &mut ReferenceDb,
        partial: PartialCalendarEvent,
        remove: &Vec<FieldsCalendarEvent>,
        now: i64,
    ) -> (r: Result<(), Error>)
        requires
            old(db).wf(),
            calendar::edit_supported(old(self)@, partial, remove@),
        ensures
            final(db).wf(),
            *final(db) == (ReferenceDb {
                calendar_events: final(db).calendar_events,
                ..*old(db)
            }),
            final(self)@ == calendar::edited(old(self)@, partial, remove@, now),
            match calendar::first_problem(final(self)@) {
                Some(error) => r == Err::<(), Error>(Error::FailedValidation { error })
                    && final(db).calendar_events@ == old(db).calendar_events@,
                None => r == files::found_or_not(
                    table::has_id::<CalendarEvent>(old(db).calendar_events@, final(self).id@),
                ) && final(db).calendar_events@ == table::mapped(
                    old(db).calendar_events@,
                    table::with_id::<CalendarEvent>(final(self).id@),
                    |e: CalendarEventView| final(self)@,
                ),
            },
    {
        match self.apply_edit(partial, remove, now) {
            Err(e) => Err(e),
            Ok(_) => db.replace_event(self),
        }
    }

    /// Edits an event now and stores it.
    pub fn edit(
        &mut self,
        db: &mut ReferenceDb,
        partial: PartialCalendarEvent,
        remove: &Vec<FieldsCalendarEvent>,
    ) -> (r: Result<(), Error>)
        requires
            old(db).wf(),
            calendar::edit_supported(old(self)@, partial, remove@),
        ensures
            final(db).wf(),
            *final(db) == (ReferenceDb {
                calendar_events: final(db).calendar_events,
                ..*old(db)
            }),
            exists|now: i64|
                final(self)@ == #[trigger] calendar::edited(old(self)@, partial, remove@, now),
            match calendar::first_problem(final(self)@) {
                Some(error) => r == Err::<(), Error>(Error::FailedValidation { error })
                    && final(db).calendar_events@ == old(db).calendar_events@,
                None => r == files::found_or_not(
                    table::has_id::<CalendarEvent>(old(db).calendar_events@, final(self).id@),
                ) && final(db).calendar_events@ == table::mapped(
                    old(db).calendar_events@,
                    table::with_id::<CalendarEvent>(final(self).id@),
                    |e: CalendarEventView| final(self)@,
                ),
            },
    {
        self.edit_at(db, partial, remove, now_ms())
    }
}

impl EventRsvp {
    /// Invites a user to an event, unless there is an RSVP; tells whether there was
    /// none.
    pub fn invite(db: &mut ReferenceDb, event_id: &str, user_id: &str, invited_by: &str) -> (r: bool)
        requires
            old(db).wf(),
        ensures
            final(db).wf(),
            *final(db) == (ReferenceDb { event_rsvps: final(db).event_rsvps, ..*old(db) }),
            r == !table::any_row(old(db).event_rsvps@, rsvp_of(event_id@, user_id@)),
            !r ==> final(db).event_rsvps@ == old(db).event_rsvps@,
            r ==> {
                &&& final(db).event_rsvps@.len() == old(db).event_rsvps@.len() + 1
                &&& final(db).event_rsvps@.drop_last() == old(db).event_rsvps@
                &&& rsvp_of(event_id@, user_id@)(final(db).event_rsvps@.last())
                &&& final(db).event_rsvps@.last().status == calendar::RsvpStatus::Pending
                &&& final(db).event_rsvps@.last().invited_by@ == invited_by@
                &&& !final(db).event_rsvps@.last().had_accepted
                &&& final(db).event_rsvps@.last().responded_at is None
            },
    {
        let rsvp = EventRsvp::new_invite(event_id, user_id, invited_by);
        let added: bool = db.insert_rsvp_if_absent(&rsvp);
        assert(added ==> db.event_rsvps@.drop_last() =~= old(db).event_rsvps@);
        added
    }
}

proof fn lemma_problem_of_draft(new: NewEvent, id: Seq<char>, now: i64)
    ensures
        calendar::first_problem(new.draft(id, now)) == new.problem(),
{
    let a = new.draft(id, now);
    let b = new.draft(Seq::empty(), 0);
    assert(calendar::start_wall(a) == calendar::start_wall(b));
    assert(calendar::series(a) =~= calendar::series(b));
}

/// Inviting a user again never resets an answer.
pub proof fn law_inviting_again_keeps_the_answer(rows: Seq<EventRsvp>, rsvp: EventRsvp, i: int)
    requires
        rsvps_apart(rows),
        0 <= i < rows.len(),
    ensures
        ({
            let after = if table::any_row(rows, rsvp_of(rsvp.id.event@, rsvp.id.user@)) {
                rows
            } else {
                rows.push(rsvp)
            };
            after[i] == rows[i]
        }),
{
}

/// Once a server's calendar was deleted, no window and no reminder scan finds an
/// event of it.
pub proof fn law_deleted_calendar_is_not_scanned(
    rows: Seq<CalendarEventView>,
    server: Seq<char>,
    event: CalendarEventView,
    from: i64,
    to: i64,
)
    requires
        event.server == server,
    ensures
        !rows.filter(event_not_in(server)).filter(overlapping(server, from, to)).contains(event),
        !rows.filter(event_not_in(server)).filter(remindable(to, from)).contains(event),
{
    let kept = rows.filter(event_not_in(server));
    table::lemma_filter_members(rows, event_not_in(server), event);
    table::lemma_filter_members(kept, overlapping(server, from, to), event);
    table::lemma_filter_members(kept, remindable(to, from), event);
}

proof fn lemma_id_kept(event: CalendarEventView, fields: Seq<FieldsCalendarEvent>)
    ensures
        calendar::without_fields(event, fields).id == event.id,
    decreases fields.len(),
{
    if fields.len() > 0 {
        lemma_id_kept(event, fields.drop_last());
    }
}

/// A window of a server's calendar holds exactly the events of the server whose series
/// starts before it ends and ends after it starts; reminders are looked for among the
/// events of all servers that are not cancelled.
pub proof fn law_which_events_are_found(
    rows: Seq<CalendarEventView>,
    server: Seq<char>,
    from: i64,
    to: i64,
    e: CalendarEventView,
)
    ensures
        rows.filter(overlapping(server, from, to)).contains(e) <==> rows.contains(e) && e.server
            == server && e.start <= to && from <= e.series_end,
        rows.filter(remindable(to, from)).contains(e) <==> rows.contains(e) && !e.cancelled
            && e.start <= to && from <= e.series_end,
{
    table::lemma_filter_members(rows, overlapping(server, from, to), e);
    table::lemma_filter_members(rows, remindable(to, from), e);
}

/// There is one RSVP for an event and a user, and it is found by them.
pub proof fn law_rsvp_is_found(rows: Seq<EventRsvp>, i: int)
    requires
        forall|a: int, b: int|
            0 <= a < b < rows.len() ==> #[trigger] rows[a].id.event@ != #[trigger] rows[b].id.event@
                || rows[a].id.user@ != rows[b].id.user@,
        0 <= i < rows.len(),
    ensures
        rsvps_apart(rows),
        table::any_row(rows, rsvp_of(rows[i].id.event@, rows[i].id.user@)),
        rows[table::first_row(rows, rsvp_of(rows[i].id.event@, rows[i].id.user@))] == rows[i],
{
    let q = rsvp_of(rows[i].id.event@, rows[i].id.user@);
    let key = rsvp_key();
    assert forall|a: int, b: int| 0 <= a < b < rows.len() implies key(#[trigger] rows[a]) != key(
        #[trigger] rows[b],
    ) by {
        assert(rows[a].id.event@ != rows[b].id.event@ || rows[a].id.user@ != rows[b].id.user@);
    }
    assert forall|j: int| 0 <= j < i implies !q(#[trigger] rows[j]) by {
        assert(rows[j].id.event@ != rows[i].id.event@ || rows[j].id.user@ != rows[i].id.user@);
    }
    assert(q(rows[i]));
    table::lemma_first_row(rows, q, i);
}

/// Which RSVPs are read or left: those to an event, all but one, all but those to an event,
/// all but a user's.
pub proof fn law_which_rsvps_are_left(
    rows: Seq<EventRsvp>,
    event: Seq<char>,
    user: Seq<char>,
    v: EventRsvp,
)
    ensures
        rows.filter(rsvp_to(event)).contains(v) <==> rows.contains(v) && v.id.event@ == event,
        rows.filter(rsvp_not_of(event, user)).contains(v) <==> rows.contains(v) && (v.id.event@
            != event || v.id.user@ != user),
        rows.filter(rsvp_not_to(event)).contains(v) <==> rows.contains(v) && v.id.event@ != event,
        rows.filter(rsvp_not_by(user)).contains(v) <==> rows.contains(v) && v.id.user@ != user,
{
    table::lemma_filter_members(rows, rsvp_to(event), v);
    table::lemma_filter_members(rows, rsvp_not_of(event, user), v);
    table::lemma_filter_members(rows, rsvp_not_to(event), v);
    table::lemma_filter_members(rows, rsvp_not_by(user), v);
}

/// Whoever leaves a server loses the RSVPs to its events and no others.
pub proof fn law_leaving_member_loses_rsvps(
    events: Seq<CalendarEventView>,
    rows: Seq<EventRsvp>,
    server: Seq<char>,
    user: Seq<char>,
    v: EventRsvp,
    i: int,
)
    requires
        rows.contains(v),
    ensures
        ({
            let left = rows.filter(rsvp_not_of_member(events, server, user));
            &&& v.id.user@ != user ==> left.contains(v)
            &&& v.id.user@ == user && 0 <= i < events.len() && events[i].server == server
                && events[i].id == v.id.event@ ==> !left.contains(v)
            &&& (forall|k: int|
                0 <= k < events.len() && (#[trigger] events[k]).id == v.id.event@
                    ==> events[k].server != server) ==> left.contains(v)
        }),
{
    table::lemma_filter_members(rows, rsvp_not_of_member(events, server, user), v);
}

/// With a server's calendar go its events, the RSVPs to them and what was noted of their
/// reminders, and nothing else.
pub proof fn law_what_goes_with_a_calendar(
    events: Seq<CalendarEventView>,
    rsvps: Seq<EventRsvp>,
    sent: Seq<ReminderSent>,
    server: Seq<char>,
    e: CalendarEventView,
    v: EventRsvp,
    m: ReminderSent,
)
    requires
        events.contains(e),
        rsvps.contains(v),
        sent.contains(m),
    ensures
        events.filter(event_not_in(server)).contains(e) <==> e.server != server,
        e.server == server && v.id.event@ == e.id ==> !rsvps.filter(
            rsvp_elsewhere(events, server),
        ).contains(v),
        e.server == server && m.id.event@ == e.id ==> !sent.filter(
            reminder_elsewhere(events, server),
        ).contains(m),
        (forall|k: int|
            0 <= k < events.len() && (#[trigger] events[k]).server == server ==> events[k].id
                != v.id.event@) ==> rsvps.filter(rsvp_elsewhere(events, server)).contains(v),
        (forall|k: int|
            0 <= k < events.len() && (#[trigger] events[k]).server == server ==> events[k].id
                != m.id.event@) ==> sent.filter(reminder_elsewhere(events, server)).contains(m),
{
    table::lemma_filter_members(events, event_not_in(server), e);
    table::lemma_filter_members(rsvps, rsvp_elsewhere(events, server), v);
    table::lemma_filter_members(sent, reminder_elsewhere(events, server), m);
    let i = choose|i: int| 0 <= i < events.len() && events[i] == e;
    assert(events[i].id == e.id);
}

/// The files attached to a server's events, and no others, are found.
pub proof fn law_which_attachments_are_found(
    events: Seq<CalendarEventView>,
    server: Seq<char>,
    id: Seq<char>,
)
    ensures
        attachments_in(events, server).contains(id) <==> exists|i: int, k: int|
            0 <= i < events.len() && (#[trigger] events[i]).server == server
                && events[i].attachments is Some && 0 <= k
                < events[i].attachments->Some_0.len() && (
            #[trigger] events[i].attachments->Some_0[k]).id == id,
    decreases events.len(),
{
    if events.len() > 0 {
        let rest = events.drop_last();
        law_which_attachments_are_found(rest, server, id);
        let last = events.last();
        assert(events[events.len() - 1] == last);
        let a = attachments_in(rest, server);
        let b = if last.server == server {
            attached_to(last)
        } else {
            Seq::empty()
        };
        let all = a + b;
        if a.contains(id) {
            let n = choose|n: int| 0 <= n < a.len() && a[n] == id;
            assert(all[n] == id);
            let (i, k) = choose|i: int, k: int|
                0 <= i < rest.len() && (#[trigger] rest[i]).server == server
                    && rest[i].attachments is Some && 0 <= k < rest[i].attachments->Some_0.len()
                    && (#[trigger] rest[i].attachments->Some_0[k]).id == id;
            assert(events[i] == rest[i]);
            assert(events[i].attachments->Some_0[k].id == id);
        }
        if b.contains(id) {
            let n = choose|n: int| 0 <= n < b.len() && b[n] == id;
            assert(all[a.len() + n] == id);
            assert(events[events.len() - 1].attachments->Some_0[n].id == id);
        }
        if all.contains(id) {
            let n = choose|n: int| 0 <= n < all.len() && all[n] == id;
            if n < a.len() {
                assert(a[n] == id);
            } else {
                assert(b[n - a.len()] == id);
            }
        }
        if exists|i: int, k: int|
            0 <= i < events.len() && (#[trigger] events[i]).server == server
                && events[i].attachments is Some && 0 <= k
                < events[i].attachments->Some_0.len() && (
            #[trigger] events[i].attachments->Some_0[k]).id == id {
            let (i, k) = choose|i: int, k: int|
                0 <= i < events.len() && (#[trigger] events[i]).server == server
                    && events[i].attachments is Some && 0 <= k
                    < events[i].attachments->Some_0.len() && (
                #[trigger] events[i].attachments->Some_0[k]).id == id;
            if i < rest.len() {
                assert(rest[i] == events[i]);
                assert(rest[i].attachments->Some_0[k].id == id);
            } else {
                assert(b[k] == id);
            }
        }
    }
}

/// The messages that a server's events were imported from, and no others, are found.
pub proof fn law_which_sources_are_found(
    events: Seq<CalendarEventView>,
    server: Seq<char>,
    id: Seq<char>,
)
    ensures
        sources_in(events, server).contains(id) <==> exists|i: int|
            0 <= i < events.len() && (#[trigger] events[i]).server == server
                && events[i].source_message_id == Some(id),
    decreases events.len(),
{
    if events.len() > 0 {
        let rest = events.drop_last();
        law_which_sources_are_found(rest, server, id);
        let last = events.last();
        assert(events[events.len() - 1] == last);
        let a = sources_in(rest, server);
        let all = sources_in(events, server);
        assert forall|i: int| 0 <= i < rest.len() implies rest[i] == #[trigger] events[i] by {}
        if a.contains(id) {
            let n = choose|n: int| 0 <= n < a.len() && a[n] == id;
            assert(all[n] == id);
            let i = choose|i: int|
                0 <= i < rest.len() && (#[trigger] rest[i]).server == server
                    && rest[i].source_message_id == Some(id);
            assert(events[i] == rest[i]);
        }
        if last.server == server && last.source_message_id == Some(id) && !a.contains(id) {
            assert(all[a.len() as int] == id);
        }
        if all.contains(id) && !a.contains(id) {
            let n = choose|n: int| 0 <= n < all.len() && all[n] == id;
            if n < a.len() {
                assert(a[n] == id);
            }
        }
        if exists|i: int|
            0 <= i < events.len() && (#[trigger] events[i]).server == server
                && events[i].source_message_id == Some(id) {
            let i = choose|i: int|
                0 <= i < events.len() && (#[trigger] events[i]).server == server
                    && events[i].source_message_id == Some(id);
            if i < rest.len() {
                assert(rest[i] == events[i]);
            }
        }
    }
}

/// An updated RSVP has the new answer; who was invited to what, and by whom, stays, and so
/// do all other RSVPs.
pub proof fn law_updated_rsvp_has_the_answer(rows: Seq<EventRsvp>, answer: EventRsvp, i: int)
    requires
        0 <= i < rows.len(),
    ensures
        ({
            let r = table::mapped(
                rows,
                rsvp_of(answer.id.event@, answer.id.user@),
                answered_as(answer),
            )[i];
            let v = rows[i];
            if v.id.event@ == answer.id.event@ && v.id.user@ == answer.id.user@ {
                &&& r.status == answer.status
                &&& r.had_accepted == answer.had_accepted
                &&& r.responded_at == answer.responded_at
                &&& r.id == v.id
                &&& r.invited_by == v.invited_by
            } else {
                r == v
            }
        }),
{
}

/// A reminder is sent once for an event, a user, an occurrence and an offset; what was noted
/// of occurrences before an instant is forgotten, and nothing else.
pub proof fn law_which_reminders_are_noted(
    rows: Seq<ReminderSent>,
    event: Seq<char>,
    user: Seq<char>,
    occurrence: i64,
    offset: i64,
    m: ReminderSent,
)
    ensures
        table::any_row(rows, reminder_of(event, user, occurrence, offset)) <==> exists|i: int|
            0 <= i < rows.len() && (#[trigger] rows[i]).id.event@ == event && rows[i].id.user@
                == user && rows[i].id.occurrence == occurrence && rows[i].id.offset == offset,
        rows.filter(reminder_from(occurrence)).contains(m) <==> rows.contains(m)
            && m.id.occurrence >= occurrence,
{
    table::lemma_filter_members(rows, reminder_from(occurrence), m);
    let q = reminder_of(event, user, occurrence, offset);
    if exists|i: int|
        0 <= i < rows.len() && (#[trigger] rows[i]).id.event@ == event && rows[i].id.user@ == user
            && rows[i].id.occurrence == occurrence && rows[i].id.offset == offset {
        let i = choose|i: int|
            0 <= i < rows.len() && (#[trigger] rows[i]).id.event@ == event && rows[i].id.user@
                == user && rows[i].id.occurrence == occurrence && rows[i].id.offset == offset;
        assert(q(rows[i]));
    }
}

/// A new event is what was asked for, in its server, not cancelled, with no attachments,
/// made at the given time and never edited.
pub proof fn law_new_event_is_as_asked(new: NewEvent, id: Seq<char>, now: i64)
    ensures
        ({
            let r = new.draft(id, now);
            &&& r.id == id && r.server == new.server@ && r.creator == new.creator@ && r.title
                == new.title@
            &&& r.start == new.start && r.end == new.end && r.all_day == new.all_day && r.timezone
                == new.timezone@
            &&& channel_laws::set_or_unset(text::opt_text(new.channel), true, None, r.channel)
            &&& channel_laws::set_or_unset(
                text::opt_text(new.description),
                true,
                None,
                r.description,
            )
            &&& channel_laws::set_or_unset(text::opt_text(new.location), true, None, r.location)
            &&& channel_laws::set_or_unset(text::opt_text(new.color), true, None, r.color)
            &&& r.recurrence is Some <==> new.recurrence is Some
            &&& new.recurrence matches Some(rule) ==> r.recurrence == Some(rule@)
            &&& new.end matches Some(end) ==> (0 <= end - new.start <= i64::MAX
                ==> r.duration_ms == end - new.start)
            &&& new.end is None ==> r.duration_ms == 0
            &&& !r.cancelled && r.attachments is None && r.source_message_id is None
                && r.edited_at is None && r.created_at == now
        }),
{
}

} // verus!
