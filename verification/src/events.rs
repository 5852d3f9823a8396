//! The editor of a scheduled event.

use vstd::prelude::*;
use crate::json::{lower_text, same_ignoring_case};
use crate::plan::copy_value;
use crate::staged::{same_value, text_of};
use crate::text::{decimal, digits, trim, trimmed};

verus! {

/// The form's stops: the schedule and the options each have room to grow before the next block.
pub const TAB_NAME: u32 = 10;

pub const TAB_SHAPE: u32 = 20;

pub const TAB_SCHED: u32 = 30;

pub const TAB_BODY: u32 = 100;

pub const TAB_OPT: u32 = 200;

/// The form's stops as its controls stand from top to bottom: the name, the shape, the interval's
/// quantity and unit and its two bounds, the body, the status, the toggle, the definer and the
/// comment.
pub open spec fn form_stops() -> Seq<int> {
    seq![
        TAB_NAME as int,
        TAB_SHAPE as int,
        TAB_SCHED as int,
        TAB_SCHED + 10,
        TAB_SCHED + 20,
        TAB_SCHED + 30,
        TAB_BODY as int,
        TAB_OPT as int,
        TAB_OPT + 10,
        TAB_OPT + 20,
        TAB_OPT + 30,
    ]
}

/// The form's stops as its controls stand from top to bottom.
pub fn tab_order() -> (r: Vec<u32>)
    ensures
        r@.len() == form_stops().len(),
        forall|i: int| 0 <= i < r@.len() ==> #[trigger] r@[i] == form_stops()[i],
{
    let mut out: Vec<u32> = Vec::new();
    out.push(TAB_NAME);
    out.push(TAB_SHAPE);
    out.push(TAB_SCHED);
    out.push(TAB_SCHED + 10);
    out.push(TAB_SCHED + 20);
    out.push(TAB_SCHED + 30);
    out.push(TAB_BODY);
    out.push(TAB_OPT);
    out.push(TAB_OPT + 10);
    out.push(TAB_OPT + 20);
    out.push(TAB_OPT + 30);
    out
}

/// The form is walked from top to bottom, and no two of its controls share a stop. Its stops end below
/// the thousand at which rows of values start.
pub proof fn the_form_is_walked_in_order()
    ensures
        forall|i: int, j: int|
            #![trigger form_stops()[i], form_stops()[j]]
            0 <= i < j < form_stops().len() ==> form_stops()[i] < form_stops()[j],
        form_stops().last() < 1000,
{
}

/// When an event runs: at intervals, perhaps within bounds, or once. Its times are SQL, and are not
/// read.
pub enum EventSchedule {
    Every { value: String, unit: String, starts: Option<String>, ends: Option<String> },
    At(String),
}

/// Whether an event runs at all. The third state is one that a replica is in.
#[derive(Clone, Copy, Debug, PartialEq, Eq, Structural)]
pub enum EventStatus {
    Enabled,
    Disabled,
    ReplicaDisabled,
}

/// An event. `session` is what it was written under, which the form carries and never edits.
pub struct EventInfo {
    pub name: String,
    pub schema: Option<String>,
    pub body: String,
    pub schedule: EventSchedule,
    pub status: EventStatus,
    pub preserve: bool,
    pub definer: Option<String>,
    pub comment: Option<String>,
    pub session: Vec<Option<String>>,
}

/// The event that is edited, as the server holds it; none for one that is being created.
pub struct EventTarget {
    pub conn_id: u64,
    pub database: String,
    pub current: Option<EventInfo>,
    pub read_only: bool,
}

impl EventTarget {
    /// Whether the editor creates an event: else its statement alters the one that the server holds,
    /// from what the server holds to what the draft says.
    pub fn creates(&self) -> (r: bool)
        ensures
            r == (self.current is None),
    {
        self.current.is_none()
    }
}

/// Everything the editor knows. `body` is the text of the body's field; `source_pending` while the
/// body is being read as it was written, and `body_stale` where it came after the user had typed.
pub struct EventEditor {
    pub session: u64,
    pub target: Option<EventTarget>,
    pub draft: EventInfo,
    pub body: String,
    pub source_pending: bool,
    pub body_stale: bool,
    pub error: Option<String>,
    pub previewing: bool,
}

/// A read of an event's body as it was written.
pub struct SourceRequest {
    pub conn_id: u64,
    pub database: String,
    pub name: String,
    pub session: u64,
}

/// An event's body as it was written, where it may be seen, and what it was written under.
pub struct EventSource {
    pub body: Option<String>,
    pub session: Vec<Option<String>>,
}

/// What becomes of a body that was read: it is left as it is, taken over, or it came too late.
#[derive(Clone, Copy, Debug, PartialEq, Eq, Structural)]
pub enum SourceOutcome {
    Unchanged,
    Adopted,
    Stale,
}

/// A copy of a list of settings.
fn copy_session(v: &Vec<Option<String>>) -> (r: Vec<Option<String>>)
    ensures
        r@ == v@,
{
    let mut out: Vec<Option<String>> = Vec::new();
    let mut i: usize = 0;
    while i < v.len()
        invariant
            i <= v@.len(),
            out@ == v@.take(i as int),
        decreases v@.len() - i,
    {
        out.push(copy_value(&v[i]));
        i = i + 1;
        assert(out@ =~= v@.take(i as int));
    }
    assert(v@.take(v@.len() as int) =~= v@);
    out
}

/// Whether `after` is an event with what a read found: what it was written under, and its body where
/// that is taken over and was seen.
pub open spec fn patched(before: EventInfo, src: EventSource, with_body: bool, after: EventInfo) -> bool {
    &&& after.session@ == src.session@
    &&& after == (EventInfo {
        session: after.session,
        body: if with_body && src.body is Some {
            src.body->0
        } else {
            before.body
        },
        ..before
    })
}

/// Put what a read found into an event.
fn patch(info: &mut EventInfo, src: &EventSource, with_body: bool)
    ensures
        patched(*old(info), *src, with_body, *final(info)),
{
    info.session = copy_session(&src.session);
    if with_body {
        if let Some(b) = &src.body {
            info.body = b.clone();
        }
    }
}

impl EventEditor {
    /// Open the editor on an event, or on one to create. An event that the server holds has its body
    /// read as it was written.
    pub fn open(&mut self, target: EventTarget, draft: EventInfo) -> (r: Option<SourceRequest>)
        requires
            old(self).session < u64::MAX,
        ensures
            r is Some <==> target.current is Some,
            r matches Some(q) ==> {
                &&& q.conn_id == target.conn_id
                &&& q.database == target.database
                &&& q.name == target.current->0.name
                &&& q.session == final(self).session
            },
            *final(self) == (EventEditor {
                session: (old(self).session + 1) as u64,
                target: Some(target),
                body: draft.body,
                draft,
                source_pending: target.current is Some,
                body_stale: false,
                error: None,
                previewing: false,
            }),
    {
        self.session = self.session + 1;
        self.body = draft.body.clone();
        self.draft = draft;
        self.body_stale = false;
        self.error = None;
        self.previewing = false;
        let request: Option<SourceRequest> = match &target.current {
            Some(cur) => Some(
                SourceRequest {
                    conn_id: target.conn_id,
                    database: target.database.clone(),
                    name: cur.name.clone(),
                    session: self.session,
                },
            ),
            None => None,
        };
        self.source_pending = request.is_some();
        self.target = Some(target);
        request
    }

    /// The body the editor was opened with, which tells whether the user has typed since.
    pub open spec fn opened_with(self) -> Seq<char> {
        match self.target {
            Some(t) => match t.current {
                Some(c) => c.body@,
                None => Seq::empty(),
            },
            None => Seq::empty(),
        }
    }

    /// The body the editor was opened with.
    pub fn opened_body(&self) -> (r: String)
        ensures
            r@ == self.opened_with(),
    {
        match &self.target {
            Some(t) => match &t.current {
                Some(c) => c.body.clone(),
                None => String::new(),
            },
            None => String::new(),
        }
    }

    /// Whether `after` is the editor once a body came that was asked for under `session` for the
    /// event `name`: it is dropped where the editor was opened anew or the event is another one; a
    /// read that found nothing ends the wait; and one that found something corrects the event as the
    /// server holds it, and the draft as `outcome` says.
    pub open spec fn source_came(
        self,
        session: u64,
        name: Seq<char>,
        asked: Seq<char>,
        src: Option<EventSource>,
        outcome: SourceOutcome,
        after: EventEditor,
    ) -> bool {
        if session != self.session || asked != name {
            after == self
        } else {
            match src {
                None => after == (EventEditor { source_pending: false, ..self }),
                Some(s) => {
                    let adopted = outcome == SourceOutcome::Adopted;
                    &&& patched(self.draft, s, adopted, after.draft)
                    &&& match self.target {
                        None => after.target is None,
                        Some(t) => {
                            &&& after.target is Some
                            &&& match t.current {
                                None => after.target == self.target,
                                Some(cur) => {
                                    &&& after.target->0.current is Some
                                    &&& patched(cur, s, true, after.target->0.current->0)
                                    &&& after.target->0 == (EventTarget {
                                        current: after.target->0.current,
                                        ..t
                                    })
                                },
                            }
                        },
                    }
                    &&& after == (EventEditor {
                        source_pending: false,
                        draft: after.draft,
                        body: if adopted && s.body is Some {
                            s.body->0
                        } else {
                            self.body
                        },
                        body_stale: outcome == SourceOutcome::Stale,
                        target: after.target,
                        ..self
                    })
                },
            }
        }
    }

    /// A body came that was asked for.
    pub fn source_done(
        &mut self,
        q: &SourceRequest,
        asked: &String,
        src: Option<EventSource>,
        outcome: SourceOutcome,
    )
        ensures
            old(self).source_came(q.session, q.name@, asked@, src, outcome, *final(self)),
    {
        if self.session != q.session || !(*asked == q.name) {
            return;
        }
        self.source_pending = false;
        let s: EventSource = match src {
            Some(s) => s,
            None => return,
        };
        let adopted: bool = outcome == SourceOutcome::Adopted;
        patch(&mut self.draft, &s, adopted);
        if adopted {
            if let Some(b) = &s.body {
                self.body = b.clone();
            }
        }
        self.body_stale = outcome == SourceOutcome::Stale;
        if let Some(t) = &mut self.target {
            if let Some(cur) = &mut t.current {
                patch(cur, &s, true);
            }
        }
    }

    /// Whether the editor is on screen: it is open, and no preview stands over it.
    pub fn is_shown(&self) -> (r: bool)
        ensures
            r == (self.target is Some && !self.previewing),
    {
        self.target.is_some() && !self.previewing
    }

    /// Close the editor.
    pub fn close(&mut self)
        ensures
            *final(self) == (EventEditor { target: None, ..*old(self) }),
    {
        self.target = None;
    }
}

/// A body that is taken over leaves the draft with the body that the server holds, so that the event
/// does not open as already changed.
pub proof fn an_adopted_body_is_no_change(
    before: EventEditor,
    session: u64,
    name: Seq<char>,
    src: EventSource,
    after: EventEditor,
)
    requires
        before.source_came(session, name, name, Some(src), SourceOutcome::Adopted, after),
        session == before.session,
        before.target is Some,
        before.target->0.current is Some,
        before.draft.body == before.target->0.current->0.body,
    ensures
        after.draft.body == after.target->0.current->0.body,
        after.draft.session@ == after.target->0.current->0.session@,
{
}

/// A name that is taken, and the schema it is taken in.
pub struct EventName {
    pub name: String,
    pub schema: Option<String>,
}

/// A database of the connection, with its events once they were read.
pub struct EventNode {
    pub database: String,
    pub events: Option<Vec<EventName>>,
}

/// The first database of this name.
pub open spec fn event_node(nodes: Seq<EventNode>, db: Seq<char>, i: int) -> Option<usize>
    decreases nodes.len() - i,
{
    if i >= nodes.len() {
        None
    } else if nodes[i].database@ == db {
        Some(i as usize)
    } else {
        event_node(nodes, db, i + 1)
    }
}

/// The names among these events that are taken in this schema.
pub open spec fn names_in(events: Seq<EventName>, schema: Option<Seq<char>>) -> Seq<String>
    decreases events.len(),
{
    if events.len() == 0 {
        Seq::empty()
    } else {
        let before = names_in(events.drop_last(), schema);
        if text_of(events.last().schema) == schema {
            before.push(events.last().name)
        } else {
            before
        }
    }
}

/// The names that are taken in a schema of a database; none where its events were not read.
pub open spec fn names_taken(nodes: Seq<EventNode>, db: Seq<char>, schema: Option<Seq<char>>) -> Seq<
    String,
> {
    match event_node(nodes, db, 0) {
        None => Seq::empty(),
        Some(n) => match nodes[n as int].events {
            None => Seq::empty(),
            Some(events) => names_in(events@, schema),
        },
    }
}

/// The names that are taken in a schema of a database.
pub fn taken_names(nodes: &Vec<EventNode>, db: &String, schema: &Option<String>) -> (r: Vec<String>)
    ensures
        r@ == names_taken(nodes@, db@, text_of(*schema)),
{
    let mut out: Vec<String> = Vec::new();
    let mut n: usize = 0;
    while n < nodes.len()
        invariant
            n <= nodes@.len(),
            out@.len() == 0,
            event_node(nodes@, db@, 0) == event_node(nodes@, db@, n as int),
        decreases nodes@.len() - n,
    {
        if nodes[n].database == *db {
            if let Some(events) = &nodes[n].events {
                let mut i: usize = 0;
                assert(names_in(events@.take(0), text_of(*schema)) =~= Seq::<String>::empty());
                assert(out@ =~= Seq::<String>::empty());
                while i < events.len()
                    invariant
                        i <= events@.len(),
                        out@ == names_in(events@.take(i as int), text_of(*schema)),
                    decreases events@.len() - i,
                {
                    proof {
                        assert(events@.take(i + 1).drop_last() =~= events@.take(i as int));
                        assert(events@.take(i + 1).last() == events@[i as int]);
                    }
                    if same_value(&events[i].schema, schema) {
                        out.push(events[i].name.clone());
                    }
                    i = i + 1;
                }
                assert(events@.take(events@.len() as int) =~= events@);
            }
            assert(out@ =~= names_taken(nodes@, db@, text_of(*schema)));
            return out;
        }
        n = n + 1;
    }
    assert(out@ =~= Seq::<String>::empty());
    out
}

/// A text without the white space around it; none where nothing is left.
pub open spec fn some_text(s: Seq<char>) -> Option<Seq<char>> {
    if trim(s).len() == 0 {
        None
    } else {
        Some(trim(s))
    }
}

/// A text without the white space around it; none where nothing is left.
fn text_or_none(s: &str) -> (r: Option<String>)
    ensures
        text_of(r) == some_text(s@),
{
    let t: String = trimmed(s);
    if t.as_str().is_empty() {
        None
    } else {
        Some(t)
    }
}

/// A field writes to the draft only where its text changed: the first look at it is no edit.
pub fn field_writes(prev: &Option<String>, now: &String) -> (r: bool)
    ensures
        r == (*prev matches Some(p) && p@ != now@),
{
    match prev {
        Some(p) => !(*p == *now),
        None => false,
    }
}

impl EventInfo {
    /// Whether the event runs once.
    pub fn is_one_shot(&self) -> (r: bool)
        ensures
            r == (self.schedule is At),
    {
        match &self.schedule {
            EventSchedule::At(_) => true,
            EventSchedule::Every { .. } => false,
        }
    }

    /// Switch between an event that repeats and one that runs once. Nothing carries over from one to
    /// the other: `blank` is the schedule that a new event starts from.
    pub fn set_shape(&mut self, every: bool, blank: EventSchedule)
        requires
            blank is Every,
        ensures
            old(self).schedule is Every == every ==> *final(self) == *old(self),
            old(self).schedule is Every != every ==> {
                &&& *final(self) == (EventInfo { schedule: final(self).schedule, ..*old(self) })
                &&& every ==> final(self).schedule == blank
                &&& !every ==> (final(self).schedule matches EventSchedule::At(t) && t@.len() == 0)
            },
    {
        let is_every: bool = !self.is_one_shot();
        if is_every == every {
            return;
        }
        self.schedule = if every {
            blank
        } else {
            EventSchedule::At(String::new())
        };
    }

    /// Set the time at which the event runs once.
    pub fn set_at(&mut self, v: &str)
        ensures
            final(self).schedule matches EventSchedule::At(t) && t@ == trim(v@),
            *final(self) == (EventInfo { schedule: final(self).schedule, ..*old(self) }),
    {
        self.schedule = EventSchedule::At(trimmed(v));
    }

    /// Set how many units an interval has. An event that runs once has none.
    pub fn set_value(&mut self, v: &str)
        ensures
            match old(self).schedule {
                EventSchedule::At(_) => *final(self) == *old(self),
                EventSchedule::Every { value, unit, starts, ends } => {
                    &&& final(self).schedule is Every
                    &&& final(self).schedule->value@ == trim(v@)
                    &&& *final(self) == (EventInfo {
                        schedule: EventSchedule::Every {
                            value: final(self).schedule->value,
                            unit,
                            starts,
                            ends,
                        },
                        ..*old(self)
                    })
                },
            },
    {
        if let EventSchedule::Every { value, .. } = &mut self.schedule {
            *value = trimmed(v);
        }
    }

    /// Set the unit of an interval. An event that runs once has none.
    pub fn set_unit(&mut self, v: &String)
        ensures
            match old(self).schedule {
                EventSchedule::At(_) => *final(self) == *old(self),
                EventSchedule::Every { value, unit, starts, ends } => *final(self) == (EventInfo {
                    schedule: EventSchedule::Every { value, unit: *v, starts, ends },
                    ..*old(self)
                }),
            },
    {
        if let EventSchedule::Every { unit, .. } = &mut self.schedule {
            *unit = v.clone();
        }
    }

    /// Set when the intervals start; nothing where the field is empty.
    pub fn set_starts(&mut self, v: &str)
        ensures
            match old(self).schedule {
                EventSchedule::At(_) => *final(self) == *old(self),
                EventSchedule::Every { value, unit, starts, ends } => {
                    &&& final(self).schedule is Every
                    &&& text_of(final(self).schedule->starts) == some_text(v@)
                    &&& *final(self) == (EventInfo {
                        schedule: EventSchedule::Every {
                            value,
                            unit,
                            starts: final(self).schedule->starts,
                            ends,
                        },
                        ..*old(self)
                    })
                },
            },
    {
        if let EventSchedule::Every { starts, .. } = &mut self.schedule {
            *starts = text_or_none(v);
        }
    }

    /// Set when the intervals end; nothing where the field is empty.
    pub fn set_ends(&mut self, v: &str)
        ensures
            match old(self).schedule {
                EventSchedule::At(_) => *final(self) == *old(self),
                EventSchedule::Every { value, unit, starts, ends } => {
                    &&& final(self).schedule is Every
                    &&& text_of(final(self).schedule->ends) == some_text(v@)
                    &&& *final(self) == (EventInfo {
                        schedule: EventSchedule::Every {
                            value,
                            unit,
                            starts,
                            ends: final(self).schedule->ends,
                        },
                        ..*old(self)
                    })
                },
            },
    {
        if let EventSchedule::Every { ends, .. } = &mut self.schedule {
            *ends = text_or_none(v);
        }
    }

    /// Set the event's name.
    pub fn set_name(&mut self, v: &str)
        ensures
            final(self).name@ == trim(v@),
            *final(self) == (EventInfo { name: final(self).name, ..*old(self) }),
    {
        self.name = trimmed(v);
    }

    /// Set the event's body, as it was typed.
    pub fn set_body(&mut self, v: &String)
        ensures
            *final(self) == (EventInfo { body: *v, ..*old(self) }),
    {
        self.body = v.clone();
    }

    /// Set the account whose rights the event runs with; none where the field is empty.
    pub fn set_definer(&mut self, v: &str)
        ensures
            text_of(final(self).definer) == some_text(v@),
            *final(self) == (EventInfo { definer: final(self).definer, ..*old(self) }),
    {
        self.definer = text_or_none(v);
    }

    /// Set the event's comment; none where the field is empty.
    pub fn set_comment(&mut self, v: &str)
        ensures
            text_of(final(self).comment) == some_text(v@),
            *final(self) == (EventInfo { comment: final(self).comment, ..*old(self) }),
    {
        self.comment = text_or_none(v);
    }

    /// The states that the form offers: to run or not, and the replica's where the event is in it.
    pub open spec fn states_offered(self) -> Seq<EventStatus> {
        if self.status == EventStatus::ReplicaDisabled {
            seq![EventStatus::Enabled, EventStatus::Disabled, EventStatus::ReplicaDisabled]
        } else {
            seq![EventStatus::Enabled, EventStatus::Disabled]
        }
    }

    /// The states that the form offers.
    pub fn status_choices(&self) -> (r: Vec<EventStatus>)
        ensures
            r@ == self.states_offered(),
            r@.contains(self.status),
    {
        let mut out: Vec<EventStatus> = Vec::new();
        out.push(EventStatus::Enabled);
        out.push(EventStatus::Disabled);
        if self.status == EventStatus::ReplicaDisabled {
            out.push(self.status);
        }
        assert(out@ =~= self.states_offered());
        proof {
            match self.status {
                EventStatus::Enabled => assert(out@[0] == self.status),
                EventStatus::Disabled => assert(out@[1] == self.status),
                EventStatus::ReplicaDisabled => assert(out@[2] == self.status),
            }
        }
        out
    }
}

/// What the fields of a schedule start with: the time of an event that runs once, or the interval
/// and the bounds of one that repeats.
pub struct ScheduleFields {
    pub at: String,
    pub value: String,
    pub unit: String,
    pub starts: String,
    pub ends: String,
}

/// A value's text, or nothing.
pub open spec fn text_or_empty(v: Option<String>) -> Seq<char> {
    match v {
        Some(t) => t@,
        None => Seq::empty(),
    }
}

/// A value's text, or nothing.
fn or_empty(v: &Option<String>) -> (r: String)
    ensures
        r@ == text_or_empty(*v),
{
    match v {
        Some(t) => t.clone(),
        None => String::new(),
    }
}

/// What the fields of a schedule start with. Those of the other shape start as a day's interval, or
/// empty.
pub fn schedule_form(s: &EventSchedule) -> (r: ScheduleFields)
    ensures
        match *s {
            EventSchedule::At(t) => {
                &&& r.at@ == t@
                &&& r.value@ == "1"@
                &&& r.unit@ == "DAY"@
                &&& r.starts@.len() == 0
                &&& r.ends@.len() == 0
            },
            EventSchedule::Every { value, unit, starts, ends } => {
                &&& r.at@.len() == 0
                &&& r.value@ == value@
                &&& r.unit@ == unit@
                &&& r.starts@ == text_or_empty(starts)
                &&& r.ends@ == text_or_empty(ends)
            },
        },
{
    match s {
        EventSchedule::At(t) => ScheduleFields {
            at: t.clone(),
            value: "1".to_owned(),
            unit: "DAY".to_owned(),
            starts: String::new(),
            ends: String::new(),
        },
        EventSchedule::Every { value, unit, starts, ends } => ScheduleFields {
            at: String::new(),
            value: value.clone(),
            unit: unit.clone(),
            starts: or_empty(starts),
            ends: or_empty(ends),
        },
    }
}

/// What the switch between the two shapes reads.
pub fn shape_label(every: bool) -> (r: &'static str)
    ensures
        r@ == if every {
            "Repeating"@
        } else {
            "Once"@
        },
{
    if every {
        "Repeating"
    } else {
        "Once"
    }
}

/// A state of an event with its label.
pub struct StatusChoice {
    pub status: EventStatus,
    pub label: String,
}

/// The first choice of this label.
pub open spec fn choice_named(choices: Seq<StatusChoice>, label: Seq<char>) -> Option<EventStatus>
    decreases choices.len(),
{
    if choices.len() == 0 {
        None
    } else if choices[0].label@ == label {
        Some(choices[0].status)
    } else {
        choice_named(choices.drop_first(), label)
    }
}

impl EventInfo {
    /// Set the state of the event to the choice of this label; a label that is no choice changes
    /// nothing.
    pub fn set_status(&mut self, choices: &Vec<StatusChoice>, label: &String)
        ensures
            *final(self) == match choice_named(choices@, label@) {
                Some(status) => (EventInfo { status, ..*old(self) }),
                None => *old(self),
            },
    {
        let mut i: usize = 0;
        assert(choices@.skip(0) == choices@);
        while i < choices.len()
            invariant
                *self == *old(self),
                i <= choices@.len(),
                choice_named(choices@, label@) == choice_named(choices@.skip(i as int), label@),
            decreases choices@.len() - i,
        {
            assert(choices@.skip(i as int).drop_first() == choices@.skip(i + 1));
            if choices[i].label == *label {
                self.status = choices[i].status;
                return;
            }
            i = i + 1;
        }
    }

    /// Set whether the event is kept once its last run is past.
    pub fn set_preserve(&mut self, on: bool)
        ensures
            *final(self) == (EventInfo { preserve: on, ..*old(self) }),
    {
        self.preserve = on;
    }
}

/// Whether a unit is among those that are proposed, whatever its case.
pub open spec fn is_proposed(units: Seq<String>, unit: Seq<char>) -> bool {
    exists|i: int| 0 <= i < units.len() && lower_text((#[trigger] units[i])@) == lower_text(unit)
}

/// The units that an interval can be given: those that are proposed, and the event's own where it is
/// none of them.
pub open spec fn units_offered(units: Seq<String>, unit: String) -> Seq<String> {
    if trim(unit@).len() > 0 && !is_proposed(units, unit@) {
        units.push(unit)
    } else {
        units
    }
}

/// The units that an interval can be given.
pub fn interval_units(units: Vec<String>, unit: &String) -> (r: Vec<String>)
    ensures
        r@ == units_offered(units@, *unit),
        trim(unit@).len() > 0 ==> is_proposed(r@, unit@),
{
    let mut out: Vec<String> = units;
    let mut known: bool = false;
    let mut i: usize = 0;
    while i < out.len()
        invariant
            i <= out@.len(),
            out@ == units@,
            known ==> is_proposed(out@, unit@),
            !known ==> forall|k: int|
                0 <= k < i ==> lower_text((#[trigger] out@[k])@) != lower_text(unit@),
        decreases out@.len() - i,
    {
        if same_ignoring_case(out[i].as_str(), unit.as_str()) {
            known = true;
        }
        i = i + 1;
    }
    if !trimmed(unit.as_str()).as_str().is_empty() && !known {
        out.push(unit.clone());
        assert(lower_text(out@[units@.len() as int]@) == lower_text(unit@));
    }
    out
}

/// The editor's title: the event it edits, or the place it creates one in.
pub open spec fn title_text(target: EventTarget, location: Seq<char>) -> Seq<char> {
    match target.current {
        Some(e) => "Edit event "@ + location + "."@ + e.name@,
        None => "Create event in "@ + location,
    }
}

/// The editor's title.
pub fn editor_title(target: &EventTarget, location: &str) -> (r: String)
    ensures
        r@ == title_text(*target, location@),
{
    match &target.current {
        Some(e) => {
            let mut out: String = "Edit event ".to_owned();
            out.append(location);
            out.append(".");
            out.append(e.name.as_str());
            out
        },
        None => {
            let mut out: String = "Create event in ".to_owned();
            out.append(location);
            out
        },
    }
}

/// What the editor's foot says: that the body is being read, that it came too late, what is wrong
/// with the draft, or how many changes it makes.
pub open spec fn footer_text(
    pending: bool,
    stale: bool,
    errs: Seq<String>,
    clash: Option<String>,
    n: nat,
) -> Seq<char> {
    if pending {
        "Reading the event's source…"@
    } else if stale {
        "The event's real source arrived after you started typing, so this Body is built on the catalogue's copy — which isn't what the server holds. Close and reopen to edit it."@
    } else if errs.len() > 0 {
        errs[0]@
    } else if clash is Some {
        clash->0@
    } else if n == 0 {
        "No changes"@
    } else if n == 1 {
        "1 change"@
    } else {
        digits(n) + " changes"@
    }
}

/// What the editor's foot says, and whether it says it as an error.
pub fn event_footer(
    pending: bool,
    stale: bool,
    errs: &Vec<String>,
    clash: &Option<String>,
    n: usize,
) -> (r: (String, bool))
    ensures
        r.0@ == footer_text(pending, stale, errs@, *clash, n as nat),
        r.1 == (!pending && (stale || errs@.len() > 0 || clash is Some)),
{
    if pending {
        return ("Reading the event's source…".to_owned(), false);
    }
    if stale {
        return (
            "The event's real source arrived after you started typing, so this Body is built on the catalogue's copy — which isn't what the server holds. Close and reopen to edit it.".to_owned(),
            true,
        );
    }
    if errs.len() > 0 {
        return (errs[0].clone(), true);
    }
    if let Some(c) = clash {
        return (c.clone(), true);
    }
    if n == 0 {
        ("No changes".to_owned(), false)
    } else if n == 1 {
        ("1 change".to_owned(), false)
    } else {
        let mut out: String = decimal(n as u128);
        out.append(" changes");
        (out, false)
    }
}

/// Whether the draft's statement can be previewed.
pub open spec fn is_ready(
    pending: bool,
    stale: bool,
    errs: Seq<String>,
    clash: Option<String>,
    n: nat,
) -> bool {
    !pending && !stale && errs.len() == 0 && clash is None && n > 0
}

/// Whether the draft's statement can be previewed: its body is the server's own, nothing is wrong
/// with it, and it changes anything.
pub fn can_preview(
    pending: bool,
    stale: bool,
    errs: &Vec<String>,
    clash: &Option<String>,
    n: usize,
) -> (r: bool)
    ensures
        r == is_ready(pending, stale, errs@, *clash, n as nat),
{
    !pending && !stale && errs.len() == 0 && clash.is_none() && n > 0
}

/// The preview is offered exactly where the foot counts changes; where it is not, the foot says why:
/// the body is being read or came too late, something is wrong, or nothing changed.
pub proof fn the_footer_says_why_not(
    pending: bool,
    stale: bool,
    errs: Seq<String>,
    clash: Option<String>,
    n: nat,
)
    ensures
        ({
            let says = footer_text(pending, stale, errs, clash, n);
            if is_ready(pending, stale, errs, clash, n) {
                says == if n == 1 {
                    "1 change"@
                } else {
                    digits(n) + " changes"@
                }
            } else {
                ||| pending && says == "Reading the event's source…"@
                ||| stale && says == footer_text(false, true, errs, clash, n)
                ||| errs.len() > 0 && says == errs[0]@
                ||| clash is Some && says == clash->0@
                ||| n == 0 && says == "No changes"@
            }
        }),
{
}

/// The names that are taken are those of the events in the schema, in the database's own list, in their
/// order; where that was not read, none is known.
pub proof fn the_names_in_a_schema_are_taken(events: Seq<EventName>, schema: Option<Seq<char>>, i: int, s: String)
    ensures
        0 <= i < events.len() && text_of(events[i].schema) == schema ==> names_in(events, schema).contains(
            events[i].name,
        ),
        names_in(events, schema).contains(s) ==> exists|k: int|
            0 <= k < events.len() && (#[trigger] events[k]).name == s && text_of(events[k].schema) == schema,
    decreases events.len(),
{
    if events.len() > 0 {
        let front = events.drop_last();
        the_names_in_a_schema_are_taken(front, schema, i, s);
        let before = names_in(front, schema);
        let now = names_in(events, schema);
        if 0 <= i < events.len() && text_of(events[i].schema) == schema {
            if i < front.len() {
                assert(front[i] == events[i]);
                let k = before.index_of(events[i].name);
                assert(now[k] == before[k]);
            } else {
                assert(now[now.len() - 1] == events[i].name);
            }
        }
        if now.contains(s) {
            let k = now.index_of(s);
            if k < before.len() {
                assert(before[k] == s);
                let j = choose|j: int|
                    0 <= j < front.len() && (#[trigger] front[j]).name == s && text_of(front[j].schema)
                        == schema;
                assert(events[j] == front[j]);
            } else {
                assert(events[events.len() - 1].name == s);
            }
        }
    }
}

/// The list that is looked into is that of the first database of the name; names of another database are
/// not taken here.
pub proof fn the_database_is_found_by_its_name(
    nodes: Seq<EventNode>,
    db: Seq<char>,
    schema: Option<Seq<char>>,
    k: int,
)
    requires
        0 <= k <= nodes.len() <= usize::MAX,
        forall|j: int| 0 <= j < k ==> (#[trigger] nodes[j]).database@ != db,
    ensures
        k < nodes.len() && nodes[k].database@ == db && nodes[k].events is Some ==> names_taken(
            nodes,
            db,
            schema,
        ) == names_in(nodes[k].events->0@, schema),
        k < nodes.len() && nodes[k].database@ == db && nodes[k].events is None ==> names_taken(
            nodes,
            db,
            schema,
        ).len() == 0,
        k == nodes.len() ==> names_taken(nodes, db, schema).len() == 0,
{
    lemma_event_node(nodes, db, 0, k);
}

proof fn lemma_event_node(nodes: Seq<EventNode>, db: Seq<char>, i: int, k: int)
    requires
        0 <= i <= k <= nodes.len() <= usize::MAX,
        forall|j: int| i <= j < k ==> (#[trigger] nodes[j]).database@ != db,
    ensures
        event_node(nodes, db, i) == event_node(nodes, db, k),
    decreases k - i,
{
    if i < k {
        lemma_event_node(nodes, db, i + 1, k);
    }
}

/// What a read finds goes into the event as the server holds it; the draft takes its body over only where
/// it is adopted, and what the user typed is never replaced otherwise.
pub proof fn what_was_typed_is_never_replaced(
    before: EventEditor,
    session: u64,
    name: Seq<char>,
    asked: Seq<char>,
    src: Option<EventSource>,
    outcome: SourceOutcome,
    after: EventEditor,
)
    requires
        before.source_came(session, name, asked, src, outcome, after),
    ensures
        outcome != SourceOutcome::Adopted ==> after.body == before.body && after.draft.body
            == before.draft.body,
        session != before.session || asked != name ==> after == before,
        session == before.session && asked == name ==> !after.source_pending,
        session == before.session && asked == name && src is Some ==> {
            &&& after.body_stale <==> outcome == SourceOutcome::Stale
            &&& after.draft.session@ == src->0.session@
            &&& outcome == SourceOutcome::Adopted && src->0.body is Some ==> after.body == src->0.body->0
                && after.draft.body == src->0.body->0
            &&& before.target is Some && before.target->0.current is Some && src->0.body is Some
                ==> after.target is Some && after.target->0.current is Some
                && after.target->0.current->0.body == src->0.body->0
        },
        after.draft.name == before.draft.name,
        after.draft.schedule == before.draft.schedule,
        after.session == before.session,
{
}

/// A field that is left blank sets nothing; any other sets its text, without the white space around it.
pub proof fn a_blank_field_sets_nothing(s: Seq<char>)
    ensures
        trim(s).len() == 0 ==> some_text(s) is None,
        trim(s).len() > 0 ==> some_text(s) == Some(trim(s)),
{
}

/// The form offers to run an event or not, and a replica's state only where the event is in it.
pub proof fn a_replicas_state_is_offered_to_its_own(e: EventInfo)
    ensures
        e.states_offered().contains(EventStatus::Enabled),
        e.states_offered().contains(EventStatus::Disabled),
        e.states_offered().contains(EventStatus::ReplicaDisabled) <==> e.status
            == EventStatus::ReplicaDisabled,
        e.states_offered().contains(e.status),
{
    let s = e.states_offered();
    assert(s[0] == EventStatus::Enabled);
    assert(s[1] == EventStatus::Disabled);
    if e.status == EventStatus::ReplicaDisabled {
        assert(s[2] == EventStatus::ReplicaDisabled);
    }
}

/// A label sets the state that it stands for, the first of the choices that has it.
pub proof fn a_label_sets_its_state(choices: Seq<StatusChoice>, label: Seq<char>, k: int)
    requires
        0 <= k <= choices.len(),
        forall|j: int| 0 <= j < k ==> (#[trigger] choices[j]).label@ != label,
    ensures
        k < choices.len() && choices[k].label@ == label ==> choice_named(choices, label) == Some(
            choices[k].status,
        ),
        k == choices.len() ==> choice_named(choices, label) is None,
    decreases k,
{
    if k > 0 {
        let rest = choices.drop_first();
        assert(choices[0].label@ != label);
        assert forall|j: int| 0 <= j < k - 1 implies (#[trigger] rest[j]).label@ != label by {
            assert(rest[j] == choices[j + 1]);
        }
        a_label_sets_its_state(rest, label, k - 1);
        if k < choices.len() {
            assert(rest[k - 1] == choices[k]);
        }
    }
}

/// Every unit that is proposed is offered, in its place; the event's own comes behind them where it is
/// none of them, and no other does.
pub proof fn the_events_own_unit_is_offered(units: Seq<String>, unit: String, i: int)
    ensures
        0 <= i < units.len() ==> units_offered(units, unit)[i] == units[i],
        units_offered(units, unit).len() <= units.len() + 1,
        units_offered(units, unit).len() > units.len() ==> units_offered(units, unit).last() == unit
            && trim(unit@).len() > 0 && forall|k: int|
            0 <= k < units.len() ==> lower_text((#[trigger] units[k])@) != lower_text(unit@),
        trim(unit@).len() > 0 && (forall|k: int|
            0 <= k < units.len() ==> lower_text((#[trigger] units[k])@) != lower_text(unit@))
            ==> units_offered(units, unit).len() == units.len() + 1,
{
}

/// The editor was opened with the body of the event that the server holds, and with none where it
/// creates one.
pub proof fn the_editor_opens_with_the_servers_body(e: EventEditor)
    ensures
        e.target is None ==> e.opened_with().len() == 0,
        e.target is Some && e.target->0.current is None ==> e.opened_with().len() == 0,
        e.target is Some && e.target->0.current is Some ==> e.opened_with()
            == e.target->0.current->0.body@,
{
}

/// The editor's title says which event is edited, or where one is created.
pub proof fn the_title_names_the_event(target: EventTarget, location: Seq<char>)
    ensures
        target.current is Some ==> title_text(target, location) == "Edit event "@ + location + "."@
            + target.current->0.name@,
        target.current is None ==> title_text(target, location) == "Create event in "@ + location,
{
}

/// A field without a value is shown empty, one with a value as it is.
pub proof fn a_field_is_shown_as_it_is(v: Option<String>)
    ensures
        v is None ==> text_or_empty(v).len() == 0,
        v is Some ==> text_or_empty(v) == v->0@,
{
}

/// A read that found no source ends the wait and changes nothing else.
pub proof fn a_source_that_was_not_found_changes_nothing(
    before: EventEditor,
    session: u64,
    name: Seq<char>,
    outcome: SourceOutcome,
    after: EventEditor,
)
    requires
        before.source_came(session, name, name, None, outcome, after),
        session == before.session,
    ensures
        !after.source_pending,
        after.draft == before.draft && after.body == before.body && after.target == before.target,
        after.body_stale == before.body_stale && after.error == before.error,
{
}

/// A source says nothing but what it is: the draft's other fields stay, and so does the server's copy
/// but for its body and its session.
pub proof fn a_source_leaves_the_other_fields(
    before: EventEditor,
    session: u64,
    name: Seq<char>,
    asked: Seq<char>,
    src: Option<EventSource>,
    outcome: SourceOutcome,
    after: EventEditor,
)
    requires
        before.source_came(session, name, asked, src, outcome, after),
    ensures
        after.draft.status == before.draft.status,
        after.draft.preserve == before.draft.preserve,
        after.draft.definer == before.draft.definer,
        after.draft.comment == before.draft.comment,
        after.draft.schema == before.draft.schema,
        after.error == before.error && after.previewing == before.previewing,
        after.target is Some <==> before.target is Some,
        before.target is Some ==> after.target->0.conn_id == before.target->0.conn_id
            && after.target->0.database == before.target->0.database && (after.target->0.current is Some
            <==> before.target->0.current is Some),
        before.target is Some && before.target->0.current is Some ==> after.target->0.current->0.name
            == before.target->0.current->0.name && after.target->0.current->0.schedule
            == before.target->0.current->0.schedule,
{
}

/// The footer says the first thing that stands in the way: the source that is still read, one that came
/// too late, an error of the form, a name that is taken, and that nothing was changed.
pub proof fn the_footer_says_the_first_thing(
    errs: Seq<String>,
    clash: Option<String>,
    n: nat,
    stale: bool,
)
    ensures
        footer_text(true, stale, errs, clash, n) == "Reading the event's source…"@,
        footer_text(false, true, errs, clash, n)
            == "The event's real source arrived after you started typing, so this Body is built on the catalogue's copy — which isn't what the server holds. Close and reopen to edit it."@,
        errs.len() > 0 ==> footer_text(false, false, errs, clash, n) == errs[0]@,
        errs.len() == 0 && clash is Some ==> footer_text(false, false, errs, clash, n) == clash->0@,
        errs.len() == 0 && clash is None && n == 0 ==> footer_text(false, false, errs, clash, n)
            == "No changes"@,
        errs.len() == 0 && clash is None && n == 1 ==> footer_text(false, false, errs, clash, n)
            == "1 change"@,
        errs.len() == 0 && clash is None && n > 1 ==> footer_text(false, false, errs, clash, n) == digits(
            n,
        ) + " changes"@,
        is_ready(false, false, errs, clash, n) <==> errs.len() == 0 && clash is None && n > 0,
        !is_ready(true, stale, errs, clash, n),
        !is_ready(false, true, errs, clash, n),
{
}

/// The names that are taken are listed in the order of the events.
pub proof fn names_are_listed_in_order(events: Seq<EventName>, schema: Option<Seq<char>>, i: int)
    requires
        0 <= i < events.len(),
        text_of(events[i].schema) == schema,
    ensures
        ({
            let front = names_in(events.take(i), schema);
            let all = names_in(events, schema);
            &&& front.len() < all.len()
            &&& all.take(front.len() as int) == front
            &&& all[front.len() as int] == events[i].name
        }),
    decreases events.len(),
{
    let front = names_in(events.take(i), schema);
    let all = names_in(events, schema);
    if i == events.len() - 1 {
        assert(events.take(i) =~= events.drop_last());
        assert(all.take(front.len() as int) =~= front);
    } else {
        names_are_listed_in_order(events.drop_last(), schema, i);
        assert(events.drop_last().take(i) =~= events.take(i));
        let before = names_in(events.drop_last(), schema);
        assert(all.take(front.len() as int) =~= before.take(front.len() as int));
    }
}

} // verus!
