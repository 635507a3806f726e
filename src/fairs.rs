//! Fairs with their days and events: assembly, registration and listing.

use vstd::prelude::*;

use crate::accounts::{key_index, AccountStore, UserSearchMode};
use crate::create;
use crate::credentials::new_object_id;
use crate::responses::CustomResponses;
use crate::users::{authorization_error, authorize, token_view};

verus! {

/// One day of a fair, with its opening hours.
pub struct FairDay {
    pub id: String,
    pub fair_id: String,
    pub date: String,
    pub created_at: String,
    pub updated_at: String,
    pub opening_time: String,
    pub closing_time: String,
}

/// An event on one day of a fair; `fair_day_id` names that day.
pub struct FairEvent {
    pub id: String,
    pub fair_day_id: String,
    pub name: String,
    pub date: String,
    pub description: String,
    pub location: String,
    pub start_time: String,
    pub end_time: String,
    pub created_at: String,
    pub updated_at: String,
}

pub struct Fair {
    pub id: String,
    pub name: String,
    pub location: String,
    pub start_date: String,
    pub end_date: String,
    pub created_at: String,
    pub updated_at: String,
    pub organizer_id: String,
    pub camper_spot_map: String,
}

/// The payload of a fair registration. The days' and events' identifiers
/// are local keys: an event names its day by the day's key here.
pub struct RegisterFairRequest {
    pub name: String,
    pub location: String,
    pub start_date: String,
    pub end_date: String,
    pub created_at: String,
    pub updated_at: String,
    pub fair_days: Vec<FairDay>,
    pub fair_events: Vec<FairEvent>,
    pub camper_spot_map: String,
}

/// Lists the fairs of one organizer, or all of them.
pub struct GetFairByOwnerQuery {
    pub id: Option<String>,
}

/// A fair stored together with its days and events.
pub struct FairRecord {
    pub fair: Fair,
    pub days: Vec<FairDay>,
    pub events: Vec<FairEvent>,
}

impl Fair {
    pub fn duplicate(&self) -> (r: Fair)
        ensures
            r == *self,
    {
        Fair {
            id: self.id.clone(),
            name: self.name.clone(),
            location: self.location.clone(),
            start_date: self.start_date.clone(),
            end_date: self.end_date.clone(),
            created_at: self.created_at.clone(),
            updated_at: self.updated_at.clone(),
            organizer_id: self.organizer_id.clone(),
            camper_spot_map: self.camper_spot_map.clone(),
        }
    }
}

/// The first position from `i` on whose day has the key `key`; the first
/// day when there is none.
pub open spec fn slot_from(days: Seq<FairDay>, key: Seq<char>, i: int) -> int
    decreases days.len() - i,
{
    if i < 0 || i >= days.len() {
        0
    } else if days[i].id@ == key {
        i
    } else {
        slot_from(days, key, i + 1)
    }
}

/// The day that an event refers to: the first day whose key is the event's
/// day reference, else the first day.
pub open spec fn day_slot(days: Seq<FairDay>, key: Seq<char>) -> int {
    slot_from(days, key, 0)
}

/// `out` is the day `inp` attached to the fair `fair_id`.
pub open spec fn day_matches(out: FairDay, inp: FairDay, fair_id: Seq<char>) -> bool {
    &&& out.fair_id@ == fair_id
    &&& out.date == inp.date
    &&& out.created_at == inp.created_at
    &&& out.updated_at == inp.updated_at
    &&& out.opening_time == inp.opening_time
    &&& out.closing_time == inp.closing_time
}

/// `out` is the event `inp` attached to the day `day_id`.
pub open spec fn event_matches(out: FairEvent, inp: FairEvent, day_id: Seq<char>) -> bool {
    &&& out.fair_day_id@ == day_id
    &&& out.name == inp.name
    &&& out.date == inp.date
    &&& out.description == inp.description
    &&& out.location == inp.location
    &&& out.start_time == inp.start_time
    &&& out.end_time == inp.end_time
    &&& out.created_at == inp.created_at
    &&& out.updated_at == inp.updated_at
}

/// `rec` is the fair `fair` with the given days and events, each attached
/// to it under a new identifier, every event to the day it refers to.
pub open spec fn assembled(
    rec: FairRecord,
    fair: Fair,
    days: Seq<FairDay>,
    events: Seq<FairEvent>,
) -> bool {
    &&& rec.fair == fair
    &&& rec.days@.len() == days.len()
    &&& rec.events@.len() == events.len()
    &&& forall|i: int| 0 <= i < days.len() ==> day_matches(#[trigger] rec.days@[i], days[i], fair.id@)
    &&& forall|j: int|
        0 <= j < events.len() ==> event_matches(
            #[trigger] rec.events@[j],
            events[j],
            rec.days@[day_slot(days, events[j].fair_day_id@)].id@,
        )
}

/// Every day belongs to the record's fair, and every event refers to one
/// of the record's days.
pub open spec fn record_consistent(rec: FairRecord) -> bool {
    &&& forall|i: int| 0 <= i < rec.days@.len() ==> (#[trigger] rec.days@[i]).fair_id@ == rec.fair.id@
    &&& forall|j: int| 0 <= j < rec.events@.len() ==> #[trigger] refers_to_day(rec, j)
}

/// The `j`-th event of `rec` refers to one of the record's days.
pub open spec fn refers_to_day(rec: FairRecord, j: int) -> bool {
    exists|i: int| 0 <= i < rec.days@.len() && rec.events@[j].fair_day_id@ == #[trigger] rec.days@[i].id@
}

/// The text of each identifier.
pub open spec fn views(s: Seq<String>) -> Seq<Seq<char>> {
    s.map_values(|x: String| x@)
}

pub open spec fn day_ids_of(days: Seq<FairDay>) -> Seq<Seq<char>> {
    days.map_values(|d: FairDay| d.id@)
}

pub open spec fn event_ids_of(events: Seq<FairEvent>) -> Seq<Seq<char>> {
    events.map_values(|e: FairEvent| e.id@)
}

/// Every identifier that a record holds: the fair's, then its days', then
/// its events'.
pub open spec fn record_ids(rec: FairRecord) -> Seq<Seq<char>> {
    seq![rec.fair.id@] + day_ids_of(rec.days@) + event_ids_of(rec.events@)
}

/// The identifiers (local keys) that a request's days and events came with.
pub open spec fn client_ids(days: Seq<FairDay>, events: Seq<FairEvent>) -> Seq<Seq<char>> {
    day_ids_of(days) + event_ids_of(events)
}

/// Every identifier held by the stored records, in stored order.
pub open spec fn store_ids(recs: Seq<FairRecord>) -> Seq<Seq<char>>
    decreases recs.len(),
{
    if recs.len() == 0 {
        Seq::empty()
    } else {
        store_ids(recs.drop_last()) + record_ids(recs.last())
    }
}

/// The identifiers that `rec` gave its days and events are its own: all of
/// the record's identifiers differ from one another, and none of the
/// children's is one that the request came with.
pub open spec fn fresh_children(rec: FairRecord, days: Seq<FairDay>, events: Seq<FairEvent>) -> bool {
    &&& record_ids(rec).no_duplicates()
    &&& forall|i: int|
        0 <= i < rec.days@.len() ==> !client_ids(days, events).contains(#[trigger] rec.days@[i].id@)
    &&& forall|j: int|
        0 <= j < rec.events@.len() ==> !client_ids(days, events).contains(
            #[trigger] rec.events@[j].id@,
        )
}

pub proof fn lemma_concat_contains(a: Seq<Seq<char>>, b: Seq<Seq<char>>, x: Seq<char>)
    ensures
        (a + b).contains(x) <==> a.contains(x) || b.contains(x),
{
    if a.contains(x) {
        let i = choose|i: int| 0 <= i < a.len() && a[i] == x;
        assert((a + b)[i] == x);
    }
    if b.contains(x) {
        let i = choose|i: int| 0 <= i < b.len() && b[i] == x;
        assert((a + b)[a.len() + i] == x);
    }
    if (a + b).contains(x) {
        let i = choose|i: int| 0 <= i < (a + b).len() && (a + b)[i] == x;
        if i < a.len() {
            assert(a[i] == x);
        } else {
            assert(b[i - a.len()] == x);
        }
    }
}

pub proof fn lemma_concat_no_duplicates(a: Seq<Seq<char>>, b: Seq<Seq<char>>)
    requires
        a.no_duplicates(),
        b.no_duplicates(),
        forall|x: Seq<char>| b.contains(x) ==> !a.contains(x),
    ensures
        (a + b).no_duplicates(),
{
    let c = a + b;
    assert forall|i: int, j: int| 0 <= i < c.len() && 0 <= j < c.len() && i != j implies c[i]
        != c[j] by {
        if i < a.len() && j >= a.len() {
            assert(b[j - a.len()] == c[j]);
            assert(a.contains(c[i]));
            assert(b.contains(c[j]));
        } else if j < a.len() && i >= a.len() {
            assert(b[i - a.len()] == c[i]);
            assert(a.contains(c[j]));
            assert(b.contains(c[i]));
        } else if i >= a.len() && j >= a.len() {
            assert(b[i - a.len()] == c[i] && b[j - a.len()] == c[j]);
        }
    }
}

/// Whether no two of `ids` are equal.
pub fn distinct(ids: &Vec<String>) -> (r: bool)
    ensures
        r == views(ids@).no_duplicates(),
{
    let n = ids.len();
    let mut i: usize = 0;
    while i < n
        invariant
            n == ids@.len(),
            i <= n,
            forall|a: int, b: int| 0 <= a < i && 0 <= b < n && a != b ==> ids@[a]@ != ids@[b]@,
        decreases n - i,
    {
        let mut j: usize = 0;
        while j < n
            invariant
                n == ids@.len(),
                i < n,
                j <= n,
                forall|a: int, b: int| 0 <= a < i && 0 <= b < n && a != b ==> ids@[a]@ != ids@[b]@,
                forall|b: int| 0 <= b < j && b != i ==> ids@[i as int]@ != ids@[b]@,
            decreases n - j,
        {
            if j != i && ids[i].eq(&ids[j]) {
                assert(views(ids@)[i as int] == views(ids@)[j as int]);
                return false;
            }
            j = j + 1;
        }
        i = i + 1;
    }
    assert forall|a: int, b: int|
        0 <= a < views(ids@).len() && 0 <= b < views(ids@).len() && a != b implies views(ids@)[a]
        != views(ids@)[b] by {
        if a < b {
            assert(ids@[a]@ != ids@[b]@);
        } else {
            assert(ids@[b]@ != ids@[a]@);
        }
    }
    true
}

/// Whether `x` is one of `ids`.
pub fn contains_id(ids: &Vec<String>, x: &String) -> (r: bool)
    ensures
        r == views(ids@).contains(x@),
{
    let mut i: usize = 0;
    while i < ids.len()
        invariant
            i <= ids@.len(),
            forall|k: int| 0 <= k < i ==> ids@[k]@ != x@,
        decreases ids@.len() - i,
    {
        if ids[i].eq(x) {
            assert(views(ids@)[i as int] == x@);
            return true;
        }
        i = i + 1;
    }
    assert forall|k: int| 0 <= k < views(ids@).len() implies views(ids@)[k] != x@ by {
        assert(ids@[k]@ != x@);
    }
    false
}

/// The identifiers that a record holds, in the order of `record_ids`.
pub fn record_id_list(rec: &FairRecord) -> (r: Vec<String>)
    ensures
        views(r@) == record_ids(*rec),
{
    let mut out: Vec<String> = Vec::new();
    out.push(rec.fair.id.clone());
    let mut i: usize = 0;
    while i < rec.days.len()
        invariant
            i <= rec.days@.len(),
            out@.len() == 1 + i,
            out@[0]@ == rec.fair.id@,
            forall|k: int| 0 <= k < i ==> (#[trigger] out@[k + 1])@ == rec.days@[k].id@,
        decreases rec.days@.len() - i,
    {
        out.push(rec.days[i].id.clone());
        i = i + 1;
    }
    let nd = rec.days.len();
    let mut j: usize = 0;
    while j < rec.events.len()
        invariant
            nd == rec.days@.len(),
            j <= rec.events@.len(),
            out@.len() == 1 + nd + j,
            out@[0]@ == rec.fair.id@,
            forall|k: int| 0 <= k < nd ==> (#[trigger] out@[k + 1])@ == rec.days@[k].id@,
            forall|k: int| 0 <= k < j ==> (#[trigger] out@[k + 1 + nd])@ == rec.events@[k].id@,
        decreases rec.events@.len() - j,
    {
        out.push(rec.events[j].id.clone());
        j = j + 1;
    }
    assert(views(out@) =~= record_ids(*rec)) by {
        let v = views(out@);
        let w = record_ids(*rec);
        assert forall|k: int| 0 <= k < v.len() implies v[k] == w[k] by {
            if k == 0 {
            } else if k <= nd {
                assert(out@[(k - 1) + 1]@ == rec.days@[k - 1].id@);
            } else {
                assert(out@[(k - 1 - nd) + 1 + nd]@ == rec.events@[k - 1 - nd].id@);
            }
        }
    }
    out
}

/// The identifiers that the request's days and events came with, in the
/// order of `client_ids`.
pub fn client_id_list(days: &Vec<FairDay>, events: &Vec<FairEvent>) -> (r: Vec<String>)
    ensures
        views(r@) == client_ids(days@, events@),
{
    let mut out: Vec<String> = Vec::new();
    let mut i: usize = 0;
    while i < days.len()
        invariant
            i <= days@.len(),
            out@.len() == i,
            forall|k: int| 0 <= k < i ==> (#[trigger] out@[k])@ == days@[k].id@,
        decreases days@.len() - i,
    {
        out.push(days[i].id.clone());
        i = i + 1;
    }
    let nd = days.len();
    let mut j: usize = 0;
    while j < events.len()
        invariant
            nd == days@.len(),
            j <= events@.len(),
            out@.len() == nd + j,
            forall|k: int| 0 <= k < nd ==> (#[trigger] out@[k])@ == days@[k].id@,
            forall|k: int| 0 <= k < j ==> (#[trigger] out@[k + nd])@ == events@[k].id@,
        decreases events@.len() - j,
    {
        out.push(events[j].id.clone());
        j = j + 1;
    }
    assert(views(out@) =~= client_ids(days@, events@)) by {
        let v = views(out@);
        let w = client_ids(days@, events@);
        assert forall|k: int| 0 <= k < v.len() implies v[k] == w[k] by {
            if k >= nd {
                assert(out@[(k - nd) + nd]@ == events@[k - nd].id@);
            }
        }
    }
    out
}

pub proof fn lemma_slot_in_range(days: Seq<FairDay>, key: Seq<char>, i: int)
    requires
        days.len() > 0,
        0 <= i,
    ensures
        0 <= slot_from(days, key, i) < days.len(),
    decreases days.len() - i,
{
    if i < days.len() && days[i].id@ != key {
        lemma_slot_in_range(days, key, i + 1);
    }
}

/// The position of the day that the reference `key` names.
pub fn find_slot(days: &Vec<FairDay>, key: &String) -> (r: usize)
    requires
        days@.len() > 0,
    ensures
        r == day_slot(days@, key@),
        r < days@.len(),
{
    let mut i: usize = 0;
    while i < days.len()
        invariant
            i <= days@.len(),
            day_slot(days@, key@) == slot_from(days@, key@, i as int),
        decreases days@.len() - i,
    {
        if days[i].id.eq(key) {
            return i;
        }
        i = i + 1;
    }
    0
}

/// The identifiers handed to `link`: the fair's, then the days', then the
/// events'.
pub open spec fn given_ids(fair_id: Seq<char>, day_ids: Seq<String>, event_ids: Seq<String>) -> Seq<
    Seq<char>,
> {
    seq![fair_id] + views(day_ids) + views(event_ids)
}

/// Identifiers that a new record can take: no two alike, and none for a day
/// or an event that the request itself came with.
pub open spec fn ids_usable(ids: Seq<Seq<char>>, client: Seq<Seq<char>>) -> bool {
    &&& ids.no_duplicates()
    &&& forall|t: int| 1 <= t < ids.len() ==> !client.contains(#[trigger] ids[t])
}

/// Whether none of `ids` from position `from` on is one of `other`.
pub fn none_of(ids: &Vec<String>, from: usize, other: &Vec<String>) -> (r: bool)
    ensures
        r == (forall|t: int| from <= t < ids@.len() ==> !views(other@).contains(#[trigger] views(ids@)[t])),
{
    let mut t: usize = from;
    while t < ids.len()
        invariant
            from <= t,
            forall|u: int| from <= u < t ==> !views(other@).contains(#[trigger] views(ids@)[u]),
        decreases ids@.len() - t,
    {
        if contains_id(other, &ids[t]) {
            assert(views(ids@)[t as int] == ids@[t as int]@);
            return false;
        }
        t = t + 1;
    }
    true
}

/// Attaches the days and events to `fair` under the given identifiers.
/// Events without any day to refer to are refused; identifiers that repeat
/// one another or a key that the request came with are an internal error.
pub fn link(
    fair: Fair,
    fair_days: Vec<FairDay>,
    fair_events: Vec<FairEvent>,
    day_ids: Vec<String>,
    event_ids: Vec<String>,
) -> (r: Result<FairRecord, CustomResponses>)
    requires
        day_ids@.len() == fair_days@.len(),
        event_ids@.len() == fair_events@.len(),
    ensures
        fair_days@.len() == 0 && fair_events@.len() > 0 ==> r is Err && r->Err_0
            == CustomResponses::InvalidRequest,
        !(fair_days@.len() == 0 && fair_events@.len() > 0) ==> (r is Ok <==> ids_usable(
            given_ids(fair.id@, day_ids@, event_ids@),
            client_ids(fair_days@, fair_events@),
        )),
        !(fair_days@.len() == 0 && fair_events@.len() > 0) && r is Err ==> r->Err_0
            == CustomResponses::InternalServerError,
        r is Ok ==> assembled(r->Ok_0, fair, fair_days@, fair_events@) && record_consistent(
            r->Ok_0,
        ) && fresh_children(r->Ok_0, fair_days@, fair_events@),
        r is Ok ==> record_ids(r->Ok_0) == given_ids(fair.id@, day_ids@, event_ids@),
{
    if fair_days.len() == 0 && fair_events.len() > 0 {
        return Err(CustomResponses::InvalidRequest);
    }
    let mut days: Vec<FairDay> = Vec::new();
    let mut i: usize = 0;
    while i < fair_days.len()
        invariant
            i <= fair_days@.len(),
            day_ids@.len() == fair_days@.len(),
            days@.len() == i,
            forall|k: int|
                0 <= k < i ==> day_matches(#[trigger] days@[k], fair_days@[k], fair.id@)
                    && days@[k].id@ == day_ids@[k]@,
        decreases fair_days@.len() - i,
    {
        let d = &fair_days[i];
        days.push(
            FairDay {
                id: day_ids[i].clone(),
                fair_id: fair.id.clone(),
                date: d.date.clone(),
                created_at: d.created_at.clone(),
                updated_at: d.updated_at.clone(),
                opening_time: d.opening_time.clone(),
                closing_time: d.closing_time.clone(),
            },
        );
        i = i + 1;
    }
    let mut events: Vec<FairEvent> = Vec::new();
    let mut j: usize = 0;
    while j < fair_events.len()
        invariant
            j <= fair_events@.len(),
            event_ids@.len() == fair_events@.len(),
            fair_events@.len() > 0 ==> fair_days@.len() > 0,
            days@.len() == fair_days@.len(),
            events@.len() == j,
            forall|k: int|
                0 <= k < j ==> event_matches(
                    #[trigger] events@[k],
                    fair_events@[k],
                    days@[day_slot(fair_days@, fair_events@[k].fair_day_id@)].id@,
                ) && events@[k].id@ == event_ids@[k]@ && 0 <= day_slot(
                    fair_days@,
                    fair_events@[k].fair_day_id@,
                ) < days@.len(),
        decreases fair_events@.len() - j,
    {
        let e = &fair_events[j];
        let slot = find_slot(&fair_days, &e.fair_day_id);
        events.push(
            FairEvent {
                id: event_ids[j].clone(),
                fair_day_id: days[slot].id.clone(),
                name: e.name.clone(),
                date: e.date.clone(),
                description: e.description.clone(),
                location: e.location.clone(),
                start_time: e.start_time.clone(),
                end_time: e.end_time.clone(),
                created_at: e.created_at.clone(),
                updated_at: e.updated_at.clone(),
            },
        );
        j = j + 1;
    }
    let rec = FairRecord { fair, days, events };
    proof {
        assert forall|k: int| 0 <= k < rec.events@.len() implies #[trigger] refers_to_day(rec, k) by {
            let s = day_slot(fair_days@, fair_events@[k].fair_day_id@);
            assert(rec.days@[s].id@ == rec.events@[k].fair_day_id@);
        }
        assert(rec.days@ == days@);
        assert(record_ids(rec) =~= given_ids(rec.fair.id@, day_ids@, event_ids@));
    }
    let ids = record_id_list(&rec);
    let client = client_id_list(&fair_days, &fair_events);
    if !distinct(&ids) || !none_of(&ids, 1, &client) {
        return Err(CustomResponses::InternalServerError);
    }
    proof {
        let all = record_ids(rec);
        let c = client_ids(fair_days@, fair_events@);
        assert forall|i: int| 0 <= i < rec.days@.len() implies !c.contains(
            #[trigger] rec.days@[i].id@,
        ) by {
            assert(all[1 + i] == rec.days@[i].id@);
            assert(views(ids@)[1 + i] == all[1 + i]);
        }
        assert forall|j: int| 0 <= j < rec.events@.len() implies !c.contains(
            #[trigger] rec.events@[j].id@,
        ) by {
            assert(all[1 + rec.days@.len() + j] == rec.events@[j].id@);
            assert(views(ids@)[1 + rec.days@.len() + j] == all[1 + rec.days@.len() + j]);
        }
    }
    Ok(rec)
}

/// Attaches the days and events to `fair`, each under a freshly drawn
/// identifier. Events without any day are refused; drawn identifiers that
/// repeat one another or a key that the request came with are an internal
/// error.
pub fn assemble(fair: Fair, fair_days: Vec<FairDay>, fair_events: Vec<FairEvent>) -> (r: Result<
    FairRecord,
    CustomResponses,
>)
    ensures
        fair_days@.len() == 0 && fair_events@.len() > 0 ==> r is Err && r->Err_0
            == CustomResponses::InvalidRequest,
        !(fair_days@.len() == 0 && fair_events@.len() > 0) && r is Err ==> r->Err_0
            == CustomResponses::InternalServerError,
        r is Ok ==> assembled(r->Ok_0, fair, fair_days@, fair_events@) && record_consistent(
            r->Ok_0,
        ) && fresh_children(r->Ok_0, fair_days@, fair_events@),
{
    let mut day_ids: Vec<String> = Vec::new();
    while day_ids.len() < fair_days.len()
        invariant
            day_ids@.len() <= fair_days@.len(),
        decreases fair_days@.len() - day_ids@.len(),
    {
        day_ids.push(new_object_id());
    }
    let mut event_ids: Vec<String> = Vec::new();
    while event_ids.len() < fair_events.len()
        invariant
            event_ids@.len() <= fair_events@.len(),
        decreases fair_events@.len() - event_ids@.len(),
    {
        event_ids.push(new_object_id());
    }
    link(fair, fair_days, fair_events, day_ids, event_ids)
}

/// `f` holds the fields of the request, owned by `organizer_id`.
pub open spec fn fair_from(f: Fair, req: RegisterFairRequest, organizer_id: Seq<char>) -> bool {
    &&& f.name == req.name
    &&& f.location == req.location
    &&& f.start_date == req.start_date
    &&& f.end_date == req.end_date
    &&& f.created_at == req.created_at
    &&& f.updated_at == req.updated_at
    &&& f.camper_spot_map == req.camper_spot_map
    &&& f.organizer_id@ == organizer_id
}

/// Splits a registration into the fair, under a fresh identifier and owned
/// by `organizer_id`, and its days and events as they were sent.
pub fn build_fair(request: RegisterFairRequest, organizer_id: String) -> (r: (
    Fair,
    Vec<FairDay>,
    Vec<FairEvent>,
))
    ensures
        fair_from(r.0, request, organizer_id@),
        r.0.id@.len() == 24,
        r.1 == request.fair_days,
        r.2 == request.fair_events,
{
    let fair = Fair {
        id: new_object_id(),
        name: request.name,
        location: request.location,
        start_date: request.start_date,
        end_date: request.end_date,
        created_at: request.created_at,
        updated_at: request.updated_at,
        organizer_id,
        camper_spot_map: request.camper_spot_map,
    };
    (fair, request.fair_days, request.fair_events)
}

/// The fair repository: every stored fair with its days and events.
pub struct FairStore {
    pub records: Vec<FairRecord>,
}

impl View for FairStore {
    type V = Seq<FairRecord>;

    open spec fn view(&self) -> Seq<FairRecord> {
        self.records@
    }
}

impl FairStore {
    /// Every record is consistent, and no identifier (of a fair, a day or
    /// an event) occurs twice in the whole store.
    pub open spec fn wf(&self) -> bool {
        &&& forall|k: int| 0 <= k < self@.len() ==> record_consistent(#[trigger] self@[k])
        &&& store_ids(self@).no_duplicates()
    }

    pub fn new() -> (r: FairStore)
        ensures
            r@ == Seq::<FairRecord>::empty(),
            r.wf(),
    {
        FairStore { records: Vec::new() }
    }

    pub fn len(&self) -> (r: usize)
        ensures
            r == self@.len(),
    {
        self.records.len()
    }

    /// Whether some stored fair, day or event has the identifier `id`.
    pub fn holds_id(&self, id: &String) -> (r: bool)
        ensures
            r == store_ids(self@).contains(id@),
    {
        let mut k: usize = 0;
        while k < self.records.len()
            invariant
                k <= self@.len(),
                forall|k2: int| 0 <= k2 < k ==> !(#[trigger] record_ids(self@[k2])).contains(id@),
            decreases self@.len() - k,
        {
            let ids = record_id_list(&self.records[k]);
            if contains_id(&ids, id) {
                proof {
                    lemma_store_contains(self@, id@);
                }
                return true;
            }
            k = k + 1;
        }
        proof {
            lemma_store_contains(self@, id@);
        }
        false
    }

    /// Whether some stored fair, day or event has one of the identifiers `ids`.
    pub fn holds_any(&self, ids: &Vec<String>) -> (r: bool)
        ensures
            r == !(forall|t: int|
                0 <= t < ids@.len() ==> !store_ids(self@).contains(#[trigger] views(ids@)[t])),
    {
        let mut t: usize = 0;
        while t < ids.len()
            invariant
                t <= ids@.len(),
                forall|u: int| 0 <= u < t ==> !store_ids(self@).contains(#[trigger] views(ids@)[u]),
            decreases ids@.len() - t,
        {
            if self.holds_id(&ids[t]) {
                assert(store_ids(self@).contains(views(ids@)[t as int]));
                return true;
            }
            t = t + 1;
        }
        false
    }

    /// Stores a record, unless two of its identifiers are alike or one of
    /// them is already stored; then the store is left as it was and the
    /// failure is an internal error. On success the fair's identifier is
    /// returned.
    pub fn insert_record(&mut self, rec: FairRecord) -> (r: Result<String, CustomResponses>)
        requires
            old(self).wf(),
            record_consistent(rec),
        ensures
            final(self).wf(),
            r is Ok <==> record_ids(rec).no_duplicates() && ids_new(old(self)@, rec),
            r is Ok ==> final(self)@ == old(self)@.push(rec) && r->Ok_0@ == rec.fair.id@,
            r is Err ==> r->Err_0 == CustomResponses::InternalServerError && final(self)@ == old(
                self,
            )@,
    {
        let ids = record_id_list(&rec);
        if !distinct(&ids) || self.holds_any(&ids) {
            return Err(CustomResponses::InternalServerError);
        }
        let id = rec.fair.id.clone();
        let ghost before = self@;
        self.records.push(rec);
        proof {
            assert forall|k: int| 0 <= k < self@.len() implies record_consistent(
                #[trigger] self@[k],
            ) by {
                if k < before.len() {
                    assert(self@[k] == before[k]);
                }
            }
            assert(self@.drop_last() == before);
            let fresh = record_ids(rec);
            assert forall|x: Seq<char>| fresh.contains(x) implies !store_ids(before).contains(x) by {
                let t = choose|t: int| 0 <= t < fresh.len() && fresh[t] == x;
                assert(views(ids@)[t] == x);
            }
            lemma_concat_no_duplicates(store_ids(before), fresh);
        }
        Ok(id)
    }
}

/// None of the identifiers of `rec` is held by the records `before`.
pub open spec fn ids_new(before: Seq<FairRecord>, rec: FairRecord) -> bool {
    forall|t: int|
        0 <= t < record_ids(rec).len() ==> !store_ids(before).contains(#[trigger] record_ids(rec)[t])
}

/// An identifier is stored exactly when some record holds it.
pub proof fn lemma_store_contains(recs: Seq<FairRecord>, x: Seq<char>)
    ensures
        store_ids(recs).contains(x) <==> exists|k: int|
            0 <= k < recs.len() && (#[trigger] record_ids(recs[k])).contains(x),
    decreases recs.len(),
{
    if recs.len() > 0 {
        let init = recs.drop_last();
        lemma_store_contains(init, x);
        lemma_concat_contains(store_ids(init), record_ids(recs.last()), x);
        if exists|k: int| 0 <= k < recs.len() && (#[trigger] record_ids(recs[k])).contains(x) {
            let k = choose|k: int| 0 <= k < recs.len() && (#[trigger] record_ids(recs[k])).contains(x);
            if k < init.len() {
                assert(init[k] == recs[k]);
            }
        }
        if exists|k: int| 0 <= k < init.len() && (#[trigger] record_ids(init[k])).contains(x) {
            let k = choose|k: int| 0 <= k < init.len() && (#[trigger] record_ids(init[k])).contains(x);
            assert(init[k] == recs[k]);
        }
    }
}

/// What a fair registration by the organizer `organizer_id` did, from the
/// records `before` to the records `after`, returning `r`: events without
/// days are refused; otherwise one record with identifiers of its own, none
/// of them stored before, is appended, or the registration fails as an
/// internal error and changes nothing.
pub open spec fn fair_registered(
    before: Seq<FairRecord>,
    after: Seq<FairRecord>,
    req: RegisterFairRequest,
    organizer_id: Seq<char>,
    r: Result<String, CustomResponses>,
) -> bool {
    if req.fair_days@.len() == 0 && req.fair_events@.len() > 0 {
        r == Err::<String, CustomResponses>(CustomResponses::InvalidRequest) && after == before
    } else {
        match r {
            Err(e) => e == CustomResponses::InternalServerError && after == before,
            Ok(id) => {
                &&& after == before.push(after.last())
                &&& after.last().fair.id@ == id@
                &&& fair_from(after.last().fair, req, organizer_id)
                &&& assembled(after.last(), after.last().fair, req.fair_days@, req.fair_events@)
                &&& fresh_children(after.last(), req.fair_days@, req.fair_events@)
                &&& ids_new(before, after.last())
            },
        }
    }
}

/// Registers a fair for the organizer whose token is `apikey`, and returns
/// the fair's identifier. The token is checked before anything else.
pub fn register_fair(
    accounts: &AccountStore,
    fairs: &mut FairStore,
    apikey: Option<&String>,
    request: RegisterFairRequest,
) -> (r: Result<String, CustomResponses>)
    requires
        accounts.wf(),
        old(fairs).wf(),
    ensures
        final(fairs).wf(),
        match authorization_error(accounts@, token_view(apikey), true) {
            Some(e) => r == Err::<String, CustomResponses>(e) && final(fairs)@ == old(fairs)@,
            None => fair_registered(
                old(fairs)@,
                final(fairs)@,
                request,
                accounts@[key_index(accounts@, token_view(apikey)->0, UserSearchMode::ApiKey)].id@,
                r,
            ),
        },
{
    let owner = match authorize(accounts, apikey, true) {
        Err(e) => return Err(e),
        Ok(u) => u.id.clone(),
    };
    let (fair, days, events) = build_fair(request, owner);
    create::fair(fairs, fair, days, events)
}

/// The fairs among `recs` that `owner` organizes, or all of them, in
/// stored order.
pub open spec fn owned_fairs(recs: Seq<FairRecord>, owner: Option<Seq<char>>) -> Seq<Fair>
    decreases recs.len(),
{
    if recs.len() == 0 {
        Seq::empty()
    } else {
        let rest = owned_fairs(recs.drop_last(), owner);
        let f = recs.last().fair;
        if owner is None || f.organizer_id@ == owner->0 {
            rest.push(f)
        } else {
            rest
        }
    }
}

pub open spec fn owner_view(id: Option<String>) -> Option<Seq<char>> {
    match id {
        Some(s) => Some(s@),
        None => None,
    }
}

/// Lists the stored fairs, of one organizer when the query names one.
pub fn get_all(db: &FairStore, query: &GetFairByOwnerQuery) -> (r: Vec<Fair>)
    ensures
        r@ == owned_fairs(db@, owner_view(query.id)),
{
    let mut out: Vec<Fair> = Vec::new();
    let mut k: usize = 0;
    while k < db.records.len()
        invariant
            k <= db@.len(),
            out@ == owned_fairs(db@.take(k as int), owner_view(query.id)),
        decreases db@.len() - k,
    {
        let f = &db.records[k].fair;
        let keep = match &query.id {
            None => true,
            Some(owner) => f.organizer_id.eq(owner),
        };
        proof {
            assert(db@.take(k + 1).drop_last() == db@.take(k as int));
        }
        if keep {
            out.push(f.duplicate());
        }
        k = k + 1;
    }
    proof {
        assert(db@.take(db@.len() as int) == db@);
    }
    out
}

} // verus!
