//! The check that what was decoded is what was encoded.

use crate::fuzz::round_trip::{
    completed, event_views, law_run_expects_what_it_writes, pool_views, run_ok, value_views,
    written, Expected, ExpectedEvent, ExpectedEventView, RunView,
};
use crate::fuzz::value::{same_frames, FieldValue, FieldValueView};
use crate::text::{decimal, decimal_text};
use vstd::prelude::*;

verus! {

/// An event that was decoded.
#[derive(Debug)]
pub struct DecodedEvent {
    pub timestamp: Option<u64>,
    pub values: Vec<FieldValue>,
}

#[verifier::ext_equal]
pub struct DecodedEventView {
    pub timestamp: Option<u64>,
    pub values: Seq<FieldValueView>,
}

impl View for DecodedEvent {
    type V = DecodedEventView;

    open spec fn view(&self) -> DecodedEventView {
        DecodedEventView { timestamp: self.timestamp, values: value_views(self.values@) }
    }
}

pub open spec fn decoded_views(events: Seq<DecodedEvent>) -> Seq<DecodedEventView> {
    events.map_values(|event: DecodedEvent| event@)
}

/// What the decoder's pool holds under an identifier.
pub open spec fn resolved_view(resolved: Option<Vec<u64>>) -> Option<Seq<u64>> {
    match resolved {
        Some(frames) => Some(frames@),
        None => None,
    }
}

pub open spec fn resolved_views(resolved: Seq<Option<Vec<u64>>>) -> Seq<Option<Seq<u64>>> {
    resolved.map_values(|frames: Option<Vec<u64>>| resolved_view(frames))
}

/// The first thing that differs.
#[derive(Clone, Copy, Debug, PartialEq, Eq, Structural)]
pub enum Mismatch {
    EventCount,
    MissingStack { id: u32 },
    StackFrames { id: u32 },
    Timestamp { event: usize, schema: usize },
    FieldCount { event: usize, schema: usize },
    Float { event: usize, field: usize },
    Field { event: usize, field: usize, schema: usize },
}

/// The first stack of the pool, from entry `i` on, that was not decoded as it was
/// encoded. Entry `i` of `resolved` is what the decoder holds under its identifier.
pub open spec fn stack_mismatch(
    pool: Seq<(u32, Seq<u64>)>,
    resolved: Seq<Option<Seq<u64>>>,
    i: int,
) -> Option<Mismatch>
    decreases pool.len() - i,
{
    if i < 0 || i >= pool.len() {
        None
    } else if i >= resolved.len() || resolved[i] is None {
        Some(Mismatch::MissingStack { id: pool[i].0 })
    } else if resolved[i] != Some(pool[i].1) {
        Some(Mismatch::StackFrames { id: pool[i].0 })
    } else {
        stack_mismatch(pool, resolved, i + 1)
    }
}

/// The first field of event `i`, from field `j` on, that was not decoded as it was
/// encoded.
pub open spec fn field_mismatch(
    expected: ExpectedEventView,
    decoded: Seq<FieldValueView>,
    i: int,
    j: int,
) -> Option<Mismatch>
    decreases expected.values.len() - j,
{
    if j < 0 || j >= expected.values.len() {
        None
    } else if expected.values[j] != decoded[j] {
        if expected.values[j] is F64 && decoded[j] is F64 {
            Some(Mismatch::Float { event: i as usize, field: j as usize })
        } else {
            Some(Mismatch::Field { event: i as usize, field: j as usize, schema: expected.schema })
        }
    } else {
        field_mismatch(expected, decoded, i, j + 1)
    }
}

/// What differs in event `i`.
pub open spec fn event_mismatch(
    expected: ExpectedEventView,
    decoded: DecodedEventView,
    i: int,
) -> Option<Mismatch> {
    if decoded.timestamp != Some(expected.timestamp) {
        Some(Mismatch::Timestamp { event: i as usize, schema: expected.schema })
    } else if decoded.values.len() != expected.values.len() {
        Some(Mismatch::FieldCount { event: i as usize, schema: expected.schema })
    } else {
        field_mismatch(expected, decoded.values, i, 0)
    }
}

/// What differs in the first event, from event `i` on, that was not decoded as it
/// was encoded.
pub open spec fn events_mismatch(
    expected: Seq<ExpectedEventView>,
    decoded: Seq<DecodedEventView>,
    i: int,
) -> Option<Mismatch>
    decreases expected.len() - i,
{
    if i < 0 || i >= expected.len() {
        None
    } else {
        match event_mismatch(expected[i], decoded[i], i) {
            Some(mismatch) => Some(mismatch),
            None => events_mismatch(expected, decoded, i + 1),
        }
    }
}

/// What differs: the number of events comes first, then the stacks of the pool,
/// then the events in their order.
pub open spec fn verdict(
    events: Seq<ExpectedEventView>,
    pool: Seq<(u32, Seq<u64>)>,
    decoded: Seq<DecodedEventView>,
    resolved: Seq<Option<Seq<u64>>>,
) -> Option<Mismatch> {
    if decoded.len() != events.len() {
        Some(Mismatch::EventCount)
    } else {
        match stack_mismatch(pool, resolved, 0) {
            Some(mismatch) => Some(mismatch),
            None => events_mismatch(events, decoded, 0),
        }
    }
}

fn check_fields(expected: &ExpectedEvent, decoded: &Vec<FieldValue>, i: usize) -> (res: Result<
    (),
    Mismatch,
>)
    requires
        expected.values@.len() == decoded@.len(),
    ensures
        match res {
            Ok(()) => field_mismatch(expected@, value_views(decoded@), i as int, 0) is None,
            Err(mismatch) => field_mismatch(expected@, value_views(decoded@), i as int, 0) == Some(
                mismatch,
            ),
        },
{
    let mut j: usize = 0;
    while j < expected.values.len()
        invariant
            j <= expected.values@.len(),
            expected.values@.len() == decoded@.len(),
            field_mismatch(expected@, value_views(decoded@), i as int, 0) == field_mismatch(
                expected@,
                value_views(decoded@),
                i as int,
                j as int,
            ),
        decreases expected.values.len() - j,
    {
        assert(expected@.values[j as int] == expected.values@[j as int]@);
        assert(value_views(decoded@)[j as int] == decoded@[j as int]@);
        if expected.values[j] != decoded[j] {
            return match (&expected.values[j], &decoded[j]) {
                (FieldValue::F64(_), FieldValue::F64(_)) => Err(
                    Mismatch::Float { event: i, field: j },
                ),
                _ => Err(Mismatch::Field { event: i, field: j, schema: expected.schema }),
            };
        }
        j = j + 1;
    }
    Ok(())
}

fn check_event(expected: &ExpectedEvent, decoded: &DecodedEvent, i: usize) -> (res: Result<
    (),
    Mismatch,
>)
    ensures
        match res {
            Ok(()) => event_mismatch(expected@, decoded@, i as int) is None,
            Err(mismatch) => event_mismatch(expected@, decoded@, i as int) == Some(mismatch),
        },
{
    let same_time: bool = match decoded.timestamp {
        Some(timestamp) => timestamp == expected.timestamp,
        None => false,
    };
    if !same_time {
        Err(Mismatch::Timestamp { event: i, schema: expected.schema })
    } else if decoded.values.len() != expected.values.len() {
        Err(Mismatch::FieldCount { event: i, schema: expected.schema })
    } else {
        check_fields(expected, &decoded.values, i)
    }
}

fn check_stacks(pool: &Vec<(u32, Vec<u64>)>, resolved: &Vec<Option<Vec<u64>>>) -> (res: Result<
    (),
    Mismatch,
>)
    ensures
        match res {
            Ok(()) => stack_mismatch(pool_views(pool@), resolved_views(resolved@), 0) is None,
            Err(mismatch) => stack_mismatch(pool_views(pool@), resolved_views(resolved@), 0)
                == Some(mismatch),
        },
{
    let mut i: usize = 0;
    while i < pool.len()
        invariant
            i <= pool@.len(),
            stack_mismatch(pool_views(pool@), resolved_views(resolved@), 0) == stack_mismatch(
                pool_views(pool@),
                resolved_views(resolved@),
                i as int,
            ),
        decreases pool.len() - i,
    {
        assert(pool_views(pool@)[i as int] == (pool@[i as int].0, pool@[i as int].1@));
        if i >= resolved.len() {
            return Err(Mismatch::MissingStack { id: pool[i].0 });
        }
        assert(resolved_views(resolved@)[i as int] == resolved_view(resolved@[i as int]));
        match &resolved[i] {
            Some(frames) => {
                if !same_frames(frames.as_slice(), pool[i].1.as_slice()) {
                    return Err(Mismatch::StackFrames { id: pool[i].0 });
                }
            },
            None => return Err(Mismatch::MissingStack { id: pool[i].0 }),
        }
        i = i + 1;
    }
    Ok(())
}

impl Expected {
    /// Checks what was decoded. `resolved` holds, for each entry of the pool, what
    /// the decoder's pool has under its identifier.
    pub fn check(&self, decoded: &Vec<DecodedEvent>, resolved: &Vec<Option<Vec<u64>>>) -> (res:
        Result<(), Mismatch>)
        ensures
            match res {
                Ok(()) => verdict(
                    event_views(self.events@),
                    pool_views(self.pool@),
                    decoded_views(decoded@),
                    resolved_views(resolved@),
                ) is None,
                Err(mismatch) => verdict(
                    event_views(self.events@),
                    pool_views(self.pool@),
                    decoded_views(decoded@),
                    resolved_views(resolved@),
                ) == Some(mismatch),
            },
    {
        if decoded.len() != self.events.len() {
            return Err(Mismatch::EventCount);
        }
        match check_stacks(&self.pool, resolved) {
            Err(mismatch) => return Err(mismatch),
            Ok(()) => {},
        }
        let mut i: usize = 0;
        while i < self.events.len()
            invariant
                i <= self.events@.len(),
                self.events@.len() == decoded@.len(),
                stack_mismatch(pool_views(self.pool@), resolved_views(resolved@), 0) is None,
                events_mismatch(event_views(self.events@), decoded_views(decoded@), 0)
                    == events_mismatch(
                    event_views(self.events@),
                    decoded_views(decoded@),
                    i as int,
                ),
            decreases self.events.len() - i,
        {
            assert(event_views(self.events@)[i as int] == self.events@[i as int]@);
            assert(decoded_views(decoded@)[i as int] == decoded@[i as int]@);
            match check_event(&self.events[i], &decoded[i], i) {
                Err(mismatch) => return Err(mismatch),
                Ok(()) => {},
            }
            i = i + 1;
        }
        Ok(())
    }
}

/// Everything was decoded as it was encoded.
pub open spec fn faithful(
    events: Seq<ExpectedEventView>,
    pool: Seq<(u32, Seq<u64>)>,
    decoded: Seq<DecodedEventView>,
    resolved: Seq<Option<Seq<u64>>>,
) -> bool {
    &&& decoded.len() == events.len()
    &&& forall|i: int|
        0 <= i < events.len() ==> (#[trigger] decoded[i]).timestamp == Some(events[i].timestamp)
            && decoded[i].values == events[i].values
    &&& pool.len() <= resolved.len()
    &&& forall|i: int| 0 <= i < pool.len() ==> #[trigger] resolved[i] == Some(pool[i].1)
}

proof fn lemma_stacks(pool: Seq<(u32, Seq<u64>)>, resolved: Seq<Option<Seq<u64>>>, i: int)
    requires
        0 <= i <= pool.len(),
    ensures
        stack_mismatch(pool, resolved, i) is None <==> (i < pool.len() ==> pool.len()
            <= resolved.len()) && forall|k: int|
            i <= k < pool.len() ==> #[trigger] resolved[k] == Some(pool[k].1),
    decreases pool.len() - i,
{
    if i < pool.len() {
        lemma_stacks(pool, resolved, i + 1);
        assert(resolved[i] == resolved[i]);
    }
}

proof fn lemma_fields(
    expected: ExpectedEventView,
    decoded: Seq<FieldValueView>,
    i: int,
    j: int,
)
    requires
        0 <= j <= expected.values.len(),
    ensures
        field_mismatch(expected, decoded, i, j) is None <==> forall|k: int|
            j <= k < expected.values.len() ==> #[trigger] decoded[k] == expected.values[k],
    decreases expected.values.len() - j,
{
    if j < expected.values.len() {
        lemma_fields(expected, decoded, i, j + 1);
        assert(decoded[j] == decoded[j]);
    }
}

proof fn lemma_event(expected: ExpectedEventView, decoded: DecodedEventView, i: int)
    ensures
        event_mismatch(expected, decoded, i) is None <==> decoded.timestamp == Some(
            expected.timestamp,
        ) && decoded.values == expected.values,
{
    lemma_fields(expected, decoded.values, i, 0);
    if event_mismatch(expected, decoded, i) is None {
        assert(decoded.values =~= expected.values);
    }
}

proof fn lemma_events(expected: Seq<ExpectedEventView>, decoded: Seq<DecodedEventView>, i: int)
    requires
        0 <= i <= expected.len(),
    ensures
        events_mismatch(expected, decoded, i) is None <==> forall|k: int|
            i <= k < expected.len() ==> (#[trigger] decoded[k]).timestamp == Some(
                expected[k].timestamp,
            ) && decoded[k].values == expected[k].values,
    decreases expected.len() - i,
{
    if i < expected.len() {
        lemma_events(expected, decoded, i + 1);
        lemma_event(expected[i], decoded[i], i);
        assert(decoded[i] == decoded[i]);
    }
}

/// The check finds nothing exactly where everything was decoded as it was encoded:
/// as many events, each with its timestamp and its values, and every stack of the
/// pool under its identifier.
pub proof fn law_check_passes_iff_faithful(
    events: Seq<ExpectedEventView>,
    pool: Seq<(u32, Seq<u64>)>,
    decoded: Seq<DecodedEventView>,
    resolved: Seq<Option<Seq<u64>>>,
)
    ensures
        verdict(events, pool, decoded, resolved) is None <==> faithful(
            events,
            pool,
            decoded,
            resolved,
        ),
{
    lemma_stacks(pool, resolved, 0);
    lemma_events(events, decoded, 0);
}

/// What is said of a mismatch.
pub open spec fn mismatch_text(mismatch: Mismatch) -> Seq<char> {
    match mismatch {
        Mismatch::EventCount => "event count mismatch"@,
        Mismatch::MissingStack { id } => "stack pool missing entry for id "@ + decimal(id as nat),
        Mismatch::StackFrames { id } => "stack pool frames mismatch for id "@ + decimal(id as nat),
        Mismatch::Timestamp { event, schema } => "timestamp mismatch in event "@ + decimal(
            event as nat,
        ) + " (schema "@ + decimal(schema as nat) + ")"@,
        Mismatch::FieldCount { event, schema } => "field count mismatch in event "@ + decimal(
            event as nat,
        ) + " (schema "@ + decimal(schema as nat) + ")"@,
        Mismatch::Float { event, field } => "f64 mismatch event "@ + decimal(event as nat)
            + " field "@ + decimal(field as nat),
        Mismatch::Field { event, field, schema } => "mismatch event "@ + decimal(event as nat)
            + " field "@ + decimal(field as nat) + " (schema "@ + decimal(schema as nat) + ")"@,
    }
}

impl Mismatch {
    /// What is said of the mismatch.
    pub fn message(&self) -> (res: String)
        ensures
            res@ == mismatch_text(*self),
    {
        match *self {
            Mismatch::EventCount => String::from_str("event count mismatch"),
            Mismatch::MissingStack { id } => {
                let mut text: String = String::from_str("stack pool missing entry for id ");
                text.append(decimal_text(id as u64).as_str());
                text
            },
            Mismatch::StackFrames { id } => {
                let mut text: String = String::from_str("stack pool frames mismatch for id ");
                text.append(decimal_text(id as u64).as_str());
                text
            },
            Mismatch::Timestamp { event, schema } => {
                let mut text: String = String::from_str("timestamp mismatch in event ");
                text.append(decimal_text(event as u64).as_str());
                text.append(" (schema ");
                text.append(decimal_text(schema as u64).as_str());
                text.append(")");
                text
            },
            Mismatch::FieldCount { event, schema } => {
                let mut text: String = String::from_str("field count mismatch in event ");
                text.append(decimal_text(event as u64).as_str());
                text.append(" (schema ");
                text.append(decimal_text(schema as u64).as_str());
                text.append(")");
                text
            },
            Mismatch::Float { event, field } => {
                let mut text: String = String::from_str("f64 mismatch event ");
                text.append(decimal_text(event as u64).as_str());
                text.append(" field ");
                text.append(decimal_text(field as u64).as_str());
                text
            },
            Mismatch::Field { event, field, schema } => {
                let mut text: String = String::from_str("mismatch event ");
                text.append(decimal_text(event as u64).as_str());
                text.append(" field ");
                text.append(decimal_text(field as u64).as_str());
                text.append(" (schema ");
                text.append(decimal_text(schema as u64).as_str());
                text.append(")");
                text
            },
        }
    }
}

/// The views of what was decoded show every item, in its place.
pub proof fn law_views_show_decoded(events: Seq<DecodedEvent>, resolved: Seq<Option<Vec<u64>>>)
    ensures
        decoded_views(events).len() == events.len(),
        resolved_views(resolved).len() == resolved.len(),
        forall|i: int|
            0 <= i < events.len() ==> {
                &&& (#[trigger] decoded_views(events)[i]).timestamp == events[i].timestamp
                &&& decoded_views(events)[i].values.len() == events[i].values@.len()
            },
        forall|i: int, j: int|
            0 <= i < events.len() && 0 <= j < events[i].values@.len() ==> #[trigger] decoded_views(
                events,
            )[i].values[j] == events[i].values@[j]@,
        forall|i: int|
            0 <= i < resolved.len() ==> match resolved[i] {
                Some(frames) => #[trigger] resolved_views(resolved)[i] == Some(frames@),
                None => resolved_views(resolved)[i] is None,
            },
{
}

/// The check finds something exactly where an event is missing or too many, where a
/// timestamp or a value differs, or where a stack is not found as it was interned.
pub proof fn law_check_finds_every_difference(
    events: Seq<ExpectedEventView>,
    pool: Seq<(u32, Seq<u64>)>,
    decoded: Seq<DecodedEventView>,
    resolved: Seq<Option<Seq<u64>>>,
)
    ensures
        verdict(events, pool, decoded, resolved) is None <==> {
            &&& decoded.len() == events.len()
            &&& forall|i: int|
                0 <= i < events.len() ==> (#[trigger] decoded[i]).timestamp == Some(
                    events[i].timestamp,
                ) && decoded[i].values == events[i].values
            &&& pool.len() <= resolved.len()
            &&& forall|i: int| 0 <= i < pool.len() ==> #[trigger] resolved[i] == Some(pool[i].1)
        },
{
    law_check_passes_iff_faithful(events, pool, decoded, resolved);
}

/// Decoding exactly what a run wrote passes the check: the first value of each event
/// as its timestamp, the others as its values, and the pool as it was interned.
pub proof fn law_decoding_what_was_written_passes(
    run: RunView,
    ids: spec_fn(int) -> u32,
    decoded: Seq<DecodedEventView>,
    resolved: Seq<Option<Seq<u64>>>,
)
    requires
        run_ok(run),
        run.events.len() == 0,
        completed(run, ids) is Some,
        decoded.len() == written(run, ids).len(),
        forall|i: int|
            0 <= i < decoded.len() ==> {
                &&& written(run, ids)[i][0] is Varint
                &&& (#[trigger] decoded[i]).timestamp == Some(written(run, ids)[i][0]->Varint_0)
                &&& decoded[i].values == written(run, ids)[i].skip(1)
            },
        resolved.len() == completed(run, ids)->Some_0.1.len(),
        forall|i: int|
            0 <= i < resolved.len() ==> #[trigger] resolved[i] == Some(
                completed(run, ids)->Some_0.1[i].1,
            ),
    ensures
        verdict(
            completed(run, ids)->Some_0.0,
            completed(run, ids)->Some_0.1,
            decoded,
            resolved,
        ) is None,
{
    law_run_expects_what_it_writes(run, ids);
    let (events, pool) = completed(run, ids)->0;
    law_check_finds_every_difference(events, pool, decoded, resolved);
    assert forall|i: int| 0 <= i < events.len() implies (#[trigger] decoded[i]).timestamp == Some(
        events[i].timestamp,
    ) && decoded[i].values == events[i].values by {
        let values = written(run, ids)[i];
        assert(values.skip(1) == events[0 + i].values);
    }
}

proof fn lemma_stack_mismatch_is_real(
    pool: Seq<(u32, Seq<u64>)>,
    resolved: Seq<Option<Seq<u64>>>,
    i: int,
) -> (k: int)
    requires
        0 <= i <= pool.len(),
        stack_mismatch(pool, resolved, i) is Some,
    ensures
        i <= k < pool.len(),
        forall|j: int| i <= j < k ==> j < resolved.len() && #[trigger] resolved[j] == Some(pool[j].1),
        match stack_mismatch(pool, resolved, i)->0 {
            Mismatch::MissingStack { id } => id == pool[k].0 && (k >= resolved.len()
                || resolved[k] is None),
            Mismatch::StackFrames { id } => id == pool[k].0 && k < resolved.len() && resolved[k]
                is Some && resolved[k] != Some(pool[k].1),
            _ => false,
        },
    decreases pool.len() - i,
{
    if i >= resolved.len() || resolved[i] != Some(pool[i].1) {
        i
    } else {
        lemma_stack_mismatch_is_real(pool, resolved, i + 1)
    }
}

proof fn lemma_field_mismatch_is_real(
    expected: ExpectedEventView,
    decoded: Seq<FieldValueView>,
    i: int,
    j: int,
) -> (k: int)
    requires
        0 <= j <= expected.values.len() <= usize::MAX,
        0 <= i <= usize::MAX,
        field_mismatch(expected, decoded, i, j) is Some,
    ensures
        j <= k < expected.values.len(),
        forall|l: int| j <= l < k ==> #[trigger] decoded[l] == expected.values[l],
        decoded[k] != expected.values[k],
        match field_mismatch(expected, decoded, i, j)->0 {
            Mismatch::Float { event, field } => event == i && field == k && expected.values[k]
                is F64 && decoded[k] is F64,
            Mismatch::Field { event, field, schema } => event == i && field == k && schema
                == expected.schema && !(expected.values[k] is F64 && decoded[k] is F64),
            _ => false,
        },
    decreases expected.values.len() - j,
{
    if decoded[j] != expected.values[j] {
        j
    } else {
        lemma_field_mismatch_is_real(expected, decoded, i, j + 1)
    }
}

proof fn lemma_event_mismatch_is_real(
    events: Seq<ExpectedEventView>,
    decoded: Seq<DecodedEventView>,
    i: int,
) -> (k: int)
    requires
        0 <= i <= events.len() <= usize::MAX,
        events_mismatch(events, decoded, i) is Some,
    ensures
        i <= k < events.len(),
        forall|l: int|
            i <= l < k ==> (#[trigger] decoded[l]).timestamp == Some(events[l].timestamp)
                && decoded[l].values == events[l].values,
        events_mismatch(events, decoded, i) == event_mismatch(events[k], decoded[k], k),
    decreases events.len() - i,
{
    lemma_event(events[i], decoded[i], i);
    if event_mismatch(events[i], decoded[i], i) is Some {
        i
    } else {
        lemma_event_mismatch_is_real(events, decoded, i + 1)
    }
}

/// What the check finds is there. A wrong number of events comes before all else,
/// then the first stack that is missing or differs, then, in the first event that
/// differs, its timestamp, the number of its fields and the first field that differs.
/// Floats that differ are told apart from other fields.
pub proof fn law_mismatch_is_first_difference(
    events: Seq<ExpectedEventView>,
    pool: Seq<(u32, Seq<u64>)>,
    decoded: Seq<DecodedEventView>,
    resolved: Seq<Option<Seq<u64>>>,
)
    requires
        events.len() <= usize::MAX,
        forall|i: int|
            0 <= i < events.len() ==> (#[trigger] events[i]).values.len() <= usize::MAX,
        verdict(events, pool, decoded, resolved) is Some,
    ensures
        decoded.len() != events.len() <==> verdict(events, pool, decoded, resolved) == Some(
            Mismatch::EventCount,
        ),
        match verdict(events, pool, decoded, resolved)->0 {
            Mismatch::EventCount => true,
            Mismatch::MissingStack { id } => exists|k: int|
                0 <= k < pool.len() && (#[trigger] pool[k]).0 == id && (k >= resolved.len()
                    || resolved[k] is None) && found_up_to(pool, resolved, k),
            Mismatch::StackFrames { id } => exists|k: int|
                0 <= k < pool.len() && (#[trigger] pool[k]).0 == id && k < resolved.len()
                    && resolved[k] is Some && resolved[k] != Some(pool[k].1) && found_up_to(
                    pool,
                    resolved,
                    k,
                ),
            Mismatch::Timestamp { event, schema } => {
                &&& event < events.len()
                &&& schema == events[event as int].schema
                &&& decoded[event as int].timestamp != Some(events[event as int].timestamp)
            },
            Mismatch::FieldCount { event, schema } => {
                &&& event < events.len()
                &&& schema == events[event as int].schema
                &&& decoded[event as int].timestamp == Some(events[event as int].timestamp)
                &&& decoded[event as int].values.len() != events[event as int].values.len()
            },
            Mismatch::Float { event, field } => {
                &&& event < events.len()
                &&& decoded[event as int].timestamp == Some(events[event as int].timestamp)
                &&& decoded[event as int].values.len() == events[event as int].values.len()
                &&& field < events[event as int].values.len()
                &&& events[event as int].values[field as int] is F64
                &&& decoded[event as int].values[field as int] is F64
                &&& decoded[event as int].values[field as int]
                    != events[event as int].values[field as int]
                &&& forall|l: int|
                    0 <= l < field ==> #[trigger] decoded[event as int].values[l]
                        == events[event as int].values[l]
            },
            Mismatch::Field { event, field, schema } => {
                &&& event < events.len()
                &&& schema == events[event as int].schema
                &&& decoded[event as int].timestamp == Some(events[event as int].timestamp)
                &&& decoded[event as int].values.len() == events[event as int].values.len()
                &&& field < events[event as int].values.len()
                &&& !(events[event as int].values[field as int] is F64
                    && decoded[event as int].values[field as int] is F64)
                &&& decoded[event as int].values[field as int]
                    != events[event as int].values[field as int]
                &&& forall|l: int|
                    0 <= l < field ==> #[trigger] decoded[event as int].values[l]
                        == events[event as int].values[l]
            },
        },
        match verdict(events, pool, decoded, resolved)->0 {
            Mismatch::EventCount => true,
            Mismatch::MissingStack { .. } => true,
            Mismatch::StackFrames { .. } => true,
            Mismatch::Timestamp { event, .. } => agree_up_to(events, decoded, event as int),
            Mismatch::FieldCount { event, .. } => agree_up_to(events, decoded, event as int),
            Mismatch::Float { event, .. } => agree_up_to(events, decoded, event as int),
            Mismatch::Field { event, .. } => agree_up_to(events, decoded, event as int),
        },
{
    if decoded.len() == events.len() {
        if stack_mismatch(pool, resolved, 0) is Some {
            let k = lemma_stack_mismatch_is_real(pool, resolved, 0);
            assert(found_up_to(pool, resolved, k));
            assert(pool[k].0 == pool[k].0);
        } else {
            let k = lemma_event_mismatch_is_real(events, decoded, 0);
            if decoded[k].timestamp == Some(events[k].timestamp) && decoded[k].values.len()
                == events[k].values.len() {
                let j = lemma_field_mismatch_is_real(events[k], decoded[k].values, k, 0);
            }
        }
    }
}

/// The first `n` stacks of the pool were found as they were interned.
pub open spec fn found_up_to(
    pool: Seq<(u32, Seq<u64>)>,
    resolved: Seq<Option<Seq<u64>>>,
    n: int,
) -> bool {
    forall|j: int| 0 <= j < n ==> j < resolved.len() && #[trigger] resolved[j] == Some(pool[j].1)
}

/// The first `n` events were decoded as they were encoded.
pub open spec fn agree_up_to(
    events: Seq<ExpectedEventView>,
    decoded: Seq<DecodedEventView>,
    n: int,
) -> bool {
    forall|l: int|
        0 <= l < n ==> (#[trigger] decoded[l]).timestamp == Some(events[l].timestamp)
            && decoded[l].values == events[l].values
}

/// A mismatch is told in words that name the stack, or the event, the field and the
/// schema.
pub proof fn law_mismatch_is_named(id: u32, event: usize, field: usize, schema: usize)
    ensures
        mismatch_text(Mismatch::EventCount) == "event count mismatch"@,
        mismatch_text(Mismatch::MissingStack { id }) == "stack pool missing entry for id "@
            + decimal(id as nat),
        mismatch_text(Mismatch::StackFrames { id }) == "stack pool frames mismatch for id "@
            + decimal(id as nat),
        mismatch_text(Mismatch::Timestamp { event, schema }) == "timestamp mismatch in event "@
            + decimal(event as nat) + " (schema "@ + decimal(schema as nat) + ")"@,
        mismatch_text(Mismatch::FieldCount { event, schema }) == "field count mismatch in event "@
            + decimal(event as nat) + " (schema "@ + decimal(schema as nat) + ")"@,
        mismatch_text(Mismatch::Float { event, field }) == "f64 mismatch event "@ + decimal(
            event as nat,
        ) + " field "@ + decimal(field as nat),
        mismatch_text(Mismatch::Field { event, field, schema }) == "mismatch event "@ + decimal(
            event as nat,
        ) + " field "@ + decimal(field as nat) + " (schema "@ + decimal(schema as nat) + ")"@,
{
}

} // verus!
