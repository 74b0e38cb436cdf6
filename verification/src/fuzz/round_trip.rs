//! One round trip: what is encoded, and the check of what was decoded.
//!
//! Encoder and decoder work outside. A run hands out one operation after another
//! for the encoder and keeps what the decoder has to give back.

use crate::fuzz::entropy::{
    behind, byte_at, byte_width, draw_ratio, draw_u64, drawn_ratio, drawn_u64,
    law_drawn_ratio_is_odds,
};
use crate::fuzz::value::{
    drawn_value, field_type_of, gen_value, has_type, law_drawn_value_has_type, Drawn,
    FieldType, FieldValue, FieldValueView, FuzzFieldType,
};
use crate::text::{decimal, decimal_text, lossy_text, utf8_lossy};
use vstd::prelude::*;

verus! {

/// How many schemas take part in a run.
pub const MAX_SCHEMAS: usize = 4;

/// How many fields a schema may have.
pub const MAX_FIELDS: usize = 8;

/// How many actions a run has.
pub const MAX_ACTIONS: usize = 32;

/// Timestamps lie below this, so that their differences do not overflow.
pub const TIMESTAMP_LIMIT: u64 = 0x1_0000_0000_0000;

/// A drawn schema.
#[derive(Debug)]
pub struct FuzzSchema {
    pub fields: Vec<FuzzFieldType>,
    /// Which fields are optional (parallel to `fields`).
    pub optional: Vec<bool>,
}

#[verifier::ext_equal]
pub struct FuzzSchemaView {
    pub fields: Seq<FuzzFieldType>,
    pub optional: Seq<bool>,
}

impl View for FuzzSchema {
    type V = FuzzSchemaView;

    open spec fn view(&self) -> FuzzSchemaView {
        FuzzSchemaView { fields: self.fields@, optional: self.optional@ }
    }
}

/// Up to seven bytes of text.
#[derive(Clone, Copy, Debug)]
pub struct String8 {
    pub data: [u8; 8],
    pub len: u8,
}

/// Up to seven addresses.
#[derive(Clone, Copy, Debug)]
pub struct StackFrames8 {
    pub addrs: [u64; 8],
    pub len: u8,
}

/// A drawn action.
#[derive(Clone, Copy, Debug)]
pub enum FuzzAction {
    Event { schema_idx: u8 },
    PoolString(String8),
    PoolStackFrames(StackFrames8),
}

/// A drawn run.
#[derive(Debug)]
pub struct FuzzInput {
    pub schemas: Vec<FuzzSchema>,
    pub actions: Vec<FuzzAction>,
}

/// The bytes of a text to intern.
pub open spec fn text_bytes(text: String8) -> Seq<u8> {
    text.data@.take((text.len % 8) as int)
}

/// The addresses of a stack to intern.
pub open spec fn stack_frames(frames: StackFrames8) -> Seq<u64> {
    frames.addrs@.take((frames.len % 8) as int)
}

/// Field `j` may be without a value.
pub open spec fn is_optional(schema: FuzzSchemaView, j: int) -> bool {
    j < schema.optional.len() && schema.optional[j]
}

impl FuzzSchema {
    /// Field `j` may be without a value.
    pub fn is_optional(&self, j: usize) -> (res: bool)
        ensures
            res == is_optional(self@, j as int),
    {
        j < self.optional.len() && self.optional[j]
    }
}

/// A field of a schema that is registered with the encoder.
#[derive(Debug)]
pub struct FieldDef {
    pub name: String,
    pub field_type: FieldType,
    /// The field has the optional form of its type, where there is one.
    pub optional: bool,
}

/// A schema that is registered with the encoder.
#[derive(Debug)]
pub struct SchemaDef {
    pub name: String,
    pub fields: Vec<FieldDef>,
}

/// Field `j` of a schema as it is registered.
pub open spec fn is_field_def(def: FieldDef, schema: FuzzSchemaView, j: int) -> bool {
    &&& def.name@ == "f"@ + decimal(j as nat)
    &&& def.field_type == field_type_of(schema.fields[j])
    &&& def.optional == is_optional(schema, j)
}

/// Schema `i` of a run as it is registered.
pub open spec fn is_schema_def(def: SchemaDef, schema: FuzzSchemaView, i: int) -> bool {
    &&& def.name@ == "S"@ + decimal(i as nat)
    &&& def.fields@.len() == schema.fields.len()
    &&& forall|j: int|
        0 <= j < schema.fields.len() ==> is_field_def(#[trigger] def.fields@[j], schema, j)
}

impl FuzzSchema {
    /// The schema as it is registered, as number `i` of its run.
    pub fn schema_def(&self, i: usize) -> (res: SchemaDef)
        ensures
            is_schema_def(res, self@, i as int),
    {
        let mut fields: Vec<FieldDef> = Vec::new();
        let mut j: usize = 0;
        while j < self.fields.len()
            invariant
                j <= self.fields@.len(),
                fields@.len() == j,
                forall|k: int| 0 <= k < j ==> is_field_def(#[trigger] fields@[k], self@, k),
            decreases self.fields.len() - j,
        {
            let mut name: String = String::from_str("f");
            name.append(decimal_text(j as u64).as_str());
            fields.push(
                FieldDef {
                    name,
                    field_type: self.fields[j].to_field_type(),
                    optional: self.is_optional(j),
                },
            );
            j = j + 1;
        }
        let mut name: String = String::from_str("S");
        name.append(decimal_text(i as u64).as_str());
        SchemaDef { name, fields }
    }
}

/// An event that was encoded.
#[derive(Debug)]
pub struct ExpectedEvent {
    pub schema: usize,
    pub timestamp: u64,
    pub values: Vec<FieldValue>,
}

#[verifier::ext_equal]
pub struct ExpectedEventView {
    pub schema: usize,
    pub timestamp: u64,
    pub values: Seq<FieldValueView>,
}

pub open spec fn value_views(values: Seq<FieldValue>) -> Seq<FieldValueView> {
    values.map_values(|value: FieldValue| value@)
}

impl View for ExpectedEvent {
    type V = ExpectedEventView;

    open spec fn view(&self) -> ExpectedEventView {
        ExpectedEventView {
            schema: self.schema,
            timestamp: self.timestamp,
            values: value_views(self.values@),
        }
    }
}

pub open spec fn event_views(events: Seq<ExpectedEvent>) -> Seq<ExpectedEventView> {
    events.map_values(|event: ExpectedEvent| event@)
}

pub open spec fn pool_views(pool: Seq<(u32, Vec<u64>)>) -> Seq<(u32, Seq<u64>)> {
    pool.map_values(|entry: (u32, Vec<u64>)| (entry.0, entry.1@))
}

pub open spec fn schema_views(schemas: Seq<FuzzSchema>) -> Seq<FuzzSchemaView> {
    schemas.map_values(|schema: FuzzSchema| schema@)
}

/// The value of field `j`: an optional field is left without one in about one of
/// three cases.
pub open spec fn drawn_field(
    schema: FuzzSchemaView,
    j: int,
    data: Seq<u8>,
    interned: Seq<u32>,
) -> Drawn<FieldValueView> {
    if is_optional(schema, j) {
        let rest = behind(data, byte_width(2));
        if drawn_ratio(data, 1, 3) {
            Some((FieldValueView::Absent, rest))
        } else {
            drawn_value(schema.fields[j], rest, interned)
        }
    } else {
        drawn_value(schema.fields[j], data, interned)
    }
}

/// The values of the first `n` fields.
pub open spec fn drawn_values(
    schema: FuzzSchemaView,
    n: nat,
    data: Seq<u8>,
    interned: Seq<u32>,
) -> Drawn<Seq<FieldValueView>>
    decreases n,
{
    if n == 0 {
        Some((Seq::empty(), data))
    } else {
        match drawn_values(schema, (n - 1) as nat, data, interned) {
            Some((front, rest)) => match drawn_field(schema, n - 1, rest, interned) {
                Some((value, rest)) => Some((front.push(value), rest)),
                None => None,
            },
            None => None,
        }
    }
}

/// Where the first values cannot be drawn, no more values can.
proof fn lemma_values_fail(
    schema: FuzzSchemaView,
    n: nat,
    m: nat,
    data: Seq<u8>,
    interned: Seq<u32>,
)
    requires
        n <= m,
        drawn_values(schema, n, data, interned) is None,
    ensures
        drawn_values(schema, m, data, interned) is None,
    decreases m,
{
    if n < m {
        lemma_values_fail(schema, n, (m - 1) as nat, data, interned);
    }
}

fn gen_field<'a>(schema: &FuzzSchema, j: usize, data: &'a [u8], interned: &[u32]) -> (res: Option<
    (FieldValue, &'a [u8]),
>)
    requires
        j < schema.fields@.len(),
    ensures
        match res {
            Some((value, rest)) => drawn_field(schema@, j as int, data@, interned@) == Some(
                (value@, rest@),
            ),
            None => drawn_field(schema@, j as int, data@, interned@) is None,
        },
{
    if schema.is_optional(j) {
        let (absent, rest) = draw_ratio(data, 1, 3)?;
        if absent {
            Some((FieldValue::Absent, rest))
        } else {
            gen_value(schema.fields[j], rest, interned)
        }
    } else {
        gen_value(schema.fields[j], data, interned)
    }
}

fn gen_values<'a>(schema: &FuzzSchema, data: &'a [u8], interned: &[u32]) -> (res: Option<
    (Vec<FieldValue>, &'a [u8]),
>)
    ensures
        match res {
            Some((values, rest)) => drawn_values(
                schema@,
                schema.fields@.len(),
                data@,
                interned@,
            ) == Some((value_views(values@), rest@)),
            None => drawn_values(schema@, schema.fields@.len(), data@, interned@) is None,
        },
{
    let mut values: Vec<FieldValue> = Vec::new();
    let mut rest: &[u8] = data;
    let mut j: usize = 0;
    assert(value_views(values@) =~= Seq::empty());
    while j < schema.fields.len()
        invariant
            j <= schema.fields@.len(),
            drawn_values(schema@, j as nat, data@, interned@) == Some(
                (value_views(values@), rest@),
            ),
        decreases schema.fields.len() - j,
    {
        let ghost before = values@;
        match gen_field(schema, j, rest, interned) {
            Some((value, left)) => {
                values.push(value);
                rest = left;
                j = j + 1;
                assert(value_views(values@) =~= value_views(before).push(value@));
            },
            None => {
                proof {
                    lemma_values_fail(
                        schema@,
                        (j + 1) as nat,
                        schema.fields@.len(),
                        data@,
                        interned@,
                    );
                }
                return None;
            },
        }
    }
    Some((values, rest))
}

fn copy_values(values: &Vec<FieldValue>, first: u64) -> (res: Vec<FieldValue>)
    ensures
        value_views(res@) == seq![FieldValueView::Varint(first)] + value_views(values@),
{
    let mut copy: Vec<FieldValue> = Vec::new();
    copy.push(FieldValue::Varint(first));
    let mut i: usize = 0;
    while i < values.len()
        invariant
            i <= values@.len(),
            copy@.len() == i + 1,
            copy@[0]@ == FieldValueView::Varint(first),
            forall|j: int| 0 <= j < i ==> (#[trigger] values@[j])@ == copy@[j + 1]@,
        decreases values.len() - i,
    {
        copy.push(values[i].clone());
        i = i + 1;
    }
    assert(value_views(copy@) =~= seq![FieldValueView::Varint(first)] + value_views(values@));
    copy
}

/// The state of a run.
#[verifier::ext_equal]
pub struct RunView {
    pub schemas: Seq<FuzzSchemaView>,
    pub actions: Seq<FuzzAction>,
    /// The action that comes next.
    pub at: int,
    /// The bytes that are left.
    pub rest: Seq<u8>,
    pub events: Seq<ExpectedEventView>,
    /// The identifiers of the stacks in the pool, in the order in which they came.
    pub interned: Seq<u32>,
    pub pool: Seq<(u32, Seq<u64>)>,
}

/// The identifiers are those of the pool, and none occurs twice.
pub open spec fn pool_agrees(interned: Seq<u32>, pool: Seq<(u32, Seq<u64>)>) -> bool {
    &&& interned.len() == pool.len()
    &&& forall|i: int| 0 <= i < pool.len() ==> (#[trigger] pool[i]).0 == interned[i]
    &&& interned.no_duplicates()
}

/// The run after the encoder has interned a stack under an identifier.
pub open spec fn after_interned(run: RunView, frames: Seq<u64>, id: u32) -> RunView {
    if run.interned.contains(id) {
        run
    } else {
        RunView { interned: run.interned.push(id), pool: run.pool.push((id, frames)), ..run }
    }
}

/// What the encoder does next.
#[verifier::ext_equal]
pub enum StepView {
    WriteEvent { run: RunView, schema: usize, values: Seq<FieldValueView> },
    InternString { run: RunView, text: Seq<char> },
    InternStackFrames { run: RunView, frames: Seq<u64> },
    Finish { events: Seq<ExpectedEventView>, pool: Seq<(u32, Seq<u64>)> },
    GiveUp,
}

/// The step that the next action makes.
pub open spec fn next_step(run: RunView) -> StepView {
    if run.at >= run.actions.len() {
        StepView::Finish { events: run.events, pool: run.pool }
    } else {
        let after = RunView { at: run.at + 1, ..run };
        match run.actions[run.at] {
            FuzzAction::Event { schema_idx } => {
                let idx = schema_idx as int % run.schemas.len() as int;
                let schema = run.schemas[idx];
                match drawn_values(schema, schema.fields.len(), run.rest, run.interned) {
                    Some((values, rest)) => {
                        let timestamp = (drawn_u64(rest) % TIMESTAMP_LIMIT) as u64;
                        let event = ExpectedEventView { schema: idx as usize, timestamp, values };
                        StepView::WriteEvent {
                            run: RunView {
                                rest: behind(rest, 8),
                                events: run.events.push(event),
                                ..after
                            },
                            schema: idx as usize,
                            values: seq![FieldValueView::Varint(timestamp)] + values,
                        }
                    },
                    None => StepView::GiveUp,
                }
            },
            FuzzAction::PoolString(text) => StepView::InternString {
                run: after,
                text: utf8_lossy(text_bytes(text)),
            },
            FuzzAction::PoolStackFrames(frames) => StepView::InternStackFrames {
                run: after,
                frames: stack_frames(frames),
            },
        }
    }
}

/// A run between two operations of the encoder.
pub struct FuzzRun<'a> {
    schemas: Vec<FuzzSchema>,
    actions: Vec<FuzzAction>,
    at: usize,
    rest: &'a [u8],
    events: Vec<ExpectedEvent>,
    interned: Vec<u32>,
    pool: Vec<(u32, Vec<u64>)>,
}

impl<'a> View for FuzzRun<'a> {
    type V = RunView;

    closed spec fn view(&self) -> RunView {
        RunView {
            schemas: schema_views(self.schemas@),
            actions: self.actions@,
            at: self.at as int,
            rest: self.rest@,
            events: event_views(self.events@),
            interned: self.interned@,
            pool: pool_views(self.pool@),
        }
    }
}

/// A run of an admissible size whose pool has no identifier twice.
pub open spec fn run_ok(run: RunView) -> bool {
    &&& 0 < run.schemas.len() <= MAX_SCHEMAS
    &&& forall|i: int|
        0 <= i < run.schemas.len() ==> (#[trigger] run.schemas[i]).fields.len() <= MAX_FIELDS
    &&& 0 < run.actions.len() <= MAX_ACTIONS
    &&& 0 <= run.at <= run.actions.len()
    &&& pool_agrees(run.interned, run.pool)
}

impl<'a> FuzzRun<'a> {
    #[verifier::type_invariant]
    spec fn inv(self) -> bool {
        run_ok(self@)
    }
}

/// A run that waits for the identifier of a stack.
pub struct AwaitingId<'a> {
    run: FuzzRun<'a>,
    frames: Vec<u64>,
}

impl<'a> AwaitingId<'a> {
    pub closed spec fn run(&self) -> RunView {
        self.run@
    }

    pub closed spec fn stack(&self) -> Seq<u64> {
        self.frames@
    }
}

/// What the decoder has to give back.
#[derive(Debug)]
pub struct Expected {
    pub events: Vec<ExpectedEvent>,
    pub pool: Vec<(u32, Vec<u64>)>,
}

/// What the encoder does next.
pub enum Step<'a> {
    /// It writes an event, the timestamp first.
    WriteEvent { run: FuzzRun<'a>, schema: usize, values: Vec<FieldValue> },
    /// It interns a text.
    InternString { run: FuzzRun<'a>, text: String },
    /// It interns a stack and tells its identifier.
    InternStackFrames(AwaitingId<'a>),
    /// It is done, and what it wrote can be decoded and checked.
    Finish(Expected),
    /// The bytes do not suffice; nothing is checked.
    GiveUp,
}

impl<'a> View for Step<'a> {
    type V = StepView;

    open spec fn view(&self) -> StepView {
        match *self {
            Step::WriteEvent { run, schema, values } => StepView::WriteEvent {
                run: run@,
                schema,
                values: value_views(values@),
            },
            Step::InternString { run, text } => StepView::InternString { run: run@, text: text@ },
            Step::InternStackFrames(waiting) => StepView::InternStackFrames {
                run: waiting.run(),
                frames: waiting.stack(),
            },
            Step::Finish(expected) => StepView::Finish {
                events: event_views(expected.events@),
                pool: pool_views(expected.pool@),
            },
            Step::GiveUp => StepView::GiveUp,
        }
    }
}

/// The first `max` items, or all where there are fewer.
pub open spec fn clamped<T>(items: Seq<T>, max: usize) -> Seq<T> {
    if items.len() <= max {
        items
    } else {
        items.take(max as int)
    }
}

/// A run starts: there is a schema and an action, and none of the schemas that
/// take part has too many fields.
pub open spec fn admits(schemas: Seq<FuzzSchemaView>, actions: Seq<FuzzAction>) -> bool {
    &&& schemas.len() > 0
    &&& actions.len() > 0
    &&& forall|i: int|
        0 <= i < clamped(schemas, MAX_SCHEMAS).len() ==> (#[trigger] schemas[i]).fields.len()
            <= MAX_FIELDS
}

/// A run before its first action.
pub open spec fn initial_run(
    schemas: Seq<FuzzSchemaView>,
    actions: Seq<FuzzAction>,
    rest: Seq<u8>,
) -> RunView {
    RunView {
        schemas: clamped(schemas, MAX_SCHEMAS),
        actions: clamped(actions, MAX_ACTIONS),
        at: 0,
        rest,
        events: Seq::empty(),
        interned: Seq::empty(),
        pool: Seq::empty(),
    }
}

impl<'a> FuzzRun<'a> {
    /// Starts a run on what was drawn, with the bytes that are left: up to four
    /// schemas of up to eight fields, and up to 32 actions. `None` where a run
    /// would be pointless or too wide.
    pub fn start(input: FuzzInput, rest: &'a [u8]) -> (res: Option<FuzzRun<'a>>)
        ensures
            match res {
                Some(run) => {
                    &&& admits(schema_views(input.schemas@), input.actions@)
                    &&& run@ == initial_run(schema_views(input.schemas@), input.actions@, rest@)
                },
                None => !admits(schema_views(input.schemas@), input.actions@),
            },
    {
        let ghost all_schemas = input.schemas@;
        let ghost all_actions = input.actions@;
        let mut schemas = input.schemas;
        let mut actions = input.actions;
        schemas.truncate(MAX_SCHEMAS);
        actions.truncate(MAX_ACTIONS);
        assert(schema_views(schemas@) =~= clamped(schema_views(all_schemas), MAX_SCHEMAS));
        assert(actions@ =~= clamped(all_actions, MAX_ACTIONS));
        if schemas.len() == 0 || actions.len() == 0 {
            return None;
        }
        let mut i: usize = 0;
        while i < schemas.len()
            invariant
                i <= schemas@.len(),
                schema_views(schemas@) == clamped(schema_views(all_schemas), MAX_SCHEMAS),
                forall|j: int|
                    0 <= j < i ==> (#[trigger] schema_views(all_schemas)[j]).fields.len()
                        <= MAX_FIELDS,
                all_schemas == input.schemas@,
            decreases schemas.len() - i,
        {
            assert(schema_views(schemas@).len() == schemas@.len());
            assert(schema_views(schemas@)[i as int] == schemas@[i as int]@);
            assert(schema_views(all_schemas)[i as int] == schema_views(schemas@)[i as int]);
            if schemas[i].fields.len() > MAX_FIELDS {
                return None;
            }
            i = i + 1;
        }
        let events: Vec<ExpectedEvent> = Vec::new();
        let interned: Vec<u32> = Vec::new();
        let pool: Vec<(u32, Vec<u64>)> = Vec::new();
        assert(event_views(events@) =~= Seq::empty());
        assert(pool_views(pool@) =~= Seq::empty());
        assert forall|j: int| 0 <= j < schemas@.len() implies (#[trigger] schema_views(
            schemas@,
        )[j]).fields.len() <= MAX_FIELDS by {
            assert(schema_views(all_schemas)[j] == schema_views(schemas@)[j]);
        }
        Some(FuzzRun { schemas, actions, at: 0, rest, events, interned, pool })
    }

    /// The schemas that are registered before the first action.
    pub fn schema_defs(&self) -> (res: Vec<SchemaDef>)
        ensures
            res@.len() == self@.schemas.len(),
            forall|i: int|
                0 <= i < res@.len() ==> is_schema_def(#[trigger] res@[i], self@.schemas[i], i),
    {
        let mut defs: Vec<SchemaDef> = Vec::new();
        let mut i: usize = 0;
        while i < self.schemas.len()
            invariant
                i <= self.schemas@.len(),
                defs@.len() == i,
                forall|j: int|
                    0 <= j < i ==> is_schema_def(#[trigger] defs@[j], self@.schemas[j], j),
            decreases self.schemas.len() - i,
        {
            defs.push(self.schemas[i].schema_def(i));
            i = i + 1;
        }
        defs
    }

    /// Takes the next action.
    pub fn step(self) -> (res: Step<'a>)
        ensures
            res@ == next_step(self@),
            res matches Step::InternString { text, .. } ==> text@.len() < 8,
    {
        proof {
            use_type_invariant(&self);
        }
        let ghost before = self@;
        if self.at >= self.actions.len() {
            return Step::Finish(Expected { events: self.events, pool: self.pool });
        }
        match self.actions[self.at] {
            FuzzAction::Event { schema_idx } => {
                let idx: usize = schema_idx as usize % self.schemas.len();
                match gen_values(&self.schemas[idx], self.rest, self.interned.as_slice()) {
                    Some((values, rest)) => {
                        let (raw, rest) = match draw_u64(rest) {
                            Some(drawn) => drawn,
                            None => return Step::GiveUp,
                        };
                        let timestamp: u64 = raw % TIMESTAMP_LIMIT;
                        let all_values = copy_values(&values, timestamp);
                        let event = ExpectedEvent { schema: idx, timestamp, values };
                        let mut events = self.events;
                        events.push(event);
                        assert(event_views(events@) =~= before.events.push(event@));
                        let run = FuzzRun {
                            schemas: self.schemas,
                            actions: self.actions,
                            at: self.at + 1,
                            rest,
                            events,
                            interned: self.interned,
                            pool: self.pool,
                        };
                        Step::WriteEvent { run, schema: idx, values: all_values }
                    },
                    None => Step::GiveUp,
                }
            },
            FuzzAction::PoolString(text) => {
                let len: usize = (text.len % 8) as usize;
                let mut bytes: Vec<u8> = Vec::new();
                let mut i: usize = 0;
                while i < len
                    invariant
                        i <= len,
                        len < 8,
                        bytes@ == text.data@.take(i as int),
                    decreases len - i,
                {
                    bytes.push(text.data[i]);
                    i = i + 1;
                    assert(bytes@ =~= text.data@.take(i as int));
                }
                let text = lossy_text(bytes.as_slice());
                let run = FuzzRun { at: self.at + 1, ..self };
                Step::InternString { run, text }
            },
            FuzzAction::PoolStackFrames(stack) => {
                let len: usize = (stack.len % 8) as usize;
                let mut frames: Vec<u64> = Vec::new();
                let mut i: usize = 0;
                while i < len
                    invariant
                        i <= len,
                        len < 8,
                        frames@ == stack.addrs@.take(i as int),
                    decreases len - i,
                {
                    frames.push(stack.addrs[i]);
                    i = i + 1;
                    assert(frames@ =~= stack.addrs@.take(i as int));
                }
                let run = FuzzRun { at: self.at + 1, ..self };
                Step::InternStackFrames(AwaitingId { run, frames })
            },
        }
    }
}

impl<'a> AwaitingId<'a> {
    /// The addresses of the stack.
    pub fn frames(&self) -> (res: &Vec<u64>)
        ensures
            res@ == self.stack(),
    {
        &self.frames
    }

    /// Goes on with the identifier under which the stack was interned.
    pub fn interned(self, id: u32) -> (res: FuzzRun<'a>)
        ensures
            res@ == after_interned(self.run(), self.stack(), id),
    {
        proof {
            use_type_invariant(&self.run);
        }
        let ghost before = self.run@;
        let AwaitingId { run, frames } = self;
        let mut i: usize = 0;
        while i < run.interned.len()
            invariant
                i <= run.interned@.len(),
                run@ == before,
                before.interned == run.interned@,
                frames@ == self.stack(),
                before == self.run(),
                forall|j: int| 0 <= j < i ==> run.interned@[j] != id,
            decreases run.interned.len() - i,
        {
            if run.interned[i] == id {
                assert(before.interned.contains(id));
                return run;
            }
            i = i + 1;
        }
        let FuzzRun { schemas, actions, at, rest, events, interned, pool } = run;
        let mut interned = interned;
        let mut pool = pool;
        interned.push(id);
        pool.push((id, frames));
        assert(pool_views(pool@) =~= before.pool.push((id, frames@)));
        assert(interned@.no_duplicates());
        FuzzRun { schemas, actions, at, rest, events, interned, pool }
    }
}

/// A value that field `j` of a schema can have.
pub open spec fn fits_field(value: FieldValueView, schema: FuzzSchemaView, j: int) -> bool {
    (is_optional(schema, j) && value is Absent) || has_type(value, schema.fields[j])
}

/// Drawn values fit their schema: one for each field.
pub proof fn law_drawn_values_fit_schema(
    schema: FuzzSchemaView,
    n: nat,
    data: Seq<u8>,
    interned: Seq<u32>,
)
    ensures
        drawn_values(schema, n, data, interned) matches Some((values, _)) ==> values.len() == n
            && forall|j: int|
            0 <= j < n ==> fits_field(#[trigger] values[j], schema, j),
    decreases n,
{
    if n > 0 {
        law_drawn_values_fit_schema(schema, (n - 1) as nat, data, interned);
        if let Some((_, rest)) = drawn_values(schema, (n - 1) as nat, data, interned) {
            law_drawn_value_has_type(schema.fields[n - 1], rest, interned);
            law_drawn_value_has_type(schema.fields[n - 1], behind(rest, byte_width(2)), interned);
        }
    }
}

/// Every event that is written belongs to a schema of the run. Its timestamp comes
/// first and is below the limit, and one value for each field follows that has the
/// field's type, or is left out where the field is optional.
pub proof fn law_written_event_fits_schema(run: RunView)
    requires
        run_ok(run),
    ensures
        next_step(run) matches StepView::WriteEvent { schema, values, .. } ==> {
            &&& schema < run.schemas.len()
            &&& values.len() == run.schemas[schema as int].fields.len() + 1
            &&& values[0] is Varint
            &&& values[0]->Varint_0 < TIMESTAMP_LIMIT
            &&& forall|j: int|
                0 <= j < run.schemas[schema as int].fields.len() ==> fits_field(
                    #[trigger] values[j + 1],
                    run.schemas[schema as int],
                    j,
                )
        },
{
    if run.at < run.actions.len() {
        if let FuzzAction::Event { schema_idx } = run.actions[run.at] {
            let idx = schema_idx as int % run.schemas.len() as int;
            vstd::arithmetic::div_mod::lemma_mod_bound(schema_idx as int, run.schemas.len() as int);
            let schema = run.schemas[idx];
            law_drawn_values_fit_schema(schema, schema.fields.len(), run.rest, run.interned);
        }
    }
}

/// Every step keeps a run well-formed and takes exactly one action, so a run ends
/// after as many steps as it has actions. Interning a stack keeps it well-formed
/// too, whatever identifier the encoder gives.
pub proof fn law_steps_advance(run: RunView, id: u32)
    requires
        run_ok(run),
    ensures
        match next_step(run) {
            StepView::WriteEvent { run: after, .. } => run_ok(after) && after.at == run.at + 1,
            StepView::InternString { run: after, .. } => run_ok(after) && after.at == run.at + 1,
            StepView::InternStackFrames { run: after, frames } => {
                &&& run_ok(after_interned(after, frames, id))
                &&& after_interned(after, frames, id).at == run.at + 1
            },
            StepView::Finish { .. } => run.at == run.actions.len(),
            StepView::GiveUp => run.at < run.actions.len(),
        },
{
}

/// Interning a stack under an identifier that is known changes nothing; under a
/// new one the stack joins the pool.
pub proof fn law_first_stack_of_identifier_stays(run: RunView, frames: Seq<u64>, id: u32, later: Seq<u64>)
    requires
        run_ok(run),
    ensures
        after_interned(run, frames, id).interned.contains(id),
        after_interned(after_interned(run, frames, id), later, id) == after_interned(
            run,
            frames,
            id,
        ),
        !run.interned.contains(id) ==> after_interned(run, frames, id).pool.last() == (id, frames),
{
    if !run.interned.contains(id) {
        assert(run.interned.push(id)[run.interned.len() as int] == id);
    }
}

/// How many events the actions from number `at` on ask for.
pub open spec fn events_due(actions: Seq<FuzzAction>, at: int) -> nat
    decreases actions.len() - at,
{
    if at < 0 || at >= actions.len() {
        0
    } else {
        events_due(actions, at + 1) + if actions[at] is Event {
            1nat
        } else {
            0nat
        }
    }
}

/// What a run expects in the end, where the encoder gives the stack of action `i`
/// the identifier `ids(i)`; `None` where the run gives up.
pub open spec fn completed(run: RunView, ids: spec_fn(int) -> u32) -> Option<
    (Seq<ExpectedEventView>, Seq<(u32, Seq<u64>)>),
>
    decreases run.actions.len() - run.at,
{
    match next_step(run) {
        StepView::WriteEvent { run: after, .. } => completed(after, ids),
        StepView::InternString { run: after, .. } => completed(after, ids),
        StepView::InternStackFrames { run: after, frames } => completed(
            after_interned(after, frames, ids(run.at)),
            ids,
        ),
        StepView::Finish { events, pool } => Some((events, pool)),
        StepView::GiveUp => None,
    }
}

/// The pool holds a stack under the identifier.
pub open spec fn pooled(pool: Seq<(u32, Seq<u64>)>, id: u32) -> bool {
    exists|i: int| 0 <= i < pool.len() && (#[trigger] pool[i]).0 == id
}

/// A run that does not give up expects one event for each action that asks for
/// one, behind the events that were there, and in the pool every identifier that
/// the encoder gave, each once.
pub proof fn law_run_expects_every_action(run: RunView, ids: spec_fn(int) -> u32)
    requires
        run_ok(run),
    ensures
        completed(run, ids) matches Some((events, pool)) ==> {
            &&& events.len() == run.events.len() + events_due(run.actions, run.at)
            &&& run.events.is_prefix_of(events)
            &&& run.pool.is_prefix_of(pool)
            &&& forall|i: int|
                run.at <= i < run.actions.len() && (#[trigger] run.actions[i]) is PoolStackFrames
                    ==> pooled(pool, ids(i))
            &&& forall|i: int, j: int|
                0 <= i < j < pool.len() ==> (#[trigger] pool[i]).0 != (#[trigger] pool[j]).0
        },
    decreases run.actions.len() - run.at,
{
    law_steps_advance(run, ids(run.at));
    match next_step(run) {
        StepView::WriteEvent { run: after, .. } => {
            law_run_expects_every_action(after, ids);
            assert(run.events.is_prefix_of(after.events));
        },
        StepView::InternString { run: after, .. } => {
            law_run_expects_every_action(after, ids);
        },
        StepView::InternStackFrames { run: after, frames } => {
            let next = after_interned(after, frames, ids(run.at));
            law_run_expects_every_action(next, ids);
            law_first_stack_of_identifier_stays(after, frames, ids(run.at), frames);
            assert(run.pool.is_prefix_of(next.pool));
            if let Some((_, pool)) = completed(next, ids) {
                let k = choose|k: int|
                    0 <= k < next.interned.len() && next.interned[k] == ids(run.at);
                assert(next.pool[k].0 == ids(run.at));
                assert(pool[k] == next.pool[k]);
                assert(pooled(pool, ids(run.at)));
            }
        },
        StepView::Finish { events, pool } => {},
        StepView::GiveUp => {},
    }
}

/// What a run expects of an event is what it writes: behind the events that were
/// there comes one of the step's schema, whose timestamp is the first written value
/// and whose values are exactly the written ones behind it. Schemas, actions and
/// pool stay, and the next action follows.
pub proof fn law_expected_event_is_written_event(run: RunView)
    requires
        run.schemas.len() > 0,
        0 <= run.at,
    ensures
        next_step(run) matches StepView::WriteEvent { run: after, schema, values } ==> {
            let event = after.events.last();
            &&& after.events.len() == run.events.len() + 1
            &&& run.events.is_prefix_of(after.events)
            &&& event.schema == schema
            &&& values.len() == event.values.len() + 1
            &&& values[0] == FieldValueView::Varint(event.timestamp)
            &&& values.skip(1) == event.values
            &&& 0 <= run.at < run.actions.len()
            &&& run.actions[run.at] is Event
            &&& schema == run.actions[run.at]->schema_idx as int % run.schemas.len() as int
            &&& after.at == run.at + 1
            &&& after.schemas == run.schemas
            &&& after.actions == run.actions
            &&& after.interned == run.interned
            &&& after.pool == run.pool
        },
{
    if run.at < run.actions.len() {
        if let FuzzAction::Event { schema_idx } = run.actions[run.at] {
            let n = run.schemas.len() as int;
            vstd::arithmetic::div_mod::lemma_mod_bound(schema_idx as int, n);
            vstd::arithmetic::div_mod::lemma_mod_decreases(schema_idx as nat, n as nat);
            if let StepView::WriteEvent { run: after, values, .. } = next_step(run) {
                assert(values.skip(1) =~= after.events.last().values);
            }
        }
    }
}

/// The values of an event are drawn field by field from the bytes that are left, and
/// its timestamp from those behind them, as the remainder below the 48th power of
/// two. The run goes on with what is left behind that, and gives up exactly where
/// the fields cannot be drawn.
pub proof fn law_event_is_drawn(run: RunView)
    requires
        run.schemas.len() > 0,
        0 <= run.at < run.actions.len(),
        run.actions[run.at] is Event,
    ensures
        ({
            let idx = run.actions[run.at]->schema_idx as int % run.schemas.len() as int;
            let schema = run.schemas[idx];
            match drawn_values(schema, schema.fields.len(), run.rest, run.interned) {
                Some((values, rest)) => {
                    &&& next_step(run) is WriteEvent
                    &&& next_step(run)->WriteEvent_values.skip(1) == values
                    &&& next_step(run)->WriteEvent_values[0] is Varint
                    &&& next_step(run)->WriteEvent_values[0]->Varint_0 == drawn_u64(rest) as int
                        % 0x1_0000_0000_0000
                    &&& next_step(run)->WriteEvent_run.rest == behind(rest, 8)
                },
                None => next_step(run) is GiveUp,
            }
        }),
{
    let idx = run.actions[run.at]->schema_idx as int % run.schemas.len() as int;
    let schema = run.schemas[idx];
    if let Some((values, rest)) = drawn_values(
        schema,
        schema.fields.len(),
        run.rest,
        run.interned,
    ) {
        assert(next_step(run)->WriteEvent_values.skip(1) =~= values);
    }
}

/// A text or a stack to intern is the first bytes or addresses of the action, as many
/// as the last three bits of its length say; the run is otherwise as it was. Behind
/// the last action the run is finished with the events and the pool that it has.
pub proof fn law_pool_actions(run: RunView)
    ensures
        run.at >= run.actions.len() ==> next_step(run) == (StepView::Finish {
            events: run.events,
            pool: run.pool,
        }),
        0 <= run.at < run.actions.len() ==> match run.actions[run.at] {
            FuzzAction::PoolString(text) => {
                &&& next_step(run) is InternString
                &&& next_step(run)->text == utf8_lossy(text.data@.take((text.len % 8) as int))
                &&& next_step(run)->InternString_run == (RunView { at: run.at + 1, ..run })
            },
            FuzzAction::PoolStackFrames(stack) => {
                &&& next_step(run) is InternStackFrames
                &&& next_step(run)->frames == stack.addrs@.take((stack.len % 8) as int)
                &&& next_step(run)->InternStackFrames_run == (RunView { at: run.at + 1, ..run })
            },
            FuzzAction::Event { .. } => next_step(run) is WriteEvent || next_step(run) is GiveUp,
        },
{
}

/// A stack that comes under a new identifier is added to the pool, behind the others
/// and under that identifier; one that comes under a known one is not. Nothing else
/// of the run changes.
pub proof fn law_new_identifier_joins_pool(run: RunView, frames: Seq<u64>, id: u32)
    ensures
        ({
            let after = after_interned(run, frames, id);
            &&& after.schemas == run.schemas
            &&& after.actions == run.actions
            &&& after.at == run.at
            &&& after.rest == run.rest
            &&& after.events == run.events
            &&& run.interned.contains(id) ==> after.interned == run.interned && after.pool
                == run.pool
            &&& !run.interned.contains(id) ==> {
                &&& after.interned.len() == run.interned.len() + 1
                &&& run.interned.is_prefix_of(after.interned)
                &&& after.interned.last() == id
                &&& after.pool.len() == run.pool.len() + 1
                &&& run.pool.is_prefix_of(after.pool)
                &&& after.pool.last() == (id, frames)
            }
        }),
{
}

/// A field that may be left out is so in one of three cases, for which one byte is
/// used; otherwise, and for every other field, a value of the field's type is drawn.
pub proof fn law_field_is_drawn(schema: FuzzSchemaView, j: int, data: Seq<u8>, interned: Seq<u32>)
    requires
        0 <= j < schema.fields.len(),
    ensures
        ({
            let may_be_left_out = j < schema.optional.len() && schema.optional[j];
            let drawn = drawn_field(schema, j, data, interned);
            &&& is_optional(schema, j) <==> may_be_left_out
            &&& !may_be_left_out ==> drawn == drawn_value(schema.fields[j], data, interned)
            &&& may_be_left_out && byte_at(data, 0) % 3 == 0 ==> drawn == Some(
                (FieldValueView::Absent, behind(data, 1)),
            )
            &&& may_be_left_out && byte_at(data, 0) % 3 != 0 ==> drawn == drawn_value(
                schema.fields[j],
                behind(data, 1),
                interned,
            )
        }),
{
    law_drawn_ratio_is_odds(data, 1, 3);
}

/// The fields are drawn one behind the other, each from what the ones before it
/// leave, and all of them can be drawn exactly where each can.
pub proof fn law_fields_are_drawn_in_order(
    schema: FuzzSchemaView,
    n: nat,
    data: Seq<u8>,
    interned: Seq<u32>,
)
    ensures
        drawn_values(schema, 0, data, interned) == Some((Seq::<FieldValueView>::empty(), data)),
        drawn_values(schema, n, data, interned) is None ==> drawn_values(
            schema,
            n + 1,
            data,
            interned,
        ) is None,
        drawn_values(schema, n, data, interned) matches Some((front, rest)) ==> {
            &&& front.len() == n
            &&& drawn_field(schema, n as int, rest, interned) is None ==> drawn_values(
                schema,
                n + 1,
                data,
                interned,
            ) is None
            &&& drawn_field(schema, n as int, rest, interned) matches Some((value, left)) ==>
                drawn_values(schema, n + 1, data, interned) == Some((front.push(value), left))
        },
{
    law_drawn_values_fit_schema(schema, n, data, interned);
}

/// A run takes place exactly where there is a schema and an action and none of the
/// first four schemas has more than eight fields. It starts with the first four
/// schemas, the first 32 actions, all the bytes, and nothing expected.
pub proof fn law_run_starts_clamped(
    schemas: Seq<FuzzSchemaView>,
    actions: Seq<FuzzAction>,
    rest: Seq<u8>,
)
    ensures
        admits(schemas, actions) <==> schemas.len() > 0 && actions.len() > 0 && forall|i: int|
            0 <= i < 4 && i < schemas.len() ==> (#[trigger] schemas[i]).fields.len() <= 8,
        ({
            let run = initial_run(schemas, actions, rest);
            &&& run.schemas.is_prefix_of(schemas)
            &&& run.schemas.len() <= 4
            &&& run.schemas.len() == 4 || run.schemas.len() == schemas.len()
            &&& run.actions.is_prefix_of(actions)
            &&& run.actions.len() <= 32
            &&& run.actions.len() == 32 || run.actions.len() == actions.len()
            &&& run.at == 0
            &&& run.rest == rest
            &&& run.events.len() == 0
            &&& run.interned.len() == 0
            &&& run.pool.len() == 0
        }),
{
    if admits(schemas, actions) {
        assert forall|i: int| 0 <= i < 4 && i < schemas.len() implies (#[trigger] schemas[
            i
        ]).fields.len() <= 8 by {
            assert(i < clamped(schemas, MAX_SCHEMAS).len());
        }
    }
}

/// A schema is registered under a letter and its number, with one field for each of
/// its own, under a letter and the field's number, of the field's type, and marked as
/// optional exactly where the field is.
pub proof fn law_schema_is_registered(def: SchemaDef, schema: FuzzSchema, i: int)
    requires
        i >= 0,
        is_schema_def(def, schema@, i),
    ensures
        def.name@.len() > 0,
        def.name@[0] == 'S',
        def.name@.skip(1) == decimal(i as nat),
        def.fields@.len() == schema.fields@.len(),
        forall|j: int|
            0 <= j < schema.fields@.len() ==> {
                let field = #[trigger] def.fields@[j];
                &&& field.name@.len() > 0
                &&& field.name@[0] == 'f'
                &&& field.name@.skip(1) == decimal(j as nat)
                &&& field.field_type == field_type_of(schema.fields@[j])
                &&& field.optional <==> j < schema.optional@.len() && schema.optional@[j]
            },
{
    reveal_strlit("S");
    reveal_strlit("f");
    assert(def.name@.skip(1) =~= decimal(i as nat));
    assert forall|j: int| 0 <= j < schema.fields@.len() implies {
        let field = #[trigger] def.fields@[j];
        &&& field.name@.len() > 0
        &&& field.name@[0] == 'f'
        &&& field.name@.skip(1) == decimal(j as nat)
        &&& field.field_type == field_type_of(schema.fields@[j])
        &&& field.optional <==> j < schema.optional@.len() && schema.optional@[j]
    } by {
        let field = def.fields@[j];
        assert(is_field_def(field, schema@, j));
        assert(field.name@.skip(1) =~= decimal(j as nat));
    }
}

/// The views of schemas, events and pool show every item, in its place.
pub proof fn law_views_show_run(
    schemas: Seq<FuzzSchema>,
    events: Seq<ExpectedEvent>,
    pool: Seq<(u32, Vec<u64>)>,
)
    ensures
        schema_views(schemas).len() == schemas.len(),
        event_views(events).len() == events.len(),
        pool_views(pool).len() == pool.len(),
        forall|i: int|
            0 <= i < schemas.len() ==> {
                &&& (#[trigger] schema_views(schemas)[i]).fields == schemas[i].fields@
                &&& schema_views(schemas)[i].optional == schemas[i].optional@
            },
        forall|i: int|
            0 <= i < events.len() ==> {
                &&& (#[trigger] event_views(events)[i]).schema == events[i].schema
                &&& event_views(events)[i].timestamp == events[i].timestamp
                &&& event_views(events)[i].values.len() == events[i].values@.len()
            },
        forall|i: int, j: int|
            0 <= i < events.len() && 0 <= j < events[i].values@.len() ==> #[trigger] event_views(
                events,
            )[i].values[j] == events[i].values@[j]@,
        forall|i: int|
            0 <= i < pool.len() ==> {
                &&& (#[trigger] pool_views(pool)[i]).0 == pool[i].0
                &&& pool_views(pool)[i].1 == pool[i].1@
            },
{
}

/// What a run writes in the end: the values of each event in their order, where the
/// encoder gives the stack of action `i` the identifier `ids(i)`.
pub open spec fn written(run: RunView, ids: spec_fn(int) -> u32) -> Seq<Seq<FieldValueView>>
    decreases run.actions.len() - run.at,
{
    match next_step(run) {
        StepView::WriteEvent { run: after, values, .. } => seq![values] + written(after, ids),
        StepView::InternString { run: after, .. } => written(after, ids),
        StepView::InternStackFrames { run: after, frames } => written(
            after_interned(after, frames, ids(run.at)),
            ids,
        ),
        _ => seq![],
    }
}

/// A run that does not give up expects exactly what it writes: for each event that is
/// written, in its order, one with the first written value as its timestamp and the
/// others as its values.
pub proof fn law_run_expects_what_it_writes(run: RunView, ids: spec_fn(int) -> u32)
    requires
        run_ok(run),
    ensures
        completed(run, ids) matches Some((events, _)) ==> {
            let n = run.events.len() as int;
            &&& events.len() == n + written(run, ids).len()
            &&& run.events.is_prefix_of(events)
            &&& forall|i: int|
                0 <= i < written(run, ids).len() ==> {
                    let values = #[trigger] written(run, ids)[i];
                    &&& values.len() == events[n + i].values.len() + 1
                    &&& values[0] == FieldValueView::Varint(events[n + i].timestamp)
                    &&& values.skip(1) == events[n + i].values
                }
        },
    decreases run.actions.len() - run.at,
{
    law_steps_advance(run, ids(run.at));
    law_expected_event_is_written_event(run);
    let n = run.events.len() as int;
    match next_step(run) {
        StepView::WriteEvent { run: after, values, .. } => {
            law_run_expects_what_it_writes(after, ids);
            if let Some((events, _)) = completed(after, ids) {
                assert(events[n] == after.events[n]);
                assert(run.events.is_prefix_of(events)) by {
                    assert forall|k: int| 0 <= k < n implies run.events[k] == events[k] by {
                        assert(run.events[k] == after.events[k]);
                    }
                    assert(run.events =~= events.subrange(0, n));
                }
                assert forall|i: int| 0 <= i < written(run, ids).len() implies {
                    let values = #[trigger] written(run, ids)[i];
                    &&& values.len() == events[n + i].values.len() + 1
                    &&& values[0] == FieldValueView::Varint(events[n + i].timestamp)
                    &&& values.skip(1) == events[n + i].values
                } by {
                    if i > 0 {
                        assert(written(run, ids)[i] == written(after, ids)[i - 1]);
                        assert(events[n + i] == events[n + 1 + (i - 1)]);
                    }
                }
            }
        },
        StepView::InternString { run: after, .. } => {
            law_run_expects_what_it_writes(after, ids);
        },
        StepView::InternStackFrames { run: after, frames } => {
            law_run_expects_what_it_writes(after_interned(after, frames, ids(run.at)), ids);
        },
        _ => {},
    }
}

/// A field may be left out exactly where the list of optional fields reaches to it
/// and says so.
pub proof fn law_optional_fields(schema: FuzzSchema, j: int)
    ensures
        is_optional(schema@, j) <==> j < schema.optional@.len() && schema.optional@[j],
{
}

/// The view of a step tells the steps apart and shows what each hands out.
pub proof fn law_view_shows_run_step<'a>(step: Step<'a>)
    ensures
        match step {
            Step::WriteEvent { run, schema, values } => {
                &&& step@ is WriteEvent
                &&& step@->WriteEvent_run == run@
                &&& step@->WriteEvent_schema == schema
                &&& step@->WriteEvent_values.len() == values@.len()
                &&& forall|i: int|
                    0 <= i < values@.len() ==> #[trigger] step@->WriteEvent_values[i]
                        == values@[i]@
            },
            Step::InternString { run, text } => {
                &&& step@ is InternString
                &&& step@->InternString_run == run@
                &&& step@->text == text@
            },
            Step::InternStackFrames(waiting) => {
                &&& step@ is InternStackFrames
                &&& step@->InternStackFrames_run == waiting.run()
                &&& step@->frames == waiting.stack()
            },
            Step::Finish(expected) => {
                &&& step@ is Finish
                &&& step@->events.len() == expected.events@.len()
                &&& step@->pool.len() == expected.pool@.len()
                &&& forall|i: int|
                    0 <= i < expected.events@.len() ==> #[trigger] step@->events[i]
                        == expected.events@[i]@
                &&& forall|i: int|
                    0 <= i < expected.pool@.len() ==> #[trigger] step@->pool[i] == (
                        expected.pool@[i].0,
                        expected.pool@[i].1@,
                    )
            },
            Step::GiveUp => step@ is GiveUp,
        },
{
}

} // verus!
