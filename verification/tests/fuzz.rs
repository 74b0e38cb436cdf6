//! Values drawn from bytes, runs and the check of what was decoded.

use arbitrary::Unstructured;
use dial9::fuzz::round_trip::{
    Expected, ExpectedEvent, FuzzAction, FuzzInput, FuzzRun, FuzzSchema, StackFrames8, Step,
    String8, TIMESTAMP_LIMIT,
};
use dial9::fuzz::value::{gen_value, varint_interesting, FieldType, FieldValue, FuzzFieldType};
use dial9::fuzz::verdict::{DecodedEvent, Mismatch};

const TYPES: [FuzzFieldType; 10] = [
    FuzzFieldType::I64,
    FuzzFieldType::F64,
    FuzzFieldType::Bool,
    FuzzFieldType::String,
    FuzzFieldType::Bytes,
    FuzzFieldType::PooledString,
    FuzzFieldType::StackFrames,
    FuzzFieldType::PooledStackFrames,
    FuzzFieldType::Varint,
    FuzzFieldType::StringMap,
];

const EDGES: [u64; 8] =
    [0, 127, 128, 16383, 16384, u32::MAX as u64, u64::MAX / 2, u64::MAX];

/// The value that the entropy source itself gives, by plain calls.
fn reference(
    ft: FuzzFieldType,
    u: &mut Unstructured,
    ids: &[u32],
) -> arbitrary::Result<FieldValue> {
    Ok(match ft {
        FuzzFieldType::I64 => FieldValue::I64(u.arbitrary()?),
        FuzzFieldType::F64 => FieldValue::F64(u.arbitrary::<f64>()?.to_bits()),
        FuzzFieldType::Bool => FieldValue::Bool(u.arbitrary()?),
        FuzzFieldType::String => {
            let len: usize = u.int_in_range(0..=32)?;
            FieldValue::String(String::from_utf8_lossy(u.bytes(len)?).into_owned())
        }
        FuzzFieldType::Bytes => {
            let len: usize = u.int_in_range(0..=32)?;
            FieldValue::Bytes(u.bytes(len)?.to_vec())
        }
        FuzzFieldType::PooledString => FieldValue::PooledString(u.int_in_range(0..=50)?),
        FuzzFieldType::StackFrames => {
            let count: usize = u.int_in_range(0..=8)?;
            let mut frames = Vec::new();
            for _ in 0..count {
                frames.push(u.arbitrary()?);
            }
            FieldValue::StackFrames(frames)
        }
        FuzzFieldType::PooledStackFrames => {
            let id = if !ids.is_empty() && u.ratio(3, 4)? {
                ids[u.int_in_range(0..=ids.len() - 1)?]
            } else {
                u.int_in_range(0..=50)?
            };
            FieldValue::PooledStackFrames(id)
        }
        FuzzFieldType::Varint => {
            if u.ratio(1, 4)? {
                FieldValue::Varint(EDGES[u.int_in_range(0..=7)?])
            } else {
                FieldValue::Varint(u.arbitrary()?)
            }
        }
        FuzzFieldType::StringMap => {
            let count: usize = u.int_in_range(0..=4)?;
            let mut pairs = Vec::new();
            for _ in 0..count {
                let klen: usize = u.int_in_range(0..=8)?;
                let vlen: usize = u.int_in_range(0..=8)?;
                pairs.push((u.bytes(klen)?.to_vec(), u.bytes(vlen)?.to_vec()));
            }
            FieldValue::StringMap(pairs)
        }
    })
}

fn noise(seed: u64, len: usize) -> Vec<u8> {
    let mut state = seed.wrapping_mul(0x9e37_79b9_7f4a_7c15) | 1;
    let mut bytes = Vec::new();
    for _ in 0..len {
        state ^= state << 13;
        state ^= state >> 7;
        state ^= state << 17;
        bytes.push((state >> 24) as u8);
    }
    bytes
}

fn drawn(ft: FuzzFieldType, data: &[u8], ids: &[u32]) -> FieldValue {
    gen_value(ft, data, ids).unwrap().0
}

#[test]
fn drawn_values_are_those_of_the_entropy_source() {
    let many: Vec<u32> = (0..700).map(|i| i * 3).collect();
    let pools: [&[u32]; 4] = [&[], &[9], &[9, 8, 7], &many];
    for seed in 0..300u64 {
        for len in [0usize, 1, 2, 5, 9, 20, 80] {
            let data = noise(seed, len);
            for ft in TYPES {
                for ids in pools {
                    let mut source = Unstructured::new(&data);
                    let expected = reference(ft, &mut source, ids);
                    match gen_value(ft, &data, ids) {
                        Some((value, rest)) => {
                            assert!(value == expected.unwrap());
                            assert_eq!(rest, source.take_rest());
                        }
                        None => assert!(expected.is_err()),
                    }
                }
            }
        }
    }
}

#[test]
fn numbers_are_little_endian_and_padded() {
    let data = [1, 2, 0, 0, 0, 0, 0, 0x80, 9];
    let (value, rest) = gen_value(FuzzFieldType::I64, &data, &[]).unwrap();
    assert!(value == FieldValue::I64(i64::MIN + 0x201));
    assert_eq!(rest, &[9]);
    assert!(drawn(FuzzFieldType::I64, &[7], &[]) == FieldValue::I64(7));
    assert!(drawn(FuzzFieldType::F64, &[0, 0, 0, 0, 0, 0, 0xf8, 0x7f], &[])
        == FieldValue::F64(f64::NAN.to_bits()));
    assert!(drawn(FuzzFieldType::Bool, &[3], &[]) == FieldValue::Bool(true));
    assert!(drawn(FuzzFieldType::Bool, &[2], &[]) == FieldValue::Bool(false));
    assert!(drawn(FuzzFieldType::Bool, &[], &[]) == FieldValue::Bool(false));
}

#[test]
fn text_is_drawn_behind_its_length() {
    let (value, rest) = gen_value(FuzzFieldType::String, &[3, 97, 98, 99, 9], &[]).unwrap();
    assert!(value == FieldValue::String("abc".to_string()));
    assert_eq!(rest, &[9]);
    let value = drawn(FuzzFieldType::String, &[2, 0xff, 97], &[]);
    assert!(value == FieldValue::String("\u{fffd}a".to_string()));
    assert!(drawn(FuzzFieldType::Bytes, &[35, 5, 6], &[]) == FieldValue::Bytes(vec![5, 6]));
    assert!(gen_value(FuzzFieldType::Bytes, &[5, 1], &[]).is_none());
    assert!(gen_value(FuzzFieldType::String, &[5, 1], &[]).is_none());
    assert!(gen_value(FuzzFieldType::StringMap, &[1, 2, 2, 7, 7, 7], &[]).is_none());
}

#[test]
fn pooled_stacks_prefer_known_identifiers() {
    let ft = FuzzFieldType::PooledStackFrames;
    assert!(drawn(ft, &[0, 1], &[10, 20]) == FieldValue::PooledStackFrames(20));
    assert!(drawn(ft, &[3, 9], &[10, 20]) == FieldValue::PooledStackFrames(9));
    assert!(drawn(ft, &[0], &[10]) == FieldValue::PooledStackFrames(10));
    assert!(drawn(ft, &[7], &[]) == FieldValue::PooledStackFrames(7));
}

#[test]
fn varints_stress_the_edges() {
    for (i, edge) in EDGES.iter().enumerate() {
        assert_eq!(varint_interesting(i as u64), *edge);
        assert!(drawn(FuzzFieldType::Varint, &[0, i as u8], &[]) == FieldValue::Varint(*edge));
    }
    assert!(drawn(FuzzFieldType::Varint, &[1, 5, 1], &[]) == FieldValue::Varint(0x105));
}

#[test]
fn drawn_types_stand_for_field_types() {
    let field_types = [
        FieldType::I64,
        FieldType::F64,
        FieldType::Bool,
        FieldType::String,
        FieldType::Bytes,
        FieldType::PooledString,
        FieldType::StackFrames,
        FieldType::PooledStackFrames,
        FieldType::Varint,
        FieldType::StringMap,
    ];
    for (drawn, expected) in TYPES.iter().zip(field_types) {
        assert_eq!(drawn.to_field_type(), expected);
    }
}

#[test]
fn values_of_all_types_are_compared() {
    let values = || {
        vec![
            FieldValue::I64(1),
            FieldValue::F64(1),
            FieldValue::Bool(true),
            FieldValue::String("a".to_string()),
            FieldValue::Bytes(vec![1]),
            FieldValue::PooledString(1),
            FieldValue::StackFrames(vec![1]),
            FieldValue::PooledStackFrames(1),
            FieldValue::Varint(1),
            FieldValue::StringMap(vec![(vec![1], vec![2])]),
            FieldValue::Absent,
        ]
    };
    for (i, a) in values().iter().enumerate() {
        for (j, b) in values().iter().enumerate() {
            assert_eq!(a == b, i == j);
        }
        assert!(a.clone() == *a);
    }
    assert!(FieldValue::StackFrames(vec![1]) != FieldValue::StackFrames(vec![1, 2]));
    assert!(
        FieldValue::StringMap(vec![(vec![1], vec![2])])
            != FieldValue::StringMap(vec![(vec![1], vec![3])])
    );
    assert!(FieldValue::Bytes(vec![1]) != FieldValue::Bytes(vec![2]));
}

fn schema(fields: Vec<FuzzFieldType>, optional: Vec<bool>) -> FuzzSchema {
    FuzzSchema { fields, optional }
}

fn event(schema_idx: u8) -> FuzzAction {
    FuzzAction::Event { schema_idx }
}

#[test]
fn runs_need_schemas_actions_and_few_fields() {
    let input = |schemas, actions| FuzzInput { schemas, actions };
    let empty = || schema(Vec::new(), Vec::new());
    let wide = || schema(vec![FuzzFieldType::Bool; 9], Vec::new());
    assert!(FuzzRun::start(input(Vec::new(), vec![event(0)]), &[]).is_none());
    assert!(FuzzRun::start(input(vec![empty()], Vec::new()), &[]).is_none());
    assert!(FuzzRun::start(input(vec![wide()], vec![event(0)]), &[]).is_none());
    assert!(FuzzRun::start(input(vec![empty()], vec![event(0)]), &[]).is_some());
    let four_and_wide = vec![empty(), empty(), empty(), empty(), wide()];
    let run = FuzzRun::start(input(four_and_wide, vec![event(0); 40]), &[]).unwrap();
    assert_eq!(run.schema_defs().len(), 4);
    let (expected, operations) = encode(run).unwrap();
    assert_eq!(expected.events.len(), 32);
    assert_eq!(operations.len(), 32);
}

#[test]
fn schemas_are_registered_with_numbered_names() {
    let fields = vec![FuzzFieldType::Varint, FuzzFieldType::Bool, FuzzFieldType::I64];
    let schemas =
        vec![schema(Vec::new(), vec![true]), schema(fields, vec![false, true])];
    let run = FuzzRun::start(FuzzInput { schemas, actions: vec![event(0)] }, &[]).unwrap();
    let defs = run.schema_defs();
    assert_eq!(defs[0].name, "S0");
    assert!(defs[0].fields.is_empty());
    assert_eq!(defs[1].name, "S1");
    let names: Vec<&str> = defs[1].fields.iter().map(|field| field.name.as_str()).collect();
    assert_eq!(names, vec!["f0", "f1", "f2"]);
    let optional: Vec<bool> = defs[1].fields.iter().map(|field| field.optional).collect();
    assert_eq!(optional, vec![false, true, false]);
    assert_eq!(defs[1].fields[2].field_type, FieldType::I64);
}

#[derive(Debug)]
enum Operation {
    Write(usize, Vec<FieldValue>),
    Text(String),
    Stack(Vec<u64>),
}

/// Encodes a run; a stack's identifier is the number of the first equal one.
fn encode(mut run: FuzzRun) -> Option<(Expected, Vec<Operation>)> {
    let mut operations = Vec::new();
    let mut stacks: Vec<Vec<u64>> = Vec::new();
    loop {
        run = match run.step() {
            Step::WriteEvent { run, schema, values } => {
                operations.push(Operation::Write(schema, values));
                run
            }
            Step::InternString { run, text } => {
                operations.push(Operation::Text(text));
                run
            }
            Step::InternStackFrames(waiting) => {
                let frames = waiting.frames().clone();
                let id = match stacks.iter().position(|stack| *stack == frames) {
                    Some(id) => id,
                    None => {
                        stacks.push(frames.clone());
                        stacks.len() - 1
                    }
                };
                operations.push(Operation::Stack(frames));
                waiting.interned(id as u32 + 100)
            }
            Step::Finish(expected) => return Some((expected, operations)),
            Step::GiveUp => return None,
        };
    }
}

fn stack(addrs: [u64; 8], len: u8) -> FuzzAction {
    FuzzAction::PoolStackFrames(StackFrames8 { addrs, len })
}

fn sample_run(data: &[u8]) -> FuzzRun<'_> {
    let schemas = vec![
        schema(vec![FuzzFieldType::Bool], vec![true]),
        schema(vec![FuzzFieldType::PooledStackFrames, FuzzFieldType::F64], Vec::new()),
    ];
    let actions = vec![
        FuzzAction::PoolString(String8 { data: *b"abcdefgh", len: 11 }),
        stack([1, 2, 3, 4, 5, 6, 7, 8], 2),
        stack([1, 2, 9, 9, 9, 9, 9, 9], 10),
        stack([5, 0, 0, 0, 0, 0, 0, 0], 1),
        event(3),
        event(2),
    ];
    FuzzRun::start(FuzzInput { schemas, actions }, data).unwrap()
}

/// The draws of the sample run: a known stack, a float, a timestamp with more than
/// 48 bits; then a field left out and a timestamp.
const SAMPLE: [u8; 27] = [
    0, 1, 5, 0, 0, 0, 0, 0, 0, 0, 0x10, 0, 0, 0, 0, 0, 0xff, 0xff, 0, 0x20, 0, 0, 0, 0, 0, 0, 0,
];

#[test]
fn run_writes_what_it_expects() {
    let (expected, operations) = encode(sample_run(&SAMPLE)).unwrap();
    assert_eq!(operations.len(), 6);
    match &operations[0] {
        Operation::Text(text) => assert_eq!(text, "abc"),
        other => panic!("{other:?}"),
    }
    match &operations[1] {
        Operation::Stack(frames) => assert_eq!(*frames, vec![1, 2]),
        other => panic!("{other:?}"),
    }
    match &operations[4] {
        Operation::Write(schema, values) => {
            assert_eq!(*schema, 1);
            assert!(
                *values
                    == vec![
                        FieldValue::Varint(0x10),
                        FieldValue::PooledStackFrames(101),
                        FieldValue::F64(5),
                    ]
            );
        }
        other => panic!("{other:?}"),
    }
    match &operations[5] {
        Operation::Write(schema, values) => {
            assert_eq!(*schema, 0);
            assert!(*values == vec![FieldValue::Varint(0x20), FieldValue::Absent]);
        }
        other => panic!("{other:?}"),
    }
    assert_eq!(expected.pool, vec![(100, vec![1, 2]), (101, vec![5])]);
    assert_eq!(expected.events.len(), 2);
    assert_eq!(expected.events[0].schema, 1);
    assert_eq!(expected.events[0].timestamp, 0x10);
    assert_eq!(expected.events[0].values.len(), 2);
    assert_eq!(expected.events[1].timestamp, 0x20);
}

#[test]
fn run_gives_up_where_the_bytes_run_out() {
    let schemas = vec![schema(vec![FuzzFieldType::Bytes], Vec::new())];
    let input = FuzzInput { schemas, actions: vec![event(0)] };
    assert!(encode(FuzzRun::start(input, &[20, 1]).unwrap()).is_none());
}

#[test]
fn timestamps_stay_below_their_limit() {
    assert_eq!(TIMESTAMP_LIMIT, 1u64 << 48);
    let input = FuzzInput {
        schemas: vec![schema(Vec::new(), Vec::new())],
        actions: vec![event(0)],
    };
    let (expected, _) = encode(FuzzRun::start(input, &[0xff; 8]).unwrap()).unwrap();
    assert_eq!(expected.events[0].timestamp, (1u64 << 48) - 1);
}

fn expected_sample() -> Expected {
    Expected {
        events: vec![ExpectedEvent {
            schema: 3,
            timestamp: 50,
            values: vec![FieldValue::F64(1), FieldValue::Varint(2)],
        }],
        pool: vec![(8, vec![1, 2])],
    }
}

fn decoded(timestamp: Option<u64>, values: Vec<FieldValue>) -> Vec<DecodedEvent> {
    vec![DecodedEvent { timestamp, values }]
}

fn right_values() -> Vec<FieldValue> {
    vec![FieldValue::F64(1), FieldValue::Varint(2)]
}

#[test]
fn faithful_decoding_passes() {
    let resolved = vec![Some(vec![1, 2])];
    assert_eq!(expected_sample().check(&decoded(Some(50), right_values()), &resolved), Ok(()));
}

#[test]
fn every_mismatch_is_found() {
    let check = |events: Vec<DecodedEvent>, resolved: Vec<Option<Vec<u64>>>| {
        let mismatch = expected_sample().check(&events, &resolved).unwrap_err();
        (mismatch, mismatch.message())
    };
    let good = || vec![Some(vec![1, 2])];
    let right = || decoded(Some(50), right_values());
    assert_eq!(
        check(Vec::new(), good()),
        (Mismatch::EventCount, "event count mismatch".to_string())
    );
    let missing =
        (Mismatch::MissingStack { id: 8 }, "stack pool missing entry for id 8".to_string());
    assert_eq!(check(right(), vec![None]), missing);
    assert_eq!(check(right(), Vec::new()), missing);
    assert_eq!(
        check(right(), vec![Some(vec![1])]),
        (Mismatch::StackFrames { id: 8 }, "stack pool frames mismatch for id 8".to_string())
    );
    let late = (
        Mismatch::Timestamp { event: 0, schema: 3 },
        "timestamp mismatch in event 0 (schema 3)".to_string(),
    );
    assert_eq!(check(decoded(None, right_values()), good()), late);
    assert_eq!(check(decoded(Some(51), right_values()), good()), late);
    assert_eq!(
        check(decoded(Some(50), vec![FieldValue::F64(1)]), good()),
        (
            Mismatch::FieldCount { event: 0, schema: 3 },
            "field count mismatch in event 0 (schema 3)".to_string()
        )
    );
    let values = vec![FieldValue::F64(9), FieldValue::Varint(2)];
    assert_eq!(
        check(decoded(Some(50), values), good()),
        (Mismatch::Float { event: 0, field: 0 }, "f64 mismatch event 0 field 0".to_string())
    );
    let values = vec![FieldValue::F64(1), FieldValue::Absent];
    assert_eq!(
        check(decoded(Some(50), values), good()),
        (
            Mismatch::Field { event: 0, field: 1, schema: 3 },
            "mismatch event 0 field 1 (schema 3)".to_string()
        )
    );
}
