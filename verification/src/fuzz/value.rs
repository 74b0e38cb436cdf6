//! Field values of the trace format and how they are drawn.

use crate::fuzz::entropy::{
    behind, byte_at, byte_width, draw_bool, draw_bytes, draw_ratio, draw_u64, draw_up_to, drawn_bool,
    drawn_ratio, drawn_u64, drawn_up_to, law_draws_share_the_bytes,
    law_drawn_bool_is_parity, law_drawn_number_is_in_range, law_drawn_number_is_remainder,
    law_drawn_ratio_is_odds,
};
use crate::text::{lossy_text, utf8_lossy};
use vstd::prelude::*;
use vstd::std_specs::cmp::PartialEqSpec;

verus! {

/// The type of a field that the fuzzer draws.
#[derive(Clone, Copy, Debug, PartialEq, Eq, Structural)]
pub enum FuzzFieldType {
    I64,
    F64,
    Bool,
    String,
    Bytes,
    PooledString,
    StackFrames,
    PooledStackFrames,
    Varint,
    StringMap,
}

/// The type of a field of the trace format.
#[derive(Clone, Copy, Debug, PartialEq, Eq, Structural)]
pub enum FieldType {
    I64,
    F64,
    Bool,
    String,
    Bytes,
    PooledString,
    StackFrames,
    PooledStackFrames,
    Varint,
    StringMap,
}

/// The trace format's type for a drawn one.
pub open spec fn field_type_of(ft: FuzzFieldType) -> FieldType {
    match ft {
        FuzzFieldType::I64 => FieldType::I64,
        FuzzFieldType::F64 => FieldType::F64,
        FuzzFieldType::Bool => FieldType::Bool,
        FuzzFieldType::String => FieldType::String,
        FuzzFieldType::Bytes => FieldType::Bytes,
        FuzzFieldType::PooledString => FieldType::PooledString,
        FuzzFieldType::StackFrames => FieldType::StackFrames,
        FuzzFieldType::PooledStackFrames => FieldType::PooledStackFrames,
        FuzzFieldType::Varint => FieldType::Varint,
        FuzzFieldType::StringMap => FieldType::StringMap,
    }
}

impl FuzzFieldType {
    /// The trace format's type.
    pub fn to_field_type(self) -> (res: FieldType)
        ensures
            res == field_type_of(self),
    {
        match self {
            FuzzFieldType::I64 => FieldType::I64,
            FuzzFieldType::F64 => FieldType::F64,
            FuzzFieldType::Bool => FieldType::Bool,
            FuzzFieldType::String => FieldType::String,
            FuzzFieldType::Bytes => FieldType::Bytes,
            FuzzFieldType::PooledString => FieldType::PooledString,
            FuzzFieldType::StackFrames => FieldType::StackFrames,
            FuzzFieldType::PooledStackFrames => FieldType::PooledStackFrames,
            FuzzFieldType::Varint => FieldType::Varint,
            FuzzFieldType::StringMap => FieldType::StringMap,
        }
    }
}

/// The value of a field.
#[derive(Debug)]
pub enum FieldValue {
    I64(i64),
    /// A floating-point number, by its bits.
    F64(u64),
    Bool(bool),
    String(String),
    Bytes(Vec<u8>),
    PooledString(u32),
    StackFrames(Vec<u64>),
    PooledStackFrames(u32),
    Varint(u64),
    StringMap(Vec<(Vec<u8>, Vec<u8>)>),
    /// An optional field without a value.
    Absent,
}

#[verifier::ext_equal]
pub enum FieldValueView {
    I64(i64),
    F64(u64),
    Bool(bool),
    String(Seq<char>),
    Bytes(Seq<u8>),
    PooledString(u32),
    StackFrames(Seq<u64>),
    PooledStackFrames(u32),
    Varint(u64),
    StringMap(Seq<(Seq<u8>, Seq<u8>)>),
    Absent,
}

pub open spec fn pair_views(pairs: Seq<(Vec<u8>, Vec<u8>)>) -> Seq<(Seq<u8>, Seq<u8>)> {
    Seq::new(pairs.len(), |i: int| (pairs[i].0@, pairs[i].1@))
}

impl View for FieldValue {
    type V = FieldValueView;

    open spec fn view(&self) -> FieldValueView {
        match *self {
            FieldValue::I64(v) => FieldValueView::I64(v),
            FieldValue::F64(v) => FieldValueView::F64(v),
            FieldValue::Bool(v) => FieldValueView::Bool(v),
            FieldValue::String(v) => FieldValueView::String(v@),
            FieldValue::Bytes(v) => FieldValueView::Bytes(v@),
            FieldValue::PooledString(v) => FieldValueView::PooledString(v),
            FieldValue::StackFrames(v) => FieldValueView::StackFrames(v@),
            FieldValue::PooledStackFrames(v) => FieldValueView::PooledStackFrames(v),
            FieldValue::Varint(v) => FieldValueView::Varint(v),
            FieldValue::StringMap(v) => FieldValueView::StringMap(pair_views(v@)),
            FieldValue::Absent => FieldValueView::Absent,
        }
    }
}

fn copy_pairs(pairs: &Vec<(Vec<u8>, Vec<u8>)>) -> (res: Vec<(Vec<u8>, Vec<u8>)>)
    ensures
        pair_views(res@) == pair_views(pairs@),
{
    let mut copy: Vec<(Vec<u8>, Vec<u8>)> = Vec::new();
    let mut i: usize = 0;
    while i < pairs.len()
        invariant
            i <= pairs@.len(),
            copy@.len() == i,
            forall|j: int|
                0 <= j < i ==> (#[trigger] copy@[j]).0@ == pairs@[j].0@ && copy@[j].1@
                    == pairs@[j].1@,
        decreases pairs.len() - i,
    {
        let key: Vec<u8> = slice_to_vec(pairs[i].0.as_slice());
        let value: Vec<u8> = slice_to_vec(pairs[i].1.as_slice());
        copy.push((key, value));
        i = i + 1;
    }
    assert(pair_views(copy@) =~= pair_views(pairs@));
    copy
}

fn copy_frames(frames: &[u64]) -> (res: Vec<u64>)
    ensures
        res@ == frames@,
{
    let mut copy: Vec<u64> = Vec::new();
    let mut i: usize = 0;
    while i < frames.len()
        invariant
            i <= frames@.len(),
            copy@ == frames@.take(i as int),
        decreases frames.len() - i,
    {
        copy.push(frames[i]);
        i = i + 1;
        assert(copy@ =~= frames@.take(i as int));
    }
    assert(copy@ =~= frames@);
    copy
}

impl Clone for FieldValue {
    fn clone(&self) -> (res: Self)
        ensures
            res@ == self@,
    {
        match self {
            FieldValue::I64(v) => FieldValue::I64(*v),
            FieldValue::F64(v) => FieldValue::F64(*v),
            FieldValue::Bool(v) => FieldValue::Bool(*v),
            FieldValue::String(v) => FieldValue::String(v.clone()),
            FieldValue::Bytes(v) => FieldValue::Bytes(slice_to_vec(v.as_slice())),
            FieldValue::PooledString(v) => FieldValue::PooledString(*v),
            FieldValue::StackFrames(v) => FieldValue::StackFrames(copy_frames(v.as_slice())),
            FieldValue::PooledStackFrames(v) => FieldValue::PooledStackFrames(*v),
            FieldValue::Varint(v) => FieldValue::Varint(*v),
            FieldValue::StringMap(v) => FieldValue::StringMap(copy_pairs(v)),
            FieldValue::Absent => FieldValue::Absent,
        }
    }
}

fn same_bytes(a: &[u8], b: &[u8]) -> (res: bool)
    ensures
        res == (a@ == b@),
{
    if a.len() != b.len() {
        return false;
    }
    let mut i: usize = 0;
    while i < a.len()
        invariant
            i <= a@.len(),
            a@.len() == b@.len(),
            forall|j: int| 0 <= j < i ==> a@[j] == b@[j],
        decreases a.len() - i,
    {
        if a[i] != b[i] {
            return false;
        }
        i = i + 1;
    }
    assert(a@ =~= b@);
    true
}

pub(crate) fn same_frames(a: &[u64], b: &[u64]) -> (res: bool)
    ensures
        res == (a@ == b@),
{
    if a.len() != b.len() {
        return false;
    }
    let mut i: usize = 0;
    while i < a.len()
        invariant
            i <= a@.len(),
            a@.len() == b@.len(),
            forall|j: int| 0 <= j < i ==> a@[j] == b@[j],
        decreases a.len() - i,
    {
        if a[i] != b[i] {
            return false;
        }
        i = i + 1;
    }
    assert(a@ =~= b@);
    true
}

fn same_pairs(a: &Vec<(Vec<u8>, Vec<u8>)>, b: &Vec<(Vec<u8>, Vec<u8>)>) -> (res: bool)
    ensures
        res == (pair_views(a@) == pair_views(b@)),
{
    if a.len() != b.len() {
        assert(pair_views(a@).len() != pair_views(b@).len());
        return false;
    }
    let mut i: usize = 0;
    while i < a.len()
        invariant
            i <= a@.len(),
            a@.len() == b@.len(),
            forall|j: int| 0 <= j < i ==> #[trigger] pair_views(a@)[j] == pair_views(b@)[j],
        decreases a.len() - i,
    {
        if !same_bytes(a[i].0.as_slice(), b[i].0.as_slice()) || !same_bytes(
            a[i].1.as_slice(),
            b[i].1.as_slice(),
        ) {
            assert(pair_views(a@)[i as int] != pair_views(b@)[i as int]);
            return false;
        }
        i = i + 1;
    }
    assert(pair_views(a@) =~= pair_views(b@));
    true
}

impl PartialEq for FieldValue {
    fn eq(&self, other: &Self) -> (res: bool) {
        match (self, other) {
            (FieldValue::I64(a), FieldValue::I64(b)) => *a == *b,
            (FieldValue::F64(a), FieldValue::F64(b)) => *a == *b,
            (FieldValue::Bool(a), FieldValue::Bool(b)) => *a == *b,
            (FieldValue::String(a), FieldValue::String(b)) => *a == *b,
            (FieldValue::Bytes(a), FieldValue::Bytes(b)) => same_bytes(a.as_slice(), b.as_slice()),
            (FieldValue::PooledString(a), FieldValue::PooledString(b)) => *a == *b,
            (FieldValue::StackFrames(a), FieldValue::StackFrames(b)) => same_frames(
                a.as_slice(),
                b.as_slice(),
            ),
            (FieldValue::PooledStackFrames(a), FieldValue::PooledStackFrames(b)) => *a == *b,
            (FieldValue::Varint(a), FieldValue::Varint(b)) => *a == *b,
            (FieldValue::StringMap(a), FieldValue::StringMap(b)) => same_pairs(a, b),
            (FieldValue::Absent, FieldValue::Absent) => true,
            _ => false,
        }
    }
}

/// Two values are equal where they are the same value; floating-point numbers
/// are compared by their bits.
impl vstd::std_specs::cmp::PartialEqSpecImpl for FieldValue {
    open spec fn obeys_eq_spec() -> bool {
        true
    }

    open spec fn eq_spec(&self, other: &Self) -> bool {
        self@ == other@
    }
}

/// The value belongs to the type.
pub open spec fn has_type(value: FieldValueView, ft: FuzzFieldType) -> bool {
    match ft {
        FuzzFieldType::I64 => value is I64,
        FuzzFieldType::F64 => value is F64,
        FuzzFieldType::Bool => value is Bool,
        FuzzFieldType::String => value is String,
        FuzzFieldType::Bytes => value is Bytes,
        FuzzFieldType::PooledString => value is PooledString,
        FuzzFieldType::StackFrames => value is StackFrames,
        FuzzFieldType::PooledStackFrames => value is PooledStackFrames,
        FuzzFieldType::Varint => value is Varint,
        FuzzFieldType::StringMap => value is StringMap,
    }
}

/// Numbers at the edges of the variable-length encoding.
pub open spec fn varint_edge(i: int) -> u64 {
    if i == 0 {
        0
    } else if i == 1 {
        127
    } else if i == 2 {
        128
    } else if i == 3 {
        16383
    } else if i == 4 {
        16384
    } else if i == 5 {
        0xffff_ffff
    } else if i == 6 {
        0x7fff_ffff_ffff_ffff
    } else {
        0xffff_ffff_ffff_ffff
    }
}

/// Varint boundary values that stress LEB128 encoding edges.
pub fn varint_interesting(i: u64) -> (res: u64)
    requires
        i < 8,
    ensures
        res == varint_edge(i as int),
{
    match i {
        0 => 0,
        1 => 127,
        2 => 128,
        3 => 16383,
        4 => 16384,
        5 => 0xffff_ffff,
        6 => 0x7fff_ffff_ffff_ffff,
        _ => 0xffff_ffff_ffff_ffff,
    }
}

/// A drawn value and the bytes that are left; `None` where the bytes run out.
pub type Drawn<T> = Option<(T, Seq<u8>)>;

/// A byte string of up to `max` bytes: its length, then its bytes.
pub open spec fn drawn_blob(data: Seq<u8>, max: u64) -> Drawn<Seq<u8>> {
    let n = drawn_up_to(data, max) as int;
    let rest = behind(data, byte_width(max as nat));
    if n <= rest.len() {
        Some((rest.take(n), rest.skip(n)))
    } else {
        None
    }
}

/// `n` addresses.
pub open spec fn drawn_frames(data: Seq<u8>, n: nat) -> (Seq<u64>, Seq<u8>)
    decreases n,
{
    if n == 0 {
        (Seq::empty(), data)
    } else {
        let (front, rest) = drawn_frames(data, (n - 1) as nat);
        (front.push(drawn_u64(rest)), behind(rest, 8))
    }
}

/// A key and a value of up to eight bytes each: both lengths, then both.
pub open spec fn drawn_pair(data: Seq<u8>) -> Drawn<(Seq<u8>, Seq<u8>)> {
    let key_len = drawn_up_to(data, 8) as int;
    let data1 = behind(data, byte_width(8));
    let value_len = drawn_up_to(data1, 8) as int;
    let data2 = behind(data1, byte_width(8));
    if key_len + value_len <= data2.len() {
        let data3 = data2.skip(key_len);
        Some(((data2.take(key_len), data3.take(value_len)), data3.skip(value_len)))
    } else {
        None
    }
}

/// `n` pairs of a key and a value.
pub open spec fn drawn_pairs(data: Seq<u8>, n: nat) -> Drawn<Seq<(Seq<u8>, Seq<u8>)>>
    decreases n,
{
    if n == 0 {
        Some((Seq::empty(), data))
    } else {
        match drawn_pairs(data, (n - 1) as nat) {
            Some((front, rest)) => match drawn_pair(rest) {
                Some((pair, rest)) => Some((front.push(pair), rest)),
                None => None,
            },
            None => None,
        }
    }
}

/// The identifier of a pooled stack: mostly one that was interned, else any up
/// to 50.
pub open spec fn drawn_stack_id(data: Seq<u8>, interned: Seq<u32>) -> (u32, Seq<u8>) {
    if interned.len() == 0 {
        (drawn_up_to(data, 50) as u32, behind(data, byte_width(50)))
    } else {
        let rest = behind(data, byte_width(3));
        if drawn_ratio(data, 3, 4) {
            let last = (interned.len() - 1) as u64;
            (interned[drawn_up_to(rest, last) as int], behind(rest, byte_width(last as nat)))
        } else {
            (drawn_up_to(rest, 50) as u32, behind(rest, byte_width(50)))
        }
    }
}

/// A number, one time in four an edge of the variable-length encoding.
pub open spec fn drawn_varint(data: Seq<u8>) -> (u64, Seq<u8>) {
    let rest = behind(data, byte_width(3));
    if drawn_ratio(data, 1, 4) {
        (varint_edge(drawn_up_to(rest, 7) as int), behind(rest, byte_width(7)))
    } else {
        (drawn_u64(rest), behind(rest, 8))
    }
}

/// The value of a field of the given type, drawn from the bytes. Signed and
/// floating-point numbers are the 64 bits of an unsigned one.
pub open spec fn drawn_value(ft: FuzzFieldType, data: Seq<u8>, interned: Seq<u32>) -> Drawn<
    FieldValueView,
> {
    match ft {
        FuzzFieldType::I64 => Some(
            (FieldValueView::I64(drawn_u64(data) as i64), behind(data, 8)),
        ),
        FuzzFieldType::F64 => Some((FieldValueView::F64(drawn_u64(data)), behind(data, 8))),
        FuzzFieldType::Bool => Some((FieldValueView::Bool(drawn_bool(data)), behind(data, 1))),
        FuzzFieldType::String => match drawn_blob(data, 32) {
            Some((bytes, rest)) => Some((FieldValueView::String(utf8_lossy(bytes)), rest)),
            None => None,
        },
        FuzzFieldType::Bytes => match drawn_blob(data, 32) {
            Some((bytes, rest)) => Some((FieldValueView::Bytes(bytes), rest)),
            None => None,
        },
        FuzzFieldType::PooledString => Some(
            (
                FieldValueView::PooledString(drawn_up_to(data, 50) as u32),
                behind(data, byte_width(50)),
            ),
        ),
        FuzzFieldType::StackFrames => {
            let (frames, rest) = drawn_frames(
                behind(data, byte_width(8)),
                drawn_up_to(data, 8) as nat,
            );
            Some((FieldValueView::StackFrames(frames), rest))
        },
        FuzzFieldType::PooledStackFrames => {
            let (id, rest) = drawn_stack_id(data, interned);
            Some((FieldValueView::PooledStackFrames(id), rest))
        },
        FuzzFieldType::Varint => {
            let (number, rest) = drawn_varint(data);
            Some((FieldValueView::Varint(number), rest))
        },
        FuzzFieldType::StringMap => match drawn_pairs(
            behind(data, byte_width(4)),
            drawn_up_to(data, 4) as nat,
        ) {
            Some((pairs, rest)) => Some((FieldValueView::StringMap(pairs), rest)),
            None => None,
        },
    }
}

/// The result of a draw in verified code is the drawn value.
pub open spec fn draws<'a>(res: Option<(FieldValue, &'a [u8])>, drawn: Drawn<FieldValueView>) -> bool {
    match res {
        Some((value, rest)) => drawn == Some((value@, rest@)),
        None => drawn is None,
    }
}

fn gen_blob(data: &[u8], max: u64) -> (res: Option<(Vec<u8>, &[u8])>)
    requires
        max <= 0xffff,
    ensures
        res matches Some((bytes, _)) ==> bytes@.len() <= max,
        match res {
            Some((bytes, rest)) => drawn_blob(data@, max) == Some((bytes@, rest@)),
            None => drawn_blob(data@, max) is None,
        },
{
    let (n, rest) = draw_up_to(data, max)?;
    proof {
        law_drawn_number_is_in_range(data@, max);
    }
    let len: usize = n as usize;
    match draw_bytes(rest, len) {
        Some((bytes, rest)) => Some((slice_to_vec(bytes), rest)),
        None => None,
    }
}

fn slice_to_vec(bytes: &[u8]) -> (res: Vec<u8>)
    ensures
        res@ == bytes@,
{
    let mut copy: Vec<u8> = Vec::new();
    let mut i: usize = 0;
    while i < bytes.len()
        invariant
            i <= bytes@.len(),
            copy@ == bytes@.take(i as int),
        decreases bytes.len() - i,
    {
        copy.push(bytes[i]);
        i = i + 1;
        assert(copy@ =~= bytes@.take(i as int));
    }
    assert(copy@ =~= bytes@);
    copy
}

fn gen_frames(data: &[u8], count: u64) -> (res: Option<(Vec<u64>, &[u8])>)
    ensures
        res matches Some((frames, rest)) && drawn_frames(data@, count as nat) == (frames@, rest@),
{
    let mut frames: Vec<u64> = Vec::new();
    let mut rest: &[u8] = data;
    let mut i: u64 = 0;
    while i < count
        invariant
            i <= count,
            drawn_frames(data@, i as nat) == (frames@, rest@),
        decreases count - i,
    {
        let (frame, left) = draw_u64(rest)?;
        frames.push(frame);
        rest = left;
        i = i + 1;
    }
    Some((frames, rest))
}

fn gen_pair(data: &[u8]) -> (res: Option<((Vec<u8>, Vec<u8>), &[u8])>)
    ensures
        match res {
            Some((pair, rest)) => drawn_pair(data@) == Some(((pair.0@, pair.1@), rest@)),
            None => drawn_pair(data@) is None,
        },
{
    let (key_len, data1) = draw_up_to(data, 8)?;
    let (value_len, data2) = draw_up_to(data1, 8)?;
    proof {
        law_drawn_number_is_in_range(data@, 8);
        law_drawn_number_is_in_range(data1@, 8);
    }
    let (key, data3) = draw_bytes(data2, key_len as usize)?;
    let (value, rest) = draw_bytes(data3, value_len as usize)?;
    Some(((slice_to_vec(key), slice_to_vec(value)), rest))
}

/// Where the first pairs cannot be drawn, no more pairs can.
proof fn lemma_pairs_fail(data: Seq<u8>, n: nat, m: nat)
    requires
        n <= m,
        drawn_pairs(data, n) is None,
    ensures
        drawn_pairs(data, m) is None,
    decreases m,
{
    if n < m {
        lemma_pairs_fail(data, n, (m - 1) as nat);
    }
}

fn gen_pairs(data: &[u8], count: u64) -> (res: Option<(Vec<(Vec<u8>, Vec<u8>)>, &[u8])>)
    ensures
        match res {
            Some((pairs, rest)) => drawn_pairs(data@, count as nat) == Some(
                (pair_views(pairs@), rest@),
            ),
            None => drawn_pairs(data@, count as nat) is None,
        },
{
    let mut pairs: Vec<(Vec<u8>, Vec<u8>)> = Vec::new();
    let mut rest: &[u8] = data;
    let mut i: u64 = 0;
    assert(pair_views(pairs@) =~= Seq::empty());
    while i < count
        invariant
            i <= count,
            drawn_pairs(data@, i as nat) == Some((pair_views(pairs@), rest@)),
        decreases count - i,
    {
        let ghost before = pairs@;
        match gen_pair(rest) {
            Some((pair, left)) => {
                pairs.push(pair);
                rest = left;
                i = i + 1;
                assert(pair_views(pairs@) =~= pair_views(before).push((pair.0@, pair.1@)));
            },
            None => {
                proof {
                    lemma_pairs_fail(data@, (i + 1) as nat, count as nat);
                }
                return None;
            },
        }
    }
    Some((pairs, rest))
}

fn gen_stack_id<'a>(data: &'a [u8], interned: &[u32]) -> (res: Option<(u32, &'a [u8])>)
    ensures
        res matches Some((id, rest)) && drawn_stack_id(data@, interned@) == (id, rest@),
{
    if interned.len() == 0 {
        let (id, rest) = draw_up_to(data, 50)?;
        return Some((id as u32, rest));
    }
    let (known, rest) = draw_ratio(data, 3, 4)?;
    if known {
        let last: u64 = (interned.len() - 1) as u64;
        proof {
            law_drawn_number_is_in_range(rest@, last);
        }
        let (i, rest) = draw_up_to(rest, last)?;
        Some((interned[i as usize], rest))
    } else {
        let (id, rest) = draw_up_to(rest, 50)?;
        Some((id as u32, rest))
    }
}

fn gen_varint(data: &[u8]) -> (res: Option<(u64, &[u8])>)
    ensures
        res matches Some((number, rest)) && drawn_varint(data@) == (number, rest@),
{
    let (edge, rest) = draw_ratio(data, 1, 4)?;
    if edge {
        proof {
            law_drawn_number_is_in_range(rest@, 7);
        }
        let (i, rest) = draw_up_to(rest, 7)?;
        Some((varint_interesting(i), rest))
    } else {
        draw_u64(rest)
    }
}

/// Draws the value of a field of the given type. `interned` are the identifiers
/// of the stacks in the pool. Gives the bytes that are left beside the value, or
/// `None` where they do not suffice.
pub fn gen_value<'a>(ft: FuzzFieldType, data: &'a [u8], interned: &[u32]) -> (res: Option<
    (FieldValue, &'a [u8]),
>)
    ensures
        draws(res, drawn_value(ft, data@, interned@)),
        match res {
            Some((value, rest)) => drawn_value(ft, data@, interned@) == Some((value@, rest@)),
            None => drawn_value(ft, data@, interned@) is None,
        },
        res matches Some((FieldValue::String(text), _)) ==> text@.len() <= 32,
{
    match ft {
        FuzzFieldType::I64 => {
            let (number, rest) = draw_u64(data)?;
            Some((FieldValue::I64(number as i64), rest))
        },
        FuzzFieldType::F64 => {
            let (bits, rest) = draw_u64(data)?;
            Some((FieldValue::F64(bits), rest))
        },
        FuzzFieldType::Bool => {
            let (truth, rest) = draw_bool(data)?;
            Some((FieldValue::Bool(truth), rest))
        },
        FuzzFieldType::String => {
            let (bytes, rest) = gen_blob(data, 32)?;
            Some((FieldValue::String(lossy_text(bytes.as_slice())), rest))
        },
        FuzzFieldType::Bytes => {
            let (bytes, rest) = gen_blob(data, 32)?;
            Some((FieldValue::Bytes(bytes), rest))
        },
        FuzzFieldType::PooledString => {
            let (id, rest) = draw_up_to(data, 50)?;
            Some((FieldValue::PooledString(id as u32), rest))
        },
        FuzzFieldType::StackFrames => {
            let (count, rest) = draw_up_to(data, 8)?;
            let (frames, rest) = gen_frames(rest, count)?;
            Some((FieldValue::StackFrames(frames), rest))
        },
        FuzzFieldType::PooledStackFrames => {
            let (id, rest) = gen_stack_id(data, interned)?;
            Some((FieldValue::PooledStackFrames(id), rest))
        },
        FuzzFieldType::Varint => {
            let (number, rest) = gen_varint(data)?;
            Some((FieldValue::Varint(number), rest))
        },
        FuzzFieldType::StringMap => {
            let (count, rest) = draw_up_to(data, 4)?;
            let (pairs, rest) = gen_pairs(rest, count)?;
            Some((FieldValue::StringMap(pairs), rest))
        },
    }
}

/// Every drawn value belongs to the type that it was drawn for.
pub proof fn law_drawn_value_has_type(ft: FuzzFieldType, data: Seq<u8>, interned: Seq<u32>)
    ensures
        drawn_value(ft, data, interned) matches Some((value, _)) ==> has_type(value, ft),
{
}

/// Only text, byte strings and string maps can fail to be drawn: the other types
/// make do with whatever bytes are left.
pub proof fn law_fixed_size_draws_never_fail(ft: FuzzFieldType, data: Seq<u8>, interned: Seq<u32>)
    ensures
        drawn_value(ft, data, interned) is None ==> ft == FuzzFieldType::String || ft
            == FuzzFieldType::Bytes || ft == FuzzFieldType::StringMap,
{
}

/// The view of a value shows what it holds, item for item.
pub proof fn law_view_shows_value(value: FieldValue)
    ensures
        match value {
            FieldValue::I64(v) => value@ == FieldValueView::I64(v),
            FieldValue::F64(v) => value@ == FieldValueView::F64(v),
            FieldValue::Bool(v) => value@ == FieldValueView::Bool(v),
            FieldValue::String(v) => value@ == FieldValueView::String(v@),
            FieldValue::Bytes(v) => value@ == FieldValueView::Bytes(v@),
            FieldValue::PooledString(v) => value@ == FieldValueView::PooledString(v),
            FieldValue::StackFrames(v) => value@ == FieldValueView::StackFrames(v@),
            FieldValue::PooledStackFrames(v) => value@ == FieldValueView::PooledStackFrames(v),
            FieldValue::Varint(v) => value@ == FieldValueView::Varint(v),
            FieldValue::StringMap(v) => {
                &&& value@ is StringMap
                &&& value@->StringMap_0.len() == v@.len()
                &&& forall|i: int|
                    0 <= i < v@.len() ==> #[trigger] value@->StringMap_0[i] == (v@[i].0@, v@[i].1@)
            },
            FieldValue::Absent => value@ == FieldValueView::Absent,
        },
{
}

/// Values are equal exactly where their views are: no two different values, not even
/// floats of different bits, are taken for the same.
pub proof fn law_equal_values_are_same(a: FieldValue, b: FieldValue)
    ensures
        PartialEqSpec::eq_spec(&a, &b) <==> a@ == b@,
{
}

/// Each drawn type stands for the trace format's type of the same name.
pub proof fn law_types_keep_their_names(ft: FuzzFieldType)
    ensures
        field_type_of(ft) is I64 <==> ft is I64,
        field_type_of(ft) is F64 <==> ft is F64,
        field_type_of(ft) is Bool <==> ft is Bool,
        field_type_of(ft) is String <==> ft is String,
        field_type_of(ft) is Bytes <==> ft is Bytes,
        field_type_of(ft) is PooledString <==> ft is PooledString,
        field_type_of(ft) is StackFrames <==> ft is StackFrames,
        field_type_of(ft) is PooledStackFrames <==> ft is PooledStackFrames,
        field_type_of(ft) is Varint <==> ft is Varint,
        field_type_of(ft) is StringMap <==> ft is StringMap,
{
}

/// The edges are the largest numbers of one and two bytes of seven bits, the ones
/// behind them, and the largest of 32, 63 and 64 bits, beside zero.
pub proof fn law_varint_edges()
    ensures
        varint_edge(0) == 0,
        varint_edge(1) == 128 - 1,
        varint_edge(2) == 128,
        varint_edge(3) == 128 * 128 - 1,
        varint_edge(4) == 128 * 128,
        varint_edge(5) == u32::MAX,
        varint_edge(6) == u64::MAX / 2,
        varint_edge(7) == u64::MAX,
{
}

/// Numbers and truth values use up the bytes that they are made of and no more.
pub proof fn law_drawn_scalars(data: Seq<u8>, interned: Seq<u32>)
    ensures
        drawn_value(FuzzFieldType::I64, data, interned) == Some(
            (FieldValueView::I64(drawn_u64(data) as i64), behind(data, 8)),
        ),
        drawn_value(FuzzFieldType::F64, data, interned) == Some(
            (FieldValueView::F64(drawn_u64(data)), behind(data, 8)),
        ),
        drawn_value(FuzzFieldType::Bool, data, interned) == Some(
            (FieldValueView::Bool(byte_at(data, 0) % 2 == 1), behind(data, 1)),
        ),
        drawn_value(FuzzFieldType::PooledString, data, interned) is Some,
        drawn_value(FuzzFieldType::PooledString, data, interned)->Some_0.0 is PooledString,
        drawn_value(FuzzFieldType::PooledString, data, interned)->Some_0.0->PooledString_0 == byte_at(
            data,
            0,
        ) % 51,
        drawn_value(FuzzFieldType::PooledString, data, interned)->Some_0.1 == behind(data, 1),
{
    law_drawn_bool_is_parity(data);
    law_drawn_number_is_remainder(data, 50);
}

/// Text and byte strings are as long as the first byte says, up to 32, and consist
/// of the bytes behind it. They can be drawn exactly where there are enough.
pub proof fn law_drawn_strings(data: Seq<u8>, interned: Seq<u32>)
    ensures
        ({
            let n = byte_at(data, 0) % 33;
            let rest = behind(data, 1);
            let bytes = drawn_value(FuzzFieldType::Bytes, data, interned);
            let text = drawn_value(FuzzFieldType::String, data, interned);
            &&& bytes is Some <==> n <= rest.len()
            &&& text is Some <==> n <= rest.len()
            &&& n <= rest.len() ==> {
                &&& bytes->Some_0.0 == FieldValueView::Bytes(rest.take(n))
                &&& bytes->Some_0.1 == rest.skip(n)
                &&& text->Some_0.0 == FieldValueView::String(utf8_lossy(rest.take(n)))
                &&& text->Some_0.1 == rest.skip(n)
            }
        }),
{
    law_drawn_number_is_remainder(data, 32);
}

proof fn lemma_behind_twice(data: Seq<u8>, a: nat, b: nat)
    ensures
        behind(behind(data, a), b) == behind(data, a + b),
{
    assert(behind(behind(data, a), b) =~= behind(data, a + b));
}

proof fn lemma_frames(data: Seq<u8>, n: nat)
    ensures
        drawn_frames(data, n).0.len() == n,
        drawn_frames(data, n).1 == behind(data, 8 * n),
        forall|i: int|
            0 <= i < n ==> #[trigger] drawn_frames(data, n).0[i] == drawn_u64(
                behind(data, (8 * i) as nat),
            ),
    decreases n,
{
    if n > 0 {
        lemma_frames(data, (n - 1) as nat);
        lemma_behind_twice(data, (8 * (n - 1)) as nat, 8);
        assert((8 * (n - 1)) as nat + 8 == 8 * n);
    } else {
        assert(behind(data, 0) =~= data);
    }
}

/// A stack has as many addresses as the first byte says, up to eight; each is the
/// next eight bytes.
pub proof fn law_drawn_stack(data: Seq<u8>, interned: Seq<u32>)
    ensures
        ({
            let n = byte_at(data, 0) % 9;
            let stack = drawn_value(FuzzFieldType::StackFrames, data, interned);
            &&& stack is Some
            &&& stack->Some_0.0 is StackFrames
            &&& stack->Some_0.0->StackFrames_0.len() == n
            &&& forall|i: int|
                0 <= i < n ==> #[trigger] stack->Some_0.0->StackFrames_0[i] == drawn_u64(
                    behind(data, (1 + 8 * i) as nat),
                )
            &&& stack->Some_0.1 == behind(data, (1 + 8 * n) as nat)
        }),
{
    law_drawn_number_is_remainder(data, 8);
    let n = (byte_at(data, 0) % 9) as nat;
    let rest = behind(data, 1);
    lemma_frames(rest, n);
    lemma_behind_twice(data, 1, 8 * n);
    assert forall|i: int| 0 <= i < n implies #[trigger] drawn_frames(rest, n).0[i] == drawn_u64(
        behind(data, (1 + 8 * i) as nat),
    ) by {
        lemma_behind_twice(data, 1, (8 * i) as nat);
    }
}

/// A pooled stack is one that was interned in three of four cases, where there is
/// one, and else any identifier up to 50.
pub proof fn law_drawn_pooled_stack(data: Seq<u8>, interned: Seq<u32>)
    requires
        interned.len() <= u64::MAX,
    ensures
        ({
            let drawn = drawn_value(FuzzFieldType::PooledStackFrames, data, interned);
            let id = drawn->Some_0.0->PooledStackFrames_0;
            let last = (interned.len() - 1) as u64;
            &&& drawn is Some
            &&& drawn->Some_0.0 is PooledStackFrames
            &&& interned.len() == 0 ==> id == byte_at(data, 0) % 51 && drawn->Some_0.1 == behind(data, 1)
            &&& interned.len() > 0 && byte_at(data, 0) % 4 == 3 ==> id == byte_at(data, 1) % 51
                && drawn->Some_0.1 == behind(data, 2)
            &&& interned.len() > 0 && byte_at(data, 0) % 4 != 3 ==> {
                &&& interned.contains(id)
                &&& id == interned[drawn_up_to(behind(data, 1), last) as int]
                &&& drawn->Some_0.1 == behind(behind(data, 1), byte_width(last as nat))
                &&& 1 < interned.len() <= 256 ==> id == interned[byte_at(data, 1)
                    % interned.len() as int] && drawn->Some_0.1 == behind(data, 2)
            }
        }),
{
    let rest = behind(data, 1);
    law_draws_share_the_bytes(data, 1);
    assert(byte_at(rest, 0) == byte_at(data, 1));
    law_drawn_number_is_remainder(data, 50);
    law_drawn_number_is_remainder(rest, 50);
    law_drawn_ratio_is_odds(data, 3, 4);
    lemma_behind_twice(data, 1, 1);
    if interned.len() > 0 {
        let last = (interned.len() - 1) as u64;
        law_drawn_number_is_remainder(rest, last);
        assert(interned.contains(interned[drawn_up_to(rest, last) as int]));
    }
}

/// A variable-length number is one of the eight edges in one of four cases, and else
/// any number.
pub proof fn law_drawn_varint(data: Seq<u8>, interned: Seq<u32>)
    ensures
        ({
            let drawn = drawn_value(FuzzFieldType::Varint, data, interned);
            let number = drawn->Some_0.0->Varint_0;
            let edge = byte_at(data, 1) % 8;
            &&& drawn is Some
            &&& drawn->Some_0.0 is Varint
            &&& byte_at(data, 0) % 4 != 0 ==> number == drawn_u64(behind(data, 1)) && drawn->Some_0.1
                == behind(data, 9)
            &&& byte_at(data, 0) % 4 == 0 ==> {
                &&& drawn->Some_0.1 == behind(data, 2)
                &&& edge == 0 ==> number == 0
                &&& edge == 1 ==> number == 127
                &&& edge == 2 ==> number == 128
                &&& edge == 3 ==> number == 16383
                &&& edge == 4 ==> number == 16384
                &&& edge == 5 ==> number == u32::MAX
                &&& edge == 6 ==> number == u64::MAX / 2
                &&& edge == 7 ==> number == u64::MAX
            }
        }),
{
    let rest = behind(data, 1);
    law_draws_share_the_bytes(data, 1);
    assert(byte_at(rest, 0) == byte_at(data, 1));
    law_drawn_number_is_remainder(rest, 7);
    law_drawn_ratio_is_odds(data, 1, 4);
    lemma_behind_twice(data, 1, 1);
    lemma_behind_twice(data, 1, 8);
}

/// A pair's two lengths are what the first two bytes say, up to eight each; key and
/// value follow them. It can be drawn exactly where there are enough bytes.
pub proof fn law_drawn_pair(data: Seq<u8>)
    ensures
        ({
            let k = byte_at(data, 0) % 9;
            let v = byte_at(data, 1) % 9;
            let rest = behind(data, 2);
            &&& drawn_pair(data) is Some <==> k + v <= rest.len()
            &&& k + v <= rest.len() ==> {
                &&& drawn_pair(data)->Some_0.0.0 == rest.take(k)
                &&& drawn_pair(data)->Some_0.0.1 == rest.subrange(k, k + v)
                &&& drawn_pair(data)->Some_0.1 == rest.skip(k + v)
            }
        }),
{
    let k = byte_at(data, 0) % 9;
    let v = byte_at(data, 1) % 9;
    law_draws_share_the_bytes(data, 1);
    assert(byte_at(behind(data, 1), 0) == byte_at(data, 1));
    law_drawn_number_is_remainder(data, 8);
    law_drawn_number_is_remainder(behind(data, 1), 8);
    lemma_behind_twice(data, 1, 1);
    let rest = behind(data, 2);
    assert(byte_width(8) == 1);
    assert(drawn_up_to(data, 8) == k);
    assert(drawn_up_to(behind(data, 1), 8) == v);
    assert(behind(behind(data, 1), byte_width(8)) == rest);
    if k + v <= rest.len() {
        assert(rest.skip(k).take(v) =~= rest.subrange(k, k + v));
        assert(rest.skip(k).skip(v) =~= rest.skip(k + v));
    }
}

/// A map has as many pairs as the first byte says, up to four, drawn one behind the
/// other: each from what the ones before it leave. It can be drawn exactly where
/// each of them can.
pub proof fn law_drawn_map(data: Seq<u8>, interned: Seq<u32>, n: nat)
    ensures
        drawn_pairs(data, 0) == Some((Seq::<(Seq<u8>, Seq<u8>)>::empty(), data)),
        drawn_pairs(data, n) is None ==> drawn_pairs(data, n + 1) is None,
        drawn_pairs(data, n) matches Some((front, rest)) ==> {
            &&& front.len() == n
            &&& drawn_pairs(data, n + 1) is Some <==> drawn_pair(rest) is Some
            &&& drawn_pair(rest) matches Some((pair, left)) ==> drawn_pairs(data, n + 1) == Some(
                (front.push(pair), left),
            )
        },
        ({
            let count = (byte_at(data, 0) % 5) as nat;
            let map = drawn_value(FuzzFieldType::StringMap, data, interned);
            match drawn_pairs(behind(data, 1), count) {
                Some((pairs, rest)) => map == Some((FieldValueView::StringMap(pairs), rest))
                    && pairs.len() == count,
                None => map is None,
            }
        }),
{
    law_drawn_number_is_remainder(data, 4);
    lemma_pairs_len(data, n);
    lemma_pairs_len(behind(data, 1), (byte_at(data, 0) % 5) as nat);
}

proof fn lemma_pairs_len(data: Seq<u8>, n: nat)
    ensures
        drawn_pairs(data, n) matches Some((pairs, _)) ==> pairs.len() == n,
    decreases n,
{
    if n > 0 {
        lemma_pairs_len(data, (n - 1) as nat);
    }
}

} // verus!
