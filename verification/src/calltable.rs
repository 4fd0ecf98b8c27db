//! Call tables: how the fields of a transaction are laid out.
//!
//! A call table is a list of fields, each an index of two bytes and an offset
//! of four, followed by a byte string that holds the fields. The sizes of the
//! fields are the differences of their offsets, so from the second field on
//! the offsets must not fall. The first offset is read by no one.

use vstd::prelude::*;
use vstd::slice::slice_subrange;

use crate::wire;

verus! {

/// The tag of a transaction that is laid out in call tables.
pub const V1_TAG: u8 = 1;

/// How many fields a transaction, its payload and its pricing mode have.
pub const TRANSACTION_FIELDS: u32 = 3;

pub const PAYLOAD_FIELDS: u32 = 6;

pub const PRICING_FIELDS: u32 = 4;

/// How many fields a target has at most, and what it may hold: the entity that
/// is called, and the runtime that is used.
pub const TARGET_FIELDS: u32 = 6;

pub const INVOCATION_FIELDS: u32 = 4;

pub const RUNTIME_FIELDS: u32 = 3;

/// The length of the hash that the fields of a transaction start with.
pub const HASH_LEN: usize = 32;

/// The place of the payload among the fields of a transaction.
pub const PAYLOAD_FIELD: usize = 1;

/// The place of the pricing mode among the fields of a payload.
pub const PRICING_FIELD: usize = 4;

/// The key of the target among the parts of a payload that are kept as bytes.
pub const TARGET_KEY: u16 = 1;

/// The tag of a target that names a stored entity.
pub const STORED_TAG: u8 = 1;

/// The places of the entity and of the runtime among the fields of a target.
pub const ENTITY_FIELD: usize = 1;

pub const RUNTIME_FIELD: usize = 2;

/// What a call table holds.
pub struct TableView {
    pub offsets: Seq<u32>,
    pub fields: Seq<u8>,
}

/// A call table that was read.
pub struct Table<'a> {
    pub offsets: Vec<u32>,
    pub fields: &'a [u8],
}

impl<'a> View for Table<'a> {
    type V = TableView;

    open spec fn view(&self) -> TableView {
        TableView { offsets: self.offsets@, fields: self.fields@ }
    }
}

/// The little-endian number in the four bytes at a position.
pub open spec fn number_at(bytes: Seq<u8>, at: int) -> u32 {
    (bytes[at] + 256 * bytes[at + 1] + 65536 * bytes[at + 2] + 16777216 * bytes[at + 3]) as u32
}

/// The call table of at most `max` fields that `bytes` start with, if any.
pub open spec fn table_of(max: u32, bytes: Seq<u8>) -> Option<TableView> {
    let count = number_at(bytes, 0);
    let start = 8 + 6 * count;
    let size = number_at(bytes, start - 4);
    if bytes.len() < 4 || count > max || bytes.len() < start || bytes.len() < start + size {
        None
    } else {
        Some(
            TableView {
                offsets: Seq::new(count as nat, |i: int| number_at(bytes, 6 + 6 * i)),
                fields: bytes.subrange(start, start + size),
            },
        )
    }
}

/// Whether offsets never fall, from the second on.
pub open spec fn ascending(offsets: Seq<u32>) -> bool {
    forall|i: int|
        1 <= i < offsets.len() - 1 ==> #[trigger] offsets[i] <= offsets[i + 1]
}

/// The bytes from a field of a table on, if its offset lies among them.
pub open spec fn field_of(table: TableView, place: int) -> Option<Seq<u8>> {
    if place < table.offsets.len() && table.offsets[place] <= table.fields.len() {
        Some(table.fields.skip(table.offsets[place] as int))
    } else {
        None
    }
}

/// Whether the offsets of a table, if there is one, never fall.
pub open spec fn table_ascends(max: u32, bytes: Seq<u8>) -> bool {
    match table_of(max, bytes) {
        None => true,
        Some(table) => ascending(table.offsets),
    }
}

/// Whether the offsets of a payload, and of the pricing mode in it, never fall.
pub open spec fn payload_ascends(bytes: Seq<u8>) -> bool {
    match table_of(PAYLOAD_FIELDS, bytes) {
        None => true,
        Some(table) => ascending(table.offsets) && match field_of(table, PRICING_FIELD as int) {
            None => true,
            Some(pricing) => table_ascends(PRICING_FIELDS, pricing),
        },
    }
}

/// Whether the offsets of the transaction that `bytes` start with, and of what
/// it holds, never fall. Where its hash is cut short they are not looked at.
pub open spec fn offsets_ascend(bytes: Seq<u8>) -> bool {
    bytes.len() > 0 && bytes[0] == V1_TAG ==> match table_of(TRANSACTION_FIELDS, bytes.skip(1)) {
        None => true,
        Some(table) => table.fields.len() < HASH_LEN || (ascending(table.offsets)
            && match field_of(table, PAYLOAD_FIELD as int) {
            None => true,
            Some(payload) => payload_ascends(payload),
        }),
    }
}

/// Whether the offsets of a target, of the entity that it names and of the
/// runtime that it asks for never fall.
pub open spec fn target_ascends(bytes: Seq<u8>) -> bool {
    match table_of(TARGET_FIELDS, bytes) {
        None => true,
        Some(table) => {
            &&& ascending(table.offsets)
            &&& table.fields.len() > 0 && table.fields[0] == STORED_TAG ==> match field_of(
                table,
                ENTITY_FIELD as int,
            ) {
                None => true,
                Some(entity) => table_ascends(INVOCATION_FIELDS, entity),
            }
            &&& match field_of(table, RUNTIME_FIELD as int) {
                None => true,
                Some(runtime) => table_ascends(RUNTIME_FIELDS, runtime),
            }
        },
    }
}

/// The number in the four bytes at a position.
fn read_number(bytes: &[u8], at: usize) -> (r: u32)
    requires
        at + 4 <= bytes@.len(),
    ensures
        r == number_at(bytes@, at as int),
{
    bytes[at] as u32 + 256 * bytes[at + 1] as u32 + 65536 * bytes[at + 2] as u32 + 16777216
        * bytes[at + 3] as u32
}

/// Reads the call table that `bytes` start with.
fn read_table<'a>(max: u32, bytes: &'a [u8]) -> (r: Option<Table<'a>>)
    requires
        max <= 6,
    ensures
        match r {
            None => table_of(max, bytes@) is None,
            Some(table) => table_of(max, bytes@) == Some(table@),
        },
{
    if bytes.len() < 4 {
        return None;
    }
    let count: u32 = read_number(bytes, 0);
    if count > max {
        return None;
    }
    let start: usize = 8 + 6 * count as usize;
    if bytes.len() < start {
        return None;
    }
    let size: u32 = read_number(bytes, start - 4);
    if ((bytes.len() - start) as u64) < size as u64 {
        return None;
    }
    let mut offsets: Vec<u32> = Vec::new();
    let mut i: usize = 0;
    while i < count as usize
        invariant
            i <= count <= 6,
            8 + 6 * count <= bytes@.len(),
            offsets@ == Seq::new(i as nat, |k: int| number_at(bytes@, 6 + 6 * k)),
        decreases count - i,
    {
        offsets.push(read_number(bytes, 6 + 6 * i));
        i += 1;
        assert(offsets@ =~= Seq::new(i as nat, |k: int| number_at(bytes@, 6 + 6 * k)));
    }
    let fields = slice_subrange(bytes, start, start + size as usize);
    Some(Table { offsets, fields })
}

/// Tests whether offsets never fall, from the second on.
fn check_ascending(offsets: &Vec<u32>) -> (r: bool)
    ensures
        r == ascending(offsets@),
{
    let count: usize = offsets.len();
    let mut i: usize = 1;
    while i + 1 < count
        invariant
            count == offsets@.len(),
            1 <= i,
            i == 1 || i < offsets@.len(),
            forall|k: int| 1 <= k < i && k < offsets@.len() - 1 ==> #[trigger] offsets@[k]
                <= offsets@[k + 1],
        decreases count - i,
    {
        if offsets[i] > offsets[i + 1] {
            return false;
        }
        i += 1;
    }
    true
}

/// The bytes from a field of a table on.
fn read_field<'a>(table: &Table<'a>, place: usize) -> (r: Option<&'a [u8]>)
    ensures
        match r {
            None => field_of(table@, place as int) is None,
            Some(bytes) => field_of(table@, place as int) == Some(bytes@),
        },
{
    if place < table.offsets.len() && (table.offsets[place] as u64) <= table.fields.len() as u64 {
        let bytes = slice_subrange(
            table.fields,
            table.offsets[place] as usize,
            table.fields.len(),
        );
        assert(bytes@ =~= table@.fields.skip(table@.offsets[place as int] as int));
        Some(bytes)
    } else {
        None
    }
}

/// Tests the offsets of a table.
fn check_table(max: u32, bytes: &[u8]) -> (r: bool)
    requires
        max <= 6,
    ensures
        r == table_ascends(max, bytes@),
{
    match read_table(max, bytes) {
        None => true,
        Some(table) => check_ascending(&table.offsets),
    }
}

/// Tests the offsets of a payload.
fn check_payload(bytes: &[u8]) -> (r: bool)
    ensures
        r == payload_ascends(bytes@),
{
    match read_table(PAYLOAD_FIELDS, bytes) {
        None => true,
        Some(table) => check_ascending(&table.offsets) && match read_field(&table, PRICING_FIELD) {
            None => true,
            Some(pricing) => check_table(PRICING_FIELDS, pricing),
        },
    }
}

/// Tests the offsets of a transaction.
pub fn check_offsets(bytes: &[u8]) -> (r: bool)
    ensures
        r == offsets_ascend(bytes@),
{
    if bytes.len() == 0 || bytes[0] != V1_TAG {
        return true;
    }
    let body = slice_subrange(bytes, 1, bytes.len());
    assert(body@ =~= bytes@.skip(1));
    match read_table(TRANSACTION_FIELDS, body) {
        None => true,
        Some(table) => table.fields.len() < HASH_LEN || (check_ascending(&table.offsets)
            && match read_field(&table, PAYLOAD_FIELD) {
            None => true,
            Some(payload) => check_payload(payload),
        }),
    }
}

/// Tests the offsets of a target.
pub fn check_target(bytes: &[u8]) -> (r: bool)
    ensures
        r == target_ascends(bytes@),
{
    let table = match read_table(TARGET_FIELDS, bytes) {
        None => {
            return true;
        },
        Some(table) => table,
    };
    if !check_ascending(&table.offsets) {
        return false;
    }
    if table.fields.len() > 0 && table.fields[0] == STORED_TAG {
        if let Some(entity) = read_field(&table, ENTITY_FIELD) {
            if !check_table(INVOCATION_FIELDS, entity) {
                return false;
            }
        }
    }
    match read_field(&table, RUNTIME_FIELD) {
        None => true,
        Some(runtime) => check_table(RUNTIME_FIELDS, runtime),
    }
}

/// Whether `bytes` start with a call table of the given offsets and fields: how
/// many there are, an index and an offset for each, and the fields behind their
/// length.
pub open spec fn laid_out(bytes: Seq<u8>, offsets: Seq<u32>, fields: Seq<u8>) -> bool {
    let start = 8 + 6 * offsets.len() as int;
    &&& wire::fits(offsets.len())
    &&& wire::fits(fields.len())
    &&& start + fields.len() <= bytes.len()
    &&& bytes.subrange(0, 4) == wire::le32(offsets.len() as u32)
    &&& forall|i: int|
        0 <= i < offsets.len() ==> bytes.subrange(6 + 6 * i, 10 + 6 * i) == wire::le32(
            #[trigger] offsets[i],
        )
    &&& bytes.subrange(start - 4, start) == wire::le32(fields.len() as u32)
    &&& bytes.subrange(start, start + fields.len()) == fields
}

/// A number that stands in four bytes is read as it was written.
proof fn lemma_number_at(bytes: Seq<u8>, at: int, number: u32)
    requires
        0 <= at,
        at + 4 <= bytes.len(),
    ensures
        bytes.subrange(at, at + 4) == wire::le32(number) <==> number_at(bytes, at) == number,
{
    let four = bytes.subrange(at, at + 4);
    let (b0, b1, b2, b3) = (bytes[at], bytes[at + 1], bytes[at + 2], bytes[at + 3]);
    let read = number_at(bytes, at);
    assert(four[0] == b0 && four[1] == b1 && four[2] == b2 && four[3] == b3);
    assert(read == b0 + 256 * b1 + 65536 * b2 + 16777216 * b3);
    assert((read % 256) as u8 == b0 && (read / 256 % 256) as u8 == b1 && (read / 65536 % 256) as u8
        == b2 && (read / 16777216) as u8 == b3);
    assert(four =~= wire::le32(read));
    if four == wire::le32(number) {
        wire::law_length_read_back(read, number);
    }
}

/// A call table is found exactly where one is laid out and has no more fields
/// than it may, and it is read as it was written.
pub proof fn law_tables_are_read_back(
    max: u32,
    bytes: Seq<u8>,
    offsets: Seq<u32>,
    fields: Seq<u8>,
)
    ensures
        laid_out(bytes, offsets, fields) && offsets.len() <= max <==> table_of(max, bytes) == Some(
            TableView { offsets, fields },
        ),
{
    if laid_out(bytes, offsets, fields) && offsets.len() <= max {
        let start = 8 + 6 * offsets.len() as int;
        lemma_number_at(bytes, 0, offsets.len() as u32);
        lemma_number_at(bytes, start - 4, fields.len() as u32);
        let table = table_of(max, bytes)->0;
        assert forall|i: int| 0 <= i < offsets.len() implies table.offsets[i] == offsets[i] by {
            lemma_number_at(bytes, 6 + 6 * i, offsets[i]);
        }
        assert(table.offsets =~= offsets);
    }
    if table_of(max, bytes) == Some(TableView { offsets, fields }) {
        let start = 8 + 6 * offsets.len() as int;
        lemma_number_at(bytes, 0, offsets.len() as u32);
        lemma_number_at(bytes, start - 4, fields.len() as u32);
        assert forall|i: int| 0 <= i < offsets.len() implies bytes.subrange(6 + 6 * i, 10 + 6 * i)
            == wire::le32(#[trigger] offsets[i]) by {
            lemma_number_at(bytes, 6 + 6 * i, offsets[i]);
        }
    }
}

/// A field reaches from its offset to the end of the fields; a field that the
/// table does not list, or whose offset lies behind the fields, is not there.
pub proof fn law_fields_start_at_their_offset(table: TableView, place: int, skipped: Seq<u8>)
    requires
        0 <= place,
    ensures
        field_of(table, place) is Some <==> place < table.offsets.len() && table.offsets[place]
            <= table.fields.len(),
        field_of(table, place) is Some && skipped.len() == table.offsets[place]
            && skipped.is_prefix_of(table.fields) ==> skipped + field_of(table, place)->0
            == table.fields,
{
    if field_of(table, place) is Some && skipped.len() == table.offsets[place]
        && skipped.is_prefix_of(table.fields) {
        assert(skipped + field_of(table, place)->0 =~= table.fields);
    }
}

/// Whether an offset, behind the first, is larger than the one that follows.
pub open spec fn falls_at(offsets: Seq<u32>, i: int) -> bool {
    1 <= i && i + 1 < offsets.len() && offsets[i] > offsets[i + 1]
}

/// Whether `bytes` start with a call table in which an offset falls.
pub open spec fn table_falls(max: u32, bytes: Seq<u8>) -> bool {
    table_of(max, bytes) matches Some(table) && exists|i: int| falls_at(table.offsets, i)
}

/// A transaction is refused for its offsets exactly where one of them falls: in
/// its own table, in that of its payload or in that of its pricing mode. Bytes
/// of another kind, and a transaction without a whole hash, never are.
pub proof fn law_only_falling_offsets_are_refused(bytes: Seq<u8>)
    ensures
        !offsets_ascend(bytes) <==> ({
            let whole = table_of(3, bytes.skip(1))->0;
            let payload = field_of(whole, 1)->0;
            let pricing = field_of(table_of(6, payload)->0, 4)->0;
            &&& bytes.len() > 0 && bytes[0] == 1
            &&& table_of(3, bytes.skip(1)) is Some
            &&& whole.fields.len() >= 32
            &&& table_falls(3, bytes.skip(1)) || (field_of(whole, 1) is Some && (table_falls(
                6,
                payload,
            ) || (table_of(6, payload) is Some && field_of(table_of(6, payload)->0, 4) is Some
                && table_falls(4, pricing))))
        }),
{
    let whole = table_of(3, bytes.skip(1))->0;
    let payload = field_of(whole, 1)->0;
    let pricing = field_of(table_of(6, payload)->0, 4)->0;
    lemma_falls(whole.offsets);
    lemma_falls(table_of(6, payload)->0.offsets);
    lemma_falls(table_of(4, pricing)->0.offsets);
}

/// A target is refused for its offsets exactly where one of them falls: in its
/// own table, in that of its runtime or, if it names a stored entity, in that of
/// the entity.
pub proof fn law_only_falling_targets_are_refused(bytes: Seq<u8>)
    ensures
        !target_ascends(bytes) <==> ({
            let whole = table_of(6, bytes)->0;
            &&& table_of(6, bytes) is Some
            &&& table_falls(6, bytes) || (whole.fields.len() > 0 && whole.fields[0] == 1
                && field_of(whole, 1) is Some && table_falls(4, field_of(whole, 1)->0)) || (
            field_of(whole, 2) is Some && table_falls(3, field_of(whole, 2)->0))
        }),
{
    let whole = table_of(6, bytes)->0;
    lemma_falls(whole.offsets);
    lemma_falls(table_of(4, field_of(whole, 1)->0)->0.offsets);
    lemma_falls(table_of(3, field_of(whole, 2)->0)->0.offsets);
}

proof fn lemma_falls(offsets: Seq<u32>)
    ensures
        !ascending(offsets) <==> exists|i: int| falls_at(offsets, i),
{
    if !ascending(offsets) {
        let i = choose|i: int|
            1 <= i < offsets.len() - 1 && !(#[trigger] offsets[i] <= offsets[i + 1]);
        assert(falls_at(offsets, i));
    }
}

} // verus!
