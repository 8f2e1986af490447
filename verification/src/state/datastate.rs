//! The typed values of the store and their encodings on the wire.
use crate::codec::i32_of_le;
use crate::codec::i32_to_le;
use crate::codec::le_bytes_i32;
use crate::codec::le_bytes_u32;
use crate::codec::le_bytes_u64;
use crate::codec::push_all;
use crate::codec::u32_to_le;
use crate::codec::u64_to_le;
use crate::data::hll::empty_registers;
use crate::data::hll::HllView;
use crate::data::hll::HLL;
use crate::state::expires::ExpireParameter;
use crate::state::shards::entries_of;
use crate::state::shards::guarded;
use crate::state::shards::guarded_by;
use crate::state::shards::table_expiries;
use crate::state::shards::table_get;
use crate::state::shards::table_insert;
use crate::state::shards::table_len;
use crate::state::shards::table_new;
use crate::state::shards::table_remove;
use crate::state::shards::table_shrink;
use dashmap::mapref::one::Ref;
use dashmap::DashMap;
use vstd::pervasive::unreached;
use crate::state::clock::now_ms;
use crate::state::expires::clock_in_range;
use vstd::prelude::*;
use vstd::utf8::encode_utf8;

verus! {

/// The tag that starts every encoded value.
pub enum DataTypeByte {
    Integer,
    Float,
    String,
    StrList,
    Long,
}

impl DataTypeByte {
    /// The tag's value on the wire.
    pub open spec fn spec_byte(self) -> u8 {
        match self {
            DataTypeByte::Integer => 1,
            DataTypeByte::Float => 2,
            DataTypeByte::String => 3,
            DataTypeByte::StrList => 4,
            DataTypeByte::Long => 6,
        }
    }

    /// The tag's value on the wire.
    pub fn byte(&self) -> (b: u8)
        ensures
            b == self.spec_byte(),
    {
        match self {
            DataTypeByte::Integer => 1,
            DataTypeByte::Float => 2,
            DataTypeByte::String => 3,
            DataTypeByte::StrList => 4,
            DataTypeByte::Long => 6,
        }
    }
}

/// The encoding of an integer: tag 1, then four little-endian bytes.
pub open spec fn int_encoding(n: i32) -> Seq<u8> {
    seq![1u8] + le_bytes_i32(n)
}

/// The integer that five bytes encode: tag 1, then four little-endian
/// bytes in two's complement. Other bytes encode none.
pub open spec fn int_decoding(bytes: Seq<u8>) -> Option<i32> {
    if bytes.len() == 5 && bytes[0] == 1 {
        Some(i32_of_le(bytes.skip(1)))
    } else {
        None
    }
}

/// The encoding of a float, given by its bit pattern: tag 2, then the four
/// bytes of the pattern, least significant first.
pub open spec fn float_encoding(bits: u32) -> Seq<u8> {
    seq![2u8] + le_bytes_u32(bits)
}

/// The encoding of a byte string: tag 3, the length as four little-endian
/// bytes, then the bytes. A length that does not fit 32 bits is reduced
/// modulo `2^32`.
pub open spec fn string_encoding(bytes: Seq<u8>) -> Seq<u8> {
    seq![3u8] + le_bytes_u32((bytes.len() % 0x1_0000_0000) as u32) + bytes
}

/// The encoding of a count that fits 32 bits: tag 1, then four little-endian
/// bytes.
pub open spec fn length_encoding(n: u32) -> Seq<u8> {
    seq![1u8] + le_bytes_u32(n)
}

/// The encoding of a count that does not fit 32 bits: tag 6, then eight
/// little-endian bytes.
pub open spec fn long_encoding(n: u64) -> Seq<u8> {
    seq![6u8] + le_bytes_u64(n)
}

/// The encoding of a cardinality: an integer where it fits 32 bits, a long
/// otherwise.
pub open spec fn count_encoding(count: u64) -> Seq<u8> {
    if count <= u32::MAX {
        length_encoding(count as u32)
    } else {
        long_encoding(count)
    }
}

/// The parts one after another.
pub open spec fn concat_all(parts: Seq<Seq<u8>>) -> Seq<u8>
    decreases parts.len(),
{
    if parts.len() == 0 {
        Seq::empty()
    } else {
        concat_all(parts.drop_last()) + parts.last()
    }
}

/// The parts one after another, the last one first.
pub open spec fn concat_reversed(parts: Seq<Seq<u8>>) -> Seq<u8>
    decreases parts.len(),
{
    if parts.len() == 0 {
        Seq::empty()
    } else {
        parts.last() + concat_reversed(parts.drop_last())
    }
}

/// `i`, or `len` where `i` lies beyond it.
pub open spec fn clamp(i: int, len: int) -> int {
    if i < len {
        i
    } else {
        len
    }
}

/// The encoding of the elements from `start` up to `end`, both clamped to the
/// list's length: tag 4, then the elements' encodings in order.
pub open spec fn range_encoding(items: Seq<Seq<u8>>, start: int, end: int) -> Seq<u8> {
    let s = clamp(start, items.len() as int);
    let e = clamp(end, items.len() as int);
    if e <= s {
        seq![4u8]
    } else {
        seq![4u8] + concat_all(items.subrange(s, e))
    }
}

/// The list without the elements from `start` up to `end`, both clamped to the
/// list's length.
pub open spec fn without_range(items: Seq<Seq<u8>>, start: int, end: int) -> Seq<Seq<u8>> {
    let s = clamp(start, items.len() as int);
    let e = clamp(end, items.len() as int);
    if e <= s {
        items
    } else {
        items.subrange(0, s) + items.subrange(e, items.len() as int)
    }
}

/// A value of one kind, held privately.
pub struct Data<T> {
    data: T,
}

pub type StringType = Data<Vec<u8>>;

pub type ListType = Data<Vec<StringType>>;

pub type IntType = Data<i32>;

/// A float, held as its IEEE-754 binary32 bit pattern.
pub type FloatType = Data<u32>;

pub type HLLType = Data<HLL>;

impl<T> Data<T> {
    /// What is held.
    pub closed spec fn held(self) -> T {
        self.data
    }

    pub fn get(&self) -> (r: &T)
        ensures
            *r == self.held(),
    {
        &self.data
    }

    /// Hands out what is held.
    pub fn into_inner(self) -> (r: T)
        ensures
            r == self.held(),
    {
        self.data
    }

    pub fn get_mut(&mut self) -> (r: &mut T)
        ensures
            *r == old(self).held(),
            final(self).held() == *final(r),
    {
        &mut self.data
    }
}

impl View for Data<i32> {
    type V = i32;

    open spec fn view(&self) -> i32 {
        self.held()
    }
}

impl View for Data<u32> {
    type V = u32;

    open spec fn view(&self) -> u32 {
        self.held()
    }
}

impl View for Data<Vec<u8>> {
    type V = Seq<u8>;

    open spec fn view(&self) -> Seq<u8> {
        self.held()@
    }
}

impl View for Data<Vec<Data<Vec<u8>>>> {
    type V = Seq<Seq<u8>>;

    open spec fn view(&self) -> Seq<Seq<u8>> {
        Seq::new(self.held()@.len(), |i: int| self.held()@[i]@)
    }
}

impl View for Data<HLL> {
    type V = HllView;

    open spec fn view(&self) -> HllView {
        self.held()@
    }
}

impl IntType {
    pub fn new(num: i32) -> (r: Self)
        ensures
            r@ == num,
    {
        Self { data: num }
    }

    /// The integer as four little-endian bytes in two's complement.
    pub fn to_bytes(&self) -> (r: [u8; 4])
        ensures
            r@ == le_bytes_i32(self@),
    {
        i32_to_le(self.data)
    }

    /// The integer's encoding: tag 1, then its four bytes.
    pub fn serialize(&self) -> (r: [u8; 5])
        ensures
            r@ == int_encoding(self@),
    {
        let bytes = self.to_bytes();
        let full_serialized: [u8; 5] = [
            DataTypeByte::Integer.byte(),
            bytes[0],
            bytes[1],
            bytes[2],
            bytes[3],
        ];
        assert(full_serialized@ =~= int_encoding(self@));
        full_serialized
    }
}

impl FloatType {
    /// A float from its bit pattern.
    pub fn new(bits: u32) -> (r: Self)
        ensures
            r@ == bits,
    {
        Self { data: bits }
    }

    /// The float as four little-endian bytes.
    pub fn to_bytes(&self) -> (r: [u8; 4])
        ensures
            r@ == le_bytes_u32(self@),
    {
        u32_to_le(self.data)
    }

    /// The float's encoding: tag 2, then its four bytes.
    pub fn serialize(&self) -> (r: [u8; 5])
        ensures
            r@ == float_encoding(self@),
    {
        let bytes = self.to_bytes();
        let full_serialized: [u8; 5] = [
            DataTypeByte::Float.byte(),
            bytes[0],
            bytes[1],
            bytes[2],
            bytes[3],
        ];
        assert(full_serialized@ =~= float_encoding(self@));
        full_serialized
    }
}

/// The encodings of the strings, in order.
pub open spec fn string_encodings(texts: Seq<String>) -> Seq<Seq<u8>> {
    Seq::new(texts.len(), |i: int| string_encoding(encode_utf8(texts[i]@)))
}

/// Calls `string_builder::ToBytes::to_bytes` on a `String`. Trusted: the
/// result holds the string's UTF-8 bytes, as many and in the same order.
#[verifier::external_body]
fn text_bytes(text: &String) -> (r: Vec<u8>)
    ensures
        r@ == encode_utf8(text@),
{
    string_builder::ToBytes::to_bytes(text)
}

impl StringType {
    /// The string's encoding, ready to be sent: tag 3, the length of its
    /// UTF-8 form and that form.
    pub fn new(str: String) -> (r: Self)
        ensures
            r@ == string_encoding(encode_utf8(str@)),
    {
        let payload: Vec<u8> = text_bytes(&str);
        let mut asvecdata: Vec<u8> = Vec::new();
        asvecdata.push(DataTypeByte::String.byte());
        let sz: u32 = ((payload.len() as u64) % 0x1_0000_0000u64) as u32;
        let sz_bytes = u32_to_le(sz);
        push_all(&mut asvecdata, &sz_bytes);
        push_all(&mut asvecdata, payload.as_slice());
        assert(asvecdata@ =~= string_encoding(encode_utf8(str@)));
        Self { data: asvecdata }
    }

    /// The encoding that is held.
    pub fn serialize(&self) -> (r: &Vec<u8>)
        ensures
            r@ == self@,
    {
        &self.data
    }
}

/// A prefix of the parts, followed by the next part, is the prefix that is
/// one longer.
pub proof fn lemma_concat_all_step(parts: Seq<Seq<u8>>, lo: int, hi: int)
    requires
        0 <= lo <= hi < parts.len(),
    ensures
        concat_all(parts.subrange(lo, hi + 1)) == concat_all(parts.subrange(lo, hi)) + parts[hi],
{
    assert(parts.subrange(lo, hi + 1).drop_last() =~= parts.subrange(lo, hi));
}

impl ListType {
    /// A list of the strings' encodings, in order.
    pub fn new(elements: Vec<String>) -> (r: Self)
        ensures
            r@ == string_encodings(elements@),
    {
        let mut result: Vec<StringType> = Vec::new();
        let mut i: usize = 0;
        while i < elements.len()
            invariant
                i <= elements@.len(),
                result@.len() == i,
                forall|j: int|
                    0 <= j < i ==> (#[trigger] result@[j])@ == string_encoding(
                        encode_utf8(elements@[j]@),
                    ),
            decreases elements@.len() - i,
        {
            let e: String = elements[i].clone();
            result.push(StringType::new(e));
            i = i + 1;
        }
        let r = Self { data: result };
        assert(r@ =~= string_encodings(elements@));
        r
    }

    /// The encoding, as a list, of the first `end` elements, or of all where
    /// there are fewer. The list stays as it is.
    pub fn srlz_range(&mut self, end: usize) -> (r: Vec<u8>)
        ensures
            r@ == range_encoding(old(self)@, 0, end as int),
            final(self)@ == old(self)@,
    {
        self.srlz_range_with_start(0, end)
    }

    /// The encoding, as a list, of the elements from `start` up to `end`,
    /// both clamped to the list's length.
    pub fn srlz_range_with_start(&self, start: usize, end: usize) -> (r: Vec<u8>)
        ensures
            r@ == range_encoding(self@, start as int, end as int),
    {
        let mut result: Vec<u8> = Vec::new();
        result.push(DataTypeByte::StrList.byte());
        let len: usize = self.data.len();
        let first: usize = if start < len {
            start
        } else {
            len
        };
        let last: usize = if end < len {
            end
        } else {
            len
        };
        if last <= first {
            return result;
        }
        let mut i: usize = first;
        assert(self@.subrange(first as int, first as int) =~= Seq::<Seq<u8>>::empty());
        while i < last
            invariant
                first <= i <= last <= len,
                len == self.data@.len(),
                self@.len() == len,
                result@ == seq![4u8] + concat_all(self@.subrange(first as int, i as int)),
            decreases last - i,
        {
            proof {
                lemma_concat_all_step(self@, first as int, i as int);
            }
            push_all(&mut result, self.data[i].serialize().as_slice());
            i = i + 1;
        }
        result
    }

    /// Appends one element.
    pub fn push(&mut self, data: StringType) -> (r: Result<(), ()>)
        ensures
            r is Ok,
            final(self)@ == old(self)@.push(data@),
    {
        self.data.push(data);
        assert(self@ =~= old(self)@.push(data@));
        Ok(())
    }

    /// Removes the last element and gives it, or `None` where the list is
    /// empty.
    pub fn pop(&mut self) -> (r: Option<StringType>)
        ensures
            old(self)@.len() == 0 ==> r is None && final(self)@ == old(self)@,
            old(self)@.len() > 0 ==> r is Some && r->0@ == old(self)@.last() && final(self)@
                == old(self)@.drop_last(),
    {
        let r = self.data.pop();
        assert(old(self)@.len() > 0 ==> self@ =~= old(self)@.drop_last());
        r
    }

    /// Removes the first `end` elements, or all where there are fewer, and
    /// gives their encoding as a list.
    pub fn srlz_extract_range(&mut self, end: usize) -> (r: Vec<u8>)
        ensures
            r@ == range_encoding(old(self)@, 0, end as int),
            final(self)@ == without_range(old(self)@, 0, end as int),
    {
        self.srlz_extract_range_with_start(0, end)
    }

    /// Removes the elements from `start` up to `end`, both clamped to the
    /// list's length, and gives their encoding as a list.
    pub fn srlz_extract_range_with_start(&mut self, start: usize, end: usize) -> (r: Vec<u8>)
        ensures
            r@ == range_encoding(old(self)@, start as int, end as int),
            final(self)@ == without_range(old(self)@, start as int, end as int),
    {
        let mut result: Vec<u8> = Vec::new();
        result.push(DataTypeByte::StrList.byte());
        let len: usize = self.data.len();
        let first: usize = if start < len {
            start
        } else {
            len
        };
        let last: usize = if end < len {
            end
        } else {
            len
        };
        if last <= first {
            return result;
        }
        let mut max: usize = first;
        assert(old(self)@.subrange(first as int, first as int) =~= Seq::<Seq<u8>>::empty());
        assert(self@ =~= old(self)@.subrange(0, first as int) + old(self)@.subrange(
            first as int,
            len as int,
        ));
        while max < last
            invariant
                first <= max <= last <= len,
                len == old(self)@.len(),
                result@ == seq![4u8] + concat_all(old(self)@.subrange(first as int, max as int)),
                self@ == old(self)@.subrange(0, first as int) + old(self)@.subrange(
                    max as int,
                    len as int,
                ),
            decreases last - max,
        {
            proof {
                lemma_concat_all_step(old(self)@, first as int, max as int);
            }
            let ghost before = self@;
            assert(self@.len() == self.data@.len());
            assert(before[first as int] == self.data@[first as int]@);
            let removed: StringType = self.data.remove(first);
            assert(removed@ == before[first as int]);
            assert(self@ =~= before.remove(first as int));
            push_all(&mut result, removed.serialize().as_slice());
            max = max + 1;
            assert(self@ =~= old(self)@.subrange(0, first as int) + old(self)@.subrange(
                max as int,
                len as int,
            ));
        }
        result
    }

    /// The number of elements, encoded as an integer. A length beyond
    /// 32 bits is reduced modulo `2^32`.
    pub fn srlz_len(&self) -> (r: Vec<u8>)
        ensures
            r@ == length_encoding((self@.len() % 0x1_0000_0000) as u32),
    {
        let mut result: Vec<u8> = Vec::new();
        result.push(DataTypeByte::Integer.byte());
        let n: u32 = ((self.data.len() as u64) % 0x1_0000_0000u64) as u32;
        let bytes = u32_to_le(n);
        push_all(&mut result, &bytes);
        result
    }
}

impl HLLType {
    /// An empty sketch with 14 index bits.
    pub fn new() -> (r: Self)
        ensures
            r@.valid(),
            r@ == (HllView { bits: 14, registers: empty_registers(14) }),
    {
        match HLL::new(14) {
            Some(hll) => Self { data: hll },
            None => unreached(),
        }
    }

    pub fn new_from_hll(hll: HLL) -> (r: Self)
        ensures
            r@ == hll@,
    {
        Self { data: hll }
    }

    /// The encoding of a cardinality: an integer where it fits 32 bits, a
    /// long otherwise.
    pub fn srlz_count(count: u64) -> (r: Vec<u8>)
        ensures
            r@ == count_encoding(count),
    {
        let mut result: Vec<u8> = Vec::new();
        if count <= 0xFFFF_FFFFu64 {
            result.push(DataTypeByte::Integer.byte());
            let bytes = u32_to_le(count as u32);
            push_all(&mut result, &bytes);
            return result;
        }
        result.push(DataTypeByte::Long.byte());
        let bytes = u64_to_le(count);
        push_all(&mut result, &bytes);
        result
    }
}

/// What a stored value is, as plain data.
pub enum DataView {
    Int(i32),
    /// A float's bit pattern.
    Float(u32),
    /// A string's encoding.
    String(Seq<u8>),
    /// The encodings of a list's elements.
    List(Seq<Seq<u8>>),
    HLL(HllView),
}

impl DataView {
    /// A sketch among the values has the shape of a sketch.
    pub open spec fn valid(self) -> bool {
        self matches DataView::HLL(h) ==> h.valid()
    }
}

/// A stored value: one of five kinds.
pub enum DataType {
    Int(IntType),
    Float(FloatType),
    String(StringType),
    List(ListType),
    HLL(HLLType),
}

impl View for DataType {
    type V = DataView;

    open spec fn view(&self) -> DataView {
        match self {
            DataType::Int(v) => DataView::Int(v@),
            DataType::Float(v) => DataView::Float(v@),
            DataType::String(v) => DataView::String(v@),
            DataType::List(v) => DataView::List(v@),
            DataType::HLL(v) => DataView::HLL(v@),
        }
    }
}

/// What the store holds under a key, as plain data.
pub struct EntryView {
    pub data: DataView,
    /// When the entry expires, in milliseconds since the Unix epoch; 0 where
    /// it never does.
    pub expire: u64,
}

impl EntryView {
    pub open spec fn valid(self) -> bool {
        self.data.valid()
    }

    /// Whether the entry is still to be served at time `now`.
    pub open spec fn live(self, now: u64) -> bool {
        self.expire == 0 || self.expire > now
    }
}

/// A stored value and the time at which it expires.
pub struct DataWrapper {
    data: DataType,
    expire: u64,
}

impl View for DataWrapper {
    type V = EntryView;

    closed spec fn view(&self) -> EntryView {
        EntryView { data: self.data@, expire: self.expire }
    }
}

impl DataWrapper {
    /// Wraps a value. Without an expiry, or with one of 0, it never expires.
    pub fn new(data: DataType, expire: Option<u64>) -> (r: Self)
        ensures
            r@.data == data@,
            r@.expire == match expire {
                Some(e) => e,
                None => 0,
            },
    {
        let exp: u64 = match expire {
            Some(e) => e,
            None => 0,
        };
        Self { data: data, expire: exp }
    }

    pub fn get_data_mut(&mut self) -> (r: &mut DataType)
        ensures
            r@ == old(self)@.data,
            final(self)@.data == final(r)@,
            final(self)@.expire == old(self)@.expire,
    {
        &mut self.data
    }

    pub fn get_data(&self) -> (r: &DataType)
        ensures
            r@ == self@.data,
    {
        &self.data
    }

    /// The time at which the entry expires, or `None` where it never does.
    pub fn get_expire(&self) -> (r: Option<u64>)
        ensures
            r == if self@.expire == 0 {
                None
            } else {
                Some(self@.expire)
            },
    {
        if self.expire == 0 {
            None
        } else {
            Some(self.expire)
        }
    }

    /// The time at which the entry expires, 0 where it never does.
    pub fn expire_raw(&self) -> (r: u64)
        ensures
            r == self@.expire,
    {
        self.expire
    }

    /// The value, without its expiry.
    pub fn into_data(self) -> (r: DataType)
        ensures
            r@ == self@.data,
    {
        self.data
    }
}

/// The tombstone count after `n` more removals. The count wraps at 32 bits.
pub open spec fn bumped(removed: u32, n: nat) -> u32 {
    ((removed + n) % 0x1_0000_0000) as u32
}

/// Whether the periodic sweep removes an entry at time `now`: it has an
/// expiry, and that lies before `now`.
pub open spec fn overdue(entry: EntryView, now: u64) -> bool {
    entry.expire != 0 && entry.expire < now
}

/// What the store is, as plain data.
pub struct StoreView {
    /// The entry of each key that is present.
    pub entries: Map<Seq<char>, EntryView>,
    /// How many entries were removed since the map was last shrunk.
    pub removed: u32,
    /// When the expired entries were last swept out; 0 before the first
    /// sweep.
    pub last_sweep: u64,
}

impl StoreView {
    /// There are finitely many entries, and each is valid.
    pub open spec fn valid(self) -> bool {
        &&& self.entries.dom().finite()
        &&& forall|k: Seq<char>|
            self.entries.contains_key(k) ==> (#[trigger] self.entries[k]).valid()
    }

    /// Whether `key` has an entry that is to be served at time `now`.
    pub open spec fn live(self, key: Seq<char>, now: u64) -> bool {
        self.entries.contains_key(key) && self.entries[key].live(now)
    }

    /// The store with another map of entries.
    pub open spec fn with_entries(self, entries: Map<Seq<char>, EntryView>) -> StoreView {
        StoreView { entries, removed: self.removed, last_sweep: self.last_sweep }
    }

    /// The store after `key` has been removed: where it was present, it is
    /// gone and one tombstone is counted.
    pub open spec fn without(self, key: Seq<char>) -> StoreView {
        if self.entries.contains_key(key) {
            StoreView {
                entries: self.entries.remove(key),
                removed: bumped(self.removed, 1),
                last_sweep: self.last_sweep,
            }
        } else {
            self
        }
    }

    /// The store after the keys have been removed, one after another.
    pub open spec fn without_all(self, keys: Seq<Seq<char>>) -> StoreView
        decreases keys.len(),
    {
        if keys.len() == 0 {
            self
        } else {
            self.without_all(keys.drop_last()).without(keys.last())
        }
    }

    /// The store after a lookup of `key` at time `now`: an entry that has
    /// expired by then is removed.
    pub open spec fn evict(self, key: Seq<char>, now: u64) -> StoreView {
        if self.entries.contains_key(key) && !self.entries[key].live(now) {
            self.without(key)
        } else {
            self
        }
    }

    /// The store with `entry` under `key`.
    pub open spec fn with_entry(self, key: Seq<char>, entry: EntryView) -> StoreView {
        self.with_entries(self.entries.insert(key, entry))
    }

    /// The store with other data under `key`, and the expiry that the key's
    /// entry has.
    pub open spec fn with_data(self, key: Seq<char>, data: DataView) -> StoreView {
        self.with_entry(key, EntryView { data, expire: self.entries[key].expire })
    }

    /// The expiry of the entry that `key` has, if it has an entry and that
    /// has an expiry.
    pub open spec fn expiry_of(self, key: Seq<char>) -> Option<u64> {
        if self.entries.contains_key(key) && self.entries[key].expire != 0 {
            Some(self.entries[key].expire)
        } else {
            None
        }
    }

    /// The store after `data` has been written under `key` at time `now`:
    /// an expired entry of the key is removed first, then the key gets the
    /// data with the expiry that the directive gives it.
    pub open spec fn written(
        self,
        key: Seq<char>,
        data: DataView,
        directive: ExpireParameter,
        now: u64,
    ) -> StoreView {
        let before = self.evict(key, now);
        let expire = match directive.expiry(before.expiry_of(key), now) {
            Some(e) => e,
            None => 0,
        };
        before.with_entry(key, EntryView { data, expire })
    }

    /// The store without any entry.
    pub open spec fn flushed(self) -> StoreView {
        self.with_entries(Map::empty())
    }

    /// Whether the map is shrunk by maintenance: the tombstones are more
    /// than a tenth of the entries, or more than 50 000.
    pub open spec fn shrink_due(self) -> bool {
        10 * self.removed > self.entries.len() || self.removed > 50000
    }

    /// Whether maintenance at time `now` sweeps out the expired entries: it
    /// never has, or the last time is at least 100 s back.
    pub open spec fn sweep_due(self, now: u64) -> bool {
        self.last_sweep == 0 || now - self.last_sweep >= 100000
    }

    /// The keys that a sweep at time `now` removes.
    pub open spec fn overdue_keys(self, now: u64) -> Set<Seq<char>> {
        Set::new(|k: Seq<char>| self.entries.contains_key(k) && overdue(self.entries[k], now))
    }

    /// The store after a sweep at time `now`: the overdue entries are gone,
    /// a tombstone is counted for each, and the time is noted.
    pub open spec fn swept(self, now: u64) -> StoreView {
        StoreView {
            entries: self.entries.remove_keys(self.overdue_keys(now)),
            removed: bumped(self.removed, self.overdue_keys(now).len()),
            last_sweep: now,
        }
    }

    /// The store after maintenance at time `now`.
    pub open spec fn maintained(self, now: u64) -> StoreView {
        let shrunk = if self.shrink_due() {
            StoreView { entries: self.entries, removed: 0, last_sweep: self.last_sweep }
        } else {
            self
        };
        if shrunk.sweep_due(now) {
            shrunk.swept(now)
        } else {
            shrunk
        }
    }
}

/// The keys' texts, in order.
pub open spec fn key_texts(keys: Seq<String>) -> Seq<Seq<char>> {
    Seq::new(keys.len(), |i: int| keys[i]@)
}

/// The keys' texts, in order.
pub open spec fn key_slices(keys: Seq<&str>) -> Seq<Seq<char>> {
    Seq::new(keys.len(), |i: int| keys[i]@)
}

/// The keys of a sequence, as a set.
pub open spec fn key_set(keys: Seq<Seq<char>>) -> Set<Seq<char>>
    decreases keys.len(),
{
    if keys.len() == 0 {
        Set::empty()
    } else {
        key_set(keys.drop_last()).insert(keys.last())
    }
}

/// A key is in the set of a sequence exactly if it stands somewhere in the
/// sequence, and the set is finite.
pub proof fn lemma_key_set(keys: Seq<Seq<char>>)
    ensures
        key_set(keys).finite(),
        forall|k: Seq<char>|
            key_set(keys).contains(k) <==> exists|j: int|
                0 <= j < keys.len() && #[trigger] keys[j] == k,
    decreases keys.len(),
{
    if keys.len() > 0 {
        let front = keys.drop_last();
        lemma_key_set(front);
        assert forall|k: Seq<char>| key_set(keys).contains(k) implies exists|j: int|
            0 <= j < keys.len() && #[trigger] keys[j] == k by {
            if k == keys.last() {
                assert(keys[keys.len() - 1] == k);
            } else {
                let j = choose|j: int| 0 <= j < front.len() && #[trigger] front[j] == k;
                assert(keys[j] == k);
            }
        }
        assert forall|k: Seq<char>|
            (exists|j: int| 0 <= j < keys.len() && #[trigger] keys[j] == k) implies key_set(
            keys,
        ).contains(k) by {
            let j = choose|j: int| 0 <= j < keys.len() && #[trigger] keys[j] == k;
            if j < keys.len() - 1 {
                assert(front[j] == k);
            }
        }
    }
}

/// Adding tombstones one by one counts them all.
pub proof fn lemma_bumped_step(removed: u32, n: nat)
    ensures
        bumped(bumped(removed, n), 1) == bumped(removed, n + 1),
        bumped(removed, 0) == removed,
{
}

/// Removing keys one after another leaves the entries whose key is not among
/// them, and counts one tombstone for each of the keys that was present.
pub proof fn lemma_without_all(store: StoreView, keys: Seq<Seq<char>>)
    ensures
        store.without_all(keys).entries == store.entries.remove_keys(key_set(keys)),
        store.without_all(keys).removed == bumped(
            store.removed,
            key_set(keys).intersect(store.entries.dom()).len(),
        ),
        store.without_all(keys).last_sweep == store.last_sweep,
        key_set(keys).intersect(store.entries.dom()).finite(),
    decreases keys.len(),
{
    lemma_key_set(keys);
    let dom = store.entries.dom();
    if keys.len() == 0 {
        assert(store.entries.remove_keys(key_set(keys)) =~= store.entries);
        assert(key_set(keys).intersect(dom) =~= Set::<Seq<char>>::empty());
    } else {
        let front = keys.drop_last();
        let k = keys.last();
        lemma_without_all(store, front);
        lemma_key_set(front);
        let before = store.without_all(front);
        let hit_front = key_set(front).intersect(dom);
        let hit = key_set(keys).intersect(dom);
        lemma_bumped_step(store.removed, hit_front.len());
        if before.entries.contains_key(k) {
            assert(store.without_all(keys).entries =~= store.entries.remove_keys(key_set(keys)));
            assert(hit =~= hit_front.insert(k));
            assert(!hit_front.contains(k));
        } else {
            assert(store.without_all(keys).entries =~= store.entries.remove_keys(key_set(keys)));
            assert(hit =~= hit_front);
        }
    }
}

/// The store: a sharded map from key to entry, the count of entries removed
/// since the map was last shrunk, and the time of the last sweep.
pub struct DataState {
    data: DashMap<String, DataWrapper>,
    removed_count: u32,
    last_expired_cleanup: u64,
}

impl View for DataState {
    type V = StoreView;

    closed spec fn view(&self) -> StoreView {
        StoreView {
            entries: entries_of(self.data),
            removed: self.removed_count,
            last_sweep: self.last_expired_cleanup,
        }
    }
}

impl DataState {
    /// The least time between two sweeps, in milliseconds.
    pub const MIN_TIME_BETWEEN_CLEANING: u64 = 100000;

    /// An empty store.
    pub fn new() -> (r: Self)
        ensures
            r@.valid(),
            r@.entries == Map::<Seq<char>, EntryView>::empty(),
            r@.removed == 0,
            r@.last_sweep == 0,
    {
        let r = Self { data: table_new(), removed_count: 0, last_expired_cleanup: 0 };
        assert(r@.entries =~= Map::<Seq<char>, EntryView>::empty());
        r
    }

    /// How many entries were removed since the map was last shrunk.
    pub fn removed_count(&self) -> (n: u32)
        ensures
            n == self@.removed,
    {
        self.removed_count
    }

    /// When the expired entries were last swept out; 0 before the first
    /// sweep.
    pub fn last_expired_cleanup(&self) -> (at: u64)
        ensures
            at == self@.last_sweep,
    {
        self.last_expired_cleanup
    }

    /// Removes a key. One tombstone is counted where the key was present.
    pub fn remove(&mut self, key: &str)
        ensures
            final(self)@ == old(self)@.without(key@),
            old(self)@.valid() ==> final(self)@.valid(),
    {
        let old_entry = table_remove(&mut self.data, key);
        if old_entry.is_some() {
            self.removed_count = if self.removed_count == u32::MAX {
                0
            } else {
                self.removed_count + 1
            };
        } else {
            assert(self@.entries =~= old(self)@.entries);
        }
    }

    /// Removes the keys, one after another.
    pub fn remove_all(&mut self, keys: Vec<&str>)
        ensures
            final(self)@ == old(self)@.without_all(key_slices(keys@)),
            old(self)@.valid() ==> final(self)@.valid(),
    {
        let mut i: usize = 0;
        assert(key_slices(keys@).take(0) =~= Seq::<Seq<char>>::empty());
        while i < keys.len()
            invariant
                i <= keys@.len(),
                self@ == old(self)@.without_all(key_slices(keys@).take(i as int)),
                old(self)@.valid() ==> self@.valid(),
            decreases keys@.len() - i,
        {
            assert(key_slices(keys@).take(i + 1).drop_last() =~= key_slices(keys@).take(i as int));
            self.remove(keys[i]);
            i = i + 1;
        }
        assert(key_slices(keys@).take(i as int) =~= key_slices(keys@));
    }

    /// Removes the keys, one after another.
    pub fn remove_all_string(&mut self, keys: Vec<String>)
        ensures
            final(self)@ == old(self)@.without_all(key_texts(keys@)),
            old(self)@.valid() ==> final(self)@.valid(),
    {
        let mut i: usize = 0;
        assert(key_texts(keys@).take(0) =~= Seq::<Seq<char>>::empty());
        while i < keys.len()
            invariant
                i <= keys@.len(),
                self@ == old(self)@.without_all(key_texts(keys@).take(i as int)),
                old(self)@.valid() ==> self@.valid(),
            decreases keys@.len() - i,
        {
            assert(key_texts(keys@).take(i + 1).drop_last() =~= key_texts(keys@).take(i as int));
            self.remove(keys[i].as_str());
            i = i + 1;
        }
        assert(key_texts(keys@).take(i as int) =~= key_texts(keys@));
    }

    /// Looks a key up now. An entry that has expired is removed and not
    /// served.
    pub fn get<'a>(&'a mut self, key: &str) -> (r: Option<Ref<'a, String, DataWrapper>>)
        ensures
            exists|now: u64|
                #[trigger] clock_in_range(now)
                    && (final(self)@ == old(self)@.evict(key@, now))
                    && (r is Some <==> old(self)@.live(key@, now)),
            r matches Some(g) ==> guarded_by(g) == old(self)@.entries[key@],
            old(self)@.valid() ==> final(self)@.valid(),
    {
        let now = now_ms();
        self.get_at(key, now)
    }

    /// Looks a key up at time `now`. An entry that has expired by then is
    /// removed and not served.
    pub fn get_at<'a>(&'a mut self, key: &str, now: u64) -> (r: Option<
        Ref<'a, String, DataWrapper>,
    >)
        ensures
            final(self)@ == old(self)@.evict(key@, now),
            r is Some <==> old(self)@.live(key@, now),
            r matches Some(g) ==> guarded_by(g) == old(self)@.entries[key@],
            old(self)@.valid() ==> final(self)@.valid(),
    {
        let expired = match table_get(&self.data, key) {
            None => { return None; },
            Some(wrapper) => {
                let e: u64 = guarded(&wrapper).expire_raw();
                e != 0 && e <= now
            },
        };
        if expired {
            self.remove(key);
            return None;
        }
        table_get(&self.data, key)
    }

    /// Takes a key's entry out of the store at time `now`, to be changed and
    /// put back. An entry that has expired by then is removed for good and
    /// not handed out.
    pub fn take(&mut self, key: &str, now: u64) -> (r: Option<DataWrapper>)
        ensures
            old(self)@.live(key@, now) ==> r is Some && r->0@ == old(self)@.entries[key@]
                && final(self)@ == old(self)@.with_entries(old(self)@.entries.remove(key@)),
            !old(self)@.live(key@, now) ==> r is None && final(self)@ == old(self)@.evict(
                key@,
                now,
            ),
            old(self)@.valid() ==> final(self)@.valid(),
    {
        match table_remove(&mut self.data, key) {
            None => {
                assert(self@.entries =~= old(self)@.entries);
                None
            },
            Some(wrapper) => {
                let e: u64 = wrapper.expire_raw();
                if e != 0 && e <= now {
                    self.removed_count = if self.removed_count == u32::MAX {
                        0
                    } else {
                        self.removed_count + 1
                    };
                    None
                } else {
                    Some(wrapper)
                }
            },
        }
    }

    /// Puts an entry under a key, in place of what the key held.
    pub fn put(&mut self, key: &str, entry: DataWrapper)
        ensures
            final(self)@ == old(self)@.with_entry(key@, entry@),
            old(self)@.valid() && entry@.valid() ==> final(self)@.valid(),
    {
        table_insert(&mut self.data, key.to_owned(), entry);
        assert(old(self)@.valid() && entry@.valid() ==> self@.valid()) by {
            if old(self)@.valid() && entry@.valid() {
                assert forall|k: Seq<char>| self@.entries.contains_key(k) implies (
                #[trigger] self@.entries[k]).valid() by {
                    if k != key@ {
                        assert(old(self)@.entries.contains_key(k));
                        assert(self@.entries[k] == old(self)@.entries[k]);
                    }
                }
            }
        }
    }

    /// Writes a value under a key now, in place of what the key held, with
    /// the expiry that the directive asks for.
    pub fn set(&mut self, key: &str, value: DataType, expire: ExpireParameter) -> (r:
        Result<(), ()>)
        ensures
            exists|now: u64|
                #[trigger] clock_in_range(now)
                    && (final(self)@ == old(self)@.written(key@, value@, expire, now)),
            r is Ok,
            old(self)@.valid() && value@.valid() ==> final(self)@.valid(),
    {
        let now = now_ms();
        self.set_at(key, value, expire, now)
    }

    /// Writes a value under a key at time `now`, in place of what the key
    /// held, with the expiry that the directive asks for.
    pub fn set_at(&mut self, key: &str, value: DataType, expire: ExpireParameter, now: u64) -> (r:
        Result<(), ()>)
        requires
            expire matches ExpireParameter::EXPIREIN(span) ==> now + span <= u64::MAX,
        ensures
            r is Ok,
            final(self)@ == old(self)@.written(key@, value@, expire, now),
            old(self)@.valid() && value@.valid() ==> final(self)@.valid(),
    {
        let current_data = self.take(key, now);
        let prior: Option<u64> = match &current_data {
            Some(d) => d.get_expire(),
            None => None,
        };
        let new_expire = expire.get_expire_at(prior, now);
        let data = DataWrapper::new(value, new_expire);
        self.put(key, data);
        assert(self@.entries =~= old(self)@.written(key@, value@, expire, now).entries);
        Ok(())
    }

    /// Housekeeping, to be called every few seconds: reads the clock, and
    /// does the work that is due at that time.
    pub fn maintenance_work(&mut self)
        ensures
            exists|now: u64|
                #[trigger] clock_in_range(now)
                    && (final(self)@ == old(self)@.maintained(now)),
            old(self)@.valid() ==> final(self)@.valid(),
    {
        let now = now_ms();
        self.maintenance_work_at(now)
    }

    /// Housekeeping at time `now`, to be called every few seconds. The map
    /// is shrunk where enough entries have been removed since it last was;
    /// and where the last sweep is long enough ago, every entry that has
    /// expired is removed.
    pub fn maintenance_work_at(&mut self, now: u64)
        ensures
            final(self)@ == old(self)@.maintained(now),
            old(self)@.valid() ==> final(self)@.valid(),
    {
        let current_removed: u32 = self.removed_count;
        let size: usize = table_len(&self.data);
        if (current_removed as u64) * 10 > (size as u64) || current_removed > 50000 {
            table_shrink(&mut self.data);
            self.removed_count = 0;
        }
        let ghost shrunk = self@;
        let last_expired_cleanup: u64 = self.last_expired_cleanup;
        if last_expired_cleanup == 0 || (now >= last_expired_cleanup && now - last_expired_cleanup
            >= Self::MIN_TIME_BETWEEN_CLEANING) {
            let all: Vec<(String, u64)> = table_expiries(&self.data);
            let mut rm_keys: Vec<String> = Vec::new();
            let mut i: usize = 0;
            while i < all.len()
                invariant
                    i <= all@.len(),
                    forall|j: int|
                        0 <= j < all@.len() ==> shrunk.entries.contains_key(
                            (#[trigger] all@[j]).0@,
                        ) && shrunk.entries[all@[j].0@].expire == all@[j].1,
                    forall|j: int|
                        0 <= j < rm_keys@.len() ==> shrunk.overdue_keys(now).contains(
                            #[trigger] key_texts(rm_keys@)[j],
                        ),
                    forall|j: int|
                        0 <= j < i && shrunk.overdue_keys(now).contains((#[trigger] all@[j]).0@)
                            ==> key_set(key_texts(rm_keys@)).contains(all@[j].0@),
                decreases all@.len() - i,
            {
                let ghost picked = key_texts(rm_keys@);
                let ex: u64 = all[i].1;
                if ex != 0 && ex < now {
                    rm_keys.push(all[i].0.clone());
                    proof {
                        let now_picked = key_texts(rm_keys@);
                        assert(now_picked.drop_last() =~= picked);
                        assert(now_picked.last() == all@[i as int].0@);
                        assert(shrunk.overdue_keys(now).contains(all@[i as int].0@));
                        assert forall|j: int| 0 <= j < rm_keys@.len() implies shrunk.overdue_keys(
                            now,
                        ).contains(#[trigger] now_picked[j]) by {
                            if j < picked.len() {
                                assert(now_picked[j] == picked[j]);
                            }
                        }
                        assert forall|j: int|
                            0 <= j < i + 1 && shrunk.overdue_keys(now).contains(
                                (#[trigger] all@[j]).0@,
                            ) implies key_set(now_picked).contains(all@[j].0@) by {
                            if j < i {
                                assert(key_set(picked).contains(all@[j].0@));
                            }
                        }
                    }
                }
                i = i + 1;
            }
            let ghost keys = key_texts(rm_keys@);
            proof {
                lemma_key_set(keys);
                lemma_without_all(shrunk, keys);
                let hit = key_set(keys).intersect(shrunk.entries.dom());
                assert(hit =~= shrunk.overdue_keys(now)) by {
                    assert forall|k: Seq<char>| hit.contains(k) implies shrunk.overdue_keys(
                        now,
                    ).contains(k) by {
                        let j = choose|j: int| 0 <= j < keys.len() && #[trigger] keys[j] == k;
                        assert(shrunk.overdue_keys(now).contains(keys[j]));
                    }
                    assert forall|k: Seq<char>|
                        shrunk.overdue_keys(now).contains(k) implies hit.contains(k) by {
                        let j = choose|j: int| 0 <= j < all@.len() && (#[trigger] all@[j]).0@ == k;
                        assert(shrunk.overdue_keys(now).contains(all@[j].0@));
                    }
                }
                assert(shrunk.entries.remove_keys(key_set(keys)) =~= shrunk.entries.remove_keys(
                    shrunk.overdue_keys(now),
                ));
            }
            if rm_keys.len() > 0 {
                self.remove_all_string(rm_keys);
            }
            self.last_expired_cleanup = now;
        }
    }

    /// Removes every entry.
    pub fn flush(&mut self)
        ensures
            final(self)@ == old(self)@.flushed(),
            final(self)@.valid(),
    {
        self.data = table_new();
        assert(self@.entries =~= Map::<Seq<char>, EntryView>::empty());
    }
}

} // verus!
