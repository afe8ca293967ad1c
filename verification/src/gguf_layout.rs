//! The layout of a GGUF header, as one who writes it sees it.
//!
//! Each value has a type code and its bytes, least significant first; a text
//! and a list carry their length. What is laid out so is what the reader
//! reads: the architecture, the integers by key, the tensors with their
//! offsets, and the place where each part ends.
use vstd::prelude::*;
#[allow(unused_imports)]
use vstd::utf8::encode_utf8;

#[allow(unused_imports)]
use crate::gguf::{
    elements_at, entered_value, entries_at, header_of, law_a_cut_header_is_short,
    law_data_starts_aligned, le16, le32, le64, least_past, offset_of, recorded, rounded_up,
    shape_of, string_at, tensor_bytes_of, tensor_size, tensors_at, typed_at, uint_of,
    uint_with_suffix, End, MetaValueV, MetadataV, DEFAULT_ALIGNMENT, LAZY_AUTO_MIN_BYTES,
    LAZY_TABLE, MAX_DIMS, MAX_ELEMENTS, MAX_ENTRIES, MAX_STRING_BYTES, MAX_TENSORS,
};
#[allow(unused_imports)]
use crate::text::ends_with;

verus! {

// ---------------------------------------------------------------------------
// Bytes
// ---------------------------------------------------------------------------
/// The lowest `n` bytes of an integer in two's complement, least significant
/// first.
pub open spec fn le_bytes(v: int, n: nat) -> Seq<u8>
    decreases n,
{
    if n == 0 {
        seq![]
    } else {
        seq![(v % 0x100) as u8] + le_bytes(v / 0x100, (n - 1) as nat)
    }
}

/// A text: the number of its bytes in UTF-8, then these bytes.
pub open spec fn text_bytes(t: Seq<char>) -> Seq<u8> {
    le_bytes(encode_utf8(t).len() as int, 8) + encode_utf8(t)
}

/// Whether some bytes stand at a position.
pub open spec fn stands_at(b: Seq<u8>, pos: int, bytes: Seq<u8>) -> bool {
    &&& 0 <= pos && pos + bytes.len() <= b.len()
    &&& forall|i: int| 0 <= i < bytes.len() ==> #[trigger] b[pos + i] == bytes[i]
}

proof fn lemma_stands(b: Seq<u8>, pos: int, x: Seq<u8>, y: Seq<u8>)
    requires
        stands_at(b, pos, x + y),
    ensures
        stands_at(b, pos, x),
        stands_at(b, pos + x.len(), y),
{
    assert forall|i: int| 0 <= i < x.len() implies #[trigger] b[pos + i] == x[i] by {
        assert((x + y)[i] == x[i]);
    }
    assert forall|i: int| 0 <= i < y.len() implies #[trigger] b[pos + x.len() + i] == y[i] by {
        assert((x + y)[x.len() + i] == y[i]);
        assert(b[pos + (x.len() + i)] == y[i]);
    }
}

proof fn lemma_byte(b: Seq<u8>, pos: int, v: int, n: nat)
    requires
        n > 0,
        stands_at(b, pos, le_bytes(v, n)),
    ensures
        pos < b.len(),
        b[pos] == v % 0x100,
        stands_at(b, pos + 1, le_bytes(v / 0x100, (n - 1) as nat)),
{
    let x = seq![(v % 0x100) as u8];
    lemma_stands(b, pos, x, le_bytes(v / 0x100, (n - 1) as nat));
    assert(b[pos + 0] == x[0]);
}

proof fn lemma_width(v: int, n: nat)
    ensures
        le_bytes(v, n).len() == n,
    decreases n,
{
    if n > 0 {
        lemma_width(v / 0x100, (n - 1) as nat);
    }
}

proof fn lemma_le16(b: Seq<u8>, pos: int, v: int, n: nat)
    requires
        n >= 2,
        stands_at(b, pos, le_bytes(v, n)),
    ensures
        le16(b, pos) == v % 0x1_0000,
        pos + 2 <= b.len(),
        stands_at(b, pos + 2, le_bytes(v / 0x1_0000, (n - 2) as nat)),
{
    lemma_byte(b, pos, v, n);
    lemma_byte(b, pos + 1, v / 0x100, (n - 1) as nat);
    assert(v / 0x100 / 0x100 == v / 0x1_0000);
}

proof fn lemma_le32(b: Seq<u8>, pos: int, v: int, n: nat)
    requires
        n >= 4,
        stands_at(b, pos, le_bytes(v, n)),
    ensures
        le32(b, pos) == v % 0x1_0000_0000,
        pos + 4 <= b.len(),
        stands_at(b, pos + 4, le_bytes(v / 0x1_0000_0000, (n - 4) as nat)),
{
    lemma_le16(b, pos, v, n);
    lemma_le16(b, pos + 2, v / 0x1_0000, (n - 2) as nat);
    assert(v / 0x1_0000 / 0x1_0000 == v / 0x1_0000_0000);
    assert(le32(b, pos) == le16(b, pos) + 0x1_0000 * le16(b, pos + 2));
}

proof fn lemma_le64(b: Seq<u8>, pos: int, v: int)
    requires
        stands_at(b, pos, le_bytes(v, 8)),
    ensures
        le64(b, pos) == v % 0x1_0000_0000_0000_0000,
        pos + 8 <= b.len(),
{
    lemma_le32(b, pos, v, 8);
    lemma_le32(b, pos + 4, v / 0x1_0000_0000, 4);
}

proof fn lemma_text(b: Seq<u8>, pos: int, t: Seq<char>)
    requires
        stands_at(b, pos, text_bytes(t)),
        encode_utf8(t).len() <= MAX_STRING_BYTES,
    ensures
        string_at(b, pos) == Ok::<(Seq<char>, int), End>((t, pos + text_bytes(t).len())),
        text_bytes(t).len() == 8 + encode_utf8(t).len(),
{
    broadcast use vstd::utf8::encode_utf8_valid_utf8, vstd::utf8::encode_utf8_decode_utf8;

    let n = encode_utf8(t).len() as int;
    lemma_width(n, 8);
    lemma_stands(b, pos, le_bytes(n, 8), encode_utf8(t));
    lemma_le64(b, pos, n);
    let tail = b.subrange(pos + 8, pos + 8 + n);
    assert(tail =~= encode_utf8(t)) by {
        assert forall|i: int| 0 <= i < n implies #[trigger] tail[i] == encode_utf8(t)[i] by {
            assert(b[pos + 8 + i] == encode_utf8(t)[i]);
        }
    }
}

// ---------------------------------------------------------------------------
// Values
// ---------------------------------------------------------------------------
/// A metadata value as it is written. A float is its bits.
pub enum Written {
    U8(u8),
    I8(i8),
    U16(u16),
    I16(i16),
    U32(u32),
    I32(i32),
    F32(u32),
    Flag(bool),
    Text(Seq<char>),
    /// Values of one type, named by its code.
    List(u32, Seq<Written>),
    U64(u64),
    I64(i64),
    F64(u64),
}

/// The type code that stands before a value.
pub open spec fn code(w: Written) -> int {
    match w {
        Written::U8(_) => 0,
        Written::I8(_) => 1,
        Written::U16(_) => 2,
        Written::I16(_) => 3,
        Written::U32(_) => 4,
        Written::I32(_) => 5,
        Written::F32(_) => 6,
        Written::Flag(_) => 7,
        Written::Text(_) => 8,
        Written::List(_, _) => 9,
        Written::U64(_) => 10,
        Written::I64(_) => 11,
        Written::F64(_) => 12,
    }
}

/// The bytes of a value.
pub open spec fn value_bytes(w: Written) -> Seq<u8>
    decreases w,
{
    match w {
        Written::U8(v) => le_bytes(v as int, 1),
        Written::I8(v) => le_bytes(v as int, 1),
        Written::U16(v) => le_bytes(v as int, 2),
        Written::I16(v) => le_bytes(v as int, 2),
        Written::U32(v) => le_bytes(v as int, 4),
        Written::I32(v) => le_bytes(v as int, 4),
        Written::F32(bits) => le_bytes(bits as int, 4),
        Written::Flag(v) => le_bytes(
            if v {
                1
            } else {
                0
            },
            1,
        ),
        Written::Text(t) => text_bytes(t),
        Written::List(kind, items) => le_bytes(kind as int, 4) + le_bytes(items.len() as int, 8)
            + all_bytes(items),
        Written::U64(v) => le_bytes(v as int, 8),
        Written::I64(v) => le_bytes(v as int, 8),
        Written::F64(bits) => le_bytes(bits as int, 8),
    }
}

/// The bytes of some values, one after the other.
pub open spec fn all_bytes(items: Seq<Written>) -> Seq<u8>
    decreases items,
{
    if items.len() == 0 {
        seq![]
    } else {
        value_bytes(items[0]) + all_bytes(items.skip(1))
    }
}

/// Whether a value can be written so: its texts and lists are no longer than a
/// reader takes, and a list is of one type.
pub open spec fn writable(w: Written) -> bool
    decreases w,
{
    match w {
        Written::Text(t) => encode_utf8(t).len() <= MAX_STRING_BYTES,
        Written::List(kind, items) => items.len() <= MAX_ELEMENTS && all_writable(
            items,
            kind as int,
        ),
        _ => true,
    }
}

/// Whether all of some values can be written so and are of one type.
pub open spec fn all_writable(items: Seq<Written>, kind: int) -> bool
    decreases items,
{
    items.len() > 0 ==> code(items[0]) == kind && writable(items[0]) && all_writable(
        items.skip(1),
        kind,
    )
}

/// The integer that a value is. A flag is a one or a zero; an integer beyond
/// the signed range is the largest there is.
pub open spec fn number(w: Written) -> Option<int> {
    match w {
        Written::U8(v) => Some(v as int),
        Written::I8(v) => Some(v as int),
        Written::U16(v) => Some(v as int),
        Written::I16(v) => Some(v as int),
        Written::U32(v) => Some(v as int),
        Written::I32(v) => Some(v as int),
        Written::Flag(v) => Some(
            if v {
                1
            } else {
                0
            },
        ),
        Written::U64(v) => Some(
            if v <= i64::MAX {
                v as int
            } else {
                i64::MAX as int
            },
        ),
        Written::I64(v) => Some(v as int),
        _ => None,
    }
}

proof fn lemma_value_width(w: Written)
    ensures
        value_bytes(w).len() > 0,
{
    match w {
        Written::U8(v) => lemma_width(v as int, 1),
        Written::I8(v) => lemma_width(v as int, 1),
        Written::U16(v) => lemma_width(v as int, 2),
        Written::I16(v) => lemma_width(v as int, 2),
        Written::U32(v) => lemma_width(v as int, 4),
        Written::I32(v) => lemma_width(v as int, 4),
        Written::F32(bits) => lemma_width(bits as int, 4),
        Written::Flag(v) => {
            lemma_width(0, 1);
            lemma_width(1, 1);
        },
        Written::Text(t) => lemma_width(encode_utf8(t).len() as int, 8),
        Written::List(kind, items) => lemma_width(kind as int, 4),
        Written::U64(v) => lemma_width(v as int, 8),
        Written::I64(v) => lemma_width(v as int, 8),
        Written::F64(bits) => lemma_width(bits as int, 8),
    }
}

/// A value that is written reads back, whatever its type: an integer as
/// itself, a text as itself, a float or a list as nothing of interest, and the
/// reader stands where the value ends.
pub proof fn law_a_written_value_reads_back(b: Seq<u8>, pos: int, w: Written)
    requires
        writable(w),
        stands_at(b, pos, value_bytes(w)),
    ensures
        typed_at(b, pos, code(w)) matches Ok((value, end)) && {
            &&& end == pos + value_bytes(w).len()
            &&& number(w) matches Some(n) ==> value == MetaValueV::Uint(n)
            &&& w matches Written::Text(t) ==> value == MetaValueV::Text(t)
            &&& w is F32 || w is F64 || w is List ==> value is Other
        },
    decreases w, 0int,
{
    match w {
        Written::U8(v) => {
            lemma_width(v as int, 1);
            lemma_byte(b, pos, v as int, 1);
        },
        Written::I8(v) => {
            lemma_width(v as int, 1);
            lemma_byte(b, pos, v as int, 1);
        },
        Written::U16(v) => {
            lemma_width(v as int, 2);
            lemma_le16(b, pos, v as int, 2);
        },
        Written::I16(v) => {
            lemma_width(v as int, 2);
            lemma_le16(b, pos, v as int, 2);
        },
        Written::U32(v) => {
            lemma_width(v as int, 4);
            lemma_le32(b, pos, v as int, 4);
        },
        Written::I32(v) => {
            lemma_width(v as int, 4);
            lemma_le32(b, pos, v as int, 4);
        },
        Written::F32(bits) => {
            lemma_width(bits as int, 4);
        },
        Written::Flag(v) => {
            let n: int = if v {
                1
            } else {
                0
            };
            lemma_width(n, 1);
            lemma_byte(b, pos, n, 1);
        },
        Written::Text(t) => {
            lemma_text(b, pos, t);
        },
        Written::List(kind, items) => {
            let front = le_bytes(kind as int, 4);
            let middle = le_bytes(items.len() as int, 8);
            lemma_width(kind as int, 4);
            lemma_width(items.len() as int, 8);
            lemma_stands(b, pos, front + middle, all_bytes(items));
            lemma_stands(b, pos, front, middle);
            lemma_le32(b, pos, kind as int, 4);
            lemma_le64(b, pos + 4, items.len() as int);
            lemma_elements(b, pos + 12, kind as int, items);
        },
        Written::U64(v) => {
            lemma_width(v as int, 8);
            lemma_le64(b, pos, v as int);
        },
        Written::I64(v) => {
            lemma_width(v as int, 8);
            lemma_le64(b, pos, v as int);
        },
        Written::F64(bits) => {
            lemma_width(bits as int, 8);
        },
    }
}

proof fn lemma_elements(b: Seq<u8>, pos: int, kind: int, items: Seq<Written>)
    requires
        all_writable(items, kind),
        stands_at(b, pos, all_bytes(items)),
    ensures
        elements_at(b, pos, kind, items.len()) == Ok::<int, End>(pos + all_bytes(items).len()),
    decreases items, 1int,
{
    if items.len() > 0 {
        let first = value_bytes(items[0]);
        lemma_stands(b, pos, first, all_bytes(items.skip(1)));
        lemma_value_width(items[0]);
        law_a_written_value_reads_back(b, pos, items[0]);
        lemma_elements(b, pos + first.len(), kind, items.skip(1));
    }
}

// ---------------------------------------------------------------------------
// The metadata block
// ---------------------------------------------------------------------------
/// A metadata entry: its key, the type code and the value.
pub open spec fn entry_bytes(e: (Seq<char>, Written)) -> Seq<u8> {
    text_bytes(e.0) + le_bytes(code(e.1), 4) + value_bytes(e.1)
}

/// Metadata entries, one after the other.
pub open spec fn block_bytes(entries: Seq<(Seq<char>, Written)>) -> Seq<u8>
    decreases entries.len(),
{
    if entries.len() == 0 {
        seq![]
    } else {
        block_bytes(entries.drop_last()) + entry_bytes(entries.last())
    }
}

/// Whether an entry can be written so.
pub open spec fn entry_writable(e: (Seq<char>, Written)) -> bool {
    encode_utf8(e.0).len() <= MAX_STRING_BYTES && writable(e.1)
}

/// Whether every entry can be written so.
pub open spec fn block_writable(entries: Seq<(Seq<char>, Written)>) -> bool {
    forall|i: int| 0 <= i < entries.len() ==> entry_writable(#[trigger] entries[i])
}

/// The integer under a key: the last that was written.
pub open spec fn latest_number(entries: Seq<(Seq<char>, Written)>, key: Seq<char>) -> Option<int>
    decreases entries.len(),
{
    if entries.len() == 0 {
        None
    } else if entries.last().0 == key && number(entries.last().1) is Some {
        number(entries.last().1)
    } else {
        latest_number(entries.drop_last(), key)
    }
}

/// The architecture: the last text that was written under its key.
pub open spec fn named_architecture(entries: Seq<(Seq<char>, Written)>) -> Option<Seq<char>>
    decreases entries.len(),
{
    if entries.len() == 0 {
        None
    } else if entries.last().0 == "general.architecture"@ && entries.last().1 is Text {
        Some(entries.last().1->Text_0)
    } else {
        named_architecture(entries.drop_last())
    }
}

/// The key of the first integer whose key ends in a suffix.
pub open spec fn first_key_with(entries: Seq<(Seq<char>, Written)>, suffix: Seq<char>) -> Option<
    Seq<char>,
>
    decreases entries.len(),
{
    if entries.len() == 0 {
        None
    } else {
        let earlier = first_key_with(entries.drop_last(), suffix);
        if earlier is None && number(entries.last().1) is Some && ends_with(
            entries.last().0,
            suffix,
        ) {
            Some(entries.last().0)
        } else {
            earlier
        }
    }
}

spec fn meaning(w: Written) -> MetaValueV {
    match number(w) {
        Some(n) => MetaValueV::Uint(n),
        None => match w {
            Written::Text(t) => MetaValueV::Text(t),
            _ => MetaValueV::Other,
        },
    }
}

spec fn read_from(entries: Seq<(Seq<char>, Written)>) -> MetadataV
    decreases entries.len(),
{
    if entries.len() == 0 {
        MetadataV { arch: None, uints: seq![] }
    } else {
        entered_value(
            read_from(entries.drop_last()),
            entries.last().0,
            meaning(entries.last().1),
        )
    }
}

spec fn key_with(uints: Seq<(Seq<char>, int)>, suffix: Seq<char>) -> Option<Seq<char>>
    decreases uints.len(),
{
    if uints.len() == 0 {
        None
    } else if ends_with(uints[0].0, suffix) {
        Some(uints[0].0)
    } else {
        key_with(uints.skip(1), suffix)
    }
}

proof fn lemma_recorded(
    uints: Seq<(Seq<char>, int)>,
    key: Seq<char>,
    n: int,
    other: Seq<char>,
    suffix: Seq<char>,
)
    ensures
        uint_of(recorded(uints, key, n), other) == if other == key {
            Some(n)
        } else {
            uint_of(uints, other)
        },
        key_with(recorded(uints, key, n), suffix) == if key_with(uints, suffix) is None
            && ends_with(key, suffix) {
            Some(key)
        } else {
            key_with(uints, suffix)
        },
    decreases uints.len(),
{
    let after = recorded(uints, key, n);
    if uints.len() == 0 {
        assert(after.skip(1) =~= seq![]);
        assert(uint_of(after.skip(1), other) is None);
        assert(key_with(after.skip(1), suffix) is None);
    } else if uints[0].0 == key {
        assert(after.skip(1) =~= uints.skip(1));
    } else {
        lemma_recorded(uints.skip(1), key, n, other, suffix);
        assert(after.skip(1) =~= recorded(uints.skip(1), key, n));
    }
}

proof fn lemma_suffix(uints: Seq<(Seq<char>, int)>, suffix: Seq<char>)
    ensures
        uint_with_suffix(uints, suffix) == match key_with(uints, suffix) {
            Some(key) => uint_of(uints, key),
            None => None,
        },
    decreases uints.len(),
{
    if uints.len() > 0 && !ends_with(uints[0].0, suffix) {
        lemma_suffix(uints.skip(1), suffix);
        lemma_key_with(uints.skip(1), suffix);
    }
}

proof fn lemma_key_with(uints: Seq<(Seq<char>, int)>, suffix: Seq<char>)
    ensures
        key_with(uints, suffix) matches Some(key) ==> ends_with(key, suffix),
    decreases uints.len(),
{
    if uints.len() > 0 {
        lemma_key_with(uints.skip(1), suffix);
    }
}

proof fn lemma_read_from(entries: Seq<(Seq<char>, Written)>, key: Seq<char>, suffix: Seq<char>)
    ensures
        read_from(entries).arch == named_architecture(entries),
        uint_of(read_from(entries).uints, key) == latest_number(entries, key),
        key_with(read_from(entries).uints, suffix) == first_key_with(entries, suffix),
    decreases entries.len(),
{
    if entries.len() > 0 {
        let front = entries.drop_last();
        lemma_read_from(front, key, suffix);
        match number(entries.last().1) {
            Some(n) => {
                lemma_recorded(read_from(front).uints, entries.last().0, n, key, suffix);
            },
            None => {},
        }
    }
}

proof fn lemma_entry(b: Seq<u8>, pos: int, e: (Seq<char>, Written))
    requires
        entry_writable(e),
        stands_at(b, pos, entry_bytes(e)),
    ensures
        ({
            let at = pos + text_bytes(e.0).len();
            &&& string_at(b, pos) == Ok::<(Seq<char>, int), End>((e.0, at))
            &&& at + 4 <= b.len() && le32(b, at) == code(e.1)
            &&& typed_at(b, at + 4, code(e.1)) == Ok::<(MetaValueV, int), End>(
                (meaning(e.1), pos + entry_bytes(e).len()),
            )
        }),
{
    let key = text_bytes(e.0);
    let kind = le_bytes(code(e.1), 4);
    lemma_width(code(e.1), 4);
    lemma_stands(b, pos, key + kind, value_bytes(e.1));
    lemma_stands(b, pos, key, kind);
    lemma_text(b, pos, e.0);
    lemma_le32(b, pos + key.len(), code(e.1), 4);
    law_a_written_value_reads_back(b, pos + key.len() + 4, e.1);
}

proof fn lemma_front_stands(b: Seq<u8>, pos: int, entries: Seq<(Seq<char>, Written)>, k: int)
    requires
        0 <= k <= entries.len(),
        stands_at(b, pos, block_bytes(entries)),
    ensures
        stands_at(b, pos, block_bytes(entries.take(k))),
    decreases entries.len() - k,
{
    if k == entries.len() {
        assert(entries.take(k) =~= entries);
    } else {
        lemma_front_stands(b, pos, entries, k + 1);
        let more = entries.take(k + 1);
        assert(more.drop_last() =~= entries.take(k));
        lemma_stands(b, pos, block_bytes(entries.take(k)), entry_bytes(more.last()));
    }
}

proof fn lemma_entries(b: Seq<u8>, pos: int, entries: Seq<(Seq<char>, Written)>, k: int)
    requires
        0 <= k <= entries.len(),
        block_writable(entries),
        stands_at(b, pos, block_bytes(entries)),
    ensures
        entries_at(
            b,
            pos + block_bytes(entries.take(k)).len(),
            (entries.len() - k) as nat,
            read_from(entries.take(k)),
        ) == Ok::<(MetadataV, int), End>((read_from(entries), pos + block_bytes(entries).len())),
    decreases entries.len() - k,
{
    if k == entries.len() {
        assert(entries.take(k) =~= entries);
    } else {
        let more = entries.take(k + 1);
        let front = block_bytes(entries.take(k));
        assert(more.drop_last() =~= entries.take(k));
        assert(more.last() == entries[k]);
        lemma_front_stands(b, pos, entries, k + 1);
        lemma_stands(b, pos, front, entry_bytes(entries[k]));
        assert(entry_writable(entries[k]));
        lemma_entry(b, pos + front.len(), entries[k]);
        lemma_entries(b, pos, entries, k + 1);
    }
}

// ---------------------------------------------------------------------------
// The whole header
// ---------------------------------------------------------------------------
/// The front of a file: the magic, the version, how many tensors and how many
/// metadata entries there are, then the entries.
pub open spec fn header_bytes(version: u32, tensors: u64, entries: Seq<(Seq<char>, Written)>) -> Seq<
    u8,
> {
    seq![0x47u8, 0x47u8, 0x55u8, 0x46u8] + le_bytes(version as int, 4) + le_bytes(tensors as int, 8)
        + le_bytes(entries.len() as int, 8) + block_bytes(entries)
}

/// A header that is written reads back, whatever follows it: the tensor count,
/// the architecture, the last integer under every key and no integer under any
/// other, the first integer key of every ending; and the reader stands where
/// the header ends.
pub proof fn law_a_written_header_reads_back(
    version: u32,
    tensors: u64,
    entries: Seq<(Seq<char>, Written)>,
    rest: Seq<u8>,
    key: Seq<char>,
    suffix: Seq<char>,
)
    requires
        entries.len() <= MAX_ENTRIES,
        block_writable(entries),
    ensures
        header_of(header_bytes(version, tensors, entries) + rest) matches Ok((count, m, end)) && {
            &&& count == tensors
            &&& m.arch == named_architecture(entries)
            &&& uint_of(m.uints, key) == latest_number(entries, key)
            &&& uint_with_suffix(m.uints, suffix) == match first_key_with(entries, suffix) {
                Some(first) => latest_number(entries, first),
                None => None,
            }
            &&& end == header_bytes(version, tensors, entries).len()
        },
{
    lemma_header(version, tensors, entries, rest);
    lemma_read_from(entries, key, suffix);
    lemma_suffix(read_from(entries).uints, suffix);
    match first_key_with(entries, suffix) {
        Some(first) => lemma_read_from(entries, first, suffix),
        None => {},
    }
}

/// A written header that is cut anywhere is short.
pub proof fn law_a_cut_written_header_is_short(
    version: u32,
    tensors: u64,
    entries: Seq<(Seq<char>, Written)>,
    k: int,
)
    requires
        entries.len() <= MAX_ENTRIES,
        block_writable(entries),
        0 <= k < header_bytes(version, tensors, entries).len(),
    ensures
        header_of(header_bytes(version, tensors, entries).take(k)) == Err::<
            (int, MetadataV, int),
            End,
        >(End::Short),
{
    let b = header_bytes(version, tensors, entries);
    law_a_written_header_reads_back(version, tensors, entries, seq![], seq![], seq![]);
    assert(b + Seq::<u8>::empty() =~= b);
    law_a_cut_header_is_short(b, k);
}

/// What a file may hold: a hundred thousand entries, a hundred million elements
/// in a list, a million tensors of eight dimensions, texts of 64 MiB. Data is
/// aligned to 32 bytes where the file does not say.
pub proof fn law_a_file_has_these_limits()
    ensures
        MAX_ENTRIES == 100_000,
        MAX_ELEMENTS == 100_000_000,
        MAX_TENSORS == 1_000_000,
        MAX_DIMS == 8,
        MAX_STRING_BYTES == 67_108_864,
        DEFAULT_ALIGNMENT == 32,
        LAZY_AUTO_MIN_BYTES == 4_294_967_296,
        LAZY_TABLE@ == "per_layer_token_embd.weight"@,
{
}

/// A text that claims more than 64 MiB is bad, and so is a tensor that claims more
/// than eight dimensions and a value of a type that there is not; a text whose
/// bytes are not all there is short.
pub proof fn law_wrong_claims_are_bad(b: Seq<u8>, pos: int, ty: int, seen: Seq<(Seq<char>, int)>)
    requires
        0 <= pos,
        pos + 8 <= b.len(),
    ensures
        le64(b, pos) > 67_108_864 ==> string_at(b, pos) == Err::<(Seq<char>, int), End>(End::Bad),
        le64(b, pos) <= 67_108_864 && pos + 8 + le64(b, pos) > b.len() ==> string_at(b, pos)
            == Err::<(Seq<char>, int), End>(End::Short),
        ty < 0 || ty > 12 ==> typed_at(b, pos, ty) == Err::<(MetaValueV, int), End>(End::Bad),
        string_at(b, pos) matches Ok((_, at)) ==> (at + 4 <= b.len() && le32(b, at) > 8
            ==> tensors_at(b, pos, 1, seen) == Err::<(Seq<(Seq<char>, int)>, int), End>(End::Bad)),
{
}

proof fn lemma_header(
    version: u32,
    tensors: u64,
    entries: Seq<(Seq<char>, Written)>,
    rest: Seq<u8>,
)
    requires
        entries.len() <= MAX_ENTRIES,
        block_writable(entries),
    ensures
        header_of(header_bytes(version, tensors, entries) + rest) == Ok::<
            (int, MetadataV, int),
            End,
        >(
            (
                tensors as int,
                read_from(entries),
                header_bytes(version, tensors, entries).len() as int,
            ),
        ),
{
    let file = header_bytes(version, tensors, entries);
    let b = file + rest;
    let magic = seq![0x47u8, 0x47u8, 0x55u8, 0x46u8];
    let v = le_bytes(version as int, 4);
    let t = le_bytes(tensors as int, 8);
    let n = le_bytes(entries.len() as int, 8);
    lemma_width(version as int, 4);
    lemma_width(tensors as int, 8);
    lemma_width(entries.len() as int, 8);
    assert(stands_at(b, 0, file));
    lemma_stands(b, 0, magic + v + t + n, block_bytes(entries));
    lemma_stands(b, 0, magic + v + t, n);
    lemma_stands(b, 0, magic + v, t);
    lemma_stands(b, 0, magic, v);
    let o: int = 0;
    assert(b[o + 0] == magic[0] && b[o + 1] == magic[1] && b[o + 2] == magic[2] && b[o + 3]
        == magic[3]);
    lemma_le64(b, 8, tensors as int);
    lemma_le64(b, 16, entries.len() as int);
    lemma_entries(b, 24, entries, 0);
    assert(entries.take(0) =~= seq![]);
}

/// How many of something a written header counts for its architecture: the
/// integer under the architecture's own key, or else under the first key with
/// that ending, or else none.
pub open spec fn counted(entries: Seq<(Seq<char>, Written)>, arch: Seq<char>, name: Seq<char>) -> int {
    match latest_number(entries, arch + "."@ + name) {
        Some(n) => n,
        None => match first_key_with(entries, "."@ + name) {
            Some(first) => match latest_number(entries, first) {
                Some(n) => n,
                None => 0,
            },
            None => 0,
        },
    }
}

/// The shape of a model is what its header was written with. A header that
/// names no architecture, or counts below zero, has none.
pub proof fn law_a_written_shape_reads_back(
    version: u32,
    tensors: u64,
    entries: Seq<(Seq<char>, Written)>,
    rest: Seq<u8>,
)
    requires
        entries.len() <= MAX_ENTRIES,
        block_writable(entries),
    ensures
        shape_of(header_bytes(version, tensors, entries) + rest) == match named_architecture(
            entries,
        ) {
            Some(arch) => if counted(entries, arch, "expert_count"@) < 0 || counted(
                entries,
                arch,
                "block_count"@,
            ) < 0 {
                Err::<(int, int), End>(End::Bad)
            } else {
                Ok::<(int, int), End>(
                    (
                        counted(entries, arch, "expert_count"@),
                        counted(entries, arch, "block_count"@),
                    ),
                )
            },
            None => Err::<(int, int), End>(End::Bad),
        },
{
    lemma_header(version, tensors, entries, rest);
    lemma_read_from(entries, seq![], seq![]);
    match named_architecture(entries) {
        Some(arch) => {
            law_a_written_header_reads_back(
                version,
                tensors,
                entries,
                rest,
                arch + "."@ + "expert_count"@,
                "."@ + "expert_count"@,
            );
            law_a_written_header_reads_back(
                version,
                tensors,
                entries,
                rest,
                arch + "."@ + "block_count"@,
                "."@ + "block_count"@,
            );
        },
        None => {},
    }
}

/// Bytes that do not begin with the magic are no header, and a front that ends
/// before the entry counts do is one that ends too soon.
pub proof fn law_a_file_begins_with_its_magic(b: Seq<u8>)
    ensures
        4 <= b.len() && !(b[0] == 0x47 && b[1] == 0x47 && b[2] == 0x55 && b[3] == 0x46)
            ==> header_of(b) == Err::<(int, MetadataV, int), End>(End::Bad),
        b.len() < 4 ==> header_of(b) == Err::<(int, MetadataV, int), End>(End::Short),
        4 <= b.len() < 24 && b[0] == 0x47 && b[1] == 0x47 && b[2] == 0x55 && b[3] == 0x46
            ==> header_of(b) == Err::<(int, MetadataV, int), End>(End::Short),
{
}

// ---------------------------------------------------------------------------
// The tensor directory
// ---------------------------------------------------------------------------
/// A tensor as the directory has it.
pub struct TensorV {
    pub name: Seq<char>,
    pub dims: Seq<u64>,
    pub kind: u32,
    /// Where its data begins, from the start of the data section.
    pub offset: u64,
}

/// The dimensions, one after the other.
pub open spec fn dims_bytes(dims: Seq<u64>) -> Seq<u8>
    decreases dims.len(),
{
    if dims.len() == 0 {
        seq![]
    } else {
        dims_bytes(dims.drop_last()) + le_bytes(dims.last() as int, 8)
    }
}

/// A directory entry: the name, the dimensions and their number, the type and
/// the offset.
pub open spec fn tensor_bytes(t: TensorV) -> Seq<u8> {
    text_bytes(t.name) + le_bytes(t.dims.len() as int, 4) + dims_bytes(t.dims) + le_bytes(
        t.kind as int,
        4,
    ) + le_bytes(t.offset as int, 8)
}

/// The directory entries, one after the other.
pub open spec fn directory_bytes(tensors: Seq<TensorV>) -> Seq<u8>
    decreases tensors.len(),
{
    if tensors.len() == 0 {
        seq![]
    } else {
        directory_bytes(tensors.drop_last()) + tensor_bytes(tensors.last())
    }
}

/// Whether a tensor can be written so.
pub open spec fn tensor_writable(t: TensorV) -> bool {
    encode_utf8(t.name).len() <= MAX_STRING_BYTES && t.dims.len() <= MAX_DIMS
}

/// Whether every tensor can be written so.
pub open spec fn directory_writable(tensors: Seq<TensorV>) -> bool {
    forall|i: int| 0 <= i < tensors.len() ==> tensor_writable(#[trigger] tensors[i])
}

/// The names and offsets of some tensors.
pub open spec fn offsets(tensors: Seq<TensorV>) -> Seq<(Seq<char>, int)> {
    tensors.map_values(|t: TensorV| (t.name, t.offset as int))
}

proof fn lemma_dims_width(dims: Seq<u64>)
    ensures
        dims_bytes(dims).len() == 8 * dims.len(),
    decreases dims.len(),
{
    if dims.len() > 0 {
        lemma_dims_width(dims.drop_last());
        lemma_width(dims.last() as int, 8);
    }
}

proof fn lemma_tensor(b: Seq<u8>, pos: int, t: TensorV)
    requires
        tensor_writable(t),
        stands_at(b, pos, tensor_bytes(t)),
    ensures
        ({
            let at = pos + text_bytes(t.name).len();
            let end = at + 4 + 8 * t.dims.len() + 12;
            &&& string_at(b, pos) == Ok::<(Seq<char>, int), End>((t.name, at))
            &&& end == pos + tensor_bytes(t).len() && end <= b.len()
            &&& le32(b, at) == t.dims.len()
            &&& le64(b, end - 8) == t.offset
        }),
{
    let name = text_bytes(t.name);
    let n = le_bytes(t.dims.len() as int, 4);
    let dims = dims_bytes(t.dims);
    let kind = le_bytes(t.kind as int, 4);
    let offset = le_bytes(t.offset as int, 8);
    lemma_width(t.dims.len() as int, 4);
    lemma_dims_width(t.dims);
    lemma_width(t.kind as int, 4);
    lemma_width(t.offset as int, 8);
    lemma_stands(b, pos, name + n + dims + kind, offset);
    lemma_stands(b, pos, name + n + dims, kind);
    lemma_stands(b, pos, name + n, dims);
    lemma_stands(b, pos, name, n);
    lemma_text(b, pos, t.name);
    lemma_le32(b, pos + name.len(), t.dims.len() as int, 4);
    lemma_le64(b, pos + (name + n + dims + kind).len(), t.offset as int);
}

proof fn lemma_directory_front(b: Seq<u8>, pos: int, tensors: Seq<TensorV>, k: int)
    requires
        0 <= k <= tensors.len(),
        stands_at(b, pos, directory_bytes(tensors)),
    ensures
        stands_at(b, pos, directory_bytes(tensors.take(k))),
    decreases tensors.len() - k,
{
    if k == tensors.len() {
        assert(tensors.take(k) =~= tensors);
    } else {
        lemma_directory_front(b, pos, tensors, k + 1);
        let more = tensors.take(k + 1);
        assert(more.drop_last() =~= tensors.take(k));
        lemma_stands(b, pos, directory_bytes(tensors.take(k)), tensor_bytes(more.last()));
    }
}

proof fn lemma_directory(b: Seq<u8>, pos: int, tensors: Seq<TensorV>, k: int)
    requires
        0 <= k <= tensors.len(),
        directory_writable(tensors),
        stands_at(b, pos, directory_bytes(tensors)),
    ensures
        tensors_at(
            b,
            pos + directory_bytes(tensors.take(k)).len(),
            (tensors.len() - k) as nat,
            offsets(tensors.take(k)),
        ) == Ok::<(Seq<(Seq<char>, int)>, int), End>(
            (offsets(tensors), pos + directory_bytes(tensors).len()),
        ),
    decreases tensors.len() - k,
{
    if k == tensors.len() {
        assert(tensors.take(k) =~= tensors);
    } else {
        let more = tensors.take(k + 1);
        let front = directory_bytes(tensors.take(k));
        assert(more.drop_last() =~= tensors.take(k));
        assert(more.last() == tensors[k]);
        lemma_directory_front(b, pos, tensors, k + 1);
        lemma_stands(b, pos, front, tensor_bytes(tensors[k]));
        assert(tensor_writable(tensors[k]));
        lemma_tensor(b, pos + front.len(), tensors[k]);
        assert(offsets(more) =~= offsets(tensors.take(k)).push(
            (tensors[k].name, tensors[k].offset as int),
        ));
        lemma_directory(b, pos, tensors, k + 1);
    }
}

/// A tensor directory that is written reads back, whatever stands around it:
/// the name and the offset of every tensor, in order, and the place where the
/// directory ends.
pub proof fn law_a_written_directory_reads_back(
    front: Seq<u8>,
    tensors: Seq<TensorV>,
    rest: Seq<u8>,
)
    requires
        directory_writable(tensors),
    ensures
        tensors_at(
            front + directory_bytes(tensors) + rest,
            front.len() as int,
            tensors.len(),
            seq![],
        ) matches Ok((read, end)) && {
            &&& read.len() == tensors.len()
            &&& forall|i: int|
                0 <= i < tensors.len() ==> #[trigger] read[i] == (
                    tensors[i].name,
                    tensors[i].offset as int,
                )
            &&& end == front.len() + directory_bytes(tensors).len()
        },
{
    let b = front + directory_bytes(tensors) + rest;
    let pos = front.len() as int;
    assert forall|i: int| 0 <= i < directory_bytes(tensors).len() implies #[trigger] b[pos + i]
        == directory_bytes(tensors)[i] by {}
    lemma_directory(b, pos, tensors, 0);
    assert(tensors.take(0) =~= seq![]);
    assert(offsets(tensors.take(0)) =~= seq![]);
}

proof fn lemma_offset(tensors: Seq<TensorV>, i: int)
    requires
        0 <= i < tensors.len(),
        forall|k: int| i < k < tensors.len() ==> (#[trigger] tensors[k]).name != tensors[i].name,
    ensures
        offset_of(offsets(tensors), tensors[i].name) == Some(tensors[i].offset as int),
    decreases tensors.len(),
{
    let all = offsets(tensors);
    if i < tensors.len() - 1 {
        let front = tensors.drop_last();
        assert(all.drop_last() =~= offsets(front));
        assert(tensors[tensors.len() - 1].name != tensors[i].name);
        lemma_offset(front, i);
    }
}

proof fn lemma_least(tensors: Seq<TensorV>, target: int)
    ensures
        match least_past(offsets(tensors), target) {
            Some(next) => {
                &&& exists|k: int| 0 <= k < tensors.len() && (#[trigger] tensors[k]).offset == next
                &&& target < next
                &&& forall|k: int|
                    0 <= k < tensors.len() && (#[trigger] tensors[k]).offset > target
                        ==> tensors[k].offset >= next
            },
            None => forall|k: int| 0 <= k < tensors.len() ==> (#[trigger] tensors[k]).offset <= target,
        },
    decreases tensors.len(),
{
    if tensors.len() > 0 {
        let front = tensors.drop_last();
        assert(offsets(tensors).drop_last() =~= offsets(front));
        lemma_least(front, target);
        let last = tensors[tensors.len() - 1];
        assert forall|k: int| 0 <= k < tensors.len() implies #[trigger] tensors[k] == if k
            < front.len() {
            front[k]
        } else {
            last
        } by {}
        match least_past(offsets(front), target) {
            Some(next) => {
                let k = choose|k: int| 0 <= k < front.len() && (#[trigger] front[k]).offset == next;
                assert(tensors[k].offset == next);
            },
            None => {},
        }
    }
}

/// The data section of a file: from the end of its directory up to the next
/// multiple of the alignment, which is the one the header gives, if it is above
/// zero, or else the usual one.
pub open spec fn data_starts(entries: Seq<(Seq<char>, Written)>, directory_end: int, start: int) -> bool {
    let a = match latest_number(entries, "general.alignment"@) {
        Some(n) => if n > 0 {
            n
        } else {
            32
        },
        None => 32,
    };
    directory_end <= start < directory_end + a && start % a == 0
}

/// There is one multiple of the alignment to round up to.
proof fn lemma_start(end: int, start: int, a: int)
    requires
        0 < a,
        0 <= end <= start < end + a,
        start % a == 0,
    ensures
        rounded_up(end, a) == start,
{
    law_data_starts_aligned(end, a);
    let r = rounded_up(end, a);
    assert(r == start) by (nonlinear_arith)
        requires
            0 < a,
            end <= start < end + a,
            start % a == 0,
            end <= r < end + a,
            r % a == 0,
    ;
}

#[verifier::spinoff_prover]
#[verifier::rlimit(60)]
proof fn lemma_file(
    version: u32,
    entries: Seq<(Seq<char>, Written)>,
    tensors: Seq<TensorV>,
    rest: Seq<u8>,
    file_len: int,
    name: Seq<char>,
)
    requires
        entries.len() <= MAX_ENTRIES,
        block_writable(entries),
        tensors.len() <= MAX_TENSORS,
        directory_writable(tensors),
    ensures
        ({
            let front = header_bytes(version, tensors.len() as u64, entries) + directory_bytes(
                tensors,
            );
            tensor_bytes_of(front + rest, file_len, name) == match tensor_size(
                read_from(entries),
                offsets(tensors),
                front.len() as int,
                file_len,
                name,
            ) {
                Some(n) => Ok::<int, End>(n),
                None => Err::<int, End>(End::Bad),
            }
        }),
{
    let header = header_bytes(version, tensors.len() as u64, entries);
    let directory = directory_bytes(tensors);
    let b = header + directory + rest;
    assert(b =~= header + (directory + rest));
    lemma_header(version, tensors.len() as u64, entries, directory + rest);
    let pos = header.len() as int;
    assert((header + directory).len() == pos + directory.len());
    assert forall|k: int| 0 <= k < directory.len() implies #[trigger] b[pos + k] == directory[k] by {}
    lemma_directory(b, pos, tensors, 0);
    assert(tensors.take(0) =~= seq![]);
    assert(offsets(tensors.take(0)) =~= seq![]);
}

/// The size of a tensor in a file that is written so. The data of the tensor
/// runs up to the next larger offset of the directory, whichever tensor has it;
/// behind the last one it runs to the end of the file.
pub proof fn law_a_written_tensor_has_its_size(
    version: u32,
    entries: Seq<(Seq<char>, Written)>,
    tensors: Seq<TensorV>,
    rest: Seq<u8>,
    file_len: int,
    start: int,
    i: int,
    next: int,
)
    requires
        entries.len() <= MAX_ENTRIES,
        block_writable(entries),
        tensors.len() <= MAX_TENSORS,
        directory_writable(tensors),
        data_starts(
            entries,
            (header_bytes(version, tensors.len() as u64, entries) + directory_bytes(
                tensors,
            )).len() as int,
            start,
        ),
        start <= file_len,
        0 <= i < tensors.len(),
        forall|k: int| i < k < tensors.len() ==> (#[trigger] tensors[k]).name != tensors[i].name,
        if 0 <= next < tensors.len() {
            &&& tensors[next].offset > tensors[i].offset
            &&& forall|k: int|
                0 <= k < tensors.len() && (#[trigger] tensors[k]).offset > tensors[i].offset
                    ==> tensors[k].offset >= tensors[next].offset
        } else {
            &&& forall|k: int|
                0 <= k < tensors.len() ==> (#[trigger] tensors[k]).offset <= tensors[i].offset
        },
    ensures
        tensor_bytes_of(
            header_bytes(version, tensors.len() as u64, entries) + directory_bytes(tensors) + rest,
            file_len,
            tensors[i].name,
        ) == if 0 <= next < tensors.len() {
            Ok::<int, End>(tensors[next].offset - tensors[i].offset)
        } else if start + tensors[i].offset <= file_len {
            Ok::<int, End>(file_len - start - tensors[i].offset)
        } else {
            Err::<int, End>(End::Bad)
        },
{
    let front = header_bytes(version, tensors.len() as u64, entries) + directory_bytes(tensors);
    lemma_file(version, entries, tensors, rest, file_len, tensors[i].name);
    lemma_read_from(entries, "general.alignment"@, seq![]);
    lemma_offset(tensors, i);
    lemma_least(tensors, tensors[i].offset as int);
    let a = match latest_number(entries, "general.alignment"@) {
        Some(n) => if n > 0 {
            n
        } else {
            32
        },
        None => 32,
    };
    lemma_start(front.len() as int, start, a);
}

} // verus!
