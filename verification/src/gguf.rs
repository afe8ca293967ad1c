//! A minimal GGUF metadata reader: just enough to tell a dense model from a
//! mixture-of-experts one, to read its layer count, and to size one tensor.
//!
//! The reader works on the first bytes of a file. It is total: malformed
//! input is unknown, never a failure, so the caller falls back to the catalog
//! heuristic. It also tells input that is wrong from input that merely ends
//! too soon, so a caller need only read as much of a file as its header takes.
use vstd::prelude::*;

use crate::text::same;
#[allow(unused_imports)]
use crate::text::{ends_with, str_ends_with};

verus! {

// ---------------------------------------------------------------------------
// Vocabulary
// ---------------------------------------------------------------------------
/// What the tuner needs from a GGUF header.
#[derive(Clone, Copy, Debug, PartialEq, Eq, Structural)]
pub struct ModelShape {
    /// The model's expert count: `>= 0` when read from the file (`0` = dense,
    /// `> 0` = mixture of experts), `-1` when unknown.
    pub expert_count: i64,
    /// The model's transformer layer count, or `0` when unknown.
    pub block_count: i64,
}

impl ModelShape {
    /// The "nothing read" shape: the caller falls back to the catalog
    /// heuristic.
    pub fn unknown() -> (out: ModelShape)
        ensures
            out.expert_count == -1,
            out.block_count == 0,
    {
        ModelShape { expert_count: -1, block_count: 0 }
    }
}

/// The tensor a build with `--lazy-mode` reads on demand: the per-layer token
/// embedding table.
pub const LAZY_TABLE: &'static str = "per_layer_token_embd.weight";

/// `--lazy-mode auto` reads that table lazily only when it is larger than this.
pub const LAZY_AUTO_MIN_BYTES: u64 = 4 * 1024 * 1024 * 1024;

/// A header with more metadata entries than this is cut off here.
pub const MAX_ENTRIES: u64 = 100_000;

/// An array with more elements than this is cut off here.
pub const MAX_ELEMENTS: u64 = 100_000_000;

/// A directory with more tensors than this is cut off here.
pub const MAX_TENSORS: u64 = 1_000_000;

/// A string longer than this is corrupt.
pub const MAX_STRING_BYTES: u64 = 64 * 1024 * 1024;

/// A tensor of more dimensions than this is corrupt.
pub const MAX_DIMS: u32 = 8;

/// The alignment of a file that names none.
pub const DEFAULT_ALIGNMENT: u64 = 32;

/// Why nothing was read.
#[derive(Clone, Copy, Debug, PartialEq, Eq, Structural)]
pub enum End {
    /// The bytes end before the header does.
    Short,
    /// The bytes are no such header.
    Bad,
}

/// A metadata value: an integer, a text, or one of no interest.
#[derive(Debug, PartialEq, Eq)]
pub enum MetaValue {
    Uint(i64),
    Text(String),
    Other,
}

/// A metadata value, mathematically.
pub enum MetaValueV {
    Uint(int),
    Text(Seq<char>),
    Other,
}

impl View for MetaValue {
    type V = MetaValueV;

    open spec fn view(&self) -> MetaValueV {
        match self {
            MetaValue::Uint(n) => MetaValueV::Uint(*n as int),
            MetaValue::Text(t) => MetaValueV::Text(t@),
            MetaValue::Other => MetaValueV::Other,
        }
    }
}

/// What a byte string spells in UTF-8, with a replacement character for what
/// is no UTF-8.
pub uninterp spec fn utf8_lossy(bytes: Seq<u8>) -> Seq<char>;

/// `String::from_utf8_lossy`: the text that the bytes decide. Bytes that are
/// valid UTF-8 give exactly the characters they encode.
#[verifier::external_body]
fn lossy_text(bytes: &Vec<u8>) -> (out: String)
    ensures
        out@ == utf8_lossy(bytes@),
        vstd::utf8::valid_utf8(bytes@) ==> out@ == vstd::utf8::decode_utf8(bytes@),
{
    String::from_utf8_lossy(bytes).into_owned()
}

/// The text of a byte string: the characters that it encodes where it is valid
/// UTF-8, and what stands for it where it is not.
pub open spec fn text_of(bytes: Seq<u8>) -> Seq<char> {
    if vstd::utf8::valid_utf8(bytes) {
        vstd::utf8::decode_utf8(bytes)
    } else {
        utf8_lossy(bytes)
    }
}

// ---------------------------------------------------------------------------
// Fixed-width values
// ---------------------------------------------------------------------------
/// The position after `n` more bytes.
pub open spec fn past(b: Seq<u8>, pos: int, n: int) -> Result<int, End> {
    if pos + n <= b.len() {
        Ok(pos + n)
    } else {
        Err(End::Short)
    }
}

/// Two bytes, least significant first.
pub open spec fn le16(b: Seq<u8>, pos: int) -> int {
    b[pos] + 0x100 * b[pos + 1]
}

/// Four bytes, least significant first.
pub open spec fn le32(b: Seq<u8>, pos: int) -> int {
    b[pos] + 0x100 * b[pos + 1] + 0x1_0000 * b[pos + 2] + 0x100_0000 * b[pos + 3]
}

/// Eight bytes, least significant first.
pub open spec fn le64(b: Seq<u8>, pos: int) -> int {
    le32(b, pos) + 0x1_0000_0000 * le32(b, pos + 4)
}

/// A two's-complement reading of an unsigned value below `2 * half`.
pub open spec fn signed(v: int, half: int) -> int {
    if v < half {
        v
    } else {
        v - 2 * half
    }
}

/// `v`, but at most `limit`.
pub open spec fn at_most(v: int, limit: int) -> int {
    if v <= limit {
        v
    } else {
        limit
    }
}

/// A string: its length in eight bytes, then its bytes.
pub open spec fn string_at(b: Seq<u8>, pos: int) -> Result<(Seq<char>, int), End> {
    if pos + 8 > b.len() {
        Err(End::Short)
    } else {
        let len = le64(b, pos);
        if len > MAX_STRING_BYTES {
            Err(End::Bad)
        } else if pos + 8 + len > b.len() {
            Err(End::Short)
        } else {
            Ok((text_of(b.subrange(pos + 8, pos + 8 + len)), pos + 8 + len))
        }
    }
}

/// A fixed-width value of `width` bytes that reads as `value`.
pub open spec fn fixed(b: Seq<u8>, pos: int, width: int, value: MetaValueV) -> Result<(MetaValueV, int), End> {
    if pos + width <= b.len() {
        Ok((value, pos + width))
    } else {
        Err(End::Short)
    }
}

/// The value of a given type at a position.
pub open spec fn typed_at(b: Seq<u8>, pos: int, ty: int) -> Result<(MetaValueV, int), End>
    decreases b.len() - pos, 0int,
{
    if ty == 0 || ty == 7 {
        fixed(b, pos, 1, MetaValueV::Uint(b[pos] as int))
    } else if ty == 1 {
        fixed(b, pos, 1, MetaValueV::Uint(signed(b[pos] as int, 0x80)))
    } else if ty == 2 {
        fixed(b, pos, 2, MetaValueV::Uint(le16(b, pos)))
    } else if ty == 3 {
        fixed(b, pos, 2, MetaValueV::Uint(signed(le16(b, pos), 0x8000)))
    } else if ty == 4 {
        fixed(b, pos, 4, MetaValueV::Uint(le32(b, pos)))
    } else if ty == 5 {
        fixed(b, pos, 4, MetaValueV::Uint(signed(le32(b, pos), 0x8000_0000)))
    } else if ty == 6 {
        fixed(b, pos, 4, MetaValueV::Other)
    } else if ty == 8 {
        match string_at(b, pos) {
            Ok((t, next)) => Ok((MetaValueV::Text(t), next)),
            Err(e) => Err(e),
        }
    } else if ty == 9 {
        if pos + 12 > b.len() {
            Err(End::Short)
        } else {
            match elements_at(
                b,
                pos + 12,
                le32(b, pos),
                at_most(le64(b, pos + 4), MAX_ELEMENTS as int) as nat,
            ) {
                Ok(next) => Ok((MetaValueV::Other, next)),
                Err(e) => Err(e),
            }
        }
    } else if ty == 10 {
        fixed(b, pos, 8, MetaValueV::Uint(at_most(le64(b, pos), i64::MAX as int)))
    } else if ty == 11 {
        fixed(b, pos, 8, MetaValueV::Uint(signed(le64(b, pos), 0x8000_0000_0000_0000)))
    } else if ty == 12 {
        fixed(b, pos, 8, MetaValueV::Other)
    } else {
        Err(End::Bad)
    }
}

/// The position after `n` values of one type. Every value takes a byte or
/// more.
pub open spec fn elements_at(b: Seq<u8>, pos: int, ty: int, n: nat) -> Result<int, End>
    decreases b.len() - pos, 1int,
{
    if n == 0 {
        Ok(pos)
    } else {
        match typed_at(b, pos, ty) {
            Ok((_, next)) => if pos < next <= b.len() {
                elements_at(b, next, ty, (n - 1) as nat)
            } else {
                Err(End::Bad)
            },
            Err(e) => Err(e),
        }
    }
}

// ---------------------------------------------------------------------------
// The header
// ---------------------------------------------------------------------------
/// The integers read so far, with one more; a key read again takes the newer
/// value.
pub open spec fn recorded(uints: Seq<(Seq<char>, int)>, key: Seq<char>, n: int) -> Seq<
    (Seq<char>, int),
>
    decreases uints.len(),
{
    if uints.len() == 0 {
        seq![(key, n)]
    } else if uints[0].0 == key {
        seq![(key, n)] + uints.skip(1)
    } else {
        seq![uints[0]] + recorded(uints.skip(1), key, n)
    }
}

/// The integer under a key.
pub open spec fn uint_of(uints: Seq<(Seq<char>, int)>, key: Seq<char>) -> Option<int>
    decreases uints.len(),
{
    if uints.len() == 0 {
        None
    } else if uints[0].0 == key {
        Some(uints[0].1)
    } else {
        uint_of(uints.skip(1), key)
    }
}

/// The integer under the first key with a suffix.
pub open spec fn uint_with_suffix(uints: Seq<(Seq<char>, int)>, suffix: Seq<char>) -> Option<int>
    decreases uints.len(),
{
    if uints.len() == 0 {
        None
    } else if ends_with(uints[0].0, suffix) {
        Some(uints[0].1)
    } else {
        uint_with_suffix(uints.skip(1), suffix)
    }
}

/// The metadata block: the architecture and every integer by key.
pub struct MetadataV {
    pub arch: Option<Seq<char>>,
    pub uints: Seq<(Seq<char>, int)>,
}

/// What one metadata entry adds.
pub open spec fn entered_value(m: MetadataV, key: Seq<char>, value: MetaValueV) -> MetadataV {
    match value {
        MetaValueV::Text(t) => if key == "general.architecture"@ {
            MetadataV { arch: Some(t), ..m }
        } else {
            m
        },
        MetaValueV::Uint(n) => MetadataV { uints: recorded(m.uints, key, n), ..m },
        MetaValueV::Other => m,
    }
}

/// The next `n` metadata entries.
pub open spec fn entries_at(b: Seq<u8>, pos: int, n: nat, m: MetadataV) -> Result<
    (MetadataV, int),
    End,
>
    decreases n,
{
    if n == 0 {
        Ok((m, pos))
    } else {
        match string_at(b, pos) {
            Err(e) => Err(e),
            Ok((key, at)) => if at + 4 > b.len() {
                Err(End::Short)
            } else {
                match typed_at(b, at + 4, le32(b, at)) {
                    Err(e) => Err(e),
                    Ok((value, next)) => entries_at(
                        b,
                        next,
                        (n - 1) as nat,
                        entered_value(m, key, value),
                    ),
                }
            },
        }
    }
}

/// The bytes that every such file starts with: `GGUF`.
pub open spec fn has_magic(b: Seq<u8>) -> bool {
    b[0] == 0x47 && b[1] == 0x47 && b[2] == 0x55 && b[3] == 0x46
}

/// The header: its tensor count, its metadata, and where it ends.
pub open spec fn header_of(b: Seq<u8>) -> Result<(int, MetadataV, int), End> {
    if b.len() < 4 {
        Err(End::Short)
    } else if !has_magic(b) {
        Err(End::Bad)
    } else if b.len() < 24 {
        Err(End::Short)
    } else {
        let n = at_most(le64(b, 16), MAX_ENTRIES as int) as nat;
        match entries_at(b, 24, n, MetadataV { arch: None, uints: seq![] }) {
            Ok((m, next)) => Ok((le64(b, 8), m, next)),
            Err(e) => Err(e),
        }
    }
}

/// The integer under `<arch>.<name>`, or under the first key that ends in
/// `.<name>`, or zero.
pub open spec fn arch_uint(m: MetadataV, arch: Seq<char>, name: Seq<char>) -> int {
    match uint_of(m.uints, arch + "."@ + name) {
        Some(n) => n,
        None => match uint_with_suffix(m.uints, "."@ + name) {
            Some(n) => n,
            None => 0,
        },
    }
}

/// The model's shape. A header that never names its architecture did not
/// parse far enough to be trusted; once it is named, an absent expert count
/// means dense. A count below zero is no count.
pub open spec fn shape_of(b: Seq<u8>) -> Result<(int, int), End> {
    match header_of(b) {
        Err(e) => Err(e),
        Ok((_, m, _)) => match m.arch {
            None => Err(End::Bad),
            Some(arch) => {
                let experts = arch_uint(m, arch, "expert_count"@);
                let blocks = arch_uint(m, arch, "block_count"@);
                if experts < 0 || blocks < 0 {
                    Err(End::Bad)
                } else {
                    Ok((experts, blocks))
                }
            },
        },
    }
}

// ---------------------------------------------------------------------------
// The tensor directory
// ---------------------------------------------------------------------------
/// The next `n` entries of the tensor directory: each tensor's name and its
/// offset into the data section.
pub open spec fn tensors_at(b: Seq<u8>, pos: int, n: nat, seen: Seq<(Seq<char>, int)>) -> Result<
    (Seq<(Seq<char>, int)>, int),
    End,
>
    decreases n,
{
    if n == 0 {
        Ok((seen, pos))
    } else {
        match string_at(b, pos) {
            Err(e) => Err(e),
            Ok((name, at)) => if at + 4 > b.len() {
                Err(End::Short)
            } else {
                let dims = le32(b, at);
                if dims > MAX_DIMS {
                    Err(End::Bad)
                } else if at + 4 + 8 * dims + 12 > b.len() {
                    Err(End::Short)
                } else {
                    let end = at + 4 + 8 * dims + 12;
                    tensors_at(b, end, (n - 1) as nat, seen.push((name, le64(b, end - 8))))
                }
            },
        }
    }
}

/// The offset of the last tensor with a name.
pub open spec fn offset_of(tensors: Seq<(Seq<char>, int)>, name: Seq<char>) -> Option<int>
    decreases tensors.len(),
{
    if tensors.len() == 0 {
        None
    } else if tensors.last().0 == name {
        Some(tensors.last().1)
    } else {
        offset_of(tensors.drop_last(), name)
    }
}

/// The smallest offset past `target`.
pub open spec fn least_past(tensors: Seq<(Seq<char>, int)>, target: int) -> Option<int>
    decreases tensors.len(),
{
    if tensors.len() == 0 {
        None
    } else {
        let rest = least_past(tensors.drop_last(), target);
        let here = tensors.last().1;
        if here <= target {
            rest
        } else {
            match rest {
                Some(r) => Some(at_most(here, r)),
                None => Some(here),
            }
        }
    }
}

/// The alignment of the data section.
pub open spec fn alignment_of(m: MetadataV) -> int {
    match uint_of(m.uints, "general.alignment"@) {
        Some(a) => if a > 0 {
            a
        } else {
            DEFAULT_ALIGNMENT as int
        },
        None => DEFAULT_ALIGNMENT as int,
    }
}

/// `n` rounded up to a multiple of `a`.
pub open spec fn rounded_up(n: int, a: int) -> int {
    if n % a == 0 {
        n
    } else {
        n + a - n % a
    }
}

/// The size of a tensor's data in a file of `file_len` bytes: it runs to the
/// next offset, or to the end of the file for the last tensor.
pub open spec fn tensor_size(
    m: MetadataV,
    tensors: Seq<(Seq<char>, int)>,
    directory_end: int,
    file_len: int,
    name: Seq<char>,
) -> Option<int> {
    match offset_of(tensors, name) {
        None => None,
        Some(target) => {
            let data_len = file_len - rounded_up(directory_end, alignment_of(m));
            let end = match least_past(tensors, target) {
                Some(e) => e,
                None => data_len,
            };
            if data_len < 0 || end < target {
                None
            } else {
                Some(end - target)
            }
        },
    }
}

/// The size of the named tensor's data.
pub open spec fn tensor_bytes_of(b: Seq<u8>, file_len: int, name: Seq<char>) -> Result<int, End> {
    match header_of(b) {
        Err(e) => Err(e),
        Ok((count, m, at)) => match tensors_at(
            b,
            at,
            at_most(count, MAX_TENSORS as int) as nat,
            seq![],
        ) {
            Err(e) => Err(e),
            Ok((tensors, end)) => match tensor_size(m, tensors, end, file_len, name) {
                Some(n) => Ok(n),
                None => Err(End::Bad),
            },
        },
    }
}

// ---------------------------------------------------------------------------
// Laws
// ---------------------------------------------------------------------------
/// Whether `c` starts with all of `b`.
pub open spec fn extends(c: Seq<u8>, b: Seq<u8>) -> bool {
    b.len() <= c.len() && c.take(b.len() as int) == b
}

proof fn lemma_same_bytes(b: Seq<u8>, c: Seq<u8>)
    requires
        extends(c, b),
    ensures
        forall|i: int| 0 <= i < b.len() ==> #[trigger] c[i] == b[i],
{
    assert forall|i: int| 0 <= i < b.len() implies #[trigger] c[i] == b[i] by {
        assert(c.take(b.len() as int)[i] == c[i]);
    }
}

proof fn lemma_longer_string(b: Seq<u8>, c: Seq<u8>, pos: int)
    requires
        extends(c, b),
        0 <= pos,
        string_at(b, pos) != Err::<(Seq<char>, int), End>(End::Short),
    ensures
        string_at(c, pos) == string_at(b, pos),
{
    lemma_same_bytes(b, c);
    let len = le64(b, pos);
    if len <= MAX_STRING_BYTES {
        assert(c.subrange(pos + 8, pos + 8 + len) =~= b.subrange(pos + 8, pos + 8 + len));
    }
}

proof fn lemma_longer_typed(b: Seq<u8>, c: Seq<u8>, pos: int, ty: int)
    requires
        extends(c, b),
        0 <= pos,
        typed_at(b, pos, ty) != Err::<(MetaValueV, int), End>(End::Short),
    ensures
        typed_at(c, pos, ty) == typed_at(b, pos, ty),
    decreases b.len() - pos, 0int,
{
    lemma_same_bytes(b, c);
    if ty == 8 {
        lemma_longer_string(b, c, pos);
    } else if ty == 9 {
        lemma_longer_elements(
            b,
            c,
            pos + 12,
            le32(b, pos),
            at_most(le64(b, pos + 4), MAX_ELEMENTS as int) as nat,
        );
    }
}

proof fn lemma_longer_elements(b: Seq<u8>, c: Seq<u8>, pos: int, ty: int, n: nat)
    requires
        extends(c, b),
        0 <= pos,
        elements_at(b, pos, ty, n) != Err::<int, End>(End::Short),
    ensures
        elements_at(c, pos, ty, n) == elements_at(b, pos, ty, n),
    decreases b.len() - pos, 1int,
{
    if n > 0 {
        lemma_longer_typed(b, c, pos, ty);
        match typed_at(b, pos, ty) {
            Ok((_, next)) => {
                lemma_typed_stays_inside(b, pos, ty);
                lemma_longer_elements(b, c, next, ty, (n - 1) as nat);
            },
            Err(_) => {},
        }
    }
}

/// Every value takes a byte or more, and ends inside the bytes.
proof fn lemma_typed_stays_inside(b: Seq<u8>, pos: int, ty: int)
    requires
        0 <= pos,
    ensures
        typed_at(b, pos, ty) matches Ok((_, next)) ==> pos < next <= b.len(),
    decreases b.len() - pos, 0int,
{
    if ty == 8 {
        if pos + 8 <= b.len() {
            assert(le64(b, pos) >= 0);
        }
    } else if ty == 9 {
        if pos + 12 <= b.len() {
            lemma_elements_stay_inside(
                b,
                pos + 12,
                le32(b, pos),
                at_most(le64(b, pos + 4), MAX_ELEMENTS as int) as nat,
            );
        }
    }
}

proof fn lemma_elements_stay_inside(b: Seq<u8>, pos: int, ty: int, n: nat)
    requires
        0 <= pos <= b.len(),
    ensures
        elements_at(b, pos, ty, n) matches Ok(next) ==> pos <= next <= b.len(),
    decreases b.len() - pos, 1int,
{
    if n > 0 {
        lemma_typed_stays_inside(b, pos, ty);
        match typed_at(b, pos, ty) {
            Ok((_, next)) => {
                lemma_elements_stay_inside(b, next, ty, (n - 1) as nat);
            },
            Err(_) => {},
        }
    }
}

proof fn lemma_longer_entries(b: Seq<u8>, c: Seq<u8>, pos: int, n: nat, m: MetadataV)
    requires
        extends(c, b),
        0 <= pos,
        entries_at(b, pos, n, m) != Err::<(MetadataV, int), End>(End::Short),
    ensures
        entries_at(c, pos, n, m) == entries_at(b, pos, n, m),
        entries_at(b, pos, n, m) matches Ok((_, next)) ==> 0 <= next,
    decreases n,
{
    lemma_same_bytes(b, c);
    if n > 0 {
        lemma_longer_string(b, c, pos);
        match string_at(b, pos) {
            Err(_) => {},
            Ok((key, at)) => {
                assert(le64(b, pos) >= 0);
                if at + 4 <= b.len() {
                    lemma_longer_typed(b, c, at + 4, le32(b, at));
                    lemma_typed_stays_inside(b, at + 4, le32(b, at));
                    match typed_at(b, at + 4, le32(b, at)) {
                        Err(_) => {},
                        Ok((value, next)) => {
                            lemma_longer_entries(
                                b,
                                c,
                                next,
                                (n - 1) as nat,
                                entered_value(m, key, value),
                            );
                        },
                    }
                }
            },
        }
    }
}

proof fn lemma_longer_header(b: Seq<u8>, c: Seq<u8>)
    requires
        extends(c, b),
        header_of(b) != Err::<(int, MetadataV, int), End>(End::Short),
    ensures
        header_of(c) == header_of(b),
        header_of(b) matches Ok((_, _, next)) ==> 0 <= next,
{
    lemma_same_bytes(b, c);
    if b.len() >= 24 && has_magic(b) {
        assert(le64(c, 8) == le64(b, 8));
        assert(le64(c, 16) == le64(b, 16));
        lemma_longer_entries(
            b,
            c,
            24,
            at_most(le64(b, 16), MAX_ENTRIES as int) as nat,
            MetadataV { arch: None, uints: seq![] },
        );
    }
}

proof fn lemma_entries_stay_inside(b: Seq<u8>, pos: int, n: nat, m: MetadataV)
    requires
        0 <= pos <= b.len(),
    ensures
        entries_at(b, pos, n, m) matches Ok((_, next)) ==> pos <= next <= b.len(),
    decreases n,
{
    if n > 0 {
        match string_at(b, pos) {
            Err(_) => {},
            Ok((key, at)) => {
                assert(le64(b, pos) >= 0);
                if at + 4 <= b.len() {
                    lemma_typed_stays_inside(b, at + 4, le32(b, at));
                    match typed_at(b, at + 4, le32(b, at)) {
                        Err(_) => {},
                        Ok((value, next)) => {
                            lemma_entries_stay_inside(
                                b,
                                next,
                                (n - 1) as nat,
                                entered_value(m, key, value),
                            );
                        },
                    }
                }
            },
        }
    }
}

/// A header that is cut anywhere is short, never bad and never another header:
/// what was cut off is worth reading on for.
pub proof fn law_a_cut_header_is_short(b: Seq<u8>, k: int)
    requires
        header_of(b) matches Ok((_, _, next)) && next == b.len(),
        0 <= k < b.len(),
    ensures
        header_of(b.take(k)) == Err::<(int, MetadataV, int), End>(End::Short),
{
    let a = b.take(k);
    if header_of(a) != Err::<(int, MetadataV, int), End>(End::Short) {
        lemma_longer_header(a, b);
        lemma_entries_stay_inside(
            a,
            24,
            at_most(le64(a, 16), MAX_ENTRIES as int) as nat,
            MetadataV { arch: None, uints: seq![] },
        );
    }
}

/// What the first bytes of a file decide about its shape, the whole file
/// decides the same: only input that ends too soon is worth reading on.
pub proof fn law_the_shape_is_in_the_first_bytes(b: Seq<u8>, c: Seq<u8>)
    requires
        extends(c, b),
        shape_of(b) != Err::<(int, int), End>(End::Short),
    ensures
        shape_of(c) == shape_of(b),
{
    lemma_longer_header(b, c);
}

proof fn lemma_longer_tensors(b: Seq<u8>, c: Seq<u8>, pos: int, n: nat, seen: Seq<(Seq<char>, int)>)
    requires
        extends(c, b),
        0 <= pos,
        tensors_at(b, pos, n, seen) != Err::<(Seq<(Seq<char>, int)>, int), End>(End::Short),
    ensures
        tensors_at(c, pos, n, seen) == tensors_at(b, pos, n, seen),
    decreases n,
{
    lemma_same_bytes(b, c);
    if n > 0 {
        lemma_longer_string(b, c, pos);
        match string_at(b, pos) {
            Err(_) => {},
            Ok((name, at)) => {
                assert(le64(b, pos) >= 0);
                if at + 4 <= b.len() {
                    let dims = le32(b, at);
                    assert(le32(c, at) == dims);
                    let end = at + 4 + 8 * dims + 12;
                    if dims <= MAX_DIMS && end <= b.len() {
                        assert(dims >= 0);
                        assert(le64(c, end - 8) == le64(b, end - 8));
                        lemma_longer_tensors(
                            b,
                            c,
                            end,
                            (n - 1) as nat,
                            seen.push((name, le64(b, end - 8))),
                        );
                    }
                }
            },
        }
    }
}

/// What the first bytes of a file decide about a tensor's size, the whole
/// file decides the same.
pub proof fn law_a_tensor_size_is_in_the_first_bytes(
    b: Seq<u8>,
    c: Seq<u8>,
    file_len: int,
    name: Seq<char>,
)
    requires
        extends(c, b),
        tensor_bytes_of(b, file_len, name) != Err::<int, End>(End::Short),
    ensures
        tensor_bytes_of(c, file_len, name) == tensor_bytes_of(b, file_len, name),
{
    lemma_longer_header(b, c);
    match header_of(b) {
        Err(_) => {},
        Ok((count, m, at)) => {
            lemma_longer_tensors(b, c, at, at_most(count, MAX_TENSORS as int) as nat, seq![]);
        },
    }
}

/// A header that never names an architecture is unknown, not dense.
pub proof fn law_no_architecture_is_not_dense(b: Seq<u8>)
    requires
        shape_of(b) is Ok,
    ensures
        header_of(b) matches Ok((_, m, _)) && m.arch is Some,
{
}

/// The data section starts at or after the directory's end, less than one
/// alignment later, on a multiple of the alignment.
pub proof fn law_data_starts_aligned(directory_end: int, a: int)
    requires
        0 <= directory_end,
        0 < a,
    ensures
        directory_end <= rounded_up(directory_end, a) < directory_end + a,
        rounded_up(directory_end, a) % a == 0,
{
    let r = directory_end % a;
    if r != 0 {
        let q = directory_end / a;
        assert(directory_end == q * a + r) by (nonlinear_arith)
            requires
                r == directory_end % a,
                q == directory_end / a,
                0 < a,
        ;
        assert((q * a + a) % a == 0) by (nonlinear_arith)
            requires
                0 < a,
        ;
        assert(rounded_up(directory_end, a) == q * a + a);
    }
}

// ---------------------------------------------------------------------------
// The reader, executable
// ---------------------------------------------------------------------------
/// The view of a value that was read.
pub open spec fn read_view(out: Result<(MetaValue, usize), End>) -> Result<(MetaValueV, int), End> {
    match out {
        Ok((v, next)) => Ok((v@, next as int)),
        Err(e) => Err(e),
    }
}

/// The position after `n` more bytes.
fn read_n(b: &Vec<u8>, pos: usize, n: usize) -> (out: Result<usize, End>)
    requires
        pos <= b@.len(),
    ensures
        match out {
            Ok(next) => next == pos + n && next <= b@.len(),
            Err(e) => e == End::Short && pos + n > b@.len(),
        },
{
    if n <= b.len() - pos {
        Ok(pos + n)
    } else {
        Err(End::Short)
    }
}

fn two_bytes(b: &Vec<u8>, pos: usize) -> (out: u16)
    requires
        pos + 2 <= b@.len(),
    ensures
        out == le16(b@, pos as int),
{
    assert(b.len() == b@.len());
    b[pos] as u16 + 0x100u16 * b[pos + 1] as u16
}

fn four_bytes(b: &Vec<u8>, pos: usize) -> (out: u32)
    requires
        pos + 4 <= b@.len(),
    ensures
        out == le32(b@, pos as int),
{
    assert(b.len() == b@.len());
    b[pos] as u32 + 0x100u32 * b[pos + 1] as u32 + 0x1_0000u32 * b[pos + 2] as u32 + 0x100_0000u32
        * b[pos + 3] as u32
}

fn eight_bytes(b: &Vec<u8>, pos: usize) -> (out: u64)
    requires
        pos + 8 <= b@.len(),
    ensures
        out == le64(b@, pos as int),
{
    assert(b.len() == b@.len());
    four_bytes(b, pos) as u64 + 0x1_0000_0000u64 * four_bytes(b, pos + 4) as u64
}

/// Four bytes as a number, and the position after them.
fn read_u32(b: &Vec<u8>, pos: usize) -> (out: Result<(u32, usize), End>)
    requires
        pos <= b@.len(),
    ensures
        match out {
            Ok((v, next)) => next == pos + 4 && next <= b@.len() && v == le32(b@, pos as int),
            Err(e) => e == End::Short && pos + 4 > b@.len(),
        },
{
    match read_n(b, pos, 4) {
        Ok(next) => Ok((four_bytes(b, pos), next)),
        Err(e) => Err(e),
    }
}

/// Eight bytes as a number, and the position after them.
fn read_u64(b: &Vec<u8>, pos: usize) -> (out: Result<(u64, usize), End>)
    requires
        pos <= b@.len(),
    ensures
        match out {
            Ok((v, next)) => next == pos + 8 && next <= b@.len() && v == le64(b@, pos as int),
            Err(e) => e == End::Short && pos + 8 > b@.len(),
        },
{
    match read_n(b, pos, 8) {
        Ok(next) => Ok((eight_bytes(b, pos), next)),
        Err(e) => Err(e),
    }
}

/// A string, and the position after it.
fn read_string(b: &Vec<u8>, pos: usize) -> (out: Result<(String, usize), End>)
    requires
        pos <= b@.len(),
    ensures
        match out {
            Ok((t, next)) => string_at(b@, pos as int) == Ok::<(Seq<char>, int), End>(
                (t@, next as int),
            ) && pos + 8 <= next <= b@.len(),
            Err(e) => string_at(b@, pos as int) == Err::<(Seq<char>, int), End>(e),
        },
{
    match read_u64(b, pos) {
        Err(e) => Err(e),
        Ok((len, at)) => {
            if len > MAX_STRING_BYTES {
                return Err(End::Bad);
            }
            let n: usize = len as usize;
            match read_n(b, at, n) {
                Err(e) => Err(e),
                Ok(next) => {
                    let mut bytes: Vec<u8> = Vec::new();
                    let mut i: usize = at;
                    while i < next
                        invariant
                            at <= i <= next <= b@.len(),
                            bytes@ == b@.subrange(at as int, i as int),
                        decreases next - i,
                    {
                        bytes.push(b[i]);
                        i = i + 1;
                    }
                    Ok((lossy_text(&bytes), next))
                },
            }
        },
    }
}

fn whole_number(v: u64, half: u64) -> (out: i64)
    requires
        0 < half <= 0x8000_0000_0000_0000,
        v < 2 * half,
    ensures
        out == signed(v as int, half as int),
{
    if v < half {
        v as i64
    } else {
        (v as i128 - 2 * (half as i128)) as i64
    }
}

/// The value of a given type other than an array, and the position after it.
fn read_plain(b: &Vec<u8>, pos: usize, value_type: u32) -> (out: Result<(MetaValue, usize), End>)
    requires
        pos <= b@.len(),
        value_type != 9,
    ensures
        read_view(out) == typed_at(b@, pos as int, value_type as int),
        out matches Ok((_, next)) ==> pos < next <= b@.len(),
{
    if value_type == 0 || value_type == 7 {
        match read_n(b, pos, 1) {
            Ok(next) => Ok((MetaValue::Uint(b[pos] as i64), next)),
            Err(e) => Err(e),
        }
    } else if value_type == 1 {
        match read_n(b, pos, 1) {
            Ok(next) => Ok((MetaValue::Uint(whole_number(b[pos] as u64, 0x80)), next)),
            Err(e) => Err(e),
        }
    } else if value_type == 2 {
        match read_n(b, pos, 2) {
            Ok(next) => Ok((MetaValue::Uint(two_bytes(b, pos) as i64), next)),
            Err(e) => Err(e),
        }
    } else if value_type == 3 {
        match read_n(b, pos, 2) {
            Ok(next) => Ok(
                (MetaValue::Uint(whole_number(two_bytes(b, pos) as u64, 0x8000)), next),
            ),
            Err(e) => Err(e),
        }
    } else if value_type == 4 {
        match read_u32(b, pos) {
            Ok((v, next)) => Ok((MetaValue::Uint(v as i64), next)),
            Err(e) => Err(e),
        }
    } else if value_type == 5 {
        match read_u32(b, pos) {
            Ok((v, next)) => Ok((MetaValue::Uint(whole_number(v as u64, 0x8000_0000)), next)),
            Err(e) => Err(e),
        }
    } else if value_type == 6 {
        match read_n(b, pos, 4) {
            Ok(next) => Ok((MetaValue::Other, next)),
            Err(e) => Err(e),
        }
    } else if value_type == 8 {
        match read_string(b, pos) {
            Ok((t, next)) => Ok((MetaValue::Text(t), next)),
            Err(e) => Err(e),
        }
    } else if value_type == 10 {
        match read_u64(b, pos) {
            Ok((v, next)) => {
                let n: i64 = if v <= i64::MAX as u64 {
                    v as i64
                } else {
                    i64::MAX
                };
                Ok((MetaValue::Uint(n), next))
            },
            Err(e) => Err(e),
        }
    } else if value_type == 11 {
        match read_u64(b, pos) {
            Ok((v, next)) => Ok(
                (MetaValue::Uint(whole_number(v, 0x8000_0000_0000_0000)), next),
            ),
            Err(e) => Err(e),
        }
    } else if value_type == 12 {
        match read_n(b, pos, 8) {
            Ok(next) => Ok((MetaValue::Other, next)),
            Err(e) => Err(e),
        }
    } else {
        Err(End::Bad)
    }
}

/// An array's element type and how many of its elements are read, and the
/// position of the first.
fn read_array_head(b: &Vec<u8>, pos: usize) -> (out: Result<(u32, u64, usize), End>)
    requires
        pos <= b@.len(),
    ensures
        match out {
            Ok((element_type, n, first)) => {
                &&& first == pos + 12
                &&& first <= b@.len()
                &&& element_type == le32(b@, pos as int)
                &&& n == at_most(le64(b@, pos + 4), MAX_ELEMENTS as int)
            },
            Err(e) => e == End::Short && pos + 12 > b@.len(),
        },
{
    match read_u32(b, pos) {
        Err(e) => Err(e),
        Ok((element_type, at)) => match read_u64(b, at) {
            Err(e) => Err(e),
            Ok((count, first)) => {
                let n: u64 = if count <= MAX_ELEMENTS {
                    count
                } else {
                    MAX_ELEMENTS
                };
                Ok((element_type, n, first))
            },
        },
    }
}

/// The value of a given type, and the position after it.
fn read_typed(b: &Vec<u8>, pos: usize, value_type: u32) -> (out: Result<(MetaValue, usize), End>)
    requires
        pos <= b@.len(),
    ensures
        read_view(out) == typed_at(b@, pos as int, value_type as int),
        out matches Ok((_, next)) ==> pos < next <= b@.len(),
{
    if value_type == 9 {
        match read_array_head(b, pos) {
            Err(e) => Err(e),
            Ok((element_type, n, first)) => match skip_elements(b, first, element_type, n) {
                Ok(next) => Ok((MetaValue::Other, next)),
                Err(e) => Err(e),
            },
        }
    } else {
        read_plain(b, pos, value_type)
    }
}

/// What is left of the arrays that the reader is inside, the outermost first:
/// each one's element type, and how many elements are still to come.
pub open spec fn open_views(arrays: Seq<(u32, u64)>) -> Seq<(int, nat)> {
    arrays.map_values(|a: (u32, u64)| (a.0 as int, a.1 as nat))
}

/// The position after the rest of every open array, the innermost first.
pub open spec fn closed_at(b: Seq<u8>, pos: int, arrays: Seq<(int, nat)>) -> Result<int, End>
    decreases arrays.len(),
{
    if arrays.len() == 0 {
        Ok(pos)
    } else {
        match elements_at(b, pos, arrays.last().0, arrays.last().1) {
            Ok(next) => closed_at(b, next, arrays.drop_last()),
            Err(e) => Err(e),
        }
    }
}

/// An array inside an array opens one more.
proof fn lemma_nested_array_opens(b: Seq<u8>, pos: int, outer: Seq<(int, nat)>, n: nat)
    requires
        0 <= pos,
        pos + 12 <= b.len(),
        n > 0,
    ensures
        closed_at(b, pos, outer.push((9, n))) == closed_at(
            b,
            pos + 12,
            outer.push((9, (n - 1) as nat)).push(
                (le32(b, pos), at_most(le64(b, pos + 4), MAX_ELEMENTS as int) as nat),
            ),
        ),
{
    let inner = (le32(b, pos), at_most(le64(b, pos + 4), MAX_ELEMENTS as int) as nat);
    let left = outer.push((9, (n - 1) as nat));
    assert(outer.push((9, n)).drop_last() =~= outer);
    assert(left.drop_last() =~= outer);
    assert(left.push(inner).drop_last() =~= left);
    reveal_with_fuel(elements_at, 2);
    lemma_element_closes(b, pos, outer, 9, n);
    assert(typed_at(b, pos, 9) == match elements_at(b, pos + 12, inner.0, inner.1) {
        Ok(next) => Ok((MetaValueV::Other, next)),
        Err(e) => Err(e),
    });
    assert(left.push(inner).last() == inner);
}

/// A value that is no array, inside an array, is one element less to come.
proof fn lemma_element_closes(b: Seq<u8>, pos: int, outer: Seq<(int, nat)>, ty: int, n: nat)
    requires
        0 <= pos,
        n > 0,
    ensures
        closed_at(b, pos, outer.push((ty, n))) == match typed_at(b, pos, ty) {
            Ok((_, next)) => closed_at(b, next, outer.push((ty, (n - 1) as nat))),
            Err(e) => Err(e),
        },
{
    lemma_typed_stays_inside(b, pos, ty);
    assert(outer.push((ty, n)).drop_last() =~= outer);
    assert(outer.push((ty, (n - 1) as nat)).drop_last() =~= outer);
}

/// The position after `n` values of one type. However deep arrays stand in one
/// another, the reader keeps a list of them and does not descend.
fn skip_elements(b: &Vec<u8>, first: usize, element_type: u32, n: u64) -> (out: Result<usize, End>)
    requires
        first <= b@.len(),
    ensures
        match out {
            Ok(next) => elements_at(b@, first as int, element_type as int, n as nat) == Ok::<
                int,
                End,
            >(next as int) && first <= next <= b@.len(),
            Err(e) => elements_at(b@, first as int, element_type as int, n as nat) == Err::<
                int,
                End,
            >(e),
        },
{
    let mut arrays: Vec<(u32, u64)> = Vec::new();
    arrays.push((element_type, n));
    let mut pos: usize = first;
    let ghost whole = elements_at(b@, first as int, element_type as int, n as nat);
    proof {
        let all = open_views(arrays@);
        assert(all.last() == (element_type as int, n as nat));
        assert(all.drop_last() =~= seq![]);
        reveal_with_fuel(closed_at, 2);
    }
    while arrays.len() > 0
        invariant
            first <= pos <= b@.len(),
            whole == elements_at(b@, first as int, element_type as int, n as nat),
            whole == closed_at(b@, pos as int, open_views(arrays@)),
        decreases b@.len() - pos, arrays.len(),
    {
        let at: usize = arrays.len() - 1;
        let (ty, left): (u32, u64) = arrays[at];
        let ghost outer = open_views(arrays@).drop_last();
        proof {
            assert(open_views(arrays@) =~= outer.push((ty as int, left as nat)));
        }
        if left == 0 {
            arrays.pop();
            assert(open_views(arrays@) =~= outer);
        } else if ty == 9 {
            match read_array_head(b, pos) {
                Err(e) => {
                    proof {
                        lemma_element_closes(b@, pos as int, outer, 9, left as nat);
                    }
                    return Err(e);
                },
                Ok((inner, count, next)) => {
                    proof {
                        lemma_nested_array_opens(b@, pos as int, outer, left as nat);
                    }
                    arrays.set(at, (ty, left - 1));
                    arrays.push((inner, count));
                    assert(open_views(arrays@) =~= outer.push((9, (left - 1) as nat)).push(
                        (inner as int, count as nat),
                    ));
                    pos = next;
                },
            }
        } else {
            proof {
                lemma_element_closes(b@, pos as int, outer, ty as int, left as nat);
            }
            match read_plain(b, pos, ty) {
                Err(e) => {
                    return Err(e);
                },
                Ok((_, next)) => {
                    arrays.set(at, (ty, left - 1));
                    assert(open_views(arrays@) =~= outer.push((ty as int, (left - 1) as nat)));
                    pos = next;
                },
            }
        }
    }
    assert(open_views(arrays@).len() == 0);
    Ok(pos)
}

/// A type and a value of it, and the position after them.
fn read_value(b: &Vec<u8>, pos: usize) -> (out: Result<(MetaValue, usize), End>)
    requires
        pos <= b@.len(),
    ensures
        read_view(out) == (if pos + 4 > b@.len() {
            Err(End::Short)
        } else {
            typed_at(b@, pos + 4, le32(b@, pos as int))
        }),
        out matches Ok((_, next)) ==> pos < next <= b@.len(),
{
    match read_u32(b, pos) {
        Ok((value_type, at)) => read_typed(b, at, value_type),
        Err(e) => Err(e),
    }
}

/// The metadata block of a file.
pub struct Header {
    tensor_count: u64,
    arch: Option<String>,
    uints: Vec<(String, i64)>,
}

/// The views of a list of integers by key.
pub open spec fn uint_views(uints: Seq<(String, i64)>) -> Seq<(Seq<char>, int)> {
    uints.map_values(|u: (String, i64)| (u.0@, u.1 as int))
}

impl Header {
    /// The metadata.
    pub closed spec fn metadata(self) -> MetadataV {
        MetadataV {
            arch: match self.arch {
                Some(a) => Some(a@),
                None => None,
            },
            uints: uint_views(self.uints@),
        }
    }
}

fn record(uints: &mut Vec<(String, i64)>, key: String, n: i64)
    ensures
        uint_views(final(uints)@) == recorded(uint_views(old(uints)@), key@, n as int),
{
    let ghost all = uint_views(uints@);
    let ghost k = key@;
    let mut i: usize = 0;
    assert(all.skip(0) =~= all);
    assert(all.take(0) + recorded(all.skip(0), k, n as int) =~= recorded(all, k, n as int));
    while i < uints.len()
        invariant
            i <= uints.len(),
            *uints == *old(uints),
            all == uint_views(uints@),
            k == key@,
            recorded(all, k, n as int) == all.take(i as int) + recorded(
                all.skip(i as int),
                k,
                n as int,
            ),
        decreases uints.len() - i,
    {
        proof {
            assert(all.skip(i as int)[0] == (uints@[i as int].0@, uints@[i as int].1 as int));
            assert(all.skip(i as int).skip(1) =~= all.skip(i + 1));
        }
        if uints[i].0 == key {
            uints.set(i, (key, n));
            proof {
                let now = uint_views(uints@);
                assert(now =~= all.update(i as int, (k, n as int)));
                assert(now =~= all.take(i as int) + (seq![(k, n as int)] + all.skip(i + 1)));
            }
            return;
        }
        proof {
            let here = all.skip(i as int)[0];
            assert(all.take(i as int) + (seq![here] + recorded(all.skip(i + 1), k, n as int))
                =~= all.take(i + 1) + recorded(all.skip(i + 1), k, n as int));
        }
        i = i + 1;
    }
    uints.push((key, n));
    proof {
        let now = uint_views(uints@);
        assert(all.skip(i as int) =~= seq![]);
        assert(now =~= all.push((k, n as int)));
        assert(now =~= all.take(i as int) + seq![(k, n as int)]);
    }
}

/// The header, and the position after it.
fn read_header(b: &Vec<u8>) -> (out: Result<(Header, usize), End>)
    ensures
        match out {
            Ok((h, next)) => header_of(b@) == Ok::<(int, MetadataV, int), End>(
                (h.tensor_count as int, h.metadata(), next as int),
            ) && next <= b@.len(),
            Err(e) => header_of(b@) == Err::<(int, MetadataV, int), End>(e),
        },
{
    if b.len() < 4 {
        return Err(End::Short);
    }
    if !(b[0] == 0x47 && b[1] == 0x47 && b[2] == 0x55 && b[3] == 0x46) {
        return Err(End::Bad);
    }
    if b.len() < 24 {
        return Err(End::Short);
    }
    let count: u64 = eight_bytes(b, 16);
    let n: u64 = if count <= MAX_ENTRIES {
        count
    } else {
        MAX_ENTRIES
    };
    let mut header: Header = Header {
        tensor_count: eight_bytes(b, 8),
        arch: None,
        uints: Vec::new(),
    };
    assert(header.metadata().uints =~= seq![]);
    let mut pos: usize = 24;
    let mut i: u64 = 0;
    let ghost whole = entries_at(b@, 24, n as nat, header.metadata());
    while i < n
        invariant
            pos <= b@.len(),
            i <= n,
            header.tensor_count == le64(b@, 8),
            b@.len() >= 24,
            has_magic(b@),
            n == at_most(le64(b@, 16), MAX_ENTRIES as int),
            whole == entries_at(b@, 24, n as nat, MetadataV { arch: None, uints: seq![] }),
            whole == entries_at(b@, pos as int, (n - i) as nat, header.metadata()),
        decreases n - i,
    {
        let ghost m = header.metadata();
        match read_string(b, pos) {
            Err(e) => {
                return Err(e);
            },
            Ok((key, at)) => match read_value(b, at) {
                Err(e) => {
                    return Err(e);
                },
                Ok((value, next)) => {
                    let ghost v = value@;
                    let ghost k = key@;
                    match value {
                        MetaValue::Text(text) => {
                            if same(key.as_str(), "general.architecture") {
                                header.arch = Some(text);
                            }
                        },
                        MetaValue::Uint(number) => {
                            record(&mut header.uints, key, number);
                        },
                        MetaValue::Other => {},
                    }
                    assert(header.metadata() == entered_value(m, k, v));
                    pos = next;
                },
            },
        }
        i = i + 1;
    }
    Ok((header, pos))
}

fn find_uint(uints: &Vec<(String, i64)>, key: &str) -> (out: Option<i64>)
    ensures
        match out {
            Some(n) => uint_of(uint_views(uints@), key@) == Some(n as int),
            None => uint_of(uint_views(uints@), key@) is None,
        },
{
    let ghost all = uint_views(uints@);
    let mut i: usize = 0;
    assert(all.skip(0) =~= all);
    while i < uints.len()
        invariant
            i <= uints.len(),
            all == uint_views(uints@),
            uint_of(all, key@) == uint_of(all.skip(i as int), key@),
        decreases uints.len() - i,
    {
        proof {
            assert(all.skip(i as int)[0] == (uints@[i as int].0@, uints@[i as int].1 as int));
            assert(all.skip(i as int).skip(1) =~= all.skip(i + 1));
        }
        if same(uints[i].0.as_str(), key) {
            return Some(uints[i].1);
        }
        i = i + 1;
    }
    None
}

fn find_suffix(uints: &Vec<(String, i64)>, suffix: &str) -> (out: Option<i64>)
    ensures
        match out {
            Some(n) => uint_with_suffix(uint_views(uints@), suffix@) == Some(n as int),
            None => uint_with_suffix(uint_views(uints@), suffix@) is None,
        },
{
    let ghost all = uint_views(uints@);
    let mut i: usize = 0;
    assert(all.skip(0) =~= all);
    while i < uints.len()
        invariant
            i <= uints.len(),
            all == uint_views(uints@),
            uint_with_suffix(all, suffix@) == uint_with_suffix(all.skip(i as int), suffix@),
        decreases uints.len() - i,
    {
        proof {
            assert(all.skip(i as int)[0] == (uints@[i as int].0@, uints@[i as int].1 as int));
            assert(all.skip(i as int).skip(1) =~= all.skip(i + 1));
        }
        if str_ends_with(uints[i].0.as_str(), suffix) {
            return Some(uints[i].1);
        }
        i = i + 1;
    }
    None
}

fn arch_number(header: &Header, arch: &String, name: &str) -> (out: i64)
    ensures
        out == arch_uint(header.metadata(), arch@, name@),
{
    let prefixed: String = crate::text::cat(crate::text::cat(arch.as_str(), ".").as_str(), name);
    match find_uint(&header.uints, prefixed.as_str()) {
        Some(n) => n,
        None => {
            let suffix: String = crate::text::cat(".", name);
            match find_suffix(&header.uints, suffix.as_str()) {
                Some(n) => n,
                None => 0,
            }
        },
    }
}

/// The shape in a file's first bytes, or why it is not known from them.
pub fn scan_shape(b: &Vec<u8>) -> (out: Result<ModelShape, End>)
    ensures
        match out {
            Ok(shape) => shape_of(b@) == Ok::<(int, int), End>(
                (shape.expert_count as int, shape.block_count as int),
            ),
            Err(e) => shape_of(b@) == Err::<(int, int), End>(e),
        },
{
    match read_header(b) {
        Err(e) => Err(e),
        Ok((header, _)) => match &header.arch {
            None => Err(End::Bad),
            Some(arch) => {
                let expert_count: i64 = arch_number(&header, arch, "expert_count");
                let block_count: i64 = arch_number(&header, arch, "block_count");
                if expert_count < 0 || block_count < 0 {
                    Err(End::Bad)
                } else {
                    Ok(ModelShape { expert_count, block_count })
                }
            },
        },
    }
}

/// The shape in a file's bytes, if they hold one.
pub fn parse(b: &Vec<u8>) -> (out: Option<ModelShape>)
    ensures
        match out {
            Some(shape) => shape_of(b@) == Ok::<(int, int), End>(
                (shape.expert_count as int, shape.block_count as int),
            ),
            None => shape_of(b@) is Err,
        },
        out matches Some(shape) ==> shape.expert_count >= 0 && shape.block_count >= 0,
{
    match scan_shape(b) {
        Ok(shape) => Some(shape),
        Err(_) => None,
    }
}

/// The shape in a file's bytes. An unreadable file (`None`) and a malformed
/// one are unknown.
pub fn read_model_shape(file: Option<&Vec<u8>>) -> (out: ModelShape)
    ensures
        match file {
            Some(b) => match shape_of(b@) {
                Ok((experts, blocks)) => out.expert_count == experts && out.block_count == blocks,
                Err(_) => out.expert_count == -1 && out.block_count == 0,
            },
            None => out.expert_count == -1 && out.block_count == 0,
        },
{
    match file {
        Some(b) => match parse(b) {
            Some(shape) => shape,
            None => ModelShape::unknown(),
        },
        None => ModelShape::unknown(),
    }
}

fn read_tensors(b: &Vec<u8>, first: usize, n: u64) -> (out: Result<
    (Vec<(String, u64)>, usize),
    End,
>)
    requires
        first <= b@.len(),
    ensures
        match out {
            Ok((t, next)) => tensors_at(b@, first as int, n as nat, seq![]) == Ok::<
                (Seq<(Seq<char>, int)>, int),
                End,
            >((tensor_views(t@), next as int)) && next <= b@.len(),
            Err(e) => tensors_at(b@, first as int, n as nat, seq![]) == Err::<
                (Seq<(Seq<char>, int)>, int),
                End,
            >(e),
        },
{
    let mut tensors: Vec<(String, u64)> = Vec::new();
    let mut pos: usize = first;
    let mut i: u64 = 0;
    assert(tensor_views(tensors@) =~= seq![]);
    while i < n
        invariant
            pos <= b@.len(),
            i <= n,
            tensors_at(b@, first as int, n as nat, seq![]) == tensors_at(
                b@,
                pos as int,
                (n - i) as nat,
                tensor_views(tensors@),
            ),
        decreases n - i,
    {
        match read_string(b, pos) {
            Err(e) => {
                return Err(e);
            },
            Ok((name, at)) => match read_u32(b, at) {
                Err(e) => {
                    return Err(e);
                },
                Ok((dims, dims_at)) => {
                    if dims > MAX_DIMS {
                        return Err(End::Bad);
                    }
                    let rest: usize = 8 * dims as usize + 12;
                    match read_n(b, dims_at, rest) {
                        Err(e) => {
                            return Err(e);
                        },
                        Ok(end) => {
                            let ghost was = tensor_views(tensors@);
                            let offset: u64 = eight_bytes(b, end - 8);
                            tensors.push((name, offset));
                            assert(tensor_views(tensors@) =~= was.push((name@, offset as int)));
                            pos = end;
                        },
                    }
                },
            },
        }
        i = i + 1;
    }
    Ok((tensors, pos))
}

/// The views of a tensor directory.
pub open spec fn tensor_views(tensors: Seq<(String, u64)>) -> Seq<(Seq<char>, int)> {
    tensors.map_values(|t: (String, u64)| (t.0@, t.1 as int))
}

fn find_offset(tensors: &Vec<(String, u64)>, name: &str) -> (out: Option<u64>)
    ensures
        match out {
            Some(n) => offset_of(tensor_views(tensors@), name@) == Some(n as int),
            None => offset_of(tensor_views(tensors@), name@) is None,
        },
{
    let ghost all = tensor_views(tensors@);
    let mut i: usize = tensors.len();
    assert(all.take(i as int) =~= all);
    while i > 0
        invariant
            i <= tensors.len(),
            all == tensor_views(tensors@),
            offset_of(all, name@) == offset_of(all.take(i as int), name@),
        decreases i,
    {
        proof {
            assert(all.take(i as int).last() == (
                tensors@[i - 1].0@,
                tensors@[i - 1].1 as int,
            ));
            assert(all.take(i as int).drop_last() =~= all.take(i - 1));
        }
        if same(tensors[i - 1].0.as_str(), name) {
            return Some(tensors[i - 1].1);
        }
        i = i - 1;
    }
    None
}

fn find_least_past(tensors: &Vec<(String, u64)>, target: u64) -> (out: Option<u64>)
    ensures
        match out {
            Some(n) => least_past(tensor_views(tensors@), target as int) == Some(n as int),
            None => least_past(tensor_views(tensors@), target as int) is None,
        },
{
    let ghost all = tensor_views(tensors@);
    let mut best: Option<u64> = None;
    let mut i: usize = 0;
    while i < tensors.len()
        invariant
            i <= tensors.len(),
            all == tensor_views(tensors@),
            match best {
                Some(n) => least_past(all.take(i as int), target as int) == Some(n as int),
                None => least_past(all.take(i as int), target as int) is None,
            },
        decreases tensors.len() - i,
    {
        proof {
            assert(all.take(i + 1).last() == (tensors@[i as int].0@, tensors@[i as int].1 as int));
            assert(all.take(i + 1).drop_last() =~= all.take(i as int));
        }
        let here: u64 = tensors[i].1;
        if here > target {
            best = match best {
                Some(n) => if here <= n {
                    Some(here)
                } else {
                    Some(n)
                },
                None => Some(here),
            };
        }
        i = i + 1;
    }
    assert(all.take(i as int) =~= all);
    best
}

/// The size of the named tensor's data from a file's first bytes, or why it is
/// not known from them.
pub fn scan_tensor_bytes(b: &Vec<u8>, file_len: u64, name: &str) -> (out: Result<u64, End>)
    ensures
        match out {
            Ok(n) => tensor_bytes_of(b@, file_len as int, name@) == Ok::<int, End>(n as int),
            Err(e) => tensor_bytes_of(b@, file_len as int, name@) == Err::<int, End>(e),
        },
{
    match read_header(b) {
        Err(e) => Err(e),
        Ok((header, at)) => {
            let count: u64 = if header.tensor_count <= MAX_TENSORS {
                header.tensor_count
            } else {
                MAX_TENSORS
            };
            match read_tensors(b, at, count) {
                Err(e) => Err(e),
                Ok((tensors, end)) => {
                    let alignment: u64 = match find_uint(&header.uints, "general.alignment") {
                        Some(a) => if a > 0 {
                            a as u64
                        } else {
                            DEFAULT_ALIGNMENT
                        },
                        None => DEFAULT_ALIGNMENT,
                    };
                    match find_offset(&tensors, name) {
                        None => Err(End::Bad),
                        Some(target) => {
                            let over: u64 = end as u64 % alignment;
                            let start: u128 = if over == 0 {
                                end as u128
                            } else {
                                end as u128 + (alignment - over) as u128
                            };
                            if start > file_len as u128 {
                                return Err(End::Bad);
                            }
                            let data_len: u64 = file_len - start as u64;
                            let stop: u64 = match find_least_past(&tensors, target) {
                                Some(e) => e,
                                None => data_len,
                            };
                            if stop < target {
                                Err(End::Bad)
                            } else {
                                Ok(stop - target)
                            }
                        },
                    }
                },
            }
        },
    }
}

/// The size of the named tensor's data, if the bytes hold its directory.
pub fn tensor_bytes(b: &Vec<u8>, file_len: u64, name: &str) -> (out: Option<u64>)
    ensures
        match out {
            Some(n) => tensor_bytes_of(b@, file_len as int, name@) == Ok::<int, End>(n as int),
            None => tensor_bytes_of(b@, file_len as int, name@) is Err,
        },
{
    match scan_tensor_bytes(b, file_len, name) {
        Ok(n) => Some(n),
        Err(_) => None,
    }
}

/// The size in bytes of a file's per-layer embedding table, when the file
/// holds one. A split model keeps it in one shard; the others, and an
/// unreadable file (`None`), have none.
pub fn lazy_table_bytes(file: Option<&Vec<u8>>, file_len: u64) -> (out: Option<u64>)
    ensures
        match file {
            Some(b) => match out {
                Some(n) => tensor_bytes_of(b@, file_len as int, LAZY_TABLE@) == Ok::<int, End>(
                    n as int,
                ),
                None => tensor_bytes_of(b@, file_len as int, LAZY_TABLE@) is Err,
            },
            None => out is None,
        },
{
    match file {
        Some(b) => tensor_bytes(b, file_len, LAZY_TABLE),
        None => None,
    }
}

} // verus!
