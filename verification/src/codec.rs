//! Wire format for tensor slot tables.
//!
//! A network definition and a serialized engine both carry an ordered table
//! of tensor slots, each a name (raw bytes, never empty, never holding a
//! null byte) and a shape (at most eight dimension sizes, each positive).
//! The table is laid out as a little-endian 32-bit slot count followed by
//! one record per slot: a one-byte name length, the name bytes, a one-byte
//! dimension count and the dimensions as little-endian 32-bit values.
//!
//! [`encode_table`] and [`parse_table`] give the format's meaning;
//! [`write_table`] and [`read_table`] are the executable codec, proved
//! against them. [`lemma_table_round_trip`] states the law that a
//! well-formed table survives encoding and parsing unchanged.

use vstd::prelude::*;

verus! {

/// A tensor slot: a stable name and the declared shape.
pub struct TensorSlot {
    /// Raw bytes of the tensor name.
    pub name: Vec<u8>,
    /// Dimension sizes of the tensor, outermost first.
    pub dims: Vec<u32>,
}

/// Mathematical content of a tensor slot.
#[verifier::ext_equal]
pub struct SlotView {
    /// Raw bytes of the tensor name.
    pub name: Seq<u8>,
    /// Dimension sizes of the tensor, outermost first.
    pub dims: Seq<u32>,
}

impl View for TensorSlot {
    type V = SlotView;

    open spec fn view(&self) -> SlotView {
        SlotView { name: self.name@, dims: self.dims@ }
    }
}

/// The slot contents of a sequence of slots.
pub open spec fn slot_views(slots: Seq<TensorSlot>) -> Seq<SlotView> {
    Seq::new(slots.len(), |i: int| slots[i]@)
}

/// Most slots a table may carry.
pub const MAX_SLOTS: u32 = 65535;

/// Most bytes a slot name may carry.
pub const MAX_NAME_LEN: usize = 255;

/// Most dimensions a slot shape may carry.
pub const MAX_DIMS: usize = 8;

/// A well-formed slot: a non-empty name of at most [`MAX_NAME_LEN`] bytes
/// none of which is null, and at most [`MAX_DIMS`] dimensions, each
/// positive.
pub open spec fn wf_slot(s: SlotView) -> bool {
    &&& 1 <= s.name.len() <= MAX_NAME_LEN
    &&& forall|i: int| 0 <= i < s.name.len() ==> s.name[i] != 0
    &&& s.dims.len() <= MAX_DIMS
    &&& forall|i: int| 0 <= i < s.dims.len() ==> s.dims[i] >= 1
}

/// A well-formed table: at most [`MAX_SLOTS`] slots, each well-formed.
pub open spec fn wf_slots(slots: Seq<SlotView>) -> bool {
    &&& slots.len() <= MAX_SLOTS
    &&& forall|i: int| 0 <= i < slots.len() ==> wf_slot(#[trigger] slots[i])
}

/// Little-endian byte layout of a 32-bit value.
pub open spec fn le32(v: u32) -> Seq<u8> {
    seq![
        (v & 0xff) as u8,
        ((v >> 8) & 0xff) as u8,
        ((v >> 16) & 0xff) as u8,
        ((v >> 24) & 0xff) as u8,
    ]
}

/// The 32-bit value four little-endian bytes carry.
pub open spec fn le32_value(b: Seq<u8>) -> u32
    recommends
        b.len() == 4,
{
    (b[0] as u32) | ((b[1] as u32) << 8) | ((b[2] as u32) << 16) | ((b[3] as u32) << 24)
}

/// A 32-bit value survives its little-endian byte layout.
pub proof fn lemma_le32_round_trip(v: u32)
    ensures
        le32(v).len() == 4,
        le32_value(le32(v)) == v,
{
    assert((((v & 0xff) as u8) as u32) | ((((v >> 8) & 0xff) as u8) as u32) << 8 | ((((v >> 16)
        & 0xff) as u8) as u32) << 16 | ((((v >> 24) & 0xff) as u8) as u32) << 24 == v)
        by (bit_vector);
}

/// Byte layout of a list of 32-bit values, four little-endian bytes per
/// value: the layout of dimension lists and of tensor element data.
pub open spec fn le32_values(dims: Seq<u32>) -> Seq<u8>
    decreases dims.len(),
{
    if dims.len() == 0 {
        seq![]
    } else {
        le32(dims[0]) + le32_values(dims.drop_first())
    }
}

/// Byte layout of one slot record.
pub open spec fn encode_slot(s: SlotView) -> Seq<u8> {
    seq![s.name.len() as u8] + s.name + seq![s.dims.len() as u8] + le32_values(s.dims)
}

/// Byte layout of consecutive slot records.
pub open spec fn encode_slots(slots: Seq<SlotView>) -> Seq<u8>
    decreases slots.len(),
{
    if slots.len() == 0 {
        seq![]
    } else {
        encode_slot(slots[0]) + encode_slots(slots.drop_first())
    }
}

/// Byte layout of a whole table: the slot count, then the slot records.
pub open spec fn encode_table(slots: Seq<SlotView>) -> Seq<u8> {
    le32(slots.len() as u32) + encode_slots(slots)
}

/// A list of 32-bit values occupies four bytes per value.
pub proof fn lemma_le32_values_len(dims: Seq<u32>)
    ensures
        le32_values(dims).len() == 4 * dims.len(),
    decreases dims.len(),
{
    if dims.len() != 0 {
        lemma_le32_values_len(dims.drop_first());
    }
}

/// A slot record occupies two length bytes, the name and the dimensions.
pub proof fn lemma_encode_slot_len(s: SlotView)
    ensures
        encode_slot(s).len() == 2 + s.name.len() + 4 * s.dims.len(),
{
    lemma_le32_values_len(s.dims);
}

/// Reads the slot record that starts at `off`, if the bytes there form a
/// well-formed record: the slot and the offset just past the record.
pub open spec fn parse_slot_at(bytes: Seq<u8>, off: int) -> Option<(SlotView, int)>
    recommends
        0 <= off,
{
    if off < bytes.len() {
        let n = bytes[off] as int;
        if n >= 1 && off + 2 + n <= bytes.len() && (forall|j: int|
            off + 1 <= j < off + 1 + n ==> bytes[j] != 0) {
            let r = bytes[off + 1 + n] as int;
            if r <= MAX_DIMS && off + 2 + n + 4 * r <= bytes.len() {
                let name = bytes.subrange(off + 1, off + 1 + n);
                let dims = Seq::new(
                    r as nat,
                    |i: int| le32_value(bytes.subrange(off + 2 + n + 4 * i, off + 2 + n + 4 * i + 4)),
                );
                if forall|i: int| 0 <= i < r ==> dims[i] >= 1 {
                    Some((SlotView { name, dims }, off + 2 + n + 4 * r))
                } else {
                    None
                }
            } else {
                None
            }
        } else {
            None
        }
    } else {
        None
    }
}

/// Reads `count` consecutive slot records starting at `off`: the slots and
/// the offset just past the last record.
pub open spec fn parse_slots_at(bytes: Seq<u8>, off: int, count: nat) -> Option<(Seq<SlotView>, int)>
    decreases count,
{
    if count == 0 {
        Some((seq![], off))
    } else {
        match parse_slot_at(bytes, off) {
            None => None,
            Some((s, off2)) => match parse_slots_at(bytes, off2, (count - 1) as nat) {
                None => None,
                Some((rest, off3)) => Some((seq![s] + rest, off3)),
            },
        }
    }
}

/// The meaning of a table byte buffer: its slots, when the buffer is a
/// well-formed table consumed exactly, and nothing otherwise.
pub open spec fn parse_table(bytes: Seq<u8>) -> Option<Seq<SlotView>> {
    if bytes.len() >= 4 {
        let count = le32_value(bytes.subrange(0, 4));
        if count <= MAX_SLOTS {
            match parse_slots_at(bytes, 4, count as nat) {
                Some((slots, end)) => if end == bytes.len() {
                    Some(slots)
                } else {
                    None
                },
                None => None,
            }
        } else {
            None
        }
    } else {
        None
    }
}

/// Every slot a record parses to is well-formed.
pub proof fn lemma_parse_slot_wf(bytes: Seq<u8>, off: int)
    requires
        0 <= off,
        parse_slot_at(bytes, off) is Some,
    ensures
        (parse_slot_at(bytes, off) matches Some(p) ==> wf_slot(p.0) && off < p.1 <= bytes.len()),
{
}

/// Every table a buffer parses to is well-formed.
pub proof fn lemma_parse_slots_wf(bytes: Seq<u8>, off: int, count: nat)
    requires
        0 <= off <= bytes.len(),
        parse_slots_at(bytes, off, count) is Some,
    ensures
        (parse_slots_at(bytes, off, count) matches Some(p) ==> p.0.len() == count && off <= p.1
            <= bytes.len() && (forall|i: int| 0 <= i < count ==> wf_slot(#[trigger] p.0[i]))),
    decreases count,
{
    if count != 0 {
        let (s, off2) = parse_slot_at(bytes, off).unwrap();
        lemma_parse_slot_wf(bytes, off);
        lemma_parse_slots_wf(bytes, off2, (count - 1) as nat);
        let p = parse_slots_at(bytes, off, count).unwrap();
        let rest = parse_slots_at(bytes, off2, (count - 1) as nat).unwrap();
        assert(p.0 == seq![s] + rest.0);
        assert(p.1 == rest.1);
        assert forall|i: int| 0 <= i < count implies wf_slot(#[trigger] p.0[i]) by {
            if i == 0 {
                assert(p.0[i] == s);
            } else {
                assert(p.0[i] == rest.0[i - 1]);
            }
        }
    }
}

/// Every table [`parse_table`] accepts is well-formed.
pub proof fn lemma_parse_table_wf(bytes: Seq<u8>)
    requires
        parse_table(bytes) is Some,
    ensures
        (parse_table(bytes) matches Some(slots) ==> wf_slots(slots)),
{
    let count = le32_value(bytes.subrange(0, 4));
    lemma_parse_slots_wf(bytes, 4, count as nat);
}

/// Value lists lay out compositionally.
pub proof fn lemma_le32_values_append(a: Seq<u32>, b: Seq<u32>)
    ensures
        le32_values(a + b) == le32_values(a) + le32_values(b),
    decreases a.len(),
{
    if a.len() == 0 {
        assert(a + b =~= b);
        assert(le32_values(a) + le32_values(b) =~= le32_values(b));
    } else {
        assert((a + b).drop_first() =~= a.drop_first() + b);
        lemma_le32_values_append(a.drop_first(), b);
        assert(le32_values(a + b) =~= le32_values(a) + le32_values(b));
    }
}

/// Slot tables encode compositionally.
pub proof fn lemma_encode_slots_append(a: Seq<SlotView>, b: Seq<SlotView>)
    ensures
        encode_slots(a + b) == encode_slots(a) + encode_slots(b),
    decreases a.len(),
{
    if a.len() == 0 {
        assert(a + b =~= b);
        assert(encode_slots(a) + encode_slots(b) =~= encode_slots(b));
    } else {
        assert((a + b).drop_first() =~= a.drop_first() + b);
        lemma_encode_slots_append(a.drop_first(), b);
        assert(encode_slots(a + b) =~= encode_slots(a) + encode_slots(b));
    }
}

/// A one-entry value list lays out as that value alone.
pub proof fn lemma_le32_values_one(d: u32)
    ensures
        le32_values(seq![d]) == le32(d),
{
    assert(seq![d].drop_first() =~= Seq::<u32>::empty());
    assert(le32_values(Seq::<u32>::empty()) == Seq::<u8>::empty());
    assert(le32_values(seq![d]) =~= le32(d));
}

/// A one-entry slot table encodes to that slot's record.
pub proof fn lemma_encode_slots_one(s: SlotView)
    ensures
        encode_slots(seq![s]) == encode_slot(s),
{
    assert(seq![s].drop_first() =~= Seq::<SlotView>::empty());
    assert(encode_slots(Seq::<SlotView>::empty()) == Seq::<u8>::empty());
    assert(encode_slots(seq![s]) =~= encode_slot(s));
}

/// Appends the little-endian layout of a 32-bit value.
pub fn push_le32(out: &mut Vec<u8>, v: u32)
    ensures
        final(out)@ == old(out)@ + le32(v),
{
    proof {
        assert(v & 0xff < 256 && (v >> 8) & 0xff < 256 && (v >> 16) & 0xff < 256 && (v >> 24)
            & 0xff < 256) by (bit_vector);
    }
    out.push((v & 0xff) as u8);
    out.push(((v >> 8) & 0xff) as u8);
    out.push(((v >> 16) & 0xff) as u8);
    out.push(((v >> 24) & 0xff) as u8);
    proof {
        assert(final(out)@ =~= old(out)@ + le32(v));
    }
}

/// Reads the 32-bit value laid out at `off`.
pub fn read_le32(bytes: &[u8], off: usize) -> (r: u32)
    requires
        off + 4 <= bytes@.len(),
    ensures
        r == le32_value(bytes@.subrange(off as int, off + 4)),
{
    let b0 = bytes[off];
    let b1 = bytes[off + 1];
    let b2 = bytes[off + 2];
    let b3 = bytes[off + 3];
    proof {
        let s = bytes@.subrange(off as int, off + 4);
        assert(s[0] == b0 && s[1] == b1 && s[2] == b2 && s[3] == b3);
    }
    (b0 as u32) | ((b1 as u32) << 8) | ((b2 as u32) << 16) | ((b3 as u32) << 24)
}

/// Compares two byte buffers for equality.
pub fn eq_bytes(a: &[u8], b: &[u8]) -> (r: bool)
    ensures
        r == (a@ == b@),
{
    if a.len() != b.len() {
        proof {
            assert(a@ != b@);
        }
        return false;
    }
    let n = a.len();
    let mut i: usize = 0;
    while i < n
        invariant
            i <= n,
            n == a@.len(),
            n == b@.len(),
            forall|k: int| 0 <= k < i ==> a@[k] == b@[k],
        decreases n - i,
    {
        if a[i] != b[i] {
            proof {
                assert(a@[i as int] != b@[i as int]);
            }
            return false;
        }
        i = i + 1;
    }
    proof {
        assert(a@ =~= b@);
    }
    true
}

/// Appends the record layout of one slot.
fn write_slot(out: &mut Vec<u8>, slot: &TensorSlot)
    requires
        wf_slot(slot@),
    ensures
        final(out)@ == old(out)@ + encode_slot(slot@),
{
    let ghost base = out@;
    out.push(slot.name.len() as u8);
    let n = slot.name.len();
    let mut i: usize = 0;
    while i < n
        invariant
            i <= n,
            n == slot@.name.len(),
            out@ == base + seq![n as u8] + slot@.name.take(i as int),
        decreases n - i,
    {
        proof {
            assert((base + seq![n as u8] + slot@.name.take(i as int)).push(slot@.name[i as int])
                =~= base + seq![n as u8] + slot@.name.take(i + 1));
        }
        out.push(slot.name[i]);
        i = i + 1;
    }
    proof {
        assert(slot@.name.take(n as int) =~= slot@.name);
    }
    out.push(slot.dims.len() as u8);
    let ghost mid = base + seq![n as u8] + slot@.name + seq![slot@.dims.len() as u8];
    proof {
        assert(out@ =~= mid);
    }
    let r = slot.dims.len();
    let mut j: usize = 0;
    while j < r
        invariant
            j <= r,
            r == slot@.dims.len(),
            out@ == mid + le32_values(slot@.dims.take(j as int)),
        decreases r - j,
    {
        proof {
            assert(slot@.dims.take(j + 1) =~= slot@.dims.take(j as int) + seq![slot@.dims[j as int]]);
            lemma_le32_values_append(slot@.dims.take(j as int), seq![slot@.dims[j as int]]);
            lemma_le32_values_one(slot@.dims[j as int]);
        }
        push_le32(out, slot.dims[j]);
        j = j + 1;
        proof {
            assert(out@ =~= mid + le32_values(slot@.dims.take(j as int)));
        }
    }
    proof {
        assert(slot@.dims.take(r as int) =~= slot@.dims);
        assert(out@ =~= old(out)@ + encode_slot(slot@));
    }
}

/// Encodes a well-formed slot table into its byte layout.
pub fn write_table(slots: &Vec<TensorSlot>) -> (out: Vec<u8>)
    requires
        wf_slots(slot_views(slots@)),
    ensures
        out@ == encode_table(slot_views(slots@)),
{
    let ghost views = slot_views(slots@);
    let mut out: Vec<u8> = Vec::new();
    push_le32(&mut out, slots.len() as u32);
    let ghost head = le32(views.len() as u32);
    proof {
        assert(out@ =~= head + encode_slots(views.take(0)));
    }
    let n = slots.len();
    let mut i: usize = 0;
    while i < n
        invariant
            i <= n,
            n == slots@.len(),
            views == slot_views(slots@),
            wf_slots(views),
            head == le32(views.len() as u32),
            out@ == head + encode_slots(views.take(i as int)),
        decreases n - i,
    {
        proof {
            assert(views.take(i + 1) =~= views.take(i as int) + seq![views[i as int]]);
            lemma_encode_slots_append(views.take(i as int), seq![views[i as int]]);
            lemma_encode_slots_one(views[i as int]);
            assert(views[i as int] == slots@[i as int]@);
        }
        write_slot(&mut out, &slots[i]);
        i = i + 1;
        proof {
            assert(out@ =~= head + encode_slots(views.take(i as int)));
        }
    }
    proof {
        assert(views.take(n as int) =~= views);
        assert(out@ =~= encode_table(views));
    }
    out
}

/// Reads the slot record that starts at `off`, if the bytes there form a
/// well-formed record.
fn read_slot(bytes: &[u8], off: usize) -> (r: Option<(TensorSlot, usize)>)
    requires
        off <= bytes@.len(),
    ensures
        match r {
            Some(p) => {
                &&& parse_slot_at(bytes@, off as int) == Some((p.0@, p.1 as int))
                &&& off < p.1 <= bytes@.len()
            },
            None => parse_slot_at(bytes@, off as int) is None,
        },
{
    let len = bytes.len();
    if off >= len {
        return None;
    }
    let n = bytes[off] as usize;
    if n < 1 {
        return None;
    }
    if len - off < 2 + n {
        return None;
    }
    let mut name: Vec<u8> = Vec::new();
    let mut i: usize = 0;
    while i < n
        invariant
            i <= n,
            n == bytes@[off as int] as int,
            off + 2 + n <= len,
            len == bytes@.len(),
            name@.len() == i,
            forall|k: int| 0 <= k < i ==> name@[k] == bytes@[off + 1 + k],
            forall|j: int| off + 1 <= j < off + 1 + i ==> bytes@[j] != 0,
        decreases n - i,
    {
        let b = bytes[off + 1 + i];
        if b == 0 {
            proof {
                assert(bytes@[off + 1 + i] == 0);
            }
            return None;
        }
        name.push(b);
        i = i + 1;
    }
    let r = bytes[off + 1 + n] as usize;
    if r > MAX_DIMS {
        return None;
    }
    if len - off < 2 + n + 4 * r {
        return None;
    }
    let ghost spec_dims = Seq::new(
        r as nat,
        |i: int| le32_value(bytes@.subrange(off + 2 + n + 4 * i, off + 2 + n + 4 * i + 4)),
    );
    let mut dims: Vec<u32> = Vec::new();
    let mut j: usize = 0;
    while j < r
        invariant
            j <= r,
            r == bytes@[off + 1 + n] as int,
            n == bytes@[off as int] as int,
            1 <= n,
            off + 2 + n + 4 * r <= len,
            len == bytes@.len(),
            spec_dims == Seq::new(
                r as nat,
                |i: int| le32_value(bytes@.subrange(off + 2 + n + 4 * i, off + 2 + n + 4 * i + 4)),
            ),
            dims@.len() == j,
            forall|k: int| 0 <= k < j ==> dims@[k] == spec_dims[k] && spec_dims[k] >= 1,
        decreases r - j,
    {
        let d = read_le32(bytes, off + 2 + n + 4 * j);
        proof {
            assert(d == spec_dims[j as int]);
        }
        if d < 1 {
            proof {
                assert(!(spec_dims[j as int] >= 1));
            }
            return None;
        }
        dims.push(d);
        j = j + 1;
    }
    let next = off + 2 + n + 4 * r;
    let slot = TensorSlot { name, dims };
    proof {
        assert(slot@.name =~= bytes@.subrange(off + 1, off + 1 + n));
        assert(slot@.dims =~= spec_dims);
        assert(parse_slot_at(bytes@, off as int) == Some((slot@, next as int)));
    }
    Some((slot, next))
}

/// Decodes a table byte buffer: the slots it lays out, when it is a
/// well-formed table consumed exactly, and nothing otherwise.
pub fn read_table(bytes: &[u8]) -> (r: Option<Vec<TensorSlot>>)
    ensures
        match r {
            Some(slots) => {
                &&& parse_table(bytes@) == Some(slot_views(slots@))
                &&& wf_slots(slot_views(slots@))
            },
            None => parse_table(bytes@) is None,
        },
{
    let len = bytes.len();
    if len < 4 {
        return None;
    }
    let count = read_le32(bytes, 0);
    if count > MAX_SLOTS {
        return None;
    }
    let mut slots: Vec<TensorSlot> = Vec::new();
    let mut off: usize = 4;
    let mut k: u32 = 0;
    proof {
        assert(slot_views(slots@) =~= Seq::<SlotView>::empty());
        match parse_slots_at(bytes@, 4, count as nat) {
            Some(p) => {
                assert(slot_views(slots@) + p.0 =~= p.0);
            },
            None => {},
        }
    }
    while k < count
        invariant
            4 <= off <= len,
            len == bytes@.len(),
            k <= count,
            count <= MAX_SLOTS,
            count == le32_value(bytes@.subrange(0, 4)),
            slots@.len() == k,
            (match parse_slots_at(bytes@, off as int, (count - k) as nat) {
                Some(p) => parse_slots_at(bytes@, 4, count as nat) == Some(
                    (slot_views(slots@) + p.0, p.1),
                ),
                None => parse_slots_at(bytes@, 4, count as nat) is None,
            }),
        decreases count - k,
    {
        let ghost old_views = slot_views(slots@);
        match read_slot(bytes, off) {
            None => {
                proof {
                    assert(parse_slots_at(bytes@, off as int, (count - k) as nat) is None);
                }
                return None;
            },
            Some((slot, noff)) => {
                proof {
                    match parse_slots_at(bytes@, noff as int, (count - k - 1) as nat) {
                        Some(p) => {
                            assert(parse_slots_at(bytes@, off as int, (count - k) as nat) == Some(
                                (seq![slot@] + p.0, p.1),
                            ));
                            assert(slot_views(slots@.push(slot)) =~= old_views + seq![slot@]);
                            assert(old_views + (seq![slot@] + p.0) =~= (old_views + seq![slot@])
                                + p.0);
                        },
                        None => {
                            assert(parse_slots_at(bytes@, off as int, (count - k) as nat) is None);
                        },
                    }
                }
                slots.push(slot);
                off = noff;
                k = k + 1;
            },
        }
    }
    proof {
        assert(parse_slots_at(bytes@, off as int, 0) == Some((Seq::<SlotView>::empty(), off as int)));
        assert(slot_views(slots@) + Seq::<SlotView>::empty() =~= slot_views(slots@));
    }
    if off != len {
        return None;
    }
    proof {
        assert(parse_table(bytes@) == Some(slot_views(slots@)));
        lemma_parse_table_wf(bytes@);
    }
    Some(slots)
}

/// The dimension at position `i` occupies bytes `4 * i` to `4 * i + 4` of
/// the encoded dimension list.
pub proof fn lemma_le32_values_index(dims: Seq<u32>, i: int)
    requires
        0 <= i < dims.len(),
    ensures
        le32_values(dims).subrange(4 * i, 4 * i + 4) == le32(dims[i]),
    decreases dims.len(),
{
    lemma_le32_values_len(dims);
    if i == 0 {
        assert(le32_values(dims).subrange(0, 4) =~= le32(dims[0]));
    } else {
        lemma_le32_values_len(dims.drop_first());
        lemma_le32_values_index(dims.drop_first(), i - 1);
        assert(le32_values(dims).subrange(4 * i, 4 * i + 4) =~= le32_values(
            dims.drop_first(),
        ).subrange(4 * (i - 1), 4 * (i - 1) + 4));
        assert(dims.drop_first()[i - 1] == dims[i]);
    }
}

/// A well-formed slot record parses back to the slot it encodes, wherever
/// it stands in a larger buffer.
pub proof fn lemma_parse_slot_of_encode(bytes: Seq<u8>, off: int, s: SlotView)
    requires
        wf_slot(s),
        0 <= off,
        off + encode_slot(s).len() <= bytes.len(),
        bytes.subrange(off, off + encode_slot(s).len()) == encode_slot(s),
    ensures
        parse_slot_at(bytes, off) == Some((s, off + encode_slot(s).len())),
{
    let e = encode_slot(s);
    let n = s.name.len() as int;
    let r = s.dims.len() as int;
    lemma_encode_slot_len(s);
    lemma_le32_values_len(s.dims);
    assert forall|t: int| 0 <= t < e.len() implies bytes[off + t] == e[t] by {
        assert(bytes.subrange(off, off + e.len())[t] == bytes[off + t]);
    }
    assert(e[0] == n as u8);
    assert(bytes[off] as int == n);
    assert forall|j: int| off + 1 <= j < off + 1 + n implies bytes[j] != 0 by {
        assert(e[j - off] == s.name[j - off - 1]);
    }
    assert(e[1 + n] == r as u8);
    assert(bytes[off + 1 + n] as int == r);
    assert forall|i2: int| 0 <= i2 < n implies s.name[i2] == bytes.subrange(
        off + 1,
        off + 1 + n,
    )[i2] by {
        assert(bytes[off + 1 + i2] == e[1 + i2]);
        assert(e[1 + i2] == s.name[i2]);
    }
    assert(bytes.subrange(off + 1, off + 1 + n) =~= s.name);
    let dims = Seq::new(
        r as nat,
        |i: int| le32_value(bytes.subrange(off + 2 + n + 4 * i, off + 2 + n + 4 * i + 4)),
    );
    assert forall|i: int| 0 <= i < r implies dims[i] == s.dims[i] by {
        lemma_le32_values_index(s.dims, i);
        let sub = bytes.subrange(off + 2 + n + 4 * i, off + 2 + n + 4 * i + 4);
        let esub = le32_values(s.dims).subrange(4 * i, 4 * i + 4);
        assert(bytes[off + 2 + n + 4 * i] == e[2 + n + 4 * i]);
        assert(bytes[off + 2 + n + 4 * i + 1] == e[2 + n + 4 * i + 1]);
        assert(bytes[off + 2 + n + 4 * i + 2] == e[2 + n + 4 * i + 2]);
        assert(bytes[off + 2 + n + 4 * i + 3] == e[2 + n + 4 * i + 3]);
        assert(e[2 + n + 4 * i] == le32_values(s.dims)[4 * i]);
        assert(e[2 + n + 4 * i + 1] == le32_values(s.dims)[4 * i + 1]);
        assert(e[2 + n + 4 * i + 2] == le32_values(s.dims)[4 * i + 2]);
        assert(e[2 + n + 4 * i + 3] == le32_values(s.dims)[4 * i + 3]);
        assert(sub =~= esub);
        lemma_le32_round_trip(s.dims[i]);
    }
    assert(dims =~= s.dims);
    match parse_slot_at(bytes, off) {
        Some(p) => {
            assert(p.0 =~= s);
        },
        None => {
            assert(false);
        },
    }
}

/// A well-formed run of slot records parses back to the slots it encodes.
pub proof fn lemma_parse_slots_of_encode(bytes: Seq<u8>, off: int, slots: Seq<SlotView>)
    requires
        forall|i: int| 0 <= i < slots.len() ==> wf_slot(#[trigger] slots[i]),
        0 <= off,
        off + encode_slots(slots).len() <= bytes.len(),
        bytes.subrange(off, off + encode_slots(slots).len()) == encode_slots(slots),
    ensures
        parse_slots_at(bytes, off, slots.len() as nat) == Some(
            (slots, off + encode_slots(slots).len()),
        ),
    decreases slots.len(),
{
    if slots.len() == 0 {
        assert(slots =~= Seq::<SlotView>::empty());
    } else {
        let s0 = slots[0];
        let e0 = encode_slot(s0);
        let rest = slots.drop_first();
        let erest = encode_slots(rest);
        assert(encode_slots(slots) == e0 + erest);
        lemma_encode_slot_len(s0);
        assert(bytes.subrange(off, off + e0.len()) =~= e0) by {
            assert forall|t: int| 0 <= t < e0.len() implies bytes.subrange(off, off + e0.len())[t]
                == e0[t] by {
                assert(bytes[off + t] == bytes.subrange(off, off + encode_slots(slots).len())[t]);
                assert((e0 + erest)[t] == e0[t]);
            }
        }
        lemma_parse_slot_of_encode(bytes, off, s0);
        let off2 = off + e0.len();
        assert(bytes.subrange(off2, off2 + erest.len()) =~= erest) by {
            assert forall|t: int| 0 <= t < erest.len() implies bytes.subrange(
                off2,
                off2 + erest.len(),
            )[t] == erest[t] by {
                assert(bytes[off2 + t] == bytes.subrange(
                    off,
                    off + encode_slots(slots).len(),
                )[e0.len() + t]);
                assert((e0 + erest)[e0.len() + t] == erest[t]);
            }
        }
        lemma_parse_slots_of_encode(bytes, off2, rest);
        assert(seq![s0] + rest =~= slots);
    }
}

/// The table round trip: a well-formed slot table, encoded and parsed
/// back, yields exactly the original slots.
pub proof fn lemma_table_round_trip(slots: Seq<SlotView>)
    requires
        wf_slots(slots),
    ensures
        parse_table(encode_table(slots)) == Some(slots),
{
    let bytes = encode_table(slots);
    let count = slots.len() as u32;
    lemma_le32_round_trip(count);
    assert(bytes.subrange(0, 4) =~= le32(count));
    assert(le32_value(bytes.subrange(0, 4)) == count);
    assert(bytes.subrange(4, bytes.len() as int) =~= encode_slots(slots));
    lemma_parse_slots_of_encode(bytes, 4, slots);
}

/// The four magic bytes that open a model blob.
pub open spec fn model_magic() -> Seq<u8> {
    seq![0x54u8, 0x58u8, 0x4du8, 0x44u8]
}

/// The four magic bytes that open a serialized-engine blob.
pub open spec fn engine_magic() -> Seq<u8> {
    seq![0x54u8, 0x58u8, 0x45u8, 0x4eu8]
}

/// Byte layout of a model blob: the model magic, then the slot table.
pub open spec fn model_blob(slots: Seq<SlotView>) -> Seq<u8> {
    model_magic() + encode_table(slots)
}

/// Byte layout of a serialized-engine blob: the engine magic, then the
/// slot table.
pub open spec fn engine_blob(slots: Seq<SlotView>) -> Seq<u8> {
    engine_magic() + encode_table(slots)
}

/// The meaning of a model byte buffer: its slot table, when the buffer
/// opens with the model magic and carries a well-formed table.
pub open spec fn parse_model_blob(bytes: Seq<u8>) -> Option<Seq<SlotView>> {
    if bytes.len() >= 4 && bytes.subrange(0, 4) == model_magic() {
        parse_table(bytes.skip(4))
    } else {
        None
    }
}

/// The meaning of a serialized-engine byte buffer: its slot table, when
/// the buffer opens with the engine magic and carries a well-formed table.
pub open spec fn parse_engine_blob(bytes: Seq<u8>) -> Option<Seq<SlotView>> {
    if bytes.len() >= 4 && bytes.subrange(0, 4) == engine_magic() {
        parse_table(bytes.skip(4))
    } else {
        None
    }
}

/// Encodes a well-formed slot table behind the given magic bytes.
fn write_tagged(m0: u8, m1: u8, m2: u8, m3: u8, slots: &Vec<TensorSlot>) -> (out: Vec<u8>)
    requires
        wf_slots(slot_views(slots@)),
    ensures
        out@ == seq![m0, m1, m2, m3] + encode_table(slot_views(slots@)),
{
    let mut out: Vec<u8> = Vec::new();
    out.push(m0);
    out.push(m1);
    out.push(m2);
    out.push(m3);
    let mut table = write_table(slots);
    out.append(&mut table);
    proof {
        assert(out@ =~= seq![m0, m1, m2, m3] + encode_table(slot_views(slots@)));
    }
    out
}

/// Decodes a table that stands behind the given magic bytes.
fn read_tagged(m0: u8, m1: u8, m2: u8, m3: u8, bytes: &[u8]) -> (r: Option<Vec<TensorSlot>>)
    ensures
        match r {
            Some(slots) => {
                &&& bytes@.len() >= 4
                &&& bytes@.subrange(0, 4) == seq![m0, m1, m2, m3]
                &&& parse_table(bytes@.skip(4)) == Some(slot_views(slots@))
                &&& wf_slots(slot_views(slots@))
            },
            None => bytes@.len() < 4 || bytes@.subrange(0, 4) != seq![m0, m1, m2, m3]
                || parse_table(bytes@.skip(4)) is None,
        },
{
    if bytes.len() < 4 {
        return None;
    }
    if bytes[0] != m0 || bytes[1] != m1 || bytes[2] != m2 || bytes[3] != m3 {
        proof {
            assert(bytes@.subrange(0, 4)[0] == bytes@[0] && bytes@.subrange(0, 4)[1] == bytes@[1]
                && bytes@.subrange(0, 4)[2] == bytes@[2] && bytes@.subrange(0, 4)[3] == bytes@[3]);
        }
        return None;
    }
    proof {
        assert(bytes@.subrange(0, 4) =~= seq![m0, m1, m2, m3]);
    }
    let rest = &bytes[4..bytes.len()];
    proof {
        assert(rest@ =~= bytes@.skip(4));
    }
    read_table(rest)
}

/// Encodes a well-formed model blob.
pub fn write_model_blob(slots: &Vec<TensorSlot>) -> (out: Vec<u8>)
    requires
        wf_slots(slot_views(slots@)),
    ensures
        out@ == model_blob(slot_views(slots@)),
{
    write_tagged(0x54, 0x58, 0x4d, 0x44, slots)
}

/// Decodes a model blob: its slots when the buffer is well-formed, and
/// nothing otherwise.
pub fn read_model_blob(bytes: &[u8]) -> (r: Option<Vec<TensorSlot>>)
    ensures
        match r {
            Some(slots) => {
                &&& parse_model_blob(bytes@) == Some(slot_views(slots@))
                &&& wf_slots(slot_views(slots@))
            },
            None => parse_model_blob(bytes@) is None,
        },
{
    read_tagged(0x54, 0x58, 0x4d, 0x44, bytes)
}

/// Encodes a well-formed serialized-engine blob.
pub fn write_engine_blob(slots: &Vec<TensorSlot>) -> (out: Vec<u8>)
    requires
        wf_slots(slot_views(slots@)),
    ensures
        out@ == engine_blob(slot_views(slots@)),
{
    write_tagged(0x54, 0x58, 0x45, 0x4e, slots)
}

/// Decodes a serialized-engine blob: its slots when the buffer is
/// well-formed, and nothing otherwise.
pub fn read_engine_blob(bytes: &[u8]) -> (r: Option<Vec<TensorSlot>>)
    ensures
        match r {
            Some(slots) => {
                &&& parse_engine_blob(bytes@) == Some(slot_views(slots@))
                &&& wf_slots(slot_views(slots@))
            },
            None => parse_engine_blob(bytes@) is None,
        },
{
    read_tagged(0x54, 0x58, 0x45, 0x4e, bytes)
}

/// The engine-blob round trip: a well-formed slot table survives encoding
/// into a serialized-engine blob and parsing back unchanged.
pub proof fn lemma_engine_blob_round_trip(slots: Seq<SlotView>)
    requires
        wf_slots(slots),
    ensures
        parse_engine_blob(engine_blob(slots)) == Some(slots),
{
    let bytes = engine_blob(slots);
    assert(bytes.subrange(0, 4) =~= engine_magic());
    assert(bytes.skip(4) =~= encode_table(slots));
    lemma_table_round_trip(slots);
}

/// The model-blob round trip: a well-formed slot table survives encoding
/// into a model blob and parsing back unchanged.
pub proof fn lemma_model_blob_round_trip(slots: Seq<SlotView>)
    requires
        wf_slots(slots),
    ensures
        parse_model_blob(model_blob(slots)) == Some(slots),
{
    let bytes = model_blob(slots);
    assert(bytes.subrange(0, 4) =~= model_magic());
    assert(bytes.skip(4) =~= encode_table(slots));
    lemma_table_round_trip(slots);
}

/// Lays out a sequence of 32-bit values as little-endian bytes, four per
/// value.
pub fn write_le32_values(values: &Vec<u32>) -> (out: Vec<u8>)
    ensures
        out@ == le32_values(values@),
        out@.len() == 4 * values@.len(),
{
    let mut out: Vec<u8> = Vec::new();
    let n = values.len();
    let mut i: usize = 0;
    proof {
        assert(out@ =~= le32_values(values@.take(0)));
    }
    while i < n
        invariant
            i <= n,
            n == values@.len(),
            out@ == le32_values(values@.take(i as int)),
        decreases n - i,
    {
        proof {
            assert(values@.take(i + 1) =~= values@.take(i as int) + seq![values@[i as int]]);
            lemma_le32_values_append(values@.take(i as int), seq![values@[i as int]]);
            lemma_le32_values_one(values@[i as int]);
        }
        push_le32(&mut out, values[i]);
        i = i + 1;
        proof {
            assert(out@ =~= le32_values(values@.take(i as int)));
        }
    }
    proof {
        assert(values@.take(n as int) =~= values@);
        lemma_le32_values_len(values@);
    }
    out
}

/// Reads back a sequence of 32-bit values from their little-endian byte
/// layout.
pub fn read_le32_values(bytes: &Vec<u8>, count: usize) -> (out: Vec<u32>)
    requires
        bytes@.len() == 4 * count,
    ensures
        out@.len() == count,
        forall|i: int|
            0 <= i < count ==> out@[i] == le32_value(
                #[trigger] bytes@.subrange(4 * i, 4 * i + 4),
            ),
{
    let blen = bytes.len();
    let mut out: Vec<u32> = Vec::new();
    let mut i: usize = 0;
    while i < count
        invariant
            i <= count,
            blen == bytes@.len(),
            bytes@.len() == 4 * count,
            out@.len() == i,
            forall|k: int|
                0 <= k < i ==> out@[k] == le32_value(#[trigger] bytes@.subrange(4 * k, 4 * k + 4)),
        decreases count - i,
    {
        let v = read_le32(bytes.as_slice(), 4 * i);
        out.push(v);
        i = i + 1;
    }
    out
}

} // verus!
