//! The tagged-field binary encoding used between the wrapper and the
//! approver agent: base-128 varints, and fields made of a tag
//! (`field_number * 8 + wire_type`) followed by a varint or a
//! length-delimited payload.
use vstd::prelude::*;
use vstd::slice::{slice_subrange, slice_to_vec};

verus! {

/// Longest varint accepted by the reader, in bytes.
pub const MAX_VARINT_LEN: usize = 10;

/// Wire type of a varint field.
pub const WIRE_VARINT: u64 = 0;

/// Wire type of a fixed 64-bit field.
pub const WIRE_FIXED64: u64 = 1;

/// Wire type of a length-delimited field.
pub const WIRE_LEN: u64 = 2;

/// Wire type that opens a group.
pub const WIRE_START_GROUP: u64 = 3;

/// Wire type that closes a group.
pub const WIRE_END_GROUP: u64 = 4;

/// Wire type of a fixed 32-bit field.
pub const WIRE_FIXED32: u64 = 5;

/// The base-128 encoding of `v`, low group first; every byte but the last
/// has its high bit set.
pub open spec fn varint(v: nat) -> Seq<u8>
    decreases v,
{
    if v < 128 {
        seq![v as u8]
    } else {
        seq![(v % 128 + 128) as u8] + varint(v / 128)
    }
}

/// Reads a varint of at most `limit` bytes from the front of `b`: its value
/// and its length. Values above `u64::MAX` are refused.
pub open spec fn varint_at(b: Seq<u8>, limit: nat) -> Option<(nat, nat)>
    decreases limit,
{
    if limit == 0 || b.len() == 0 {
        None
    } else if b[0] < 128 {
        Some((b[0] as nat, 1nat))
    } else {
        match varint_at(b.drop_first(), (limit - 1) as nat) {
            Some((v, n)) => {
                let w = (b[0] - 128) + 128 * v;
                if w <= u64::MAX {
                    Some((w as nat, n + 1))
                } else {
                    None
                }
            },
            None => None,
        }
    }
}

/// Reads a varint from the front of `b`.
pub open spec fn read_varint(b: Seq<u8>) -> Option<(nat, nat)> {
    varint_at(b, MAX_VARINT_LEN as nat)
}

/// A varint read takes at least one byte and no more than there are.
pub proof fn lemma_varint_at_len(b: Seq<u8>, limit: nat)
    ensures
        varint_at(b, limit) matches Some((v, n)) ==> 1 <= n <= b.len() && n <= limit && v
            <= u64::MAX,
    decreases limit,
{
    if limit > 0 && b.len() > 0 && b[0] >= 128 {
        lemma_varint_at_len(b.drop_first(), (limit - 1) as nat);
    }
}

/// A varint read does not look past its own bytes.
pub proof fn lemma_varint_at_prefix(b: Seq<u8>, rest: Seq<u8>, limit: nat)
    requires
        varint_at(b, limit) is Some,
    ensures
        varint_at(b + rest, limit) == varint_at(b, limit),
    decreases limit,
{
    lemma_varint_at_len(b, limit);
    assert((b + rest)[0] == b[0]);
    if b[0] >= 128 {
        assert((b + rest).drop_first() =~= b.drop_first() + rest);
        lemma_varint_at_prefix(b.drop_first(), rest, (limit - 1) as nat);
    }
}

/// Number of base-128 groups needed for a value below `128^k`.
pub open spec fn pow128(k: nat) -> nat
    decreases k,
{
    if k == 0 {
        1
    } else {
        128 * pow128((k - 1) as nat)
    }
}

/// Reading back the encoding of `v` gives `v` and the encoding's length,
/// whatever follows it.
pub proof fn lemma_varint_round_trip(v: nat, rest: Seq<u8>, limit: nat)
    requires
        v <= u64::MAX,
        v < pow128(limit),
        limit > 0,
    ensures
        varint_at(varint(v) + rest, limit) == Some((v, varint(v).len())),
    decreases v,
{
    let b = varint(v) + rest;
    if v < 128 {
        assert(b[0] == v as u8);
    } else {
        let q = v / 128;
        assert(b[0] == (v % 128 + 128) as u8);
        assert(b.drop_first() =~= varint(q) + rest);
        assert(limit > 0) by {
            if limit == 0 {
                assert(v < 1);
            }
        }
        assert(q < pow128((limit - 1) as nat)) by (nonlinear_arith)
            requires
                v < 128 * pow128((limit - 1) as nat),
                q == v / 128,
        ;
        assert(limit - 1 > 0) by {
            if limit == 1 {
                assert(q < 1);
            }
        }
        lemma_varint_round_trip(q, rest, (limit - 1) as nat);
        assert((b[0] - 128) + 128 * q == v);
    }
}

/// Every 64-bit value fits in the longest varint the reader accepts.
pub proof fn lemma_u64_below_pow128()
    ensures
        u64::MAX < pow128(MAX_VARINT_LEN as nat),
{
    reveal_with_fuel(pow128, 11);
}

/// Reading back the encoding of a 64-bit value.
pub proof fn lemma_read_varint(v: nat, rest: Seq<u8>)
    requires
        v <= u64::MAX,
    ensures
        read_varint(varint(v) + rest) == Some((v, varint(v).len())),
{
    lemma_u64_below_pow128();
    lemma_varint_round_trip(v, rest, MAX_VARINT_LEN as nat);
}

/// Appends the varint encoding of `v` to `out`.
pub fn push_varint(out: &mut Vec<u8>, v: u64)
    ensures
        final(out)@ == old(out)@ + varint(v as nat),
{
    let mut x: u64 = v;
    while x >= 128
        invariant
            old(out)@ + varint(v as nat) == out@ + varint(x as nat),
        decreases x,
    {
        let byte: u8 = (x % 128 + 128) as u8;
        let ghost before = out@;
        out.push(byte);
        assert(varint(x as nat) == seq![byte] + varint((x / 128) as nat));
        assert(before + varint(x as nat) =~= out@ + varint((x / 128) as nat));
        x = x / 128;
    }
    let ghost before = out@;
    out.push(x as u8);
    assert(before + varint(x as nat) =~= out@);
}

/// Reads a varint of at most `limit` bytes from `b` at `pos`.
fn read_varint_at(b: &[u8], pos: usize, limit: usize) -> (r: Option<(u64, usize)>)
    requires
        pos <= b@.len(),
    ensures
        match r {
            Some((v, n)) => varint_at(b@.skip(pos as int), limit as nat) == Some((v as nat, n as nat)),
            None => varint_at(b@.skip(pos as int), limit as nat) is None,
        },
    decreases limit,
{
    let ghost s = b@.skip(pos as int);
    if limit == 0 || pos == b.len() {
        return None;
    }
    let first = b[pos];
    if first < 128 {
        return Some((first as u64, 1));
    }
    assert(s.drop_first() =~= b@.skip(pos + 1));
    match read_varint_at(b, pos + 1, limit - 1) {
        Some((v, n)) => {
            let low: u64 = (first - 128) as u64;
            if v <= (u64::MAX - low) / 128 {
                assert(low + 128 * v <= u64::MAX) by (nonlinear_arith)
                    requires
                        v <= (u64::MAX - low) / 128,
                        low < 128,
                ;
                proof {
                    lemma_varint_at_len(s.drop_first(), (limit - 1) as nat);
                }
                Some((low + 128 * v, n + 1))
            } else {
                assert(low + 128 * v > u64::MAX) by (nonlinear_arith)
                    requires
                        v > (u64::MAX - low) / 128,
                        low < 128,
                ;
                None
            }
        },
        None => None,
    }
}

/// Reads a varint from `b` at `pos`.
pub fn read_varint_from(b: &[u8], pos: usize) -> (r: Option<(u64, usize)>)
    requires
        pos <= b@.len(),
    ensures
        match r {
            Some((v, n)) => read_varint(b@.skip(pos as int)) == Some((v as nat, n as nat)),
            None => read_varint(b@.skip(pos as int)) is None,
        },
{
    read_varint_at(b, pos, MAX_VARINT_LEN)
}

/// The value of one field as read from the wire.
pub enum WireValue {
    Varint(nat),
    Bytes(Seq<u8>),
    /// A fixed-width value or a group; its bytes are skipped.
    Skipped,
}

/// How many bytes the value after a tag of wire type `wt` takes at the
/// front of `b`; group starts and ends carry no value.
pub open spec fn value_len(wt: nat, b: Seq<u8>) -> Option<nat> {
    if wt == WIRE_VARINT {
        match read_varint(b) {
            Some((v, m)) => Some(m),
            None => None,
        }
    } else if wt == WIRE_LEN {
        match read_varint(b) {
            Some((len, m)) => if m + len <= b.len() {
                Some(m + len)
            } else {
                None
            },
            None => None,
        }
    } else if wt == WIRE_FIXED64 {
        if 8 <= b.len() {
            Some(8)
        } else {
            None
        }
    } else if wt == WIRE_FIXED32 {
        if 4 <= b.len() {
            Some(4)
        } else {
            None
        }
    } else if wt == WIRE_START_GROUP || wt == WIRE_END_GROUP {
        Some(0)
    } else {
        None
    }
}

/// A value takes no more bytes than there are.
pub proof fn lemma_value_len(wt: nat, b: Seq<u8>)
    ensures
        value_len(wt, b) matches Some(k) ==> k <= b.len(),
{
    lemma_varint_at_len(b, MAX_VARINT_LEN as nat);
}

/// A value read does not look past its own bytes.
pub proof fn lemma_value_len_prefix(wt: nat, b: Seq<u8>, rest: Seq<u8>)
    requires
        value_len(wt, b) is Some,
    ensures
        value_len(wt, b + rest) == value_len(wt, b),
{
    if wt == WIRE_VARINT || wt == WIRE_LEN {
        lemma_varint_at_prefix(b, rest, MAX_VARINT_LEN as nat);
    }
}

/// How many bytes it takes to close `depth` open groups, skipping every
/// field inside them, nested groups included.
pub open spec fn group_end(b: Seq<u8>, depth: nat) -> Option<nat>
    decreases b.len(),
{
    if depth == 0 {
        Some(0)
    } else {
        match read_varint(b) {
            None => None,
            Some((tag, n)) => if tag / 8 == 0 || tag > u32::MAX {
                None
            } else {
                match value_len((tag % 8) as nat, b.skip(n as int)) {
                    None => None,
                    Some(k) => {
                        proof {
                            lemma_varint_at_len(b, MAX_VARINT_LEN as nat);
                            lemma_value_len((tag % 8) as nat, b.skip(n as int));
                        }
                        let d = if tag % 8 == WIRE_START_GROUP {
                            depth + 1
                        } else if tag % 8 == WIRE_END_GROUP {
                            (depth - 1) as nat
                        } else {
                            depth
                        };
                        match group_end(b.skip((n + k) as int), d) {
                            Some(j) => Some(n + k + j),
                            None => None,
                        }
                    },
                }
            },
        }
    }
}

/// Closing groups takes no more bytes than there are.
pub proof fn lemma_group_end_len(b: Seq<u8>, depth: nat)
    ensures
        group_end(b, depth) matches Some(k) ==> k <= b.len(),
    decreases b.len(),
{
    if depth > 0 {
        lemma_varint_at_len(b, MAX_VARINT_LEN as nat);
        if let Some((tag, n)) = read_varint(b) {
            lemma_value_len((tag % 8) as nat, b.skip(n as int));
            if let Some(k) = value_len((tag % 8) as nat, b.skip(n as int)) {
                let d = if tag % 8 == WIRE_START_GROUP {
                    depth + 1
                } else if tag % 8 == WIRE_END_GROUP {
                    (depth - 1) as nat
                } else {
                    depth
                };
                lemma_group_end_len(b.skip((n + k) as int), d);
            }
        }
    }
}

/// Closing groups does not look past the bytes it takes.
pub proof fn lemma_group_end_prefix(b: Seq<u8>, rest: Seq<u8>, depth: nat)
    requires
        group_end(b, depth) is Some,
    ensures
        group_end(b + rest, depth) == group_end(b, depth),
    decreases b.len(),
{
    if depth > 0 {
        lemma_varint_at_len(b, MAX_VARINT_LEN as nat);
        lemma_varint_at_prefix(b, rest, MAX_VARINT_LEN as nat);
        let (tag, n) = read_varint(b)->Some_0;
        let wt = (tag % 8) as nat;
        assert((b + rest).skip(n as int) =~= b.skip(n as int) + rest);
        lemma_value_len(wt, b.skip(n as int));
        lemma_value_len_prefix(wt, b.skip(n as int), rest);
        let k = value_len(wt, b.skip(n as int))->Some_0;
        let d = if tag % 8 == WIRE_START_GROUP {
            depth + 1
        } else if tag % 8 == WIRE_END_GROUP {
            (depth - 1) as nat
        } else {
            depth
        };
        assert((b + rest).skip((n + k) as int) =~= b.skip((n + k) as int) + rest);
        lemma_group_end_prefix(b.skip((n + k) as int), rest, d);
    }
}

/// Reads one field from the front of `b`: its tag, its value and how many
/// bytes it takes. A group is skipped whole. Field number 0, tags above 32
/// bits, a group end with no group open, unknown wire types and values
/// that run past the end are refused.
pub open spec fn field_at(b: Seq<u8>) -> Option<(nat, WireValue, nat)> {
    match read_varint(b) {
        None => None,
        Some((tag, n)) => {
            let rest = b.skip(n as int);
            if tag / 8 == 0 || tag > u32::MAX {
                None
            } else if tag % 8 == WIRE_VARINT {
                match read_varint(rest) {
                    Some((v, m)) => Some((tag, WireValue::Varint(v), n + m)),
                    None => None,
                }
            } else if tag % 8 == WIRE_LEN {
                match read_varint(rest) {
                    Some((len, m)) => if m + len <= rest.len() {
                        Some((tag, WireValue::Bytes(rest.subrange(m as int, (m + len) as int)), n + m + len))
                    } else {
                        None
                    },
                    None => None,
                }
            } else if tag % 8 == WIRE_START_GROUP {
                match group_end(rest, 1) {
                    Some(k) => Some((tag, WireValue::Skipped, n + k)),
                    None => None,
                }
            } else if tag % 8 == WIRE_FIXED64 {
                if 8 <= rest.len() {
                    Some((tag, WireValue::Skipped, n + 8))
                } else {
                    None
                }
            } else if tag % 8 == WIRE_FIXED32 {
                if 4 <= rest.len() {
                    Some((tag, WireValue::Skipped, n + 4))
                } else {
                    None
                }
            } else {
                None
            }
        },
    }
}

/// A field read takes at least one byte and no more than there are.
pub proof fn lemma_field_at_len(b: Seq<u8>)
    ensures
        field_at(b) matches Some((t, v, n)) ==> 1 <= n <= b.len(),
{
    lemma_varint_at_len(b, MAX_VARINT_LEN as nat);
    if let Some((tag, n)) = read_varint(b) {
        lemma_varint_at_len(b.skip(n as int), MAX_VARINT_LEN as nat);
        lemma_group_end_len(b.skip(n as int), 1);
    }
}

/// A field read does not look past its own bytes.
pub proof fn lemma_field_at_prefix(b: Seq<u8>, rest: Seq<u8>)
    requires
        field_at(b) is Some,
    ensures
        field_at(b + rest) == field_at(b),
{
    lemma_varint_at_len(b, MAX_VARINT_LEN as nat);
    lemma_varint_at_prefix(b, rest, MAX_VARINT_LEN as nat);
    let (tag, n) = read_varint(b)->Some_0;
    let after = b.skip(n as int);
    assert((b + rest).skip(n as int) =~= after + rest);
    if tag % 8 == WIRE_VARINT || tag % 8 == WIRE_LEN {
        lemma_varint_at_len(after, MAX_VARINT_LEN as nat);
        lemma_varint_at_prefix(after, rest, MAX_VARINT_LEN as nat);
        if tag % 8 == WIRE_LEN {
            let (len, m) = read_varint(after)->Some_0;
            let end = (m + len) as int;
            assert((after + rest).subrange(m as int, end) =~= after.subrange(m as int, end));
        }
    }
    if tag % 8 == WIRE_START_GROUP {
        lemma_group_end_prefix(after, rest, 1);
    }
}

/// Splits `b` into its fields, front to back.
pub open spec fn fields(b: Seq<u8>) -> Option<Seq<(nat, WireValue)>>
    decreases b.len(),
{
    if b.len() == 0 {
        Some(seq![])
    } else {
        match field_at(b) {
            None => None,
            Some((t, v, n)) => {
                proof {
                    lemma_field_at_len(b);
                }
                match fields(b.skip(n as int)) {
                    Some(fs) => Some(seq![(t, v)] + fs),
                    None => None,
                }
            },
        }
    }
}

/// The fields of two byte strings put end to end are the fields of the
/// first followed by those of the second.
pub proof fn lemma_fields_concat(a: Seq<u8>, b: Seq<u8>)
    requires
        fields(a) is Some,
        fields(b) is Some,
    ensures
        fields(a + b) == Some(fields(a)->Some_0 + fields(b)->Some_0),
    decreases a.len(),
{
    if a.len() == 0 {
        assert(a + b =~= b);
        assert(fields(a)->Some_0 + fields(b)->Some_0 =~= fields(b)->Some_0);
    } else {
        lemma_field_at_len(a);
        lemma_field_at_prefix(a, b);
        let (t, v, n) = field_at(a)->Some_0;
        assert((a + b).skip(n as int) =~= a.skip(n as int) + b);
        lemma_fields_concat(a.skip(n as int), b);
        assert(seq![(t, v)] + (fields(a.skip(n as int))->Some_0 + fields(b)->Some_0)
            =~= (seq![(t, v)] + fields(a.skip(n as int))->Some_0) + fields(b)->Some_0);
    }
}

/// The tag of a field: its number and its wire type.
pub open spec fn tag_of(field: nat, wire_type: u64) -> nat {
    (field * 8 + wire_type) as nat
}

/// The encoding of a varint field.
pub open spec fn varint_field(field: nat, v: nat) -> Seq<u8> {
    varint(tag_of(field, WIRE_VARINT)) + varint(v)
}

/// The encoding of a length-delimited field.
pub open spec fn len_field(field: nat, payload: Seq<u8>) -> Seq<u8> {
    varint(tag_of(field, WIRE_LEN)) + varint(payload.len()) + payload
}

/// A field number that a tag can carry.
pub open spec fn valid_field_number(field: nat) -> bool {
    1 <= field && field * 8 + 7 <= u32::MAX
}

/// A varint field reads back as itself.
pub proof fn lemma_varint_field(field: nat, v: nat)
    requires
        valid_field_number(field),
        v <= u64::MAX,
    ensures
        fields(varint_field(field, v)) == Some(seq![(tag_of(field, WIRE_VARINT), WireValue::Varint(v))]),
{
    let b = varint_field(field, v);
    let tag = tag_of(field, WIRE_VARINT);
    lemma_read_varint(tag, varint(v));
    assert(b.skip(varint(tag).len() as int) =~= varint(v) + seq![]);
    lemma_read_varint(v, seq![]);
    assert(tag / 8 == field && tag % 8 == WIRE_VARINT);
    assert(field_at(b) == Some((tag, WireValue::Varint(v), b.len())));
    assert(b.skip(b.len() as int) =~= Seq::<u8>::empty());
    assert(fields(Seq::<u8>::empty()) == Some(Seq::<(nat, WireValue)>::empty()));
    let only = seq![(tag, WireValue::Varint(v))];
    assert(only + Seq::<(nat, WireValue)>::empty() =~= only);
}

/// A length-delimited field reads back as itself.
pub proof fn lemma_len_field(field: nat, payload: Seq<u8>)
    requires
        valid_field_number(field),
        payload.len() <= u64::MAX,
    ensures
        fields(len_field(field, payload)) == Some(seq![(tag_of(field, WIRE_LEN), WireValue::Bytes(payload))]),
{
    let b = len_field(field, payload);
    let tag = tag_of(field, WIRE_LEN);
    let n = varint(tag).len();
    assert(b =~= varint(tag) + (varint(payload.len()) + payload));
    lemma_read_varint(tag, varint(payload.len()) + payload);
    let rest = b.skip(n as int);
    assert(rest =~= varint(payload.len()) + payload);
    lemma_read_varint(payload.len(), payload);
    assert(tag / 8 == field && tag % 8 == WIRE_LEN);
    let m = varint(payload.len()).len();
    assert(rest.subrange(m as int, (m + payload.len()) as int) =~= payload);
    assert(field_at(b) == Some((tag, WireValue::Bytes(payload), b.len())));
    assert(b.skip(b.len() as int) =~= Seq::<u8>::empty());
    assert(fields(Seq::<u8>::empty()) == Some(Seq::<(nat, WireValue)>::empty()));
    let only = seq![(tag, WireValue::Bytes(payload))];
    assert(only + Seq::<(nat, WireValue)>::empty() =~= only);
}

/// The value of a field read from a buffer.
#[derive(Debug, Clone, PartialEq, Eq)]
pub enum FieldValue {
    Varint(u64),
    Bytes(Vec<u8>),
    Skipped,
}

/// A field read from a buffer: its tag and its value.
#[derive(Debug, Clone, PartialEq, Eq)]
pub struct Field {
    pub tag: u64,
    pub value: FieldValue,
}

impl View for Field {
    type V = (nat, WireValue);

    open spec fn view(&self) -> (nat, WireValue) {
        (
            self.tag as nat,
            match self.value {
                FieldValue::Varint(v) => WireValue::Varint(v as nat),
                FieldValue::Bytes(p) => WireValue::Bytes(p@),
                FieldValue::Skipped => WireValue::Skipped,
            },
        )
    }
}

/// How many bytes the value after a tag of wire type `wt` takes in `b` at
/// `pos`.
fn read_value_len(wt: u64, b: &[u8], pos: usize) -> (r: Option<usize>)
    requires
        pos <= b@.len(),
        wt < 8,
    ensures
        match r {
            Some(k) => value_len(wt as nat, b@.skip(pos as int)) == Some(k as nat),
            None => value_len(wt as nat, b@.skip(pos as int)) is None,
        },
{
    let end_of_input = b.len();
    proof {
        lemma_varint_at_len(b@.skip(pos as int), MAX_VARINT_LEN as nat);
    }
    if wt == WIRE_VARINT {
        match read_varint_from(b, pos) {
            Some((v, m)) => Some(m),
            None => None,
        }
    } else if wt == WIRE_LEN {
        match read_varint_from(b, pos) {
            Some((len, m)) => {
                if len > (end_of_input - pos - m) as u64 {
                    None
                } else {
                    Some(m + len as usize)
                }
            },
            None => None,
        }
    } else if wt == WIRE_FIXED64 {
        if end_of_input - pos >= 8 {
            Some(8)
        } else {
            None
        }
    } else if wt == WIRE_FIXED32 {
        if end_of_input - pos >= 4 {
            Some(4)
        } else {
            None
        }
    } else if wt == WIRE_START_GROUP || wt == WIRE_END_GROUP {
        Some(0)
    } else {
        None
    }
}

/// Skips the rest of a group whose start tag ends at `pos`: the position
/// after its end tag.
fn skip_group(b: &[u8], pos: usize) -> (r: Option<usize>)
    requires
        1 <= pos <= b@.len(),
    ensures
        match r {
            Some(end) => group_end(b@.skip(pos as int), 1) == Some((end - pos) as nat) && pos
                <= end <= b@.len(),
            None => group_end(b@.skip(pos as int), 1) is None,
        },
{
    let end_of_input = b.len();
    let mut p: usize = pos;
    let mut depth: usize = 1;
    while depth > 0
        invariant
            1 <= pos <= p <= b@.len(),
            end_of_input == b@.len(),
            depth <= p - pos + 1,
            group_end(b@.skip(pos as int), 1) == match group_end(b@.skip(p as int), depth as nat) {
                Some(j) => Some(((p - pos) + j) as nat),
                None => None,
            },
        decreases b@.len() - p,
    {
        let ghost s = b@.skip(p as int);
        proof {
            lemma_varint_at_len(s, MAX_VARINT_LEN as nat);
        }
        let (tag, n) = match read_varint_from(b, p) {
            Some(x) => x,
            None => return None,
        };
        if tag / 8 == 0 || tag > 0xffff_ffff {
            return None;
        }
        let wt = tag % 8;
        assert(s.skip(n as int) =~= b@.skip(p + n));
        let k = match read_value_len(wt, b, p + n) {
            Some(k) => k,
            None => return None,
        };
        proof {
            lemma_value_len(wt as nat, b@.skip(p + n));
        }
        assert(s.skip(n + k) =~= b@.skip(p + n + k));
        if wt == WIRE_START_GROUP {
            depth = depth + 1;
        } else if wt == WIRE_END_GROUP {
            depth = depth - 1;
        }
        p = p + n + k;
    }
    Some(p)
}

/// Reads the field of `b` that starts at `pos`, and the position after it.
pub fn read_field(b: &[u8], pos: usize) -> (r: Option<(Field, usize)>)
    requires
        pos <= b@.len(),
    ensures
        match r {
            Some((f, next)) => field_at(b@.skip(pos as int)) == Some((f@.0, f@.1, (next - pos) as nat))
                && pos < next <= b@.len(),
            None => field_at(b@.skip(pos as int)) is None,
        },
{
    let ghost s = b@.skip(pos as int);
    proof {
        lemma_field_at_len(s);
    }
    let (tag, n) = match read_varint_from(b, pos) {
        Some(x) => x,
        None => return None,
    };
    proof {
        lemma_varint_at_len(s, MAX_VARINT_LEN as nat);
    }
    let end_of_input = b.len();
    let after = pos + n;
    assert(s.skip(n as int) =~= b@.skip(after as int));
    if tag / 8 == 0 || tag > 0xffff_ffff {
        return None;
    }
    let wire = tag % 8;
    if wire == WIRE_VARINT {
        match read_varint_from(b, after) {
            Some((v, m)) => {
                proof {
                    lemma_varint_at_len(b@.skip(after as int), MAX_VARINT_LEN as nat);
                }
                Some((Field { tag, value: FieldValue::Varint(v) }, after + m))
            },
            None => None,
        }
    } else if wire == WIRE_LEN {
        match read_varint_from(b, after) {
            Some((len, m)) => {
                proof {
                    lemma_varint_at_len(b@.skip(after as int), MAX_VARINT_LEN as nat);
                }
                let start = after + m;
                if len > (end_of_input - start) as u64 {
                    return None;
                }
                let end = start + len as usize;
                let payload = slice_to_vec(slice_subrange(b, start, end));
                assert(payload@ =~= b@.skip(after as int).subrange(m as int, (m + len) as int));
                Some((Field { tag, value: FieldValue::Bytes(payload) }, end))
            },
            None => None,
        }
    } else if wire == WIRE_START_GROUP {
        match skip_group(b, after) {
            Some(end) => Some((Field { tag, value: FieldValue::Skipped }, end)),
            None => None,
        }
    } else if wire == WIRE_FIXED64 {
        if end_of_input - after >= 8 {
            Some((Field { tag, value: FieldValue::Skipped }, after + 8))
        } else {
            None
        }
    } else if wire == WIRE_FIXED32 {
        if end_of_input - after >= 4 {
            Some((Field { tag, value: FieldValue::Skipped }, after + 4))
        } else {
            None
        }
    } else {
        None
    }
}

/// Views of a sequence of fields.
pub open spec fn field_views(fs: Seq<Field>) -> Seq<(nat, WireValue)> {
    fs.map_values(|f: Field| f@)
}

/// Splits `b` into its fields.
pub fn parse_fields(b: &[u8]) -> (r: Option<Vec<Field>>)
    ensures
        match r {
            Some(fs) => fields(b@) == Some(field_views(fs@)),
            None => fields(b@) is None,
        },
{
    let mut out: Vec<Field> = Vec::new();
    let mut pos: usize = 0;
    assert(b@.skip(0) =~= b@);
    while pos < b.len()
        invariant
            pos <= b@.len(),
            fields(b@) == match fields(b@.skip(pos as int)) {
                Some(rest) => Some(field_views(out@) + rest),
                None => None,
            },
        decreases b@.len() - pos,
    {
        let ghost s = b@.skip(pos as int);
        match read_field(b, pos) {
            Some((f, next)) => {
                assert(s.skip((next - pos) as int) =~= b@.skip(next as int));
                let ghost old_out = out@;
                out.push(f);
                assert(field_views(out@) =~= field_views(old_out) + seq![f@]);
                proof {
                    if let Some(rest) = fields(b@.skip(next as int)) {
                        assert(field_views(old_out) + (seq![f@] + rest) =~= field_views(out@)
                            + rest);
                    }
                }
                pos = next;
            },
            None => {
                return None;
            },
        }
    }
    assert(b@.skip(pos as int) =~= Seq::<u8>::empty());
    assert(field_views(out@) + Seq::<(nat, WireValue)>::empty() =~= field_views(out@));
    Some(out)
}

/// Appends `bytes` to `out`.
pub fn push_bytes(out: &mut Vec<u8>, bytes: &[u8])
    ensures
        final(out)@ == old(out)@ + bytes@,
{
    let mut i: usize = 0;
    while i < bytes.len()
        invariant
            0 <= i <= bytes@.len(),
            out@ == old(out)@ + bytes@.take(i as int),
        decreases bytes@.len() - i,
    {
        out.push(bytes[i]);
        assert(bytes@.take(i + 1) =~= bytes@.take(i as int) + seq![bytes@[i as int]]);
        i = i + 1;
    }
    assert(bytes@.take(i as int) =~= bytes@);
}

/// Appends a varint field to `out`.
pub fn push_varint_field(out: &mut Vec<u8>, field: u64, v: u64)
    requires
        valid_field_number(field as nat),
    ensures
        final(out)@ == old(out)@ + varint_field(field as nat, v as nat),
{
    push_varint(out, field * 8 + WIRE_VARINT);
    push_varint(out, v);
    assert(final(out)@ =~= old(out)@ + varint_field(field as nat, v as nat));
}

/// Appends a length-delimited field to `out`.
pub fn push_len_field(out: &mut Vec<u8>, field: u64, payload: &[u8])
    requires
        valid_field_number(field as nat),
    ensures
        final(out)@ == old(out)@ + len_field(field as nat, payload@),
{
    push_varint(out, field * 8 + WIRE_LEN);
    push_varint(out, payload.len() as u64);
    push_bytes(out, payload);
    assert(final(out)@ =~= old(out)@ + len_field(field as nat, payload@));
}

} // verus!
