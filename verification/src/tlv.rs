//! Records of type, length and value, the format in which objects are persisted.
//!
//! Numbers that give a type or a length take one, three, five or nine bytes, always as few as
//! possible. The types of a stream ascend. A reader skips odd types it does not know and refuses
//! even ones.
use vstd::prelude::*;

verus! {

/// The number that big-endian bytes stand for.
pub open spec fn be(b: Seq<u8>) -> nat
    decreases b.len(),
{
    if b.len() == 0 {
        0
    } else {
        be(b.drop_last()) * 256 + b.last() as nat
    }
}

/// The `len` big-endian bytes of a number.
pub open spec fn be_bytes(n: nat, len: nat) -> Seq<u8>
    decreases len,
{
    if len == 0 {
        Seq::empty()
    } else {
        be_bytes(n / 256, (len - 1) as nat).push((n % 256) as u8)
    }
}

/// How many numbers `n` bytes can tell apart.
pub open spec fn pow256(n: nat) -> nat
    decreases n,
{
    if n == 0 {
        1
    } else {
        256 * pow256((n - 1) as nat)
    }
}

/// The bytes of a number stand for it, if they are enough.
pub proof fn law_be_round_trip(n: nat, len: nat)
    requires
        n < pow256(len),
    ensures
        be_bytes(n, len).len() == len,
        be(be_bytes(n, len)) == n,
    decreases len,
{
    if len > 0 {
        assert(pow256(len) == 256 * pow256((len - 1) as nat));
        assert(n / 256 < pow256((len - 1) as nat));
        law_be_round_trip(n / 256, (len - 1) as nat);
        let b = be_bytes(n, len);
        assert(b.drop_last() =~= be_bytes(n / 256, (len - 1) as nat));
    }
}

pub(crate) proof fn lemma_be_bytes_len(n: nat, len: nat)
    ensures
        be_bytes(n, len).len() == len,
    decreases len,
{
    if len > 0 {
        lemma_be_bytes_len(n / 256, (len - 1) as nat);
    }
}

proof fn lemma_be_bound(b: Seq<u8>)
    ensures
        be(b) < pow256(b.len()),
    decreases b.len(),
{
    if b.len() > 0 {
        lemma_be_bound(b.drop_last());
        assert(pow256(b.len()) == 256 * pow256((b.len() - 1) as nat));
    }
}

pub(crate) proof fn lemma_powers()
    ensures
        pow256(0) == 1,
        pow256(1) == 0x100,
        pow256(2) == 0x1_0000,
        pow256(4) == 0x1_0000_0000,
        pow256(8) == 0x1_0000_0000_0000_0000,
        pow256(16) == 0x1_0000_0000_0000_0000_0000_0000_0000_0000,
{
    reveal_with_fuel(pow256, 17);
}

proof fn lemma_pow_monotonic(a: nat, b: nat)
    requires
        a <= b,
    ensures
        0 < pow256(a) <= pow256(b),
    decreases b,
{
    if b > 0 {
        if a < b {
            lemma_pow_monotonic(a, (b - 1) as nat);
        } else {
            lemma_pow_monotonic((a - 1) as nat, (b - 1) as nat);
        }
        assert(pow256(b) == 256 * pow256((b - 1) as nat));
        if a > 0 && a == b {
            assert(pow256(a) == 256 * pow256((a - 1) as nat));
        }
    }
}

/// Appends the `len` big-endian bytes of a number.
pub fn push_be(out: &mut Vec<u8>, n: u128, len: usize)
    ensures
        final(out)@ == old(out)@ + be_bytes(n as nat, len as nat),
    decreases len,
{
    if len == 0 {
        assert(out@ =~= old(out)@ + be_bytes(n as nat, 0));
    } else {
        push_be(out, n / 256, len - 1);
        out.push((n % 256) as u8);
        assert(out@ =~= old(out)@ + be_bytes(n as nat, len as nat));
    }
}

/// Reads big-endian bytes.
pub fn read_be(b: &[u8], from: usize, len: usize) -> (n: u128)
    requires
        from + len <= b@.len(),
        len <= 16,
    ensures
        n == be(b@.subrange(from as int, from + len)),
        n < pow256(len as nat),
{
    let total: usize = b.len();
    let mut n: u128 = 0;
    let mut i: usize = 0;
    proof {
        lemma_powers();
        assert(b@.subrange(from as int, from as int) =~= Seq::<u8>::empty());
    }
    while i < len
        invariant
            i <= len,
            len <= 16,
            total == b@.len(),
            from + len <= total,
            n == be(b@.subrange(from as int, from + i)),
        decreases len - i,
    {
        proof {
            let next = b@.subrange(from as int, from + i + 1);
            assert(next.drop_last() =~= b@.subrange(from as int, from + i));
            lemma_be_bound(next);
            lemma_pow_monotonic((i + 1) as nat, 16);
            lemma_powers();
            assert(be(next) == n * 256 + b@[from + i] as nat);
        }
        n = n * 256 + b[from + i] as u128;
        i += 1;
    }
    proof {
        lemma_be_bound(b@.subrange(from as int, from + len));
    }
    n
}

/// The shortest encoding of a number.
pub open spec fn big_size(n: u64) -> Seq<u8> {
    if n < 0xfd {
        seq![n as u8]
    } else if n < 0x1_0000 {
        seq![0xfdu8] + be_bytes(n as nat, 2)
    } else if n < 0x1_0000_0000 {
        seq![0xfeu8] + be_bytes(n as nat, 4)
    } else {
        seq![0xffu8] + be_bytes(n as nat, 8)
    }
}

/// A number at the start of some bytes, and how many bytes it takes.
pub open spec fn read_big_size(b: Seq<u8>) -> Option<(u64, int)> {
    if b.len() == 0 {
        None
    } else if b[0] < 0xfd {
        Some((b[0] as u64, 1))
    } else {
        let len: int = if b[0] == 0xfd {
            2
        } else if b[0] == 0xfe {
            4
        } else {
            8
        };
        let least: int = if b[0] == 0xfd {
            0xfd
        } else if b[0] == 0xfe {
            0x1_0000
        } else {
            0x1_0000_0000
        };
        if b.len() < 1 + len {
            None
        } else {
            let x = be(b.subrange(1, 1 + len));
            if x < least {
                None
            } else {
                Some((x as u64, 1 + len))
            }
        }
    }
}

/// A number is read back from the start of any bytes that begin with its encoding.
pub proof fn law_big_size_round_trip(n: u64, rest: Seq<u8>)
    ensures
        read_big_size(big_size(n) + rest) == Some((n, big_size(n).len() as int)),
{
    let b = big_size(n) + rest;
    lemma_powers();
    if n >= 0xfd {
        let len: nat = if n < 0x1_0000 {
            2
        } else if n < 0x1_0000_0000 {
            4
        } else {
            8
        };
        law_be_round_trip(n as nat, len);
        assert(b.subrange(1, 1 + len as int) =~= be_bytes(n as nat, len));
    }
}

/// Appends the shortest encoding of a number.
pub fn push_big_size(out: &mut Vec<u8>, n: u64)
    ensures
        final(out)@ == old(out)@ + big_size(n),
{
    if n < 0xfd {
        out.push(n as u8);
    } else if n < 0x1_0000 {
        out.push(0xfd);
        push_be(out, n as u128, 2);
    } else if n < 0x1_0000_0000 {
        out.push(0xfe);
        push_be(out, n as u128, 4);
    } else {
        out.push(0xff);
        push_be(out, n as u128, 8);
    }
    assert(out@ =~= old(out)@ + big_size(n));
}

/// Reads a number at a position, and how many bytes it takes.
pub fn parse_big_size(b: &[u8], from: usize) -> (read: Option<(u64, usize)>)
    requires
        from <= b@.len(),
    ensures
        match read {
            Some((n, len)) => {
                &&& read_big_size(b@.skip(from as int)) == Some((n, len as int))
                &&& from + len <= b@.len()
                &&& len > 0
            },
            None => read_big_size(b@.skip(from as int)) is None,
        },
{
    let ghost s = b@.skip(from as int);
    if from == b.len() {
        return None;
    }
    let first: u8 = b[from];
    assert(s[0] == first);
    if first < 0xfd {
        return Some((first as u64, 1));
    }
    let len: usize = if first == 0xfd {
        2
    } else if first == 0xfe {
        4
    } else {
        8
    };
    let least: u128 = if first == 0xfd {
        0xfd
    } else if first == 0xfe {
        0x1_0000
    } else {
        0x1_0000_0000
    };
    if b.len() - from < 1 + len {
        return None;
    }
    let x: u128 = read_be(b, from + 1, len);
    proof {
        assert(s.subrange(1, 1 + len as int) =~= b@.subrange(from + 1, from + 1 + len));
        lemma_powers();
    }
    if x < least {
        None
    } else {
        Some((x as u64, 1 + len))
    }
}

/// One record.
pub open spec fn tlv_record(typ: u64, value: Seq<u8>) -> Seq<u8> {
    big_size(typ) + big_size(value.len() as u64) + value
}

/// Records one after the other.
pub open spec fn tlv_stream(records: Seq<(u64, Seq<u8>)>) -> Seq<u8>
    decreases records.len(),
{
    if records.len() == 0 {
        Seq::empty()
    } else {
        tlv_record(records[0].0, records[0].1) + tlv_stream(records.skip(1))
    }
}

/// Appending a record appends its bytes.
pub(crate) proof fn lemma_stream_push(records: Seq<(u64, Seq<u8>)>, record: (u64, Seq<u8>))
    ensures
        tlv_stream(records.push(record)) == tlv_stream(records) + tlv_record(record.0, record.1),
    decreases records.len(),
{
    if records.len() == 0 {
        reveal_with_fuel(tlv_stream, 2);
        assert(records.push(record).skip(1) =~= Seq::<(u64, Seq<u8>)>::empty());
        assert(tlv_stream(records.push(record)) =~= tlv_record(record.0, record.1));
        assert(tlv_stream(records) + tlv_record(record.0, record.1) =~= tlv_record(
            record.0,
            record.1,
        ));
    } else {
        lemma_stream_push(records.skip(1), record);
        assert(records.push(record).skip(1) =~= records.skip(1).push(record));
        assert(tlv_stream(records.push(record)) =~= tlv_stream(records) + tlv_record(
            record.0,
            record.1,
        ));
    }
}

/// A bound on the length of some records.
pub open spec fn total_len(records: Seq<(u64, Seq<u8>)>) -> nat
    decreases records.len(),
{
    if records.len() == 0 {
        0
    } else {
        18 + records[0].1.len() + total_len(records.skip(1))
    }
}

pub(crate) proof fn lemma_stream_len(records: Seq<(u64, Seq<u8>)>)
    ensures
        tlv_stream(records).len() <= total_len(records),
    decreases records.len(),
{
    if records.len() > 0 {
        lemma_stream_len(records.skip(1));
        let typ = records[0].0;
        let len = records[0].1.len() as u64;
        lemma_be_bytes_len(typ as nat, 2);
        lemma_be_bytes_len(typ as nat, 4);
        lemma_be_bytes_len(typ as nat, 8);
        lemma_be_bytes_len(len as nat, 2);
        lemma_be_bytes_len(len as nat, 4);
        lemma_be_bytes_len(len as nat, 8);
    }
}

/// The record at the start of some bytes: its type, its value, and how many bytes it takes.
pub open spec fn read_record(b: Seq<u8>) -> Option<(u64, Seq<u8>, int)> {
    match read_big_size(b) {
        None => None,
        Some((typ, t)) => match read_big_size(b.skip(t)) {
            None => None,
            Some((len, l)) => if b.len() - t - l < len {
                None
            } else {
                Some((typ, b.subrange(t + l, t + l + len), t + l + len))
            },
        },
    }
}

/// The records that some bytes are made of. Their types ascend, from above `last` on.
pub open spec fn read_stream(b: Seq<u8>, last: Option<u64>) -> Option<Seq<(u64, Seq<u8>)>>
    decreases b.len(),
{
    if b.len() == 0 {
        Some(Seq::empty())
    } else {
        match read_record(b) {
            None => None,
            Some((typ, value, n)) => if last matches Some(l) && typ <= l {
                None
            } else if !(0 < n <= b.len()) {
                None
            } else {
                match read_stream(b.skip(n), Some(typ)) {
                    None => None,
                    Some(rest) => Some(seq![(typ, value)] + rest),
                }
            },
        }
    }
}

/// The types of some records ascend.
pub open spec fn ascending(records: Seq<(u64, Seq<u8>)>) -> bool {
    forall|i: int, j: int|
        #![trigger records[i], records[j]]
        0 <= i < j < records.len() ==> records[i].0 < records[j].0
}

proof fn lemma_read_big_size_bounds(b: Seq<u8>)
    ensures
        read_big_size(b) matches Some((n, len)) ==> 0 < len <= b.len(),
{
}

proof fn lemma_record_round_trip(typ: u64, value: Seq<u8>, rest: Seq<u8>)
    requires
        value.len() <= u64::MAX,
    ensures
        read_record(tlv_record(typ, value) + rest) == Some(
            (typ, value, tlv_record(typ, value).len() as int),
        ),
        tlv_record(typ, value).len() > 0,
{
    let b = tlv_record(typ, value) + rest;
    let t = big_size(typ).len() as int;
    let l = big_size(value.len() as u64).len() as int;
    law_big_size_round_trip(typ, big_size(value.len() as u64) + value + rest);
    assert(b =~= big_size(typ) + (big_size(value.len() as u64) + value + rest));
    law_big_size_round_trip(value.len() as u64, value + rest);
    assert(b.skip(t) =~= big_size(value.len() as u64) + (value + rest));
    assert(b.subrange(t + l, t + l + value.len()) =~= value);
    lemma_read_big_size_bounds(b);
}

/// Records whose types ascend are read back as they were written.
pub proof fn law_stream_round_trip(records: Seq<(u64, Seq<u8>)>, last: Option<u64>)
    requires
        ascending(records),
        forall|i: int| 0 <= i < records.len() ==> (#[trigger] records[i]).1.len() <= u64::MAX,
        last matches Some(l) ==> records.len() > 0 ==> l < records[0].0,
    ensures
        read_stream(tlv_stream(records), last) == Some(records),
    decreases records.len(),
{
    if records.len() > 0 {
        let rest = records.skip(1);
        let (typ, value) = records[0];
        lemma_record_round_trip(typ, value, tlv_stream(rest));
        assert forall|i: int, j: int|
            #![trigger rest[i], rest[j]]
            0 <= i < j < rest.len() implies rest[i].0 < rest[j].0 by {
            assert(rest[i] == records[i + 1] && rest[j] == records[j + 1]);
        }
        assert forall|i: int| 0 <= i < rest.len() implies (#[trigger] rest[i]).1.len()
            <= u64::MAX by {
            assert(rest[i] == records[i + 1]);
        }
        if rest.len() > 0 {
            assert(rest[0] == records[1]);
            assert(records[0].0 < records[1].0);
        }
        law_stream_round_trip(rest, Some(typ));
        let b = tlv_stream(records);
        assert(b.skip(tlv_record(typ, value).len() as int) =~= tlv_stream(rest));
        assert(seq![(typ, value)] + rest =~= records);
    }
}

/// The value of a type among some records.
pub open spec fn field(records: Seq<(u64, Seq<u8>)>, typ: u64) -> Option<Seq<u8>>
    decreases records.len(),
{
    if records.len() == 0 {
        None
    } else if records[0].0 == typ {
        Some(records[0].1)
    } else {
        field(records.skip(1), typ)
    }
}

/// Records whose types ascend from `lo` on and stay below `hi`.
pub open spec fn within(records: Seq<(u64, Seq<u8>)>, lo: int, hi: int) -> bool {
    ascending(records) && forall|i: int|
        0 <= i < records.len() ==> lo <= (#[trigger] records[i]).0 < hi
}

/// What holds of records that follow others.
pub(crate) proof fn lemma_concat(
    a: Seq<(u64, Seq<u8>)>,
    b: Seq<(u64, Seq<u8>)>,
    lo: int,
    mid: int,
    hi: int,
    known: Seq<u64>,
)
    requires
        within(a, lo, mid),
        within(b, mid, hi),
        lo <= mid <= hi,
        understood(a, known),
        understood(b, known),
    ensures
        within(a + b, lo, hi),
        understood(a + b, known),
        total_len(a + b) == total_len(a) + total_len(b),
        forall|t: u64| #[trigger]
            field(a + b, t) == (if field(a, t) is Some {
                field(a, t)
            } else {
                field(b, t)
            }),
{
    let s = a + b;
    assert forall|i: int, j: int|
        #![trigger s[i], s[j]]
        0 <= i < j < s.len() implies s[i].0 < s[j].0 by {
        if j < a.len() {
            assert(s[i] == a[i] && s[j] == a[j]);
        } else if i >= a.len() {
            assert(s[i] == b[i - a.len()] && s[j] == b[j - a.len()]);
        } else {
            assert(s[i] == a[i] && s[j] == b[j - a.len()]);
        }
    }
    assert forall|i: int| 0 <= i < s.len() implies lo <= (#[trigger] s[i]).0 < hi && (s[i].0 % 2
        == 0 ==> known.contains(s[i].0)) by {
        if i < a.len() {
            assert(s[i] == a[i]);
        } else {
            assert(s[i] == b[i - a.len()]);
        }
    }
    lemma_total_len(a, b);
    assert forall|t: u64| #[trigger] field(s, t) == (if field(a, t) is Some {
        field(a, t)
    } else {
        field(b, t)
    }) by {
        lemma_field(a, b, t);
    }
}

proof fn lemma_total_len(a: Seq<(u64, Seq<u8>)>, b: Seq<(u64, Seq<u8>)>)
    ensures
        total_len(a + b) == total_len(a) + total_len(b),
    decreases a.len(),
{
    if a.len() == 0 {
        assert(a + b =~= b);
    } else {
        lemma_total_len(a.skip(1), b);
        assert((a + b).skip(1) =~= a.skip(1) + b);
    }
}

proof fn lemma_field(a: Seq<(u64, Seq<u8>)>, b: Seq<(u64, Seq<u8>)>, t: u64)
    ensures
        field(a + b, t) == (if field(a, t) is Some {
            field(a, t)
        } else {
            field(b, t)
        }),
    decreases a.len(),
{
    if a.len() == 0 {
        assert(a + b =~= b);
    } else {
        lemma_field(a.skip(1), b, t);
        assert((a + b).skip(1) =~= a.skip(1) + b);
    }
}

/// What holds of one record.
pub(crate) proof fn lemma_single(typ: u64, value: Seq<u8>, known: Seq<u64>)
    requires
        known.contains(typ),
    ensures
        within(seq![(typ, value)], typ as int, typ + 1),
        understood(seq![(typ, value)], known),
        total_len(seq![(typ, value)]) == 18 + value.len(),
        forall|t: u64| #[trigger]
            field(seq![(typ, value)], t) == (if t == typ {
                Some(value)
            } else {
                None
            }),
{
    reveal_with_fuel(total_len, 2);
    reveal_with_fuel(field, 2);
    assert(seq![(typ, value)].skip(1) =~= Seq::empty());
}

/// Records stay within wider bounds.
pub(crate) proof fn lemma_widen(a: Seq<(u64, Seq<u8>)>, lo: int, hi: int, lo2: int, hi2: int)
    requires
        within(a, lo, hi),
        lo2 <= lo,
        hi <= hi2,
    ensures
        within(a, lo2, hi2),
{
}

/// Records of a bounded total length have values of a bounded length.
pub(crate) proof fn lemma_value_len(records: Seq<(u64, Seq<u8>)>)
    ensures
        forall|i: int| 0 <= i < records.len() ==> (#[trigger] records[i]).1.len() <= total_len(records),
    decreases records.len(),
{
    if records.len() > 0 {
        lemma_value_len(records.skip(1));
        assert forall|i: int| 0 <= i < records.len() implies (#[trigger] records[i]).1.len()
            <= total_len(records) by {
            if i > 0 {
                assert(records.skip(1)[i - 1] == records[i]);
            }
        }
    }
}

/// Whether every even type among some records is one of the given ones.
pub open spec fn understood(records: Seq<(u64, Seq<u8>)>, known: Seq<u64>) -> bool {
    forall|i: int|
        0 <= i < records.len() && (#[trigger] records[i]).0 % 2 == 0 ==> known.contains(
            records[i].0,
        )
}

/// A value that was read, with its type.
#[derive(Debug)]
pub struct Record {
    pub typ: u64,
    pub value: Vec<u8>,
}

/// What records hold.
pub open spec fn records_view(records: Seq<Record>) -> Seq<(u64, Seq<u8>)> {
    records.map_values(|r: Record| (r.typ, r.value@))
}

/// Appends one record.
pub fn push_record(out: &mut Vec<u8>, typ: u64, value: &[u8])
    ensures
        final(out)@ == old(out)@ + tlv_record(typ, value@),
{
    push_big_size(out, typ);
    push_big_size(out, value.len() as u64);
    push_bytes(out, value);
    assert(out@ =~= old(out)@ + tlv_record(typ, value@));
}

/// Appends bytes.
pub fn push_bytes(out: &mut Vec<u8>, bytes: &[u8])
    ensures
        final(out)@ == old(out)@ + bytes@,
{
    let ghost start = out@;
    let mut i: usize = 0;
    while i < bytes.len()
        invariant
            i <= bytes@.len(),
            out@ == start + bytes@.subrange(0, i as int),
        decreases bytes@.len() - i,
    {
        out.push(bytes[i]);
        i += 1;
        assert(out@ =~= start + bytes@.subrange(0, i as int));
    }
    assert(bytes@.subrange(0, i as int) =~= bytes@);
}

/// The bytes of a range.
pub fn copy_range(b: &[u8], from: usize, to: usize) -> (bytes: Vec<u8>)
    requires
        from <= to <= b@.len(),
    ensures
        bytes@ == b@.subrange(from as int, to as int),
{
    let mut bytes: Vec<u8> = Vec::new();
    let mut i: usize = from;
    while i < to
        invariant
            from <= i <= to,
            to <= b@.len(),
            bytes@ == b@.subrange(from as int, i as int),
        decreases to - i,
    {
        bytes.push(b[i]);
        i += 1;
        assert(bytes@ =~= b@.subrange(from as int, i as int));
    }
    bytes
}

/// Reads the record at a position, and where the next one begins.
fn parse_record(b: &[u8], at: usize) -> (read: Option<(Record, usize)>)
    requires
        at <= b@.len(),
    ensures
        match read {
            Some((record, end)) => {
                &&& read_record(b@.skip(at as int)) == Some(
                    (record.typ, record.value@, end - at),
                )
                &&& at < end <= b@.len()
            },
            None => read_record(b@.skip(at as int)) is None,
        },
{
    let ghost s = b@.skip(at as int);
    let total: usize = b.len();
    let (typ, t) = match parse_big_size(b, at) {
        Some(read) => read,
        None => {
            return None;
        },
    };
    assert(s.skip(t as int) =~= b@.skip(at + t));
    let (len, l) = match parse_big_size(b, at + t) {
        Some(read) => read,
        None => {
            return None;
        },
    };
    if ((total - at - t - l) as u64) < len {
        return None;
    }
    let start: usize = at + t + l;
    let end: usize = start + len as usize;
    let value = copy_range(b, start, end);
    assert(s.subrange(t + l, t + l + len) =~= value@);
    Some((Record { typ, value }, end))
}

/// What reading one record means for reading the rest.
proof fn lemma_stream_step(b: Seq<u8>, at: int, last: Option<u64>)
    requires
        0 <= at < b.len(),
    ensures
        match read_record(b.skip(at)) {
            None => read_stream(b.skip(at), last) is None,
            Some((typ, value, n)) => 0 < n <= b.len() - at ==> if last matches Some(l) && typ <= l {
                read_stream(b.skip(at), last) is None
            } else {
                match read_stream(b.skip(at + n), Some(typ)) {
                    None => read_stream(b.skip(at), last) is None,
                    Some(rest) => read_stream(b.skip(at), last) == Some(
                        seq![(typ, value)] + rest,
                    ),
                }
            },
        },
{
    if let Some((typ, value, n)) = read_record(b.skip(at)) {
        if 0 < n <= b.len() - at {
            assert(b.skip(at).skip(n) =~= b.skip(at + n));
        }
    }
}

/// Reads the records that all of some bytes are made of.
pub fn parse_stream(b: &[u8]) -> (records: Option<Vec<Record>>)
    ensures
        match records {
            Some(r) => read_stream(b@, None) == Some(records_view(r@)),
            None => read_stream(b@, None) is None,
        },
{
    let mut records: Vec<Record> = Vec::new();
    let mut last: Option<u64> = None;
    let mut at: usize = 0;
    proof {
        assert(b@.skip(0) =~= b@);
        assert(records_view(records@) =~= Seq::empty());
        match read_stream(b@, None) {
            Some(rest) => {
                assert(records_view(records@) + rest =~= rest);
            },
            None => {},
        }
    }
    while at < b.len()
        invariant
            at <= b@.len(),
            match read_stream(b@.skip(at as int), last) {
                Some(rest) => read_stream(b@, None) == Some(records_view(records@) + rest),
                None => read_stream(b@, None) is None,
            },
        decreases b@.len() - at,
    {
        proof {
            lemma_stream_step(b@, at as int, last);
        }
        let (record, end) = match parse_record(b, at) {
            Some(read) => read,
            None => {
                return None;
            },
        };
        if let Some(previous) = last {
            if record.typ <= previous {
                return None;
            }
        }
        let typ: u64 = record.typ;
        let ghost before = records@;
        let ghost pair = (record.typ, record.value@);
        records.push(record);
        proof {
            assert(records_view(records@) =~= records_view(before).push(pair));
            match read_stream(b@.skip(end as int), Some(typ)) {
                Some(rest) => {
                    assert(records_view(records@) + rest =~= records_view(before) + (seq![pair]
                        + rest));
                },
                None => {},
            }
        }
        last = Some(typ);
        at = end;
    }
    proof {
        assert(b@.skip(at as int).len() == 0);
        assert(records_view(records@) + Seq::empty() =~= records_view(records@));
    }
    Some(records)
}

/// The value of a type among some records.
pub fn find_field<'a>(records: &'a Vec<Record>, typ: u64) -> (value: Option<&'a Vec<u8>>)
    ensures
        match value {
            Some(v) => field(records_view(records@), typ) == Some(v@),
            None => field(records_view(records@), typ) is None,
        },
{
    let ghost all = records_view(records@);
    let mut i: usize = 0;
    assert(all.skip(0) =~= all);
    while i < records.len()
        invariant
            i <= records@.len(),
            all == records_view(records@),
            field(all, typ) == field(all.skip(i as int), typ),
        decreases records@.len() - i,
    {
        assert(all.skip(i as int)[0] == all[i as int]);
        if records[i].typ == typ {
            return Some(&records[i].value);
        }
        assert(all.skip(i as int).skip(1) =~= all.skip(i + 1));
        i += 1;
    }
    None
}

/// Whether every even type among some records is one of the given ones.
pub fn is_understood(records: &Vec<Record>, known: &[u64]) -> (yes: bool)
    ensures
        yes == understood(records_view(records@), known@),
{
    let ghost all = records_view(records@);
    let mut i: usize = 0;
    while i < records.len()
        invariant
            i <= records@.len(),
            all == records_view(records@),
            forall|j: int|
                0 <= j < i && (#[trigger] all[j]).0 % 2 == 0 ==> known@.contains(all[j].0),
        decreases records@.len() - i,
    {
        let typ: u64 = records[i].typ;
        assert(all[i as int].0 == typ);
        if typ % 2 == 0 {
            let mut found = false;
            let mut k: usize = 0;
            while k < known.len()
                invariant
                    k <= known@.len(),
                    found == exists|j: int| 0 <= j < k && known@[j] == typ,
                decreases known@.len() - k,
            {
                if known[k] == typ {
                    found = true;
                }
                k += 1;
            }
            if !found {
                assert(!known@.contains(all[i as int].0));
                return false;
            }
        }
        i += 1;
    }
    true
}

/// Some bytes behind their length.
pub open spec fn length_prefixed(b: Seq<u8>) -> Seq<u8> {
    big_size(b.len() as u64) + b
}

/// The bytes behind a length at the start of some bytes. What follows them is not looked at.
pub open spec fn read_length_prefixed(b: Seq<u8>) -> Option<Seq<u8>> {
    match read_big_size(b) {
        None => None,
        Some((len, l)) => if b.len() - l < len {
            None
        } else {
            Some(b.subrange(l, l + len))
        },
    }
}

/// Bytes behind their length are read back, whatever follows them.
pub proof fn law_length_prefix_round_trip(b: Seq<u8>, rest: Seq<u8>)
    requires
        b.len() <= u64::MAX,
    ensures
        read_length_prefixed(length_prefixed(b) + rest) == Some(b),
{
    law_big_size_round_trip(b.len() as u64, b + rest);
    let all = length_prefixed(b) + rest;
    assert(all =~= big_size(b.len() as u64) + (b + rest));
    let l = big_size(b.len() as u64).len() as int;
    assert(all.subrange(l, l + b.len()) =~= b);
}

/// Reads the bytes behind a length at a position.
pub fn parse_length_prefixed(b: &[u8], from: usize) -> (inner: Option<Vec<u8>>)
    requires
        from <= b@.len(),
    ensures
        match inner {
            Some(v) => read_length_prefixed(b@.skip(from as int)) == Some(v@),
            None => read_length_prefixed(b@.skip(from as int)) is None,
        },
{
    let ghost s = b@.skip(from as int);
    let (len, l) = match parse_big_size(b, from) {
        Some(read) => read,
        None => {
            return None;
        },
    };
    if ((b.len() - from - l) as u64) < len {
        return None;
    }
    let start: usize = from + l;
    let end: usize = start + len as usize;
    let inner = copy_range(b, start, end);
    assert(s.subrange(l as int, l + len) =~= inner@);
    Some(inner)
}

/// The bytes of a number that was read from bytes are those bytes again.
pub proof fn law_be_bytes_round_trip(b: Seq<u8>)
    ensures
        be_bytes(be(b), b.len()) == b,
    decreases b.len(),
{
    if b.len() > 0 {
        let front = b.drop_last();
        law_be_bytes_round_trip(front);
        let n = be(b);
        assert(n / 256 == be(front) && n % 256 == b.last() as nat);
        assert(be_bytes(n, b.len()) =~= front.push(b.last()));
        assert(front.push(b.last()) =~= b);
    }
}

/// The first bytes of a number are its highest: each further byte multiplies what stands before it by 256.
pub proof fn law_the_highest_byte_is_first(high: Seq<u8>, low: u8)
    ensures
        be(high.push(low)) == 256 * be(high) + low,
        be(seq![low]) == low,
        be(Seq::empty()) == 0,
        pow256(high.len() + 1) == 256 * pow256(high.len()),
        pow256(0) == 1,
{
    assert(high.push(low).drop_last() =~= high);
    assert(seq![low].drop_last() =~= Seq::<u8>::empty());
    assert(be(Seq::<u8>::empty()) == 0);
}

/// Numbers below 253 take one byte. Larger ones have a first byte that tells how many bytes follow, two, four
/// or eight, as few as will do.
pub proof fn law_big_sizes_are_as_short_as_can_be(n: u64)
    ensures
        n < 0xfd ==> big_size(n) == seq![n as u8],
        0xfd <= n <= 0xffff ==> big_size(n).len() == 3 && big_size(n)[0] == 0xfd,
        0x1_0000 <= n <= 0xffff_ffff ==> big_size(n).len() == 5 && big_size(n)[0] == 0xfe,
        n > 0xffff_ffff ==> big_size(n).len() == 9 && big_size(n)[0] == 0xff,
        n >= 0xfd ==> be(big_size(n).skip(1)) == n,
{
    lemma_powers();
    if n >= 0xfd {
        let len: nat = if n <= 0xffff {
            2
        } else if n <= 0xffff_ffff {
            4
        } else {
            8
        };
        law_be_round_trip(n as nat, len);
        assert(big_size(n).skip(1) =~= be_bytes(n as nat, len));
    }
}

/// A number is read from its own bytes only: there is no other way to write it.
pub proof fn law_numbers_have_one_encoding(b: Seq<u8>)
    requires
        read_big_size(b) is Some,
    ensures
        ({
            let (n, len) = read_big_size(b)->0;
            &&& 0 < len <= b.len()
            &&& b.take(len) == big_size(n)
        }),
{
    let (n, len) = read_big_size(b)->0;
    if b[0] < 0xfd {
        assert(b.take(1) =~= seq![n as u8]);
    } else {
        let digits = b.subrange(1, len);
        lemma_powers();
        lemma_be_bound(digits);
        law_be_bytes_round_trip(digits);
        assert(b.take(len) =~= seq![b[0]] + digits);
    }
}

proof fn lemma_record_has_one_encoding(b: Seq<u8>)
    requires
        read_record(b) is Some,
    ensures
        ({
            let (typ, value, n) = read_record(b)->0;
            &&& 0 < n <= b.len()
            &&& tlv_record(typ, value) == b.take(n)
        }),
{
    let (typ, value, n) = read_record(b)->0;
    let (_, t) = read_big_size(b)->0;
    law_numbers_have_one_encoding(b);
    let tail = b.skip(t);
    let (len, l) = read_big_size(tail)->0;
    law_numbers_have_one_encoding(tail);
    assert(value.len() == len);
    assert(tlv_record(typ, value) == b.take(t) + tail.take(l) + value);
    assert(b.take(t) + tail.take(l) + value =~= b.take(n));
}

/// What is read from bytes are records in ascending order whose bytes these are: every stream of records has
/// one encoding, and nothing else is read.
pub proof fn law_streams_have_one_encoding(b: Seq<u8>, last: Option<u64>)
    requires
        read_stream(b, last) is Some,
    ensures
        tlv_stream(read_stream(b, last)->0) == b,
        ascending(read_stream(b, last)->0),
        last matches Some(l) ==> forall|i: int|
            0 <= i < read_stream(b, last)->0.len() ==> l < (#[trigger] read_stream(
                b,
                last,
            )->0[i]).0,
    decreases b.len(),
{
    let records = read_stream(b, last)->0;
    if b.len() == 0 {
        assert(tlv_stream(records) =~= b);
    } else {
        let (typ, value, n) = read_record(b)->0;
        lemma_record_has_one_encoding(b);
        law_streams_have_one_encoding(b.skip(n), Some(typ));
        let rest = read_stream(b.skip(n), Some(typ))->0;
        assert(records.skip(1) =~= rest);
        assert(b.take(n) + b.skip(n) =~= b);
        assert forall|i: int| 1 <= i < records.len() implies (#[trigger] records[i]).0 > typ by {
            assert(records[i] == rest[i - 1]);
        }
        assert forall|i: int, j: int|
            #![trigger records[i], records[j]]
            0 <= i < j < records.len() implies records[i].0 < records[j].0 by {
            assert(records[j] == rest[j - 1]);
            if i > 0 {
                assert(records[i] == rest[i - 1]);
            }
        }
    }
}

/// A record is its type, the length of its value and the value, and a stream is one record after the other.
pub proof fn law_records_follow_one_another(
    typ: u64,
    value: Seq<u8>,
    records: Seq<(u64, Seq<u8>)>,
)
    ensures
        tlv_record(typ, value) == big_size(typ) + big_size(value.len() as u64) + value,
        tlv_stream(seq![(typ, value)] + records) == tlv_record(typ, value) + tlv_stream(records),
        tlv_stream(Seq::empty()).len() == 0,
        length_prefixed(value) == big_size(value.len() as u64) + value,
{
    let all = seq![(typ, value)] + records;
    assert(all.skip(1) =~= records);
}

/// A field is the value of the first record of its type, and there is none without such a record.
pub proof fn law_fields_are_found_by_type(records: Seq<(u64, Seq<u8>)>, i: int, typ: u64)
    ensures
        0 <= i < records.len() && records[i].0 == typ && (forall|j: int|
            0 <= j < i ==> (#[trigger] records[j]).0 != typ) ==> field(records, typ) == Some(
            records[i].1,
        ),
        (forall|j: int| 0 <= j < records.len() ==> (#[trigger] records[j]).0 != typ) ==> field(
            records,
            typ,
        ) is None,
    decreases records.len(),
{
    if records.len() > 0 {
        let rest = records.skip(1);
        law_fields_are_found_by_type(rest, i - 1, typ);
        assert forall|j: int| 0 <= j < rest.len() implies #[trigger] rest[j] == records[j + 1] by {}
        if i > 0 && i < records.len() {
            assert(rest[i - 1] == records[i]);
        }
    }
}

/// Records of unknown types can be passed over where the type is odd, and only there.
pub proof fn law_unknown_types_may_be_odd(
    records: Seq<(u64, Seq<u8>)>,
    known: Seq<u64>,
    i: int,
    typ: u64,
    value: Seq<u8>,
)
    ensures
        0 <= i < records.len() && records[i].0 % 2 == 0 && !known.contains(records[i].0)
            ==> !understood(records, known),
        understood(records.push((typ, value)), known) <==> understood(records, known) && (typ % 2
            == 1 || known.contains(typ)),
        understood(Seq::empty(), known),
{
    let all = records.push((typ, value));
    if understood(records, known) && (typ % 2 == 1 || known.contains(typ)) {
        assert forall|j: int| 0 <= j < all.len() && (#[trigger] all[j]).0 % 2
            == 0 implies known.contains(all[j].0) by {
            if j < records.len() {
                assert(all[j] == records[j]);
            }
        }
    }
    if understood(all, known) {
        assert forall|j: int| 0 <= j < records.len() && (#[trigger] records[j]).0 % 2
            == 0 implies known.contains(records[j].0) by {
            assert(all[j] == records[j]);
        }
        assert(all[records.len() as int] == (typ, value));
    }
}

/// What is read behind a length has that length and follows it, and more may follow.
pub proof fn law_a_length_goes_before(b: Seq<u8>)
    requires
        read_length_prefixed(b) is Some,
    ensures
        length_prefixed(read_length_prefixed(b)->0).is_prefix_of(b),
{
    law_numbers_have_one_encoding(b);
    let (len, l) = read_big_size(b)->0;
    let inner = read_length_prefixed(b)->0;
    assert(length_prefixed(inner) =~= b.take(l + len));
}

/// Records are told by their types and the bytes of their values, in order.
pub proof fn law_records_are_told_by_type_and_value(records: Seq<Record>, i: int)
    ensures
        records_view(records).len() == records.len(),
        0 <= i < records.len() ==> records_view(records)[i] == (records[i].typ, records[i].value@),
{
}

} // verus!
