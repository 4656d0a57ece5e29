//! Row value codec: decodes the row images of a Write/Update/Delete event
//! into typed values, using the active table schema.
//!
//! Each row image starts with a null bitmap of `ceil(column_count / 8)`
//! bytes; bit `i` set means column `i` is NULL and contributes no further
//! bytes.  Non-null columns follow in schema order, encoded by their
//! declared SQL type.  Variable-length values carry a packed-length prefix:
//! a marker byte below `0xfb` is the length itself, `0xfb` denotes an
//! explicit empty value, and `0xfc`/`0xfd`/`0xfe` select a 2-, 3- or 8-byte
//! little-endian length field.  Unrecognized column types decode to a
//! placeholder rather than failing the row.

use vstd::prelude::*;
use crate::meta::{ColumnModel, SqlKind, TableSchema};
use crate::readvalue;
use crate::readvalue::{be_bytes, le_bytes, le_signed, utf8_lossy_of};
use crate::binlog::readevent::{le_at, BinlogEvent};

verus! {

/// A decoded column value.
#[derive(Clone, Debug)]
pub enum MySQLValue {
    Null,
    SignedInteger(i64),
    /// IEEE 754 double precision, kept as its bit pattern.
    Double(u64),
    /// IEEE 754 single precision, kept as its bit pattern.
    Float(u32),
    /// Exact decimal digit string, sign and point included.
    Decimal(String),
    Text(String),
    Blob(Vec<u8>),
    Enum(u64),
    Year(u16),
    Date { year: u16, month: u8, day: u8 },
    Time { hours: u16, minutes: u8, seconds: u8, subseconds: u32 },
    DateTime {
        year: u16,
        month: u8,
        day: u8,
        hour: u8,
        minute: u8,
        second: u8,
        subsecond: u32,
    },
    Timestamp { unix_time: u32, subsecond: u32 },
    /// Binary JSON document, kept undecoded.
    Json(Vec<u8>),
}

/// Ghost model of a decoded column value.
pub enum ValueModel {
    Null,
    SignedInteger(int),
    Double(u64),
    Float(u32),
    Decimal(Seq<char>),
    Text(Seq<char>),
    Blob(Seq<u8>),
    Enum(nat),
    Year(u16),
    Date { year: u16, month: u8, day: u8 },
    Time { hours: u16, minutes: u8, seconds: u8, subseconds: u32 },
    DateTime {
        year: u16,
        month: u8,
        day: u8,
        hour: u8,
        minute: u8,
        second: u8,
        subsecond: u32,
    },
    Timestamp { unix_time: u32, subsecond: u32 },
    Json(Seq<u8>),
}

impl View for MySQLValue {
    type V = ValueModel;

    open spec fn view(&self) -> ValueModel {
        match self {
            MySQLValue::Null => ValueModel::Null,
            MySQLValue::SignedInteger(v) => ValueModel::SignedInteger(*v as int),
            MySQLValue::Double(v) => ValueModel::Double(*v),
            MySQLValue::Float(v) => ValueModel::Float(*v),
            MySQLValue::Decimal(s) => ValueModel::Decimal(s@),
            MySQLValue::Text(s) => ValueModel::Text(s@),
            MySQLValue::Blob(b) => ValueModel::Blob(b@),
            MySQLValue::Enum(v) => ValueModel::Enum(*v as nat),
            MySQLValue::Year(v) => ValueModel::Year(*v),
            MySQLValue::Date { year, month, day } => ValueModel::Date {
                year: *year,
                month: *month,
                day: *day,
            },
            MySQLValue::Time { hours, minutes, seconds, subseconds } => ValueModel::Time {
                hours: *hours,
                minutes: *minutes,
                seconds: *seconds,
                subseconds: *subseconds,
            },
            MySQLValue::DateTime { year, month, day, hour, minute, second, subsecond } => {
                ValueModel::DateTime {
                    year: *year,
                    month: *month,
                    day: *day,
                    hour: *hour,
                    minute: *minute,
                    second: *second,
                    subsecond: *subsecond,
                }
            },
            MySQLValue::Timestamp { unix_time, subsecond } => ValueModel::Timestamp {
                unix_time: *unix_time,
                subsecond: *subsecond,
            },
            MySQLValue::Json(b) => ValueModel::Json(b@),
        }
    }
}

impl DeepView for MySQLValue {
    type V = ValueModel;

    open spec fn deep_view(&self) -> ValueModel {
        self.view()
    }
}

/// Decode failure: the buffer contradicts the structure the header and
/// schema imply.
#[derive(Clone, Copy, PartialEq, Eq, Structural, Debug)]
pub enum DecodeError {
    /// Fewer bytes remain than the value at this offset needs.
    ShortBuffer { offset: usize },
    /// The event's column count does not match the resolved schema.
    ColumnCountMismatch { expected: usize, found: u64 },
    /// A length field itself is malformed at this offset.
    BadLength { offset: usize },
}

/// Packed-length prefix at `pos`: `Some((value_len, bytes_consumed,
/// explicit_empty))`, or `None` when malformed or out of bounds.
pub open spec fn spec_packed_len(b: Seq<u8>, pos: int) -> Option<(nat, int, bool)> {
    if !(0 <= pos < b.len()) {
        None
    } else if b[pos] < 0xfb {
        Some((b[pos] as nat, 1, false))
    } else if b[pos] == 0xfb {
        Some((0, 1, true))
    } else if b[pos] == 0xfc {
        if pos + 3 <= b.len() {
            Some((le_at(b, pos + 1, 2), 3, false))
        } else {
            None
        }
    } else if b[pos] == 0xfd {
        if pos + 4 <= b.len() {
            Some((le_at(b, pos + 1, 3), 4, false))
        } else {
            None
        }
    } else if b[pos] == 0xfe {
        if pos + 9 <= b.len() {
            Some((le_at(b, pos + 1, 8), 9, false))
        } else {
            None
        }
    } else {
        None
    }
}

/// Read a packed-length prefix.
pub fn read_packed_len(buf: &[u8], pos: usize) -> (r: Result<(u64, usize, bool), DecodeError>)
    ensures
        r matches Ok((len, consumed, empty)) ==> spec_packed_len(buf@, pos as int) == Some(
            ((len as nat), consumed as int, empty),
        ) && consumed <= 9,
        r is Err ==> spec_packed_len(buf@, pos as int) is None,
{
    if pos >= buf.len() {
        return Err(DecodeError::ShortBuffer { offset: pos });
    }
    let marker = buf[pos];
    if marker < 0xfb {
        Ok((marker as u64, 1, false))
    } else if marker == 0xfb {
        Ok((0, 1, true))
    } else if marker == 0xfc {
        if buf.len() - pos >= 3 {
            let v = readvalue::read_u16(&buf[pos + 1..pos + 3]);
            proof {
                assert(buf@.subrange(pos + 1, pos + 3).subrange(0, 2) =~= buf@.subrange(
                    pos + 1,
                    pos + 3,
                ));
            }
            Ok((v as u64, 3, false))
        } else {
            Err(DecodeError::ShortBuffer { offset: pos })
        }
    } else if marker == 0xfd {
        if buf.len() - pos >= 4 {
            let v = readvalue::read_u24(&buf[pos + 1..pos + 4]);
            proof {
                assert(buf@.subrange(pos + 1, pos + 4).subrange(0, 3) =~= buf@.subrange(
                    pos + 1,
                    pos + 4,
                ));
            }
            Ok((v as u64, 4, false))
        } else {
            Err(DecodeError::ShortBuffer { offset: pos })
        }
    } else if marker == 0xfe {
        if buf.len() - pos >= 9 {
            let v = readvalue::read_u64(&buf[pos + 1..pos + 9]);
            proof {
                assert(buf@.subrange(pos + 1, pos + 9).subrange(0, 8) =~= buf@.subrange(
                    pos + 1,
                    pos + 9,
                ));
            }
            Ok((v as u64, 9, false))
        } else {
            Err(DecodeError::ShortBuffer { offset: pos })
        }
    } else {
        Err(DecodeError::BadLength { offset: pos })
    }
}

/// The signed integer in `n` little-endian bytes at `pos`.
pub open spec fn signed_at(b: Seq<u8>, pos: int, n: int) -> int {
    le_signed(b.subrange(pos, pos + n))
}

/// Bytes the fractional-second part of a temporal value occupies.
pub open spec fn spec_frac_bytes(fsp: u8) -> int {
    (fsp + 1) / 2
}

/// Bytes a digit run of `d` leftover decimal digits occupies.
pub open spec fn spec_dig2bytes(d: int) -> int {
    if d == 0 {
        0
    } else if d <= 2 {
        1
    } else if d <= 4 {
        2
    } else if d <= 6 {
        3
    } else {
        4
    }
}

fn dig2bytes(d: usize) -> (r: usize)
    requires
        d <= 8,
    ensures
        r == spec_dig2bytes(d as int),
{
    if d == 0 {
        0
    } else if d <= 2 {
        1
    } else if d <= 4 {
        2
    } else if d <= 6 {
        3
    } else {
        4
    }
}

/// Stored size of a packed decimal with this precision and scale.
pub open spec fn spec_decimal_size(precision: u8, scale: u8) -> int {
    let intg: int = precision - scale;
    let s: int = scale as int;
    4 * (intg / 9) + spec_dig2bytes(intg % 9) + 4 * (s / 9) + spec_dig2bytes(s % 9)
}

/// The stored bytes of a packed decimal, normalized: the sign bit of the
/// first byte is cleared, and a negative value's bytes are complemented.
pub open spec fn spec_decimal_norm(raw: Seq<u8>) -> Seq<u8> {
    let neg = raw[0] & 0x80 == 0;
    Seq::new(
        raw.len(),
        |i: int|
            {
                let x: u8 = if i == 0 {
                    raw[0] ^ 0x80
                } else {
                    raw[i]
                };
                if neg {
                    !x
                } else {
                    x
                }
            },
    )
}

/// The decimal digits (as digit values) of `n`, zero-padded to width `w`.
pub open spec fn spec_digits_padded(n: nat, w: nat) -> Seq<u8>
    decreases w,
{
    if w == 0 {
        Seq::empty()
    } else {
        spec_digits_padded(n / 10, (w - 1) as nat) + seq![(n % 10) as u8]
    }
}

/// Digits of `count` consecutive 4-byte big-endian groups at `off`, nine
/// digits per group.
pub open spec fn spec_group_digits(w: Seq<u8>, off: int, count: int) -> Seq<u8>
    decreases count,
{
    if count <= 0 {
        Seq::empty()
    } else {
        spec_group_digits(w, off, count - 1) + spec_digits_padded(
            be_bytes(w.subrange(off + 4 * (count - 1), off + 4 * count)),
            9,
        )
    }
}

/// Drop leading zero digits, keeping at least one digit.
pub open spec fn spec_trim_digits(s: Seq<u8>) -> Seq<u8>
    decreases s.len(),
{
    if s.len() == 0 {
        seq![0u8]
    } else if s.len() == 1 {
        s
    } else if s[0] == 0 {
        spec_trim_digits(s.drop_first())
    } else {
        s
    }
}

/// Digit values as digit characters.
pub open spec fn spec_digits_chars(d: Seq<u8>) -> Seq<char> {
    d.map_values(|x: u8| readvalue::digit_char(x as int))
}

/// The integer-part digits of a normalized packed decimal.
pub open spec fn spec_decimal_int_digits(w: Seq<u8>, precision: u8, scale: u8) -> Seq<u8> {
    let intg: int = precision - scale;
    let lead = spec_dig2bytes(intg % 9);
    spec_digits_padded(be_bytes(w.subrange(0, lead)), (intg % 9) as nat) + spec_group_digits(
        w,
        lead,
        intg / 9,
    )
}

/// The fraction-part digits of a normalized packed decimal.
pub open spec fn spec_decimal_frac_digits(w: Seq<u8>, precision: u8, scale: u8) -> Seq<u8> {
    let intg: int = precision - scale;
    let s: int = scale as int;
    let ioff = spec_dig2bytes(intg % 9) + 4 * (intg / 9);
    let fgroups = s / 9;
    let flead = spec_dig2bytes(s % 9);
    spec_group_digits(w, ioff, fgroups) + spec_digits_padded(
        be_bytes(w.subrange(ioff + 4 * fgroups, ioff + 4 * fgroups + flead)),
        (s % 9) as nat,
    )
}

/// The rendered text of a packed decimal field.
pub open spec fn spec_decimal_chars(raw: Seq<u8>, precision: u8, scale: u8) -> Seq<char> {
    let neg = raw[0] & 0x80 == 0;
    let w = spec_decimal_norm(raw);
    let ipart = spec_digits_chars(spec_trim_digits(spec_decimal_int_digits(w, precision, scale)));
    let fpart = spec_digits_chars(spec_decimal_frac_digits(w, precision, scale));
    let signed = if neg {
        seq!['-'] + ipart
    } else {
        ipart
    };
    if scale > 0 {
        signed + seq!['.'] + fpart
    } else {
        signed
    }
}

/// Content bounds of a packed-length-prefixed value at `pos`: the range of
/// its content bytes, or `None` when malformed or out of bounds.
pub open spec fn spec_varlen(b: Seq<u8>, pos: int) -> Option<(int, int)> {
    match spec_packed_len(b, pos) {
        None => None,
        Some((len, consumed, _empty)) => if pos + consumed + len <= b.len() {
            Some((pos + consumed, pos + consumed + len))
        } else {
            None
        },
    }
}

/// The decoded value and next offset for one non-null column of the given
/// kind at `pos`, or `None` when the buffer is too short or malformed.
pub open spec fn spec_value(b: Seq<u8>, pos: int, kind: SqlKind) -> Option<(ValueModel, int)> {
    match kind {
        SqlKind::Tiny => if pos + 1 <= b.len() {
            Some((ValueModel::SignedInteger(signed_at(b, pos, 1)), pos + 1))
        } else {
            None
        },
        SqlKind::Short => if pos + 2 <= b.len() {
            Some((ValueModel::SignedInteger(signed_at(b, pos, 2)), pos + 2))
        } else {
            None
        },
        SqlKind::Int24 => if pos + 3 <= b.len() {
            Some((ValueModel::SignedInteger(signed_at(b, pos, 3)), pos + 3))
        } else {
            None
        },
        SqlKind::Long => if pos + 4 <= b.len() {
            Some((ValueModel::SignedInteger(signed_at(b, pos, 4)), pos + 4))
        } else {
            None
        },
        SqlKind::LongLong => if pos + 8 <= b.len() {
            Some((ValueModel::SignedInteger(signed_at(b, pos, 8)), pos + 8))
        } else {
            None
        },
        SqlKind::Float => if pos + 4 <= b.len() {
            Some((ValueModel::Float(le_at(b, pos, 4) as u32), pos + 4))
        } else {
            None
        },
        SqlKind::Double => if pos + 8 <= b.len() {
            Some((ValueModel::Double(le_at(b, pos, 8) as u64), pos + 8))
        } else {
            None
        },
        SqlKind::Year => if pos + 1 <= b.len() {
            Some(
                (
                    ValueModel::Year(
                        if b[pos] == 0 {
                            0
                        } else {
                            (1900 + b[pos]) as u16
                        },
                    ),
                    pos + 1,
                ),
            )
        } else {
            None
        },
        SqlKind::Date => if pos + 3 <= b.len() {
            let v = le_at(b, pos, 3);
            Some(
                (
                    ValueModel::Date {
                        year: (v / 512) as u16,
                        month: ((v / 32) % 16) as u8,
                        day: (v % 32) as u8,
                    },
                    pos + 3,
                ),
            )
        } else {
            None
        },
        SqlKind::Time { fsp } => {
            let fb = spec_frac_bytes(fsp);
            if fb <= 3 && pos + 3 + fb <= b.len() {
                let p = be_bytes(b.subrange(pos, pos + 3));
                Some(
                    (
                        ValueModel::Time {
                            hours: ((p / 4096) % 1024) as u16,
                            minutes: ((p / 64) % 64) as u8,
                            seconds: (p % 64) as u8,
                            subseconds: be_bytes(b.subrange(pos + 3, pos + 3 + fb)) as u32,
                        },
                        pos + 3 + fb,
                    ),
                )
            } else {
                None
            }
        },
        SqlKind::DateTime { fsp } => {
            let fb = spec_frac_bytes(fsp);
            if fb <= 3 && pos + 5 + fb <= b.len() {
                let p = be_bytes(b.subrange(pos, pos + 5));
                let ym = (p / 4194304) % 131072;
                Some(
                    (
                        ValueModel::DateTime {
                            year: (ym / 13) as u16,
                            month: (ym % 13) as u8,
                            day: ((p / 131072) % 32) as u8,
                            hour: ((p / 4096) % 32) as u8,
                            minute: ((p / 64) % 64) as u8,
                            second: (p % 64) as u8,
                            subsecond: be_bytes(b.subrange(pos + 5, pos + 5 + fb)) as u32,
                        },
                        pos + 5 + fb,
                    ),
                )
            } else {
                None
            }
        },
        SqlKind::Timestamp { fsp } => {
            let fb = spec_frac_bytes(fsp);
            if fb <= 3 && pos + 4 + fb <= b.len() {
                Some(
                    (
                        ValueModel::Timestamp {
                            unix_time: be_bytes(b.subrange(pos, pos + 4)) as u32,
                            subsecond: be_bytes(b.subrange(pos + 4, pos + 4 + fb)) as u32,
                        },
                        pos + 4 + fb,
                    ),
                )
            } else {
                None
            }
        },
        SqlKind::Decimal { precision, scale } => {
            let size = spec_decimal_size(precision, scale);
            if scale <= precision && precision >= 1 && pos + size <= b.len() && size >= 1 {
                Some(
                    (
                        ValueModel::Decimal(
                            spec_decimal_chars(b.subrange(pos, pos + size), precision, scale),
                        ),
                        pos + size,
                    ),
                )
            } else {
                None
            }
        },
        SqlKind::VarChar => match spec_varlen(b, pos) {
            None => None,
            Some((a, e)) => Some((ValueModel::Text(utf8_lossy_of(b.subrange(a, e))), e)),
        },
        SqlKind::Blob { texty: _ } => match spec_varlen(b, pos) {
            None => None,
            Some((a, e)) => Some((ValueModel::Blob(b.subrange(a, e)), e)),
        },
        SqlKind::Enum | SqlKind::SetBits => match spec_varlen(b, pos) {
            None => None,
            Some((a, e)) => if e - a <= 8 {
                Some((ValueModel::Enum(le_bytes(b.subrange(a, e))), e))
            } else {
                None
            },
        },
        SqlKind::Json => match spec_varlen(b, pos) {
            None => None,
            Some((a, e)) => Some((ValueModel::Json(b.subrange(a, e)), e)),
        },
        SqlKind::Unknown => Some((ValueModel::Null, pos)),
    }
}

/// Every element is a digit value below ten.
pub open spec fn all_digits(s: Seq<u8>) -> bool {
    forall|i: int| 0 <= i < s.len() ==> #[trigger] s[i] < 10
}

proof fn lemma_digits_padded_bound(n: nat, w: nat)
    ensures
        all_digits(spec_digits_padded(n, w)),
    decreases w,
{
    if w > 0 {
        lemma_digits_padded_bound(n / 10, (w - 1) as nat);
    }
}

proof fn lemma_group_digits_bound(w: Seq<u8>, off: int, count: int)
    ensures
        all_digits(spec_group_digits(w, off, count)),
    decreases count,
{
    if count > 0 {
        lemma_group_digits_bound(w, off, count - 1);
        lemma_digits_padded_bound(
            be_bytes(w.subrange(off + 4 * (count - 1), off + 4 * count)),
            9,
        );
    }
}

proof fn lemma_trim_digits_bound(s: Seq<u8>)
    requires
        all_digits(s),
    ensures
        all_digits(spec_trim_digits(s)),
    decreases s.len(),
{
    if s.len() > 1 && s[0] == 0 {
        lemma_trim_digits_bound(s.drop_first());
    }
}

proof fn lemma_trim_skip(s: Seq<u8>, k: int)
    requires
        0 <= k < s.len(),
        forall|j: int| 0 <= j < k ==> s[j] == 0,
        k == s.len() - 1 || s[k] != 0,
    ensures
        spec_trim_digits(s) == s.skip(k),
    decreases k,
{
    if k == 0 {
        assert(s.skip(0) =~= s);
    } else {
        lemma_trim_skip(s.drop_first(), k - 1);
        assert(s.drop_first().skip(k - 1) =~= s.skip(k));
    }
}

fn digits_padded(n: u64, w: usize) -> (r: Vec<u8>)
    ensures
        r@ == spec_digits_padded(n as nat, w as nat),
    decreases w,
{
    if w == 0 {
        let r: Vec<u8> = Vec::new();
        proof {
            assert(r@ =~= spec_digits_padded(n as nat, 0));
        }
        r
    } else {
        let mut r = digits_padded(n / 10, w - 1);
        r.push((n % 10) as u8);
        proof {
            assert(r@ =~= spec_digits_padded(n as nat, w as nat));
        }
        r
    }
}

fn group_digits(w: &Vec<u8>, off: usize, count: usize) -> (r: Vec<u8>)
    requires
        off + 4 * count <= w@.len(),
    ensures
        r@ == spec_group_digits(w@, off as int, count as int),
{
    let wl: usize = w.len();
    let mut r: Vec<u8> = Vec::new();
    proof {
        assert(r@ =~= spec_group_digits(w@, off as int, 0));
    }
    for g in 0..count
        invariant
            off + 4 * count <= wl,
            wl == w@.len(),
            r@ == spec_group_digits(w@, off as int, g as int),
    {
        let v = readvalue::read_be(&w[off + 4 * g..off + 4 * g + 4], 4);
        proof {
            assert(w@.subrange(off + 4 * g, off + 4 * g + 4).subrange(0, 4) =~= w@.subrange(
                off + 4 * g,
                off + 4 * g + 4,
            ));
        }
        let mut d = digits_padded(v, 9);
        r.append(&mut d);
        proof {
            assert(r@ =~= spec_group_digits(w@, off as int, g + 1));
        }
    }
    r
}

fn trim_digits(v: &Vec<u8>) -> (r: Vec<u8>)
    ensures
        r@ == spec_trim_digits(v@),
{
    if v.len() == 0 {
        let mut r: Vec<u8> = Vec::new();
        r.push(0);
        proof {
            assert(r@ =~= spec_trim_digits(v@));
        }
        r
    } else {
        let mut st: usize = 0;
        while st < v.len() - 1 && v[st] == 0
            invariant
                st < v@.len(),
                forall|j: int| 0 <= j < st ==> v@[j] == 0,
            decreases v@.len() - st,
        {
            st = st + 1;
        }
        proof {
            lemma_trim_skip(v@, st as int);
        }
        let mut r: Vec<u8> = Vec::new();
        r.extend_from_slice(&v[st..v.len()]);
        proof {
            assert(r@ =~= v@.skip(st as int));
        }
        r
    }
}

fn digits_to_string(d: &Vec<u8>) -> (r: String)
    requires
        all_digits(d@),
    ensures
        r@ == spec_digits_chars(d@),
{
    let mut r = String::new();
    let n = d.len();
    proof {
        assert(r@ =~= spec_digits_chars(d@.take(0)));
    }
    for i in 0..n
        invariant
            n == d@.len(),
            all_digits(d@),
            r@ == spec_digits_chars(d@.take(i as int)),
    {
        r.append(readvalue::digit_str(d[i] as u64));
        proof {
            assert(spec_digits_chars(d@.take(i + 1)) =~= spec_digits_chars(d@.take(i as int))
                + seq![readvalue::digit_char(d@[i as int] as int)]);
        }
    }
    proof {
        assert(d@.take(n as int) =~= d@);
    }
    r
}

fn decimal_normalize(raw: &[u8]) -> (r: Vec<u8>)
    requires
        raw@.len() >= 1,
    ensures
        r@ == spec_decimal_norm(raw@),
{
    let neg = raw[0] & 0x80 == 0;
    let n = raw.len();
    let mut w: Vec<u8> = Vec::new();
    for i in 0..n
        invariant
            n == raw@.len(),
            n >= 1,
            neg == (raw@[0] & 0x80 == 0),
            w@.len() == i,
            forall|j: int| 0 <= j < i ==> w@[j] == spec_decimal_norm(raw@)[j],
    {
        let mut x = raw[i];
        if i == 0 {
            x = x ^ 0x80;
        }
        if neg {
            x = !x;
        }
        w.push(x);
    }
    proof {
        assert(w@ =~= spec_decimal_norm(raw@));
    }
    w
}

/// Decode one packed decimal field.
#[verifier::rlimit(60)]
fn decode_decimal(buf: &[u8], pos: usize, precision: u8, scale: u8) -> (r: Result<
    (MySQLValue, usize),
    DecodeError,
>)
    ensures
        r matches Ok((v, p)) ==> spec_value(buf@, pos as int, SqlKind::Decimal { precision, scale })
            == Some((v@, p as int)) && pos <= p <= buf@.len(),
        r is Err ==> spec_value(buf@, pos as int, SqlKind::Decimal { precision, scale }) is None,
{
    if !(scale <= precision && precision >= 1) {
        return Err(DecodeError::BadLength { offset: pos });
    }
    let intg: usize = (precision - scale) as usize;
    let sc: usize = scale as usize;
    let lead: usize = dig2bytes(intg % 9);
    let flead: usize = dig2bytes(sc % 9);
    let size: usize = 4 * (intg / 9) + lead + 4 * (sc / 9) + flead;
    proof {
        assert(size == spec_decimal_size(precision, scale));
    }
    if size < 1 {
        return Err(DecodeError::BadLength { offset: pos });
    }
    if pos > buf.len() || buf.len() - pos < size {
        return Err(DecodeError::ShortBuffer { offset: pos });
    }
    let raw_slice = &buf[pos..pos + size];
    let neg = raw_slice[0] & 0x80 == 0;
    let w = decimal_normalize(raw_slice);
    let lead_val = readvalue::read_be(&w[0..lead], lead);
    proof {
        assert(w@.subrange(0, lead as int).subrange(0, lead as int) =~= w@.subrange(
            0,
            lead as int,
        ));
    }
    let mut idig = digits_padded(lead_val, intg % 9);
    let mut g = group_digits(&w, lead, intg / 9);
    idig.append(&mut g);
    proof {
        assert(idig@ =~= spec_decimal_int_digits(w@, precision, scale));
    }
    let ioff: usize = lead + 4 * (intg / 9);
    let mut fdig = group_digits(&w, ioff, sc / 9);
    let fval = readvalue::read_be(&w[ioff + 4 * (sc / 9)..ioff + 4 * (sc / 9) + flead], flead);
    proof {
        assert(w@.subrange(
            ioff + 4 * (sc / 9),
            ioff + 4 * (sc / 9) + flead,
        ).subrange(0, flead as int) =~= w@.subrange(
            ioff + 4 * (sc / 9),
            ioff + 4 * (sc / 9) + flead,
        ));
    }
    let mut f2 = digits_padded(fval, sc % 9);
    fdig.append(&mut f2);
    proof {
        assert(fdig@ =~= spec_decimal_frac_digits(w@, precision, scale));
        lemma_digits_padded_bound(lead_val as nat, (intg % 9) as nat);
        lemma_group_digits_bound(w@, lead as int, (intg / 9) as int);
        lemma_group_digits_bound(w@, ioff as int, (sc / 9) as int);
        lemma_digits_padded_bound(fval as nat, (sc % 9) as nat);
        assert(all_digits(idig@));
        assert(all_digits(fdig@));
        lemma_trim_digits_bound(idig@);
    }
    let trimmed = trim_digits(&idig);
    let ipart = digits_to_string(&trimmed);
    let fpart = digits_to_string(&fdig);
    proof {
        reveal_strlit("-");
        reveal_strlit(".");
    }
    let stem: String = if neg {
        "-".to_owned()
    } else {
        String::new()
    };
    let mut text = stem.concat(ipart.as_str());
    if sc > 0 {
        text = text.concat(".");
        text = text.concat(fpart.as_str());
    }
    proof {
        assert(text@ =~= spec_decimal_chars(
            buf@.subrange(pos as int, pos + size),
            precision,
            scale,
        ));
    }
    Ok((MySQLValue::Decimal(text), pos + size))
}

fn decode_signed(buf: &[u8], pos: usize, n: usize) -> (r: Result<(MySQLValue, usize), DecodeError>)
    requires
        1 <= n <= 8,
    ensures
        r matches Ok((v, p)) ==> pos + n <= buf@.len() && v@ == ValueModel::SignedInteger(
            signed_at(buf@, pos as int, n as int),
        ) && p == pos + n,
        r is Err ==> pos + n > buf@.len(),
{
    let blen = buf.len();
    if pos > blen || blen - pos < n {
        return Err(DecodeError::ShortBuffer { offset: pos });
    }
    let x = readvalue::read_signed(buf, pos, n);
    Ok((MySQLValue::SignedInteger(x), pos + n))
}

pub fn varlen_content(buf: &[u8], pos: usize) -> (r: Result<(usize, usize), DecodeError>)
    ensures
        r matches Ok((a, e)) ==> spec_varlen(buf@, pos as int) == Some((a as int, e as int)) && pos
            <= a <= e <= buf@.len(),
        r is Err ==> spec_varlen(buf@, pos as int) is None,
{
    let blen = buf.len();
    let (len64, c, _empty) = match read_packed_len(buf, pos) {
        Ok(t) => t,
        Err(e) => {
            return Err(e);
        },
    };
    proof {
        assert(pos + c <= blen);
    }
    let a = pos + c;
    if ((blen - a) as u64) < len64 {
        return Err(DecodeError::ShortBuffer { offset: pos });
    }
    let e = a + len64 as usize;
    Ok((a, e))
}

/// Decode one non-null column value of the given kind at `pos`.
#[verifier::rlimit(100)]
pub fn decode_value(buf: &[u8], pos: usize, kind: SqlKind) -> (r: Result<
    (MySQLValue, usize),
    DecodeError,
>)
    ensures
        r matches Ok((v, p)) ==> spec_value(buf@, pos as int, kind) == Some((v@, p as int)) && pos
            <= p && (p <= buf@.len() || p == pos),
        r is Err ==> spec_value(buf@, pos as int, kind) is None,
{
    let blen = buf.len();
    match kind {
        SqlKind::Tiny => decode_signed(buf, pos, 1),
        SqlKind::Short => decode_signed(buf, pos, 2),
        SqlKind::Int24 => decode_signed(buf, pos, 3),
        SqlKind::Long => decode_signed(buf, pos, 4),
        SqlKind::LongLong => decode_signed(buf, pos, 8),
        SqlKind::Float => {
            if pos > blen || blen - pos < 4 {
                return Err(DecodeError::ShortBuffer { offset: pos });
            }
            let v = readvalue::read_u32(&buf[pos..pos + 4]);
            proof {
                assert(buf@.subrange(pos as int, pos + 4).subrange(0, 4) =~= buf@.subrange(
                    pos as int,
                    pos + 4,
                ));
                readvalue::lemma_le_bound(buf@.subrange(pos as int, pos + 4));
                readvalue::lemma_pow2_table();
            }
            Ok((MySQLValue::Float(v), pos + 4))
        },
        SqlKind::Double => {
            if pos > blen || blen - pos < 8 {
                return Err(DecodeError::ShortBuffer { offset: pos });
            }
            let v = readvalue::read_u64(&buf[pos..pos + 8]);
            proof {
                assert(buf@.subrange(pos as int, pos + 8).subrange(0, 8) =~= buf@.subrange(
                    pos as int,
                    pos + 8,
                ));
                readvalue::lemma_le_bound(buf@.subrange(pos as int, pos + 8));
                readvalue::lemma_pow2_table();
            }
            Ok((MySQLValue::Double(v), pos + 8))
        },
        SqlKind::Year => {
            if pos >= blen {
                return Err(DecodeError::ShortBuffer { offset: pos });
            }
            let b = buf[pos];
            let y: u16 = if b == 0 {
                0
            } else {
                1900 + b as u16
            };
            Ok((MySQLValue::Year(y), pos + 1))
        },
        SqlKind::Date => {
            if pos > blen || blen - pos < 3 {
                return Err(DecodeError::ShortBuffer { offset: pos });
            }
            let v = readvalue::read_le(buf, pos, 3);
            proof {
                readvalue::lemma_le_bound(buf@.subrange(pos as int, pos + 3));
                readvalue::lemma_pow2_table();
            }
            Ok(
                (
                    MySQLValue::Date {
                        year: (v / 512) as u16,
                        month: ((v / 32) % 16) as u8,
                        day: (v % 32) as u8,
                    },
                    pos + 3,
                ),
            )
        },
        SqlKind::Time { fsp } => {
            let fb = (fsp as usize + 1) / 2;
            if fb > 3 || pos > blen || blen - pos < 3 + fb {
                return Err(DecodeError::ShortBuffer { offset: pos });
            }
            let p = readvalue::read_be(&buf[pos..pos + 3], 3);
            let sub = readvalue::read_be(&buf[pos + 3..pos + 3 + fb], fb);
            proof {
                assert(buf@.subrange(pos as int, pos + 3).subrange(0, 3) =~= buf@.subrange(
                    pos as int,
                    pos + 3,
                ));
                assert(buf@.subrange(pos + 3, pos + 3 + fb).subrange(0, fb as int)
                    =~= buf@.subrange(pos + 3, pos + 3 + fb));
                readvalue::lemma_be_bound(buf@.subrange(pos + 3, pos + 3 + fb));
                readvalue::lemma_pow2_mono(8 * fb as nat, 24);
                readvalue::lemma_pow2_table();
            }
            Ok(
                (
                    MySQLValue::Time {
                        hours: ((p / 4096) % 1024) as u16,
                        minutes: ((p / 64) % 64) as u8,
                        seconds: (p % 64) as u8,
                        subseconds: sub as u32,
                    },
                    pos + 3 + fb,
                ),
            )
        },
        SqlKind::DateTime { fsp } => {
            let fb = (fsp as usize + 1) / 2;
            if fb > 3 || pos > blen || blen - pos < 5 + fb {
                return Err(DecodeError::ShortBuffer { offset: pos });
            }
            let p = readvalue::read_be(&buf[pos..pos + 5], 5);
            let sub = readvalue::read_be(&buf[pos + 5..pos + 5 + fb], fb);
            proof {
                assert(buf@.subrange(pos as int, pos + 5).subrange(0, 5) =~= buf@.subrange(
                    pos as int,
                    pos + 5,
                ));
                assert(buf@.subrange(pos + 5, pos + 5 + fb).subrange(0, fb as int)
                    =~= buf@.subrange(pos + 5, pos + 5 + fb));
                readvalue::lemma_be_bound(buf@.subrange(pos + 5, pos + 5 + fb));
                readvalue::lemma_pow2_mono(8 * fb as nat, 24);
                readvalue::lemma_pow2_table();
            }
            let ym = (p / 4194304) % 131072;
            Ok(
                (
                    MySQLValue::DateTime {
                        year: (ym / 13) as u16,
                        month: (ym % 13) as u8,
                        day: ((p / 131072) % 32) as u8,
                        hour: ((p / 4096) % 32) as u8,
                        minute: ((p / 64) % 64) as u8,
                        second: (p % 64) as u8,
                        subsecond: sub as u32,
                    },
                    pos + 5 + fb,
                ),
            )
        },
        SqlKind::Timestamp { fsp } => {
            let fb = (fsp as usize + 1) / 2;
            if fb > 3 || pos > blen || blen - pos < 4 + fb {
                return Err(DecodeError::ShortBuffer { offset: pos });
            }
            let t = readvalue::read_be(&buf[pos..pos + 4], 4);
            let sub = readvalue::read_be(&buf[pos + 4..pos + 4 + fb], fb);
            proof {
                assert(buf@.subrange(pos as int, pos + 4).subrange(0, 4) =~= buf@.subrange(
                    pos as int,
                    pos + 4,
                ));
                assert(buf@.subrange(pos + 4, pos + 4 + fb).subrange(0, fb as int)
                    =~= buf@.subrange(pos + 4, pos + 4 + fb));
                readvalue::lemma_be_bound(buf@.subrange(pos as int, pos + 4));
                readvalue::lemma_be_bound(buf@.subrange(pos + 4, pos + 4 + fb));
                readvalue::lemma_pow2_mono(8 * fb as nat, 24);
                readvalue::lemma_pow2_table();
            }
            Ok(
                (
                    MySQLValue::Timestamp { unix_time: t as u32, subsecond: sub as u32 },
                    pos + 4 + fb,
                ),
            )
        },
        SqlKind::Decimal { precision, scale } => decode_decimal(buf, pos, precision, scale),
        SqlKind::VarChar => {
            let (a, e) = match varlen_content(buf, pos) {
                Ok(t) => t,
                Err(er) => {
                    return Err(er);
                },
            };
            let s = readvalue::read_string_value(&buf[a..e]);
            Ok((MySQLValue::Text(s), e))
        },
        SqlKind::Blob { texty: _ } => {
            let (a, e) = match varlen_content(buf, pos) {
                Ok(t) => t,
                Err(er) => {
                    return Err(er);
                },
            };
            let mut content: Vec<u8> = Vec::new();
            content.extend_from_slice(&buf[a..e]);
            proof {
                assert(content@ =~= buf@.subrange(a as int, e as int));
            }
            Ok((MySQLValue::Blob(content), e))
        },
        SqlKind::Enum | SqlKind::SetBits => {
            let (a, e) = match varlen_content(buf, pos) {
                Ok(t) => t,
                Err(er) => {
                    return Err(er);
                },
            };
            if e - a > 8 {
                return Err(DecodeError::BadLength { offset: pos });
            }
            let v = readvalue::read_le(buf, a, e - a);
            Ok((MySQLValue::Enum(v), e))
        },
        SqlKind::Json => {
            let (a, e) = match varlen_content(buf, pos) {
                Ok(t) => t,
                Err(er) => {
                    return Err(er);
                },
            };
            let mut content: Vec<u8> = Vec::new();
            content.extend_from_slice(&buf[a..e]);
            proof {
                assert(content@ =~= buf@.subrange(a as int, e as int));
            }
            Ok((MySQLValue::Json(content), e))
        },
        SqlKind::Unknown => Ok((MySQLValue::Null, pos)),
    }
}

/// Null bitmap length for `n` columns.
pub open spec fn spec_bitmap_len(n: int) -> int {
    (n + 7) / 8
}

/// Whether bit `i` of the null bitmap at `base` is set (column `i` is NULL).
pub open spec fn spec_null_bit(b: Seq<u8>, base: int, i: int) -> bool {
    (b[base + i / 8] >> ((i % 8) as u8)) & 1 == 1
}

/// One row image, decoded from column `i` on with values starting at `pos`.
pub open spec fn spec_image_from(
    b: Seq<u8>,
    base: int,
    cols: Seq<ColumnModel>,
    i: int,
    pos: int,
) -> Option<(Seq<Option<ValueModel>>, int)>
    decreases cols.len() - i,
{
    if i >= cols.len() {
        Some((Seq::empty(), pos))
    } else if spec_null_bit(b, base, i) {
        match spec_image_from(b, base, cols, i + 1, pos) {
            None => None,
            Some((s, p)) => Some((seq![Option::<ValueModel>::None] + s, p)),
        }
    } else {
        match spec_value(b, pos, cols[i].sql_type) {
            None => None,
            Some((v, p1)) => match spec_image_from(b, base, cols, i + 1, p1) {
                None => None,
                Some((s, p)) => Some((seq![Some(v)] + s, p)),
            },
        }
    }
}

/// One row image with its null bitmap at `base`.
pub open spec fn spec_image(b: Seq<u8>, base: int, cols: Seq<ColumnModel>) -> Option<
    (Seq<Option<ValueModel>>, int),
> {
    if 0 <= base && base + spec_bitmap_len(cols.len() as int) <= b.len() {
        spec_image_from(b, base, cols, 0, base + spec_bitmap_len(cols.len() as int))
    } else {
        None
    }
}

/// A decoded prefix joined with the decode of the remainder.
pub open spec fn combine_image(
    prefix: Seq<Option<ValueModel>>,
    rest: Option<(Seq<Option<ValueModel>>, int)>,
) -> Option<(Seq<Option<ValueModel>>, int)> {
    match rest {
        None => None,
        Some((s, p)) => Some((prefix + s, p)),
    }
}

/// Decode one row image at `base`.
#[verifier::rlimit(60)]
pub fn read_image(buf: &[u8], base: usize, columns: &Vec<crate::meta::ColumnDescriptor>) -> (r:
    Result<(Vec<Option<MySQLValue>>, usize), DecodeError>)
    ensures
        r matches Ok((img, p)) ==> spec_image(buf@, base as int, columns.deep_view()) == Some(
            (img.deep_view(), p as int),
        ) && p <= buf@.len() && base <= p,
        r is Err ==> spec_image(buf@, base as int, columns.deep_view()) is None,
{
    let blen = buf.len();
    let ghost colsm = columns.deep_view();
    let n = columns.len();
    let bm: usize = n / 8 + (if n % 8 == 0 { 0 } else { 1 });
    proof {
        assert(bm == spec_bitmap_len(n as int));
    }
    if base > blen || blen - base < bm {
        return Err(DecodeError::ShortBuffer { offset: base });
    }
    let mut pos: usize = base + bm;
    let mut out: Vec<Option<MySQLValue>> = Vec::new();
    let mut i: usize = 0;
    proof {
        assert(out.deep_view() =~= Seq::<Option<ValueModel>>::empty());
        assert(combine_image(
            out.deep_view(),
            spec_image_from(buf@, base as int, colsm, 0, base + bm),
        ) == spec_image_from(buf@, base as int, colsm, 0, base + bm));
    }
    while i < n
        invariant
            i <= n,
            n == columns@.len(),
            colsm == columns.deep_view(),
            colsm.len() == n,
            blen == buf@.len(),
            base + bm <= blen,
            pos <= blen,
            base <= pos,
            bm == spec_bitmap_len(n as int),
            out@.len() == i,
            spec_image_from(buf@, base as int, colsm, 0, base + bm) == combine_image(
                out.deep_view(),
                spec_image_from(buf@, base as int, colsm, i as int, pos as int),
            ),
        decreases n - i,
    {
        let ghost prev = out.deep_view();
        let nullbit = (buf[base + i / 8] >> ((i % 8) as u8)) & 1 == 1;
        proof {
            assert(nullbit == spec_null_bit(buf@, base as int, i as int));
        }
        if nullbit {
            out.push(Option::None);
            proof {
                assert(out.deep_view() =~= prev + seq![Option::<ValueModel>::None]);
                match spec_image_from(buf@, base as int, colsm, i + 1, pos as int) {
                    Some((s, p)) => {
                        assert(prev + (seq![Option::<ValueModel>::None] + s) =~= (prev
                            + seq![Option::<ValueModel>::None]) + s);
                    },
                    None => {},
                }
            }
            i = i + 1;
        } else {
            let kind = columns[i].sql_type;
            proof {
                assert(colsm[i as int] == columns@[i as int]@);
                assert(colsm[i as int].sql_type == kind);
            }
            match decode_value(buf, pos, kind) {
                Ok((v, p2)) => {
                    let ghost vm = v@;
                    out.push(Option::Some(v));
                    proof {
                        assert(out.deep_view() =~= prev + seq![Some(vm)]);
                        match spec_image_from(buf@, base as int, colsm, i + 1, p2 as int) {
                            Some((s, p)) => {
                                assert(prev + (seq![Some(vm)] + s) =~= (prev + seq![Some(vm)])
                                    + s);
                            },
                            None => {},
                        }
                    }
                    pos = p2;
                    i = i + 1;
                },
                Err(e) => {
                    return Err(e);
                },
            }
        }
    }
    proof {
        assert(spec_image_from(buf@, base as int, colsm, n as int, pos as int) == Some(
            (Seq::<Option<ValueModel>>::empty(), pos as int),
        ));
        assert(out.deep_view() + Seq::<Option<ValueModel>>::empty() =~= out.deep_view());
    }
    Ok((out, pos))
}

/// All row images from `pos` to the end of the buffer.
pub open spec fn spec_images(b: Seq<u8>, cols: Seq<ColumnModel>, pos: int) -> Option<
    Seq<Seq<Option<ValueModel>>>,
>
    decreases b.len() - pos,
{
    if pos < 0 || pos > b.len() {
        None
    } else if pos == b.len() {
        Some(Seq::empty())
    } else {
        match spec_image(b, pos, cols) {
            None => None,
            Some((img, p2)) => if p2 <= pos || p2 > b.len() {
                None
            } else {
                match spec_images(b, cols, p2) {
                    None => None,
                    Some(s) => Some(seq![img] + s),
                }
            },
        }
    }
}

/// A decoded image prefix joined with the decode of the remainder.
pub open spec fn combine_images(
    prefix: Seq<Seq<Option<ValueModel>>>,
    rest: Option<Seq<Seq<Option<ValueModel>>>>,
) -> Option<Seq<Seq<Option<ValueModel>>>> {
    match rest {
        None => None,
        Some(s) => Some(prefix + s),
    }
}

/// Decode row images from `start` until the buffer is exhausted.
#[verifier::rlimit(60)]
pub fn read_images(buf: &[u8], start: usize, columns: &Vec<crate::meta::ColumnDescriptor>) -> (r:
    Result<Vec<Vec<Option<MySQLValue>>>, DecodeError>)
    requires
        start <= buf@.len(),
    ensures
        r matches Ok(rows) ==> spec_images(buf@, columns.deep_view(), start as int) == Some(
            rows.deep_view(),
        ),
        r is Err ==> spec_images(buf@, columns.deep_view(), start as int) is None,
{
    let blen = buf.len();
    let ghost colsm = columns.deep_view();
    let mut pos: usize = start;
    let mut out: Vec<Vec<Option<MySQLValue>>> = Vec::new();
    proof {
        assert(out.deep_view() =~= Seq::<Seq<Option<ValueModel>>>::empty());
        assert(combine_images(out.deep_view(), spec_images(buf@, colsm, start as int))
            == spec_images(buf@, colsm, start as int));
    }
    while pos < blen
        invariant
            pos <= blen,
            blen == buf@.len(),
            colsm == columns.deep_view(),
            spec_images(buf@, colsm, start as int) == combine_images(
                out.deep_view(),
                spec_images(buf@, colsm, pos as int),
            ),
        decreases blen - pos,
    {
        let ghost prev = out.deep_view();
        match read_image(buf, pos, columns) {
            Ok((img, p2)) => {
                if p2 <= pos {
                    return Err(DecodeError::BadLength { offset: pos });
                }
                let ghost imgm = img.deep_view();
                out.push(img);
                proof {
                    assert(out.deep_view() =~= prev + seq![imgm]);
                    match spec_images(buf@, colsm, p2 as int) {
                        Some(s) => {
                            assert(prev + (seq![imgm] + s) =~= (prev + seq![imgm]) + s);
                        },
                        None => {},
                    }
                }
                pos = p2;
            },
            Err(e) => {
                return Err(e);
            },
        }
    }
    proof {
        assert(spec_images(buf@, colsm, pos as int) == Some(
            Seq::<Seq<Option<ValueModel>>>::empty(),
        ));
        assert(out.deep_view() + Seq::<Seq<Option<ValueModel>>>::empty() =~= out.deep_view());
    }
    Ok(out)
}

/// The decoded row images of one row event.
#[derive(Clone, Debug)]
pub struct RowValue {
    pub rows: Vec<Vec<Option<MySQLValue>>>,
}

impl View for RowValue {
    type V = Seq<Seq<Option<ValueModel>>>;

    open spec fn view(&self) -> Seq<Seq<Option<ValueModel>>> {
        self.rows.deep_view()
    }
}

/// The row images a row event's payload denotes under a schema: after the
/// 6-byte table id and 2 flag bytes comes a 2-byte extra-data length that
/// counts itself, then the packed column count, one columns-present bitmap
/// (two for Update), and the row images.
pub open spec fn spec_row_value(b: Seq<u8>, cols: Seq<ColumnModel>, tc: BinlogEvent) -> Option<
    Seq<Seq<Option<ValueModel>>>,
> {
    if b.len() < 10 {
        None
    } else {
        let extra = le_at(b, 8, 2);
        if extra < 2 {
            None
        } else {
            let p0 = 10 + extra - 2;
            match spec_packed_len(b, p0 as int) {
                None => None,
                Some((cc, c1, _empty)) => if cc != cols.len() || cols.len() == 0 {
                    None
                } else {
                    let bm = spec_bitmap_len(cols.len() as int);
                    let nbm: int = if tc == BinlogEvent::UpdateEvent {
                        2
                    } else {
                        1
                    };
                    let p1 = p0 + c1 + nbm * bm;
                    if p1 > b.len() {
                        None
                    } else {
                        spec_images(b, cols, p1 as int)
                    }
                },
            }
        }
    }
}

impl RowValue {
    /// Decode the row section of a Write/Update/Delete event payload.
    /// Update images are consumed in pairs: position 0 is always "before",
    /// position 1 is always "after".
    #[verifier::rlimit(60)]
    pub fn read_row_value(payload: &[u8], map: &TableSchema, type_code: BinlogEvent) -> (r: Result<
        RowValue,
        DecodeError,
    >)
        ensures
            r matches Ok(rv) ==> spec_row_value(payload@, map@.columns, type_code) == Some(rv@),
            r is Err ==> spec_row_value(payload@, map@.columns, type_code) is None,
    {
        let blen = payload.len();
        let ghost colsm = map@.columns;
        proof {
            assert(map.columns.deep_view() =~= colsm);
        }
        if blen < 10 {
            return Err(DecodeError::ShortBuffer { offset: 0 });
        }
        let extra = readvalue::read_u16(&payload[8..10]);
        proof {
            assert(payload@.subrange(8, 10).subrange(0, 2) =~= payload@.subrange(8, 10));
        }
        if extra < 2 {
            return Err(DecodeError::BadLength { offset: 8 });
        }
        let p0: usize = 10 + (extra as usize - 2);
        let (cc, c1, _empty) = match read_packed_len(payload, p0) {
            Ok(t) => t,
            Err(e) => {
                return Err(e);
            },
        };
        let n = map.columns.len();
        if cc != n as u64 || n == 0 {
            return Err(DecodeError::ColumnCountMismatch { expected: n, found: cc });
        }
        let bm: usize = n / 8 + (if n % 8 == 0 { 0 } else { 1 });
        proof {
            assert(bm == spec_bitmap_len(n as int));
            assert(p0 + c1 <= blen);
        }
        let nbm: usize = if matches!(type_code, BinlogEvent::UpdateEvent) {
            2
        } else {
            1
        };
        let after_count = p0 + c1;
        if nbm * bm > blen - after_count {
            return Err(DecodeError::ShortBuffer { offset: after_count });
        }
        let p1 = after_count + nbm * bm;
        match read_images(payload, p1, &map.columns) {
            Ok(rows) => Ok(RowValue { rows }),
            Err(e) => Err(e),
        }
    }
}

/// A decoded row image has one slot per remaining column.
pub proof fn lemma_image_from_len(b: Seq<u8>, base: int, cols: Seq<ColumnModel>, i: int, pos: int)
    requires
        0 <= i <= cols.len(),
    ensures
        spec_image_from(b, base, cols, i, pos) matches Some((s, p)) ==> s.len() == cols.len() - i,
    decreases cols.len() - i,
{
    if i >= cols.len() {
    } else if spec_null_bit(b, base, i) {
        lemma_image_from_len(b, base, cols, i + 1, pos);
    } else {
        match spec_value(b, pos, cols[i].sql_type) {
            None => {},
            Some((v, p1)) => {
                lemma_image_from_len(b, base, cols, i + 1, p1);
            },
        }
    }
}

/// Every decoded row image has one slot per column.
pub proof fn lemma_images_len(b: Seq<u8>, cols: Seq<ColumnModel>, pos: int, s: Seq<Seq<Option<ValueModel>>>)
    requires
        spec_images(b, cols, pos) == Some(s),
    ensures
        forall|k: int| 0 <= k < s.len() ==> (#[trigger] s[k]).len() == cols.len(),
    decreases b.len() - pos,
{
    if pos < 0 || pos > b.len() {
    } else if pos == b.len() {
    } else {
        match spec_image(b, pos, cols) {
            None => {},
            Some((img, p2)) => {
                if p2 <= pos || p2 > b.len() {
                } else {
                    lemma_image_from_len(b, pos, cols, 0, pos + spec_bitmap_len(cols.len() as int));
                    match spec_images(b, cols, p2) {
                        None => {},
                        Some(rest) => {
                            lemma_images_len(b, cols, p2, rest);
                            assert(s == seq![img] + rest);
                            assert(forall|k: int|
                                1 <= k < s.len() ==> #[trigger] s[k] == rest[k - 1]);
                        },
                    }
                }
            },
        }
    }
}

/// Every row image a row event decodes to has one slot per column.
pub proof fn lemma_row_value_len(b: Seq<u8>, cols: Seq<ColumnModel>, tc: BinlogEvent, s: Seq<Seq<Option<ValueModel>>>)
    requires
        spec_row_value(b, cols, tc) == Some(s),
    ensures
        forall|k: int| 0 <= k < s.len() ==> (#[trigger] s[k]).len() == cols.len(),
{
    if b.len() < 10 {
    } else {
        let extra = le_at(b, 8, 2);
        if extra < 2 {
        } else {
            let p0 = 10 + extra - 2;
            match spec_packed_len(b, p0 as int) {
                None => {},
                Some((cc, c1, _empty)) => {
                    if cc != cols.len() || cols.len() == 0 {
                    } else {
                        let bm = spec_bitmap_len(cols.len() as int);
                        let nbm: int = if tc == BinlogEvent::UpdateEvent {
                            2
                        } else {
                            1
                        };
                        let p1 = p0 + c1 + nbm * bm;
                        if p1 > b.len() {
                        } else {
                            if spec_images(b, cols, p1 as int) == Some(s) {
                                lemma_images_len(b, cols, p1 as int, s);
                            }
                        }
                    }
                },
            }
        }
    }
}

/// A row payload decodes the same under the Write and Delete codes: only
/// the Update code changes the layout (a second columns-present bitmap).
pub proof fn lemma_row_value_code(b: Seq<u8>, cols: Seq<ColumnModel>, tc1: BinlogEvent, tc2: BinlogEvent)
    requires
        tc1 != BinlogEvent::UpdateEvent,
        tc2 != BinlogEvent::UpdateEvent,
    ensures
        spec_row_value(b, cols, tc1) == spec_row_value(b, cols, tc2),
{
}

} // verus!
