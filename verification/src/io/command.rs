//! COM_QUERY command packets and text-protocol result decoding.
//!
//! A text-protocol row is a sequence of length-prefixed values, one per
//! column, using the packed-length convention; marker `0xfb` denotes an
//! explicit empty value.

use vstd::prelude::*;
use crate::io::response;
use crate::readvalue;
use crate::readvalue::{le_bytes, utf8_lossy_of};
use crate::binlog::parsevalue::{spec_varlen, varlen_content};

verus! {

/// One decoded result row: column name and value pairs, in column order.
#[derive(Clone, Debug)]
pub struct TextRow {
    pub pairs: Vec<(String, String)>,
}

impl View for TextRow {
    type V = Seq<(Seq<char>, Seq<char>)>;

    open spec fn view(&self) -> Seq<(Seq<char>, Seq<char>)> {
        self.pairs@.map_values(|p: (String, String)| (p.0@, p.1@))
    }
}

/// The value under the first pair with this key.
pub open spec fn spec_kv_lookup(row: Seq<(Seq<char>, Seq<char>)>, key: Seq<char>) -> Option<
    Seq<char>,
>
    decreases row.len(),
{
    if row.len() == 0 {
        None
    } else if row[0].0 == key {
        Some(row[0].1)
    } else {
        spec_kv_lookup(row.drop_first(), key)
    }
}

proof fn lemma_kv_lookup_at(row: Seq<(Seq<char>, Seq<char>)>, key: Seq<char>, i: int)
    requires
        0 <= i < row.len(),
        row[i].0 == key,
        forall|j: int| 0 <= j < i ==> (#[trigger] row[j].0) != key,
    ensures
        spec_kv_lookup(row, key) == Some(row[i].1),
    decreases i,
{
    if i > 0 {
        lemma_kv_lookup_at(row.drop_first(), key, i - 1);
    }
}

proof fn lemma_kv_lookup_none(row: Seq<(Seq<char>, Seq<char>)>, key: Seq<char>)
    requires
        forall|j: int| 0 <= j < row.len() ==> (#[trigger] row[j].0) != key,
    ensures
        spec_kv_lookup(row, key) is None,
    decreases row.len(),
{
    if row.len() > 0 {
        lemma_kv_lookup_none(row.drop_first(), key);
    }
}

impl TextRow {
    /// An empty row.
    pub fn new() -> (r: TextRow)
        ensures
            r@.len() == 0,
    {
        TextRow { pairs: Vec::new() }
    }

    /// The value under the first pair with this key.
    pub fn get(&self, key: &String) -> (r: Option<&String>)
        ensures
            r matches Some(v) ==> spec_kv_lookup(self@, key@) == Some(v@),
            r is None ==> spec_kv_lookup(self@, key@) is None,
    {
        let n = self.pairs.len();
        for i in 0..n
            invariant
                n == self.pairs@.len(),
                forall|j: int| 0 <= j < i ==> (#[trigger] self@[j].0) != key@,
        {
            if self.pairs[i].0.eq(key) {
                proof {
                    lemma_kv_lookup_at(self@, key@, i as int);
                }
                return Some(&self.pairs[i].1);
            }
        }
        proof {
            lemma_kv_lookup_none(self@, key@);
        }
        None
    }
}

/// Field metadata the server sends for each result column.
#[derive(Clone, Debug)]
pub struct MetaColumn {
    pub catalog: String,
    pub schema: String,
    pub table: String,
    pub org_table: String,
    pub name: String,
    pub org_name: String,
    pub character_set: u16,
    pub column_length: u32,
    pub column_type: u8,
    pub flag: u16,
}

/// End offset of the length-prefixed field starting at `off`.
pub open spec fn spec_field_end(b: Seq<u8>, off: int) -> int {
    off + 1 + b[off]
}

/// The content bytes of the length-prefixed field starting at `off`.
pub open spec fn spec_field_bytes(b: Seq<u8>, off: int) -> Seq<u8> {
    b.subrange(off + 1, spec_field_end(b, off))
}

/// Whether the buffer holds six length-prefixed strings, a filler byte,
/// and the ten fixed metadata bytes a column definition ends with.
pub open spec fn spec_meta_well_formed(b: Seq<u8>) -> bool {
    let o1 = spec_field_end(b, 0);
    let o2 = spec_field_end(b, o1);
    let o3 = spec_field_end(b, o2);
    let o4 = spec_field_end(b, o3);
    let o5 = spec_field_end(b, o4);
    let o6 = spec_field_end(b, o5);
    &&& b.len() > 0
    &&& o1 < b.len()
    &&& o2 < b.len()
    &&& o3 < b.len()
    &&& o4 < b.len()
    &&& o5 < b.len()
    &&& o6 + 10 <= b.len()
}

impl MetaColumn {
    /// Decode a column definition packet.
    pub fn new(buf: &Vec<u8>) -> (r: MetaColumn)
        requires
            spec_meta_well_formed(buf@),
        ensures
            ({
                let b = buf@;
                let o1 = spec_field_end(b, 0);
                let o2 = spec_field_end(b, o1);
                let o3 = spec_field_end(b, o2);
                let o4 = spec_field_end(b, o3);
                let o5 = spec_field_end(b, o4);
                let o6 = spec_field_end(b, o5);
                &&& r.catalog@ == utf8_lossy_of(spec_field_bytes(b, 0))
                &&& r.schema@ == utf8_lossy_of(spec_field_bytes(b, o1))
                &&& r.table@ == utf8_lossy_of(spec_field_bytes(b, o2))
                &&& r.org_table@ == utf8_lossy_of(spec_field_bytes(b, o3))
                &&& r.name@ == utf8_lossy_of(spec_field_bytes(b, o4))
                &&& r.org_name@ == utf8_lossy_of(spec_field_bytes(b, o5))
                &&& r.character_set == le_bytes(b.subrange(o6 + 1, o6 + 3))
                &&& r.column_length == le_bytes(b.subrange(o6 + 3, o6 + 7))
                &&& r.column_type == b[o6 + 7]
                &&& r.flag == le_bytes(b.subrange(o6 + 8, o6 + 10))
            }),
    {
        let mut offset: usize = 0;
        let mut var_size = buf[0] as usize;
        offset = offset + 1;
        let catalog = readvalue::read_string_value(&buf[offset..offset + var_size]);
        offset = offset + var_size;

        var_size = buf[offset] as usize;
        offset = offset + 1;
        let schema = readvalue::read_string_value(&buf[offset..offset + var_size]);
        offset = offset + var_size;

        var_size = buf[offset] as usize;
        offset = offset + 1;
        let table = readvalue::read_string_value(&buf[offset..offset + var_size]);
        offset = offset + var_size;

        var_size = buf[offset] as usize;
        offset = offset + 1;
        let org_table = readvalue::read_string_value(&buf[offset..offset + var_size]);
        offset = offset + var_size;

        var_size = buf[offset] as usize;
        offset = offset + 1;
        let name = readvalue::read_string_value(&buf[offset..offset + var_size]);
        offset = offset + var_size;

        var_size = buf[offset] as usize;
        offset = offset + 1;
        let org_name = readvalue::read_string_value(&buf[offset..offset + var_size]);
        offset = offset + var_size;

        offset = offset + 1;

        let character_set = readvalue::read_u16(&buf[offset..offset + 2]);
        proof {
            assert(buf@.subrange(offset as int, offset + 2).subrange(0, 2) =~= buf@.subrange(
                offset as int,
                offset + 2,
            ));
        }
        offset = offset + 2;

        let column_length = readvalue::read_u32(&buf[offset..offset + 4]);
        proof {
            assert(buf@.subrange(offset as int, offset + 4).subrange(0, 4) =~= buf@.subrange(
                offset as int,
                offset + 4,
            ));
        }
        offset = offset + 4;

        let column_type = buf[offset];
        offset = offset + 1;

        let flag = readvalue::read_u16(&buf[offset..offset + 2]);
        proof {
            assert(buf@.subrange(offset as int, offset + 2).subrange(0, 2) =~= buf@.subrange(
                offset as int,
                offset + 2,
            ));
        }

        MetaColumn {
            catalog,
            schema,
            table,
            org_table,
            name,
            org_name,
            character_set,
            column_length,
            column_type,
            flag,
        }
    }
}

proof fn lemma_encode_len(chars: Seq<char>)
    ensures
        vstd::utf8::encode_utf8(chars).len() <= 4 * chars.len(),
    decreases chars.len(),
{
    if chars.len() > 0 {
        lemma_encode_len(chars.drop_first());
    }
}

/// Assemble a COM_QUERY packet: a 4-byte frame header, the command byte
/// `0x03`, then the statement text.
pub fn commquery(sql: &String) -> (r: Vec<u8>)
    requires
        sql@.len() < 0x20_0000,
    ensures
        r@.len() == 5 + vstd::utf8::encode_utf8(sql@).len(),
        le_bytes(r@.subrange(0, 3)) == 1 + vstd::utf8::encode_utf8(sql@).len(),
        r@[3] == 0,
        r@[4] == 3,
        r@.subrange(5, r@.len() as int) == vstd::utf8::encode_utf8(sql@),
{
    let mut payload: Vec<u8> = Vec::new();
    payload.push(3);
    let sql_bytes = sql.as_str().as_bytes();
    proof {
        lemma_encode_len(sql@);
    }
    payload.extend_from_slice(sql_bytes);
    let mut pack = response::pack_header(payload.as_slice(), 0);
    let ghost header = pack@;
    pack.append(&mut payload);
    proof {
        assert(pack@.subrange(0, 3) =~= header.subrange(0, 3));
        assert(pack@.subrange(5, pack@.len() as int) =~= vstd::utf8::encode_utf8(sql@));
    }
    pack
}

/// The values of one text-protocol row from `pos` on, for `n` columns.
pub open spec fn spec_text_values(b: Seq<u8>, pos: int, n: int) -> Option<(Seq<Seq<char>>, int)>
    decreases n,
{
    if n <= 0 {
        Some((Seq::empty(), pos))
    } else {
        match spec_varlen(b, pos) {
            None => None,
            Some((a, e)) => match spec_text_values(b, e, n - 1) {
                None => None,
                Some((rest, p)) => Some(
                    (seq![utf8_lossy_of(b.subrange(a, e))] + rest, p),
                ),
            },
        }
    }
}

/// Joined with the decode of the remainder.
pub open spec fn combine_text(prefix: Seq<Seq<char>>, rest: Option<(Seq<Seq<char>>, int)>)
    -> Option<(Seq<Seq<char>>, int)> {
    match rest {
        None => None,
        Some((s, p)) => Some((prefix + s, p)),
    }
}

/// Decode one text-protocol row into column name and value pairs, in
/// column order.
pub fn unpack_text_value(buf: &Vec<u8>, column_info: &Vec<MetaColumn>) -> (r: Option<TextRow>)
    ensures
        r matches Some(row) ==> ({
            &&& spec_text_values(buf@, 0, column_info@.len() as int) matches Some((vals, _p))
                && vals == row@.map_values(|pr: (Seq<char>, Seq<char>)| pr.1)
            &&& row@.len() == column_info@.len()
            &&& forall|i: int|
                0 <= i < row@.len() ==> #[trigger] row@[i].0 == column_info@[i].name@
        }),
        r is None ==> spec_text_values(buf@, 0, column_info@.len() as int) is None,
{
    let n = column_info.len();
    let mut pos: usize = 0;
    let mut pairs: Vec<(String, String)> = Vec::new();
    let mut i: usize = 0;
    while i < n
        invariant
            i <= n,
            n == column_info@.len(),
            pairs@.len() == i,
            forall|j: int|
                0 <= j < i ==> #[trigger] pairs@[j].0@ == column_info@[j].name@,
            spec_text_values(buf@, 0, n as int) == combine_text(
                pairs@.map_values(|p: (String, String)| p.1@),
                spec_text_values(buf@, pos as int, (n - i) as int),
            ),
        decreases n - i,
    {
        let ghost prevvals = pairs@.map_values(|p: (String, String)| p.1@);
        let (a, e) = match varlen_content(buf.as_slice(), pos) {
            Ok(t) => t,
            Err(_) => {
                return None;
            },
        };
        let value = readvalue::read_string_value(&buf[a..e]);
        let name = column_info[i].name.clone();
        pairs.push((name, value));
        proof {
            assert(pairs@.map_values(|p: (String, String)| p.1@) =~= prevvals + seq![
                utf8_lossy_of(buf@.subrange(a as int, e as int)),
            ]);
            match spec_text_values(buf@, e as int, (n - i - 1) as int) {
                Some((rest, p)) => {
                    assert(prevvals + (seq![utf8_lossy_of(buf@.subrange(a as int, e as int))]
                        + rest) =~= (prevvals + seq![
                        utf8_lossy_of(buf@.subrange(a as int, e as int)),
                    ]) + rest);
                },
                None => {},
            }
        }
        pos = e;
        i = i + 1;
    }
    proof {
        assert(spec_text_values(buf@, pos as int, 0) == Some((
            Seq::<Seq<char>>::empty(),
            pos as int,
        )));
        let row = TextRow { pairs };
        assert(pairs@.map_values(|p: (String, String)| p.1@) + Seq::<Seq<char>>::empty()
            =~= pairs@.map_values(|p: (String, String)| p.1@));
        assert(row@.map_values(|pr: (Seq<char>, Seq<char>)| pr.1) =~= pairs@.map_values(
            |p: (String, String)| p.1@,
        ));
    }
    Some(TextRow { pairs })
}

} // verus!
