//! SQL synthesizer: renders decoded row images into INSERT, UPDATE and
//! DELETE text.
//!
//! The WHERE predicate is an AND-conjunction over the primary-key columns
//! when the schema has any, and over every column otherwise (a degraded,
//! ambiguous-match fallback that is kept as is).  A NULL value renders as
//! `col IS NULL` inside a predicate and as `col=Null` in a SET list.

use vstd::prelude::*;
use byteorder::ByteOrder;
use mysql_common::proto::MyDeserialize;
use crate::meta::{ColumnModel, SchemaModel, SqlKind, TableSchema};
use crate::readvalue;
use crate::readvalue::{dec_chars, int_chars, utf8_lossy_of};
use crate::binlog::parsevalue::{MySQLValue, RowValue, ValueModel};
use crate::binlog::readevent::BinlogEvent;

verus! {

/// The lowercase hex digit character for `d` in `0 .. 16`.
pub open spec fn hex_digit_char(d: int) -> char {
    if d < 10 {
        readvalue::digit_char(d)
    } else if d == 10 {
        'a'
    } else if d == 11 {
        'b'
    } else if d == 12 {
        'c'
    } else if d == 13 {
        'd'
    } else if d == 14 {
        'e'
    } else {
        'f'
    }
}

/// Lowercase hex rendering of a byte string, two digits per byte.
pub open spec fn spec_hex_chars(b: Seq<u8>) -> Seq<char>
    decreases b.len(),
{
    if b.len() == 0 {
        Seq::empty()
    } else {
        seq![hex_digit_char((b[0] / 16) as int), hex_digit_char((b[0] % 16) as int)] + spec_hex_chars(
            b.drop_first(),
        )
    }
}

/// Relies on `hex::encode`: each byte becomes two lowercase hex digits, in
/// order.
#[verifier::external_body]
fn to_hex(b: &Vec<u8>) -> (r: String)
    ensures
        r@ == spec_hex_chars(b@),
{
    hex::encode(b)
}

/// What Rust's default formatting prints for the IEEE 754 double with these
/// bits; it depends on the bits alone.
pub uninterp spec fn double_text_of(bits: u64) -> Seq<char>;

/// Relies on `byteorder::LittleEndian::read_f64` and the `Display`
/// formatting of the result: the text depends on the bit pattern alone.
#[verifier::external_body]
fn render_double_bits(bits: u64) -> (r: String)
    ensures
        r@ == double_text_of(bits),
{
    let v = byteorder::LittleEndian::read_f64(&bits.to_le_bytes());
    format!("{}", v)
}

/// What Rust's default formatting prints for the IEEE 754 single with these
/// bits; it depends on the bits alone.
pub uninterp spec fn float_text_of(bits: u32) -> Seq<char>;

/// Relies on `byteorder::LittleEndian::read_f32` and the `Display`
/// formatting of the result: the text depends on the bit pattern alone.
#[verifier::external_body]
fn render_float_bits(bits: u32) -> (r: String)
    ensures
        r@ == float_text_of(bits),
{
    let v = byteorder::LittleEndian::read_f32(&bits.to_le_bytes());
    format!("{}", v)
}

/// The nearest-double rendering of a decimal digit string; it depends on
/// the digits alone.
pub uninterp spec fn double_of_decimal_text(s: Seq<char>) -> Seq<char>;

/// Relies on `bigdecimal::BigDecimal` parsing and its `to_f64`: a decimal
/// digit string rendered through its nearest double-precision
/// representation, a function of the digits alone.
#[verifier::external_body]
fn decimal_to_double_text(s: &String) -> (r: String)
    ensures
        r@ == double_of_decimal_text(s@),
{
    let parsed: Result<bigdecimal::BigDecimal, _> = s.parse();
    match parsed.ok().and_then(|d| bigdecimal::ToPrimitive::to_f64(&d)) {
        Some(v) => format!("{}", v),
        None => String::from("0"),
    }
}

/// The JSON text of a binary JSON document, when it parses; it depends on
/// the bytes alone.
pub uninterp spec fn json_text_of(b: Seq<u8>) -> Option<Seq<char>>;

/// Relies on `mysql_common`'s binary JSON decoder and `serde_json`'s
/// serialization: the text of the decoded value tree, a function of the
/// bytes alone, `None` when the document does not parse.
#[verifier::external_body]
fn json_text(b: &Vec<u8>) -> (r: Option<String>)
    ensures
        r matches Some(s) ==> json_text_of(b@) == Some(s@),
        r is None ==> json_text_of(b@) is None,
{
    let mut pb = mysql_common::io::ParseBuf(&b[..]);
    let v = mysql_common::binlog::jsonb::Value::deserialize((), &mut pb).ok()?;
    let tree: serde_json::Value = std::convert::TryFrom::try_from(v).ok()?;
    Some(tree.to_string())
}

/// Whether values of this column type quote like character data.
pub open spec fn spec_texty(k: SqlKind) -> bool {
    k matches SqlKind::Blob { texty: true }
}

/// Whether this slot renders as NULL: an absent or NULL value, or an empty
/// non-character blob.
pub open spec fn spec_is_nullish(v: Option<ValueModel>, texty: bool) -> bool {
    match v {
        Option::None => true,
        Some(ValueModel::Null) => true,
        Some(ValueModel::Blob(b)) => !texty && b.len() == 0,
        _ => false,
    }
}

/// The SQL literal text of one value in a VALUES list.
pub open spec fn spec_render_value(v: Option<ValueModel>, texty: bool) -> Seq<char> {
    match v {
        Option::None => "Null"@,
        Some(ValueModel::Null) => "Null"@,
        Some(ValueModel::Text(s)) => "'"@ + s + "'"@,
        Some(ValueModel::Blob(b)) => if texty {
            "'"@ + utf8_lossy_of(b) + "'"@
        } else if b.len() > 0 {
            "0x"@ + spec_hex_chars(b)
        } else {
            "Null"@
        },
        Some(ValueModel::Timestamp { unix_time, subsecond }) => dec_chars(unix_time as nat) + "."@
            + dec_chars(subsecond as nat),
        Some(ValueModel::Enum(e)) => dec_chars(e),
        Some(ValueModel::DateTime { year, month, day, hour, minute, second, subsecond }) => "'"@
            + dec_chars(year as nat) + "-"@ + dec_chars(month as nat) + "-"@ + dec_chars(
            day as nat,
        ) + " "@ + dec_chars(hour as nat) + ":"@ + dec_chars(minute as nat) + ":"@ + dec_chars(
            second as nat,
        ) + "."@ + dec_chars(subsecond as nat) + "'"@,
        Some(ValueModel::Double(bits)) => double_text_of(bits),
        Some(ValueModel::Float(bits)) => float_text_of(bits),
        Some(ValueModel::Year(y)) => dec_chars(y as nat),
        Some(ValueModel::Decimal(s)) => double_of_decimal_text(s),
        Some(ValueModel::SignedInteger(i)) => int_chars(i),
        Some(ValueModel::Json(b)) => match json_text_of(b) {
            Some(t) => "'"@ + t + "'"@,
            Option::None => "Null"@,
        },
        Some(ValueModel::Date { year, month, day }) => "'"@ + dec_chars(year as nat) + "-"@
            + dec_chars(month as nat) + "-"@ + dec_chars(day as nat) + "'"@,
        Some(ValueModel::Time { hours, minutes, seconds, subseconds }) => "'"@ + dec_chars(
            hours as nat,
        ) + ":"@ + dec_chars(minutes as nat) + ":"@ + dec_chars(seconds as nat) + "."@ + dec_chars(
            subseconds as nat,
        ) + "'"@,
    }
}

/// One `col=value` item; a NULL renders as `col IS NULL` in a predicate and
/// as `col=Null` in a SET list.
pub open spec fn spec_value_assign(
    col: Seq<char>,
    v: Option<ValueModel>,
    texty: bool,
    in_where: bool,
) -> Seq<char> {
    if spec_is_nullish(v, texty) {
        if in_where {
            col + " IS NULL"@
        } else {
            col + "=Null"@
        }
    } else {
        col + "="@ + spec_render_value(v, texty)
    }
}

/// Render one value as a SQL literal.
fn render_value(v: &Option<MySQLValue>, texty: bool) -> (r: String)
    ensures
        r@ == spec_render_value(v.deep_view(), texty),
{
    match v {
        Option::None => "Null".to_owned(),
        Some(MySQLValue::Null) => "Null".to_owned(),
        Some(MySQLValue::Text(s)) => {
            let r = "'".to_owned().concat(s.as_str());
            r.concat("'")
        },
        Some(MySQLValue::Blob(b)) => {
            if texty {
                let body = readvalue::read_string_value(b.as_slice());
                let r = "'".to_owned().concat(body.as_str());
                r.concat("'")
            } else if b.len() > 0 {
                let body = to_hex(b);
                "0x".to_owned().concat(body.as_str())
            } else {
                "Null".to_owned()
            }
        },
        Some(MySQLValue::Timestamp { unix_time, subsecond }) => {
            let r = readvalue::u64_to_dec(*unix_time as u64).concat(".");
            r.concat(readvalue::u64_to_dec(*subsecond as u64).as_str())
        },
        Some(MySQLValue::Enum(e)) => readvalue::u64_to_dec(*e),
        Some(MySQLValue::DateTime { year, month, day, hour, minute, second, subsecond }) => {
            let r = "'".to_owned().concat(readvalue::u64_to_dec(*year as u64).as_str());
            let r = r.concat("-").concat(readvalue::u64_to_dec(*month as u64).as_str());
            let r = r.concat("-").concat(readvalue::u64_to_dec(*day as u64).as_str());
            let r = r.concat(" ").concat(readvalue::u64_to_dec(*hour as u64).as_str());
            let r = r.concat(":").concat(readvalue::u64_to_dec(*minute as u64).as_str());
            let r = r.concat(":").concat(readvalue::u64_to_dec(*second as u64).as_str());
            let r = r.concat(".").concat(readvalue::u64_to_dec(*subsecond as u64).as_str());
            r.concat("'")
        },
        Some(MySQLValue::Double(bits)) => render_double_bits(*bits),
        Some(MySQLValue::Float(bits)) => render_float_bits(*bits),
        Some(MySQLValue::Year(y)) => readvalue::u64_to_dec(*y as u64),
        Some(MySQLValue::Decimal(s)) => decimal_to_double_text(s),
        Some(MySQLValue::SignedInteger(i)) => readvalue::i64_to_dec(*i),
        Some(MySQLValue::Json(b)) => {
            match json_text(b) {
                Some(t) => {
                    let r = "'".to_owned().concat(t.as_str());
                    r.concat("'")
                },
                Option::None => "Null".to_owned(),
            }
        },
        Some(MySQLValue::Date { year, month, day }) => {
            let r = "'".to_owned().concat(readvalue::u64_to_dec(*year as u64).as_str());
            let r = r.concat("-").concat(readvalue::u64_to_dec(*month as u64).as_str());
            let r = r.concat("-").concat(readvalue::u64_to_dec(*day as u64).as_str());
            r.concat("'")
        },
        Some(MySQLValue::Time { hours, minutes, seconds, subseconds }) => {
            let r = "'".to_owned().concat(readvalue::u64_to_dec(*hours as u64).as_str());
            let r = r.concat(":").concat(readvalue::u64_to_dec(*minutes as u64).as_str());
            let r = r.concat(":").concat(readvalue::u64_to_dec(*seconds as u64).as_str());
            let r = r.concat(".").concat(readvalue::u64_to_dec(*subseconds as u64).as_str());
            r.concat("'")
        },
    }
}

fn is_nullish(v: &Option<MySQLValue>, texty: bool) -> (r: bool)
    ensures
        r == spec_is_nullish(v.deep_view(), texty),
{
    match v {
        Option::None => true,
        Some(MySQLValue::Null) => true,
        Some(MySQLValue::Blob(b)) => !texty && b.len() == 0,
        _ => false,
    }
}

fn texty_of(k: SqlKind) -> (r: bool)
    ensures
        r == spec_texty(k),
{
    match k {
        SqlKind::Blob { texty } => texty,
        _ => false,
    }
}

/// Render one `col=value` / `col IS NULL` item.
fn value_assign(col: &String, v: &Option<MySQLValue>, texty: bool, in_where: bool) -> (r: String)
    ensures
        r@ == spec_value_assign(col@, v.deep_view(), texty, in_where),
{
    if is_nullish(v, texty) {
        if in_where {
            col.clone().concat(" IS NULL")
        } else {
            col.clone().concat("=Null")
        }
    } else {
        let rendered = render_value(v, texty);
        let r = col.clone().concat("=");
        r.concat(rendered.as_str())
    }
}

/// The first `n` column names joined with commas.
pub open spec fn spec_col_list(cols: Seq<ColumnModel>, n: int) -> Seq<char>
    decreases n,
{
    if n <= 0 {
        Seq::empty()
    } else if n == 1 {
        cols[0].name
    } else {
        spec_col_list(cols, n - 1) + ","@ + cols[n - 1].name
    }
}

/// The first `n` values rendered and joined with commas.
pub open spec fn spec_values_list(cols: Seq<ColumnModel>, row: Seq<Option<ValueModel>>, n: int)
    -> Seq<char>
    decreases n,
{
    if n <= 0 {
        Seq::empty()
    } else if n == 1 {
        spec_render_value(row[0], spec_texty(cols[0].sql_type))
    } else {
        spec_values_list(cols, row, n - 1) + ","@ + spec_render_value(
            row[n - 1],
            spec_texty(cols[n - 1].sql_type),
        )
    }
}

/// The first `n` SET items joined with commas.
pub open spec fn spec_set_list(cols: Seq<ColumnModel>, row: Seq<Option<ValueModel>>, n: int)
    -> Seq<char>
    decreases n,
{
    if n <= 0 {
        Seq::empty()
    } else if n == 1 {
        spec_value_assign(cols[0].name, row[0], spec_texty(cols[0].sql_type), false)
    } else {
        spec_set_list(cols, row, n - 1) + ","@ + spec_value_assign(
            cols[n - 1].name,
            row[n - 1],
            spec_texty(cols[n - 1].sql_type),
            false,
        )
    }
}

/// The first `n` predicate conjuncts over the columns named by `idxs`,
/// joined with ` AND `.
pub open spec fn spec_where_list(
    cols: Seq<ColumnModel>,
    row: Seq<Option<ValueModel>>,
    idxs: Seq<int>,
    n: int,
) -> Seq<char>
    decreases n,
{
    if n <= 0 {
        Seq::empty()
    } else if n == 1 {
        spec_value_assign(cols[idxs[0]].name, row[idxs[0]], spec_texty(cols[idxs[0]].sql_type), true)
    } else {
        spec_where_list(cols, row, idxs, n - 1) + " AND "@ + spec_value_assign(
            cols[idxs[n - 1]].name,
            row[idxs[n - 1]],
            spec_texty(cols[idxs[n - 1]].sql_type),
            true,
        )
    }
}

/// The column list of an INSERT: `(c1,c2,...)` in schema order.
pub fn get_insert_col_str(map: &TableSchema) -> (r: String)
    ensures
        r@ == "("@ + spec_col_list(map@.columns, map@.columns.len() as int) + ")"@,
{
    let ghost cols = map@.columns;
    let n = map.columns.len();
    let mut list = String::new();
    for i in 0..n
        invariant
            n == map.columns@.len(),
            cols == map@.columns,
            cols.len() == n,
            list@ == spec_col_list(cols, i as int),
    {
        proof {
            assert(cols[i as int] == map.columns@[i as int]@);
        }
        if i > 0 {
            list.append(",");
        }
        list.append(map.columns[i].name.as_str());
    }
    let r = "(".to_owned().concat(list.as_str());
    r.concat(")")
}

/// The VALUES clause of an INSERT: `VALUES (v1,v2,...);` in schema order.
pub fn get_values_str(values: &Vec<Option<MySQLValue>>, map: &TableSchema) -> (r: String)
    requires
        values@.len() == map@.columns.len(),
    ensures
        r@ == "VALUES ("@ + spec_values_list(map@.columns, values.deep_view(), map@.columns.len() as int)
            + ");"@,
{
    let ghost cols = map@.columns;
    let ghost rowm = values.deep_view();
    let n = map.columns.len();
    let mut list = String::new();
    for i in 0..n
        invariant
            n == map.columns@.len(),
            n == values@.len(),
            cols == map@.columns,
            rowm == values.deep_view(),
            cols.len() == n,
            rowm.len() == n,
            list@ == spec_values_list(cols, rowm, i as int),
    {
        proof {
            assert(cols[i as int] == map.columns@[i as int]@);
            assert(rowm[i as int] == values@[i as int].deep_view());
        }
        if i > 0 {
            list.append(",");
        }
        let piece = render_value(&values[i], texty_of(map.columns[i].sql_type));
        list.append(piece.as_str());
    }
    let r = "VALUES (".to_owned().concat(list.as_str());
    r.concat(");")
}

/// The SET list of an UPDATE, built from the after-image in schema order.
pub fn get_set_str(value: &Vec<Option<MySQLValue>>, map: &TableSchema) -> (r: String)
    requires
        value@.len() == map@.columns.len(),
    ensures
        r@ == spec_set_list(map@.columns, value.deep_view(), map@.columns.len() as int),
{
    let ghost cols = map@.columns;
    let ghost rowm = value.deep_view();
    let n = map.columns.len();
    let mut list = String::new();
    for i in 0..n
        invariant
            n == map.columns@.len(),
            n == value@.len(),
            cols == map@.columns,
            rowm == value.deep_view(),
            cols.len() == n,
            rowm.len() == n,
            list@ == spec_set_list(cols, rowm, i as int),
    {
        proof {
            assert(cols[i as int] == map.columns@[i as int]@);
            assert(rowm[i as int] == value@[i as int].deep_view());
        }
        if i > 0 {
            list.append(",");
        }
        let piece = value_assign(
            &map.columns[i].name,
            &value[i],
            texty_of(map.columns[i].sql_type),
            false,
        );
        list.append(piece.as_str());
    }
    list
}

/// The primary-key column indices of the schema, in order.
fn pk_indices(map: &TableSchema) -> (r: Vec<usize>)
    ensures
        r@.map_values(|x: usize| x as int) == map@.pk_indices_upto(map@.columns.len() as int),
        forall|j: int| 0 <= j < r@.len() ==> #[trigger] r@[j] < map@.columns.len(),
{
    let ghost sm = map@;
    let n = map.columns.len();
    let mut r: Vec<usize> = Vec::new();
    proof {
        assert(r@.map_values(|x: usize| x as int) =~= sm.pk_indices_upto(0));
    }
    for i in 0..n
        invariant
            n == map.columns@.len(),
            sm == map@,
            sm.columns.len() == n,
            forall|j: int| 0 <= j < r@.len() ==> #[trigger] r@[j] < n,
            r@.map_values(|x: usize| x as int) == sm.pk_indices_upto(i as int),
    {
        proof {
            assert(sm.columns[i as int] == map.columns@[i as int]@);
        }
        if map.columns[i].is_primary_key {
            r.push(i);
            proof {
                assert(r@.map_values(|x: usize| x as int) =~= sm.pk_indices_upto(i + 1));
            }
        } else {
            proof {
                assert(r@.map_values(|x: usize| x as int) =~= sm.pk_indices_upto(i + 1));
            }
        }
    }
    r
}

/// The WHERE clause: ` WHERE c1=v1 AND c2=v2;` over the primary-key
/// columns, or over every column when the schema names no primary key.
pub fn get_where_str(value: &Vec<Option<MySQLValue>>, map: &TableSchema) -> (r: String)
    requires
        value@.len() == map@.columns.len(),
    ensures
        r@ == " WHERE "@ + spec_where_list(
            map@.columns,
            value.deep_view(),
            map@.predicate_indices(),
            map@.predicate_indices().len() as int,
        ) + ";"@,
{
    let ghost sm = map@;
    let ghost rowm = value.deep_view();
    let n = map.columns.len();
    let pk = pk_indices(map);
    let ghost idxs = sm.predicate_indices();
    let mut list = String::new();
    if pk.len() > 0 {
        let m = pk.len();
        proof {
            assert(idxs == sm.pk_indices());
            assert(idxs =~= pk@.map_values(|x: usize| x as int));
            assert(idxs.len() == pk@.len());
            assert forall|j: int| 0 <= j < m implies #[trigger] pk@[j] < n && idxs[j]
                == pk@[j] by {
                assert(idxs[j] == pk@.map_values(|x: usize| x as int)[j]);
            }
        }
        for i in 0..m
            invariant
                m == pk@.len(),
                sm == map@,
                rowm == value.deep_view(),
                sm.columns.len() == n,
                rowm.len() == n,
                n == map.columns@.len(),
                n == value@.len(),
                idxs == sm.predicate_indices(),
                idxs.len() == m,
                forall|j: int| 0 <= j < m ==> #[trigger] pk@[j] < n && idxs[j] == pk@[j],
                list@ == spec_where_list(sm.columns, rowm, idxs, i as int),
        {
            let ci = pk[i];
            proof {
                assert(sm.columns[ci as int] == map.columns@[ci as int]@);
                assert(rowm[ci as int] == value@[ci as int].deep_view());
            }
            if i > 0 {
                list.append(" AND ");
            }
            let piece = value_assign(
                &map.columns[ci].name,
                &value[ci],
                texty_of(map.columns[ci].sql_type),
                true,
            );
            list.append(piece.as_str());
        }
    } else {
        proof {
            assert(sm.pk_indices().len() == 0);
            assert(idxs =~= Seq::new(sm.columns.len(), |i: int| i));
        }
        for i in 0..n
            invariant
                sm == map@,
                rowm == value.deep_view(),
                sm.columns.len() == n,
                rowm.len() == n,
                n == map.columns@.len(),
                n == value@.len(),
                idxs == sm.predicate_indices(),
                idxs =~= Seq::new(sm.columns.len(), |k: int| k),
                list@ == spec_where_list(sm.columns, rowm, idxs, i as int),
        {
            proof {
                assert(idxs[i as int] == i as int);
                assert(sm.columns[i as int] == map.columns@[i as int]@);
                assert(rowm[i as int] == value@[i as int].deep_view());
            }
            if i > 0 {
                list.append(" AND ");
            }
            let piece = value_assign(
                &map.columns[i].name,
                &value[i],
                texty_of(map.columns[i].sql_type),
                true,
            );
            list.append(piece.as_str());
        }
    }
    let r = " WHERE ".to_owned().concat(list.as_str());
    r.concat(";")
}

/// Full INSERT text of a row image.
pub open spec fn spec_insert_sql(sm: SchemaModel, row: Seq<Option<ValueModel>>) -> Seq<char> {
    "INSERT INTO "@ + sm.database_name + "."@ + sm.table_name + " "@ + "("@ + spec_col_list(
        sm.columns,
        sm.columns.len() as int,
    ) + ")"@ + " "@ + "VALUES ("@ + spec_values_list(sm.columns, row, sm.columns.len() as int)
        + ");"@
}

/// Full DELETE text of a row image.
pub open spec fn spec_delete_sql(sm: SchemaModel, row: Seq<Option<ValueModel>>) -> Seq<char> {
    "DELETE FROM "@ + sm.database_name + "."@ + sm.table_name + " WHERE "@ + spec_where_list(
        sm.columns,
        row,
        sm.predicate_indices(),
        sm.predicate_indices().len() as int,
    ) + ";"@
}

/// Full UPDATE text of a before/after image pair: SET from the after-image,
/// WHERE from the before-image.
pub open spec fn spec_update_sql(
    sm: SchemaModel,
    before: Seq<Option<ValueModel>>,
    after: Seq<Option<ValueModel>>,
) -> Seq<char> {
    "UPDATE "@ + sm.database_name + "."@ + sm.table_name + " SET "@ + spec_set_list(
        sm.columns,
        after,
        sm.columns.len() as int,
    ) + " WHERE "@ + spec_where_list(
        sm.columns,
        before,
        sm.predicate_indices(),
        sm.predicate_indices().len() as int,
    ) + ";"@
}

/// Render an INSERT for one row image.
pub fn out_insert(row_value: &Vec<Option<MySQLValue>>, map: &TableSchema) -> (r: String)
    requires
        row_value@.len() == map@.columns.len(),
    ensures
        r@ == spec_insert_sql(map@, row_value.deep_view()),
{
    let col_str = get_insert_col_str(map);
    let value_str = get_values_str(row_value, map);
    let sql = "INSERT INTO ".to_owned().concat(map.database_name.as_str());
    let sql = sql.concat(".").concat(map.table_name.as_str());
    let sql = sql.concat(" ").concat(col_str.as_str());
    sql.concat(" ").concat(value_str.as_str())
}

/// Render a DELETE for one row image, matched on the primary key or on the
/// full row when no key exists.
pub fn out_delete(row_value: &Vec<Option<MySQLValue>>, map: &TableSchema) -> (r: String)
    requires
        row_value@.len() == map@.columns.len(),
    ensures
        r@ == spec_delete_sql(map@, row_value.deep_view()),
{
    let where_str = get_where_str(row_value, map);
    let sql = "DELETE FROM ".to_owned().concat(map.database_name.as_str());
    let sql = sql.concat(".").concat(map.table_name.as_str());
    sql.concat(where_str.as_str())
}

/// Render an UPDATE for one before/after image pair.
pub fn out_update(
    befor_value: &Vec<Option<MySQLValue>>,
    after_value: &Vec<Option<MySQLValue>>,
    map: &TableSchema,
) -> (r: String)
    requires
        befor_value@.len() == map@.columns.len(),
        after_value@.len() == map@.columns.len(),
    ensures
        r@ == spec_update_sql(map@, befor_value.deep_view(), after_value.deep_view()),
{
    let where_str = get_where_str(befor_value, map);
    let set_str = get_set_str(after_value, map);
    let sql = "UPDATE ".to_owned().concat(map.database_name.as_str());
    let sql = sql.concat(".").concat(map.table_name.as_str());
    let sql = sql.concat(" SET ").concat(set_str.as_str());
    sql.concat(where_str.as_str())
}

/// The statements a row event denotes: one INSERT or DELETE per image, or
/// one UPDATE per consecutive before/after pair.
pub open spec fn spec_commands(
    sm: SchemaModel,
    rows: Seq<Seq<Option<ValueModel>>>,
    code: BinlogEvent,
) -> Seq<Seq<char>> {
    match code {
        BinlogEvent::WriteEvent => Seq::new(rows.len(), |i: int| spec_insert_sql(sm, rows[i])),
        BinlogEvent::DeleteEvent => Seq::new(rows.len(), |i: int| spec_delete_sql(sm, rows[i])),
        BinlogEvent::UpdateEvent => Seq::new(
            rows.len() / 2,
            |i: int| spec_update_sql(sm, rows[2 * i], rows[2 * i + 1]),
        ),
        _ => Seq::empty(),
    }
}

/// Render the SQL statements of one row event's images.
pub fn get_command(row_values: &RowValue, code: &BinlogEvent, map: &TableSchema) -> (r: Vec<
    String,
>)
    requires
        forall|i: int|
            0 <= i < row_values@.len() ==> (#[trigger] row_values@[i]).len()
                == map@.columns.len(),
    ensures
        r.deep_view() == spec_commands(map@, row_values@, *code),
{
    let ghost sm = map@;
    let ghost rowsm = row_values@;
    let mut sqls: Vec<String> = Vec::new();
    let n = row_values.rows.len();
    proof {
        assert(rowsm.len() == n);
    }
    match code {
        BinlogEvent::WriteEvent => {
            for i in 0..n
                invariant
                    n == row_values.rows@.len(),
                    sm == map@,
                    rowsm == row_values@,
                    rowsm.len() == n,
                    forall|j: int| 0 <= j < n ==> (#[trigger] rowsm[j]).len() == sm.columns.len(),
                    sqls@.len() == i,
                    forall|j: int|
                        0 <= j < i ==> #[trigger] sqls@[j]@ == spec_insert_sql(sm, rowsm[j]),
            {
                proof {
                    assert(rowsm[i as int] == row_values.rows@[i as int].deep_view());
                }
                let v = out_insert(&row_values.rows[i], map);
                sqls.push(v);
            }
            proof {
                assert(sqls.deep_view() =~= spec_commands(sm, rowsm, BinlogEvent::WriteEvent));
            }
        },
        BinlogEvent::DeleteEvent => {
            for i in 0..n
                invariant
                    n == row_values.rows@.len(),
                    sm == map@,
                    rowsm == row_values@,
                    rowsm.len() == n,
                    forall|j: int| 0 <= j < n ==> (#[trigger] rowsm[j]).len() == sm.columns.len(),
                    sqls@.len() == i,
                    forall|j: int|
                        0 <= j < i ==> #[trigger] sqls@[j]@ == spec_delete_sql(sm, rowsm[j]),
            {
                proof {
                    assert(rowsm[i as int] == row_values.rows@[i as int].deep_view());
                }
                let v = out_delete(&row_values.rows[i], map);
                sqls.push(v);
            }
            proof {
                assert(sqls.deep_view() =~= spec_commands(sm, rowsm, BinlogEvent::DeleteEvent));
            }
        },
        BinlogEvent::UpdateEvent => {
            let pairs = n / 2;
            for i in 0..pairs
                invariant
                    n == row_values.rows@.len(),
                    pairs == n / 2,
                    sm == map@,
                    rowsm == row_values@,
                    rowsm.len() == n,
                    forall|j: int| 0 <= j < n ==> (#[trigger] rowsm[j]).len() == sm.columns.len(),
                    sqls@.len() == i,
                    forall|j: int|
                        0 <= j < i ==> #[trigger] sqls@[j]@ == spec_update_sql(
                            sm,
                            rowsm[2 * j],
                            rowsm[2 * j + 1],
                        ),
            {
                proof {
                    assert(rowsm[2 * i as int] == row_values.rows@[2 * i as int].deep_view());
                    assert(rowsm[2 * i as int + 1] == row_values.rows@[2 * i as int
                        + 1].deep_view());
                }
                let v = out_update(&row_values.rows[2 * i], &row_values.rows[2 * i + 1], map);
                sqls.push(v);
            }
            proof {
                assert(sqls.deep_view() =~= spec_commands(sm, rowsm, BinlogEvent::UpdateEvent));
            }
        },
        _ => {
            proof {
                assert(sqls.deep_view() =~= spec_commands(sm, rowsm, *code));
            }
        },
    }
    sqls
}

/// The primary-key index list names primary-key columns only, in range.
pub proof fn lemma_pk_indices_are_keys(sm: SchemaModel, n: int)
    requires
        0 <= n <= sm.columns.len(),
    ensures
        forall|j: int|
            0 <= j < sm.pk_indices_upto(n).len() ==> 0 <= #[trigger] sm.pk_indices_upto(n)[j] < n
                && sm.columns[sm.pk_indices_upto(n)[j]].is_primary_key,
    decreases n,
{
    if n > 0 {
        lemma_pk_indices_are_keys(sm, n - 1);
    }
}

/// The primary-key index list is complete: every primary-key column index
/// appears in it.
pub proof fn lemma_pk_indices_complete(sm: SchemaModel, n: int, i: int)
    requires
        0 <= i < n <= sm.columns.len(),
        sm.columns[i].is_primary_key,
    ensures
        sm.pk_indices_upto(n).contains(i),
    decreases n,
{
    if i == n - 1 {
        assert(sm.pk_indices_upto(n)[sm.pk_indices_upto(n).len() - 1] == i);
    } else {
        lemma_pk_indices_complete(sm, n - 1, i);
        let k = choose|k: int|
            0 <= k < sm.pk_indices_upto(n - 1).len() && #[trigger] sm.pk_indices_upto(n - 1)[k]
                == i;
        assert(sm.pk_indices_upto(n)[k] == i);
    }
}

/// PK-predicate: for a schema with at least one primary-key column, the
/// WHERE predicate's conjunct columns are exactly the primary-key columns,
/// never a non-key column.
pub proof fn lemma_pk_predicate(sm: SchemaModel)
    requires
        sm.pk_indices().len() > 0,
    ensures
        sm.predicate_indices() == sm.pk_indices(),
        forall|j: int|
            0 <= j < sm.predicate_indices().len() ==> 0 <= #[trigger] sm.predicate_indices()[j]
                < sm.columns.len() && sm.columns[sm.predicate_indices()[j]].is_primary_key,
        forall|i: int|
            0 <= i < sm.columns.len() && sm.columns[i].is_primary_key
                ==> sm.predicate_indices().contains(i),
{
    lemma_pk_indices_are_keys(sm, sm.columns.len() as int);
    assert forall|i: int|
        0 <= i < sm.columns.len() && sm.columns[i].is_primary_key implies sm.predicate_indices()
        .contains(i) by {
        lemma_pk_indices_complete(sm, sm.columns.len() as int, i);
    }
}

/// No-PK fallback: for a schema without a primary key, the WHERE
/// predicate's conjunct columns are the full column set, in order.
pub proof fn lemma_no_pk_fallback(sm: SchemaModel)
    requires
        sm.pk_indices().len() == 0,
    ensures
        sm.predicate_indices() =~= Seq::new(sm.columns.len(), |i: int| i),
{
}

/// NULL rendering: a NULL value renders as `col IS NULL` in a predicate
/// and as `col=Null` in a SET list.
pub proof fn lemma_null_rendering(col: Seq<char>, v: Option<ValueModel>, texty: bool)
    requires
        spec_is_nullish(v, texty),
    ensures
        spec_value_assign(col, v, texty, true) == col + " IS NULL"@,
        spec_value_assign(col, v, texty, false) == col + "=Null"@,
{
}

} // verus!
