//! Column metadata: table schemas and the catalog that resolves them.
//!
//! A `TableSchema` lists the columns of one table in order; the row value
//! codec decodes a row image by each column's declared SQL type, and the SQL
//! synthesizer renders column names and primary-key predicates from it.  The
//! catalog stands for the schema source (in the running system an
//! `INFORMATION_SCHEMA` query): resolution failure is fatal to a parse call.

use vstd::prelude::*;

verus! {

/// Declared SQL type of a column, with the metadata the binlog codec needs.
#[derive(Clone, Copy, PartialEq, Eq, Structural, Debug)]
pub enum SqlKind {
    /// 1-byte signed integer.
    Tiny,
    /// 2-byte signed integer.
    Short,
    /// 3-byte signed integer.
    Int24,
    /// 4-byte signed integer.
    Long,
    /// 8-byte signed integer.
    LongLong,
    /// IEEE 754 single precision, 4 bytes little-endian.
    Float,
    /// IEEE 754 double precision, 8 bytes little-endian.
    Double,
    /// Packed decimal with the declared precision and scale.
    Decimal { precision: u8, scale: u8 },
    /// 3-byte packed date.
    Date,
    /// Packed time with fractional-second precision `fsp`.
    Time { fsp: u8 },
    /// Packed datetime with fractional-second precision `fsp`.
    DateTime { fsp: u8 },
    /// Packed unix timestamp with fractional-second precision `fsp`.
    Timestamp { fsp: u8 },
    /// 1-byte year offset from 1900.
    Year,
    /// Length-prefixed character data, rendered quoted.
    VarChar,
    /// Length-prefixed bytes; `texty` marks TEXT-declared columns, rendered
    /// quoted instead of as a hex literal.
    Blob { texty: bool },
    /// Length-prefixed enumeration ordinal.
    Enum,
    /// Length-prefixed set bits.
    SetBits,
    /// Length-prefixed binary JSON document.
    Json,
    /// Unrecognized type code: decodes to a placeholder, never aborts.
    Unknown,
}

/// One column: name, declared type, and whether it belongs to the primary key.
pub struct ColumnDescriptor {
    pub name: String,
    pub sql_type: SqlKind,
    pub is_primary_key: bool,
}

/// Ghost model of a column descriptor.
pub struct ColumnModel {
    pub name: Seq<char>,
    pub sql_type: SqlKind,
    pub is_primary_key: bool,
}

impl View for ColumnDescriptor {
    type V = ColumnModel;

    open spec fn view(&self) -> ColumnModel {
        ColumnModel { name: self.name@, sql_type: self.sql_type, is_primary_key: self.is_primary_key }
    }
}

impl DeepView for ColumnDescriptor {
    type V = ColumnModel;

    open spec fn deep_view(&self) -> ColumnModel {
        self.view()
    }
}

/// Ordered column list of one table.
pub struct TableSchema {
    pub database_name: String,
    pub table_name: String,
    pub columns: Vec<ColumnDescriptor>,
}

/// Ghost model of a table schema.
pub struct SchemaModel {
    pub database_name: Seq<char>,
    pub table_name: Seq<char>,
    pub columns: Seq<ColumnModel>,
}

impl View for TableSchema {
    type V = SchemaModel;

    open spec fn view(&self) -> SchemaModel {
        SchemaModel {
            database_name: self.database_name@,
            table_name: self.table_name@,
            columns: self.columns@.map_values(|c: ColumnDescriptor| c@),
        }
    }
}

impl SchemaModel {
    /// Indices of the primary-key columns among the first `n`, in order.
    pub open spec fn pk_indices_upto(self, n: int) -> Seq<int>
        decreases n,
    {
        if n <= 0 {
            Seq::empty()
        } else if self.columns[n - 1].is_primary_key {
            self.pk_indices_upto(n - 1) + seq![n - 1]
        } else {
            self.pk_indices_upto(n - 1)
        }
    }

    /// Indices of the primary-key columns, in schema order.
    pub open spec fn pk_indices(self) -> Seq<int> {
        self.pk_indices_upto(self.columns.len() as int)
    }

    /// The conjunct columns of a WHERE predicate: the primary-key columns
    /// when the table has any, every column otherwise.
    pub open spec fn predicate_indices(self) -> Seq<int> {
        if self.pk_indices().len() > 0 {
            self.pk_indices()
        } else {
            Seq::new(self.columns.len(), |i: int| i)
        }
    }
}

/// The set of schemas one parse call may need; stands for the schema source.
pub struct SchemaCatalog {
    pub tables: Vec<TableSchema>,
}

impl View for SchemaCatalog {
    type V = Seq<SchemaModel>;

    open spec fn view(&self) -> Seq<SchemaModel> {
        self.tables@.map_values(|t: TableSchema| t@)
    }
}

/// The first schema in `cat` whose names match the pair.
pub open spec fn spec_resolve_first(cat: Seq<SchemaModel>, db: Seq<char>, tbl: Seq<char>) -> Option<
    SchemaModel,
>
    decreases cat.len(),
{
    if cat.len() == 0 {
        None
    } else if cat[0].database_name == db && cat[0].table_name == tbl {
        Some(cat[0])
    } else {
        spec_resolve_first(cat.drop_first(), db, tbl)
    }
}

proof fn lemma_resolve_first_at(cat: Seq<SchemaModel>, db: Seq<char>, tbl: Seq<char>, i: int)
    requires
        0 <= i < cat.len(),
        cat[i].database_name == db,
        cat[i].table_name == tbl,
        forall|j: int|
            0 <= j < i ==> !(#[trigger] cat[j].database_name == db && cat[j].table_name == tbl),
    ensures
        spec_resolve_first(cat, db, tbl) == Some(cat[i]),
    decreases i,
{
    if i > 0 {
        lemma_resolve_first_at(cat.drop_first(), db, tbl, i - 1);
    }
}

proof fn lemma_resolve_first_none(cat: Seq<SchemaModel>, db: Seq<char>, tbl: Seq<char>)
    requires
        forall|j: int|
            0 <= j < cat.len() ==> !(#[trigger] cat[j].database_name == db && cat[j].table_name
                == tbl),
    ensures
        spec_resolve_first(cat, db, tbl) is None,
    decreases cat.len(),
{
    if cat.len() > 0 {
        lemma_resolve_first_none(cat.drop_first(), db, tbl);
    }
}

impl SchemaCatalog {
    /// Whether some entry matches the database and table name pair.
    pub open spec fn spec_resolves(self, db: Seq<char>, tbl: Seq<char>) -> bool {
        spec_resolve_first(self@, db, tbl) is Some
    }

    /// Resolve `(database, table)` to its schema: the first matching entry;
    /// `None` is the fatal `NotFound` of the metadata source.
    pub fn resolve(&self, db: &String, tbl: &String) -> (r: Option<&TableSchema>)
        ensures
            r matches Some(s) ==> spec_resolve_first(self@, db@, tbl@) == Some(s@)
                && s@.database_name == db@ && s@.table_name == tbl@,
            r is None ==> spec_resolve_first(self@, db@, tbl@) is None,
    {
        let n = self.tables.len();
        for i in 0..n
            invariant
                n == self.tables.len(),
                forall|j: int|
                    0 <= j < i ==> !(#[trigger] self@[j].database_name == db@
                        && self@[j].table_name == tbl@),
        {
            if self.tables[i].database_name.eq(db) && self.tables[i].table_name.eq(tbl) {
                proof {
                    assert(self@[i as int] == self.tables@[i as int]@);
                    lemma_resolve_first_at(self@, db@, tbl@, i as int);
                }
                return Some(&self.tables[i]);
            }
        }
        proof {
            lemma_resolve_first_none(self@, db@, tbl@);
        }
        None
    }
}

} // verus!
