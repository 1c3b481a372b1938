//! Structural description of a table schema, and the declaration of the
//! `exhaust` table: sixteen columns with their types, nullability, uniqueness
//! and default values.

use vstd::prelude::*;
use vstd::string::StringExecFns;

verus! {

#[derive(Clone, Copy, PartialEq, Eq, Structural, Debug)]
pub enum ColType {
    Integer,
    Text,
}

#[derive(Clone, Copy, PartialEq, Eq, Structural, Debug)]
pub enum ColDefault {
    NoDefault,
    Zero,
    CurrentTimestamp,
}

#[derive(Clone, Debug)]
pub struct ColumnDef {
    pub name: String,
    pub ctype: ColType,
    pub not_null: bool,
    pub unique: bool,
    /// Auto-assigned integer primary key.
    pub primary_key: bool,
    pub default: ColDefault,
}

#[derive(Clone, Debug)]
pub struct TableDef {
    pub name: String,
    pub columns: Vec<ColumnDef>,
}

/// A schema-change statement; creating a table is the only change the
/// registry declares.
#[derive(Debug)]
pub enum Statement {
    CreateTableIfNotExists(TableDef),
}

/// The mathematical value a column definition denotes.
pub ghost struct ColModel {
    pub name: Seq<char>,
    pub ctype: ColType,
    pub not_null: bool,
    pub unique: bool,
    pub primary_key: bool,
    pub default: ColDefault,
}

/// The mathematical value a table definition denotes.
pub ghost struct TableModel {
    pub name: Seq<char>,
    pub cols: Seq<ColModel>,
}

pub open spec fn col_model(c: ColumnDef) -> ColModel {
    ColModel {
        name: c.name@,
        ctype: c.ctype,
        not_null: c.not_null,
        unique: c.unique,
        primary_key: c.primary_key,
        default: c.default,
    }
}

pub open spec fn table_model(t: TableDef) -> TableModel {
    TableModel { name: t.name@, cols: t.columns@.map_values(|c: ColumnDef| col_model(c)) }
}

fn dup_column(c: &ColumnDef) -> (r: ColumnDef)
    ensures
        col_model(r) == col_model(*c),
{
    ColumnDef {
        name: c.name.clone(),
        ctype: c.ctype,
        not_null: c.not_null,
        unique: c.unique,
        primary_key: c.primary_key,
        default: c.default,
    }
}

/// Copies a table definition; the copy denotes the same table.
pub fn dup_table_def(t: &TableDef) -> (r: TableDef)
    ensures
        table_model(r) == table_model(*t),
{
    let mut columns: Vec<ColumnDef> = Vec::new();
    let mut i: usize = 0;
    while i < t.columns.len()
        invariant
            i <= t.columns@.len(),
            columns@.len() == i,
            forall|k: int| 0 <= k < i ==> col_model(#[trigger] columns@[k]) == col_model(
                t.columns@[k],
            ),
        decreases t.columns@.len() - i,
    {
        columns.push(dup_column(&t.columns[i]));
        i = i + 1;
    }
    let r = TableDef { name: t.name.clone(), columns };
    proof {
        assert(table_model(r).cols =~= table_model(*t).cols);
    }
    r
}

pub open spec fn spec_col_type_sql(t: ColType) -> Seq<char> {
    match t {
        ColType::Integer => "INTEGER"@,
        ColType::Text => "TEXT"@,
    }
}

/// The SQL text of one column definition.
pub open spec fn spec_column_sql(c: ColModel) -> Seq<char> {
    c.name + " "@ + spec_col_type_sql(c.ctype) + (if c.primary_key {
        " PRIMARY KEY AUTOINCREMENT"@
    } else {
        (if c.not_null {
            " NOT NULL"@
        } else {
            " NULL"@
        }) + (if c.unique {
            " UNIQUE"@
        } else {
            Seq::<char>::empty()
        }) + (match c.default {
            ColDefault::NoDefault => Seq::<char>::empty(),
            ColDefault::Zero => " DEFAULT 0"@,
            ColDefault::CurrentTimestamp => " DEFAULT (strftime('%Y-%m-%dT%H:%M:%fZ','now'))"@,
        })
    })
}

pub open spec fn spec_columns_rest_sql(cols: Seq<ColModel>) -> Seq<char>
    decreases cols.len(),
{
    if cols.len() == 0 {
        Seq::empty()
    } else {
        ", "@ + spec_column_sql(cols[0]) + spec_columns_rest_sql(cols.drop_first())
    }
}

pub open spec fn spec_columns_sql(cols: Seq<ColModel>) -> Seq<char> {
    if cols.len() == 0 {
        Seq::empty()
    } else {
        spec_column_sql(cols[0]) + spec_columns_rest_sql(cols.drop_first())
    }
}

/// The SQL text that creates the table a definition denotes.
pub open spec fn spec_create_table_sql(t: TableModel) -> Seq<char> {
    "CREATE TABLE IF NOT EXISTS "@ + t.name + " ("@ + spec_columns_sql(t.cols) + ");"@
}

#[verifier::rlimit(100)]
fn push_column_sql(s: &mut String, c: &ColumnDef)
    ensures
        final(s)@ == old(s)@ + spec_column_sql(col_model(*c)),
{
    s.append(c.name.as_str());
    s.append(" ");
    match c.ctype {
        ColType::Integer => s.append("INTEGER"),
        ColType::Text => s.append("TEXT"),
    }
    if c.primary_key {
        s.append(" PRIMARY KEY AUTOINCREMENT");
    } else {
        if c.not_null {
            s.append(" NOT NULL");
        } else {
            s.append(" NULL");
        }
        if c.unique {
            s.append(" UNIQUE");
        }
        match c.default {
            ColDefault::NoDefault => {},
            ColDefault::Zero => s.append(" DEFAULT 0"),
            ColDefault::CurrentTimestamp => s.append(
                " DEFAULT (strftime('%Y-%m-%dT%H:%M:%fZ','now'))",
            ),
        }
    }
    assert(final(s)@ =~= old(s)@ + spec_column_sql(col_model(*c)));
}

/// Renders the forward SQL script of a table definition.
pub fn create_table_sql(t: &TableDef) -> (r: String)
    ensures
        r@ == spec_create_table_sql(table_model(*t)),
{
    let ghost cols = table_model(*t).cols;
    let mut s = String::new();
    s.append("CREATE TABLE IF NOT EXISTS ");
    s.append(t.name.as_str());
    s.append(" (");
    let ghost header = s@;
    proof {
        assert(header =~= "CREATE TABLE IF NOT EXISTS "@ + t.name@ + " ("@);
    }
    let n = t.columns.len();
    if n > 0 {
        push_column_sql(&mut s, &t.columns[0]);
        proof {
            assert(cols[0] == col_model(t.columns@[0]));
            assert(cols.subrange(1, n as int) =~= cols.drop_first());
        }
        let mut i: usize = 1;
        while i < n
            invariant
                1 <= i <= n,
                n == t.columns@.len(),
                cols == table_model(*t).cols,
                cols.len() == n,
                s@ + spec_columns_rest_sql(cols.subrange(i as int, n as int)) == header
                    + spec_columns_sql(cols),
            decreases n - i,
        {
            let ghost rest = cols.subrange(i as int, n as int);
            proof {
                assert(rest[0] == cols[i as int]);
                assert(cols[i as int] == col_model(t.columns@[i as int]));
                assert(rest.drop_first() =~= cols.subrange(i as int + 1, n as int));
            }
            let ghost before = s@;
            s.append(", ");
            push_column_sql(&mut s, &t.columns[i]);
            proof {
                assert(s@ =~= before + (", "@ + spec_column_sql(cols[i as int])));
                assert(before + (", "@ + spec_column_sql(cols[i as int])) + spec_columns_rest_sql(
                    cols.subrange(i as int + 1, n as int),
                ) =~= before + (", "@ + spec_column_sql(cols[i as int]) + spec_columns_rest_sql(
                    cols.subrange(i as int + 1, n as int),
                )));
            }
            i = i + 1;
        }
        proof {
            assert(cols.subrange(n as int, n as int) =~= Seq::<ColModel>::empty());
            assert(s@ + Seq::<char>::empty() =~= s@);
        }
    }
    s.append(");");
    proof {
        assert(s@ =~= spec_create_table_sql(table_model(*t)));
    }
    s
}

pub open spec fn col_spec(
    c: ColumnDef,
    name: Seq<char>,
    ctype: ColType,
    not_null: bool,
    unique: bool,
    primary_key: bool,
    default: ColDefault,
) -> bool {
    &&& c.name@ == name
    &&& c.ctype == ctype
    &&& c.not_null == not_null
    &&& c.unique == unique
    &&& c.primary_key == primary_key
    &&& c.default == default
}

/// The `exhaust` table, column for column.
pub open spec fn is_exhaust_table_def(t: TableDef) -> bool {
    &&& t.name@ == "exhaust"@
    &&& t.columns@.len() == 16
    &&& col_spec(t.columns@[0], "id"@, ColType::Integer, true, false, true, ColDefault::NoDefault)
    &&& col_spec(
        t.columns@[1],
        "barcode"@,
        ColType::Text,
        false,
        false,
        false,
        ColDefault::NoDefault,
    )
    &&& col_spec(t.columns@[2], "label"@, ColType::Text, false, false, false, ColDefault::NoDefault)
    &&& col_spec(
        t.columns@[3],
        "description"@,
        ColType::Text,
        true,
        false,
        false,
        ColDefault::NoDefault,
    )
    &&& col_spec(t.columns@[4], "type"@, ColType::Text, true, false, false, ColDefault::NoDefault)
    &&& col_spec(
        t.columns@[5],
        "painting"@,
        ColType::Text,
        true,
        false,
        false,
        ColDefault::NoDefault,
    )
    &&& col_spec(t.columns@[6], "qrcode"@, ColType::Text, false, false, false, ColDefault::NoDefault)
    &&& col_spec(
        t.columns@[7],
        "isValidated"@,
        ColType::Integer,
        true,
        false,
        false,
        ColDefault::Zero,
    )
    &&& col_spec(
        t.columns@[8],
        "createdAt"@,
        ColType::Text,
        true,
        false,
        false,
        ColDefault::CurrentTimestamp,
    )
    &&& col_spec(
        t.columns@[9],
        "updatedAt"@,
        ColType::Text,
        true,
        false,
        false,
        ColDefault::CurrentTimestamp,
    )
    &&& col_spec(t.columns@[10], "hash"@, ColType::Text, true, true, false, ColDefault::NoDefault)
    &&& col_spec(
        t.columns@[11],
        "carBrand"@,
        ColType::Text,
        false,
        false,
        false,
        ColDefault::NoDefault,
    )
    &&& col_spec(
        t.columns@[12],
        "carModel"@,
        ColType::Text,
        false,
        false,
        false,
        ColDefault::NoDefault,
    )
    &&& col_spec(
        t.columns@[13],
        "carType"@,
        ColType::Text,
        false,
        false,
        false,
        ColDefault::NoDefault,
    )
    &&& col_spec(
        t.columns@[14],
        "carEngine"@,
        ColType::Text,
        false,
        false,
        false,
        ColDefault::NoDefault,
    )
    &&& col_spec(
        t.columns@[15],
        "carDateRange"@,
        ColType::Text,
        true,
        false,
        false,
        ColDefault::NoDefault,
    )
}

fn col(
    name: &str,
    ctype: ColType,
    not_null: bool,
    unique: bool,
    primary_key: bool,
    default: ColDefault,
) -> (c: ColumnDef)
    ensures
        col_spec(c, name@, ctype, not_null, unique, primary_key, default),
{
    ColumnDef { name: String::from_str(name), ctype, not_null, unique, primary_key, default }
}

/// Builds the schema of the `exhaust` table.
pub fn exhaust_table_def() -> (t: TableDef)
    ensures
        is_exhaust_table_def(t),
{
    let mut columns: Vec<ColumnDef> = Vec::new();
    columns.push(col("id", ColType::Integer, true, false, true, ColDefault::NoDefault));
    columns.push(col("barcode", ColType::Text, false, false, false, ColDefault::NoDefault));
    columns.push(col("label", ColType::Text, false, false, false, ColDefault::NoDefault));
    columns.push(col("description", ColType::Text, true, false, false, ColDefault::NoDefault));
    columns.push(col("type", ColType::Text, true, false, false, ColDefault::NoDefault));
    columns.push(col("painting", ColType::Text, true, false, false, ColDefault::NoDefault));
    columns.push(col("qrcode", ColType::Text, false, false, false, ColDefault::NoDefault));
    columns.push(col("isValidated", ColType::Integer, true, false, false, ColDefault::Zero));
    columns.push(col("createdAt", ColType::Text, true, false, false, ColDefault::CurrentTimestamp));
    columns.push(col("updatedAt", ColType::Text, true, false, false, ColDefault::CurrentTimestamp));
    columns.push(col("hash", ColType::Text, true, true, false, ColDefault::NoDefault));
    columns.push(col("carBrand", ColType::Text, false, false, false, ColDefault::NoDefault));
    columns.push(col("carModel", ColType::Text, false, false, false, ColDefault::NoDefault));
    columns.push(col("carType", ColType::Text, false, false, false, ColDefault::NoDefault));
    columns.push(col("carEngine", ColType::Text, false, false, false, ColDefault::NoDefault));
    columns.push(col("carDateRange", ColType::Text, true, false, false, ColDefault::NoDefault));
    TableDef { name: String::from_str("exhaust"), columns }
}

} // verus!
