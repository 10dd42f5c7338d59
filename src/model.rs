//! The table model derived from schema metadata.

use vstd::prelude::*;

verus! {

/// One column of a table, as the catalog describes it.
pub struct Column {
    pub column_name: String,
    pub ordinal_position: i64,
    pub spanner_type: String,
    pub nullable: bool,
    pub primary_key: bool,
    pub generated: bool,
    pub allow_commit_timestamp: bool,
}

impl Clone for Column {
    fn clone(&self) -> (r: Self)
        ensures
            r == *self,
    {
        Column {
            column_name: self.column_name.clone(),
            ordinal_position: self.ordinal_position,
            spanner_type: self.spanner_type.clone(),
            nullable: self.nullable,
            primary_key: self.primary_key,
            generated: self.generated,
            allow_commit_timestamp: self.allow_commit_timestamp,
        }
    }
}

impl Column {
    pub fn new(
        column_name: String,
        ordinal_position: i64,
        spanner_type: String,
        nullable: bool,
        primary_key: bool,
        generated: bool,
        allow_commit_timestamp: bool,
    ) -> (r: Self)
        ensures
            r.column_name == column_name,
            r.ordinal_position == ordinal_position,
            r.spanner_type == spanner_type,
            r.nullable == nullable,
            r.primary_key == primary_key,
            r.generated == generated,
            r.allow_commit_timestamp == allow_commit_timestamp,
    {
        Column {
            column_name,
            ordinal_position,
            spanner_type,
            nullable,
            primary_key,
            generated,
            allow_commit_timestamp,
        }
    }
}

/// A secondary index: its name, whether it is unique, and its key columns as
/// (column name, position) pairs in key order.
pub struct Index {
    pub index_name: String,
    pub unique: bool,
    pub columns: Vec<(String, i64)>,
}

/// One primary-key column together with the key prefix that ends at it.
pub struct PrimaryKey {
    pub uppers: Vec<Column>,
    pub column: Column,
    pub last: bool,
}

/// A table of the schema with its derived primary-key structure and the
/// run-level generation options.
pub struct Table {
    pub table_name: String,
    pub parent_table_name: Option<String>,
    pub columns: Vec<Column>,
    pub indexes: Vec<Index>,
    pub primary_keys: Vec<PrimaryKey>,
    pub composite_key: bool,
    pub json: bool,
    pub default: bool,
}

/// Ordinal positions strictly increase along `cols`.
pub open spec fn ordinals_increasing(cols: Seq<Column>) -> bool {
    forall|i: int, j: int|
        0 <= i < j < cols.len() ==> #[trigger] cols[i].ordinal_position
            < #[trigger] cols[j].ordinal_position
}

/// The primary-key columns of `cols`, in the order they stand there.
pub open spec fn key_columns(cols: Seq<Column>) -> Seq<Column>
{
    cols.filter(|c: Column| c.primary_key)
}

/// `pks` is the derived primary-key sequence of the columns `cols`: one entry
/// per key column in order, each carrying the inclusive key prefix up to it,
/// and only the final one marked last.
pub open spec fn keys_derived(pks: Seq<PrimaryKey>, cols: Seq<Column>) -> bool {
    let keys = key_columns(cols);
    &&& pks.len() == keys.len()
    &&& forall|k: int|
        0 <= k < pks.len() ==> {
            &&& (#[trigger] pks[k]).column == keys[k]
            &&& pks[k].uppers@ == keys.subrange(0, k + 1)
            &&& pks[k].last == (k == keys.len() - 1)
        }
}

impl Table {
    /// The invariants of a table built from catalog metadata.
    pub open spec fn wf(&self) -> bool {
        &&& ordinals_increasing(self.columns@)
        &&& keys_derived(self.primary_keys@, self.columns@)
        &&& self.composite_key == (key_columns(self.columns@).len() > 1)
    }

    /// Builds a table from its catalog columns (ordered by ordinal position)
    /// and derives its primary-key structure.
    pub fn new(
        table_name: String,
        parent_table_name: Option<String>,
        columns: Vec<Column>,
        indexes: Vec<Index>,
        json: bool,
        default: bool,
    ) -> (r: Self)
        requires
            ordinals_increasing(columns@),
        ensures
            r.wf(),
            r.table_name == table_name,
            r.parent_table_name == parent_table_name,
            r.columns == columns,
            r.indexes == indexes,
            r.json == json,
            r.default == default,
    {
        let mut keys: Vec<Column> = Vec::new();
        let mut i: usize = 0;
        while i < columns.len()
            invariant
                i <= columns@.len(),
                keys@ == key_columns(columns@.subrange(0, i as int)),
            decreases columns@.len() - i,
        {
            proof {
                assert(columns@.subrange(0, i + 1).drop_last() =~= columns@.subrange(0, i as int));
                lemma_key_columns_step(columns@.subrange(0, i + 1));
            }
            if columns[i].primary_key {
                keys.push(columns[i].clone());
            }
            i = i + 1;
        }
        assert(columns@.subrange(0, columns@.len() as int) =~= columns@);
        let mut primary_keys: Vec<PrimaryKey> = Vec::new();
        let mut k: usize = 0;
        while k < keys.len()
            invariant
                keys@ == key_columns(columns@),
                k <= keys@.len(),
                primary_keys@.len() == k,
                forall|x: int|
                    0 <= x < k ==> {
                        &&& (#[trigger] primary_keys@[x]).column == keys@[x]
                        &&& primary_keys@[x].uppers@ == keys@.subrange(0, x + 1)
                        &&& primary_keys@[x].last == (x == keys@.len() - 1)
                    },
            decreases keys@.len() - k,
        {
            let mut uppers: Vec<Column> = Vec::new();
            let mut j: usize = 0;
            let n = keys.len();
            while j <= k
                invariant
                    n == keys@.len(),
                    k < n,
                    j <= k + 1,
                    uppers@ == keys@.subrange(0, j as int),
                decreases k + 1 - j,
            {
                uppers.push(keys[j].clone());
                assert(uppers@ =~= keys@.subrange(0, j + 1));
                j = j + 1;
            }
            primary_keys.push(
                PrimaryKey { uppers, column: keys[k].clone(), last: k + 1 == keys.len() },
            );
            k = k + 1;
        }
        let composite_key = keys.len() > 1;
        Table {
            table_name,
            parent_table_name,
            columns,
            indexes,
            primary_keys,
            composite_key,
            json,
            default,
        }
    }
}

proof fn lemma_key_columns_step(cols: Seq<Column>)
    requires
        cols.len() > 0,
    ensures
        key_columns(cols) == (if cols.last().primary_key {
            key_columns(cols.drop_last()).push(cols.last())
        } else {
            key_columns(cols.drop_last())
        }),
{
    reveal_with_fuel(Seq::filter, 1);
}

proof fn lemma_key_columns_members(cols: Seq<Column>)
    ensures
        forall|i: int| 0 <= i < key_columns(cols).len() ==> cols.contains(#[trigger] key_columns(cols)[i]),
    decreases cols.len(),
{
    if cols.len() > 0 {
        let rest = cols.drop_last();
        lemma_key_columns_members(rest);
        lemma_key_columns_step(cols);
        assert forall|i: int| 0 <= i < key_columns(cols).len() implies cols.contains(
            #[trigger] key_columns(cols)[i],
        ) by {
            if i < key_columns(rest).len() {
                assert(key_columns(cols)[i] == key_columns(rest)[i]);
                let x = choose|x: int| 0 <= x < rest.len() && rest[x] == key_columns(rest)[i];
                assert(cols[x] == rest[x]);
            } else {
                assert(cols[cols.len() - 1] == key_columns(cols)[i]);
            }
        }
    }
}

/// The primary-key columns of a table with increasing ordinal positions have
/// increasing ordinal positions too.
pub proof fn lemma_key_columns_increasing(cols: Seq<Column>)
    requires
        ordinals_increasing(cols),
    ensures
        ordinals_increasing(key_columns(cols)),
    decreases cols.len(),
{
    if cols.len() > 0 {
        let rest = cols.drop_last();
        assert(ordinals_increasing(rest)) by {
            assert forall|i: int, j: int| 0 <= i < j < rest.len() implies #[trigger] rest[i].ordinal_position
                < #[trigger] rest[j].ordinal_position by {
                assert(rest[i] == cols[i] && rest[j] == cols[j]);
            }
        }
        lemma_key_columns_increasing(rest);
        lemma_key_columns_step(cols);
        lemma_key_columns_members(rest);
        let keys = key_columns(cols);
        assert forall|i: int, j: int| 0 <= i < j < keys.len() implies #[trigger] keys[i].ordinal_position
            < #[trigger] keys[j].ordinal_position by {
            if cols.last().primary_key && j == keys.len() - 1 {
                assert(keys[i] == key_columns(rest)[i]);
                assert(rest.contains(keys[i]));
                let x = choose|x: int| 0 <= x < rest.len() && rest[x] == keys[i];
                assert(cols[x] == rest[x]);
            } else {
                assert(keys[i] == key_columns(rest)[i] && keys[j] == key_columns(rest)[j]);
            }
        }
    }
}

/// In a well-formed table exactly one primary-key entry is marked last, and it
/// is the key column with the greatest ordinal position.
pub proof fn lemma_single_last_key(t: &Table)
    requires
        t.wf(),
        t.primary_keys@.len() > 0,
    ensures
        t.primary_keys@.last().last,
        forall|k: int| 0 <= k < t.primary_keys@.len() - 1 ==> !(#[trigger] t.primary_keys@[k]).last,
        forall|k: int|
            0 <= k < t.primary_keys@.len() ==> (#[trigger] t.primary_keys@[k]).column.ordinal_position
                <= t.primary_keys@.last().column.ordinal_position,
{
    let pks = t.primary_keys@;
    let keys = key_columns(t.columns@);
    lemma_key_columns_increasing(t.columns@);
    assert(pks[pks.len() - 1].last);
    assert forall|k: int| 0 <= k < pks.len() implies (#[trigger] pks[k]).column.ordinal_position
        <= pks.last().column.ordinal_position by {
        assert(pks[k].column == keys[k]);
        assert(pks[pks.len() - 1].column == keys[pks.len() - 1]);
    }
}

/// The key prefix of a primary-key entry holds exactly the primary-key columns
/// whose ordinal position is at most that of the entry's column.
pub proof fn lemma_uppers_by_ordinal(t: &Table, k: int)
    requires
        t.wf(),
        0 <= k < t.primary_keys@.len(),
    ensures
        forall|c: Column|
            t.primary_keys@[k].uppers@.contains(c) <==> (key_columns(t.columns@).contains(c)
                && c.ordinal_position <= t.primary_keys@[k].column.ordinal_position),
{
    let keys = key_columns(t.columns@);
    let pk = t.primary_keys@[k];
    lemma_key_columns_increasing(t.columns@);
    assert(pk.uppers@ == keys.subrange(0, k + 1));
    assert(pk.column == keys[k]);
    assert forall|c: Column| pk.uppers@.contains(c) <==> (keys.contains(c) && c.ordinal_position
        <= pk.column.ordinal_position) by {
        if pk.uppers@.contains(c) {
            let j = choose|j: int| 0 <= j < pk.uppers@.len() && pk.uppers@[j] == c;
            assert(keys[j] == c);
            assert(keys.contains(c));
        }
        if keys.contains(c) && c.ordinal_position <= pk.column.ordinal_position {
            let j = choose|j: int| 0 <= j < keys.len() && keys[j] == c;
            if j > k {
                assert(keys[k].ordinal_position < keys[j].ordinal_position);
            }
            assert(pk.uppers@[j] == c);
        }
    }
}

/// Catalog metadata of one table: its name, its parent's name, its columns in
/// ordinal order and its secondary indexes.
pub struct RawTable {
    pub table_name: String,
    pub parent_table_name: Option<String>,
    pub columns: Vec<Column>,
    pub indexes: Vec<Index>,
}

/// The catalog metadata of `raw` is well formed: its columns come in
/// strictly increasing ordinal order.
pub open spec fn raw_wf(raw: RawTable) -> bool {
    ordinals_increasing(raw.columns@)
}

/// `t` is the table built from `raw` under the run-level options.
pub open spec fn built_from(t: Table, raw: RawTable, json: bool, default: bool) -> bool {
    &&& t.wf()
    &&& t.table_name == raw.table_name
    &&& t.parent_table_name == raw.parent_table_name
    &&& t.columns == raw.columns
    &&& t.indexes == raw.indexes
    &&& t.json == json
    &&& t.default == default
}

/// Builds the table model of a schema snapshot: one table per catalog table,
/// in the catalog's order, each carrying the same run-level options.
pub fn build_tables(raw: Vec<RawTable>, json: bool, default: bool) -> (r: Vec<Table>)
    requires
        forall|i: int| 0 <= i < raw@.len() ==> raw_wf(#[trigger] raw@[i]),
    ensures
        r@.len() == raw@.len(),
        forall|i: int| 0 <= i < raw@.len() ==> built_from(#[trigger] r@[i], raw@[i], json, default),
{
    let ghost orig = raw@;
    let mut rest = raw;
    let mut tables: Vec<Table> = Vec::new();
    while rest.len() > 0
        invariant
            tables@.len() + rest@.len() == orig.len(),
            rest@ == orig.subrange(tables@.len() as int, orig.len() as int),
            forall|i: int| 0 <= i < orig.len() ==> raw_wf(#[trigger] orig[i]),
            forall|i: int| 0 <= i < tables@.len() ==> built_from(#[trigger] tables@[i], orig[i], json, default),
        decreases rest@.len(),
    {
        let ghost n = tables@.len();
        let r = rest.remove(0);
        assert(r == orig[n as int]);
        assert(raw_wf(orig[n as int]));
        let t = Table::new(r.table_name, r.parent_table_name, r.columns, r.indexes, json, default);
        tables.push(t);
        assert(rest@ =~= orig.subrange(tables@.len() as int, orig.len() as int));
    }
    tables
}

} // verus!
