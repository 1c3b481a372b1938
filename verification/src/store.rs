//! The store: a model of the single local database file. It keeps the
//! bookkeeping list of applied migration versions, the tables the migrations
//! created, and the rows of the `exhaust` table. The runner applies every
//! declared migration whose version exceeds the highest applied one, in
//! ascending order, recording each exactly once.

use vstd::prelude::*;
use vstd::string::StringExecFns;
use crate::registry::Migration;
use crate::registry::Registry;
use crate::registry::migrations_sorted;
use crate::schema::Statement;
use crate::schema::TableModel;
use crate::schema::dup_table_def;
use crate::schema::table_model;
use crate::table::ExhaustTable;
use crate::table::InsertError;
use crate::table::InsertRequest;
use crate::table::hash_conflict;
use crate::table::inserted_row_ok;
use crate::table::missing_required;
use crate::timefmt::MAX_TIMESTAMP_MS;

verus! {

pub open spec fn table_present(tables: Seq<TableModel>, name: Seq<char>) -> bool {
    exists|i: int| 0 <= i < tables.len() && tables[i].name == name
}

pub open spec fn tables_distinct(tables: Seq<TableModel>) -> bool {
    forall|i: int, j: int| 0 <= i < j < tables.len() ==> tables[i].name != tables[j].name
}

/// The effect of one schema-change statement on the tables of a store.
pub open spec fn apply_statement(tables: Seq<TableModel>, s: Statement) -> Seq<TableModel> {
    match s {
        Statement::CreateTableIfNotExists(def) => if table_present(tables, def.name@) {
            tables
        } else {
            tables.push(table_model(def))
        },
    }
}

pub open spec fn apply_statements(tables: Seq<TableModel>, stmts: Seq<Statement>) -> Seq<
    TableModel,
>
    decreases stmts.len(),
{
    if stmts.len() == 0 {
        tables
    } else {
        apply_statements(apply_statement(tables, stmts[0]), stmts.drop_first())
    }
}

pub open spec fn apply_migrations(tables: Seq<TableModel>, migs: Seq<Migration>) -> Seq<TableModel>
    decreases migs.len(),
{
    if migs.len() == 0 {
        tables
    } else {
        apply_migrations(apply_statements(tables, migs[0].statements@), migs.drop_first())
    }
}

/// The migrations of `migs` whose version exceeds `high`, in declared order.
pub open spec fn pending(migs: Seq<Migration>, high: u64) -> Seq<Migration>
    decreases migs.len(),
{
    if migs.len() == 0 {
        Seq::empty()
    } else if migs[0].version > high {
        seq![migs[0]] + pending(migs.drop_first(), high)
    } else {
        pending(migs.drop_first(), high)
    }
}

pub open spec fn versions_of(migs: Seq<Migration>) -> Seq<u64> {
    migs.map_values(|m: Migration| m.version)
}

/// The highest recorded applied version; zero when none is recorded.
pub open spec fn high_of(applied: Seq<u64>) -> u64 {
    if applied.len() == 0 {
        0
    } else {
        applied.last()
    }
}

pub open spec fn strictly_ascending(s: Seq<u64>) -> bool {
    forall|i: int, j: int| 0 <= i < j < s.len() ==> s[i] < s[j]
}

/// The local store: applied-version bookkeeping, the created tables, and the
/// rows of the `exhaust` table.
pub struct Store {
    pub applied: Vec<u64>,
    pub tables: Vec<crate::schema::TableDef>,
    pub exhaust: ExhaustTable,
}

impl Store {
    pub open spec fn tables_model(self) -> Seq<TableModel> {
        self.tables@.map_values(|t: crate::schema::TableDef| table_model(t))
    }

    pub open spec fn wf(self) -> bool {
        &&& strictly_ascending(self.applied@)
        &&& tables_distinct(self.tables_model())
        &&& !table_present(self.tables_model(), "exhaust"@) ==> self.exhaust.rows@.len() == 0
        &&& self.exhaust.wf()
    }

    /// A fresh store: nothing applied, no table, no row.
    pub fn new() -> (s: Store)
        ensures
            s.wf(),
            s.applied@.len() == 0,
            s.tables@.len() == 0,
            s.exhaust.rows@.len() == 0,
    {
        Store { applied: Vec::new(), tables: Vec::new(), exhaust: ExhaustTable::new() }
    }

    fn has_table(&self, name: &String) -> (r: bool)
        ensures
            r == table_present(self.tables_model(), name@),
    {
        let mut i: usize = 0;
        while i < self.tables.len()
            invariant
                i <= self.tables@.len(),
                forall|k: int| 0 <= k < i ==> self.tables_model()[k].name != name@,
            decreases self.tables@.len() - i,
        {
            if self.tables[i].name == *name {
                assert(self.tables_model()[i as int].name == name@);
                return true;
            }
            i = i + 1;
        }
        false
    }

    pub fn has_exhaust_table(&self) -> (r: bool)
        ensures
            r == table_present(self.tables_model(), "exhaust"@),
    {
        let name = String::from_str("exhaust");
        self.has_table(&name)
    }

    /// Applies every declared migration whose version exceeds the highest
    /// recorded applied version, in ascending order, recording each as
    /// applied; returns how many were applied. Migrations already recorded are
    /// never re-applied.
    pub fn apply_pending(&mut self, reg: &Registry) -> (count: u64)
        requires
            old(self).wf(),
            reg.wf(),
        ensures
            final(self).wf(),
            final(self).applied@ == old(self).applied@ + versions_of(
                pending(reg.migrations@, high_of(old(self).applied@)),
            ),
            final(self).tables_model() == apply_migrations(
                old(self).tables_model(),
                pending(reg.migrations@, high_of(old(self).applied@)),
            ),
            final(self).exhaust == old(self).exhaust,
            count == pending(reg.migrations@, high_of(old(self).applied@)).len(),
    {
        let napp = self.applied.len();
        let high0: u64 = if napp == 0 {
            0
        } else {
            self.applied[napp - 1]
        };
        let ghost migs = reg.migrations@;
        let ghost pend = pending(migs, high0);
        proof {
            lemma_pending_len(migs, high0);
            assert(migs.subrange(0, migs.len() as int) =~= migs);
        }
        let n = reg.migrations.len();
        let mut i: usize = 0;
        let mut count: u64 = 0;
        while i < n
            invariant
                n == migs.len(),
                migs == reg.migrations@,
                migrations_sorted(migs),
                pend == pending(migs, high0),
                pend.len() <= migs.len(),
                i <= n,
                old(self).applied@ + versions_of(pend) == self.applied@ + versions_of(
                    pending(migs.subrange(i as int, n as int), high0),
                ),
                apply_migrations(old(self).tables_model(), pend) == apply_migrations(
                    self.tables_model(),
                    pending(migs.subrange(i as int, n as int), high0),
                ),
                count as int + pending(migs.subrange(i as int, n as int), high0).len()
                    == pend.len(),
                self.exhaust == old(self).exhaust,
            decreases n - i,
        {
            let ghost rest = migs.subrange(i as int, n as int);
            let ghost rest1 = migs.subrange(i as int + 1, n as int);
            proof {
                assert(rest[0] == migs[i as int]);
                assert(rest.drop_first() =~= rest1);
            }
            let m = &reg.migrations[i];
            if m.version > high0 {
                let ghost v = migs[i as int].version;
                let ghost p1 = pending(rest1, high0);
                proof {
                    assert(pending(rest, high0) == seq![migs[i as int]] + p1);
                    assert(versions_of(seq![migs[i as int]] + p1) =~= seq![v] + versions_of(p1));
                    assert((seq![migs[i as int]] + p1)[0] == migs[i as int]);
                    assert((seq![migs[i as int]] + p1).drop_first() =~= p1);
                    assert(apply_migrations(self.tables_model(), seq![migs[i as int]] + p1)
                        == apply_migrations(
                        apply_statements(self.tables_model(), migs[i as int].statements@),
                        p1,
                    ));
                }
                let ghost applied_entry = self.applied@;
                let ghost tm_entry = self.tables_model();
                let slen = m.statements.len();
                proof {
                    assert(m.statements@.subrange(0, slen as int) =~= m.statements@);
                }
                let mut k: usize = 0;
                while k < slen
                    invariant
                        slen == m.statements@.len(),
                        m.statements@ == migs[i as int].statements@,
                        i < n == migs.len(),
                        migs == reg.migrations@,
                        k <= slen,
                        apply_statements(tm_entry, m.statements@) == apply_statements(
                            self.tables_model(),
                            m.statements@.subrange(k as int, slen as int),
                        ),
                        self.exhaust == old(self).exhaust,
                        self.applied@ == applied_entry,
                    decreases slen - k,
                {
                    let ghost srest = m.statements@.subrange(k as int, slen as int);
                    let ghost srest1 = m.statements@.subrange(k as int + 1, slen as int);
                    proof {
                        assert(srest[0] == m.statements@[k as int]);
                        assert(srest.drop_first() =~= srest1);
                    }
                    match &m.statements[k] {
                        Statement::CreateTableIfNotExists(def) => {
                            if !self.has_table(&def.name) {
                                let ghost tm_before = self.tables_model();
                                let d2 = dup_table_def(def);
                                self.tables.push(d2);
                                proof {
                                    assert(self.tables_model() =~= tm_before.push(
                                        table_model(*def),
                                    ));
                                    assert(apply_statement(tm_before, srest[0])
                                        == self.tables_model());
                                }
                            } else {
                                proof {
                                    assert(apply_statement(self.tables_model(), srest[0])
                                        == self.tables_model());
                                }
                            }
                        },
                    }
                    k = k + 1;
                }
                proof {
                    assert(m.statements@.subrange(slen as int, slen as int) =~= Seq::<
                        Statement,
                    >::empty());
                    assert(apply_statements(tm_entry, m.statements@) == self.tables_model());
                }
                self.applied.push(m.version);
                count = count + 1;
                proof {
                    assert(self.applied@ =~= applied_entry + seq![v]);
                    assert(applied_entry + (seq![v] + versions_of(p1)) =~= (applied_entry + seq![v])
                        + versions_of(p1));
                }
            } else {
                proof {
                    assert(pending(rest, high0) == pending(rest1, high0));
                }
            }
            i = i + 1;
        }
        proof {
            assert(migs.subrange(n as int, n as int) =~= Seq::<Migration>::empty());
            assert(versions_of(Seq::<Migration>::empty()) =~= Seq::<u64>::empty());
            assert(self.applied@ + Seq::<u64>::empty() =~= self.applied@);
            assert(self.applied@ == old(self).applied@ + versions_of(pend));
            lemma_applied_stays_ascending(old(self).applied@, migs, high0);
            lemma_apply_migrations_props(old(self).tables_model(), pend, "exhaust"@);
        }
        count
    }

    /// Runs one insert statement against the store: it fails with
    /// `NoSuchTable` until the migrations have created the `exhaust` table,
    /// and otherwise behaves as the table's insert does.
    pub fn insert_exhaust(&mut self, req: InsertRequest, now_ms: u64) -> (r: Result<
        u64,
        InsertError,
    >)
        requires
            old(self).wf(),
            now_ms < MAX_TIMESTAMP_MS,
            old(self).exhaust.rows@.len() < u64::MAX,
        ensures
            final(self).wf(),
            final(self).applied@ == old(self).applied@,
            final(self).tables_model() == old(self).tables_model(),
            !table_present(old(self).tables_model(), "exhaust"@) ==> r == Err::<u64, InsertError>(
                InsertError::NoSuchTable,
            ) && *final(self) == *old(self),
            table_present(old(self).tables_model(), "exhaust"@) && missing_required(req) is Some
                ==> r == Err::<u64, InsertError>(
                InsertError::NotNullViolation(missing_required(req)->0),
            ) && *final(self) == *old(self),
            table_present(old(self).tables_model(), "exhaust"@) && missing_required(req) is None
                && hash_conflict(old(self).exhaust.rows@, (req.hash->0)@) ==> r == Err::<
                u64,
                InsertError,
            >(InsertError::UniqueViolation) && *final(self) == *old(self),
            table_present(old(self).tables_model(), "exhaust"@) && missing_required(req) is None
                && !hash_conflict(old(self).exhaust.rows@, (req.hash->0)@) ==> {
                &&& r == Ok::<u64, InsertError>((old(self).exhaust.rows@.len() + 1) as u64)
                &&& final(self).exhaust.rows@.len() == old(self).exhaust.rows@.len() + 1
                &&& final(self).exhaust.rows@.drop_last() == old(self).exhaust.rows@
                &&& inserted_row_ok(
                    final(self).exhaust.rows@.last(),
                    req,
                    now_ms,
                    (old(self).exhaust.rows@.len() + 1) as u64,
                )
            },
    {
        if !self.has_exhaust_table() {
            return Err(InsertError::NoSuchTable);
        }
        self.exhaust.insert(req, now_ms)
    }
}

proof fn lemma_sorted_drop_first(migs: Seq<Migration>)
    requires
        migrations_sorted(migs),
        migs.len() > 0,
    ensures
        migrations_sorted(migs.drop_first()),
{
    assert forall|i: int, j: int|
        0 <= i < j < migs.drop_first().len() implies migs.drop_first()[i].version
        < migs.drop_first()[j].version by {
        assert(migs.drop_first()[i] == migs[i + 1]);
        assert(migs.drop_first()[j] == migs[j + 1]);
    }
    assert forall|i: int| 0 <= i < migs.drop_first().len() implies (#[trigger] migs.drop_first()[
    i].version) >= 1 && migs.drop_first()[i].description@.len() > 0 by {
        assert(migs.drop_first()[i] == migs[i + 1]);
    }
}

/// What the pending list of a well-formed registry looks like: no longer than
/// the registry, strictly ascending, every version above `high`, and made of
/// exactly the declared migrations whose version exceeds `high`.
proof fn lemma_pending_len(migs: Seq<Migration>, high: u64)
    ensures
        pending(migs, high).len() <= migs.len(),
    decreases migs.len(),
{
    if migs.len() > 0 {
        lemma_pending_len(migs.drop_first(), high);
    }
}

/// Every pending migration's version exceeds `high`.
proof fn lemma_pending_gt(migs: Seq<Migration>, high: u64)
    ensures
        forall|k: int|
            0 <= k < pending(migs, high).len() ==> (#[trigger] pending(migs, high)[k].version)
                > high,
    decreases migs.len(),
{
    if migs.len() > 0 {
        let rest = migs.drop_first();
        lemma_pending_gt(rest, high);
        let p = pending(migs, high);
        let pr = pending(rest, high);
        if migs[0].version > high {
            assert forall|k: int| 0 <= k < p.len() implies (#[trigger] p[k].version) > high by {
                if k > 0 {
                    assert(p[k] == pr[k - 1]);
                }
            }
        }
    }
}

proof fn lemma_pending_lower(migs: Seq<Migration>, high: u64, bound: u64)
    requires
        forall|j: int| 0 <= j < migs.len() ==> (#[trigger] migs[j].version) > bound,
    ensures
        forall|k: int|
            0 <= k < pending(migs, high).len() ==> (#[trigger] pending(migs, high)[k].version)
                > bound,
    decreases migs.len(),
{
    if migs.len() > 0 {
        let rest = migs.drop_first();
        assert forall|j: int| 0 <= j < rest.len() implies (#[trigger] rest[j].version) > bound by {
            assert(rest[j] == migs[j + 1]);
        }
        lemma_pending_lower(rest, high, bound);
        let p = pending(migs, high);
        let pr = pending(rest, high);
        if migs[0].version > high {
            assert forall|k: int| 0 <= k < p.len() implies (#[trigger] p[k].version) > bound by {
                if k > 0 {
                    assert(p[k] == pr[k - 1]);
                }
            }
        }
    }
}

/// The pending list of a well-formed registry keeps its strictly ascending
/// version order.
proof fn lemma_pending_ascending(migs: Seq<Migration>, high: u64)
    requires
        migrations_sorted(migs),
    ensures
        forall|a: int, b: int|
            0 <= a < b < pending(migs, high).len() ==> pending(migs, high)[a].version < pending(
                migs,
                high,
            )[b].version,
    decreases migs.len(),
{
    if migs.len() > 0 {
        let rest = migs.drop_first();
        lemma_sorted_drop_first(migs);
        lemma_pending_ascending(rest, high);
        let p = pending(migs, high);
        let pr = pending(rest, high);
        if migs[0].version > high {
            assert forall|j: int|
                0 <= j < rest.len() implies (#[trigger] rest[j].version) > migs[0].version by {
                assert(rest[j] == migs[j + 1]);
            }
            lemma_pending_lower(rest, high, migs[0].version);
            assert forall|a: int, b: int|
                0 <= a < b < p.len() implies p[a].version < p[b].version by {
                assert(p[b] == pr[b - 1]);
                if a > 0 {
                    assert(p[a] == pr[a - 1]);
                }
            }
        }
    }
}

/// For a well-formed registry, what is pending is a suffix: when anything is
/// pending at all, the last pending migration is the last declared one.
proof fn lemma_pending_last(migs: Seq<Migration>, high: u64)
    requires
        migrations_sorted(migs),
    ensures
        pending(migs, high).len() > 0 ==> pending(migs, high).last() == migs.last(),
    decreases migs.len(),
{
    if migs.len() > 0 {
        let rest = migs.drop_first();
        lemma_sorted_drop_first(migs);
        lemma_pending_last(rest, high);
        let p = pending(migs, high);
        let pr = pending(rest, high);
        if migs[0].version > high {
            if migs.len() == 1 {
                assert(pending(rest, high).len() == 0);
                assert(p.last() == migs[0]);
            } else {
                assert(rest[0] == migs[1]);
                assert(rest[0].version > high);
                assert(pr == seq![rest[0]] + pending(rest.drop_first(), high));
                assert(pr.len() > 0);
                assert(p.last() == pr.last());
                assert(rest.last() == migs.last());
            }
        } else {
            if p.len() > 0 {
                assert(rest.last() == migs.last());
            }
        }
    }
}

/// Recording the pending versions after the ones already applied keeps the
/// bookkeeping strictly ascending.
proof fn lemma_applied_stays_ascending(applied0: Seq<u64>, migs: Seq<Migration>, high: u64)
    requires
        strictly_ascending(applied0),
        migrations_sorted(migs),
        high == high_of(applied0),
    ensures
        strictly_ascending(applied0 + versions_of(pending(migs, high))),
{
    lemma_pending_gt(migs, high);
    lemma_pending_ascending(migs, high);
    let p = pending(migs, high);
    let vs = versions_of(p);
    let both = applied0 + vs;
    assert forall|i: int, j: int| 0 <= i < j < both.len() implies both[i] < both[j] by {
        let n0 = applied0.len();
        if j < n0 {
        } else if i >= n0 {
            assert(both[i] == vs[i - n0]);
            assert(both[j] == vs[j - n0]);
            assert(vs[i - n0] == p[i - n0].version);
            assert(vs[j - n0] == p[j - n0].version);
        } else {
            assert(both[i] == applied0[i]);
            assert(both[j] == vs[j - n0]);
            assert(vs[j - n0] == p[j - n0].version);
            assert(p[j - n0].version > high);
            if i < n0 - 1 {
                assert(applied0[i] < applied0[n0 - 1]);
            }
            assert(applied0[i] <= high);
        }
    }
}

proof fn lemma_apply_statement_props(t: Seq<TableModel>, s: Statement, name: Seq<char>)
    ensures
        tables_distinct(t) ==> tables_distinct(apply_statement(t, s)),
        table_present(t, name) ==> table_present(apply_statement(t, s), name),
{
    match s {
        Statement::CreateTableIfNotExists(def) => {
            if !table_present(t, def.name@) {
                let t2 = t.push(table_model(def));
                if tables_distinct(t) {
                    assert forall|i: int, j: int|
                        0 <= i < j < t2.len() implies t2[i].name != t2[j].name by {
                        if j == t.len() {
                            assert(t2[i] == t[i]);
                            assert(t2[j].name == def.name@);
                            assert(!(t[i].name == def.name@));
                        }
                    }
                }
                if table_present(t, name) {
                    let i = choose|i: int| 0 <= i < t.len() && t[i].name == name;
                    assert(t2[i].name == name);
                }
            }
        },
    }
}

proof fn lemma_apply_statements_props(t: Seq<TableModel>, stmts: Seq<Statement>, name: Seq<char>)
    ensures
        tables_distinct(t) ==> tables_distinct(apply_statements(t, stmts)),
        table_present(t, name) ==> table_present(apply_statements(t, stmts), name),
    decreases stmts.len(),
{
    if stmts.len() > 0 {
        lemma_apply_statement_props(t, stmts[0], name);
        lemma_apply_statements_props(apply_statement(t, stmts[0]), stmts.drop_first(), name);
    }
}

/// Applying migrations never drops a table and never duplicates a name.
proof fn lemma_apply_migrations_props(t: Seq<TableModel>, migs: Seq<Migration>, name: Seq<char>)
    ensures
        tables_distinct(t) ==> tables_distinct(apply_migrations(t, migs)),
        table_present(t, name) ==> table_present(apply_migrations(t, migs), name),
    decreases migs.len(),
{
    if migs.len() > 0 {
        lemma_apply_statements_props(t, migs[0].statements@, name);
        lemma_apply_migrations_props(
            apply_statements(t, migs[0].statements@),
            migs.drop_first(),
            name,
        );
    }
}

proof fn lemma_pending_none(migs: Seq<Migration>, high: u64)
    requires
        forall|j: int| 0 <= j < migs.len() ==> (#[trigger] migs[j].version) <= high,
    ensures
        pending(migs, high).len() == 0,
    decreases migs.len(),
{
    if migs.len() > 0 {
        assert(migs[0].version <= high);
        assert forall|j: int|
            0 <= j < migs.drop_first().len() implies (#[trigger] migs.drop_first()[j].version)
            <= high by {
            assert(migs.drop_first()[j] == migs[j + 1]);
        }
        lemma_pending_none(migs.drop_first(), high);
    }
}

/// Law: applying the same registry twice is idempotent. After one application
/// nothing is pending any more, so a second application records nothing,
/// changes no table, and reports zero applied migrations.
pub proof fn lemma_apply_idempotent(
    applied0: Seq<u64>,
    tables1: Seq<TableModel>,
    migs: Seq<Migration>,
)
    requires
        strictly_ascending(applied0),
        migrations_sorted(migs),
    ensures
        ({
            let applied1 = applied0 + versions_of(pending(migs, high_of(applied0)));
            &&& pending(migs, high_of(applied1)).len() == 0
            &&& applied1 + versions_of(pending(migs, high_of(applied1))) == applied1
            &&& apply_migrations(tables1, pending(migs, high_of(applied1))) == tables1
        }),
{
    let h0 = high_of(applied0);
    let p = pending(migs, h0);
    let vs = versions_of(p);
    let applied1 = applied0 + vs;
    let h1 = high_of(applied1);
    if p.len() == 0 {
        assert(applied1 =~= applied0);
    } else {
        lemma_pending_last(migs, h0);
        assert(applied1.last() == vs[p.len() - 1]);
        assert(vs[p.len() - 1] == p[p.len() - 1].version);
        assert(h1 == migs.last().version);
        assert forall|j: int| 0 <= j < migs.len() implies (#[trigger] migs[j].version) <= h1 by {
            if j < migs.len() - 1 {
                assert(migs[j].version < migs[migs.len() - 1].version);
            }
        }
        lemma_pending_none(migs, h1);
    }
    assert(versions_of(pending(migs, h1)) =~= Seq::<u64>::empty());
    assert(applied1 + Seq::<u64>::empty() =~= applied1);
}

/// Law: against a fresh store the registry's one declared change is exactly
/// what is pending — version 1 is recorded as applied and the `exhaust` table
/// comes into being with its declared columns.
pub proof fn lemma_fresh_apply(reg: Registry)
    requires
        reg.wf(),
        crate::registry::is_exhaust_registry(reg),
    ensures
        versions_of(pending(reg.migrations@, 0)) =~= seq![1u64],
        ({
            let t = apply_migrations(Seq::<TableModel>::empty(), pending(reg.migrations@, 0));
            &&& t.len() == 1
            &&& table_present(t, "exhaust"@)
            &&& t[0] == table_model(reg.migrations@[0].statements@[0]->CreateTableIfNotExists_0)
        }),
{
    let migs = reg.migrations@;
    let p = pending(migs, 0);
    assert(migs[0].version > 0);
    assert(migs.drop_first().len() == 0);
    assert(pending(migs.drop_first(), 0) =~= Seq::<Migration>::empty());
    assert(p =~= seq![migs[0]]);
    assert(versions_of(p) =~= seq![1u64]);
    let stmts = migs[0].statements@;
    let d = stmts[0]->CreateTableIfNotExists_0;
    let t1 = apply_statement(Seq::<TableModel>::empty(), stmts[0]);
    assert(!table_present(Seq::<TableModel>::empty(), d.name@));
    assert(t1 =~= seq![table_model(d)]);
    assert(stmts.drop_first() =~= Seq::<Statement>::empty());
    assert(apply_statements(t1, stmts.drop_first()) == t1);
    assert(apply_statements(Seq::<TableModel>::empty(), stmts) == t1);
    assert(p.drop_first() =~= Seq::<Migration>::empty());
    assert(p[0] == migs[0]);
    let t = apply_migrations(Seq::<TableModel>::empty(), p);
    assert(apply_migrations(t1, p.drop_first()) == t1);
    assert(t == t1);
    assert(t1[0].name == "exhaust"@);
    assert(table_present(t1, "exhaust"@));
}

} // verus!
