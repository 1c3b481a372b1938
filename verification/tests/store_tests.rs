use exhaust_store::registry::exhaust_registry;
use exhaust_store::registry::Migration;
use exhaust_store::registry::MigrationKind;
use exhaust_store::registry::Registry;
use exhaust_store::registry::RegistryError;
use exhaust_store::schema::ColDefault;
use exhaust_store::schema::ColType;
use exhaust_store::schema::Statement;
use exhaust_store::schema::TableDef;
use exhaust_store::store::Store;
use exhaust_store::table::InsertError;
use exhaust_store::table::InsertRequest;
use exhaust_store::table::RequiredColumn;

const NOW: u64 = 1700000000123;

fn migrated_store() -> Store {
    let registry = exhaust_registry();
    let mut store = Store::new();
    let applied = store.apply_pending(&registry);
    assert_eq!(applied, 1);
    store
}

fn minimal_request() -> InsertRequest {
    InsertRequest {
        description: Some(String::from("Front bumper")),
        part_type: Some(String::from("plastic")),
        painting: Some(String::from("red")),
        car_date_range: Some(String::from("2015-2020")),
        hash: Some(String::from("abc123")),
        ..InsertRequest::empty()
    }
}

#[test]
fn fresh_store_migration_creates_exhaust_table() {
    let registry = exhaust_registry();
    let mut store = Store::new();
    let applied = store.apply_pending(&registry);
    assert_eq!(applied, 1);
    assert!(store.has_exhaust_table());
    assert_eq!(store.applied, vec![1u64]);
    assert_eq!(store.tables.len(), 1);
    let table = &store.tables[0];
    assert_eq!(table.name, "exhaust");
    assert_eq!(table.columns.len(), 16);
    let expected: Vec<(&str, ColType, bool, bool, bool, ColDefault)> = vec![
        ("id", ColType::Integer, true, false, true, ColDefault::NoDefault),
        ("barcode", ColType::Text, false, false, false, ColDefault::NoDefault),
        ("label", ColType::Text, false, false, false, ColDefault::NoDefault),
        ("description", ColType::Text, true, false, false, ColDefault::NoDefault),
        ("type", ColType::Text, true, false, false, ColDefault::NoDefault),
        ("painting", ColType::Text, true, false, false, ColDefault::NoDefault),
        ("qrcode", ColType::Text, false, false, false, ColDefault::NoDefault),
        ("isValidated", ColType::Integer, true, false, false, ColDefault::Zero),
        ("createdAt", ColType::Text, true, false, false, ColDefault::CurrentTimestamp),
        ("updatedAt", ColType::Text, true, false, false, ColDefault::CurrentTimestamp),
        ("hash", ColType::Text, true, true, false, ColDefault::NoDefault),
        ("carBrand", ColType::Text, false, false, false, ColDefault::NoDefault),
        ("carModel", ColType::Text, false, false, false, ColDefault::NoDefault),
        ("carType", ColType::Text, false, false, false, ColDefault::NoDefault),
        ("carEngine", ColType::Text, false, false, false, ColDefault::NoDefault),
        ("carDateRange", ColType::Text, true, false, false, ColDefault::NoDefault),
    ];
    for (i, (name, ctype, not_null, unique, primary_key, default)) in
        expected.into_iter().enumerate()
    {
        let c = &table.columns[i];
        assert_eq!(c.name, name);
        assert_eq!(c.ctype, ctype);
        assert_eq!(c.not_null, not_null);
        assert_eq!(c.unique, unique);
        assert_eq!(c.primary_key, primary_key);
        assert_eq!(c.default, default);
    }
}

#[test]
fn second_apply_is_noop() {
    let registry = exhaust_registry();
    let mut store = Store::new();
    let first = store.apply_pending(&registry);
    assert_eq!(first, 1);
    let second = store.apply_pending(&registry);
    assert_eq!(second, 0);
    assert_eq!(store.applied, vec![1u64]);
    assert_eq!(store.tables.len(), 1);
    assert_eq!(store.exhaust.rows.len(), 0);
}

#[test]
fn duplicate_hash_rejected_distinct_hash_accepted() {
    let mut store = migrated_store();
    let first = store.insert_exhaust(minimal_request(), NOW);
    assert_eq!(first, Ok(1));
    let second = store.insert_exhaust(minimal_request(), NOW);
    assert_eq!(second, Err(InsertError::UniqueViolation));
    assert_eq!(store.exhaust.rows.len(), 1);
    let mut other = minimal_request();
    other.hash = Some(String::from("def456"));
    let third = store.insert_exhaust(other, NOW);
    assert_eq!(third, Ok(2));
    assert_eq!(store.exhaust.rows.len(), 2);
}

#[test]
fn missing_required_columns_rejected() {
    let mut store = migrated_store();
    let mut req = minimal_request();
    req.description = None;
    assert_eq!(
        store.insert_exhaust(req, NOW),
        Err(InsertError::NotNullViolation(RequiredColumn::Description))
    );
    let mut req = minimal_request();
    req.part_type = None;
    assert_eq!(
        store.insert_exhaust(req, NOW),
        Err(InsertError::NotNullViolation(RequiredColumn::PartType))
    );
    let mut req = minimal_request();
    req.painting = None;
    assert_eq!(
        store.insert_exhaust(req, NOW),
        Err(InsertError::NotNullViolation(RequiredColumn::Painting))
    );
    let mut req = minimal_request();
    req.hash = None;
    assert_eq!(
        store.insert_exhaust(req, NOW),
        Err(InsertError::NotNullViolation(RequiredColumn::Hash))
    );
    let mut req = minimal_request();
    req.car_date_range = None;
    assert_eq!(
        store.insert_exhaust(req, NOW),
        Err(InsertError::NotNullViolation(RequiredColumn::CarDateRange))
    );
    assert_eq!(store.exhaust.rows.len(), 0);
}

#[test]
fn omitted_optional_columns_stored_absent() {
    let mut store = migrated_store();
    assert_eq!(store.insert_exhaust(minimal_request(), NOW), Ok(1));
    let row = &store.exhaust.rows[0];
    assert_eq!(row.barcode, None);
    assert_eq!(row.label, None);
    assert_eq!(row.qrcode, None);
    assert_eq!(row.car_brand, None);
    assert_eq!(row.car_model, None);
    assert_eq!(row.car_type, None);
    assert_eq!(row.car_engine, None);
}

#[test]
fn insert_before_migration_fails() {
    let mut store = Store::new();
    assert_eq!(
        store.insert_exhaust(minimal_request(), NOW),
        Err(InsertError::NoSuchTable)
    );
}

#[test]
fn scenario_front_bumper() {
    let mut store = migrated_store();
    let first = store.insert_exhaust(minimal_request(), NOW);
    assert_eq!(first, Ok(1));
    {
        let row = &store.exhaust.rows[0];
        assert_eq!(row.id, 1);
        assert_eq!(row.description, "Front bumper");
        assert_eq!(row.part_type, "plastic");
        assert_eq!(row.painting, "red");
        assert_eq!(row.car_date_range, "2015-2020");
        assert_eq!(row.hash, "abc123");
        assert!(!row.is_validated);
        assert_eq!(row.created_at, row.updated_at);
        assert_eq!(row.barcode, None);
        assert_eq!(row.label, None);
        assert_eq!(row.qrcode, None);
        assert_eq!(row.car_brand, None);
        assert_eq!(row.car_model, None);
        assert_eq!(row.car_type, None);
        assert_eq!(row.car_engine, None);
    }
    let second = store.insert_exhaust(minimal_request(), NOW);
    assert_eq!(second, Err(InsertError::UniqueViolation));
    assert_eq!(store.exhaust.rows.len(), 1);
}

#[test]
fn rendered_create_table_script() {
    let table = exhaust_store::schema::exhaust_table_def();
    let sql = exhaust_store::schema::create_table_sql(&table);
    assert_eq!(
        sql,
        "CREATE TABLE IF NOT EXISTS exhaust (\
         id INTEGER PRIMARY KEY AUTOINCREMENT, \
         barcode TEXT NULL, \
         label TEXT NULL, \
         description TEXT NOT NULL, \
         type TEXT NOT NULL, \
         painting TEXT NOT NULL, \
         qrcode TEXT NULL, \
         isValidated INTEGER NOT NULL DEFAULT 0, \
         createdAt TEXT NOT NULL DEFAULT (strftime('%Y-%m-%dT%H:%M:%fZ','now')), \
         updatedAt TEXT NOT NULL DEFAULT (strftime('%Y-%m-%dT%H:%M:%fZ','now')), \
         hash TEXT NOT NULL UNIQUE, \
         carBrand TEXT NULL, \
         carModel TEXT NULL, \
         carType TEXT NULL, \
         carEngine TEXT NULL, \
         carDateRange TEXT NOT NULL);"
    );
}

#[test]
fn registry_rejects_bad_records() {
    let mut registry = Registry::new();
    let good = Migration {
        version: 1,
        description: String::from("first"),
        statements: Vec::new(),
        kind: MigrationKind::Up,
    };
    assert_eq!(registry.add(good), Ok(()));
    let stale = Migration {
        version: 1,
        description: String::from("again"),
        statements: Vec::new(),
        kind: MigrationKind::Up,
    };
    assert_eq!(registry.add(stale), Err(RegistryError::NonIncreasingVersion));
    let unnamed = Migration {
        version: 2,
        description: String::new(),
        statements: Vec::new(),
        kind: MigrationKind::Up,
    };
    assert_eq!(registry.add(unnamed), Err(RegistryError::EmptyDescription));
    let next = Migration {
        version: 2,
        description: String::from("second"),
        statements: Vec::new(),
        kind: MigrationKind::Up,
    };
    assert_eq!(registry.add(next), Ok(()));
    assert_eq!(registry.migrations.len(), 2);
}

#[test]
fn empty_registry_applies_nothing() {
    let registry = Registry::new();
    let mut store = Store::new();
    assert_eq!(store.apply_pending(&registry), 0);
    assert_eq!(store.applied.len(), 0);
    assert_eq!(store.tables.len(), 0);
    assert!(!store.has_exhaust_table());
}

#[test]
fn later_release_applies_only_the_new_migration() {
    let mut registry = exhaust_registry();
    let mut store = Store::new();
    assert_eq!(store.apply_pending(&registry), 1);
    let audit = TableDef { name: String::from("audit"), columns: Vec::new() };
    let next = Migration {
        version: 2,
        description: String::from("create_audit_table"),
        statements: vec![Statement::CreateTableIfNotExists(audit)],
        kind: MigrationKind::Up,
    };
    assert_eq!(registry.add(next), Ok(()));
    assert_eq!(store.apply_pending(&registry), 1);
    assert_eq!(store.applied, vec![1u64, 2u64]);
    assert_eq!(store.tables.len(), 2);
    assert_eq!(store.tables[1].name, "audit");
    // Re-issuing an existing table's creation changes nothing.
    let again = Migration {
        version: 3,
        description: String::from("create_audit_table_again"),
        statements: vec![Statement::CreateTableIfNotExists(TableDef {
            name: String::from("audit"),
            columns: Vec::new(),
        })],
        kind: MigrationKind::Up,
    };
    assert_eq!(registry.add(again), Ok(()));
    assert_eq!(store.apply_pending(&registry), 1);
    assert_eq!(store.applied, vec![1u64, 2u64, 3u64]);
    assert_eq!(store.tables.len(), 2);
}

#[test]
fn zero_version_rejected_on_empty_registry() {
    let mut registry = Registry::new();
    let zero = Migration {
        version: 0,
        description: String::from("nothing"),
        statements: Vec::new(),
        kind: MigrationKind::Up,
    };
    assert_eq!(registry.add(zero), Err(RegistryError::NonIncreasingVersion));
    assert_eq!(registry.migrations.len(), 0);
}
