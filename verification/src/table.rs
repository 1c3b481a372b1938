//! The `exhaust` table itself: rows, insert statements, and the insert
//! semantics that the schema's constraints dictate — required columns must be
//! set, `hash` is unique, `id` is auto-assigned, `isValidated` defaults to
//! false, and the two timestamp columns default to the current time.

use vstd::prelude::*;
use crate::timefmt::format_timestamp;
use crate::timefmt::spec_timestamp;
use crate::timefmt::MAX_TIMESTAMP_MS;

verus! {

/// The columns of the `exhaust` table that may not be left unset.
#[derive(Clone, Copy, PartialEq, Eq, Structural, Debug)]
pub enum RequiredColumn {
    Description,
    PartType,
    Painting,
    Hash,
    CarDateRange,
}

#[derive(Clone, Copy, PartialEq, Eq, Structural, Debug)]
pub enum InsertError {
    /// A required column was left unset.
    NotNullViolation(RequiredColumn),
    /// Another row already carries the same `hash`.
    UniqueViolation,
    /// The `exhaust` table has not been created in the store.
    NoSuchTable,
}

/// One stored row of the `exhaust` table.
#[derive(Clone, Debug)]
pub struct ExhaustRow {
    pub id: u64,
    pub barcode: Option<String>,
    pub label: Option<String>,
    pub description: String,
    pub part_type: String,
    pub painting: String,
    pub qrcode: Option<String>,
    pub is_validated: bool,
    pub created_at: String,
    pub updated_at: String,
    pub hash: String,
    pub car_brand: Option<String>,
    pub car_model: Option<String>,
    pub car_type: Option<String>,
    pub car_engine: Option<String>,
    pub car_date_range: String,
}

/// An insert statement for the `exhaust` table: a field left as `None` is a
/// column the statement does not set.
#[derive(Clone, Debug)]
pub struct InsertRequest {
    pub barcode: Option<String>,
    pub label: Option<String>,
    pub description: Option<String>,
    pub part_type: Option<String>,
    pub painting: Option<String>,
    pub qrcode: Option<String>,
    pub is_validated: Option<bool>,
    pub created_at: Option<String>,
    pub updated_at: Option<String>,
    pub hash: Option<String>,
    pub car_brand: Option<String>,
    pub car_model: Option<String>,
    pub car_type: Option<String>,
    pub car_engine: Option<String>,
    pub car_date_range: Option<String>,
}

impl InsertRequest {
    /// A statement that sets no column at all.
    pub fn empty() -> (r: InsertRequest)
        ensures
            r.barcode is None,
            r.label is None,
            r.description is None,
            r.part_type is None,
            r.painting is None,
            r.qrcode is None,
            r.is_validated is None,
            r.created_at is None,
            r.updated_at is None,
            r.hash is None,
            r.car_brand is None,
            r.car_model is None,
            r.car_type is None,
            r.car_engine is None,
            r.car_date_range is None,
    {
        InsertRequest {
            barcode: None,
            label: None,
            description: None,
            part_type: None,
            painting: None,
            qrcode: None,
            is_validated: None,
            created_at: None,
            updated_at: None,
            hash: None,
            car_brand: None,
            car_model: None,
            car_type: None,
            car_engine: None,
            car_date_range: None,
        }
    }
}

pub open spec fn opt_view(o: Option<String>) -> Option<Seq<char>> {
    match o {
        Some(s) => Some(s@),
        None => None,
    }
}

/// The first required column that `req` leaves unset, in schema order.
pub open spec fn missing_required(req: InsertRequest) -> Option<RequiredColumn> {
    if req.description is None {
        Some(RequiredColumn::Description)
    } else if req.part_type is None {
        Some(RequiredColumn::PartType)
    } else if req.painting is None {
        Some(RequiredColumn::Painting)
    } else if req.hash is None {
        Some(RequiredColumn::Hash)
    } else if req.car_date_range is None {
        Some(RequiredColumn::CarDateRange)
    } else {
        None
    }
}

/// Some stored row already carries hash `h`.
pub open spec fn hash_conflict(rows: Seq<ExhaustRow>, h: Seq<char>) -> bool {
    exists|i: int| 0 <= i < rows.len() && rows[i].hash@ == h
}

/// The row a successful insert of `req` stores, given the clock reading
/// `now_ms` and the assigned key `id`.
pub open spec fn inserted_row_ok(row: ExhaustRow, req: InsertRequest, now_ms: u64, id: u64) -> bool {
    &&& row.id == id
    &&& opt_view(row.barcode) == opt_view(req.barcode)
    &&& opt_view(row.label) == opt_view(req.label)
    &&& row.description@ == (req.description->0)@
    &&& row.part_type@ == (req.part_type->0)@
    &&& row.painting@ == (req.painting->0)@
    &&& opt_view(row.qrcode) == opt_view(req.qrcode)
    &&& row.is_validated == (if req.is_validated is Some {
        req.is_validated->0
    } else {
        false
    })
    &&& row.created_at@ == (if req.created_at is Some {
        (req.created_at->0)@
    } else {
        spec_timestamp(now_ms as int)
    })
    &&& row.updated_at@ == (if req.updated_at is Some {
        (req.updated_at->0)@
    } else {
        spec_timestamp(now_ms as int)
    })
    &&& row.hash@ == (req.hash->0)@
    &&& opt_view(row.car_brand) == opt_view(req.car_brand)
    &&& opt_view(row.car_model) == opt_view(req.car_model)
    &&& opt_view(row.car_type) == opt_view(req.car_type)
    &&& opt_view(row.car_engine) == opt_view(req.car_engine)
    &&& row.car_date_range@ == (req.car_date_range->0)@
}

/// The rows of the `exhaust` table. Keys are auto-assigned from one upward,
/// and no two rows share a `hash`.
pub struct ExhaustTable {
    pub rows: Vec<ExhaustRow>,
}

impl ExhaustTable {
    pub open spec fn wf(self) -> bool {
        &&& forall|i: int| 0 <= i < self.rows@.len() ==> #[trigger] self.rows@[i].id == i + 1
        &&& forall|i: int, j: int|
            0 <= i < j < self.rows@.len() ==> self.rows@[i].hash@ != self.rows@[j].hash@
    }

    pub fn new() -> (t: ExhaustTable)
        ensures
            t.wf(),
            t.rows@.len() == 0,
    {
        ExhaustTable { rows: Vec::new() }
    }

    pub fn len(&self) -> (n: usize)
        ensures
            n == self.rows@.len(),
    {
        self.rows.len()
    }

    pub fn contains_hash(&self, h: &String) -> (r: bool)
        ensures
            r == hash_conflict(self.rows@, h@),
    {
        let mut i: usize = 0;
        while i < self.rows.len()
            invariant
                i <= self.rows@.len(),
                forall|k: int| 0 <= k < i ==> self.rows@[k].hash@ != h@,
            decreases self.rows@.len() - i,
        {
            if self.rows[i].hash == *h {
                return true;
            }
            i = i + 1;
        }
        false
    }

    /// Executes one insert statement against the table, as the schema
    /// dictates: a missing required column is a not-null violation (checked in
    /// schema order), a `hash` already present is a uniqueness violation, and
    /// otherwise the row is stored with the next key, `isValidated` defaulting
    /// to false and both timestamps defaulting to the current time. A failed
    /// insert leaves the table unchanged.
    pub fn insert(&mut self, req: InsertRequest, now_ms: u64) -> (r: Result<u64, InsertError>)
        requires
            old(self).wf(),
            now_ms < MAX_TIMESTAMP_MS,
            old(self).rows@.len() < u64::MAX,
        ensures
            final(self).wf(),
            missing_required(req) is Some ==> r == Err::<u64, InsertError>(
                InsertError::NotNullViolation(missing_required(req)->0),
            ) && *final(self) == *old(self),
            missing_required(req) is None && hash_conflict(old(self).rows@, (req.hash->0)@) ==> r
                == Err::<u64, InsertError>(InsertError::UniqueViolation) && *final(self) == *old(
                self,
            ),
            missing_required(req) is None && !hash_conflict(old(self).rows@, (req.hash->0)@) ==> {
                &&& r == Ok::<u64, InsertError>((old(self).rows@.len() + 1) as u64)
                &&& final(self).rows@.len() == old(self).rows@.len() + 1
                &&& final(self).rows@.drop_last() == old(self).rows@
                &&& inserted_row_ok(
                    final(self).rows@.last(),
                    req,
                    now_ms,
                    (old(self).rows@.len() + 1) as u64,
                )
            },
    {
        let InsertRequest {
            barcode,
            label,
            description,
            part_type,
            painting,
            qrcode,
            is_validated,
            created_at,
            updated_at,
            hash,
            car_brand,
            car_model,
            car_type,
            car_engine,
            car_date_range,
        } = req;
        let description = match description {
            Some(s) => s,
            None => {
                return Err(InsertError::NotNullViolation(RequiredColumn::Description));
            },
        };
        let part_type = match part_type {
            Some(s) => s,
            None => {
                return Err(InsertError::NotNullViolation(RequiredColumn::PartType));
            },
        };
        let painting = match painting {
            Some(s) => s,
            None => {
                return Err(InsertError::NotNullViolation(RequiredColumn::Painting));
            },
        };
        let hash = match hash {
            Some(s) => s,
            None => {
                return Err(InsertError::NotNullViolation(RequiredColumn::Hash));
            },
        };
        let car_date_range = match car_date_range {
            Some(s) => s,
            None => {
                return Err(InsertError::NotNullViolation(RequiredColumn::CarDateRange));
            },
        };
        if self.contains_hash(&hash) {
            return Err(InsertError::UniqueViolation);
        }
        let id: u64 = (self.rows.len() as u64) + 1;
        let created_at = match created_at {
            Some(s) => s,
            None => format_timestamp(now_ms),
        };
        let updated_at = match updated_at {
            Some(s) => s,
            None => format_timestamp(now_ms),
        };
        let is_validated = match is_validated {
            Some(b) => b,
            None => false,
        };
        let row = ExhaustRow {
            id,
            barcode,
            label,
            description,
            part_type,
            painting,
            qrcode,
            is_validated,
            created_at,
            updated_at,
            hash,
            car_brand,
            car_model,
            car_type,
            car_engine,
            car_date_range,
        };
        self.rows.push(row);
        proof {
            assert(final(self).rows@.drop_last() =~= old(self).rows@);
        }
        Ok(id)
    }
}

/// Law: once an insert of `req1` has stored its row, any request whose `hash`
/// equals `req1`'s collides, while a request with a fresh `hash` does not —
/// so a repeated `hash` is rejected and a distinct one is accepted, whatever
/// the other columns hold.
pub proof fn lemma_insert_hash_uniqueness(
    t0: ExhaustTable,
    t1: ExhaustTable,
    req1: InsertRequest,
    req2: InsertRequest,
    now_ms: u64,
    id: u64,
)
    requires
        t1.rows@.len() == t0.rows@.len() + 1,
        t1.rows@.drop_last() == t0.rows@,
        inserted_row_ok(t1.rows@.last(), req1, now_ms, id),
        req2.hash is Some,
    ensures
        (req2.hash->0)@ == (req1.hash->0)@ ==> hash_conflict(t1.rows@, (req2.hash->0)@),
        (req2.hash->0)@ != (req1.hash->0)@ && !hash_conflict(t0.rows@, (req2.hash->0)@)
            ==> !hash_conflict(t1.rows@, (req2.hash->0)@),
{
    let n = t1.rows@.len() - 1;
    assert(t1.rows@[n] == t1.rows@.last());
    if (req2.hash->0)@ != (req1.hash->0)@ && !hash_conflict(t0.rows@, (req2.hash->0)@) {
        assert forall|i: int| 0 <= i < t1.rows@.len() implies t1.rows@[i].hash@ != (
        req2.hash->0)@ by {
            if i < n {
                assert(t1.rows@.drop_last()[i] == t1.rows@[i]);
                assert(!(t0.rows@[i].hash@ == (req2.hash->0)@));
            }
        }
    }
}

/// Law: when an insert statement sets neither timestamp column, the stored row
/// carries the current time in both, and the two are equal.
pub proof fn lemma_default_timestamps(row: ExhaustRow, req: InsertRequest, now_ms: u64, id: u64)
    requires
        inserted_row_ok(row, req, now_ms, id),
        req.created_at is None,
        req.updated_at is None,
    ensures
        row.created_at@ == spec_timestamp(now_ms as int),
        row.updated_at@ == row.created_at@,
{
}

} // verus!
