use vstd::prelude::*;
use crate::error::{ApiError, ErrorKind, kind_of, message_of};
use crate::models::{Care, CareV, CreateCare, CreateCareV, UpdateCrare, UpdateCrareV, clone_care, clone_opt_string};
use crate::search::{find_first, lemma_find_first, lemma_find_first_is, lemma_find_first_none};
use crate::text::{blank, is_blank, id_message, make_id_message};

verus! {

/// The care table: rows in strictly increasing id order, so ids are unique
/// and listing needs no sort.
pub struct CareTable {
    rows: Vec<Care>,
}

impl View for CareTable {
    type V = Seq<CareV>;

    closed spec fn view(&self) -> Seq<CareV> {
        Seq::new(self.rows@.len(), |i: int| self.rows@[i]@)
    }
}

/// The table invariant: ids strictly increase with the row index.
pub open spec fn care_table_wf(rows: Seq<CareV>) -> bool {
    forall|i: int, j: int| 0 <= i < j < rows.len() ==> rows[i].cares_id < rows[j].cares_id
}

/// Matches the row holding `id`.
pub open spec fn care_id_pred(id: int) -> spec_fn(CareV) -> bool {
    |r: CareV| r.cares_id == id
}

/// Matches a row whose id exceeds `id`; locates the sorted insert position.
pub open spec fn care_gt_pred(id: int) -> spec_fn(CareV) -> bool {
    |r: CareV| r.cares_id > id
}

/// The index of the row holding `id`, if any.
pub open spec fn care_find(rows: Seq<CareV>, id: int) -> Option<int> {
    find_first(rows, care_id_pred(id))
}

/// The care stored under `id`, if any.
pub open spec fn care_lookup(rows: Seq<CareV>, id: int) -> Option<CareV> {
    match care_find(rows, id) {
        None => None,
        Some(i) => Some(rows[i]),
    }
}

/// The next id for the table: one past the largest id present, or 1 for an
/// empty table.
pub open spec fn care_next_id(rows: Seq<CareV>) -> int {
    if rows.len() == 0 {
        1
    } else {
        rows.last().cares_id + 1
    }
}

/// The row a create call stores: the allocated id and the payload's fields.
pub open spec fn care_created_row(rows: Seq<CareV>, p: CreateCareV) -> CareV {
    CareV {
        cares_id: care_next_id(rows),
        type_of_care: p.type_of_care,
        frequency: p.frequency,
        description: p.description,
    }
}

/// What a create call does: reject a blank required field, fail when the
/// allocated id leaves the id range, and otherwise append the new row.
pub open spec fn care_create_spec(rows: Seq<CareV>, p: CreateCareV) -> (Seq<CareV>, Result<
    CareV,
    ErrorKind,
>) {
    if blank(p.type_of_care) || blank(p.frequency) {
        (rows, Err(ErrorKind::Validation))
    } else if care_next_id(rows) > i32::MAX as int {
        (rows, Err(ErrorKind::Query))
    } else {
        (rows.push(care_created_row(rows, p)), Ok(care_created_row(rows, p)))
    }
}

/// The message a failing create call carries.
pub open spec fn care_create_msg(p: CreateCareV) -> Seq<char> {
    if blank(p.type_of_care) {
        "Type of care is required and cannot be empty"@
    } else if blank(p.frequency) {
        "Frequency is required and cannot be empty"@
    } else {
        "ID query error: next id out of range"@
    }
}

/// The column-level merge an update call stores: the stored id, the
/// payload's required fields, which are always supplied, and the payload's
/// description when supplied, the stored one otherwise.
pub open spec fn care_merged(old_row: CareV, p: UpdateCrareV) -> CareV {
    CareV {
        cares_id: old_row.cares_id,
        type_of_care: p.type_of_care,
        frequency: p.frequency,
        description: match p.description {
            Some(v) => Some(v),
            None => old_row.description,
        },
    }
}

/// What an update call does: reject a blank required field, report a
/// missing target, and otherwise merge column by column and return the row
/// as stored; an absent description keeps its stored value.
pub open spec fn care_update_spec(rows: Seq<CareV>, id: int, p: UpdateCrareV) -> (Seq<
    CareV,
>, Result<CareV, ErrorKind>) {
    if blank(p.type_of_care) || blank(p.frequency) {
        (rows, Err(ErrorKind::Validation))
    } else {
        match care_find(rows, id) {
            None => (rows, Err(ErrorKind::NotFound)),
            Some(i) => (rows.update(i, care_merged(rows[i], p)), Ok(care_merged(rows[i], p))),
        }
    }
}

/// The message a failing update call carries.
pub open spec fn care_update_msg(id: int, p: UpdateCrareV) -> Seq<char> {
    if blank(p.type_of_care) {
        "Type of care cannot be empty"@
    } else if blank(p.frequency) {
        "Frequency cannot be empty"@
    } else {
        id_message("Care with id "@, id, " not found"@)
    }
}

/// What a delete call does: remove the row holding `id`, or report it
/// missing.
pub open spec fn care_delete_spec(rows: Seq<CareV>, id: int) -> (Seq<CareV>, Result<
    (),
    ErrorKind,
>) {
    match care_find(rows, id) {
        None => (rows, Err(ErrorKind::NotFound)),
        Some(i) => (rows.remove(i), Ok(())),
    }
}

/// What the storage layer does on an insert: refuse a duplicate id, else
/// place the row at its sorted position.
pub open spec fn care_insert_spec(rows: Seq<CareV>, row: CareV) -> Result<Seq<CareV>, ErrorKind> {
    if exists|i: int| 0 <= i < rows.len() && rows[i].cares_id == row.cares_id {
        Err(ErrorKind::Query)
    } else {
        let k = match find_first(rows, care_gt_pred(row.cares_id)) {
            Some(i) => i,
            None => rows.len() as int,
        };
        Ok(rows.insert(k, row))
    }
}

impl CareTable {
    /// An empty table.
    pub fn new() -> (t: CareTable)
        ensures
            t@ == Seq::<CareV>::empty(),
            care_table_wf(t@),
    {
        let t = CareTable { rows: Vec::new() };
        proof {
            assert(t@ =~= Seq::<CareV>::empty());
        }
        t
    }

    /// How many rows the table holds.
    pub fn len(&self) -> (n: usize)
        ensures
            n == self@.len(),
    {
        self.rows.len()
    }

    /// All cares, ascending by id.
    pub fn list(&self) -> (r: Vec<Care>)
        requires
            care_table_wf(self@),
        ensures
            r.deep_view() == self@,
            forall|i: int, j: int| 0 <= i <= j < r.len() ==> r[i]@.cares_id <= r[j]@.cares_id,
    {
        let n = self.rows.len();
        let mut r: Vec<Care> = Vec::new();
        let mut k: usize = 0;
        while k < n
            invariant
                n == self@.len(),
                k <= n,
                r.deep_view() == self@.take(k as int),
            decreases n - k,
        {
            let ghost prev = r.deep_view();
            r.push(clone_care(&self.rows[k]));
            proof {
                assert(r.deep_view() =~= prev.push(self@[k as int]));
                assert(self@.take(k + 1) =~= self@.take(k as int).push(self@[k as int]));
            }
            k += 1;
        }
        proof {
            assert(self@.take(n as int) =~= self@);
            assert forall|i: int, j: int|
                0 <= i <= j < r.len() implies r[i]@.cares_id <= r[j]@.cares_id by {
                assert(r[i]@ == self@[i]);
                assert(r[j]@ == self@[j]);
            }
        }
        r
    }

    /// The care stored under `id`, or a not-found error.
    pub fn get_by_id(&self, id: i32) -> (r: Result<Care, ApiError>)
        ensures
            match r {
                Ok(c) => care_lookup(self@, id as int) == Some(c@),
                Err(e) => {
                    &&& care_lookup(self@, id as int) is None
                    &&& kind_of(e) == ErrorKind::NotFound
                    &&& message_of(e) == id_message(
                        "Animal care with id "@,
                        id as int,
                        " not found"@,
                    )
                },
            },
    {
        let n = self.rows.len();
        let mut k: usize = 0;
        while k < n
            invariant
                n == self@.len(),
                k <= n,
                forall|j: int| 0 <= j < k ==> self@[j].cares_id != id as int,
            decreases n - k,
        {
            let row = &self.rows[k];
            if row.cares_id == id {
                proof {
                    lemma_find_first_is(self@, care_id_pred(id as int), k as int);
                }
                return Ok(clone_care(row));
            }
            k += 1;
        }
        proof {
            lemma_find_first_none(self@, care_id_pred(id as int));
        }
        Err(ApiError::NotFound(make_id_message("Animal care with id ", id, " not found")))
    }

    /// Validates the payload, allocates the next id, stores the new row,
    /// and returns the constructed entity without re-reading it.
    pub fn create(&mut self, p: &CreateCare) -> (r: Result<Care, ApiError>)
        requires
            care_table_wf(old(self)@),
        ensures
            care_table_wf(final(self)@),
            final(self)@ == care_create_spec(old(self)@, p@).0,
            match r {
                Ok(c) => care_create_spec(old(self)@, p@).1 == Ok::<CareV, ErrorKind>(c@),
                Err(e) => {
                    &&& care_create_spec(old(self)@, p@).1 == Err::<CareV, ErrorKind>(kind_of(e))
                    &&& message_of(e) == care_create_msg(p@)
                },
            },
    {
        if is_blank(p.type_of_care.as_str()) {
            return Err(
                ApiError::Validation(
                    String::from_str("Type of care is required and cannot be empty"),
                ),
            );
        }
        if is_blank(p.frequency.as_str()) {
            return Err(
                ApiError::Validation(
                    String::from_str("Frequency is required and cannot be empty"),
                ),
            );
        }
        let n = self.rows.len();
        let next_i64: i64 = if n == 0 {
            1
        } else {
            (self.rows[n - 1].cares_id as i64) + 1
        };
        if next_i64 > (i32::MAX as i64) {
            return Err(ApiError::Query(String::from_str("ID query error: next id out of range")));
        }
        let id = next_i64 as i32;
        let care = Care {
            cares_id: id,
            type_of_care: p.type_of_care.clone(),
            frequency: p.frequency.clone(),
            description: clone_opt_string(&p.description),
        };
        let created = clone_care(&care);
        proof {
            assert(care@ == care_created_row(old(self)@, p@));
        }
        self.rows.push(care);
        proof {
            assert(self@ =~= old(self)@.push(care_created_row(old(self)@, p@)));
            assert forall|i: int, j: int|
                0 <= i < j < self@.len() implies self@[i].cares_id < self@[j].cares_id by {
                if j == self@.len() - 1 && old(self)@.len() > 0 && i < old(self)@.len() - 1 {
                    assert(old(self)@[i].cares_id < old(self)@[old(self)@.len() - 1].cares_id);
                }
            }
        }
        Ok(created)
    }

    /// Validates the payload, merges it into the stored row column by
    /// column, and returns the row as stored; reports a missing target.
    #[verifier::loop_isolation(false)]
    pub fn update(&mut self, id: i32, p: &UpdateCrare) -> (r: Result<Care, ApiError>)
        requires
            care_table_wf(old(self)@),
        ensures
            care_table_wf(final(self)@),
            final(self)@ == care_update_spec(old(self)@, id as int, p@).0,
            match r {
                Ok(c) => care_update_spec(old(self)@, id as int, p@).1 == Ok::<
                    CareV,
                    ErrorKind,
                >(c@),
                Err(e) => {
                    &&& care_update_spec(old(self)@, id as int, p@).1 == Err::<
                        CareV,
                        ErrorKind,
                    >(kind_of(e))
                    &&& message_of(e) == care_update_msg(id as int, p@)
                },
            },
    {
        if is_blank(p.type_of_care.as_str()) {
            return Err(ApiError::Validation(String::from_str("Type of care cannot be empty")));
        }
        if is_blank(p.frequency.as_str()) {
            return Err(ApiError::Validation(String::from_str("Frequency cannot be empty")));
        }
        let n = self.rows.len();
        let mut k: usize = 0;
        while k < n
            invariant
                self@ == old(self)@,
                n == self@.len(),
                k <= n,
                forall|j: int| 0 <= j < k ==> self@[j].cares_id != id as int,
            decreases n - k,
        {
            let hit = self.rows[k].cares_id == id;
            if hit {
                proof {
                    lemma_find_first_is(self@, care_id_pred(id as int), k as int);
                }
                let stored = &self.rows[k];
                let merged = Care {
                    cares_id: stored.cares_id,
                    type_of_care: p.type_of_care.clone(),
                    frequency: p.frequency.clone(),
                    description: match &p.description {
                        Some(v) => Some(v.clone()),
                        None => clone_opt_string(&stored.description),
                    },
                };
                proof {
                    assert(merged@ == care_merged(old(self)@[k as int], p@));
                }
                let result = clone_care(&merged);
                self.rows[k] = merged;
                proof {
                    assert(self@ =~= care_update_spec(old(self)@, id as int, p@).0);
                    assert(self@[k as int].cares_id == old(self)@[k as int].cares_id);
                    assert(forall|x: int|
                        0 <= x < self@.len() && x != k ==> self@[x] == old(self)@[x]);
                    assert forall|i: int, j: int|
                        0 <= i < j < self@.len() implies self@[i].cares_id
                        < self@[j].cares_id by {
                        assert(old(self)@[i].cares_id < old(self)@[j].cares_id);
                    }
                }
                return Ok(result);
            }
            k += 1;
        }
        proof {
            lemma_find_first_none(self@, care_id_pred(id as int));
        }
        Err(ApiError::NotFound(make_id_message("Care with id ", id, " not found")))
    }

    /// Removes the row holding `id`; a missing target is reported as not
    /// found.
    #[verifier::loop_isolation(false)]
    pub fn delete(&mut self, id: i32) -> (r: Result<(), ApiError>)
        requires
            care_table_wf(old(self)@),
        ensures
            care_table_wf(final(self)@),
            final(self)@ == care_delete_spec(old(self)@, id as int).0,
            match r {
                Ok(()) => care_delete_spec(old(self)@, id as int).1 == Ok::<(), ErrorKind>(()),
                Err(e) => {
                    &&& care_delete_spec(old(self)@, id as int).1 == Err::<(), ErrorKind>(
                        kind_of(e),
                    )
                    &&& message_of(e) == id_message("Care with id "@, id as int, " not found"@)
                },
            },
    {
        let n = self.rows.len();
        let mut k: usize = 0;
        while k < n
            invariant
                self@ == old(self)@,
                n == self@.len(),
                k <= n,
                forall|j: int| 0 <= j < k ==> self@[j].cares_id != id as int,
            decreases n - k,
        {
            let hit = self.rows[k].cares_id == id;
            if hit {
                proof {
                    lemma_find_first_is(self@, care_id_pred(id as int), k as int);
                }
                self.rows.remove(k);
                proof {
                    assert(self@ =~= care_delete_spec(old(self)@, id as int).0);
                    assert forall|i: int, j: int|
                        0 <= i < j < self@.len() implies self@[i].cares_id
                        < self@[j].cares_id by {
                        let oi: int = if i < k { i } else { i + 1 };
                        let oj: int = if j < k { j } else { j + 1 };
                        assert(self@[i] == old(self)@[oi] && self@[j] == old(self)@[oj]);
                        assert(old(self)@[oi].cares_id < old(self)@[oj].cares_id);
                    }
                }
                return Ok(());
            }
            k += 1;
        }
        proof {
            lemma_find_first_none(self@, care_id_pred(id as int));
        }
        Err(ApiError::NotFound(make_id_message("Care with id ", id, " not found")))
    }

    /// The storage layer's uniqueness boundary: refuses a row whose id is
    /// already present, else places it at its sorted position.
    #[verifier::loop_isolation(false)]
    pub fn insert(&mut self, row: Care) -> (r: Result<(), ApiError>)
        requires
            care_table_wf(old(self)@),
        ensures
            care_table_wf(final(self)@),
            match r {
                Ok(()) => care_insert_spec(old(self)@, row@) == Ok::<Seq<CareV>, ErrorKind>(
                    final(self)@,
                ),
                Err(e) => {
                    &&& care_insert_spec(old(self)@, row@) == Err::<Seq<CareV>, ErrorKind>(
                        kind_of(e),
                    )
                    &&& final(self)@ == old(self)@
                    &&& message_of(e) == "Insert error: duplicate key"@
                },
            },
    {
        let n = self.rows.len();
        let mut k: usize = 0;
        while k < n && self.rows[k].cares_id < row.cares_id
            invariant
                self@ == old(self)@,
                n == self@.len(),
                k <= n,
                forall|j: int| 0 <= j < k ==> self@[j].cares_id < row@.cares_id,
            decreases n - k,
        {
            k += 1;
        }
        if k < n && self.rows[k].cares_id == row.cares_id {
            return Err(ApiError::Query(String::from_str("Insert error: duplicate key")));
        }
        proof {
            assert forall|i: int| 0 <= i < self@.len() implies self@[i].cares_id
                != row@.cares_id by {
                if i >= k && (k as int) < self@.len() {
                    if i > k {
                        assert(self@[k as int].cares_id < self@[i].cares_id);
                    }
                }
            }
            if (k as int) < self@.len() {
                lemma_find_first_is(self@, care_gt_pred(row@.cares_id), k as int);
            } else {
                lemma_find_first_none(self@, care_gt_pred(row@.cares_id));
            }
        }
        let ghost prev = self@;
        self.rows.insert(k, row);
        proof {
            assert(self@ =~= prev.insert(k as int, row@));
            assert forall|i: int, j: int|
                0 <= i < j < self@.len() implies self@[i].cares_id < self@[j].cares_id by {
                if j < k {
                    assert(self@[i] == prev[i] && self@[j] == prev[j]);
                } else if i > k {
                    assert(self@[i] == prev[i - 1] && self@[j] == prev[j - 1]);
                } else if i < k && j == k {
                    assert(self@[i] == prev[i]);
                } else if i == k && j > k {
                    assert(self@[j] == prev[j - 1]);
                } else if i < k && j > k {
                    assert(self@[i] == prev[i] && self@[j] == prev[j - 1]);
                    assert(prev[i].cares_id < row@.cares_id);
                    assert(prev[j - 1].cares_id > row@.cares_id);
                }
            }
        }
        Ok(())
    }
}

/// In a well-formed table no two rows share an id.
pub proof fn lemma_care_ids_unique(rows: Seq<CareV>)
    requires
        care_table_wf(rows),
    ensures
        forall|i: int, j: int|
            0 <= i < rows.len() && 0 <= j < rows.len() && i != j ==> #[trigger] rows[i].cares_id
                != #[trigger] rows[j].cares_id,
{
}

/// For every payload a create call accepts, reading the allocated id back
/// yields exactly the created entity.
pub proof fn lemma_care_create_then_get(rows: Seq<CareV>, p: CreateCareV)
    requires
        care_table_wf(rows),
        care_create_spec(rows, p).1 is Ok,
    ensures
        care_lookup(care_create_spec(rows, p).0, care_create_spec(rows, p).1.unwrap().cares_id)
            == Some(care_create_spec(rows, p).1.unwrap()),
{
    let row = care_created_row(rows, p);
    let after = care_create_spec(rows, p).0;
    let id = row.cares_id;
    assert(after == rows.push(row));
    assert forall|j: int| 0 <= j < rows.len() implies !(care_id_pred(id)(after[j])) by {
        assert(after[j] == rows[j]);
        if rows.len() > 0 && j < rows.len() - 1 {
            assert(rows[j].cares_id < rows[rows.len() - 1].cares_id);
        }
    }
    assert(after[rows.len() as int] == row);
    lemma_find_first_is(after, care_id_pred(id), rows.len() as int);
}

/// An update call with the description absent leaves the stored
/// description, the id, and every other row unchanged.
pub proof fn lemma_care_update_keeps_absent_description(rows: Seq<CareV>, id: int, p: UpdateCrareV)
    requires
        care_table_wf(rows),
        care_update_spec(rows, id, p).1 is Ok,
    ensures
        ({
            let i = care_find(rows, id).unwrap();
            let after = care_update_spec(rows, id, p).0;
            &&& after.len() == rows.len()
            &&& 0 <= i < rows.len()
            &&& after[i].cares_id == rows[i].cares_id
            &&& p.description is None ==> after[i].description == rows[i].description
            &&& forall|j: int| 0 <= j < rows.len() && j != i ==> after[j] == rows[j]
        }),
{
    lemma_find_first(rows, care_id_pred(id));
}

/// The storage layer refuses an insert whose id is already present, so of
/// two racing creates that allocated the same id at most one row lands.
pub proof fn lemma_care_insert_duplicate_refused(rows: Seq<CareV>, row: CareV)
    requires
        exists|i: int| 0 <= i < rows.len() && #[trigger] rows[i].cares_id == row.cares_id,
    ensures
        care_insert_spec(rows, row) == Err::<Seq<CareV>, ErrorKind>(ErrorKind::Query),
{
}

} // verus!
