use vstd::prelude::*;
use crate::date::{spec_normalize, normalize_date};
use crate::error::{ApiError, ErrorKind, kind_of, message_of};
use crate::models::{AnimalCare, AnimalCareV, CreateAnimalCare, CreateAnimalCareV, clone_animal_care};
use crate::search::{find_first, lemma_find_first, lemma_find_first_is, lemma_find_first_none};
use crate::text::{id_message, make_id_message};

verus! {

/// The animal-care relation table: rows in strictly increasing id order,
/// so ids are unique and listing needs no sort.
pub struct AnimalCareTable {
    rows: Vec<AnimalCare>,
}

impl View for AnimalCareTable {
    type V = Seq<AnimalCareV>;

    closed spec fn view(&self) -> Seq<AnimalCareV> {
        Seq::new(self.rows@.len(), |i: int| self.rows@[i]@)
    }
}

/// The table invariant: ids strictly increase with the row index.
pub open spec fn animal_care_table_wf(rows: Seq<AnimalCareV>) -> bool {
    forall|i: int, j: int|
        0 <= i < j < rows.len() ==> rows[i].animal_care_id < rows[j].animal_care_id
}

/// Matches the row holding `id`.
pub open spec fn animal_care_id_pred(id: int) -> spec_fn(AnimalCareV) -> bool {
    |r: AnimalCareV| r.animal_care_id == id
}

/// Matches a row that relates the animal holding `animal_id`.
pub open spec fn animal_care_fk_pred(animal_id: int) -> spec_fn(AnimalCareV) -> bool {
    |r: AnimalCareV| r.fk_animal_animal_id == animal_id
}

/// Matches a row whose id exceeds `id`; locates the sorted insert position.
pub open spec fn animal_care_gt_pred(id: int) -> spec_fn(AnimalCareV) -> bool {
    |r: AnimalCareV| r.animal_care_id > id
}

/// The relation stored under `id`, if any.
pub open spec fn animal_care_lookup(rows: Seq<AnimalCareV>, id: int) -> Option<AnimalCareV> {
    match find_first(rows, animal_care_id_pred(id)) {
        None => None,
        Some(i) => Some(rows[i]),
    }
}

/// The first relation of the animal holding `animal_id`, if any: even when
/// the animal has several care relations, only the earliest row is chosen.
pub open spec fn animal_care_by_animal(rows: Seq<AnimalCareV>, animal_id: int) -> Option<
    AnimalCareV,
> {
    match find_first(rows, animal_care_fk_pred(animal_id)) {
        None => None,
        Some(i) => Some(rows[i]),
    }
}

/// The next id for the table: one past the largest id present, or 1 for an
/// empty table.
pub open spec fn animal_care_next_id(rows: Seq<AnimalCareV>) -> int {
    if rows.len() == 0 {
        1
    } else {
        rows.last().animal_care_id + 1
    }
}

/// The row a create call stores: the allocated id, the normalized date,
/// and the two foreign keys, which are not validated here.
pub open spec fn animal_care_created_row(rows: Seq<AnimalCareV>, p: CreateAnimalCareV)
    -> AnimalCareV {
    AnimalCareV {
        animal_care_id: animal_care_next_id(rows),
        date_of_care: spec_normalize(p.date_of_care),
        fk_cares_cares_id: p.fk_cares_cares_id,
        fk_animal_animal_id: p.fk_animal_animal_id,
    }
}

/// What a create call does: fail when the allocated id leaves the id
/// range, and otherwise append the new row; no field is validated.
pub open spec fn animal_care_create_spec(rows: Seq<AnimalCareV>, p: CreateAnimalCareV) -> (Seq<
    AnimalCareV,
>, Result<AnimalCareV, ErrorKind>) {
    if animal_care_next_id(rows) > i32::MAX as int {
        (rows, Err(ErrorKind::Query))
    } else {
        (rows.push(animal_care_created_row(rows, p)), Ok(animal_care_created_row(rows, p)))
    }
}

/// What the storage layer does on an insert: refuse a duplicate id, else
/// place the row at its sorted position.
pub open spec fn animal_care_insert_spec(rows: Seq<AnimalCareV>, row: AnimalCareV) -> Result<
    Seq<AnimalCareV>,
    ErrorKind,
> {
    if exists|i: int| 0 <= i < rows.len() && rows[i].animal_care_id == row.animal_care_id {
        Err(ErrorKind::Query)
    } else {
        let k = match find_first(rows, animal_care_gt_pred(row.animal_care_id)) {
            Some(i) => i,
            None => rows.len() as int,
        };
        Ok(rows.insert(k, row))
    }
}

impl AnimalCareTable {
    /// An empty table.
    pub fn new() -> (t: AnimalCareTable)
        ensures
            t@ == Seq::<AnimalCareV>::empty(),
            animal_care_table_wf(t@),
    {
        let t = AnimalCareTable { rows: Vec::new() };
        proof {
            assert(t@ =~= Seq::<AnimalCareV>::empty());
        }
        t
    }

    /// How many rows the table holds.
    pub fn len(&self) -> (n: usize)
        ensures
            n == self@.len(),
    {
        self.rows.len()
    }

    /// All relations, ascending by id.
    pub fn list(&self) -> (r: Vec<AnimalCare>)
        requires
            animal_care_table_wf(self@),
        ensures
            r.deep_view() == self@,
            forall|i: int, j: int|
                0 <= i <= j < r.len() ==> r[i]@.animal_care_id <= r[j]@.animal_care_id,
    {
        let n = self.rows.len();
        let mut r: Vec<AnimalCare> = Vec::new();
        let mut k: usize = 0;
        while k < n
            invariant
                n == self@.len(),
                k <= n,
                r.deep_view() == self@.take(k as int),
            decreases n - k,
        {
            let ghost prev = r.deep_view();
            r.push(clone_animal_care(&self.rows[k]));
            proof {
                assert(r.deep_view() =~= prev.push(self@[k as int]));
                assert(self@.take(k + 1) =~= self@.take(k as int).push(self@[k as int]));
            }
            k += 1;
        }
        proof {
            assert(self@.take(n as int) =~= self@);
            assert forall|i: int, j: int|
                0 <= i <= j < r.len() implies r[i]@.animal_care_id <= r[j]@.animal_care_id by {
                assert(r[i]@ == self@[i]);
                assert(r[j]@ == self@[j]);
            }
        }
        r
    }

    /// The relation stored under `id`, or a not-found error.
    pub fn get_by_id(&self, id: i32) -> (r: Result<AnimalCare, ApiError>)
        ensures
            match r {
                Ok(c) => animal_care_lookup(self@, id as int) == Some(c@),
                Err(e) => {
                    &&& animal_care_lookup(self@, id as int) is None
                    &&& kind_of(e) == ErrorKind::NotFound
                    &&& message_of(e) == id_message(
                        "Animal care with id "@,
                        id as int,
                        " not found"@,
                    )
                },
            },
    {
        let n = self.rows.len();
        let mut k: usize = 0;
        while k < n
            invariant
                n == self@.len(),
                k <= n,
                forall|j: int| 0 <= j < k ==> self@[j].animal_care_id != id as int,
            decreases n - k,
        {
            let row = &self.rows[k];
            if row.animal_care_id == id {
                proof {
                    lemma_find_first_is(self@, animal_care_id_pred(id as int), k as int);
                }
                return Ok(clone_animal_care(row));
            }
            k += 1;
        }
        proof {
            lemma_find_first_none(self@, animal_care_id_pred(id as int));
        }
        Err(ApiError::NotFound(make_id_message("Animal care with id ", id, " not found")))
    }

    /// The first relation of the animal holding `animal_id`, or a
    /// not-found error; later relations of the same animal are not
    /// returned.
    pub fn get_by_animal_id(&self, animal_id: i32) -> (r: Result<AnimalCare, ApiError>)
        ensures
            match r {
                Ok(c) => animal_care_by_animal(self@, animal_id as int) == Some(c@),
                Err(e) => {
                    &&& animal_care_by_animal(self@, animal_id as int) is None
                    &&& kind_of(e) == ErrorKind::NotFound
                    &&& message_of(e) == id_message(
                        "Animal care with id "@,
                        animal_id as int,
                        " not found"@,
                    )
                },
            },
    {
        let n = self.rows.len();
        let mut k: usize = 0;
        while k < n
            invariant
                n == self@.len(),
                k <= n,
                forall|j: int| 0 <= j < k ==> self@[j].fk_animal_animal_id != animal_id as int,
            decreases n - k,
        {
            let row = &self.rows[k];
            if row.fk_animal_animal_id == animal_id {
                proof {
                    lemma_find_first_is(self@, animal_care_fk_pred(animal_id as int), k as int);
                }
                return Ok(clone_animal_care(row));
            }
            k += 1;
        }
        proof {
            lemma_find_first_none(self@, animal_care_fk_pred(animal_id as int));
        }
        Err(ApiError::NotFound(make_id_message("Animal care with id ", animal_id, " not found")))
    }

    /// Normalizes the date, allocates the next id, stores the new row, and
    /// returns the constructed relation without re-reading it; the foreign
    /// keys are stored as supplied.
    pub fn create(&mut self, p: &CreateAnimalCare) -> (r: Result<AnimalCare, ApiError>)
        requires
            animal_care_table_wf(old(self)@),
        ensures
            animal_care_table_wf(final(self)@),
            final(self)@ == animal_care_create_spec(old(self)@, p@).0,
            match r {
                Ok(c) => animal_care_create_spec(old(self)@, p@).1 == Ok::<
                    AnimalCareV,
                    ErrorKind,
                >(c@),
                Err(e) => {
                    &&& animal_care_create_spec(old(self)@, p@).1 == Err::<
                        AnimalCareV,
                        ErrorKind,
                    >(kind_of(e))
                    &&& message_of(e) == "ID query error: next id out of range"@
                },
            },
    {
        let n = self.rows.len();
        let next_i64: i64 = if n == 0 {
            1
        } else {
            (self.rows[n - 1].animal_care_id as i64) + 1
        };
        if next_i64 > (i32::MAX as i64) {
            return Err(ApiError::Query(String::from_str("ID query error: next id out of range")));
        }
        let id = next_i64 as i32;
        let date = normalize_date(&p.date_of_care);
        let relation = AnimalCare {
            animal_care_id: id,
            date_of_care: date,
            fk_cares_cares_id: p.fk_cares_cares_id,
            fk_animal_animal_id: p.fk_animal_animal_id,
        };
        let created = clone_animal_care(&relation);
        proof {
            assert(relation@ == animal_care_created_row(old(self)@, p@));
        }
        self.rows.push(relation);
        proof {
            assert(self@ =~= old(self)@.push(animal_care_created_row(old(self)@, p@)));
            assert forall|i: int, j: int|
                0 <= i < j < self@.len() implies self@[i].animal_care_id
                < self@[j].animal_care_id by {
                if j == self@.len() - 1 && old(self)@.len() > 0 && i < old(self)@.len() - 1 {
                    assert(old(self)@[i].animal_care_id < old(
                        self,
                    )@[old(self)@.len() - 1].animal_care_id);
                }
            }
        }
        Ok(created)
    }

    /// The storage layer's uniqueness boundary: refuses a row whose id is
    /// already present, else places it at its sorted position.
    #[verifier::loop_isolation(false)]
    pub fn insert(&mut self, row: AnimalCare) -> (r: Result<(), ApiError>)
        requires
            animal_care_table_wf(old(self)@),
        ensures
            animal_care_table_wf(final(self)@),
            match r {
                Ok(()) => animal_care_insert_spec(old(self)@, row@) == Ok::<
                    Seq<AnimalCareV>,
                    ErrorKind,
                >(final(self)@),
                Err(e) => {
                    &&& animal_care_insert_spec(old(self)@, row@) == Err::<
                        Seq<AnimalCareV>,
                        ErrorKind,
                    >(kind_of(e))
                    &&& final(self)@ == old(self)@
                    &&& message_of(e) == "Insert error: duplicate key"@
                },
            },
    {
        let n = self.rows.len();
        let mut k: usize = 0;
        while k < n && self.rows[k].animal_care_id < row.animal_care_id
            invariant
                self@ == old(self)@,
                n == self@.len(),
                k <= n,
                forall|j: int| 0 <= j < k ==> self@[j].animal_care_id < row@.animal_care_id,
            decreases n - k,
        {
            k += 1;
        }
        if k < n && self.rows[k].animal_care_id == row.animal_care_id {
            return Err(ApiError::Query(String::from_str("Insert error: duplicate key")));
        }
        proof {
            assert forall|i: int| 0 <= i < self@.len() implies self@[i].animal_care_id
                != row@.animal_care_id by {
                if i >= k && (k as int) < self@.len() {
                    if i > k {
                        assert(self@[k as int].animal_care_id < self@[i].animal_care_id);
                    }
                }
            }
            if (k as int) < self@.len() {
                lemma_find_first_is(self@, animal_care_gt_pred(row@.animal_care_id), k as int);
            } else {
                lemma_find_first_none(self@, animal_care_gt_pred(row@.animal_care_id));
            }
        }
        let ghost prev = self@;
        self.rows.insert(k, row);
        proof {
            assert(self@ =~= prev.insert(k as int, row@));
            assert forall|i: int, j: int|
                0 <= i < j < self@.len() implies self@[i].animal_care_id
                < self@[j].animal_care_id by {
                if j < k {
                    assert(self@[i] == prev[i] && self@[j] == prev[j]);
                } else if i > k {
                    assert(self@[i] == prev[i - 1] && self@[j] == prev[j - 1]);
                } else if i < k && j == k {
                    assert(self@[i] == prev[i]);
                } else if i == k && j > k {
                    assert(self@[j] == prev[j - 1]);
                } else if i < k && j > k {
                    assert(self@[i] == prev[i] && self@[j] == prev[j - 1]);
                    assert(prev[i].animal_care_id < row@.animal_care_id);
                    assert(prev[j - 1].animal_care_id > row@.animal_care_id);
                }
            }
        }
        Ok(())
    }
}

/// In a well-formed table no two rows share an id.
pub proof fn lemma_animal_care_ids_unique(rows: Seq<AnimalCareV>)
    requires
        animal_care_table_wf(rows),
    ensures
        forall|i: int, j: int|
            0 <= i < rows.len() && 0 <= j < rows.len() && i != j
                ==> #[trigger] rows[i].animal_care_id != #[trigger] rows[j].animal_care_id,
{
}

/// For every payload a create call accepts, reading the allocated id back
/// yields exactly the created relation.
pub proof fn lemma_animal_care_create_then_get(rows: Seq<AnimalCareV>, p: CreateAnimalCareV)
    requires
        animal_care_table_wf(rows),
        animal_care_create_spec(rows, p).1 is Ok,
    ensures
        animal_care_lookup(
            animal_care_create_spec(rows, p).0,
            animal_care_create_spec(rows, p).1.unwrap().animal_care_id,
        ) == Some(animal_care_create_spec(rows, p).1.unwrap()),
{
    let row = animal_care_created_row(rows, p);
    let after = animal_care_create_spec(rows, p).0;
    let id = row.animal_care_id;
    assert(after == rows.push(row));
    assert forall|j: int| 0 <= j < rows.len() implies !(animal_care_id_pred(id)(after[j])) by {
        assert(after[j] == rows[j]);
        if rows.len() > 0 && j < rows.len() - 1 {
            assert(rows[j].animal_care_id < rows[rows.len() - 1].animal_care_id);
        }
    }
    assert(after[rows.len() as int] == row);
    lemma_find_first_is(after, animal_care_id_pred(id), rows.len() as int);
}

/// Even when an animal has two or more care relations, the by-animal read
/// returns exactly one: the earliest matching row.
pub proof fn lemma_animal_care_by_animal_first(rows: Seq<AnimalCareV>, animal_id: int)
    requires
        exists|i: int|
            0 <= i < rows.len() && #[trigger] rows[i].fk_animal_animal_id == animal_id,
    ensures
        ({
            let r = animal_care_by_animal(rows, animal_id);
            &&& r is Some
            &&& exists|k: int|
                {
                    &&& 0 <= k < rows.len()
                    &&& r == Some(#[trigger] rows[k])
                    &&& rows[k].fk_animal_animal_id == animal_id
                    &&& forall|m: int| 0 <= m < k ==> rows[m].fk_animal_animal_id != animal_id
                }
        }),
{
    lemma_find_first(rows, animal_care_fk_pred(animal_id));
    let w = choose|i: int|
        0 <= i < rows.len() && #[trigger] rows[i].fk_animal_animal_id == animal_id;
    match find_first(rows, animal_care_fk_pred(animal_id)) {
        None => {
            assert(!(animal_care_fk_pred(animal_id)(rows[w])));
        }
        Some(k) => {
            assert(0 <= k < rows.len() && animal_care_by_animal(rows, animal_id) == Some(
                rows[k],
            ) && rows[k].fk_animal_animal_id == animal_id && forall|m: int|
                0 <= m < k ==> rows[m].fk_animal_animal_id != animal_id);
        }
    }
}

/// The storage layer refuses an insert whose id is already present, so of
/// two racing creates that allocated the same id at most one row lands.
pub proof fn lemma_animal_care_insert_duplicate_refused(rows: Seq<AnimalCareV>, row: AnimalCareV)
    requires
        exists|i: int|
            0 <= i < rows.len() && #[trigger] rows[i].animal_care_id == row.animal_care_id,
    ensures
        animal_care_insert_spec(rows, row) == Err::<Seq<AnimalCareV>, ErrorKind>(ErrorKind::Query),
{
}

} // verus!
