use vstd::prelude::*;
use crate::date::{spec_normalize, normalize_date};
use crate::error::{ApiError, ErrorKind, kind_of, message_of};
use crate::models::{
    Animal, AnimalV, CreateAnimal, CreateAnimalV, UpdateAnimal, UpdateAnimalV, clone_animal,
    clone_opt_string,
};
use crate::search::{find_first, lemma_find_first, lemma_find_first_is, lemma_find_first_none};
use crate::text::{blank, is_blank, id_message, make_id_message};

verus! {

/// One stored animal row: the entity plus its soft-delete flag.
#[derive(Debug)]
pub struct AnimalRow {
    pub animal: Animal,
    pub is_active: bool,
}

/// The abstract value of an `AnimalRow`.
pub struct AnimalRowV {
    pub animal: AnimalV,
    pub is_active: bool,
}

impl View for AnimalRow {
    type V = AnimalRowV;

    open spec fn view(&self) -> AnimalRowV {
        AnimalRowV { animal: self.animal@, is_active: self.is_active }
    }
}

impl DeepView for AnimalRow {
    type V = AnimalRowV;

    open spec fn deep_view(&self) -> AnimalRowV {
        self.view()
    }
}

/// The animal table: rows in strictly increasing id order, so ids are
/// unique and listing needs no sort.
pub struct AnimalTable {
    rows: Vec<AnimalRow>,
}

impl View for AnimalTable {
    type V = Seq<AnimalRowV>;

    closed spec fn view(&self) -> Seq<AnimalRowV> {
        Seq::new(self.rows@.len(), |i: int| self.rows@[i]@)
    }
}

/// The table invariant: ids strictly increase with the row index.
pub open spec fn animal_table_wf(rows: Seq<AnimalRowV>) -> bool {
    forall|i: int, j: int|
        0 <= i < j < rows.len() ==> rows[i].animal.animal_id < rows[j].animal.animal_id
}

/// Matches the active row holding `id`.
pub open spec fn animal_active_pred(id: int) -> spec_fn(AnimalRowV) -> bool {
    |r: AnimalRowV| r.is_active && r.animal.animal_id == id
}

/// Matches any row holding `id`, active or not.
pub open spec fn animal_id_pred(id: int) -> spec_fn(AnimalRowV) -> bool {
    |r: AnimalRowV| r.animal.animal_id == id
}

/// Matches a row whose id exceeds `id`; locates the sorted insert position.
pub open spec fn animal_gt_pred(id: int) -> spec_fn(AnimalRowV) -> bool {
    |r: AnimalRowV| r.animal.animal_id > id
}

/// The index of the active row holding `id`, if any.
pub open spec fn animal_find(rows: Seq<AnimalRowV>, id: int) -> Option<int> {
    find_first(rows, animal_active_pred(id))
}

/// The active entity stored under `id`, if any.
pub open spec fn animal_lookup(rows: Seq<AnimalRowV>, id: int) -> Option<AnimalV> {
    match animal_find(rows, id) {
        None => None,
        Some(i) => Some(rows[i].animal),
    }
}

/// The entities of the active rows, in row order.
pub open spec fn animal_list_spec(rows: Seq<AnimalRowV>) -> Seq<AnimalV>
    decreases rows.len(),
{
    if rows.len() == 0 {
        Seq::empty()
    } else if rows.last().is_active {
        animal_list_spec(rows.drop_last()).push(rows.last().animal)
    } else {
        animal_list_spec(rows.drop_last())
    }
}

/// In a well-formed table, the listed entities come out in non-decreasing
/// id order, and none exceeds the last row's id.
pub proof fn lemma_animal_list_sorted(rows: Seq<AnimalRowV>)
    requires
        animal_table_wf(rows),
    ensures
        forall|i: int, j: int|
            0 <= i <= j < animal_list_spec(rows).len() ==> #[trigger] animal_list_spec(
                rows,
            )[i].animal_id <= #[trigger] animal_list_spec(rows)[j].animal_id,
        forall|x: int|
            0 <= x < animal_list_spec(rows).len() ==> rows.len() > 0 && #[trigger] animal_list_spec(
                rows,
            )[x].animal_id <= rows.last().animal.animal_id,
    decreases rows.len(),
{
    if rows.len() > 0 {
        let t = rows.drop_last();
        assert(forall|i: int| 0 <= i < t.len() ==> t[i] == rows[i]);
        lemma_animal_list_sorted(t);
        let lt = animal_list_spec(t);
        let l = animal_list_spec(rows);
        if t.len() > 0 {
            assert(t.last() == rows[rows.len() - 2]);
            assert(t.last().animal.animal_id < rows.last().animal.animal_id);
        }
        if rows.last().is_active {
            assert(l =~= lt.push(rows.last().animal));
            assert(forall|x: int| 0 <= x < lt.len() ==> l[x] == lt[x]);
        } else {
            assert(l == lt);
        }
    }
}

/// The next id for the table: one past the largest id present, or 1 for an
/// empty table.
pub open spec fn animal_next_id(rows: Seq<AnimalRowV>) -> int {
    if rows.len() == 0 {
        1
    } else {
        rows.last().animal.animal_id + 1
    }
}

/// The row a create call stores: the allocated id, the payload's fields,
/// the normalized date, and the active flag set.
pub open spec fn animal_created_row(rows: Seq<AnimalRowV>, p: CreateAnimalV) -> AnimalRowV {
    AnimalRowV {
        animal: AnimalV {
            animal_id: animal_next_id(rows),
            name: p.name,
            specie: p.specie,
            habitat: p.habitat,
            description: p.description,
            country_of_origin: p.country_of_origin,
            date_of_birth: spec_normalize(p.date_of_birth),
        },
        is_active: true,
    }
}

/// What a create call does: reject a blank required field, fail when the
/// allocated id leaves the id range, and otherwise append the new row.
pub open spec fn animal_create_spec(rows: Seq<AnimalRowV>, p: CreateAnimalV) -> (Seq<
    AnimalRowV,
>, Result<AnimalV, ErrorKind>) {
    if blank(p.name) || blank(p.specie) {
        (rows, Err(ErrorKind::Validation))
    } else if animal_next_id(rows) > i32::MAX as int {
        (rows, Err(ErrorKind::Query))
    } else {
        (rows.push(animal_created_row(rows, p)), Ok(animal_created_row(rows, p).animal))
    }
}

/// The message a failing create call carries.
pub open spec fn animal_create_msg(p: CreateAnimalV) -> Seq<char> {
    if blank(p.name) {
        "Name is required and cannot be empty"@
    } else if blank(p.specie) {
        "Specie is required and cannot be empty"@
    } else {
        "ID query error: next id out of range"@
    }
}

/// A supplied text field overrides the stored one.
pub open spec fn merge_field(newv: Option<Seq<char>>, oldv: Seq<char>) -> Seq<char> {
    match newv {
        Some(v) => v,
        None => oldv,
    }
}

/// A supplied optional text field overrides the stored one.
pub open spec fn merge_opt_field(newv: Option<Seq<char>>, oldv: Option<Seq<char>>) -> Option<
    Seq<char>,
> {
    match newv {
        Some(v) => Some(v),
        None => oldv,
    }
}

/// The column-level merge of a partial update into a stored entity: each
/// supplied field overwrites, each absent field keeps its stored value; a
/// date text that fails to parse counts as absent.
pub open spec fn animal_merged(a: AnimalV, p: UpdateAnimalV) -> AnimalV {
    AnimalV {
        animal_id: a.animal_id,
        name: merge_field(p.name, a.name),
        specie: merge_field(p.specie, a.specie),
        habitat: merge_opt_field(p.habitat, a.habitat),
        description: merge_opt_field(p.description, a.description),
        country_of_origin: merge_opt_field(p.country_of_origin, a.country_of_origin),
        date_of_birth: match spec_normalize(p.date_of_birth) {
            Some(d) => Some(d),
            None => a.date_of_birth,
        },
    }
}

/// What an update call does: reject a supplied blank required field, report
/// a missing or inactive target, and otherwise merge column by column and
/// return the row as stored.
pub open spec fn animal_update_spec(rows: Seq<AnimalRowV>, id: int, p: UpdateAnimalV) -> (Seq<
    AnimalRowV,
>, Result<AnimalV, ErrorKind>) {
    if (p.name matches Some(n) && blank(n)) || (p.specie matches Some(s) && blank(s)) {
        (rows, Err(ErrorKind::Validation))
    } else {
        match animal_find(rows, id) {
            None => (rows, Err(ErrorKind::NotFound)),
            Some(i) => {
                let m = animal_merged(rows[i].animal, p);
                (rows.update(i, AnimalRowV { animal: m, is_active: true }), Ok(m))
            }
        }
    }
}

/// The message a failing update call carries.
pub open spec fn animal_update_msg(id: int, p: UpdateAnimalV) -> Seq<char> {
    if p.name matches Some(n) && blank(n) {
        "Name cannot be empty"@
    } else if p.specie matches Some(s) && blank(s) {
        "Specie cannot be empty"@
    } else {
        id_message("Animal with id "@, id, " not found or inactive"@)
    }
}

/// What a deactivate call does: clear the active flag of the active row
/// holding `id`, or report it missing or already inactive.
pub open spec fn animal_deactivate_spec(rows: Seq<AnimalRowV>, id: int) -> (Seq<
    AnimalRowV,
>, Result<(), ErrorKind>) {
    match animal_find(rows, id) {
        None => (rows, Err(ErrorKind::NotFound)),
        Some(i) => (
            rows.update(i, AnimalRowV { animal: rows[i].animal, is_active: false }),
            Ok(()),
        ),
    }
}

/// What a delete call does: remove the row holding `id`, active or not, or
/// report it missing.
pub open spec fn animal_delete_spec(rows: Seq<AnimalRowV>, id: int) -> (Seq<AnimalRowV>, Result<
    (),
    ErrorKind,
>) {
    match find_first(rows, animal_id_pred(id)) {
        None => (rows, Err(ErrorKind::NotFound)),
        Some(i) => (rows.remove(i), Ok(())),
    }
}

/// What the storage layer does on an insert: refuse a duplicate id, else
/// place the row at its sorted position.
pub open spec fn animal_insert_spec(rows: Seq<AnimalRowV>, row: AnimalRowV) -> Result<
    Seq<AnimalRowV>,
    ErrorKind,
> {
    if exists|i: int| 0 <= i < rows.len() && rows[i].animal.animal_id == row.animal.animal_id {
        Err(ErrorKind::Query)
    } else {
        let k = match find_first(rows, animal_gt_pred(row.animal.animal_id)) {
            Some(i) => i,
            None => rows.len() as int,
        };
        Ok(rows.insert(k, row))
    }
}

impl AnimalTable {
    /// An empty table.
    pub fn new() -> (t: AnimalTable)
        ensures
            t@ == Seq::<AnimalRowV>::empty(),
            animal_table_wf(t@),
    {
        let t = AnimalTable { rows: Vec::new() };
        proof {
            assert(t@ =~= Seq::<AnimalRowV>::empty());
        }
        t
    }

    /// How many rows the table holds, active or not.
    pub fn len(&self) -> (n: usize)
        ensures
            n == self@.len(),
    {
        self.rows.len()
    }

    /// The active animals, ascending by id.
    pub fn list(&self) -> (r: Vec<Animal>)
        requires
            animal_table_wf(self@),
        ensures
            r.deep_view() == animal_list_spec(self@),
            forall|i: int, j: int|
                0 <= i <= j < r.len() ==> r[i]@.animal_id <= r[j]@.animal_id,
    {
        let n = self.rows.len();
        let mut r: Vec<Animal> = Vec::new();
        let mut k: usize = 0;
        proof {
            assert(r.deep_view() =~= animal_list_spec(self@.take(0)));
        }
        while k < n
            invariant
                n == self@.len(),
                k <= n,
                r.deep_view() == animal_list_spec(self@.take(k as int)),
            decreases n - k,
        {
            let row = &self.rows[k];
            let ghost prev = r.deep_view();
            if row.is_active {
                r.push(clone_animal(&row.animal));
            }
            proof {
                assert(self@.take(k + 1).drop_last() =~= self@.take(k as int));
                assert(self@.take(k + 1).last() == self@[k as int]);
                if self@[k as int].is_active {
                    assert(r.deep_view() =~= prev.push(self@[k as int].animal));
                }
            }
            k += 1;
        }
        proof {
            assert(self@.take(n as int) =~= self@);
            lemma_animal_list_sorted(self@);
            assert forall|i: int, j: int|
                0 <= i <= j < r.len() implies r[i]@.animal_id <= r[j]@.animal_id by {
                assert(r[i]@ == animal_list_spec(self@)[i]);
                assert(r[j]@ == animal_list_spec(self@)[j]);
            }
        }
        r
    }

    /// The active animal stored under `id`, or a not-found error.
    pub fn get_by_id(&self, id: i32) -> (r: Result<Animal, ApiError>)
        ensures
            match r {
                Ok(a) => animal_lookup(self@, id as int) == Some(a@),
                Err(e) => {
                    &&& animal_lookup(self@, id as int) is None
                    &&& kind_of(e) == ErrorKind::NotFound
                    &&& message_of(e) == id_message(
                        "Animal with id "@,
                        id as int,
                        " not found"@,
                    )
                },
            },
    {
        let n = self.rows.len();
        let mut k: usize = 0;
        while k < n
            invariant
                n == self@.len(),
                k <= n,
                forall|j: int|
                    0 <= j < k ==> !(self@[j].is_active && self@[j].animal.animal_id
                        == id as int),
            decreases n - k,
        {
            let row = &self.rows[k];
            if row.is_active && row.animal.animal_id == id {
                proof {
                    lemma_find_first_is(self@, animal_active_pred(id as int), k as int);
                }
                return Ok(clone_animal(&row.animal));
            }
            k += 1;
        }
        proof {
            lemma_find_first_none(self@, animal_active_pred(id as int));
        }
        Err(ApiError::NotFound(make_id_message("Animal with id ", id, " not found")))
    }

    /// Validates the payload, allocates the next id, stores the new row,
    /// and returns the constructed entity without re-reading it.
    pub fn create(&mut self, p: &CreateAnimal) -> (r: Result<Animal, ApiError>)
        requires
            animal_table_wf(old(self)@),
        ensures
            animal_table_wf(final(self)@),
            final(self)@ == animal_create_spec(old(self)@, p@).0,
            match r {
                Ok(a) => animal_create_spec(old(self)@, p@).1 == Ok::<AnimalV, ErrorKind>(a@),
                Err(e) => {
                    &&& animal_create_spec(old(self)@, p@).1 == Err::<AnimalV, ErrorKind>(
                        kind_of(e),
                    )
                    &&& message_of(e) == animal_create_msg(p@)
                },
            },
    {
        if is_blank(p.name.as_str()) {
            return Err(
                ApiError::Validation(String::from_str("Name is required and cannot be empty")),
            );
        }
        if is_blank(p.specie.as_str()) {
            return Err(
                ApiError::Validation(String::from_str("Specie is required and cannot be empty")),
            );
        }
        let n = self.rows.len();
        let next_i64: i64 = if n == 0 {
            1
        } else {
            (self.rows[n - 1].animal.animal_id as i64) + 1
        };
        if next_i64 > (i32::MAX as i64) {
            return Err(
                ApiError::Query(String::from_str("ID query error: next id out of range")),
            );
        }
        let id = next_i64 as i32;
        let date = normalize_date(&p.date_of_birth);
        let animal = Animal {
            animal_id: id,
            name: p.name.clone(),
            specie: p.specie.clone(),
            habitat: clone_opt_string(&p.habitat),
            description: clone_opt_string(&p.description),
            country_of_origin: clone_opt_string(&p.country_of_origin),
            date_of_birth: date,
        };
        let created = clone_animal(&animal);
        let row = AnimalRow { animal, is_active: true };
        proof {
            assert(row@ == animal_created_row(old(self)@, p@));
        }
        self.rows.push(row);
        proof {
            assert(self@ =~= old(self)@.push(animal_created_row(old(self)@, p@)));
            assert forall|i: int, j: int|
                0 <= i < j < self@.len() implies self@[i].animal.animal_id
                < self@[j].animal.animal_id by {
                if j == self@.len() - 1 && old(self)@.len() > 0 && i < j {
                    if i < old(self)@.len() - 1 {
                        assert(old(self)@[i].animal.animal_id < old(
                            self,
                        )@[old(self)@.len() - 1].animal.animal_id);
                    }
                }
            }
        }
        Ok(created)
    }

    /// Validates any supplied required field, merges the payload into the
    /// stored row column by column, and returns the row as stored; reports
    /// a missing or inactive target.
    #[verifier::loop_isolation(false)]
    pub fn update(&mut self, id: i32, p: &UpdateAnimal) -> (r: Result<Animal, ApiError>)
        requires
            animal_table_wf(old(self)@),
        ensures
            animal_table_wf(final(self)@),
            final(self)@ == animal_update_spec(old(self)@, id as int, p@).0,
            match r {
                Ok(a) => animal_update_spec(old(self)@, id as int, p@).1 == Ok::<
                    AnimalV,
                    ErrorKind,
                >(a@),
                Err(e) => {
                    &&& animal_update_spec(old(self)@, id as int, p@).1 == Err::<
                        AnimalV,
                        ErrorKind,
                    >(kind_of(e))
                    &&& message_of(e) == animal_update_msg(id as int, p@)
                },
            },
    {
        if let Some(name) = &p.name {
            if is_blank(name.as_str()) {
                return Err(ApiError::Validation(String::from_str("Name cannot be empty")));
            }
        }
        if let Some(specie) = &p.specie {
            if is_blank(specie.as_str()) {
                return Err(ApiError::Validation(String::from_str("Specie cannot be empty")));
            }
        }
        let n = self.rows.len();
        let mut k: usize = 0;
        while k < n
            invariant
                self@ == old(self)@,
                n == self@.len(),
                k <= n,
                forall|j: int|
                    0 <= j < k ==> !(self@[j].is_active && self@[j].animal.animal_id
                        == id as int),
            decreases n - k,
        {
            let hit = {
                let row = &self.rows[k];
                row.is_active && row.animal.animal_id == id
            };
            if hit {
                proof {
                    lemma_find_first_is(self@, animal_active_pred(id as int), k as int);
                }
                let stored = &self.rows[k].animal;
                let merged = Animal {
                    animal_id: stored.animal_id,
                    name: match &p.name {
                        Some(v) => v.clone(),
                        None => stored.name.clone(),
                    },
                    specie: match &p.specie {
                        Some(v) => v.clone(),
                        None => stored.specie.clone(),
                    },
                    habitat: match &p.habitat {
                        Some(v) => Some(v.clone()),
                        None => clone_opt_string(&stored.habitat),
                    },
                    description: match &p.description {
                        Some(v) => Some(v.clone()),
                        None => clone_opt_string(&stored.description),
                    },
                    country_of_origin: match &p.country_of_origin {
                        Some(v) => Some(v.clone()),
                        None => clone_opt_string(&stored.country_of_origin),
                    },
                    date_of_birth: match normalize_date(&p.date_of_birth) {
                        Some(d) => Some(d),
                        None => stored.date_of_birth,
                    },
                };
                proof {
                    assert(merged@ == animal_merged(old(self)@[k as int].animal, p@));
                }
                let result = clone_animal(&merged);
                self.rows[k] = AnimalRow { animal: merged, is_active: true };
                proof {
                    assert(self@ =~= animal_update_spec(old(self)@, id as int, p@).0);
                    assert(self@[k as int].animal.animal_id == old(
                        self,
                    )@[k as int].animal.animal_id);
                    assert(forall|x: int|
                        0 <= x < self@.len() && x != k ==> self@[x] == old(self)@[x]);
                    assert forall|i: int, j: int|
                        0 <= i < j < self@.len() implies self@[i].animal.animal_id
                        < self@[j].animal.animal_id by {
                        assert(old(self)@[i].animal.animal_id < old(self)@[j].animal.animal_id);
                    }
                }
                return Ok(result);
            }
            k += 1;
        }
        proof {
            lemma_find_first_none(self@, animal_active_pred(id as int));
        }
        Err(ApiError::NotFound(make_id_message("Animal with id ", id, " not found or inactive")))
    }

    /// Clears the active flag of the active row holding `id`; a missing or
    /// already inactive target is reported as not found, so the call is not
    /// idempotent.
    #[verifier::loop_isolation(false)]
    pub fn deactivate(&mut self, id: i32) -> (r: Result<(), ApiError>)
        requires
            animal_table_wf(old(self)@),
        ensures
            animal_table_wf(final(self)@),
            final(self)@ == animal_deactivate_spec(old(self)@, id as int).0,
            match r {
                Ok(()) => animal_deactivate_spec(old(self)@, id as int).1 == Ok::<
                    (),
                    ErrorKind,
                >(()),
                Err(e) => {
                    &&& animal_deactivate_spec(old(self)@, id as int).1 == Err::<(), ErrorKind>(
                        kind_of(e),
                    )
                    &&& message_of(e) == id_message(
                        "Animal with id "@,
                        id as int,
                        " not found or already inactive"@,
                    )
                },
            },
    {
        let n = self.rows.len();
        let mut k: usize = 0;
        while k < n
            invariant
                self@ == old(self)@,
                n == self@.len(),
                k <= n,
                forall|j: int|
                    0 <= j < k ==> !(self@[j].is_active && self@[j].animal.animal_id
                        == id as int),
            decreases n - k,
        {
            let hit = {
                let row = &self.rows[k];
                row.is_active && row.animal.animal_id == id
            };
            if hit {
                proof {
                    lemma_find_first_is(self@, animal_active_pred(id as int), k as int);
                }
                let animal = clone_animal(&self.rows[k].animal);
                self.rows[k] = AnimalRow { animal, is_active: false };
                proof {
                    assert(self@ =~= animal_deactivate_spec(old(self)@, id as int).0);
                    assert(self@[k as int].animal.animal_id == old(
                        self,
                    )@[k as int].animal.animal_id);
                    assert(forall|x: int|
                        0 <= x < self@.len() && x != k ==> self@[x] == old(self)@[x]);
                    assert forall|i: int, j: int|
                        0 <= i < j < self@.len() implies self@[i].animal.animal_id
                        < self@[j].animal.animal_id by {
                        assert(old(self)@[i].animal.animal_id < old(self)@[j].animal.animal_id);
                    }
                }
                return Ok(());
            }
            k += 1;
        }
        proof {
            lemma_find_first_none(self@, animal_active_pred(id as int));
        }
        Err(
            ApiError::NotFound(
                make_id_message("Animal with id ", id, " not found or already inactive"),
            ),
        )
    }

    /// Removes the row holding `id`, active or not; a missing target is
    /// reported as not found.
    #[verifier::loop_isolation(false)]
    pub fn delete(&mut self, id: i32) -> (r: Result<(), ApiError>)
        requires
            animal_table_wf(old(self)@),
        ensures
            animal_table_wf(final(self)@),
            final(self)@ == animal_delete_spec(old(self)@, id as int).0,
            match r {
                Ok(()) => animal_delete_spec(old(self)@, id as int).1 == Ok::<(), ErrorKind>(()),
                Err(e) => {
                    &&& animal_delete_spec(old(self)@, id as int).1 == Err::<(), ErrorKind>(
                        kind_of(e),
                    )
                    &&& message_of(e) == id_message(
                        "Animal with id "@,
                        id as int,
                        " not found"@,
                    )
                },
            },
    {
        let n = self.rows.len();
        let mut k: usize = 0;
        while k < n
            invariant
                self@ == old(self)@,
                n == self@.len(),
                k <= n,
                forall|j: int| 0 <= j < k ==> self@[j].animal.animal_id != id as int,
            decreases n - k,
        {
            let hit = self.rows[k].animal.animal_id == id;
            if hit {
                proof {
                    lemma_find_first_is(self@, animal_id_pred(id as int), k as int);
                }
                self.rows.remove(k);
                proof {
                    assert(self@ =~= animal_delete_spec(old(self)@, id as int).0);
                    assert forall|i: int, j: int|
                        0 <= i < j < self@.len() implies self@[i].animal.animal_id
                        < self@[j].animal.animal_id by {
                        let oi: int = if i < k { i } else { i + 1 };
                        let oj: int = if j < k { j } else { j + 1 };
                        assert(self@[i] == old(self)@[oi] && self@[j] == old(self)@[oj]);
                        assert(old(self)@[oi].animal.animal_id < old(self)@[oj].animal.animal_id);
                    }
                }
                return Ok(());
            }
            k += 1;
        }
        proof {
            lemma_find_first_none(self@, animal_id_pred(id as int));
        }
        Err(ApiError::NotFound(make_id_message("Animal with id ", id, " not found")))
    }

    /// The storage layer's uniqueness boundary: refuses a row whose id is
    /// already present, else places it at its sorted position.
    #[verifier::loop_isolation(false)]
    pub fn insert(&mut self, row: AnimalRow) -> (r: Result<(), ApiError>)
        requires
            animal_table_wf(old(self)@),
        ensures
            animal_table_wf(final(self)@),
            match r {
                Ok(()) => animal_insert_spec(old(self)@, row@) == Ok::<Seq<AnimalRowV>, ErrorKind>(
                    final(self)@,
                ),
                Err(e) => {
                    &&& animal_insert_spec(old(self)@, row@) == Err::<
                        Seq<AnimalRowV>,
                        ErrorKind,
                    >(kind_of(e))
                    &&& final(self)@ == old(self)@
                    &&& message_of(e) == "Insert error: duplicate key"@
                },
            },
    {
        let n = self.rows.len();
        let mut k: usize = 0;
        while k < n && self.rows[k].animal.animal_id < row.animal.animal_id
            invariant
                self@ == old(self)@,
                n == self@.len(),
                k <= n,
                forall|j: int| 0 <= j < k ==> self@[j].animal.animal_id < row@.animal.animal_id,
            decreases n - k,
        {
            k += 1;
        }
        if k < n && self.rows[k].animal.animal_id == row.animal.animal_id {
            return Err(ApiError::Query(String::from_str("Insert error: duplicate key")));
        }
        proof {
            assert forall|i: int|
                0 <= i < self@.len() implies self@[i].animal.animal_id
                != row@.animal.animal_id by {
                if i >= k && (k as int) < self@.len() {
                    if i > k {
                        assert(self@[k as int].animal.animal_id < self@[i].animal.animal_id);
                    }
                }
            }
            if (k as int) < self@.len() {
                lemma_find_first_is(self@, animal_gt_pred(row@.animal.animal_id), k as int);
            } else {
                lemma_find_first_none(self@, animal_gt_pred(row@.animal.animal_id));
            }
        }
        let ghost prev = self@;
        self.rows.insert(k, row);
        proof {
            assert(self@ =~= prev.insert(k as int, row@));
            assert forall|i: int, j: int|
                0 <= i < j < self@.len() implies self@[i].animal.animal_id
                < self@[j].animal.animal_id by {
                if j < k {
                    assert(self@[i] == prev[i] && self@[j] == prev[j]);
                } else if i > k {
                    assert(self@[i] == prev[i - 1] && self@[j] == prev[j - 1]);
                } else if i < k && j == k {
                    assert(self@[i] == prev[i]);
                } else if i == k && j > k {
                    assert(self@[j] == prev[j - 1]);
                } else if i < k && j > k {
                    assert(self@[i] == prev[i] && self@[j] == prev[j - 1]);
                    assert(prev[i].animal.animal_id < row@.animal.animal_id);
                    assert(prev[j - 1].animal.animal_id > row@.animal.animal_id);
                }
            }
        }
        Ok(())
    }
}

/// In a well-formed table no two rows share an id.
pub proof fn lemma_animal_ids_unique(rows: Seq<AnimalRowV>)
    requires
        animal_table_wf(rows),
    ensures
        forall|i: int, j: int|
            0 <= i < rows.len() && 0 <= j < rows.len() && i != j
                ==> #[trigger] rows[i].animal.animal_id != #[trigger] rows[j].animal.animal_id,
{
}

/// For every payload a create call accepts, reading the allocated id back
/// yields exactly the created entity.
pub proof fn lemma_animal_create_then_get(rows: Seq<AnimalRowV>, p: CreateAnimalV)
    requires
        animal_table_wf(rows),
        animal_create_spec(rows, p).1 is Ok,
    ensures
        animal_lookup(
            animal_create_spec(rows, p).0,
            animal_create_spec(rows, p).1.unwrap().animal_id,
        ) == Some(animal_create_spec(rows, p).1.unwrap()),
{
    let row = animal_created_row(rows, p);
    let after = animal_create_spec(rows, p).0;
    let id = row.animal.animal_id;
    assert(after == rows.push(row));
    assert forall|j: int| 0 <= j < rows.len() implies !(animal_active_pred(id)(after[j])) by {
        assert(after[j] == rows[j]);
        if rows.len() > 0 && j < rows.len() - 1 {
            assert(rows[j].animal.animal_id < rows[rows.len() - 1].animal.animal_id);
        }
    }
    assert(after[rows.len() as int] == row);
    assert(animal_active_pred(id)(row));
    lemma_find_first_is(after, animal_active_pred(id), rows.len() as int);
}

/// A created animal is active and lists last: the listing of the new
/// table is the old listing with the created entity appended.
pub proof fn lemma_animal_create_lists_last(rows: Seq<AnimalRowV>, p: CreateAnimalV)
    requires
        animal_table_wf(rows),
        animal_create_spec(rows, p).1 is Ok,
    ensures
        animal_list_spec(animal_create_spec(rows, p).0) == animal_list_spec(rows).push(
            animal_create_spec(rows, p).1.unwrap(),
        ),
{
    let after = animal_create_spec(rows, p).0;
    assert(after.drop_last() =~= rows);
    assert(after.last() == animal_created_row(rows, p));
}

/// An update call with some fields absent leaves every absent field of the
/// stored entity, and every other row, unchanged.
pub proof fn lemma_animal_update_preserves_unsupplied(
    rows: Seq<AnimalRowV>,
    id: int,
    p: UpdateAnimalV,
)
    requires
        animal_table_wf(rows),
        animal_update_spec(rows, id, p).1 is Ok,
    ensures
        ({
            let i = animal_find(rows, id).unwrap();
            let after = animal_update_spec(rows, id, p).0;
            &&& after.len() == rows.len()
            &&& 0 <= i < rows.len()
            &&& after[i].animal.animal_id == rows[i].animal.animal_id
            &&& p.name is None ==> after[i].animal.name == rows[i].animal.name
            &&& p.specie is None ==> after[i].animal.specie == rows[i].animal.specie
            &&& p.habitat is None ==> after[i].animal.habitat == rows[i].animal.habitat
            &&& p.description is None ==> after[i].animal.description
                == rows[i].animal.description
            &&& p.country_of_origin is None ==> after[i].animal.country_of_origin
                == rows[i].animal.country_of_origin
            &&& p.date_of_birth is None ==> after[i].animal.date_of_birth
                == rows[i].animal.date_of_birth
            &&& forall|j: int| 0 <= j < rows.len() && j != i ==> after[j] == rows[j]
        }),
{
    lemma_find_first(rows, animal_active_pred(id));
}

/// Deactivating the same animal twice succeeds once and then reports
/// not-found: the second call sees no active row under that id.
pub proof fn lemma_animal_deactivate_twice(rows: Seq<AnimalRowV>, id: int)
    requires
        animal_table_wf(rows),
        animal_deactivate_spec(rows, id).1 is Ok,
    ensures
        animal_deactivate_spec(animal_deactivate_spec(rows, id).0, id).1 == Err::<
            (),
            ErrorKind,
        >(ErrorKind::NotFound),
{
    let i = animal_find(rows, id).unwrap();
    lemma_find_first(rows, animal_active_pred(id));
    let after = animal_deactivate_spec(rows, id).0;
    assert forall|j: int| 0 <= j < after.len() implies !(animal_active_pred(id)(after[j])) by {
        if j != i {
            assert(after[j] == rows[j]);
            if rows[j].animal.animal_id == id {
                if j < i {
                    assert(rows[j].animal.animal_id < rows[i].animal.animal_id);
                } else {
                    assert(rows[i].animal.animal_id < rows[j].animal.animal_id);
                }
            }
        }
    }
    lemma_find_first_none(after, animal_active_pred(id));
}

/// The storage layer refuses an insert whose id is already present, so of
/// two racing creates that allocated the same id at most one row lands.
pub proof fn lemma_animal_insert_duplicate_refused(rows: Seq<AnimalRowV>, row: AnimalRowV)
    requires
        exists|i: int|
            0 <= i < rows.len() && #[trigger] rows[i].animal.animal_id == row.animal.animal_id,
    ensures
        animal_insert_spec(rows, row) == Err::<Seq<AnimalRowV>, ErrorKind>(ErrorKind::Query),
{
}

/// Two creates that both saw the same table race: the first to land wins,
/// and the second insert of the same allocated id is refused.
pub proof fn lemma_animal_create_race(rows: Seq<AnimalRowV>, p: CreateAnimalV, row2: AnimalRowV)
    requires
        animal_table_wf(rows),
        animal_create_spec(rows, p).1 is Ok,
        row2.animal.animal_id == animal_next_id(rows),
    ensures
        animal_insert_spec(animal_create_spec(rows, p).0, row2) == Err::<
            Seq<AnimalRowV>,
            ErrorKind,
        >(ErrorKind::Query),
{
    let after = animal_create_spec(rows, p).0;
    assert(after[rows.len() as int].animal.animal_id == row2.animal.animal_id);
}

} // verus!
