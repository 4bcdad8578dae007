//! The classes store.
//!
//! One row per class section, each referencing an academic year by id.
//! Class names are compared the way the database compares them, after
//! trimming spaces and folding ASCII case, and listings are ordered by
//! class name.  A fixed list of default sections can be planted once.

use vstd::prelude::*;
use vstd::string::*;

use crate::academic_year::{has_id, AcademicYear, AcademicYearTable};
use crate::text;
use crate::util;

verus! {

/// One row of the classes table; `academic_year_details` is only filled
/// in listings, never stored.
#[derive(Debug, PartialEq)]
pub struct Class {
    pub id: Option<i64>,
    pub class_name: String,
    pub academic_years: i64,
    pub status: Option<String>,
    pub created_at: Option<String>,
    pub updated_at: Option<String>,
    pub academic_year_details: Option<AcademicYear>,
}

impl Clone for Class {
    fn clone(&self) -> (r: Self)
        ensures
            r == *self,
    {
        Class {
            id: self.id,
            class_name: self.class_name.clone(),
            academic_years: self.academic_years,
            status: util::clone_opt_string(&self.status),
            created_at: util::clone_opt_string(&self.created_at),
            updated_at: util::clone_opt_string(&self.updated_at),
            academic_year_details: match &self.academic_year_details {
                Some(y) => Some(y.clone()),
                None => None,
            },
        }
    }
}

/// Why a class operation was refused.
#[derive(Debug, PartialEq)]
pub enum ClassError {
    /// No row carries the requested id, or the row cannot be read.
    NotFound,
    /// Another class in the same academic year has the same name key.
    Duplicate { class_name: String },
    /// The referenced academic year does not exist.
    YearMissing,
}

impl ClassError {
    /// The message the caller shows for this error.
    pub fn message(&self) -> (r: String)
        ensures
            self is Duplicate ==> r@ == "Class '"@ + self->class_name@
                + "' already exists in the selected academic year"@,
            self is YearMissing ==> r@ == "Academic year does not exist"@,
            self is NotFound ==> r@ == "Query returned no rows"@,
    {
        match self {
            ClassError::NotFound => String::from_str("Query returned no rows"),
            ClassError::Duplicate { class_name } => String::from_str("Class '").concat(
                class_name.as_str(),
            ).concat("' already exists in the selected academic year"),
            ClassError::YearMissing => String::from_str("Academic year does not exist"),
        }
    }
}

/// Whether some row carries this class id.
pub open spec fn has_class_id(rows: Seq<Class>, id: i64) -> bool {
    exists|i: int| 0 <= i < rows.len() && (#[trigger] rows[i]).id == Some(id)
}

/// Whether some row in this academic year has exactly this name.
pub open spec fn has_name_year(rows: Seq<Class>, name: Seq<char>, year: i64) -> bool {
    exists|i: int|
        0 <= i < rows.len() && (#[trigger] rows[i]).class_name@ == name && rows[i].academic_years
            == year
}

/// Whether some row in this academic year has the same name key
/// (trimmed, case-folded) as `name`.
pub open spec fn has_key_dup(rows: Seq<Class>, name: Seq<char>, year: i64) -> bool {
    exists|i: int|
        0 <= i < rows.len() && text::name_key((#[trigger] rows[i]).class_name@) == text::name_key(
            name,
        ) && rows[i].academic_years == year
}

/// Same, but ignoring the row that carries `id` (for updates).
pub open spec fn has_key_dup_other(rows: Seq<Class>, name: Seq<char>, year: i64, id: i64) -> bool {
    exists|i: int|
        0 <= i < rows.len() && text::name_key((#[trigger] rows[i]).class_name@) == text::name_key(
            name,
        ) && rows[i].academic_years == year && rows[i].id != Some(id)
}

/// Whether a row is active.
pub open spec fn class_is_active(c: Class) -> bool {
    c.status matches Some(s) && s@ == "active"@
}

/// A listing is ordered by class name, in code-point order.
pub open spec fn sorted_by_name(s: Seq<Class>) -> bool {
    forall|i: int, j: int|
        #![trigger s[i], s[j]]
        0 <= i < j < s.len() ==> text::lex_le(s[i].class_name@, s[j].class_name@)
}

/// The row as stored: a listing entry without its attached year.
pub open spec fn strip_details(c: Class) -> Class {
    Class { academic_year_details: None, ..c }
}

/// The names of the default class sections, in the order they are
/// planted.
pub open spec fn default_class_names() -> Seq<Seq<char>> {
    seq![
        "Nursery A"@, "Nursery B"@, "Nursery C"@, "Nursery D"@,
        "LKG A"@, "LKG B"@, "LKG C"@, "LKG D"@,
        "UKG A"@, "UKG B"@, "UKG C"@, "UKG D"@,
        "Class-1 A"@, "Class-1 B"@, "Class-1 C"@, "Class-1 D"@,
        "Class-2 A"@, "Class-2 B"@, "Class-2 C"@, "Class-2 D"@,
        "Class-3 A"@, "Class-3 B"@, "Class-3 C"@, "Class-3 D"@,
        "Class-4 A"@, "Class-4 B"@, "Class-4 C"@, "Class-4 D"@,
        "Class-5 A"@, "Class-5 B"@, "Class-5 C"@, "Class-5 D"@,
        "Class-6 A"@, "Class-6 B"@, "Class-6 C"@, "Class-6 D"@,
        "Class-7 A"@, "Class-7 B"@, "Class-7 C"@, "Class-7 D"@,
        "Class-8 A"@, "Class-8 B"@, "Class-8 C"@, "Class-8 D"@,
        "Class-9 A"@, "Class-9 B"@, "Class-9 C"@, "Class-9 D"@,
        "Class-10 A"@, "Class-10 B"@, "Class-10 C"@, "Class-10 D"@,
    ]
}

/// The default class sections: four per level from nursery to the tenth
/// class.
pub fn get_default_classes() -> (r: Vec<&'static str>)
    ensures
        r@.len() == default_class_names().len(),
        forall|i: int| 0 <= i < r@.len() ==> (#[trigger] r@[i])@ == default_class_names()[i],
{
    let r: Vec<&'static str> = vec![
        "Nursery A", "Nursery B", "Nursery C", "Nursery D",
        "LKG A", "LKG B", "LKG C", "LKG D",
        "UKG A", "UKG B", "UKG C", "UKG D",
        "Class-1 A", "Class-1 B", "Class-1 C", "Class-1 D",
        "Class-2 A", "Class-2 B", "Class-2 C", "Class-2 D",
        "Class-3 A", "Class-3 B", "Class-3 C", "Class-3 D",
        "Class-4 A", "Class-4 B", "Class-4 C", "Class-4 D",
        "Class-5 A", "Class-5 B", "Class-5 C", "Class-5 D",
        "Class-6 A", "Class-6 B", "Class-6 C", "Class-6 D",
        "Class-7 A", "Class-7 B", "Class-7 C", "Class-7 D",
        "Class-8 A", "Class-8 B", "Class-8 C", "Class-8 D",
        "Class-9 A", "Class-9 B", "Class-9 C", "Class-9 D",
        "Class-10 A", "Class-10 B", "Class-10 C", "Class-10 D",
    ];
    r
}

/// The classes table: rows, the next id to hand out, and whether the
/// one-time planting of default sections has run.
pub struct ClassTable {
    pub rows: Vec<Class>,
    pub next_id: i64,
    pub initialized: bool,
}

impl ClassTable {
    /// Every id is assigned, below `next_id` and unique; stored rows
    /// carry no attached year.
    pub open spec fn wf(self) -> bool {
        &&& 1 <= self.next_id
        &&& forall|i: int| 0 <= i < self.rows@.len() ==> (#[trigger] self.rows@[i]).id is Some
        &&& forall|i: int|
            0 <= i < self.rows@.len() ==> 1 <= (#[trigger] self.rows@[i]).id->0 < self.next_id
        &&& forall|i: int, j: int|
            #![trigger self.rows@[i].id, self.rows@[j].id]
            0 <= i < j < self.rows@.len() ==> self.rows@[i].id->0 != self.rows@[j].id->0
        &&& forall|i: int|
            0 <= i < self.rows@.len() ==> (#[trigger] self.rows@[i]).academic_year_details is None
    }

    /// An empty table.
    pub fn new() -> (r: Self)
        ensures
            r.wf(),
            r.rows@ =~= Seq::<Class>::empty(),
            r.next_id == 1,
            !r.initialized,
    {
        ClassTable { rows: Vec::new(), next_id: 1, initialized: false }
    }

    /// Records that the one-time planting marker exists.
    pub fn mark_initialized(&mut self)
        ensures
            *final(self) == (ClassTable { initialized: true, ..*old(self) }),
    {
        self.initialized = true;
    }

    /// Creates a class unless another one in the same year already has
    /// the same name key; the stored name is trimmed, the status
    /// defaults to "active", and the year must exist.
    #[verifier::loop_isolation(false)]
    pub fn create_class(
        &mut self,
        class_name: String,
        academic_years: i64,
        status: Option<String>,
        years: &AcademicYearTable,
        now: String,
    ) -> (r: Result<i64, ClassError>)
        requires
            old(self).wf(),
            old(self).next_id < i64::MAX,
        ensures
            final(self).wf(),
            r is Ok <==> !has_key_dup(old(self).rows@, class_name@, academic_years) && has_id(
                years.rows@,
                academic_years,
            ),
            has_key_dup(old(self).rows@, class_name@, academic_years) ==> r == Err::<
                i64,
                ClassError,
            >(ClassError::Duplicate { class_name }),
            !has_key_dup(old(self).rows@, class_name@, academic_years) && !has_id(
                years.rows@,
                academic_years,
            ) ==> r == Err::<i64, ClassError>(ClassError::YearMissing),
            r is Err ==> *final(self) == *old(self),
            r matches Ok(id) ==> {
                &&& id == old(self).next_id
                &&& final(self).next_id == old(self).next_id + 1
                &&& final(self).rows@.len() == old(self).rows@.len() + 1
                &&& forall|i: int|
                    0 <= i < old(self).rows@.len() ==> #[trigger] final(self).rows@[i] == old(
                        self,
                    ).rows@[i]
                &&& final(self).rows@.last().id == Some(id)
                &&& final(self).rows@.last().class_name@ == text::trim_spaces(class_name@)
                &&& final(self).rows@.last().academic_years == academic_years
                &&& (match status {
                    Some(s) => final(self).rows@.last().status == Some(s),
                    None => final(self).rows@.last().status matches Some(st) && st@ == "active"@,
                })
                &&& final(self).rows@.last().created_at matches Some(t) && t@ == now@
                &&& final(self).rows@.last().updated_at matches Some(t) && t@ == now@
                &&& final(self).rows@.last().academic_year_details is None
                &&& final(self).initialized == old(self).initialized
            },
    {
        let n = self.rows.len();
        let mut i: usize = 0;
        while i < n
            invariant
                i <= n,
                self == old(self),
                forall|k: int|
                    0 <= k < i ==> !(text::name_key((#[trigger] self.rows@[k]).class_name@)
                        == text::name_key(class_name@) && self.rows@[k].academic_years
                        == academic_years),
            decreases n - i,
        {
            if text::name_key_eq(self.rows[i].class_name.as_str(), class_name.as_str())
                && self.rows[i].academic_years == academic_years {
                return Err(ClassError::Duplicate { class_name });
            }
            i = i + 1;
        }
        if !crate::academic_year::find_by_id_exists(years, academic_years) {
            return Err(ClassError::YearMissing);
        }
        let id = self.next_id;
        self.next_id = self.next_id + 1;
        let stored_name = text::trim(class_name.as_str());
        let stored_status = match status {
            Some(s) => s,
            None => String::from_str("active"),
        };
        self.rows.push(
            Class {
                id: Some(id),
                class_name: stored_name,
                academic_years,
                status: Some(stored_status),
                created_at: Some(now.clone()),
                updated_at: Some(now),
                academic_year_details: None,
            },
        );
        Ok(id)
    }

    /// The stored row with this id, without its year.
    pub fn get_class(&self, id: i64) -> (r: Result<Class, ClassError>)
        requires
            self.wf(),
        ensures
            r is Ok <==> has_class_id(self.rows@, id),
            r matches Ok(c) ==> exists|i: int|
                0 <= i < self.rows@.len() && #[trigger] self.rows@[i] == c && c.id == Some(id),
            r is Err ==> r == Err::<Class, ClassError>(ClassError::NotFound),
    {
        let n = self.rows.len();
        let mut i: usize = 0;
        while i < n
            invariant
                i <= n,
                n == self.rows@.len(),
                forall|k: int| 0 <= k < i ==> (#[trigger] self.rows@[k]).id != Some(id),
            decreases n - i,
        {
            if util::opt_i64_is(&self.rows[i].id, id) {
                return Ok(self.rows[i].clone());
            }
            i = i + 1;
        }
        Err(ClassError::NotFound)
    }

    /// Removes the row with this id, if any.
    #[verifier::loop_isolation(false)]
    pub fn delete_class(&mut self, id: i64)
        requires
            old(self).wf(),
        ensures
            final(self).wf(),
            final(self).rows@ =~= old(self).rows@.filter(|c: Class| c.id != Some(id)),
            final(self).next_id == old(self).next_id,
            final(self).initialized == old(self).initialized,
    {
        let n = self.rows.len();
        let mut kept: Vec<Class> = Vec::new();
        let mut i: usize = 0;
        while i < n
            invariant
                i <= n,
                self == old(self),
                kept@ =~= old(self).rows@.subrange(0, i as int).filter(
                    |c: Class| c.id != Some(id),
                ),
                // each kept row comes from an earlier position, and kept
                // ids stay pairwise distinct
                forall|k: int|
                    0 <= k < kept@.len() ==> exists|w: int|
                        0 <= w < i && #[trigger] kept@[k] == old(self).rows@[w],
                forall|k1: int, k2: int|
                    #![trigger kept@[k1].id, kept@[k2].id]
                    0 <= k1 < k2 < kept@.len() ==> kept@[k1].id->0 != kept@[k2].id->0,
            decreases n - i,
        {
            proof {
                assert(old(self).rows@.subrange(0, i + 1).drop_last() =~= old(
                    self,
                ).rows@.subrange(0, i as int));
                assert(old(self).rows@.subrange(0, i + 1).last() == old(self).rows@[i as int]);
                reveal_with_fuel(Seq::filter, 2);
            }
            if !util::opt_i64_is(&self.rows[i].id, id) {
                proof {
                    assert forall|k: int| 0 <= k < kept@.len() implies (#[trigger] kept@[k]).id->0
                        != old(self).rows@[i as int].id->0 by {
                        let w = choose|w: int|
                            0 <= w < i && #[trigger] kept@[k] == old(self).rows@[w];
                    }
                }
                kept.push(self.rows[i].clone());
            }
            i = i + 1;
        }
        proof {
            assert(old(self).rows@.subrange(0, n as int) =~= old(self).rows@);
        }
        self.rows = kept;
    }

    /// Flips the row's status between "active" and "inactive" and
    /// stamps it; the row must exist and carry a status.
    #[verifier::loop_isolation(false)]
    pub fn toggle_class_status(&mut self, id: i64, now: String) -> (r: Result<(), ClassError>)
        requires
            old(self).wf(),
        ensures
            final(self).wf(),
            r is Ok <==> exists|i: int|
                0 <= i < old(self).rows@.len() && (#[trigger] old(self).rows@[i]).id == Some(id)
                    && old(self).rows@[i].status is Some,
            r is Err ==> *final(self) == *old(self) && r == Err::<(), ClassError>(
                ClassError::NotFound,
            ),
            r is Ok ==> {
                &&& final(self).rows@.len() == old(self).rows@.len()
                &&& final(self).next_id == old(self).next_id
                &&& final(self).initialized == old(self).initialized
                &&& forall|i: int|
                    0 <= i < old(self).rows@.len() && old(self).rows@[i].id != Some(id)
                        ==> #[trigger] final(self).rows@[i] == old(self).rows@[i]
                &&& forall|i: int|
                    0 <= i < old(self).rows@.len() && old(self).rows@[i].id == Some(id) ==> {
                        &&& same_class_core(old(self).rows@[i], #[trigger] final(self).rows@[i])
                        &&& (if class_is_active(old(self).rows@[i]) {
                            final(self).rows@[i].status matches Some(st) && st@ == "inactive"@
                        } else {
                            final(self).rows@[i].status matches Some(st) && st@ == "active"@
                        })
                        &&& final(self).rows@[i].updated_at matches Some(t) && t@ == now@
                    }
            },
    {
        let n = self.rows.len();
        let mut i: usize = 0;
        while i < n
            invariant
                i <= n,
                self == old(self),
                forall|k: int| 0 <= k < i ==> (#[trigger] self.rows@[k]).id != Some(id),
            decreases n - i,
        {
            if util::opt_i64_is(&self.rows[i].id, id) {
                if self.rows[i].status.is_none() {
                    return Err(ClassError::NotFound);
                }
                let active = util::opt_str_is(&self.rows[i].status, "active");
                proof {
                    reveal_strlit("active");
                    reveal_strlit("inactive");
                    assert("active"@.len() == 6);
                    assert("inactive"@.len() == 8);
                }
                if active {
                    self.rows[i].status = Some(String::from_str("inactive"));
                } else {
                    self.rows[i].status = Some(String::from_str("active"));
                }
                self.rows[i].updated_at = Some(now);
                return Ok(());
            }
            i = i + 1;
        }
        Err(ClassError::NotFound)
    }
    /// Rewrites the row with this id: new trimmed name, year and
    /// status, stamped.  Refused when the row is missing, when another
    /// class in that year has the same name key, or when the year does
    /// not exist.
    #[verifier::loop_isolation(false)]
    pub fn update_class(
        &mut self,
        id: i64,
        class_name: String,
        academic_years: i64,
        status: String,
        years: &AcademicYearTable,
        now: String,
    ) -> (r: Result<(), ClassError>)
        requires
            old(self).wf(),
        ensures
            final(self).wf(),
            r is Ok <==> exists_with_status(old(self).rows@, id) && !has_key_dup_other(
                old(self).rows@,
                class_name@,
                academic_years,
                id,
            ) && has_id(years.rows@, academic_years),
            !exists_with_status(old(self).rows@, id) ==> r == Err::<(), ClassError>(
                ClassError::NotFound,
            ),
            exists_with_status(old(self).rows@, id) && has_key_dup_other(
                old(self).rows@,
                class_name@,
                academic_years,
                id,
            ) ==> r == Err::<(), ClassError>(ClassError::Duplicate { class_name }),
            exists_with_status(old(self).rows@, id) && !has_key_dup_other(
                old(self).rows@,
                class_name@,
                academic_years,
                id,
            ) && !has_id(years.rows@, academic_years) ==> r == Err::<(), ClassError>(
                ClassError::YearMissing,
            ),
            r is Err ==> *final(self) == *old(self),
            r is Ok ==> {
                &&& final(self).rows@.len() == old(self).rows@.len()
                &&& final(self).next_id == old(self).next_id
                &&& final(self).initialized == old(self).initialized
                &&& forall|i: int|
                    0 <= i < old(self).rows@.len() && old(self).rows@[i].id != Some(id)
                        ==> #[trigger] final(self).rows@[i] == old(self).rows@[i]
                &&& forall|i: int|
                    0 <= i < old(self).rows@.len() && old(self).rows@[i].id == Some(id) ==> {
                        &&& (#[trigger] final(self).rows@[i]).id == Some(id)
                        &&& final(self).rows@[i].class_name@ == text::trim_spaces(class_name@)
                        &&& final(self).rows@[i].academic_years == academic_years
                        &&& final(self).rows@[i].status == Some(status)
                        &&& final(self).rows@[i].created_at == old(self).rows@[i].created_at
                        &&& final(self).rows@[i].updated_at matches Some(t) && t@ == now@
                        &&& final(self).rows@[i].academic_year_details is None
                    }
            },
    {
        let n = self.rows.len();
        let mut idx: usize = 0;
        let mut found = false;
        let mut i: usize = 0;
        while i < n
            invariant
                i <= n,
                self == old(self),
                found ==> idx < i && self.rows@[idx as int].id == Some(id)
                    && self.rows@[idx as int].status is Some,
                !found ==> forall|k: int|
                    0 <= k < i ==> !((#[trigger] self.rows@[k]).id == Some(id)
                        && self.rows@[k].status is Some),
            decreases n - i,
        {
            if util::opt_i64_is(&self.rows[i].id, id) && self.rows[i].status.is_some() {
                if !found {
                    idx = i;
                    found = true;
                }
            }
            i = i + 1;
        }
        if !found {
            proof {
                assert(forall|k: int|
                    0 <= k < n ==> !((#[trigger] self.rows@[k]).id == Some(id)
                        && self.rows@[k].status is Some));
            }
            return Err(ClassError::NotFound);
        }
        let mut j: usize = 0;
        while j < n
            invariant
                j <= n,
                self == old(self),
                forall|k: int|
                    0 <= k < j ==> !(text::name_key((#[trigger] self.rows@[k]).class_name@)
                        == text::name_key(class_name@) && self.rows@[k].academic_years
                        == academic_years && self.rows@[k].id != Some(id)),
            decreases n - j,
        {
            if text::name_key_eq(self.rows[j].class_name.as_str(), class_name.as_str())
                && self.rows[j].academic_years == academic_years && !util::opt_i64_is(
                &self.rows[j].id,
                id,
            ) {
                return Err(ClassError::Duplicate { class_name });
            }
            j = j + 1;
        }
        if !crate::academic_year::find_by_id_exists(years, academic_years) {
            return Err(ClassError::YearMissing);
        }
        self.rows[idx].class_name = text::trim(class_name.as_str());
        self.rows[idx].academic_years = academic_years;
        self.rows[idx].status = Some(status);
        self.rows[idx].updated_at = Some(now);
        Ok(())
    }

    /// Plants every default section that this academic year does not
    /// already have, as inactive rows; the year must exist unless
    /// nothing is missing.
    #[verifier::loop_isolation(false)]
    pub fn initialize_default_classes(
        &mut self,
        academic_year_id: i64,
        years: &AcademicYearTable,
        now: String,
    ) -> (r: Result<(), ClassError>)
        requires
            old(self).wf(),
            old(self).next_id <= i64::MAX - 52,
        ensures
            final(self).wf(),
            final(self).initialized == old(self).initialized,
            r is Ok <==> has_id(years.rows@, academic_year_id) || (forall|d: int|
                0 <= d < default_class_names().len() ==> has_name_year(
                    old(self).rows@,
                    #[trigger] default_class_names()[d],
                    academic_year_id,
                )),
            r is Err ==> *final(self) == *old(self) && r == Err::<(), ClassError>(
                ClassError::YearMissing,
            ),
            r is Ok ==> defaults_planted(
                old(self).rows@,
                final(self).rows@,
                old(self).next_id,
                academic_year_id,
                now@,
            ) && final(self).next_id == old(self).next_id + (final(self).rows@.len() - old(
                self,
            ).rows@.len()),
    {
        let defaults = get_default_classes();
        let year_ok = crate::academic_year::find_by_id_exists(years, academic_year_id);
        let ghost rows0 = self.rows@;
        let ghost nid0 = self.next_id;
        let mut d: usize = 0;
        while d < defaults.len()
            invariant
                d <= defaults@.len(),
                self.wf(),
                self.initialized == old(self).initialized,
                self.rows@.len() >= rows0.len(),
                self.next_id == nid0 + (self.rows@.len() - rows0.len()),
                self.next_id <= i64::MAX - 52 + d,
                forall|k: int| 0 <= k < rows0.len() ==> #[trigger] self.rows@[k] == rows0[k],
                forall|dd: int|
                    0 <= dd < d ==> has_name_year(
                        self.rows@,
                        #[trigger] default_class_names()[dd],
                        academic_year_id,
                    ),
                forall|k: int|
                    rows0.len() <= k < self.rows@.len() ==> new_default_row(
                        rows0,
                        #[trigger] self.rows@[k],
                        academic_year_id,
                        now@,
                    ) && self.rows@[k].id->0 == nid0 + (k - rows0.len()),
                !year_ok ==> *self == *old(self),
            decreases defaults@.len() - d,
        {
            let name: &str = defaults[d];
            let ghost rows_at_start = self.rows@;
            let mut present = false;
            let n = self.rows.len();
            let mut i: usize = 0;
            while i < n
                invariant
                    i <= n,
                    n == self.rows@.len(),
                    present ==> has_name_year(self.rows@, name@, academic_year_id),
                    !present ==> forall|k: int|
                        0 <= k < i ==> !((#[trigger] self.rows@[k]).class_name@ == name@
                            && self.rows@[k].academic_years == academic_year_id),
                decreases n - i,
            {
                if text::str_eq(self.rows[i].class_name.as_str(), name)
                    && self.rows[i].academic_years == academic_year_id {
                    present = true;
                }
                i = i + 1;
            }
            if !present {
                if !year_ok {
                    return Err(ClassError::YearMissing);
                }
                proof {
                    assert(!has_name_year(rows0, name@, academic_year_id)) by {
                        if has_name_year(rows0, name@, academic_year_id) {
                            let w = choose|i: int|
                                0 <= i < rows0.len() && (#[trigger] rows0[i]).class_name@ == name@
                                    && rows0[i].academic_years == academic_year_id;
                            assert(rows_at_start[w] == rows0[w]);
                        }
                    }
                }
                let id = self.next_id;
                self.next_id = self.next_id + 1;
                proof {
                    reveal_strlit("inactive");
                    reveal_strlit("active");
                    assert("active"@.len() == 6);
                    assert("inactive"@.len() == 8);
                }
                self.rows.push(
                    Class {
                        id: Some(id),
                        class_name: name.to_owned(),
                        academic_years: academic_year_id,
                        status: Some(String::from_str("inactive")),
                        created_at: Some(now.clone()),
                        updated_at: Some(now.clone()),
                        academic_year_details: None,
                    },
                );
            }
            proof {
                assert forall|dd: int| 0 <= dd < d + 1 implies has_name_year(
                    self.rows@,
                    #[trigger] default_class_names()[dd],
                    academic_year_id,
                ) by {
                    if dd < d {
                        if self.rows@ != rows_at_start {
                            lemma_has_name_year_push(
                                rows_at_start,
                                self.rows@.last(),
                                default_class_names()[dd],
                                academic_year_id,
                            );
                            assert(self.rows@ =~= rows_at_start.push(self.rows@.last()));
                        }
                    } else {
                        if !present {
                            assert(self.rows@.last().class_name@ == name@);
                            assert(self.rows@[self.rows@.len() - 1].academic_years
                                == academic_year_id);
                        }
                    }
                }
            }
            d = d + 1;
        }
        Ok(())
    }

    /// On the first run only (before the planting marker exists), sets
    /// the marker and plants all default sections for this year,
    /// without checking for existing rows.
    #[verifier::loop_isolation(false)]
    pub fn check_and_initialize_default_classes_once(
        &mut self,
        academic_year_id: i64,
        years: &AcademicYearTable,
        now: String,
    ) -> (r: Result<(), ClassError>)
        requires
            old(self).wf(),
            old(self).next_id <= i64::MAX - 52,
        ensures
            final(self).wf(),
            old(self).initialized ==> r is Ok && *final(self) == *old(self),
            !old(self).initialized ==> {
                &&& final(self).initialized
                &&& r is Ok <==> has_id(years.rows@, academic_year_id)
                &&& r is Err ==> final(self).rows@ == old(self).rows@ && final(self).next_id
                    == old(self).next_id && r == Err::<(), ClassError>(ClassError::YearMissing)
                &&& r is Ok ==> {
                    &&& final(self).rows@.len() == old(self).rows@.len()
                        + default_class_names().len()
                    &&& final(self).next_id == old(self).next_id + default_class_names().len()
                    &&& forall|k: int|
                        0 <= k < old(self).rows@.len() ==> #[trigger] final(self).rows@[k] == old(
                            self,
                        ).rows@[k]
                    &&& forall|k: int|
                        old(self).rows@.len() <= k < final(self).rows@.len() ==> {
                            let c = #[trigger] final(self).rows@[k];
                            &&& c.class_name@ == default_class_names()[k - old(self).rows@.len()]
                            &&& c.academic_years == academic_year_id
                            &&& c.status matches Some(st) && st@ == "inactive"@
                            &&& c.created_at matches Some(t) && t@ == now@
                            &&& c.updated_at matches Some(t) && t@ == now@
                            &&& c.id is Some && c.id->0 == old(self).next_id + (k - old(self).rows@.len())
                            &&& c.academic_year_details is None
                        }
                }
            },
    {
        if self.initialized {
            return Ok(());
        }
        self.initialized = true;
        if !crate::academic_year::find_by_id_exists(years, academic_year_id) {
            return Err(ClassError::YearMissing);
        }
        let defaults = get_default_classes();
        let ghost rows0 = self.rows@;
        let ghost nid0 = self.next_id;
        let mut d: usize = 0;
        while d < defaults.len()
            invariant
                d <= defaults@.len(),
                self.wf(),
                self.initialized,
                self.rows@.len() == rows0.len() + d,
                self.next_id == nid0 + d,
                forall|k: int| 0 <= k < rows0.len() ==> #[trigger] self.rows@[k] == rows0[k],
                forall|k: int|
                    rows0.len() <= k < self.rows@.len() ==> {
                        let c = #[trigger] self.rows@[k];
                        &&& c.class_name@ == default_class_names()[k - rows0.len()]
                        &&& c.academic_years == academic_year_id
                        &&& c.status matches Some(st) && st@ == "inactive"@
                        &&& c.created_at matches Some(t) && t@ == now@
                        &&& c.updated_at matches Some(t) && t@ == now@
                        &&& c.id is Some && c.id->0 == nid0 + (k - rows0.len())
                        &&& c.academic_year_details is None
                    },
            decreases defaults@.len() - d,
        {
            let id = self.next_id;
            self.next_id = self.next_id + 1;
            self.rows.push(
                Class {
                    id: Some(id),
                    class_name: defaults[d].to_owned(),
                    academic_years: academic_year_id,
                    status: Some(String::from_str("inactive")),
                    created_at: Some(now.clone()),
                    updated_at: Some(now.clone()),
                    academic_year_details: None,
                },
            );
            d = d + 1;
        }
        Ok(())
    }
}

impl ClassTable {
    /// Lists every class ordered by name, each with its academic year
    /// attached; on an empty table the default sections are planted
    /// first, for the active year (or year 1 when none is active).
    #[verifier::loop_isolation(false)]
    pub fn get_all_classes(&mut self, years: &AcademicYearTable, now: String) -> (r: Result<
        Vec<Class>,
        ClassError,
    >)
        requires
            old(self).wf(),
            years.wf(),
            old(self).next_id <= i64::MAX - 52,
        ensures
            final(self).wf(),
            final(self).initialized == old(self).initialized,
            old(self).rows@.len() > 0 ==> *final(self) == *old(self),
            old(self).rows@.len() == 0 ==> (if has_id(years.rows@, fallback_year(years.rows@)) {
                defaults_planted(
                    old(self).rows@,
                    final(self).rows@,
                    old(self).next_id,
                    fallback_year(years.rows@),
                    now@,
                )
            } else {
                *final(self) == *old(self)
            }),
            r is Err ==> r == Err::<Vec<Class>, ClassError>(ClassError::YearMissing),
            r is Ok <==> (old(self).rows@.len() > 0 || has_id(
                years.rows@,
                fallback_year(years.rows@),
            )) && (forall|i: int|
                0 <= i < final(self).rows@.len() ==> has_id(
                    years.rows@,
                    (#[trigger] final(self).rows@[i]).academic_years,
                )),
            r matches Ok(list) ==> {
                &&& sorted_by_name(list@)
                &&& list@.map_values(|c: Class| strip_details(c)).to_multiset()
                    == final(self).rows@.to_multiset()
                &&& forall|k: int|
                    0 <= k < list@.len() ==> year_attached(#[trigger] list@[k], years.rows@)
            },
    {
        broadcast use vstd::seq_lib::group_to_multiset_ensures;

        if self.rows.len() == 0 {
            let fy = match years.get_current_academic_year() {
                Some(y) => {
                    proof {
                        let w = choose|w: int|
                            0 <= w < years.rows@.len() && #[trigger] years.rows@[w] == y
                                && crate::academic_year::is_active(y);
                        let c = choose|i: int|
                            0 <= i < years.rows@.len() && crate::academic_year::is_active(
                                #[trigger] years.rows@[i],
                            );
                        assert(c == w);
                    }
                    y.id.unwrap()
                },
                None => 1,
            };
            proof {
                assert(fy == fallback_year(years.rows@));
            }
            match self.initialize_default_classes(fy, years, now) {
                Ok(()) => {},
                Err(e) => {
                    return Err(e);
                },
            }
        }
        let n = self.rows.len();
        let mut list: Vec<Class> = Vec::new();
        let mut i: usize = 0;
        while i < n
            invariant
                i <= n,
                list@.len() == i,
                forall|k: int| 0 <= k < i ==> #[trigger] list@[k] == self.rows@[k],
            decreases n - i,
        {
            list.push(self.rows[i].clone());
            i = i + 1;
        }
        proof {
            assert(list@ =~= self.rows@);
        }
        let mut list = sort_classes_by_name(list);
        let ghost sorted0 = list@;
        proof {
            assert forall|t: int| 0 <= t < sorted0.len() implies self.rows@.contains(
                #[trigger] sorted0[t],
            ) by {
                assert(sorted0.contains(sorted0[t]));
                assert(sorted0.to_multiset().count(sorted0[t]) > 0);
            }
        }
        let m = list.len();
        let mut k: usize = 0;
        while k < m
            invariant
                k <= m,
                m == list@.len() == sorted0.len(),
                forall|t: int| k <= t < m ==> #[trigger] list@[t] == sorted0[t],
                forall|t: int|
                    0 <= t < k ==> strip_details(#[trigger] list@[t]) == sorted0[t]
                        && year_attached(list@[t], years.rows@),
            decreases m - k,
        {
            let year_id = list[k].academic_years;
            match crate::academic_year::find_by_id(years, year_id) {
                Some(y) => {
                    list[k].academic_year_details = Some(y);
                    proof {
                        let w = choose|w: int|
                            0 <= w < self.rows@.len() && self.rows@[w] == sorted0[k as int];
                        assert(sorted0[k as int].academic_year_details is None);
                        assert(strip_details(list@[k as int]) == sorted0[k as int]);
                    }
                },
                None => {
                    proof {
                        let w = choose|w: int|
                            0 <= w < self.rows@.len() && self.rows@[w] == sorted0[k as int];
                        assert(!has_id(years.rows@, self.rows@[w].academic_years));
                    }
                    return Err(ClassError::YearMissing);
                },
            }
            k = k + 1;
        }
        proof {
            assert(list@.map_values(|c: Class| strip_details(c)) =~= sorted0);
            assert forall|x: int, y: int|
                #![trigger list@[x], list@[y]]
                0 <= x < y < list@.len() implies text::lex_le(
                list@[x].class_name@,
                list@[y].class_name@,
            ) by {
                assert(strip_details(list@[x]) == sorted0[x]);
                assert(strip_details(list@[y]) == sorted0[y]);
                assert(text::lex_le(sorted0[x].class_name@, sorted0[y].class_name@));
            }
            assert forall|i0: int| 0 <= i0 < self.rows@.len() implies has_id(
                years.rows@,
                (#[trigger] self.rows@[i0]).academic_years,
            ) by {
                assert(self.rows@.contains(self.rows@[i0]));
                assert(self.rows@.to_multiset().count(self.rows@[i0]) > 0);
                assert(sorted0.contains(self.rows@[i0]));
                let t = choose|t: int|
                    0 <= t < sorted0.len() && sorted0[t] == self.rows@[i0];
                assert(year_attached(list@[t], years.rows@));
                assert(strip_details(list@[t]) == sorted0[t]);
            }
        }
        Ok(list)
    }

    /// Lists the active classes ordered by name, each with its academic
    /// year attached.
    #[verifier::loop_isolation(false)]
    pub fn get_active_classes(&self, years: &AcademicYearTable) -> (r: Result<
        Vec<Class>,
        ClassError,
    >)
        requires
            self.wf(),
            years.wf(),
        ensures
            r is Err ==> r == Err::<Vec<Class>, ClassError>(ClassError::YearMissing),
            r is Ok <==> (forall|i: int|
                0 <= i < self.rows@.len() ==> (class_is_active(#[trigger] self.rows@[i])
                    ==> has_id(years.rows@, self.rows@[i].academic_years))),
            r matches Ok(list) ==> {
                &&& sorted_by_name(list@)
                &&& list@.map_values(|c: Class| strip_details(c)).to_multiset()
                    == self.rows@.filter(|c: Class| class_is_active(c)).to_multiset()
                &&& forall|k: int|
                    0 <= k < list@.len() ==> year_attached(#[trigger] list@[k], years.rows@)
                        && class_is_active(list@[k])
            },
    {
        broadcast use vstd::seq_lib::group_to_multiset_ensures;
        broadcast use vstd::seq_lib::group_filter_ensures;

        let n = self.rows.len();
        let mut list: Vec<Class> = Vec::new();
        let mut i: usize = 0;
        while i < n
            invariant
                i <= n,
                list@ =~= self.rows@.subrange(0, i as int).filter(|c: Class| class_is_active(c)),
            decreases n - i,
        {
            proof {
                assert(self.rows@.subrange(0, i + 1).drop_last() =~= self.rows@.subrange(
                    0,
                    i as int,
                ));
                assert(self.rows@.subrange(0, i + 1).last() == self.rows@[i as int]);
                reveal_with_fuel(Seq::filter, 2);
                reveal_strlit("active");
            }
            if util::opt_str_is(&self.rows[i].status, "active") {
                list.push(self.rows[i].clone());
            }
            i = i + 1;
        }
        proof {
            assert(self.rows@.subrange(0, n as int) =~= self.rows@);
        }
        let ghost active0 = self.rows@.filter(|c: Class| class_is_active(c));
        let mut list = sort_classes_by_name(list);
        let ghost sorted0 = list@;
        proof {
            lemma_filter_sub(self.rows@, |c: Class| class_is_active(c));
            assert forall|t: int| 0 <= t < sorted0.len() implies self.rows@.contains(
                #[trigger] sorted0[t],
            ) && class_is_active(sorted0[t]) by {
                assert(sorted0.contains(sorted0[t]));
                assert(sorted0.to_multiset().count(sorted0[t]) > 0);
                assert(active0.contains(sorted0[t]));
                let w = choose|w: int| 0 <= w < active0.len() && active0[w] == sorted0[t];
                assert(self.rows@.contains(active0[w]));
            }
        }
        let m = list.len();
        let mut k: usize = 0;
        while k < m
            invariant
                k <= m,
                m == list@.len() == sorted0.len(),
                forall|t: int| k <= t < m ==> #[trigger] list@[t] == sorted0[t],
                forall|t: int|
                    0 <= t < k ==> strip_details(#[trigger] list@[t]) == sorted0[t]
                        && year_attached(list@[t], years.rows@),
            decreases m - k,
        {
            let year_id = list[k].academic_years;
            match crate::academic_year::find_by_id(years, year_id) {
                Some(y) => {
                    list[k].academic_year_details = Some(y);
                    proof {
                        let w = choose|w: int|
                            0 <= w < self.rows@.len() && self.rows@[w] == sorted0[k as int];
                        assert(sorted0[k as int].academic_year_details is None);
                        assert(strip_details(list@[k as int]) == sorted0[k as int]);
                    }
                },
                None => {
                    proof {
                        let w = choose|w: int|
                            0 <= w < self.rows@.len() && self.rows@[w] == sorted0[k as int];
                        assert(class_is_active(self.rows@[w]));
                        assert(!has_id(years.rows@, self.rows@[w].academic_years));
                    }
                    return Err(ClassError::YearMissing);
                },
            }
            k = k + 1;
        }
        proof {
            assert(list@.map_values(|c: Class| strip_details(c)) =~= sorted0);
            assert forall|x: int, y: int|
                #![trigger list@[x], list@[y]]
                0 <= x < y < list@.len() implies text::lex_le(
                list@[x].class_name@,
                list@[y].class_name@,
            ) by {
                assert(strip_details(list@[x]) == sorted0[x]);
                assert(strip_details(list@[y]) == sorted0[y]);
                assert(text::lex_le(sorted0[x].class_name@, sorted0[y].class_name@));
            }
            assert forall|k0: int|
                0 <= k0 < list@.len() implies year_attached(#[trigger] list@[k0], years.rows@)
                && class_is_active(list@[k0]) by {
                assert(strip_details(list@[k0]) == sorted0[k0]);
            }
            assert forall|i0: int|
                0 <= i0 < self.rows@.len() && class_is_active(
                #[trigger] self.rows@[i0],
            ) implies has_id(years.rows@, self.rows@[i0].academic_years) by {
                assert(self.rows@.contains(self.rows@[i0]));
                assert(active0.contains(self.rows@[i0]));
                assert(active0.to_multiset().count(self.rows@[i0]) > 0);
                assert(sorted0.contains(self.rows@[i0]));
                let t = choose|t: int|
                    0 <= t < sorted0.len() && sorted0[t] == self.rows@[i0];
                assert(year_attached(list@[t], years.rows@));
                assert(strip_details(list@[t]) == sorted0[t]);
            }
        }
        Ok(list)
    }
}

/// A listing entry carries the year row it references.
pub open spec fn year_attached(c: Class, years: Seq<AcademicYear>) -> bool {
    c.academic_year_details matches Some(y) && exists|i: int|
        0 <= i < years.len() && #[trigger] years[i] == y && y.id == Some(c.academic_years)
}

/// The year a default planting falls back on: the active year if there
/// is one, else year 1.
pub open spec fn fallback_year(years: Seq<AcademicYear>) -> i64 {
    if exists|i: int|
        0 <= i < years.len() && crate::academic_year::is_active(#[trigger] years[i]) {
        let i = choose|i: int|
            0 <= i < years.len() && crate::academic_year::is_active(#[trigger] years[i]);
        years[i].id->0
    } else {
        1
    }
}

/// Orders a listing by class name, the way the database orders a text
/// column.
#[verifier::loop_isolation(false)]
pub fn sort_classes_by_name(v: Vec<Class>) -> (r: Vec<Class>)
    ensures
        r@.to_multiset() == v@.to_multiset(),
        sorted_by_name(r@),
{
    broadcast use vstd::seq_lib::group_to_multiset_ensures;

    let mut rem = v;
    let ghost orig = rem@;
    let mut out: Vec<Class> = Vec::new();
    while rem.len() > 0
        invariant
            out@.to_multiset().add(rem@.to_multiset()) =~= orig.to_multiset(),
            sorted_by_name(out@),
            forall|x: int, y: int|
                #![trigger out@[x], rem@[y]]
                0 <= x < out@.len() && 0 <= y < rem@.len() ==> text::lex_le(
                    out@[x].class_name@,
                    rem@[y].class_name@,
                ),
        decreases rem@.len(),
    {
        proof {
            text::lemma_lex_le_refl(rem@[0].class_name@, 0);
        }
        let mut min: usize = 0;
        let mut j: usize = 1;
        while j < rem.len()
            invariant
                min < rem@.len(),
                1 <= j <= rem@.len(),
                forall|k: int|
                    0 <= k < j ==> text::lex_le(
                        rem@[min as int].class_name@,
                        (#[trigger] rem@[k]).class_name@,
                    ),
            decreases rem@.len() - j,
        {
            if text::str_le(rem[j].class_name.as_str(), rem[min].class_name.as_str()) {
                proof {
                    assert forall|k: int|
                        0 <= k < j implies text::lex_le(
                        rem@[j as int].class_name@,
                        (#[trigger] rem@[k]).class_name@,
                    ) by {
                        text::lemma_lex_le_trans(
                            rem@[j as int].class_name@,
                            rem@[min as int].class_name@,
                            rem@[k].class_name@,
                            0,
                        );
                    }
                    text::lemma_lex_le_refl(rem@[j as int].class_name@, 0);
                }
                min = j;
            } else {
                proof {
                    text::lemma_lex_le_total(
                        rem@[j as int].class_name@,
                        rem@[min as int].class_name@,
                        0,
                    );
                }
            }
            j = j + 1;
        }
        let ghost rem0 = rem@;
        let ghost out0 = out@;
        let m = rem.remove(min);
        out.push(m);
        proof {
            // the removed minimum keeps both invariants alive
            assert(rem@ =~= rem0.remove(min as int));
            assert(out@ =~= out0.push(m));
            assert(out@.to_multiset().add(rem@.to_multiset()) =~= orig.to_multiset()) by {
                assert(out@.to_multiset() =~= out0.to_multiset().insert(m));
                assert(rem@.to_multiset() =~= rem0.to_multiset().remove(m));
                assert(rem0.to_multiset().count(m) > 0);
            }
            assert forall|x: int, y: int|
                #![trigger out@[x], rem@[y]]
                0 <= x < out@.len() && 0 <= y < rem@.len() implies text::lex_le(
                out@[x].class_name@,
                rem@[y].class_name@,
            ) by {
                let src = if y < min as int {
                    y
                } else {
                    y + 1
                };
                assert(rem@[y] == rem0[src]);
                if x < out0.len() {
                    assert(out@[x] == out0[x]);
                } else {
                    assert(out@[x] == m);
                }
            }
            assert forall|x: int, y: int|
                #![trigger out@[x], out@[y]]
                0 <= x < y < out@.len() implies text::lex_le(
                out@[x].class_name@,
                out@[y].class_name@,
            ) by {
                if y == out0.len() {
                    assert(out@[y] == m);
                    assert(out0[x] == out@[x]);
                    assert(text::lex_le(out0[x].class_name@, rem0[min as int].class_name@));
                }
            }
        }
    }
    proof {
        assert(out@.to_multiset() =~= orig.to_multiset()) by {
            assert(rem@.len() == 0);
            assert(forall|e: Class| rem@.to_multiset().count(e) == 0) by {
                assert(forall|e: Class| !rem@.contains(e));
            }
        }
    }
    out
}

/// Appending a row keeps every name that was already present.
pub proof fn lemma_has_name_year_push(rows: Seq<Class>, c: Class, name: Seq<char>, year: i64)
    requires
        has_name_year(rows, name, year),
    ensures
        has_name_year(rows.push(c), name, year),
{
    let w = choose|i: int|
        0 <= i < rows.len() && (#[trigger] rows[i]).class_name@ == name && rows[i].academic_years
            == year;
    assert(rows.push(c)[w] == rows[w]);
}

/// Whether the table has a row with this id whose status column can be
/// read.
pub open spec fn exists_with_status(rows: Seq<Class>, id: i64) -> bool {
    exists|i: int|
        0 <= i < rows.len() && (#[trigger] rows[i]).id == Some(id) && rows[i].status is Some
}

/// What one freshly planted default row looks like.
pub open spec fn new_default_row(rows0: Seq<Class>, c: Class, year: i64, now: Seq<char>) -> bool {
    &&& c.academic_years == year
    &&& c.status matches Some(st) && st@ == "inactive"@
    &&& c.created_at matches Some(t) && t@ == now
    &&& c.updated_at matches Some(t) && t@ == now
    &&& c.academic_year_details is None
    &&& exists|d: int|
        0 <= d < default_class_names().len() && c.class_name@ == #[trigger] default_class_names()[d]
            && !has_name_year(rows0, c.class_name@, year)
}

/// How a planting run relates the rows afterwards to the rows before:
/// the old rows stand unchanged, every default section is present for
/// the year, and each appended row is a previously missing default with
/// a consecutive id.
pub open spec fn defaults_planted(
    rows0: Seq<Class>,
    rows1: Seq<Class>,
    next_id0: i64,
    year: i64,
    now: Seq<char>,
) -> bool {
    &&& rows1.len() >= rows0.len()
    &&& forall|k: int| 0 <= k < rows0.len() ==> #[trigger] rows1[k] == rows0[k]
    &&& forall|d: int|
        0 <= d < default_class_names().len() ==> has_name_year(
            rows1,
            #[trigger] default_class_names()[d],
            year,
        )
    &&& forall|k: int|
        rows0.len() <= k < rows1.len() ==> new_default_row(rows0, #[trigger] rows1[k], year, now)
            && rows1[k].id is Some && rows1[k].id->0 == next_id0 + (k - rows0.len())
}

/// The fields of a class row that a status change never touches.
pub open spec fn same_class_core(a: Class, b: Class) -> bool {
    &&& b.id == a.id
    &&& b.class_name == a.class_name
    &&& b.academic_years == a.academic_years
    &&& b.created_at == a.created_at
    &&& b.academic_year_details == a.academic_year_details
}

/// Filtering keeps a subsequence: every kept element was in the source.
pub proof fn lemma_filter_sub(s: Seq<Class>, pred: spec_fn(Class) -> bool)
    ensures
        forall|k: int|
            0 <= k < s.filter(pred).len() ==> s.contains(#[trigger] s.filter(pred)[k]),
    decreases s.len(),
{
    reveal_with_fuel(Seq::filter, 2);
    if s.len() > 0 {
        lemma_filter_sub(s.drop_last(), pred);
        assert forall|k: int|
            0 <= k < s.filter(pred).len() implies s.contains(#[trigger] s.filter(pred)[k]) by {
            if k < s.drop_last().filter(pred).len() {
                assert(s.drop_last().contains(s.drop_last().filter(pred)[k]));
                let w = choose|w: int|
                    0 <= w < s.drop_last().len() && s.drop_last()[w] == s.drop_last().filter(
                        pred,
                    )[k];
                assert(s[w] == s.filter(pred)[k]);
            } else {
                assert(s[s.len() - 1] == s.filter(pred)[k]);
            }
        }
    }
}

} // verus!
