//! The academic-years store.
//!
//! One row per academic year, keyed by a generated integer id.  The year
//! name is unique, and at most one year is "active" (the current one) at
//! any time; setting a year current moves every other row to "inactive".

use vstd::prelude::*;
use vstd::string::*;

use crate::util;

verus! {

/// One row of the academic-years table.
#[derive(Debug, PartialEq)]
pub struct AcademicYear {
    pub id: Option<i64>,
    pub academic_year: String,
    pub status: Option<String>,
    pub created_at: Option<String>,
    pub updated_at: Option<String>,
}

impl Clone for AcademicYear {
    fn clone(&self) -> (r: Self)
        ensures
            r == *self,
    {
        AcademicYear {
            id: self.id,
            academic_year: self.academic_year.clone(),
            status: util::clone_opt_string(&self.status),
            created_at: util::clone_opt_string(&self.created_at),
            updated_at: util::clone_opt_string(&self.updated_at),
        }
    }
}

/// Whether a row is the current ("active") year.
pub open spec fn is_active(y: AcademicYear) -> bool {
    y.status matches Some(s) && s@ == "active"@
}

/// Whether some row carries this year name.
pub open spec fn has_name(rows: Seq<AcademicYear>, name: Seq<char>) -> bool {
    exists|i: int| 0 <= i < rows.len() && (#[trigger] rows[i]).academic_year@ == name
}

/// Whether some row carries this id.
pub open spec fn has_id(rows: Seq<AcademicYear>, id: i64) -> bool {
    exists|i: int| 0 <= i < rows.len() && (#[trigger] rows[i]).id == Some(id)
}

/// Why a year operation was refused.
#[derive(Debug, PartialEq)]
pub enum AcademicYearError {
    /// A class still references the year.
    Referenced,
}

impl AcademicYearError {
    /// The message the caller shows for this error.
    pub fn message(&self) -> (r: String)
        ensures
            r@ == "FOREIGN KEY constraint failed"@,
    {
        String::from_str("FOREIGN KEY constraint failed")
    }
}

/// Whether some class row references this year.
pub open spec fn year_referenced(classes: Seq<crate::class::Class>, id: i64) -> bool {
    exists|i: int| 0 <= i < classes.len() && (#[trigger] classes[i]).academic_years == id
}

/// Whether the table has a row with this id.
pub fn find_by_id_exists(t: &AcademicYearTable, id: i64) -> (r: bool)
    ensures
        r == has_id(t.rows@, id),
{
    let n = t.rows.len();
    let mut i: usize = 0;
    while i < n
        invariant
            i <= n,
            n == t.rows@.len(),
            forall|k: int| 0 <= k < i ==> (#[trigger] t.rows@[k]).id != Some(id),
        decreases n - i,
    {
        if util::opt_i64_is(&t.rows[i].id, id) {
            return true;
        }
        i = i + 1;
    }
    false
}

/// The row with this id, if any.
pub fn find_by_id(t: &AcademicYearTable, id: i64) -> (r: Option<AcademicYear>)
    ensures
        match r {
            Some(y) => exists|i: int|
                0 <= i < t.rows@.len() && #[trigger] t.rows@[i] == y && y.id == Some(id),
            None => !has_id(t.rows@, id),
        },
{
    let n = t.rows.len();
    let mut i: usize = 0;
    while i < n
        invariant
            i <= n,
            n == t.rows@.len(),
            forall|k: int| 0 <= k < i ==> (#[trigger] t.rows@[k]).id != Some(id),
        decreases n - i,
    {
        if util::opt_i64_is(&t.rows[i].id, id) {
            return Some(t.rows[i].clone());
        }
        i = i + 1;
    }
    None
}

/// The fields of a row that upserts and status changes never touch.
pub open spec fn same_core(a: AcademicYear, b: AcademicYear) -> bool {
    &&& b.id == a.id
    &&& b.academic_year == a.academic_year
    &&& b.created_at == a.created_at
}

/// The academic-years table: rows plus the next id the store will hand
/// out, which only grows, so ids are never reused.
pub struct AcademicYearTable {
    pub rows: Vec<AcademicYear>,
    pub next_id: i64,
}

impl AcademicYearTable {
    /// Every id is assigned and below `next_id`; ids and names are
    /// unique; at most one row is active.
    pub open spec fn wf(self) -> bool {
        &&& 1 <= self.next_id
        &&& forall|i: int|
            0 <= i < self.rows@.len() ==> (#[trigger] self.rows@[i]).id is Some
        &&& forall|i: int|
            0 <= i < self.rows@.len() ==> 1 <= (#[trigger] self.rows@[i]).id->0 < self.next_id
        &&& forall|i: int, j: int|
            #![trigger self.rows@[i].id, self.rows@[j].id]
            0 <= i < j < self.rows@.len() ==> self.rows@[i].id->0 != self.rows@[j].id->0
        &&& forall|i: int, j: int|
            #![trigger self.rows@[i].academic_year, self.rows@[j].academic_year]
            0 <= i < j < self.rows@.len() ==> self.rows@[i].academic_year@
                != self.rows@[j].academic_year@
        &&& forall|i: int, j: int|
            #![trigger self.rows@[i].status, self.rows@[j].status]
            0 <= i < j < self.rows@.len() ==> !(is_active(self.rows@[i]) && is_active(
                self.rows@[j],
            ))
    }

    /// An empty table.
    pub fn new() -> (r: Self)
        ensures
            r.wf(),
            r.rows@ =~= Seq::<AcademicYear>::empty(),
            r.next_id == 1,
    {
        AcademicYearTable { rows: Vec::new(), next_id: 1 }
    }

    /// Creates the year if its name is new, else touches the existing
    /// row; with `set_as_current` the chosen row becomes the single
    /// active one and every other row is set inactive.  Returns the id
    /// of the chosen row.
    #[verifier::loop_isolation(false)]
    pub fn upsert_academic_year(&mut self, year: String, set_as_current: bool, now: String) -> (id:
        i64)
        requires
            old(self).wf(),
            old(self).next_id < i64::MAX,
        ensures
            final(self).wf(),
            final(self).rows@.len() >= old(self).rows@.len(),
            // which row the call settled on
            has_name(old(self).rows@, year@) ==> {
                &&& final(self).rows@.len() == old(self).rows@.len()
                &&& final(self).next_id == old(self).next_id
                &&& exists|i: int|
                    0 <= i < old(self).rows@.len() && (#[trigger] old(
                        self,
                    ).rows@[i]).academic_year@ == year@ && old(self).rows@[i].id == Some(id)
            },
            !has_name(old(self).rows@, year@) ==> {
                &&& final(self).rows@.len() == old(self).rows@.len() + 1
                &&& id == old(self).next_id
                &&& final(self).next_id == old(self).next_id + 1
                &&& final(self).rows@.last().id == Some(id)
                &&& final(self).rows@.last().academic_year == year
                &&& final(self).rows@.last().created_at matches Some(t) && t@ == now@
                &&& final(self).rows@.last().updated_at matches Some(t) && t@ == now@
                &&& !set_as_current ==> (final(self).rows@.last().status matches Some(st)
                    && st@ == "inactive"@)
            },
            // rows keep their identity fields
            forall|i: int|
                0 <= i < old(self).rows@.len() ==> same_core(
                    #[trigger] old(self).rows@[i],
                    final(self).rows@[i],
                ),
            // the chosen row is stamped with `now`; the others keep their stamp
            forall|i: int|
                0 <= i < old(self).rows@.len() && old(self).rows@[i].id == Some(id) ==> ((
                #[trigger] final(self).rows@[i]).updated_at matches Some(t) && t@ == now@),
            forall|i: int|
                0 <= i < old(self).rows@.len() && old(self).rows@[i].id != Some(id) ==> (
                #[trigger] final(self).rows@[i]).updated_at == old(self).rows@[i].updated_at,
            // statuses afterwards
            set_as_current ==> forall|i: int|
                0 <= i < final(self).rows@.len() ==> (is_active(#[trigger] final(self).rows@[i])
                    <==> final(self).rows@[i].id == Some(id)),
            !set_as_current ==> forall|i: int|
                0 <= i < old(self).rows@.len() ==> (#[trigger] final(self).rows@[i]).status == old(
                    self,
                ).rows@[i].status,
    {
        let ghost rows0 = self.rows@;
        let mut found: Option<usize> = None;
        let mut i: usize = 0;
        while i < self.rows.len()
            invariant
                i <= self.rows@.len(),
                self.rows@ == rows0,
                match found {
                    Some(k) => k < i && rows0[k as int].academic_year@ == year@,
                    None => forall|k: int|
                        0 <= k < i ==> (#[trigger] rows0[k]).academic_year@ != year@,
                },
            decreases self.rows@.len() - i,
        {
            if self.rows[i].academic_year == year {
                found = Some(i);
            }
            i = i + 1;
        }
        let id: i64 = match found {
            Some(idx) => {
                let id = self.rows[idx].id.unwrap();
                self.rows[idx].updated_at = Some(now.clone());
                id
            },
            None => {
                let id = self.next_id;
                self.next_id = self.next_id + 1;
                let status: &str = if set_as_current {
                    "active"
                } else {
                    "inactive"
                };
                proof {
                    reveal_strlit("active");
                    reveal_strlit("inactive");
                    assert("active"@.len() == 6);
                    assert("inactive"@.len() == 8);
                }
                self.rows.push(
                    AcademicYear {
                        id: Some(id),
                        academic_year: year,
                        status: Some(status.to_owned()),
                        created_at: Some(now.clone()),
                        updated_at: Some(now.clone()),
                    },
                );
                id
            },
        };
        if set_as_current {
            let ghost rows1 = self.rows@;
            let n = self.rows.len();
            let mut j: usize = 0;
            while j < n
                invariant
                    j <= n,
                    n == self.rows@.len() == rows1.len(),
                    self.next_id == old(self).next_id + if found is Some {
                        0int
                    } else {
                        1int
                    },
                    forall|k: int| j <= k < n ==> #[trigger] self.rows@[k] == rows1[k],
                    forall|k: int|
                        0 <= k < j ==> same_core(#[trigger] rows1[k], self.rows@[k]),
                    forall|k: int|
                        0 <= k < j ==> (is_active(#[trigger] self.rows@[k]) <==> self.rows@[k].id
                            == Some(id)),
                    forall|k: int|
                        0 <= k < j && rows1[k].id == Some(id) ==> ((#[trigger] self.rows@[k]).updated_at matches Some(t) && t@ == now@),
                    forall|k: int|
                        0 <= k < j && rows1[k].id != Some(id) ==> (#[trigger] self.rows@[k]).updated_at == rows1[k].updated_at,
                decreases n - j,
            {
                if util::opt_i64_is(&self.rows[j].id, id) {
                    self.rows[j].status = Some("active".to_owned());
                    self.rows[j].updated_at = Some(now.clone());
                } else {
                    self.rows[j].status = Some("inactive".to_owned());
                }
                proof {
                    reveal_strlit("active");
                    reveal_strlit("inactive");
                    assert("active"@.len() == 6);
                    assert("inactive"@.len() == 8);
                }
                j = j + 1;
            }
        }
        id
    }

    /// The single active year, if any.
    #[verifier::loop_isolation(false)]
    pub fn get_current_academic_year(&self) -> (r: Option<AcademicYear>)
        ensures
            match r {
                Some(y) => exists|i: int|
                    0 <= i < self.rows@.len() && #[trigger] self.rows@[i] == y && is_active(y),
                None => forall|i: int|
                    0 <= i < self.rows@.len() ==> !is_active(#[trigger] self.rows@[i]),
            },
    {
        let mut i: usize = 0;
        while i < self.rows.len()
            invariant
                i <= self.rows@.len(),
                forall|k: int| 0 <= k < i ==> !is_active(#[trigger] self.rows@[k]),
            decreases self.rows@.len() - i,
        {
            if util::opt_str_is(&self.rows[i].status, "active") {
                return Some(self.rows[i].clone());
            }
            i = i + 1;
        }
        None
    }

    /// All years, newest first.
    #[verifier::loop_isolation(false)]
    pub fn get_all_academic_years(&self) -> (r: Vec<AcademicYear>)
        ensures
            r@.len() == self.rows@.len(),
            forall|i: int|
                0 <= i < r@.len() ==> #[trigger] r@[i] == self.rows@[self.rows@.len() - 1 - i],
    {
        let mut r: Vec<AcademicYear> = Vec::new();
        let n = self.rows.len();
        let mut i: usize = 0;
        while i < n
            invariant
                i <= n,
                n == self.rows@.len(),
                r@.len() == i,
                forall|k: int|
                    0 <= k < i ==> #[trigger] r@[k] == self.rows@[self.rows@.len() - 1 - k],
            decreases n - i,
        {
            r.push(self.rows[n - 1 - i].clone());
            i = i + 1;
        }
        r
    }

    /// Makes the row with this id the single active year: every other
    /// row is set inactive, the chosen one active and stamped.
    #[verifier::loop_isolation(false)]
    pub fn set_current_academic_year(&mut self, id: i64, now: String)
        requires
            old(self).wf(),
        ensures
            final(self).wf(),
            final(self).rows@.len() == old(self).rows@.len(),
            final(self).next_id == old(self).next_id,
            forall|i: int|
                0 <= i < old(self).rows@.len() ==> same_core(
                    #[trigger] old(self).rows@[i],
                    final(self).rows@[i],
                ),
            forall|i: int|
                0 <= i < old(self).rows@.len() && old(self).rows@[i].id == Some(id) ==> {
                    &&& (#[trigger] final(self).rows@[i]).status matches Some(st) && st@
                        == "active"@
                    &&& final(self).rows@[i].updated_at matches Some(t) && t@ == now@
                },
            forall|i: int|
                0 <= i < old(self).rows@.len() && old(self).rows@[i].id != Some(id) ==> {
                    &&& (#[trigger] final(self).rows@[i]).status matches Some(st) && st@
                        == "inactive"@
                    &&& final(self).rows@[i].updated_at == old(self).rows@[i].updated_at
                },
    {
        let n = self.rows.len();
        let mut j: usize = 0;
        while j < n
            invariant
                j <= n,
                n == self.rows@.len() == old(self).rows@.len(),
                self.next_id == old(self).next_id,
                forall|k: int| j <= k < n ==> #[trigger] self.rows@[k] == old(self).rows@[k],
                forall|k: int|
                    0 <= k < j ==> same_core(#[trigger] old(self).rows@[k], self.rows@[k]),
                forall|k: int|
                    0 <= k < j && old(self).rows@[k].id == Some(id) ==> {
                        &&& (#[trigger] self.rows@[k]).status matches Some(st) && st@ == "active"@
                        &&& self.rows@[k].updated_at matches Some(t) && t@ == now@
                    },
                forall|k: int|
                    0 <= k < j && old(self).rows@[k].id != Some(id) ==> {
                        &&& (#[trigger] self.rows@[k]).status matches Some(st) && st@
                            == "inactive"@
                        &&& self.rows@[k].updated_at == old(self).rows@[k].updated_at
                    },
            decreases n - j,
        {
            if util::opt_i64_is(&self.rows[j].id, id) {
                self.rows[j].status = Some("active".to_owned());
                self.rows[j].updated_at = Some(now.clone());
            } else {
                self.rows[j].status = Some("inactive".to_owned());
            }
            j = j + 1;
        }
        proof {
            reveal_strlit("active");
            reveal_strlit("inactive");
            assert("active"@.len() == 6);
            assert("inactive"@.len() == 8);
        }
    }

    /// Removes the year with this id, unless a class still references
    /// it.
    #[verifier::loop_isolation(false)]
    pub fn delete_academic_year(&mut self, id: i64, classes: &crate::class::ClassTable) -> (r:
        Result<(), AcademicYearError>)
        requires
            old(self).wf(),
        ensures
            final(self).wf(),
            r is Ok <==> !year_referenced(classes.rows@, id),
            r is Err ==> *final(self) == *old(self) && r == Err::<(), AcademicYearError>(
                AcademicYearError::Referenced,
            ),
            r is Ok ==> final(self).rows@ =~= old(self).rows@.filter(
                |y: AcademicYear| y.id != Some(id),
            ) && final(self).next_id == old(self).next_id,
    {
        let m = classes.rows.len();
        let mut c: usize = 0;
        while c < m
            invariant
                c <= m,
                self == old(self),
                forall|k: int| 0 <= k < c ==> (#[trigger] classes.rows@[k]).academic_years != id,
            decreases m - c,
        {
            if classes.rows[c].academic_years == id {
                return Err(AcademicYearError::Referenced);
            }
            c = c + 1;
        }
        let n = self.rows.len();
        let mut kept: Vec<AcademicYear> = Vec::new();
        let mut i: usize = 0;
        while i < n
            invariant
                i <= n,
                self == old(self),
                kept@ =~= old(self).rows@.subrange(0, i as int).filter(
                    |y: AcademicYear| y.id != Some(id),
                ),
                forall|k: int|
                    0 <= k < kept@.len() ==> exists|w: int|
                        0 <= w < i && #[trigger] kept@[k] == old(self).rows@[w],
                forall|k1: int, k2: int|
                    #![trigger kept@[k1].id, kept@[k2].id]
                    0 <= k1 < k2 < kept@.len() ==> kept@[k1].id->0 != kept@[k2].id->0,
                forall|k1: int, k2: int|
                    #![trigger kept@[k1].academic_year, kept@[k2].academic_year]
                    0 <= k1 < k2 < kept@.len() ==> kept@[k1].academic_year@
                        != kept@[k2].academic_year@,
                forall|k1: int, k2: int|
                    #![trigger kept@[k1].status, kept@[k2].status]
                    0 <= k1 < k2 < kept@.len() ==> !(is_active(kept@[k1]) && is_active(
                        kept@[k2],
                    )),
            decreases n - i,
        {
            proof {
                assert(old(self).rows@.subrange(0, i + 1).drop_last() =~= old(
                    self,
                ).rows@.subrange(0, i as int));
                assert(old(self).rows@.subrange(0, i + 1).last() == old(self).rows@[i as int]);
                reveal_with_fuel(Seq::filter, 2);
            }
            if !util::opt_i64_is(&self.rows[i].id, id) {
                proof {
                    assert forall|k: int|
                        0 <= k < kept@.len() implies ((#[trigger] kept@[k]).id->0 != old(
                        self,
                    ).rows@[i as int].id->0 && kept@[k].academic_year@ != old(
                        self,
                    ).rows@[i as int].academic_year@ && !(is_active(kept@[k]) && is_active(
                        old(self).rows@[i as int],
                    ))) by {
                        let w = choose|w: int|
                            0 <= w < i && #[trigger] kept@[k] == old(self).rows@[w];
                    }
                }
                kept.push(self.rows[i].clone());
            }
            i = i + 1;
        }
        proof {
            assert(old(self).rows@.subrange(0, n as int) =~= old(self).rows@);
        }
        self.rows = kept;
        Ok(())
    }
}

} // verus!
