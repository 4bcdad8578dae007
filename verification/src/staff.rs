//! The staff store.
//!
//! One row per staff member, keyed by a generated integer id; the status
//! defaults to "active" on creation and on update.

use vstd::prelude::*;
use vstd::string::*;

use crate::util;

verus! {

/// One row of the staff table.
#[derive(Debug, PartialEq)]
pub struct Staff {
    pub id: Option<i64>,
    pub name: String,
    pub gender: String,
    pub dob: String,
    pub phone: String,
    pub alt_phone: Option<String>,
    pub email: String,
    pub qualification: String,
    pub designation: String,
    pub department: String,
    pub joining_date: String,
    pub employment_type: String,
    pub photo_url: Option<String>,
    pub status: Option<String>,
    pub created_at: Option<String>,
}

impl Clone for Staff {
    fn clone(&self) -> (r: Self)
        ensures
            r == *self,
    {
        Staff {
            id: self.id,
            name: self.name.clone(),
            gender: self.gender.clone(),
            dob: self.dob.clone(),
            phone: self.phone.clone(),
            alt_phone: util::clone_opt_string(&self.alt_phone),
            email: self.email.clone(),
            qualification: self.qualification.clone(),
            designation: self.designation.clone(),
            department: self.department.clone(),
            joining_date: self.joining_date.clone(),
            employment_type: self.employment_type.clone(),
            photo_url: util::clone_opt_string(&self.photo_url),
            status: util::clone_opt_string(&self.status),
            created_at: util::clone_opt_string(&self.created_at),
        }
    }
}

/// Why a staff operation was refused.
#[derive(Debug, PartialEq)]
pub enum StaffError {
    /// No row carries the requested id.
    NotFound,
}

impl StaffError {
    /// The message the caller shows for this error.
    pub fn message(&self) -> (r: String)
        ensures
            r@ == "Query returned no rows"@,
    {
        String::from_str("Query returned no rows")
    }
}

/// Whether some row carries this id.
pub open spec fn has_staff_id(rows: Seq<Staff>, id: i64) -> bool {
    exists|i: int| 0 <= i < rows.len() && (#[trigger] rows[i]).id == Some(id)
}

/// How a stored row relates to the record handed in at creation: the id
/// and creation stamp are the store's, the status defaults to "active",
/// and every other field is kept.
pub open spec fn stored_staff(row: Staff, given: Staff, id: i64, now: String) -> bool {
    &&& row.id == Some(id)
    &&& row.name == given.name
    &&& row.gender == given.gender
    &&& row.dob == given.dob
    &&& row.phone == given.phone
    &&& row.alt_phone == given.alt_phone
    &&& row.email == given.email
    &&& row.qualification == given.qualification
    &&& row.designation == given.designation
    &&& row.department == given.department
    &&& row.joining_date == given.joining_date
    &&& row.employment_type == given.employment_type
    &&& row.photo_url == given.photo_url
    &&& (given.status is Some ==> row.status == given.status)
    &&& (given.status is None ==> (row.status matches Some(st) && st@ == "active"@))
    &&& row.created_at == Some(now)
}

/// Same for an update: id and creation stamp of the stored row are kept.
pub open spec fn updated_staff(row: Staff, before: Staff, given: Staff) -> bool {
    &&& row.id == before.id
    &&& row.name == given.name
    &&& row.gender == given.gender
    &&& row.dob == given.dob
    &&& row.phone == given.phone
    &&& row.alt_phone == given.alt_phone
    &&& row.email == given.email
    &&& row.qualification == given.qualification
    &&& row.designation == given.designation
    &&& row.department == given.department
    &&& row.joining_date == given.joining_date
    &&& row.employment_type == given.employment_type
    &&& row.photo_url == given.photo_url
    &&& (given.status is Some ==> row.status == given.status)
    &&& (given.status is None ==> (row.status matches Some(st) && st@ == "active"@))
    &&& row.created_at == before.created_at
}

/// The staff table: rows plus the next id the store will hand out.
pub struct StaffTable {
    pub rows: Vec<Staff>,
    pub next_id: i64,
}

impl StaffTable {
    /// Every id is assigned, below `next_id` and unique.
    pub open spec fn wf(self) -> bool {
        &&& 1 <= self.next_id
        &&& forall|i: int| 0 <= i < self.rows@.len() ==> (#[trigger] self.rows@[i]).id is Some
        &&& forall|i: int|
            0 <= i < self.rows@.len() ==> 1 <= (#[trigger] self.rows@[i]).id->0 < self.next_id
        &&& forall|i: int, j: int|
            #![trigger self.rows@[i].id, self.rows@[j].id]
            0 <= i < j < self.rows@.len() ==> self.rows@[i].id->0 != self.rows@[j].id->0
    }

    /// An empty table.
    pub fn new() -> (r: Self)
        ensures
            r.wf(),
            r.rows@ =~= Seq::<Staff>::empty(),
            r.next_id == 1,
    {
        StaffTable { rows: Vec::new(), next_id: 1 }
    }

    /// Appends a staff row and returns its id; the given id and
    /// creation stamp are ignored.
    pub fn create_staff(&mut self, staff: Staff, now: String) -> (id: i64)
        requires
            old(self).wf(),
            old(self).next_id < i64::MAX,
        ensures
            final(self).wf(),
            id == old(self).next_id,
            final(self).next_id == old(self).next_id + 1,
            final(self).rows@.len() == old(self).rows@.len() + 1,
            forall|i: int|
                0 <= i < old(self).rows@.len() ==> #[trigger] final(self).rows@[i] == old(
                    self,
                ).rows@[i],
            stored_staff(final(self).rows@.last(), staff, id, now),
    {
        let id = self.next_id;
        self.next_id = self.next_id + 1;
        let status = match staff.status {
            Some(s) => s,
            None => String::from_str("active"),
        };
        self.rows.push(
            Staff {
                id: Some(id),
                name: staff.name,
                gender: staff.gender,
                dob: staff.dob,
                phone: staff.phone,
                alt_phone: staff.alt_phone,
                email: staff.email,
                qualification: staff.qualification,
                designation: staff.designation,
                department: staff.department,
                joining_date: staff.joining_date,
                employment_type: staff.employment_type,
                photo_url: staff.photo_url,
                status: Some(status),
                created_at: Some(now),
            },
        );
        id
    }

    /// The row with this id.
    pub fn get_staff(&self, id: i64) -> (r: Result<Staff, StaffError>)
        ensures
            r is Ok <==> has_staff_id(self.rows@, id),
            r matches Ok(s) ==> exists|i: int|
                0 <= i < self.rows@.len() && #[trigger] self.rows@[i] == s && s.id == Some(id),
            r is Err ==> r == Err::<Staff, StaffError>(StaffError::NotFound),
    {
        let n = self.rows.len();
        let mut i: usize = 0;
        while i < n
            invariant
                i <= n,
                n == self.rows@.len(),
                forall|k: int| 0 <= k < i ==> (#[trigger] self.rows@[k]).id != Some(id),
            decreases n - i,
        {
            if util::opt_i64_is(&self.rows[i].id, id) {
                return Ok(self.rows[i].clone());
            }
            i = i + 1;
        }
        Err(StaffError::NotFound)
    }

    /// All staff rows, newest first.
    pub fn get_all_staffs(&self) -> (r: Vec<Staff>)
        ensures
            r@.len() == self.rows@.len(),
            forall|i: int|
                0 <= i < r@.len() ==> #[trigger] r@[i] == self.rows@[self.rows@.len() - 1 - i],
    {
        let mut r: Vec<Staff> = Vec::new();
        let n = self.rows.len();
        let mut i: usize = 0;
        while i < n
            invariant
                i <= n,
                n == self.rows@.len(),
                r@.len() == i,
                forall|k: int|
                    0 <= k < i ==> #[trigger] r@[k] == self.rows@[self.rows@.len() - 1 - k],
            decreases n - i,
        {
            r.push(self.rows[n - 1 - i].clone());
            i = i + 1;
        }
        r
    }

    /// Rewrites the row with this id from the given record, keeping its
    /// id and creation stamp; rows with other ids stay, and a missing
    /// id changes nothing.
    #[verifier::loop_isolation(false)]
    pub fn update_staff(&mut self, id: i64, staff: Staff)
        requires
            old(self).wf(),
        ensures
            final(self).wf(),
            final(self).rows@.len() == old(self).rows@.len(),
            final(self).next_id == old(self).next_id,
            forall|i: int|
                0 <= i < old(self).rows@.len() && old(self).rows@[i].id != Some(id)
                    ==> #[trigger] final(self).rows@[i] == old(self).rows@[i],
            forall|i: int|
                0 <= i < old(self).rows@.len() && old(self).rows@[i].id == Some(id)
                    ==> updated_staff(#[trigger] final(self).rows@[i], old(self).rows@[i], staff),
    {
        let n = self.rows.len();
        let mut i: usize = 0;
        while i < n
            invariant
                i <= n,
                self == old(self),
                forall|k: int| 0 <= k < i ==> (#[trigger] self.rows@[k]).id != Some(id),
            decreases n - i,
        {
            if util::opt_i64_is(&self.rows[i].id, id) {
                let status = match staff.status {
                    Some(s) => s,
                    None => String::from_str("active"),
                };
                let created = util::clone_opt_string(&self.rows[i].created_at);
                self.rows[i] = Staff {
                    id: Some(id),
                    name: staff.name,
                    gender: staff.gender,
                    dob: staff.dob,
                    phone: staff.phone,
                    alt_phone: staff.alt_phone,
                    email: staff.email,
                    qualification: staff.qualification,
                    designation: staff.designation,
                    department: staff.department,
                    joining_date: staff.joining_date,
                    employment_type: staff.employment_type,
                    photo_url: staff.photo_url,
                    status: Some(status),
                    created_at: created,
                };
                return ;
            }
            i = i + 1;
        }
    }

    /// Removes the row with this id, if any.
    #[verifier::loop_isolation(false)]
    pub fn delete_staff(&mut self, id: i64)
        requires
            old(self).wf(),
        ensures
            final(self).wf(),
            final(self).rows@ =~= old(self).rows@.filter(|s: Staff| s.id != Some(id)),
            final(self).next_id == old(self).next_id,
    {
        let n = self.rows.len();
        let mut kept: Vec<Staff> = Vec::new();
        let mut i: usize = 0;
        while i < n
            invariant
                i <= n,
                self == old(self),
                kept@ =~= old(self).rows@.subrange(0, i as int).filter(
                    |s: Staff| s.id != Some(id),
                ),
                forall|k: int|
                    0 <= k < kept@.len() ==> exists|w: int|
                        0 <= w < i && #[trigger] kept@[k] == old(self).rows@[w],
                forall|k1: int, k2: int|
                    #![trigger kept@[k1].id, kept@[k2].id]
                    0 <= k1 < k2 < kept@.len() ==> kept@[k1].id->0 != kept@[k2].id->0,
            decreases n - i,
        {
            proof {
                assert(old(self).rows@.subrange(0, i + 1).drop_last() =~= old(
                    self,
                ).rows@.subrange(0, i as int));
                assert(old(self).rows@.subrange(0, i + 1).last() == old(self).rows@[i as int]);
                reveal_with_fuel(Seq::filter, 2);
            }
            if !util::opt_i64_is(&self.rows[i].id, id) {
                proof {
                    assert forall|k: int| 0 <= k < kept@.len() implies (#[trigger] kept@[k]).id->0
                        != old(self).rows@[i as int].id->0 by {
                        let w = choose|w: int|
                            0 <= w < i && #[trigger] kept@[k] == old(self).rows@[w];
                    }
                }
                kept.push(self.rows[i].clone());
            }
            i = i + 1;
        }
        proof {
            assert(old(self).rows@.subrange(0, n as int) =~= old(self).rows@);
        }
        self.rows = kept;
    }
}

} // verus!
