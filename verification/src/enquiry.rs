//! The enquiries store.
//!
//! An enquiry owns its notes and follow-ups: they reference it by id,
//! can only be added while it exists, and are removed with it.

use vstd::prelude::*;
use vstd::string::*;

use crate::util;

verus! {

/// One row of the enquiries table.
#[derive(Debug, PartialEq)]
pub struct Enquiry {
    pub id: Option<i64>,
    pub student_name: String,
    pub parent_name: String,
    pub phone: String,
    pub email: Option<String>,
    pub source: String,
    pub status: Option<String>,
    pub created_at: Option<String>,
}

impl Clone for Enquiry {
    fn clone(&self) -> (r: Self)
        ensures
            r == *self,
    {
        Enquiry {
            id: self.id,
            student_name: self.student_name.clone(),
            parent_name: self.parent_name.clone(),
            phone: self.phone.clone(),
            email: util::clone_opt_string(&self.email),
            source: self.source.clone(),
            status: util::clone_opt_string(&self.status),
            created_at: util::clone_opt_string(&self.created_at),
        }
    }
}

/// One note attached to an enquiry.
#[derive(Debug, PartialEq)]
pub struct Note {
    pub id: Option<i64>,
    pub enquiry_id: i64,
    pub notes: String,
    pub created_at: Option<String>,
}

impl Clone for Note {
    fn clone(&self) -> (r: Self)
        ensures
            r == *self,
    {
        Note {
            id: self.id,
            enquiry_id: self.enquiry_id,
            notes: self.notes.clone(),
            created_at: util::clone_opt_string(&self.created_at),
        }
    }
}

/// One follow-up attached to an enquiry.
#[derive(Debug, PartialEq)]
pub struct FollowUp {
    pub id: Option<i64>,
    pub enquiry_id: i64,
    pub notes: String,
    pub status: String,
    pub created_at: String,
    pub follow_up_date: Option<String>,
}

impl Clone for FollowUp {
    fn clone(&self) -> (r: Self)
        ensures
            r == *self,
    {
        FollowUp {
            id: self.id,
            enquiry_id: self.enquiry_id,
            notes: self.notes.clone(),
            status: self.status.clone(),
            created_at: self.created_at.clone(),
            follow_up_date: util::clone_opt_string(&self.follow_up_date),
        }
    }
}

/// Why an enquiry operation was refused.
#[derive(Debug, PartialEq)]
pub enum EnquiryError {
    /// No enquiry carries the requested id.
    NotFound,
    /// A note or follow-up would reference an enquiry that is not
    /// there.
    ForeignKey,
}

impl EnquiryError {
    /// The message the caller shows for this error.
    pub fn message(&self) -> (r: String)
        ensures
            self is NotFound ==> r@ == "Query returned no rows"@,
            self is ForeignKey ==> r@ == "FOREIGN KEY constraint failed"@,
    {
        match self {
            EnquiryError::NotFound => String::from_str("Query returned no rows"),
            EnquiryError::ForeignKey => String::from_str("FOREIGN KEY constraint failed"),
        }
    }
}

/// Whether some enquiry carries this id.
pub open spec fn has_enquiry_id(rows: Seq<Enquiry>, id: i64) -> bool {
    exists|i: int| 0 <= i < rows.len() && (#[trigger] rows[i]).id == Some(id)
}

/// How a stored enquiry relates to the record handed in at creation:
/// the id and creation stamp are the store's, the status defaults to
/// "new", and every other field is kept.
pub open spec fn stored_enquiry(row: Enquiry, given: Enquiry, id: i64, now: String) -> bool {
    &&& row.id == Some(id)
    &&& row.student_name == given.student_name
    &&& row.parent_name == given.parent_name
    &&& row.phone == given.phone
    &&& row.email == given.email
    &&& row.source == given.source
    &&& (given.status is Some ==> row.status == given.status)
    &&& (given.status is None ==> (row.status matches Some(st) && st@ == "new"@))
    &&& row.created_at == Some(now)
}

/// Same for an update: id and creation stamp are kept, the status is
/// stored as given.
pub open spec fn updated_enquiry(row: Enquiry, before: Enquiry, given: Enquiry) -> bool {
    &&& row.id == before.id
    &&& row.student_name == given.student_name
    &&& row.parent_name == given.parent_name
    &&& row.phone == given.phone
    &&& row.email == given.email
    &&& row.source == given.source
    &&& row.status == given.status
    &&& row.created_at == before.created_at
}

/// The enquiries store: enquiries with their notes and follow-ups, and
/// one id counter per table.
pub struct EnquiryTable {
    pub enquiries: Vec<Enquiry>,
    pub notes: Vec<Note>,
    pub followups: Vec<FollowUp>,
    pub next_enquiry_id: i64,
    pub next_note_id: i64,
    pub next_followup_id: i64,
}

impl EnquiryTable {
    /// Every id in each of the three tables is assigned, below its
    /// counter and unique.
    pub open spec fn wf(self) -> bool {
        &&& 1 <= self.next_enquiry_id
        &&& 1 <= self.next_note_id
        &&& 1 <= self.next_followup_id
        &&& forall|i: int|
            0 <= i < self.enquiries@.len() ==> ((#[trigger] self.enquiries@[i]).id is Some && 1
                <= self.enquiries@[i].id->0 < self.next_enquiry_id)
        &&& forall|i: int, j: int|
            #![trigger self.enquiries@[i].id, self.enquiries@[j].id]
            0 <= i < j < self.enquiries@.len() ==> self.enquiries@[i].id->0
                != self.enquiries@[j].id->0
        &&& forall|i: int|
            0 <= i < self.notes@.len() ==> ((#[trigger] self.notes@[i]).id is Some && 1
                <= self.notes@[i].id->0 < self.next_note_id)
        &&& forall|i: int, j: int|
            #![trigger self.notes@[i].id, self.notes@[j].id]
            0 <= i < j < self.notes@.len() ==> self.notes@[i].id->0 != self.notes@[j].id->0
        &&& forall|i: int|
            0 <= i < self.followups@.len() ==> ((#[trigger] self.followups@[i]).id is Some && 1
                <= self.followups@[i].id->0 < self.next_followup_id)
        &&& forall|i: int, j: int|
            #![trigger self.followups@[i].id, self.followups@[j].id]
            0 <= i < j < self.followups@.len() ==> self.followups@[i].id->0
                != self.followups@[j].id->0
    }

    /// An empty store.
    pub fn new() -> (r: Self)
        ensures
            r.wf(),
            r.enquiries@ =~= Seq::<Enquiry>::empty(),
            r.notes@ =~= Seq::<Note>::empty(),
            r.followups@ =~= Seq::<FollowUp>::empty(),
            r.next_enquiry_id == 1,
            r.next_note_id == 1,
            r.next_followup_id == 1,
    {
        EnquiryTable {
            enquiries: Vec::new(),
            notes: Vec::new(),
            followups: Vec::new(),
            next_enquiry_id: 1,
            next_note_id: 1,
            next_followup_id: 1,
        }
    }

    /// Appends an enquiry and returns its id; the given id and creation
    /// stamp are ignored.
    pub fn create_enquiry(&mut self, enquiry: Enquiry, now: String) -> (id: i64)
        requires
            old(self).wf(),
            old(self).next_enquiry_id < i64::MAX,
        ensures
            final(self).wf(),
            id == old(self).next_enquiry_id,
            final(self).next_enquiry_id == old(self).next_enquiry_id + 1,
            final(self).enquiries@.len() == old(self).enquiries@.len() + 1,
            forall|i: int|
                0 <= i < old(self).enquiries@.len() ==> #[trigger] final(self).enquiries@[i]
                    == old(self).enquiries@[i],
            stored_enquiry(final(self).enquiries@.last(), enquiry, id, now),
            final(self).notes == old(self).notes,
            final(self).followups == old(self).followups,
            final(self).next_note_id == old(self).next_note_id,
            final(self).next_followup_id == old(self).next_followup_id,
    {
        let id = self.next_enquiry_id;
        self.next_enquiry_id = self.next_enquiry_id + 1;
        let status = match enquiry.status {
            Some(s) => s,
            None => String::from_str("new"),
        };
        self.enquiries.push(
            Enquiry {
                id: Some(id),
                student_name: enquiry.student_name,
                parent_name: enquiry.parent_name,
                phone: enquiry.phone,
                email: enquiry.email,
                source: enquiry.source,
                status: Some(status),
                created_at: Some(now),
            },
        );
        id
    }

    /// The enquiry with this id.
    pub fn get_enquiry(&self, id: i64) -> (r: Result<Enquiry, EnquiryError>)
        ensures
            r is Ok <==> has_enquiry_id(self.enquiries@, id),
            r matches Ok(e) ==> exists|i: int|
                0 <= i < self.enquiries@.len() && #[trigger] self.enquiries@[i] == e && e.id
                    == Some(id),
            r is Err ==> r == Err::<Enquiry, EnquiryError>(EnquiryError::NotFound),
    {
        let n = self.enquiries.len();
        let mut i: usize = 0;
        while i < n
            invariant
                i <= n,
                n == self.enquiries@.len(),
                forall|k: int| 0 <= k < i ==> (#[trigger] self.enquiries@[k]).id != Some(id),
            decreases n - i,
        {
            if util::opt_i64_is(&self.enquiries[i].id, id) {
                return Ok(self.enquiries[i].clone());
            }
            i = i + 1;
        }
        Err(EnquiryError::NotFound)
    }

    /// All enquiries, newest first.
    pub fn get_all_enquiries(&self) -> (r: Vec<Enquiry>)
        ensures
            r@.len() == self.enquiries@.len(),
            forall|i: int|
                0 <= i < r@.len() ==> #[trigger] r@[i] == self.enquiries@[self.enquiries@.len() - 1
                    - i],
    {
        let mut r: Vec<Enquiry> = Vec::new();
        let n = self.enquiries.len();
        let mut i: usize = 0;
        while i < n
            invariant
                i <= n,
                n == self.enquiries@.len(),
                r@.len() == i,
                forall|k: int|
                    0 <= k < i ==> #[trigger] r@[k] == self.enquiries@[self.enquiries@.len() - 1
                        - k],
            decreases n - i,
        {
            r.push(self.enquiries[n - 1 - i].clone());
            i = i + 1;
        }
        r
    }

    /// Rewrites the enquiry with this id from the given record, keeping
    /// its id and creation stamp; a missing id changes nothing.
    #[verifier::loop_isolation(false)]
    pub fn update_enquiry(&mut self, id: i64, enquiry: Enquiry)
        requires
            old(self).wf(),
        ensures
            final(self).wf(),
            final(self).enquiries@.len() == old(self).enquiries@.len(),
            forall|i: int|
                0 <= i < old(self).enquiries@.len() && old(self).enquiries@[i].id != Some(id)
                    ==> #[trigger] final(self).enquiries@[i] == old(self).enquiries@[i],
            forall|i: int|
                0 <= i < old(self).enquiries@.len() && old(self).enquiries@[i].id == Some(id)
                    ==> updated_enquiry(
                    #[trigger] final(self).enquiries@[i],
                    old(self).enquiries@[i],
                    enquiry,
                ),
            final(self).notes == old(self).notes,
            final(self).followups == old(self).followups,
            final(self).next_enquiry_id == old(self).next_enquiry_id,
            final(self).next_note_id == old(self).next_note_id,
            final(self).next_followup_id == old(self).next_followup_id,
    {
        let n = self.enquiries.len();
        let mut i: usize = 0;
        while i < n
            invariant
                i <= n,
                self == old(self),
                forall|k: int| 0 <= k < i ==> (#[trigger] self.enquiries@[k]).id != Some(id),
            decreases n - i,
        {
            if util::opt_i64_is(&self.enquiries[i].id, id) {
                let created = util::clone_opt_string(&self.enquiries[i].created_at);
                self.enquiries[i] = Enquiry {
                    id: Some(id),
                    student_name: enquiry.student_name,
                    parent_name: enquiry.parent_name,
                    phone: enquiry.phone,
                    email: enquiry.email,
                    source: enquiry.source,
                    status: enquiry.status,
                    created_at: created,
                };
                return ;
            }
            i = i + 1;
        }
    }

    /// Sets the status of the enquiry with this id; a missing id
    /// changes nothing.
    #[verifier::loop_isolation(false)]
    pub fn update_enquiry_status(&mut self, id: i64, status: String)
        requires
            old(self).wf(),
        ensures
            final(self).wf(),
            final(self).enquiries@.len() == old(self).enquiries@.len(),
            forall|i: int|
                0 <= i < old(self).enquiries@.len() && old(self).enquiries@[i].id != Some(id)
                    ==> #[trigger] final(self).enquiries@[i] == old(self).enquiries@[i],
            forall|i: int|
                0 <= i < old(self).enquiries@.len() && old(self).enquiries@[i].id == Some(id)
                    ==> #[trigger] final(self).enquiries@[i] == (Enquiry {
                    status: Some(status),
                    ..old(self).enquiries@[i]
                }),
            final(self).notes == old(self).notes,
            final(self).followups == old(self).followups,
            final(self).next_enquiry_id == old(self).next_enquiry_id,
            final(self).next_note_id == old(self).next_note_id,
            final(self).next_followup_id == old(self).next_followup_id,
    {
        let n = self.enquiries.len();
        let mut i: usize = 0;
        while i < n
            invariant
                i <= n,
                self == old(self),
                forall|k: int| 0 <= k < i ==> (#[trigger] self.enquiries@[k]).id != Some(id),
            decreases n - i,
        {
            if util::opt_i64_is(&self.enquiries[i].id, id) {
                self.enquiries[i].status = Some(status);
                return ;
            }
            i = i + 1;
        }
    }

    /// Removes the enquiry with this id together with its notes and
    /// follow-ups.
    #[verifier::loop_isolation(false)]
    pub fn delete_enquiry(&mut self, id: i64)
        requires
            old(self).wf(),
        ensures
            final(self).wf(),
            final(self).enquiries@ =~= old(self).enquiries@.filter(
                |e: Enquiry| e.id != Some(id),
            ),
            final(self).notes@ =~= old(self).notes@.filter(|x: Note| x.enquiry_id != id),
            final(self).followups@ =~= old(self).followups@.filter(
                |f: FollowUp| f.enquiry_id != id,
            ),
            final(self).next_enquiry_id == old(self).next_enquiry_id,
            final(self).next_note_id == old(self).next_note_id,
            final(self).next_followup_id == old(self).next_followup_id,
    {
        let n = self.enquiries.len();
        let mut kept: Vec<Enquiry> = Vec::new();
        let mut i: usize = 0;
        while i < n
            invariant
                i <= n,
                self == old(self),
                kept@ =~= old(self).enquiries@.subrange(0, i as int).filter(
                    |e: Enquiry| e.id != Some(id),
                ),
                forall|k: int|
                    0 <= k < kept@.len() ==> exists|w: int|
                        0 <= w < i && #[trigger] kept@[k] == old(self).enquiries@[w],
                forall|k1: int, k2: int|
                    #![trigger kept@[k1].id, kept@[k2].id]
                    0 <= k1 < k2 < kept@.len() ==> kept@[k1].id->0 != kept@[k2].id->0,
            decreases n - i,
        {
            proof {
                assert(old(self).enquiries@.subrange(0, i + 1).drop_last() =~= old(
                    self,
                ).enquiries@.subrange(0, i as int));
                assert(old(self).enquiries@.subrange(0, i + 1).last() == old(
                    self,
                ).enquiries@[i as int]);
                reveal_with_fuel(Seq::filter, 2);
            }
            if !util::opt_i64_is(&self.enquiries[i].id, id) {
                proof {
                    assert forall|k: int| 0 <= k < kept@.len() implies (#[trigger] kept@[k]).id->0
                        != old(self).enquiries@[i as int].id->0 by {
                        let w = choose|w: int|
                            0 <= w < i && #[trigger] kept@[k] == old(self).enquiries@[w];
                    }
                }
                kept.push(self.enquiries[i].clone());
            }
            i = i + 1;
        }
        proof {
            assert(old(self).enquiries@.subrange(0, n as int) =~= old(self).enquiries@);
        }
        self.enquiries = kept;
        let m = self.notes.len();
        let mut kept_notes: Vec<Note> = Vec::new();
        let mut j: usize = 0;
        while j < m
            invariant
                j <= m,
                self.notes == old(self).notes,
                self.followups == old(self).followups,
                kept_notes@ =~= old(self).notes@.subrange(0, j as int).filter(
                    |x: Note| x.enquiry_id != id,
                ),
                forall|k: int|
                    0 <= k < kept_notes@.len() ==> exists|w: int|
                        0 <= w < j && #[trigger] kept_notes@[k] == old(self).notes@[w],
                forall|k1: int, k2: int|
                    #![trigger kept_notes@[k1].id, kept_notes@[k2].id]
                    0 <= k1 < k2 < kept_notes@.len() ==> kept_notes@[k1].id->0
                        != kept_notes@[k2].id->0,
            decreases m - j,
        {
            proof {
                assert(old(self).notes@.subrange(0, j + 1).drop_last() =~= old(
                    self,
                ).notes@.subrange(0, j as int));
                assert(old(self).notes@.subrange(0, j + 1).last() == old(self).notes@[j as int]);
                reveal_with_fuel(Seq::filter, 2);
            }
            if !(self.notes[j].enquiry_id == id) {
                proof {
                    assert forall|k: int|
                        0 <= k < kept_notes@.len() implies (#[trigger] kept_notes@[k]).id->0 != old(
                        self,
                    ).notes@[j as int].id->0 by {
                        let w = choose|w: int|
                            0 <= w < j && #[trigger] kept_notes@[k] == old(self).notes@[w];
                    }
                }
                kept_notes.push(self.notes[j].clone());
            }
            j = j + 1;
        }
        proof {
            assert(old(self).notes@.subrange(0, m as int) =~= old(self).notes@);
        }
        self.notes = kept_notes;
        let p = self.followups.len();
        let mut kept_fups: Vec<FollowUp> = Vec::new();
        let mut q: usize = 0;
        while q < p
            invariant
                q <= p,
                self.followups == old(self).followups,
                kept_fups@ =~= old(self).followups@.subrange(0, q as int).filter(
                    |f: FollowUp| f.enquiry_id != id,
                ),
                forall|k: int|
                    0 <= k < kept_fups@.len() ==> exists|w: int|
                        0 <= w < q && #[trigger] kept_fups@[k] == old(self).followups@[w],
                forall|k1: int, k2: int|
                    #![trigger kept_fups@[k1].id, kept_fups@[k2].id]
                    0 <= k1 < k2 < kept_fups@.len() ==> kept_fups@[k1].id->0
                        != kept_fups@[k2].id->0,
            decreases p - q,
        {
            proof {
                assert(old(self).followups@.subrange(0, q + 1).drop_last() =~= old(
                    self,
                ).followups@.subrange(0, q as int));
                assert(old(self).followups@.subrange(0, q + 1).last() == old(
                    self,
                ).followups@[q as int]);
                reveal_with_fuel(Seq::filter, 2);
            }
            if !(self.followups[q].enquiry_id == id) {
                proof {
                    assert forall|k: int|
                        0 <= k < kept_fups@.len() implies (#[trigger] kept_fups@[k]).id->0 != old(
                        self,
                    ).followups@[q as int].id->0 by {
                        let w = choose|w: int|
                            0 <= w < q && #[trigger] kept_fups@[k] == old(self).followups@[w];
                    }
                }
                kept_fups.push(self.followups[q].clone());
            }
            q = q + 1;
        }
        proof {
            assert(old(self).followups@.subrange(0, p as int) =~= old(self).followups@);
        }
        self.followups = kept_fups;
    }

    /// Appends a follow-up for an existing enquiry and returns its id;
    /// the given id and creation stamp are ignored.
    pub fn add_enquiry_follow_up(&mut self, follow_up: FollowUp, now: String) -> (r: Result<
        i64,
        EnquiryError,
    >)
        requires
            old(self).wf(),
            old(self).next_followup_id < i64::MAX,
        ensures
            final(self).wf(),
            r is Ok <==> has_enquiry_id(old(self).enquiries@, follow_up.enquiry_id),
            r is Err ==> *final(self) == *old(self) && r == Err::<i64, EnquiryError>(
                EnquiryError::ForeignKey,
            ),
            r matches Ok(id) ==> {
                &&& id == old(self).next_followup_id
                &&& final(self).next_followup_id == old(self).next_followup_id + 1
                &&& final(self).followups@ =~= old(self).followups@.push(
                    FollowUp { id: Some(id), created_at: now, ..follow_up },
                )
                &&& final(self).enquiries == old(self).enquiries
                &&& final(self).notes == old(self).notes
                &&& final(self).next_enquiry_id == old(self).next_enquiry_id
                &&& final(self).next_note_id == old(self).next_note_id
            },
    {
        if !self.has_enquiry(follow_up.enquiry_id) {
            return Err(EnquiryError::ForeignKey);
        }
        let id = self.next_followup_id;
        self.next_followup_id = self.next_followup_id + 1;
        self.followups.push(
            FollowUp {
                id: Some(id),
                enquiry_id: follow_up.enquiry_id,
                notes: follow_up.notes,
                status: follow_up.status,
                created_at: now,
                follow_up_date: follow_up.follow_up_date,
            },
        );
        Ok(id)
    }

    /// The follow-ups of this enquiry, newest first.
    #[verifier::loop_isolation(false)]
    pub fn get_enquiry_follow_ups(&self, enquiry_id: i64) -> (r: Vec<FollowUp>)
        ensures
            r@.len() == self.followups@.filter(|f: FollowUp| f.enquiry_id == enquiry_id).len(),
            forall|i: int|
                0 <= i < r@.len() ==> #[trigger] r@[i] == self.followups@.filter(
                    |f: FollowUp| f.enquiry_id == enquiry_id,
                )[r@.len() - 1 - i],
    {
        let n = self.followups.len();
        let mut picked: Vec<FollowUp> = Vec::new();
        let mut i: usize = 0;
        while i < n
            invariant
                i <= n,
                picked@ =~= self.followups@.subrange(0, i as int).filter(
                    |f: FollowUp| f.enquiry_id == enquiry_id,
                ),
            decreases n - i,
        {
            proof {
                assert(self.followups@.subrange(0, i + 1).drop_last() =~= self.followups@.subrange(
                    0,
                    i as int,
                ));
                assert(self.followups@.subrange(0, i + 1).last() == self.followups@[i as int]);
                reveal_with_fuel(Seq::filter, 2);
            }
            if self.followups[i].enquiry_id == enquiry_id {
                picked.push(self.followups[i].clone());
            }
            i = i + 1;
        }
        proof {
            assert(self.followups@.subrange(0, n as int) =~= self.followups@);
        }
        let ghost flt = self.followups@.filter(|f: FollowUp| f.enquiry_id == enquiry_id);
        let mut r: Vec<FollowUp> = Vec::new();
        let mut tmp = picked;
        loop
            invariant
                tmp@ =~= flt.subrange(0, tmp@.len() as int),
                r@.len() + tmp@.len() == flt.len(),
                forall|k: int| 0 <= k < r@.len() ==> #[trigger] r@[k] == flt[flt.len() - 1 - k],
            decreases tmp@.len(),
        {
            match tmp.pop() {
                Some(f) => {
                    r.push(f);
                },
                None => {
                    break ;
                },
            }
        }
        r
    }

    /// Appends a note for an existing enquiry and returns its id; the
    /// given id and creation stamp are ignored.
    pub fn create_note(&mut self, note: Note, now: String) -> (r: Result<i64, EnquiryError>)
        requires
            old(self).wf(),
            old(self).next_note_id < i64::MAX,
        ensures
            final(self).wf(),
            r is Ok <==> has_enquiry_id(old(self).enquiries@, note.enquiry_id),
            r is Err ==> *final(self) == *old(self) && r == Err::<i64, EnquiryError>(
                EnquiryError::ForeignKey,
            ),
            r matches Ok(id) ==> {
                &&& id == old(self).next_note_id
                &&& final(self).next_note_id == old(self).next_note_id + 1
                &&& final(self).notes@ =~= old(self).notes@.push(
                    Note { id: Some(id), created_at: Some(now), ..note },
                )
                &&& final(self).enquiries == old(self).enquiries
                &&& final(self).followups == old(self).followups
                &&& final(self).next_enquiry_id == old(self).next_enquiry_id
                &&& final(self).next_followup_id == old(self).next_followup_id
            },
    {
        if !self.has_enquiry(note.enquiry_id) {
            return Err(EnquiryError::ForeignKey);
        }
        let id = self.next_note_id;
        self.next_note_id = self.next_note_id + 1;
        self.notes.push(
            Note {
                id: Some(id),
                enquiry_id: note.enquiry_id,
                notes: note.notes,
                created_at: Some(now),
            },
        );
        Ok(id)
    }

    /// The same operation as `create_note`, under the name the second
    /// boundary procedure uses.
    pub fn add_enquiry_note(&mut self, note: Note, now: String) -> (r: Result<i64, EnquiryError>)
        requires
            old(self).wf(),
            old(self).next_note_id < i64::MAX,
        ensures
            final(self).wf(),
            r is Ok <==> has_enquiry_id(old(self).enquiries@, note.enquiry_id),
            r is Err ==> *final(self) == *old(self) && r == Err::<i64, EnquiryError>(
                EnquiryError::ForeignKey,
            ),
            r matches Ok(id) ==> {
                &&& id == old(self).next_note_id
                &&& final(self).next_note_id == old(self).next_note_id + 1
                &&& final(self).notes@ =~= old(self).notes@.push(
                    Note { id: Some(id), created_at: Some(now), ..note },
                )
                &&& final(self).enquiries == old(self).enquiries
                &&& final(self).followups == old(self).followups
                &&& final(self).next_enquiry_id == old(self).next_enquiry_id
                &&& final(self).next_followup_id == old(self).next_followup_id
            },
    {
        self.create_note(note, now)
    }

    /// The notes of this enquiry, newest first.
    #[verifier::loop_isolation(false)]
    pub fn get_enquiry_notes(&self, enquiry_id: i64) -> (r: Vec<Note>)
        ensures
            r@.len() == self.notes@.filter(|x: Note| x.enquiry_id == enquiry_id).len(),
            forall|i: int|
                0 <= i < r@.len() ==> #[trigger] r@[i] == self.notes@.filter(
                    |x: Note| x.enquiry_id == enquiry_id,
                )[r@.len() - 1 - i],
    {
        let n = self.notes.len();
        let mut picked: Vec<Note> = Vec::new();
        let mut i: usize = 0;
        while i < n
            invariant
                i <= n,
                picked@ =~= self.notes@.subrange(0, i as int).filter(
                    |x: Note| x.enquiry_id == enquiry_id,
                ),
            decreases n - i,
        {
            proof {
                assert(self.notes@.subrange(0, i + 1).drop_last() =~= self.notes@.subrange(
                    0,
                    i as int,
                ));
                assert(self.notes@.subrange(0, i + 1).last() == self.notes@[i as int]);
                reveal_with_fuel(Seq::filter, 2);
            }
            if self.notes[i].enquiry_id == enquiry_id {
                picked.push(self.notes[i].clone());
            }
            i = i + 1;
        }
        proof {
            assert(self.notes@.subrange(0, n as int) =~= self.notes@);
        }
        let ghost flt = self.notes@.filter(|x: Note| x.enquiry_id == enquiry_id);
        let mut r: Vec<Note> = Vec::new();
        let mut tmp = picked;
        loop
            invariant
                tmp@ =~= flt.subrange(0, tmp@.len() as int),
                r@.len() + tmp@.len() == flt.len(),
                forall|k: int| 0 <= k < r@.len() ==> #[trigger] r@[k] == flt[flt.len() - 1 - k],
            decreases tmp@.len(),
        {
            match tmp.pop() {
                Some(x) => {
                    r.push(x);
                },
                None => {
                    break ;
                },
            }
        }
        r
    }

    /// Whether an enquiry with this id is stored.
    fn has_enquiry(&self, id: i64) -> (r: bool)
        ensures
            r == has_enquiry_id(self.enquiries@, id),
    {
        let n = self.enquiries.len();
        let mut i: usize = 0;
        while i < n
            invariant
                i <= n,
                n == self.enquiries@.len(),
                forall|k: int| 0 <= k < i ==> (#[trigger] self.enquiries@[k]).id != Some(id),
            decreases n - i,
        {
            if util::opt_i64_is(&self.enquiries[i].id, id) {
                return true;
            }
            i = i + 1;
        }
        false
    }
}

} // verus!
