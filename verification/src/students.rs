//! The students store.
//!
//! A student row is assembled over four staged calls: core data first,
//! then contact, health and document sections, each rewriting its slice
//! of the row.  The core references a class by the text of its id.
//! Numeric columns that the database stores as floating point (income,
//! weight, height) are carried as the bit patterns of their 64-bit
//! values; the boundary converts.

use vstd::prelude::*;
use vstd::string::*;

use crate::class::{Class, ClassTable};
use crate::text;
use crate::util;

use base64::Engine;

verus! {

/// The core section of a student row.
#[derive(Debug, PartialEq)]
pub struct StudentCore {
    pub id: Option<i64>,
    pub gr_number: String,
    pub roll_number: Option<String>,
    pub full_name: String,
    pub dob: Option<String>,
    pub gender: String,
    pub mother_name: String,
    pub father_name: String,
    pub father_occupation: Option<String>,
    pub mother_occupation: Option<String>,
    pub annual_income: Option<u64>,
    pub nationality: Option<String>,
    pub profile_image: Option<String>,
    pub class_id: String,
    pub section: Option<String>,
    pub academic_year: Option<String>,
    pub class_name: Option<String>,
}

impl Clone for StudentCore {
    fn clone(&self) -> (r: Self)
        ensures
            r == *self,
    {
        StudentCore {
            id: self.id,
            gr_number: self.gr_number.clone(),
            roll_number: util::clone_opt_string(&self.roll_number),
            full_name: self.full_name.clone(),
            dob: util::clone_opt_string(&self.dob),
            gender: self.gender.clone(),
            mother_name: self.mother_name.clone(),
            father_name: self.father_name.clone(),
            father_occupation: util::clone_opt_string(&self.father_occupation),
            mother_occupation: util::clone_opt_string(&self.mother_occupation),
            annual_income: self.annual_income,
            nationality: util::clone_opt_string(&self.nationality),
            profile_image: util::clone_opt_string(&self.profile_image),
            class_id: self.class_id.clone(),
            section: util::clone_opt_string(&self.section),
            academic_year: util::clone_opt_string(&self.academic_year),
            class_name: util::clone_opt_string(&self.class_name),
        }
    }
}

/// The contact section of a student row.
#[derive(Debug, PartialEq)]
pub struct StudentContact {
    pub email: Option<String>,
    pub mobile_number: Option<String>,
    pub alternate_contact_number: Option<String>,
    pub address: Option<String>,
    pub city: Option<String>,
    pub state: Option<String>,
    pub country: Option<String>,
    pub postal_code: Option<String>,
    pub guardian_contact_info: Option<String>,
}

impl Clone for StudentContact {
    fn clone(&self) -> (r: Self)
        ensures
            r == *self,
    {
        StudentContact {
            email: util::clone_opt_string(&self.email),
            mobile_number: util::clone_opt_string(&self.mobile_number),
            alternate_contact_number: util::clone_opt_string(&self.alternate_contact_number),
            address: util::clone_opt_string(&self.address),
            city: util::clone_opt_string(&self.city),
            state: util::clone_opt_string(&self.state),
            country: util::clone_opt_string(&self.country),
            postal_code: util::clone_opt_string(&self.postal_code),
            guardian_contact_info: util::clone_opt_string(&self.guardian_contact_info),
        }
    }
}

/// The health and admission section of a student row.
#[derive(Debug, PartialEq)]
pub struct StudentHealth {
    pub blood_group: Option<String>,
    pub status: Option<String>,
    pub admission_date: Option<String>,
    pub weight_kg: Option<u64>,
    pub height_cm: Option<u64>,
    pub hb_range: Option<String>,
    pub medical_conditions: Option<String>,
    pub emergency_contact_person: Option<String>,
    pub emergency_contact: Option<String>,
}

impl Clone for StudentHealth {
    fn clone(&self) -> (r: Self)
        ensures
            r == *self,
    {
        StudentHealth {
            blood_group: util::clone_opt_string(&self.blood_group),
            status: util::clone_opt_string(&self.status),
            admission_date: util::clone_opt_string(&self.admission_date),
            weight_kg: self.weight_kg,
            height_cm: self.height_cm,
            hb_range: util::clone_opt_string(&self.hb_range),
            medical_conditions: util::clone_opt_string(&self.medical_conditions),
            emergency_contact_person: util::clone_opt_string(&self.emergency_contact_person),
            emergency_contact: util::clone_opt_string(&self.emergency_contact),
        }
    }
}

/// The documents section of a student row: each field is the stored
/// file name of one document.
#[derive(Debug, PartialEq)]
pub struct StudentDocs {
    pub birth_certificate: Option<String>,
    pub transfer_certificate: Option<String>,
    pub previous_academic_records: Option<String>,
    pub address_proof: Option<String>,
    pub id_proof: Option<String>,
    pub passport_photo: Option<String>,
    pub medical_certificate: Option<String>,
    pub vaccination_certificate: Option<String>,
    pub other_documents: Option<String>,
}

impl Clone for StudentDocs {
    fn clone(&self) -> (r: Self)
        ensures
            r == *self,
    {
        StudentDocs {
            birth_certificate: util::clone_opt_string(&self.birth_certificate),
            transfer_certificate: util::clone_opt_string(&self.transfer_certificate),
            previous_academic_records: util::clone_opt_string(&self.previous_academic_records),
            address_proof: util::clone_opt_string(&self.address_proof),
            id_proof: util::clone_opt_string(&self.id_proof),
            passport_photo: util::clone_opt_string(&self.passport_photo),
            medical_certificate: util::clone_opt_string(&self.medical_certificate),
            vaccination_certificate: util::clone_opt_string(&self.vaccination_certificate),
            other_documents: util::clone_opt_string(&self.other_documents),
        }
    }
}

/// A whole student row.
#[derive(Debug, PartialEq)]
pub struct Student {
    pub core: StudentCore,
    pub contact: StudentContact,
    pub health: StudentHealth,
    pub docs: StudentDocs,
}

impl Clone for Student {
    fn clone(&self) -> (r: Self)
        ensures
            r == *self,
    {
        Student {
            core: self.core.clone(),
            contact: self.contact.clone(),
            health: self.health.clone(),
            docs: self.docs.clone(),
        }
    }
}

/// Why a student operation was refused.
#[derive(Debug, PartialEq)]
pub enum StudentError {
    /// The class id text matches no class.
    ClassMissing { class_id: String },
    /// The GR number is already taken.
    GrExists { gr_number: String },
    /// No row carries the requested id.
    NotFound,
}

impl StudentError {
    /// The message the caller shows for this error.
    pub fn message(&self) -> (r: String)
        ensures
            self is ClassMissing ==> r@ == "Class with id "@ + self->ClassMissing_class_id@
                + " does not exist"@,
            self is GrExists ==> r@ == "Student with GR number "@ + self->GrExists_gr_number@
                + " already exists"@,
            self is NotFound ==> r@ == "Query returned no rows"@,
    {
        match self {
            StudentError::ClassMissing { class_id } => String::from_str("Class with id ").concat(
                class_id.as_str(),
            ).concat(" does not exist"),
            StudentError::GrExists { gr_number } => String::from_str(
                "Student with GR number ",
            ).concat(gr_number.as_str()).concat(" already exists"),
            StudentError::NotFound => String::from_str("Query returned no rows"),
        }
    }
}

/// Whether some student row carries this id.
pub open spec fn has_student_id(rows: Seq<Student>, id: i64) -> bool {
    exists|i: int| 0 <= i < rows.len() && (#[trigger] rows[i]).core.id == Some(id)
}

/// Whether some student row carries this GR number.
pub open spec fn gr_taken(rows: Seq<Student>, gr: Seq<char>) -> bool {
    exists|i: int| 0 <= i < rows.len() && (#[trigger] rows[i]).core.gr_number@ == gr
}

/// Whether the class-id text of a student designates a stored class:
/// the database matches the text against the integer key by the number
/// it spells.
pub open spec fn class_ref_ok(class_id: Seq<char>, classes: Seq<Class>) -> bool {
    exists|i: int|
        0 <= i < classes.len() && (#[trigger] classes[i]).id is Some && text::spells_id(
            class_id,
            classes[i].id->0 as int,
        )
}

/// A contact section with nothing filled in.
pub open spec fn blank_contact() -> StudentContact {
    StudentContact {
        email: None,
        mobile_number: None,
        alternate_contact_number: None,
        address: None,
        city: None,
        state: None,
        country: None,
        postal_code: None,
        guardian_contact_info: None,
    }
}

/// A health section with nothing filled in.
pub open spec fn blank_health() -> StudentHealth {
    StudentHealth {
        blood_group: None,
        status: None,
        admission_date: None,
        weight_kg: None,
        height_cm: None,
        hb_range: None,
        medical_conditions: None,
        emergency_contact_person: None,
        emergency_contact: None,
    }
}

/// A documents section with nothing filled in.
pub open spec fn blank_docs() -> StudentDocs {
    StudentDocs {
        birth_certificate: None,
        transfer_certificate: None,
        previous_academic_records: None,
        address_proof: None,
        id_proof: None,
        passport_photo: None,
        medical_certificate: None,
        vaccination_certificate: None,
        other_documents: None,
    }
}

/// How a whole record lands in the store: the id is the store's, the
/// class name is never stored, everything else is kept.
pub open spec fn stored_student(row: Student, given: Student, id: int) -> bool {
    &&& row.core.id is Some && row.core.id->0 == id
    &&& row.core == (StudentCore { id: row.core.id, class_name: None, ..given.core })
    &&& row.contact == given.contact
    &&& row.health == given.health
    &&& row.docs == given.docs
}

/// Whether row `i` of the classes is the one the student's class-id
/// text designates.
pub open spec fn class_match(s: Student, classes: Seq<Class>, i: int) -> bool {
    0 <= i < classes.len() && classes[i].id is Some && text::spells_id(
        s.core.class_id@,
        classes[i].id->0 as int,
    )
}

/// The row as a listing returns it: with the name of its class joined
/// in, or no name when the class-id text matches no class.
pub open spec fn joined(s: Student, classes: Seq<Class>) -> Student {
    if exists|i: int| class_match(s, classes, i) {
        let i = choose|i: int| class_match(s, classes, i);
        Student {
            core: StudentCore { class_name: Some(classes[i].class_name), ..s.core },
            ..s
        }
    } else {
        Student { core: StudentCore { class_name: None, ..s.core }, ..s }
    }
}

/// The stored file names of a document section, in column order.
pub open spec fn docs_list(d: StudentDocs) -> Seq<String> {
    util::opt_seq(d.birth_certificate) + util::opt_seq(d.transfer_certificate) + util::opt_seq(
        d.previous_academic_records,
    ) + util::opt_seq(d.address_proof) + util::opt_seq(d.id_proof) + util::opt_seq(
        d.passport_photo,
    ) + util::opt_seq(d.medical_certificate) + util::opt_seq(d.vaccination_certificate)
        + util::opt_seq(d.other_documents)
}

/// The students table: rows plus the next id the store will hand out.
pub struct StudentTable {
    pub rows: Vec<Student>,
    pub next_id: i64,
}

impl StudentTable {
    /// Every id is assigned, below `next_id` and unique; the joined
    /// class name is never stored.
    pub open spec fn wf(self) -> bool {
        &&& 1 <= self.next_id
        &&& forall|i: int|
            0 <= i < self.rows@.len() ==> ((#[trigger] self.rows@[i]).core.id is Some && 1
                <= self.rows@[i].core.id->0 < self.next_id)
        &&& forall|i: int, j: int|
            #![trigger self.rows@[i].core.id, self.rows@[j].core.id]
            0 <= i < j < self.rows@.len() ==> self.rows@[i].core.id->0 != self.rows@[j].core.id->0
        &&& forall|i: int|
            0 <= i < self.rows@.len() ==> (#[trigger] self.rows@[i]).core.class_name is None
    }

    /// An empty table.
    pub fn new() -> (r: Self)
        ensures
            r.wf(),
            r.rows@ =~= Seq::<Student>::empty(),
            r.next_id == 1,
    {
        StudentTable { rows: Vec::new(), next_id: 1 }
    }

    /// The first step of the staged form: creates the row from its core
    /// section (the other sections empty), or rewrites the core of the
    /// row whose id is given.  The class reference must resolve.
    #[verifier::loop_isolation(false)]
    pub fn create_student1(&mut self, core: StudentCore, classes: &ClassTable) -> (r: Result<
        i64,
        StudentError,
    >)
        requires
            old(self).wf(),
            old(self).next_id < i64::MAX,
        ensures
            final(self).wf(),
            r is Ok <==> class_ref_ok(core.class_id@, classes.rows@),
            r is Err ==> *final(self) == *old(self) && r == Err::<i64, StudentError>(
                StudentError::ClassMissing { class_id: core.class_id },
            ),
            r matches Ok(id) ==> (match core.id {
                Some(given_id) => {
                    &&& id == given_id
                    &&& final(self).rows@.len() == old(self).rows@.len()
                    &&& final(self).next_id == old(self).next_id
                    &&& forall|i: int|
                        0 <= i < old(self).rows@.len() && old(self).rows@[i].core.id != Some(
                            given_id,
                        ) ==> #[trigger] final(self).rows@[i] == old(self).rows@[i]
                    &&& forall|i: int|
                        0 <= i < old(self).rows@.len() && old(self).rows@[i].core.id == Some(
                            given_id,
                        ) ==> #[trigger] final(self).rows@[i] == (Student {
                            core: StudentCore {
                                id: Some(given_id),
                                class_name: None,
                                ..core
                            },
                            ..old(self).rows@[i]
                        })
                },
                None => {
                    &&& id == old(self).next_id
                    &&& final(self).next_id == old(self).next_id + 1
                    &&& final(self).rows@.len() == old(self).rows@.len() + 1
                    &&& forall|i: int|
                        0 <= i < old(self).rows@.len() ==> #[trigger] final(self).rows@[i] == old(
                            self,
                        ).rows@[i]
                    &&& final(self).rows@.last() == (Student {
                        core: StudentCore { id: Some(id), class_name: None, ..core },
                        contact: blank_contact(),
                        health: blank_health(),
                        docs: blank_docs(),
                    })
                },
            }),
    {
        if !class_ref_exists(core.class_id.as_str(), classes) {
            return Err(StudentError::ClassMissing { class_id: core.class_id });
        }
        match core.id {
            Some(given_id) => {
                let n = self.rows.len();
                let mut i: usize = 0;
                while i < n
                    invariant
                        i <= n,
                        self == old(self),
                        forall|k: int|
                            0 <= k < i ==> (#[trigger] self.rows@[k]).core.id != Some(given_id),
                    decreases n - i,
                {
                    if util::opt_i64_is(&self.rows[i].core.id, given_id) {
                        self.rows[i].core = StudentCore {
                            id: Some(given_id),
                            gr_number: core.gr_number,
                            roll_number: core.roll_number,
                            full_name: core.full_name,
                            dob: core.dob,
                            gender: core.gender,
                            mother_name: core.mother_name,
                            father_name: core.father_name,
                            father_occupation: core.father_occupation,
                            mother_occupation: core.mother_occupation,
                            annual_income: core.annual_income,
                            nationality: core.nationality,
                            profile_image: core.profile_image,
                            class_id: core.class_id,
                            section: core.section,
                            academic_year: core.academic_year,
                            class_name: None,
                        };
                        return Ok(given_id);
                    }
                    i = i + 1;
                }
                Ok(given_id)
            },
            None => {
                let id = self.next_id;
                self.next_id = self.next_id + 1;
                self.rows.push(
                    Student {
                        core: StudentCore {
                            id: Some(id),
                            gr_number: core.gr_number,
                            roll_number: core.roll_number,
                            full_name: core.full_name,
                            dob: core.dob,
                            gender: core.gender,
                            mother_name: core.mother_name,
                            father_name: core.father_name,
                            father_occupation: core.father_occupation,
                            mother_occupation: core.mother_occupation,
                            annual_income: core.annual_income,
                            nationality: core.nationality,
                            profile_image: core.profile_image,
                            class_id: core.class_id,
                            section: core.section,
                            academic_year: core.academic_year,
                            class_name: None,
                        },
                        contact: StudentContact {
                            email: None,
                            mobile_number: None,
                            alternate_contact_number: None,
                            address: None,
                            city: None,
                            state: None,
                            country: None,
                            postal_code: None,
                            guardian_contact_info: None,
                        },
                        health: StudentHealth {
                            blood_group: None,
                            status: None,
                            admission_date: None,
                            weight_kg: None,
                            height_cm: None,
                            hb_range: None,
                            medical_conditions: None,
                            emergency_contact_person: None,
                            emergency_contact: None,
                        },
                        docs: StudentDocs {
                            birth_certificate: None,
                            transfer_certificate: None,
                            previous_academic_records: None,
                            address_proof: None,
                            id_proof: None,
                            passport_photo: None,
                            medical_certificate: None,
                            vaccination_certificate: None,
                            other_documents: None,
                        },
                    },
                );
                Ok(id)
            },
        }
    }

    /// The second step: rewrites the contact section of the row with
    /// this id; a missing id changes nothing.
    #[verifier::loop_isolation(false)]
    pub fn create_student2(&mut self, contact: StudentContact, id: i64)
        requires
            old(self).wf(),
        ensures
            final(self).wf(),
            final(self).rows@.len() == old(self).rows@.len(),
            final(self).next_id == old(self).next_id,
            forall|i: int|
                0 <= i < old(self).rows@.len() && old(self).rows@[i].core.id != Some(id)
                    ==> #[trigger] final(self).rows@[i] == old(self).rows@[i],
            forall|i: int|
                0 <= i < old(self).rows@.len() && old(self).rows@[i].core.id == Some(id)
                    ==> #[trigger] final(self).rows@[i] == (Student {
                    contact,
                    ..old(self).rows@[i]
                }),
    {
        let n = self.rows.len();
        let mut i: usize = 0;
        while i < n
            invariant
                i <= n,
                self == old(self),
                forall|k: int| 0 <= k < i ==> (#[trigger] self.rows@[k]).core.id != Some(id),
            decreases n - i,
        {
            if util::opt_i64_is(&self.rows[i].core.id, id) {
                self.rows[i].contact = contact;
                return ;
            }
            i = i + 1;
        }
    }

    /// The third step: rewrites the health section of the row with this
    /// id; a missing id changes nothing.
    #[verifier::loop_isolation(false)]
    pub fn create_student3(&mut self, health: StudentHealth, id: i64)
        requires
            old(self).wf(),
        ensures
            final(self).wf(),
            final(self).rows@.len() == old(self).rows@.len(),
            final(self).next_id == old(self).next_id,
            forall|i: int|
                0 <= i < old(self).rows@.len() && old(self).rows@[i].core.id != Some(id)
                    ==> #[trigger] final(self).rows@[i] == old(self).rows@[i],
            forall|i: int|
                0 <= i < old(self).rows@.len() && old(self).rows@[i].core.id == Some(id)
                    ==> #[trigger] final(self).rows@[i] == (Student {
                    health,
                    ..old(self).rows@[i]
                }),
    {
        let n = self.rows.len();
        let mut i: usize = 0;
        while i < n
            invariant
                i <= n,
                self == old(self),
                forall|k: int| 0 <= k < i ==> (#[trigger] self.rows@[k]).core.id != Some(id),
            decreases n - i,
        {
            if util::opt_i64_is(&self.rows[i].core.id, id) {
                self.rows[i].health = health;
                return ;
            }
            i = i + 1;
        }
    }

    /// The fourth step: rewrites the documents section of the row with
    /// this id; a missing id changes nothing.
    #[verifier::loop_isolation(false)]
    pub fn create_student4(&mut self, docs: StudentDocs, id: i64)
        requires
            old(self).wf(),
        ensures
            final(self).wf(),
            final(self).rows@.len() == old(self).rows@.len(),
            final(self).next_id == old(self).next_id,
            forall|i: int|
                0 <= i < old(self).rows@.len() && old(self).rows@[i].core.id != Some(id)
                    ==> #[trigger] final(self).rows@[i] == old(self).rows@[i],
            forall|i: int|
                0 <= i < old(self).rows@.len() && old(self).rows@[i].core.id == Some(id)
                    ==> #[trigger] final(self).rows@[i] == (Student {
                    docs,
                    ..old(self).rows@[i]
                }),
    {
        let n = self.rows.len();
        let mut i: usize = 0;
        while i < n
            invariant
                i <= n,
                self == old(self),
                forall|k: int| 0 <= k < i ==> (#[trigger] self.rows@[k]).core.id != Some(id),
            decreases n - i,
        {
            if util::opt_i64_is(&self.rows[i].core.id, id) {
                self.rows[i].docs = docs;
                return ;
            }
            i = i + 1;
        }
    }
}

/// Whether one batch entry passes the checks the bulk import runs: its
/// class resolves, and its GR number is neither stored already nor used
/// by an earlier entry of the batch.
pub open spec fn bulk_ok_at(
    rows0: Seq<Student>,
    students: Seq<Student>,
    classes: Seq<Class>,
    k: int,
) -> bool {
    &&& class_ref_ok(students[k].core.class_id@, classes)
    &&& !gr_taken(rows0, students[k].core.gr_number@)
    &&& forall|k2: int|
        0 <= k2 < k ==> (#[trigger] students[k2]).core.gr_number@ != students[k].core.gr_number@
}

impl StudentTable {
    /// Imports a batch of whole records in one transaction: either
    /// every record passes its checks and all are appended with
    /// consecutive ids, or the first offence is reported and nothing
    /// changes.
    #[verifier::loop_isolation(false)]
    pub fn excel_bulk_insert(&mut self, students: Vec<Student>, classes: &ClassTable) -> (r:
        Result<Vec<i64>, StudentError>)
        requires
            old(self).wf(),
            old(self).next_id + students@.len() <= i64::MAX,
        ensures
            final(self).wf(),
            r is Ok <==> (forall|k: int|
                0 <= k < students@.len() ==> bulk_ok_at(
                    old(self).rows@,
                    students@,
                    classes.rows@,
                    k,
                )),
            r is Err ==> *final(self) == *old(self),
            r is Err ==> exists|k: int|
                {
                    &&& 0 <= k < students@.len()
                    &&& !bulk_ok_at(old(self).rows@, students@, classes.rows@, k)
                    &&& forall|k2: int|
                        0 <= k2 < k ==> bulk_ok_at(old(self).rows@, students@, classes.rows@, k2)
                    &&& r == (if !class_ref_ok(
                        (#[trigger] students@[k]).core.class_id@,
                        classes.rows@,
                    ) {
                        Err::<Vec<i64>, StudentError>(
                            StudentError::ClassMissing { class_id: students@[k].core.class_id },
                        )
                    } else {
                        Err::<Vec<i64>, StudentError>(
                            StudentError::GrExists { gr_number: students@[k].core.gr_number },
                        )
                    })
                },
            r matches Ok(ids) ==> {
                &&& ids@.len() == students@.len()
                &&& forall|k: int| 0 <= k < ids@.len() ==> #[trigger] ids@[k] == old(self).next_id + k
                &&& final(self).next_id == old(self).next_id + students@.len()
                &&& final(self).rows@.len() == old(self).rows@.len() + students@.len()
                &&& forall|i: int|
                    0 <= i < old(self).rows@.len() ==> #[trigger] final(self).rows@[i] == old(
                        self,
                    ).rows@[i]
                &&& forall|k: int|
                    0 <= k < students@.len() ==> stored_student(
                        #[trigger] final(self).rows@[old(self).rows@.len() + k],
                        students@[k],
                        old(self).next_id + k,
                    )
            },
    {
        let mut staged: Vec<Student> = Vec::new();
        let mut ids: Vec<i64> = Vec::new();
        let n = students.len();
        let mut k: usize = 0;
        while k < n
            invariant
                k <= n,
                self == old(self),
                n == students@.len(),
                staged@.len() == k,
                ids@.len() == k,
                forall|t: int| 0 <= t < k ==> #[trigger] ids@[t] == old(self).next_id + t,
                forall|t: int|
                    0 <= t < k ==> stored_student(
                        #[trigger] staged@[t],
                        students@[t],
                        old(self).next_id + t,
                    ),
                forall|t: int|
                    0 <= t < k ==> bulk_ok_at(old(self).rows@, students@, classes.rows@, t),
            decreases n - k,
        {
            let s = students[k].clone();
            if !class_ref_exists(s.core.class_id.as_str(), classes) {
                proof {
                    assert(!bulk_ok_at(old(self).rows@, students@, classes.rows@, k as int));
                }
                return Err(StudentError::ClassMissing { class_id: s.core.class_id });
            }
            if gr_taken_in(&self.rows, s.core.gr_number.as_str()) {
                proof {
                    assert(!bulk_ok_at(old(self).rows@, students@, classes.rows@, k as int));
                }
                return Err(StudentError::GrExists { gr_number: s.core.gr_number });
            }
            if gr_taken_in(&staged, s.core.gr_number.as_str()) {
                proof {
                    let w = choose|w: int|
                        0 <= w < staged@.len() && (#[trigger] staged@[w]).core.gr_number@
                            == s.core.gr_number@;
                    assert(students@[w].core.gr_number@ == students@[k as int].core.gr_number@);
                    assert(!bulk_ok_at(old(self).rows@, students@, classes.rows@, k as int));
                }
                return Err(StudentError::GrExists { gr_number: s.core.gr_number });
            }
            proof {
                assert forall|k2: int|
                    0 <= k2 < k implies (#[trigger] students@[k2]).core.gr_number@
                    != students@[k as int].core.gr_number@ by {
                    assert(staged@[k2].core.gr_number@ == students@[k2].core.gr_number@);
                }
            }
            let id = self.next_id + (k as i64);
            ids.push(id);
            staged.push(
                Student {
                    core: StudentCore {
                        id: Some(id),
                        gr_number: s.core.gr_number,
                        roll_number: s.core.roll_number,
                        full_name: s.core.full_name,
                        dob: s.core.dob,
                        gender: s.core.gender,
                        mother_name: s.core.mother_name,
                        father_name: s.core.father_name,
                        father_occupation: s.core.father_occupation,
                        mother_occupation: s.core.mother_occupation,
                        annual_income: s.core.annual_income,
                        nationality: s.core.nationality,
                        profile_image: s.core.profile_image,
                        class_id: s.core.class_id,
                        section: s.core.section,
                        academic_year: s.core.academic_year,
                        class_name: None,
                    },
                    contact: s.contact,
                    health: s.health,
                    docs: s.docs,
                },
            );
            k = k + 1;
        }
        self.rows.append(&mut staged);
        self.next_id = self.next_id + (n as i64);
        Ok(ids)
    }

    /// One student by id, or every student, each with the name of its
    /// class joined in.
    #[verifier::loop_isolation(false)]
    pub fn get_students(&self, id: Option<i64>, classes: &ClassTable) -> (r: Result<
        Vec<Student>,
        StudentError,
    >)
        requires
            self.wf(),
            classes.wf(),
        ensures
            match id {
                Some(sid) => {
                    &&& (r is Ok <==> has_student_id(self.rows@, sid))
                    &&& (r is Err ==> r == Err::<Vec<Student>, StudentError>(
                        StudentError::NotFound,
                    ))
                    &&& (r matches Ok(list) ==> list@.len() == 1 && exists|i: int|
                        0 <= i < self.rows@.len() && (#[trigger] self.rows@[i]).core.id == Some(
                            sid,
                        ) && list@[0] == joined(self.rows@[i], classes.rows@))
                },
                None => {
                    &&& r is Ok
                    &&& (r matches Ok(list) ==> list@.len() == self.rows@.len() && forall|i: int|
                        0 <= i < list@.len() ==> #[trigger] list@[i] == joined(
                            self.rows@[i],
                            classes.rows@,
                        ))
                },
            },
    {
        match id {
            Some(sid) => {
                let n = self.rows.len();
                let mut i: usize = 0;
                while i < n
                    invariant
                        i <= n,
                        forall|w: int|
                            0 <= w < i ==> (#[trigger] self.rows@[w]).core.id != Some(sid),
                    decreases n - i,
                {
                    if util::opt_i64_is(&self.rows[i].core.id, sid) {
                        let mut list: Vec<Student> = Vec::new();
                        list.push(attach_class_name(&self.rows[i], classes));
                        return Ok(list);
                    }
                    i = i + 1;
                }
                Err(StudentError::NotFound)
            },
            None => {
                let n = self.rows.len();
                let mut list: Vec<Student> = Vec::new();
                let mut i: usize = 0;
                while i < n
                    invariant
                        i <= n,
                        list@.len() == i,
                        forall|w: int|
                            0 <= w < i ==> #[trigger] list@[w] == joined(
                                self.rows@[w],
                                classes.rows@,
                            ),
                    decreases n - i,
                {
                    list.push(attach_class_name(&self.rows[i], classes));
                    i = i + 1;
                }
                Ok(list)
            },
        }
    }

    /// Removes the student with this id and returns the stored file
    /// names of its documents, so the caller can remove the files.
    #[verifier::loop_isolation(false)]
    pub fn delete_student(&mut self, id: i64) -> (removed_docs: Vec<String>)
        requires
            old(self).wf(),
        ensures
            final(self).wf(),
            final(self).rows@ =~= old(self).rows@.filter(|s: Student| s.core.id != Some(id)),
            final(self).next_id == old(self).next_id,
            forall|i: int|
                0 <= i < old(self).rows@.len() && old(self).rows@[i].core.id == Some(id)
                    ==> removed_docs@ == docs_list((#[trigger] old(self).rows@[i]).docs),
            !has_student_id(old(self).rows@, id) ==> removed_docs@.len() == 0,
    {
        let n = self.rows.len();
        let mut docs: Vec<String> = Vec::new();
        let mut i: usize = 0;
        let mut found = false;
        while i < n
            invariant
                i <= n,
                self == old(self),
                !found ==> docs@.len() == 0 && forall|w: int|
                    0 <= w < i ==> (#[trigger] self.rows@[w]).core.id != Some(id),
                found ==> exists|w: int|
                    0 <= w < i && (#[trigger] self.rows@[w]).core.id == Some(id) && docs@
                        == docs_list(self.rows@[w].docs),
            decreases n - i,
        {
            if !found && util::opt_i64_is(&self.rows[i].core.id, id) {
                docs = collect_docs(&self.rows[i].docs);
                found = true;
            }
            i = i + 1;
        }
        proof {
            if found {
                assert forall|w: int|
                    0 <= w < old(self).rows@.len() && old(self).rows@[w].core.id == Some(
                    id,
                ) implies docs@ == docs_list((#[trigger] old(self).rows@[w]).docs) by {
                    let w0 = choose|w0: int|
                        0 <= w0 < n && (#[trigger] self.rows@[w0]).core.id == Some(id) && docs@
                            == docs_list(self.rows@[w0].docs);
                    assert(w == w0);
                }
            }
        }
        let mut kept: Vec<Student> = Vec::new();
        let mut j: usize = 0;
        while j < n
            invariant
                j <= n,
                self == old(self),
                kept@ =~= old(self).rows@.subrange(0, j as int).filter(
                    |s: Student| s.core.id != Some(id),
                ),
                forall|k: int|
                    0 <= k < kept@.len() ==> exists|w: int|
                        0 <= w < j && #[trigger] kept@[k] == old(self).rows@[w],
                forall|k1: int, k2: int|
                    #![trigger kept@[k1].core.id, kept@[k2].core.id]
                    0 <= k1 < k2 < kept@.len() ==> kept@[k1].core.id->0 != kept@[k2].core.id->0,
            decreases n - j,
        {
            proof {
                assert(old(self).rows@.subrange(0, j + 1).drop_last() =~= old(
                    self,
                ).rows@.subrange(0, j as int));
                assert(old(self).rows@.subrange(0, j + 1).last() == old(self).rows@[j as int]);
                reveal_with_fuel(Seq::filter, 2);
            }
            if !util::opt_i64_is(&self.rows[j].core.id, id) {
                proof {
                    assert forall|k: int|
                        0 <= k < kept@.len() implies (#[trigger] kept@[k]).core.id->0 != old(
                        self,
                    ).rows@[j as int].core.id->0 by {
                        let w = choose|w: int|
                            0 <= w < j && #[trigger] kept@[k] == old(self).rows@[w];
                    }
                }
                kept.push(self.rows[j].clone());
            }
            j = j + 1;
        }
        proof {
            assert(old(self).rows@.subrange(0, n as int) =~= old(self).rows@);
        }
        self.rows = kept;
        docs
    }
}

/// Whether any row of the given vector carries this GR number.
fn gr_taken_in(rows: &Vec<Student>, gr: &str) -> (r: bool)
    ensures
        r == gr_taken(rows@, gr@),
{
    let n = rows.len();
    let mut i: usize = 0;
    while i < n
        invariant
            i <= n,
            n == rows@.len(),
            forall|k: int| 0 <= k < i ==> (#[trigger] rows@[k]).core.gr_number@ != gr@,
        decreases n - i,
    {
        if text::str_eq(rows[i].core.gr_number.as_str(), gr) {
            return true;
        }
        i = i + 1;
    }
    false
}

/// The row with its class name joined in, executable.
#[verifier::loop_isolation(false)]
fn attach_class_name(s: &Student, classes: &ClassTable) -> (r: Student)
    requires
        classes.wf(),
    ensures
        r == joined(*s, classes.rows@),
{
    let mut r = s.clone();
    match text::parse_id(r.core.class_id.as_str()) {
        Some(v) => {
            let n = classes.rows.len();
            let mut i: usize = 0;
            while i < n
                invariant
                    i <= n,
                    r == *s,
                    forall|k: int| 0 <= k < i ==> (#[trigger] classes.rows@[k]).id != Some(v),
                decreases n - i,
            {
                if util::opt_i64_is(&classes.rows[i].id, v) {
                    r.core.class_name = Some(classes.rows[i].class_name.clone());
                    proof {
                        assert(class_match(*s, classes.rows@, i as int));
                        let c = choose|c: int| class_match(*s, classes.rows@, c);
                        assert(classes.rows@[c].id->0 == classes.rows@[i as int].id->0);
                        assert(c == i);
                    }
                    return r;
                }
                i = i + 1;
            }
            proof {
                assert forall|c: int| !class_match(*s, classes.rows@, c) by {
                    if 0 <= c < classes.rows@.len() && classes.rows@[c].id is Some
                        && text::spells_id(s.core.class_id@, classes.rows@[c].id->0 as int) {
                        assert(classes.rows@[c].id == Some(v));
                    }
                }
            }
            r.core.class_name = None;
            r
        },
        None => {
            proof {
                assert forall|c: int| !class_match(*s, classes.rows@, c) by {
                    if 0 <= c < classes.rows@.len() && classes.rows@[c].id is Some {
                        assert(!text::spells_id(s.core.class_id@, classes.rows@[c].id->0 as int));
                    }
                }
            }
            r.core.class_name = None;
            r
        },
    }
}

/// The stored file names of a documents section, in column order,
/// executable.
/// Appends the stored file name of one optional document.
fn push_opt(r: &mut Vec<String>, o: &Option<String>)
    ensures
        final(r)@ == old(r)@ + util::opt_seq(*o),
{
    match o {
        Some(s) => {
            r.push(s.clone());
            proof {
                assert(r@ =~= old(r)@ + util::opt_seq(*o));
            }
        },
        None => {
            proof {
                assert(r@ =~= old(r)@ + util::opt_seq(*o));
            }
        },
    }
}

/// The stored file names of a documents section, in column order,
/// executable.
#[verifier::rlimit(50)]
fn collect_docs(d: &StudentDocs) -> (r: Vec<String>)
    ensures
        r@ == docs_list(*d),
{
    let mut r: Vec<String> = Vec::new();
    push_opt(&mut r, &d.birth_certificate);
    push_opt(&mut r, &d.transfer_certificate);
    push_opt(&mut r, &d.previous_academic_records);
    push_opt(&mut r, &d.address_proof);
    push_opt(&mut r, &d.id_proof);
    push_opt(&mut r, &d.passport_photo);
    push_opt(&mut r, &d.medical_certificate);
    push_opt(&mut r, &d.vaccination_certificate);
    push_opt(&mut r, &d.other_documents);
    proof {
        assert(r@ =~= docs_list(*d));
    }
    r
}

/// The document type a file name spells: its stem, or "unknown" when
/// the name has none.
pub open spec fn upload_doc_type(name: Seq<char>) -> Seq<char> {
    if text::stem_of(name).len() > 0 {
        text::stem_of(name)
    } else {
        "unknown"@
    }
}

/// The extension a stored document gets: the file name's, or "pdf"
/// when it has none.
pub open spec fn upload_ext(name: Seq<char>) -> Seq<char> {
    if text::has_ext(name) {
        text::ext_of(name)
    } else {
        "pdf"@
    }
}

/// The name under which a student's uploaded document is stored:
/// the student id, the document type the file was named after, and the
/// file's extension.
pub fn student_document_filename(id: i64, file_name: &str) -> (r: String)
    requires
        id >= 0,
    ensures
        r@ == text::dec_digits(id as int) + "_"@ + upload_doc_type(file_name@) + "."@ + upload_ext(
            file_name@,
        ),
{
    let (stem, ext, has) = text::split_ext(file_name);
    let doc_type = if stem.as_str().unicode_len() > 0 {
        stem
    } else {
        String::from_str("unknown")
    };
    let ext_final = if has {
        ext
    } else {
        String::from_str("pdf")
    };
    let r = text::i64_dec_string(id).concat("_").concat(doc_type.as_str()).concat(".").concat(
        ext_final.as_str(),
    );
    proof {
        assert(r@ =~= text::dec_digits(id as int) + "_"@ + upload_doc_type(file_name@) + "."@
            + upload_ext(file_name@));
    }
    r
}

/// The MIME type a document is served under, from its file name's
/// extension.
pub open spec fn mime_of(name: Seq<char>) -> Seq<char> {
    if text::has_ext(name) && (text::ext_of(name) == "jpg"@ || text::ext_of(name) == "jpeg"@) {
        "image/jpeg"@
    } else if text::has_ext(name) && text::ext_of(name) == "png"@ {
        "image/png"@
    } else if text::has_ext(name) && text::ext_of(name) == "gif"@ {
        "image/gif"@
    } else if text::has_ext(name) && text::ext_of(name) == "pdf"@ {
        "application/pdf"@
    } else {
        "application/octet-stream"@
    }
}

/// What base64's standard engine returns for a byte sequence.
pub uninterp spec fn base64_of(bytes: Seq<u8>) -> Seq<char>;

/// Relies on base64's `Engine::encode` with the `STANDARD` engine: the
/// encoding is a function of the input bytes alone, four characters for
/// every three bytes, rounded up for padding.  The engine only panics
/// when that length cannot be represented.
#[verifier::external_body]
fn base64_encode(bytes: &Vec<u8>) -> (r: String)
    requires
        4 * ((bytes@.len() + 2) / 3) <= usize::MAX,
    ensures
        r@ == base64_of(bytes@),
        r@.len() == 4 * ((bytes@.len() + 2) / 3),
{
    base64::engine::general_purpose::STANDARD.encode(bytes.as_slice())
}

/// The data URL of a stored document: a MIME type read off the file
/// name's extension, then the contents base64-encoded.
pub fn get_student_document_base64(file_name: &str, content: Vec<u8>) -> (r: String)
    requires
        4 * ((content@.len() + 2) / 3) <= usize::MAX,
    ensures
        r@ == "data:"@ + mime_of(file_name@) + ";base64,"@ + base64_of(content@),
{
    let (stem, ext, has) = text::split_ext(file_name);
    let mime: &str = if has && (text::str_eq(ext.as_str(), "jpg") || text::str_eq(
        ext.as_str(),
        "jpeg",
    )) {
        "image/jpeg"
    } else if has && text::str_eq(ext.as_str(), "png") {
        "image/png"
    } else if has && text::str_eq(ext.as_str(), "gif") {
        "image/gif"
    } else if has && text::str_eq(ext.as_str(), "pdf") {
        "application/pdf"
    } else {
        "application/octet-stream"
    };
    let encoded = base64_encode(&content);
    let r = String::from_str("data:").concat(mime).concat(";base64,").concat(encoded.as_str());
    proof {
        assert(r@ =~= "data:"@ + mime_of(file_name@) + ";base64,"@ + base64_of(content@));
    }
    r
}

/// Whether the class-id text of a student resolves to a stored class.
#[verifier::loop_isolation(false)]
pub fn class_ref_exists(class_id: &str, classes: &ClassTable) -> (r: bool)
    ensures
        r == class_ref_ok(class_id@, classes.rows@),
{
    match text::parse_id(class_id) {
        Some(v) => {
            let n = classes.rows.len();
            let mut i: usize = 0;
            while i < n
                invariant
                    i <= n,
                    forall|k: int| 0 <= k < i ==> (#[trigger] classes.rows@[k]).id != Some(v),
                decreases n - i,
            {
                if util::opt_i64_is(&classes.rows[i].id, v) {
                    return true;
                }
                i = i + 1;
            }
            false
        },
        None => {
            proof {
                assert forall|i: int|
                    0 <= i < classes.rows@.len() implies !((#[trigger] classes.rows@[i]).id is Some
                    && text::spells_id(class_id@, classes.rows@[i].id->0 as int)) by {
                    if classes.rows@[i].id is Some {
                        // every stored id fits an i64, so a text that spells
                        // none can spell no stored id
                    }
                }
            }
            false
        },
    }
}

} // verus!
