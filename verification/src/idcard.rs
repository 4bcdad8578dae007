//! The identity-card listing.
//!
//! Cards are printed from a flat projection of the students table: the
//! general, contact and admission columns are carried over, and the
//! remaining fields stay empty.  Numeric columns that the database
//! stores as floating point are carried as bit patterns, as in the
//! students store.

use vstd::prelude::*;

use crate::students;
use crate::students::StudentTable;
use crate::util;

verus! {

/// The flat record an identity card is printed from.
#[derive(Debug, PartialEq)]
pub struct Student {
    pub id: Option<i64>,
    pub gr_number: String,
    pub roll_number: Option<String>,
    pub full_name: String,
    pub dob: Option<String>,
    pub gender: String,
    pub mother_name: String,
    pub father_name: String,
    pub father_occupation: Option<String>,
    pub mother_occupation: Option<String>,
    pub annual_income: Option<u64>,
    pub nationality: Option<String>,
    pub profile_image: Option<String>,
    pub class_id: String,
    pub section: Option<String>,
    pub academic_year: Option<String>,
    pub email: Option<String>,
    pub mobile_number: Option<String>,
    pub alternate_contact_number: Option<String>,
    pub address: Option<String>,
    pub city: Option<String>,
    pub state: Option<String>,
    pub country: Option<String>,
    pub postal_code: Option<String>,
    pub guardian_contact_info: Option<String>,
    pub blood_group: Option<String>,
    pub status: Option<String>,
    pub admission_date: Option<String>,
    pub weight_kg: Option<u32>,
    pub height_cm: Option<u32>,
    pub hb_range: Option<String>,
    pub medical_conditions: Option<String>,
    pub emergency_contact_person: Option<String>,
    pub emergency_contact: Option<String>,
    pub birth_certificate: Option<String>,
    pub transfer_certificate: Option<String>,
    pub previous_academic_records: Option<String>,
    pub address_proof: Option<String>,
    pub id_proof: Option<String>,
    pub passport_photo: Option<String>,
    pub medical_certificate: Option<String>,
    pub other_documents: Option<String>,
    pub vaccination_certificate: Option<String>,
}

/// The card record a stored student row projects to: the columns the
/// card listing selects are carried over, everything else stays empty.
pub open spec fn idcard_of(s: students::Student) -> Student {
    Student {
        id: s.core.id,
        gr_number: s.core.gr_number,
        roll_number: s.core.roll_number,
        full_name: s.core.full_name,
        dob: s.core.dob,
        gender: s.core.gender,
        mother_name: s.core.mother_name,
        father_name: s.core.father_name,
        father_occupation: s.core.father_occupation,
        mother_occupation: s.core.mother_occupation,
        annual_income: s.core.annual_income,
        nationality: s.core.nationality,
        profile_image: s.core.profile_image,
        class_id: s.core.class_id,
        section: s.core.section,
        academic_year: s.core.academic_year,
        email: s.contact.email,
        mobile_number: s.contact.mobile_number,
        alternate_contact_number: None,
        address: s.contact.address,
        city: s.contact.city,
        state: s.contact.state,
        country: s.contact.country,
        postal_code: s.contact.postal_code,
        guardian_contact_info: None,
        blood_group: s.health.blood_group,
        status: s.health.status,
        admission_date: s.health.admission_date,
        weight_kg: None,
        height_cm: None,
        hb_range: None,
        medical_conditions: None,
        emergency_contact_person: None,
        emergency_contact: None,
        birth_certificate: None,
        transfer_certificate: None,
        previous_academic_records: None,
        address_proof: None,
        id_proof: None,
        passport_photo: None,
        medical_certificate: None,
        other_documents: None,
        vaccination_certificate: None,
    }
}

/// Every student, projected to its card record, in stored order.
#[verifier::loop_isolation(false)]
pub fn get_all_students_for_idcards(t: &StudentTable) -> (r: Vec<Student>)
    ensures
        r@.len() == t.rows@.len(),
        forall|i: int| 0 <= i < r@.len() ==> #[trigger] r@[i] == idcard_of(t.rows@[i]),
{
    let n = t.rows.len();
    let mut r: Vec<Student> = Vec::new();
    let mut i: usize = 0;
    while i < n
        invariant
            i <= n,
            r@.len() == i,
            forall|k: int| 0 <= k < i ==> #[trigger] r@[k] == idcard_of(t.rows@[k]),
        decreases n - i,
    {
        let row = &t.rows[i];
        r.push(
            Student {
                id: row.core.id,
                gr_number: row.core.gr_number.clone(),
                roll_number: util::clone_opt_string(&row.core.roll_number),
                full_name: row.core.full_name.clone(),
                dob: util::clone_opt_string(&row.core.dob),
                gender: row.core.gender.clone(),
                mother_name: row.core.mother_name.clone(),
                father_name: row.core.father_name.clone(),
                father_occupation: util::clone_opt_string(&row.core.father_occupation),
                mother_occupation: util::clone_opt_string(&row.core.mother_occupation),
                annual_income: row.core.annual_income,
                nationality: util::clone_opt_string(&row.core.nationality),
                profile_image: util::clone_opt_string(&row.core.profile_image),
                class_id: row.core.class_id.clone(),
                section: util::clone_opt_string(&row.core.section),
                academic_year: util::clone_opt_string(&row.core.academic_year),
                email: util::clone_opt_string(&row.contact.email),
                mobile_number: util::clone_opt_string(&row.contact.mobile_number),
                alternate_contact_number: None,
                address: util::clone_opt_string(&row.contact.address),
                city: util::clone_opt_string(&row.contact.city),
                state: util::clone_opt_string(&row.contact.state),
                country: util::clone_opt_string(&row.contact.country),
                postal_code: util::clone_opt_string(&row.contact.postal_code),
                guardian_contact_info: None,
                blood_group: util::clone_opt_string(&row.health.blood_group),
                status: util::clone_opt_string(&row.health.status),
                admission_date: util::clone_opt_string(&row.health.admission_date),
                weight_kg: None,
                height_cm: None,
                hb_range: None,
                medical_conditions: None,
                emergency_contact_person: None,
                emergency_contact: None,
                birth_certificate: None,
                transfer_certificate: None,
                previous_academic_records: None,
                address_proof: None,
                id_proof: None,
                passport_photo: None,
                medical_certificate: None,
                other_documents: None,
                vaccination_certificate: None,
            },
        );
        i = i + 1;
    }
    r
}

} // verus!
