//! The school-profile store.
//!
//! The profile is a single record: reading returns it if present, and
//! the upsert either fills it for the first time or rewrites it in
//! place.  When the upsert replaces the stored image with a different
//! one, it reports the old image's file name so the caller can remove
//! the file.

use vstd::prelude::*;
use vstd::string::*;

use crate::text;
use crate::util;

verus! {

/// The school-profile record.
#[derive(Debug, PartialEq)]
pub struct School {
    pub id: Option<i64>,
    pub school_name: String,
    pub school_board: String,
    pub school_medium: String,
    pub principal_name: String,
    pub contact_number: String,
    pub alternate_contact_number: Option<String>,
    pub school_email: String,
    pub address: String,
    pub city: String,
    pub state: String,
    pub pincode: String,
    pub website: Option<String>,
    pub school_image: Option<String>,
    pub created_at: Option<String>,
    pub updated_at: Option<String>,
}

impl Clone for School {
    fn clone(&self) -> (r: Self)
        ensures
            r == *self,
    {
        School {
            id: self.id,
            school_name: self.school_name.clone(),
            school_board: self.school_board.clone(),
            school_medium: self.school_medium.clone(),
            principal_name: self.principal_name.clone(),
            contact_number: self.contact_number.clone(),
            alternate_contact_number: util::clone_opt_string(&self.alternate_contact_number),
            school_email: self.school_email.clone(),
            address: self.address.clone(),
            city: self.city.clone(),
            state: self.state.clone(),
            pincode: self.pincode.clone(),
            website: util::clone_opt_string(&self.website),
            school_image: util::clone_opt_string(&self.school_image),
            created_at: util::clone_opt_string(&self.created_at),
            updated_at: util::clone_opt_string(&self.updated_at),
        }
    }
}

/// Whether an upsert replaces one stored image file with a different
/// one: both the old and the new record carry an image, and their
/// texts differ.
pub open spec fn replaces_image(before: School, given: School) -> bool {
    &&& before.school_image matches Some(o)
    &&& given.school_image matches Some(n)
    &&& before.school_image->0@ != given.school_image->0@
}

/// The descriptive fields a record hands to the store, as they land in
/// the stored row.
pub open spec fn school_fields(row: School, given: School) -> bool {
    &&& row.school_name == given.school_name
    &&& row.school_board == given.school_board
    &&& row.school_medium == given.school_medium
    &&& row.principal_name == given.principal_name
    &&& row.contact_number == given.contact_number
    &&& row.alternate_contact_number == given.alternate_contact_number
    &&& row.school_email == given.school_email
    &&& row.address == given.address
    &&& row.city == given.city
    &&& row.state == given.state
    &&& row.pincode == given.pincode
    &&& row.website == given.website
    &&& row.school_image == given.school_image
}

/// The school table: at most one record.
pub struct SchoolTable {
    pub row: Option<School>,
    pub next_id: i64,
}

impl SchoolTable {
    /// The record, if present, carries an assigned id below `next_id`.
    pub open spec fn wf(self) -> bool {
        &&& 1 <= self.next_id
        &&& (self.row matches Some(s) ==> (s.id is Some && 1 <= s.id->0 < self.next_id))
    }

    /// An empty table.
    pub fn new() -> (r: Self)
        ensures
            r.wf(),
            r.row is None,
            r.next_id == 1,
    {
        SchoolTable { row: None, next_id: 1 }
    }

    /// The single record, if any.
    pub fn get_school_details(&self) -> (r: Option<School>)
        ensures
            r == self.row,
    {
        match &self.row {
            Some(s) => Some(s.clone()),
            None => None,
        }
    }

    /// Stores the record: the first call creates it, every later call
    /// rewrites it in place, keeping its id and creation stamp.
    /// Returns the record's id and, when a different stored image is
    /// replaced, the file name of the old image.
    pub fn upsert_school_details(&mut self, school_details: School, now: String) -> (r: (
        i64,
        Option<String>,
    ))
        requires
            old(self).wf(),
            old(self).next_id < i64::MAX,
        ensures
            final(self).wf(),
            final(self).row is Some,
            school_fields(final(self).row->0, school_details),
            final(self).row->0.updated_at matches Some(t) && t@ == now@,
            old(self).row is None ==> {
                &&& final(self).row->0.id == Some(old(self).next_id)
                &&& r.0 == old(self).next_id
                &&& final(self).next_id == old(self).next_id + 1
                &&& final(self).row->0.created_at == Some(now)
                &&& r.1 is None
            },
            old(self).row matches Some(before) ==> {
                &&& final(self).row->0.id == before.id
                &&& r.0 == before.id->0
                &&& final(self).next_id == old(self).next_id
                &&& final(self).row->0.created_at == before.created_at
                &&& (if replaces_image(before, school_details) {
                    r.1 matches Some(f) && f@ == text::after_last(before.school_image->0@, '/')
                } else {
                    r.1 is None
                })
            },
    {
        match &self.row {
            Some(before) => {
                let id = before.id.unwrap();
                let replaced: Option<String> = match (&before.school_image, &school_details.school_image) {
                    (Some(old_img), Some(new_img)) => {
                        if !text::str_eq(old_img.as_str(), new_img.as_str()) {
                            Some(text::file_name_of(old_img.as_str()))
                        } else {
                            None
                        }
                    },
                    _ => None,
                };
                let created = util::clone_opt_string(&before.created_at);
                self.row = Some(
                    School {
                        id: Some(id),
                        school_name: school_details.school_name,
                        school_board: school_details.school_board,
                        school_medium: school_details.school_medium,
                        principal_name: school_details.principal_name,
                        contact_number: school_details.contact_number,
                        alternate_contact_number: school_details.alternate_contact_number,
                        school_email: school_details.school_email,
                        address: school_details.address,
                        city: school_details.city,
                        state: school_details.state,
                        pincode: school_details.pincode,
                        website: school_details.website,
                        school_image: school_details.school_image,
                        created_at: created,
                        updated_at: Some(now),
                    },
                );
                (id, replaced)
            },
            None => {
                let id = self.next_id;
                self.next_id = self.next_id + 1;
                self.row = Some(
                    School {
                        id: Some(id),
                        school_name: school_details.school_name,
                        school_board: school_details.school_board,
                        school_medium: school_details.school_medium,
                        principal_name: school_details.principal_name,
                        contact_number: school_details.contact_number,
                        alternate_contact_number: school_details.alternate_contact_number,
                        school_email: school_details.school_email,
                        address: school_details.address,
                        city: school_details.city,
                        state: school_details.state,
                        pincode: school_details.pincode,
                        website: school_details.website,
                        school_image: school_details.school_image,
                        created_at: Some(now.clone()),
                        updated_at: Some(now),
                    },
                );
                (id, None)
            },
        }
    }
}

} // verus!
