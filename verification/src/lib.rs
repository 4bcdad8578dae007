//! Record-oriented data layer of a school-management application.
//!
//! Each module models one entity table (academic years, classes, staff,
//! school profile, enquiries, students) as an in-memory store with the
//! same create/read/update/delete semantics that the application runs
//! against its relational database.  The surrounding process is expected
//! to persist the stores and to supply timestamps and file contents;
//! everything that decides or computes lives here, with contracts.

pub mod academic_year;
pub mod class;
pub mod enquiry;
pub mod idcard;
pub mod image;
pub mod school;
pub mod staff;
pub mod students;
pub mod text;
pub mod util;
