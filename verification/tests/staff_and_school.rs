use campussync::school::{School, SchoolTable};
use campussync::staff::{Staff, StaffError, StaffTable};

fn now() -> String {
    "2024-06-01 10:00:00".to_string()
}

fn staff(name: &str, status: Option<&str>) -> Staff {
    Staff {
        id: None,
        name: name.to_string(),
        gender: "F".to_string(),
        dob: "1990-01-01".to_string(),
        phone: "9876543210".to_string(),
        alt_phone: None,
        email: "teacher@example.com".to_string(),
        qualification: "B.Ed".to_string(),
        designation: "Teacher".to_string(),
        department: "Science".to_string(),
        joining_date: "2020-06-01".to_string(),
        employment_type: "full-time".to_string(),
        photo_url: None,
        status: status.map(|s| s.to_string()),
        created_at: None,
    }
}

fn school(image: Option<&str>) -> School {
    School {
        id: None,
        school_name: "Green Valley".to_string(),
        school_board: "State".to_string(),
        school_medium: "English".to_string(),
        principal_name: "R. Rao".to_string(),
        contact_number: "0801234567".to_string(),
        alternate_contact_number: None,
        school_email: "office@greenvalley.example".to_string(),
        address: "12 Hill Road".to_string(),
        city: "Mysuru".to_string(),
        state: "Karnataka".to_string(),
        pincode: "570001".to_string(),
        website: None,
        school_image: image.map(|s| s.to_string()),
        created_at: None,
        updated_at: None,
    }
}

#[test]
fn staff_create_defaults_to_active() {
    let mut t = StaffTable::new();
    let id = t.create_staff(staff("Meena", None), now());
    assert_eq!(id, 1);
    assert_eq!(t.rows[0].status.as_deref(), Some("active"));
    assert_eq!(t.rows[0].created_at.as_deref(), Some("2024-06-01 10:00:00"));

    let got = t.get_staff(id).expect("lookup");
    assert_eq!(got.name, "Meena");
    assert_eq!(t.get_staff(9), Err(StaffError::NotFound));
}

#[test]
fn staff_listing_is_newest_first() {
    let mut t = StaffTable::new();
    t.create_staff(staff("Meena", None), now());
    t.create_staff(staff("Ravi", None), now());
    let all = t.get_all_staffs();
    let names: Vec<&str> = all.iter().map(|s| s.name.as_str()).collect();
    assert_eq!(names, vec!["Ravi", "Meena"]);
}

#[test]
fn staff_update_keeps_id_and_creation_stamp() {
    let mut t = StaffTable::new();
    let id = t.create_staff(staff("Meena", None), now());
    t.update_staff(id, staff("Meena Kumari", Some("inactive")));
    assert_eq!(t.rows[0].id, Some(id));
    assert_eq!(t.rows[0].name, "Meena Kumari");
    assert_eq!(t.rows[0].status.as_deref(), Some("inactive"));
    assert_eq!(t.rows[0].created_at.as_deref(), Some("2024-06-01 10:00:00"));
    // an unknown id changes nothing
    t.update_staff(42, staff("Ghost", None));
    assert_eq!(t.rows.len(), 1);
    assert_eq!(t.rows[0].name, "Meena Kumari");
}

#[test]
fn staff_delete_removes_the_row() {
    let mut t = StaffTable::new();
    let a = t.create_staff(staff("Meena", None), now());
    let b = t.create_staff(staff("Ravi", None), now());
    t.delete_staff(a);
    assert_eq!(t.rows.len(), 1);
    assert_eq!(t.rows[0].id, Some(b));
}

#[test]
fn school_upsert_creates_then_rewrites_in_place() {
    let mut t = SchoolTable::new();
    assert!(t.get_school_details().is_none());

    let (id, removed) = t.upsert_school_details(school(Some("images/logo v1.png")), now());
    assert_eq!(id, 1);
    assert!(removed.is_none());
    let stored = t.get_school_details().expect("a record");
    assert_eq!(stored.id, Some(1));
    assert_eq!(stored.created_at.as_deref(), Some("2024-06-01 10:00:00"));

    let mut second = school(Some("images/logo v2.png"));
    second.city = "Bengaluru".to_string();
    let (id2, removed2) = t.upsert_school_details(second, "2024-07-01 09:00:00".to_string());
    assert_eq!(id2, 1);
    assert_eq!(removed2.as_deref(), Some("logo v1.png"));
    let stored = t.get_school_details().expect("a record");
    assert_eq!(stored.city, "Bengaluru");
    assert_eq!(stored.created_at.as_deref(), Some("2024-06-01 10:00:00"));
    assert_eq!(stored.updated_at.as_deref(), Some("2024-07-01 09:00:00"));
}

#[test]
fn school_upsert_reports_no_removal_when_the_image_is_kept() {
    let mut t = SchoolTable::new();
    t.upsert_school_details(school(Some("images/logo.png")), now());
    let (_, removed) = t.upsert_school_details(school(Some("images/logo.png")), now());
    assert!(removed.is_none());
    let (_, removed) = t.upsert_school_details(school(None), now());
    assert!(removed.is_none());
}
