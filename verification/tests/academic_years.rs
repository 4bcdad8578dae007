use campussync::academic_year::{AcademicYear, AcademicYearTable};
use campussync::class::ClassTable;

fn now1() -> String {
    "2024-06-01 10:00:00".to_string()
}

fn now2() -> String {
    "2024-06-02 11:30:00".to_string()
}

#[test]
fn upsert_creates_a_year() {
    let mut t = AcademicYearTable::new();
    let id = t.upsert_academic_year("2024-2025".to_string(), false, now1());
    assert_eq!(id, 1);
    assert_eq!(t.rows.len(), 1);
    let row = &t.rows[0];
    assert_eq!(row.id, Some(1));
    assert_eq!(row.academic_year, "2024-2025");
    assert_eq!(row.status.as_deref(), Some("inactive"));
    assert_eq!(row.created_at.as_deref(), Some("2024-06-01 10:00:00"));
    assert_eq!(row.updated_at.as_deref(), Some("2024-06-01 10:00:00"));
}

#[test]
fn upsert_with_existing_name_touches_the_row() {
    let mut t = AcademicYearTable::new();
    let first = t.upsert_academic_year("2024-2025".to_string(), false, now1());
    let second = t.upsert_academic_year("2024-2025".to_string(), false, now2());
    assert_eq!(first, second);
    assert_eq!(t.rows.len(), 1);
    assert_eq!(t.rows[0].created_at.as_deref(), Some("2024-06-01 10:00:00"));
    assert_eq!(t.rows[0].updated_at.as_deref(), Some("2024-06-02 11:30:00"));
}

#[test]
fn setting_a_year_current_deactivates_the_others() {
    let mut t = AcademicYearTable::new();
    let a = t.upsert_academic_year("2023-2024".to_string(), true, now1());
    let b = t.upsert_academic_year("2024-2025".to_string(), true, now1());
    assert_eq!((a, b), (1, 2));
    assert_eq!(t.rows[0].status.as_deref(), Some("inactive"));
    assert_eq!(t.rows[1].status.as_deref(), Some("active"));

    t.set_current_academic_year(a, now2());
    assert_eq!(t.rows[0].status.as_deref(), Some("active"));
    assert_eq!(t.rows[1].status.as_deref(), Some("inactive"));
    assert_eq!(t.rows[0].updated_at.as_deref(), Some("2024-06-02 11:30:00"));
}

#[test]
fn get_current_returns_the_single_active_year() {
    let mut t = AcademicYearTable::new();
    assert!(t.get_current_academic_year().is_none());
    t.upsert_academic_year("2024-2025".to_string(), true, now1());
    let current = t.get_current_academic_year().expect("an active year");
    assert_eq!(current.academic_year, "2024-2025");
    assert_eq!(current.status.as_deref(), Some("active"));
}

#[test]
fn get_all_lists_newest_first() {
    let mut t = AcademicYearTable::new();
    t.upsert_academic_year("2022-2023".to_string(), false, now1());
    t.upsert_academic_year("2023-2024".to_string(), false, now1());
    t.upsert_academic_year("2024-2025".to_string(), false, now2());
    let all: Vec<AcademicYear> = t.get_all_academic_years();
    let names: Vec<&str> = all.iter().map(|y| y.academic_year.as_str()).collect();
    assert_eq!(names, vec!["2024-2025", "2023-2024", "2022-2023"]);
}

#[test]
fn delete_refuses_a_referenced_year() {
    let mut years = AcademicYearTable::new();
    let year_id = years.upsert_academic_year("2024-2025".to_string(), true, now1());
    let mut classes = ClassTable::new();
    classes
        .create_class("Class-1 A".to_string(), year_id, None, &years, now1())
        .expect("class creation");

    let refused = years.delete_academic_year(year_id, &classes);
    assert!(refused.is_err());
    assert_eq!(
        refused.unwrap_err().message(),
        "FOREIGN KEY constraint failed"
    );
    assert_eq!(years.rows.len(), 1);

    classes.delete_class(classes.rows[0].id.unwrap());
    years
        .delete_academic_year(year_id, &classes)
        .expect("deletion after the reference is gone");
    assert!(years.rows.is_empty());
}

#[test]
fn delete_of_an_unknown_id_changes_nothing() {
    let mut years = AcademicYearTable::new();
    years.upsert_academic_year("2024-2025".to_string(), false, now1());
    let classes = ClassTable::new();
    years.delete_academic_year(99, &classes).expect("no-op deletion");
    assert_eq!(years.rows.len(), 1);
}

#[test]
fn setting_an_unknown_id_current_leaves_no_active_year() {
    let mut t = AcademicYearTable::new();
    t.upsert_academic_year("2024-2025".to_string(), true, now1());
    t.set_current_academic_year(42, now2());
    assert!(t.get_current_academic_year().is_none());
    assert_eq!(t.rows[0].status.as_deref(), Some("inactive"));
}

#[test]
fn upsert_without_set_as_current_keeps_statuses() {
    let mut t = AcademicYearTable::new();
    t.upsert_academic_year("2023-2024".to_string(), true, now1());
    t.upsert_academic_year("2024-2025".to_string(), false, now1());
    assert_eq!(t.rows[0].status.as_deref(), Some("active"));
    assert_eq!(t.rows[1].status.as_deref(), Some("inactive"));
    // touching the active year without the flag keeps it active
    t.upsert_academic_year("2023-2024".to_string(), false, now2());
    assert_eq!(t.rows[0].status.as_deref(), Some("active"));
}
