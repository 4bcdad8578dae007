use campussync::academic_year::AcademicYearTable;
use campussync::class::{get_default_classes, ClassError, ClassTable};

fn now() -> String {
    "2024-06-01 10:00:00".to_string()
}

fn years_with_active() -> (AcademicYearTable, i64) {
    let mut years = AcademicYearTable::new();
    let id = years.upsert_academic_year("2024-2025".to_string(), true, now());
    (years, id)
}

#[test]
fn the_default_sections_run_from_nursery_to_class_ten() {
    let defaults = get_default_classes();
    assert_eq!(defaults.len(), 52);
    assert_eq!(defaults[0], "Nursery A");
    assert_eq!(defaults[12], "Class-1 A");
    assert_eq!(defaults[51], "Class-10 D");
}

#[test]
fn create_class_trims_and_defaults_to_active() {
    let (years, year_id) = years_with_active();
    let mut classes = ClassTable::new();
    let id = classes
        .create_class("  Class-1 A  ".to_string(), year_id, None, &years, now())
        .expect("creation");
    assert_eq!(id, 1);
    assert_eq!(classes.rows[0].class_name, "Class-1 A");
    assert_eq!(classes.rows[0].status.as_deref(), Some("active"));
}

#[test]
fn create_class_refuses_a_duplicate_name_key() {
    let (years, year_id) = years_with_active();
    let mut classes = ClassTable::new();
    classes
        .create_class("Class-1 A".to_string(), year_id, None, &years, now())
        .expect("creation");
    let refused = classes.create_class("  class-1 a ".to_string(), year_id, None, &years, now());
    match refused {
        Err(ClassError::Duplicate { ref class_name }) => {
            assert_eq!(class_name, "  class-1 a ");
        }
        other => panic!("expected a duplicate refusal, got {:?}", other),
    }
    assert_eq!(
        refused.unwrap_err().message(),
        "Class '  class-1 a ' already exists in the selected academic year"
    );
    assert_eq!(classes.rows.len(), 1);
}

#[test]
fn create_class_refuses_a_missing_year() {
    let years = AcademicYearTable::new();
    let mut classes = ClassTable::new();
    let refused = classes.create_class("Class-1 A".to_string(), 7, None, &years, now());
    assert_eq!(refused, Err(ClassError::YearMissing));
    assert_eq!(
        ClassError::YearMissing.message(),
        "Academic year does not exist"
    );
}

#[test]
fn get_all_classes_plants_defaults_on_an_empty_table() {
    let (years, year_id) = years_with_active();
    let mut classes = ClassTable::new();
    let listed = classes.get_all_classes(&years, now()).expect("listing");
    assert_eq!(classes.rows.len(), 52);
    assert_eq!(listed.len(), 52);
    for c in &listed {
        assert_eq!(c.academic_years, year_id);
        let details = c.academic_year_details.as_ref().expect("year attached");
        assert_eq!(details.academic_year, "2024-2025");
    }
    // ordered by name, code-point order
    for pair in listed.windows(2) {
        assert!(pair[0].class_name <= pair[1].class_name);
    }
    assert_eq!(listed[0].class_name, "Class-1 A");
}

#[test]
fn get_active_classes_lists_only_active_rows_sorted() {
    let (years, year_id) = years_with_active();
    let mut classes = ClassTable::new();
    classes
        .create_class("Zebra".to_string(), year_id, Some("active".to_string()), &years, now())
        .expect("creation");
    classes
        .create_class("Apple".to_string(), year_id, Some("active".to_string()), &years, now())
        .expect("creation");
    classes
        .create_class("Idle".to_string(), year_id, Some("inactive".to_string()), &years, now())
        .expect("creation");
    let active = classes.get_active_classes(&years).expect("listing");
    let names: Vec<&str> = active.iter().map(|c| c.class_name.as_str()).collect();
    assert_eq!(names, vec!["Apple", "Zebra"]);
}

#[test]
fn toggle_flips_the_status() {
    let (years, year_id) = years_with_active();
    let mut classes = ClassTable::new();
    let id = classes
        .create_class("Class-1 A".to_string(), year_id, None, &years, now())
        .expect("creation");
    classes.toggle_class_status(id, now()).expect("toggle");
    assert_eq!(classes.rows[0].status.as_deref(), Some("inactive"));
    classes.toggle_class_status(id, now()).expect("toggle");
    assert_eq!(classes.rows[0].status.as_deref(), Some("active"));
    assert_eq!(classes.toggle_class_status(99, now()), Err(ClassError::NotFound));
}

#[test]
fn update_class_ignores_its_own_row_in_the_duplicate_check() {
    let (years, year_id) = years_with_active();
    let mut classes = ClassTable::new();
    let a = classes
        .create_class("Class-1 A".to_string(), year_id, None, &years, now())
        .expect("creation");
    let b = classes
        .create_class("Class-1 B".to_string(), year_id, None, &years, now())
        .expect("creation");
    // renaming a row to its own name is fine
    classes
        .update_class(a, "class-1 a".to_string(), year_id, "inactive".to_string(), &years, now())
        .expect("self-rename");
    assert_eq!(classes.rows[0].class_name, "class-1 a");
    assert_eq!(classes.rows[0].status.as_deref(), Some("inactive"));
    // renaming onto another row's key is refused
    let refused = classes.update_class(
        b,
        " CLASS-1 A ".to_string(),
        year_id,
        "active".to_string(),
        &years,
        now(),
    );
    assert!(matches!(refused, Err(ClassError::Duplicate { .. })));
}

#[test]
fn get_class_returns_the_stored_row() {
    let (years, year_id) = years_with_active();
    let mut classes = ClassTable::new();
    let id = classes
        .create_class("Class-2 C".to_string(), year_id, None, &years, now())
        .expect("creation");
    let row = classes.get_class(id).expect("lookup");
    assert_eq!(row.class_name, "Class-2 C");
    assert!(row.academic_year_details.is_none());
    assert_eq!(classes.get_class(99), Err(ClassError::NotFound));
}

#[test]
fn the_one_time_planting_runs_only_once() {
    let (years, year_id) = years_with_active();
    let mut classes = ClassTable::new();
    classes
        .check_and_initialize_default_classes_once(year_id, &years, now())
        .expect("first run");
    assert_eq!(classes.rows.len(), 52);
    assert_eq!(classes.rows[0].class_name, "Nursery A");
    assert_eq!(classes.rows[0].status.as_deref(), Some("inactive"));
    classes
        .check_and_initialize_default_classes_once(year_id, &years, now())
        .expect("second run");
    assert_eq!(classes.rows.len(), 52);
}

#[test]
fn planting_fills_only_the_missing_sections() {
    let (years, year_id) = years_with_active();
    let mut classes = ClassTable::new();
    classes
        .create_class("Nursery A".to_string(), year_id, None, &years, now())
        .expect("creation");
    classes
        .initialize_default_classes(year_id, &years, now())
        .expect("planting");
    assert_eq!(classes.rows.len(), 52);
    let nursery_a: Vec<_> = classes
        .rows
        .iter()
        .filter(|c| c.class_name == "Nursery A")
        .collect();
    assert_eq!(nursery_a.len(), 1);
}
