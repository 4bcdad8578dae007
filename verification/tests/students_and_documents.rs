use base64::Engine;
use campussync::academic_year::AcademicYearTable;
use campussync::class::ClassTable;
use campussync::idcard::get_all_students_for_idcards;
use campussync::image::sanitize_image_filename;
use campussync::students::{
    get_student_document_base64, student_document_filename, Student, StudentContact, StudentCore,
    StudentDocs, StudentError, StudentHealth, StudentTable,
};

fn now() -> String {
    "2024-06-01 10:00:00".to_string()
}

fn classes_with_one() -> (ClassTable, i64) {
    let mut years = AcademicYearTable::new();
    let year_id = years.upsert_academic_year("2024-2025".to_string(), true, now());
    let mut classes = ClassTable::new();
    let class_id = classes
        .create_class("Class-1 A".to_string(), year_id, None, &years, now())
        .expect("class creation");
    (classes, class_id)
}

fn core_section(gr: &str, class_id: &str) -> StudentCore {
    StudentCore {
        id: None,
        gr_number: gr.to_string(),
        roll_number: Some("12".to_string()),
        full_name: "Asha Devi".to_string(),
        dob: Some("2015-03-04".to_string()),
        gender: "F".to_string(),
        mother_name: "Meena".to_string(),
        father_name: "Raju".to_string(),
        father_occupation: None,
        mother_occupation: None,
        annual_income: Some(250000.5f64.to_bits()),
        nationality: Some("Indian".to_string()),
        profile_image: None,
        class_id: class_id.to_string(),
        section: Some("A".to_string()),
        academic_year: Some("2024-2025".to_string()),
        class_name: None,
    }
}

fn contact() -> StudentContact {
    StudentContact {
        email: Some("home@example.com".to_string()),
        mobile_number: Some("9876543210".to_string()),
        alternate_contact_number: None,
        address: Some("12 Hill Road".to_string()),
        city: Some("Mysuru".to_string()),
        state: Some("Karnataka".to_string()),
        country: Some("India".to_string()),
        postal_code: Some("570001".to_string()),
        guardian_contact_info: None,
    }
}

fn health() -> StudentHealth {
    StudentHealth {
        blood_group: Some("O+".to_string()),
        status: Some("enrolled".to_string()),
        admission_date: Some("2024-06-01".to_string()),
        weight_kg: Some(21.5f64.to_bits()),
        height_cm: Some(112.0f64.to_bits()),
        hb_range: None,
        medical_conditions: None,
        emergency_contact_person: Some("Raju".to_string()),
        emergency_contact: Some("9876500000".to_string()),
    }
}

fn docs() -> StudentDocs {
    StudentDocs {
        birth_certificate: Some("1_birth.pdf".to_string()),
        transfer_certificate: None,
        previous_academic_records: None,
        address_proof: Some("1_address.pdf".to_string()),
        id_proof: None,
        passport_photo: Some("1_photo.jpg".to_string()),
        medical_certificate: None,
        vaccination_certificate: None,
        other_documents: None,
    }
}

fn whole_student(gr: &str, class_id: &str) -> Student {
    Student {
        core: core_section(gr, class_id),
        contact: contact(),
        health: health(),
        docs: docs(),
    }
}

#[test]
fn the_staged_form_assembles_one_row() {
    let (classes, class_id) = classes_with_one();
    let mut t = StudentTable::new();
    let id = t
        .create_student1(core_section("GR-1", &class_id.to_string()), &classes)
        .expect("step one");
    assert_eq!(id, 1);
    assert!(t.rows[0].contact.email.is_none());

    t.create_student2(contact(), id);
    t.create_student3(health(), id);
    t.create_student4(docs(), id);
    let row = &t.rows[0];
    assert_eq!(row.contact.email.as_deref(), Some("home@example.com"));
    assert_eq!(row.health.blood_group.as_deref(), Some("O+"));
    assert_eq!(row.docs.birth_certificate.as_deref(), Some("1_birth.pdf"));
    assert_eq!(f64::from_bits(row.health.weight_kg.unwrap()), 21.5);
}

#[test]
fn step_one_refuses_an_unknown_class() {
    let (classes, _) = classes_with_one();
    let mut t = StudentTable::new();
    let refused = t.create_student1(core_section("GR-1", "77"), &classes);
    match refused {
        Err(StudentError::ClassMissing { ref class_id }) => assert_eq!(class_id, "77"),
        other => panic!("expected a class refusal, got {:?}", other),
    }
    assert_eq!(
        refused.unwrap_err().message(),
        "Class with id 77 does not exist"
    );
    assert!(t.rows.is_empty());
}

#[test]
fn step_one_with_an_id_rewrites_the_core() {
    let (classes, class_id) = classes_with_one();
    let mut t = StudentTable::new();
    let id = t
        .create_student1(core_section("GR-1", &class_id.to_string()), &classes)
        .expect("step one");
    t.create_student2(contact(), id);

    let mut revised = core_section("GR-1-NEW", &class_id.to_string());
    revised.id = Some(id);
    revised.full_name = "Asha D.".to_string();
    let same = t.create_student1(revised, &classes).expect("rewrite");
    assert_eq!(same, id);
    assert_eq!(t.rows.len(), 1);
    assert_eq!(t.rows[0].core.gr_number, "GR-1-NEW");
    assert_eq!(t.rows[0].core.full_name, "Asha D.");
    // the contact section of the row stays
    assert_eq!(t.rows[0].contact.email.as_deref(), Some("home@example.com"));
}

#[test]
fn class_references_match_by_the_number_the_text_spells() {
    let (classes, class_id) = classes_with_one();
    let mut t = StudentTable::new();
    // leading zeroes spell the same id
    let padded = format!("00{}", class_id);
    t.create_student1(core_section("GR-1", &padded), &classes)
        .expect("padded reference");
    assert!(t.create_student1(core_section("GR-2", "not-a-number"), &classes).is_err());
}

#[test]
fn bulk_insert_is_all_or_nothing() {
    let (classes, class_id) = classes_with_one();
    let cid = class_id.to_string();
    let mut t = StudentTable::new();

    let ids = t
        .excel_bulk_insert(
            vec![whole_student("GR-1", &cid), whole_student("GR-2", &cid)],
            &classes,
        )
        .expect("good batch");
    assert_eq!(ids, vec![1, 2]);
    assert_eq!(t.rows.len(), 2);
    assert_eq!(t.rows[1].core.gr_number, "GR-2");

    // a duplicate inside the batch rolls the whole batch back
    let refused = t.excel_bulk_insert(
        vec![whole_student("GR-3", &cid), whole_student("GR-3", &cid)],
        &classes,
    );
    match refused {
        Err(StudentError::GrExists { ref gr_number }) => assert_eq!(gr_number, "GR-3"),
        other => panic!("expected a GR refusal, got {:?}", other),
    }
    assert_eq!(
        refused.unwrap_err().message(),
        "Student with GR number GR-3 already exists"
    );
    assert_eq!(t.rows.len(), 2);

    // a GR number already stored is refused too
    let refused = t.excel_bulk_insert(vec![whole_student("GR-1", &cid)], &classes);
    assert!(matches!(refused, Err(StudentError::GrExists { .. })));
    assert_eq!(t.rows.len(), 2);
}

#[test]
fn listings_join_the_class_name() {
    let (classes, class_id) = classes_with_one();
    let mut t = StudentTable::new();
    t.create_student1(core_section("GR-1", &class_id.to_string()), &classes)
        .expect("step one");
    let all = t.get_students(None, &classes).expect("listing");
    assert_eq!(all.len(), 1);
    assert_eq!(all[0].core.class_name.as_deref(), Some("Class-1 A"));

    let one = t.get_students(Some(1), &classes).expect("lookup");
    assert_eq!(one.len(), 1);
    assert_eq!(one[0].core.gr_number, "GR-1");
    assert_eq!(t.get_students(Some(9), &classes), Err(StudentError::NotFound));
}

#[test]
fn delete_returns_the_document_files_of_the_removed_row() {
    let (classes, class_id) = classes_with_one();
    let mut t = StudentTable::new();
    let id = t
        .create_student1(core_section("GR-1", &class_id.to_string()), &classes)
        .expect("step one");
    t.create_student4(docs(), id);

    let removed = t.delete_student(id);
    assert_eq!(removed, vec!["1_birth.pdf", "1_address.pdf", "1_photo.jpg"]);
    assert!(t.rows.is_empty());

    let removed = t.delete_student(id);
    assert!(removed.is_empty());
}

#[test]
fn uploaded_documents_are_stored_under_id_stem_and_extension() {
    assert_eq!(student_document_filename(7, "birth certificate.pdf"), "7_birth certificate.pdf");
    assert_eq!(student_document_filename(12, "photo.tar.gz"), "12_photo.tar.gz");
    assert_eq!(student_document_filename(3, "noextension"), "3_noextension.pdf");
    assert_eq!(student_document_filename(3, ""), "3_unknown.pdf");
    assert_eq!(student_document_filename(3, ".bashrc"), "3_.bashrc.pdf");
}

#[test]
fn the_data_url_carries_mime_type_and_base64_payload() {
    let content = b"%PDF-1.4 minimal".to_vec();
    let url = get_student_document_base64("1_birth.pdf", content.clone());
    let expected_payload = base64::engine::general_purpose::STANDARD.encode(&content);
    assert_eq!(url, format!("data:application/pdf;base64,{}", expected_payload));

    let decoded = base64::engine::general_purpose::STANDARD
        .decode(url.rsplit(',').next().unwrap())
        .expect("valid base64");
    assert_eq!(decoded, content);

    let jpg = get_student_document_base64("x.jpg", vec![1, 2, 3]);
    assert!(jpg.starts_with("data:image/jpeg;base64,"));
    let unknown = get_student_document_base64("x.weird", vec![]);
    assert_eq!(unknown, "data:application/octet-stream;base64,");
}

#[test]
fn image_names_lose_their_spaces() {
    assert_eq!(sanitize_image_filename("school logo v 2.png"), "school_logo_v_2.png");
    assert_eq!(sanitize_image_filename("plain.png"), "plain.png");
    assert_eq!(sanitize_image_filename("   "), "___");
}

#[test]
fn idcards_project_the_stored_rows() {
    let (classes, class_id) = classes_with_one();
    let mut t = StudentTable::new();
    let id = t
        .create_student1(core_section("GR-1", &class_id.to_string()), &classes)
        .expect("step one");
    t.create_student2(contact(), id);
    t.create_student3(health(), id);
    t.create_student4(docs(), id);

    let cards = get_all_students_for_idcards(&t);
    assert_eq!(cards.len(), 1);
    let card = &cards[0];
    assert_eq!(card.gr_number, "GR-1");
    assert_eq!(card.email.as_deref(), Some("home@example.com"));
    assert_eq!(card.blood_group.as_deref(), Some("O+"));
    // columns the card query leaves out stay empty
    assert!(card.weight_kg.is_none());
    assert!(card.birth_certificate.is_none());
    assert!(card.guardian_contact_info.is_none());
}

#[test]
fn oversized_class_references_match_nothing() {
    let (classes, _) = classes_with_one();
    let mut t = StudentTable::new();
    let refused = t.create_student1(
        core_section("GR-1", "99999999999999999999999999"),
        &classes,
    );
    assert!(matches!(refused, Err(StudentError::ClassMissing { .. })));
}

#[test]
fn document_names_render_large_ids_in_decimal() {
    assert_eq!(
        student_document_filename(1234567890123, "scan.png"),
        "1234567890123_scan.png"
    );
    assert_eq!(student_document_filename(0, "a.b"), "0_a.b");
}
