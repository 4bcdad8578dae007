use campussync::enquiry::{Enquiry, EnquiryError, EnquiryTable, FollowUp, Note};

fn now() -> String {
    "2024-06-01 10:00:00".to_string()
}

fn enquiry(name: &str, status: Option<&str>) -> Enquiry {
    Enquiry {
        id: None,
        student_name: name.to_string(),
        parent_name: "A Parent".to_string(),
        phone: "9876543210".to_string(),
        email: Some("parent@example.com".to_string()),
        source: "walk-in".to_string(),
        status: status.map(|s| s.to_string()),
        created_at: None,
    }
}

#[test]
fn create_defaults_the_status_to_new() {
    let mut t = EnquiryTable::new();
    let id = t.create_enquiry(enquiry("Asha", None), now());
    assert_eq!(id, 1);
    assert_eq!(t.enquiries[0].status.as_deref(), Some("new"));
    assert_eq!(t.enquiries[0].created_at.as_deref(), Some("2024-06-01 10:00:00"));

    let id2 = t.create_enquiry(enquiry("Binod", Some("contacted")), now());
    assert_eq!(id2, 2);
    assert_eq!(t.enquiries[1].status.as_deref(), Some("contacted"));
}

#[test]
fn get_and_get_all() {
    let mut t = EnquiryTable::new();
    let a = t.create_enquiry(enquiry("Asha", None), now());
    let b = t.create_enquiry(enquiry("Binod", None), now());
    let got = t.get_enquiry(a).expect("lookup");
    assert_eq!(got.student_name, "Asha");
    assert_eq!(t.get_enquiry(99), Err(EnquiryError::NotFound));

    let all = t.get_all_enquiries();
    let names: Vec<&str> = all.iter().map(|e| e.student_name.as_str()).collect();
    assert_eq!(names, vec!["Binod", "Asha"]);
    assert_eq!(all[0].id, Some(b));
}

#[test]
fn update_keeps_id_and_creation_stamp() {
    let mut t = EnquiryTable::new();
    let id = t.create_enquiry(enquiry("Asha", None), now());
    let mut replacement = enquiry("Asha Devi", Some("admitted"));
    replacement.created_at = Some("ignored".to_string());
    t.update_enquiry(id, replacement);
    assert_eq!(t.enquiries[0].id, Some(id));
    assert_eq!(t.enquiries[0].student_name, "Asha Devi");
    assert_eq!(t.enquiries[0].status.as_deref(), Some("admitted"));
    assert_eq!(t.enquiries[0].created_at.as_deref(), Some("2024-06-01 10:00:00"));

    t.update_enquiry_status(id, "closed".to_string());
    assert_eq!(t.enquiries[0].status.as_deref(), Some("closed"));
}

#[test]
fn notes_and_follow_ups_need_an_existing_enquiry() {
    let mut t = EnquiryTable::new();
    let note = Note {
        id: None,
        enquiry_id: 5,
        notes: "called back".to_string(),
        created_at: None,
    };
    let refused = t.create_note(note, now());
    assert_eq!(refused, Err(EnquiryError::ForeignKey));
    assert_eq!(
        EnquiryError::ForeignKey.message(),
        "FOREIGN KEY constraint failed"
    );

    let id = t.create_enquiry(enquiry("Asha", None), now());
    let note = Note {
        id: None,
        enquiry_id: id,
        notes: "called back".to_string(),
        created_at: None,
    };
    let note_id = t.add_enquiry_note(note, now()).expect("note");
    assert_eq!(note_id, 1);
    assert_eq!(t.notes[0].created_at.as_deref(), Some("2024-06-01 10:00:00"));

    let fup = FollowUp {
        id: None,
        enquiry_id: id,
        notes: "visit planned".to_string(),
        status: "pending".to_string(),
        created_at: "ignored".to_string(),
        follow_up_date: Some("2024-06-10".to_string()),
    };
    let fup_id = t.add_enquiry_follow_up(fup, now()).expect("follow-up");
    assert_eq!(fup_id, 1);
    assert_eq!(t.followups[0].created_at, "2024-06-01 10:00:00");
}

#[test]
fn listings_are_filtered_and_newest_first() {
    let mut t = EnquiryTable::new();
    let a = t.create_enquiry(enquiry("Asha", None), now());
    let b = t.create_enquiry(enquiry("Binod", None), now());
    for (eid, text) in [(a, "first"), (b, "other"), (a, "second")] {
        let note = Note {
            id: None,
            enquiry_id: eid,
            notes: text.to_string(),
            created_at: None,
        };
        t.create_note(note, now()).expect("note");
    }
    let notes_a = t.get_enquiry_notes(a);
    let texts: Vec<&str> = notes_a.iter().map(|n| n.notes.as_str()).collect();
    assert_eq!(texts, vec!["second", "first"]);
    assert!(t.get_enquiry_follow_ups(a).is_empty());
}

#[test]
fn deleting_an_enquiry_removes_its_notes_and_follow_ups() {
    let mut t = EnquiryTable::new();
    let a = t.create_enquiry(enquiry("Asha", None), now());
    let b = t.create_enquiry(enquiry("Binod", None), now());
    for eid in [a, b, a] {
        let note = Note {
            id: None,
            enquiry_id: eid,
            notes: "n".to_string(),
            created_at: None,
        };
        t.create_note(note, now()).expect("note");
        let fup = FollowUp {
            id: None,
            enquiry_id: eid,
            notes: "f".to_string(),
            status: "pending".to_string(),
            created_at: String::new(),
            follow_up_date: None,
        };
        t.add_enquiry_follow_up(fup, now()).expect("follow-up");
    }
    t.delete_enquiry(a);
    assert_eq!(t.enquiries.len(), 1);
    assert_eq!(t.enquiries[0].id, Some(b));
    assert_eq!(t.notes.len(), 1);
    assert_eq!(t.notes[0].enquiry_id, b);
    assert_eq!(t.followups.len(), 1);
    assert_eq!(t.followups[0].enquiry_id, b);
}
