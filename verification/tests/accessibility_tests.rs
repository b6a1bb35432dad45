use prompt_player::accessibility::{
    classify_mac_role, classify_uia_control, focused_field, focused_window_title,
    mac_non_text_roles, mac_text_roles, selected_text, selection_of, uia_non_text_types,
    uia_text_types, FieldKind, FocusedField,
};

#[test]
fn secure_subrole_beats_a_text_role() {
    assert_eq!(
        classify_mac_role(Some("AXTextField"), Some("AXSecureTextField")),
        FieldKind::Secure
    );
}

#[test]
fn mac_text_roles_are_editable() {
    for r in ["AXTextField", "AXTextArea", "AXComboBox", "AXSearchField"] {
        assert_eq!(classify_mac_role(Some(r), None), FieldKind::Editable, "{r}");
    }
}

#[test]
fn mac_control_roles_are_not_editable() {
    for r in ["AXButton", "AXRow", "AXStaticText", "AXPopUpButton"] {
        assert_eq!(classify_mac_role(Some(r), None), FieldKind::NotEditable, "{r}");
    }
}

#[test]
fn mac_web_and_container_roles_stay_unknown() {
    for r in ["AXWebArea", "AXGroup", "AXScrollArea", "AXUnknown", "AXWindow"] {
        assert_eq!(classify_mac_role(Some(r), None), FieldKind::Unknown, "{r}");
    }
    assert_eq!(classify_mac_role(None, None), FieldKind::Unknown);
}

#[test]
fn uia_password_flag_beats_control_type() {
    assert_eq!(classify_uia_control(50004, true), FieldKind::Secure);
}

#[test]
fn uia_edit_and_document_are_editable() {
    assert_eq!(classify_uia_control(50004, false), FieldKind::Editable);
    assert_eq!(classify_uia_control(50030, false), FieldKind::Editable);
}

#[test]
fn uia_button_is_not_editable() {
    assert_eq!(classify_uia_control(50000, false), FieldKind::NotEditable);
}

#[test]
fn uia_unlisted_types_stay_unknown() {
    for t in [50032, 50033, 0, -1, 99999] {
        assert_eq!(classify_uia_control(t, false), FieldKind::Unknown, "{t}");
    }
}

#[test]
fn uia_text_and_non_text_lists_are_disjoint() {
    let non = uia_non_text_types();
    for t in uia_text_types() {
        assert!(!non.contains(&t), "control type {t} is in both lists");
    }
}

#[test]
fn mac_text_and_non_text_lists_are_disjoint() {
    let non = mac_non_text_roles();
    for r in mac_text_roles() {
        assert!(!non.contains(&r), "role {r} is in both lists");
    }
}

#[test]
fn only_confident_negatives_block_typing() {
    assert!(FieldKind::Editable.allows_typing());
    assert!(FieldKind::Unknown.allows_typing(), "fail open");
    assert!(!FieldKind::Secure.allows_typing());
    assert!(!FieldKind::NotEditable.allows_typing());
}

#[test]
fn default_is_permissive() {
    assert_eq!(FieldKind::default(), FieldKind::Unknown);
    assert!(FocusedField::default().kind.allows_typing());
}

#[test]
fn focused_field_is_safe_without_accessibility_grant() {
    let f = focused_field();
    if f.kind == FieldKind::Unknown {
        assert!(f.kind.allows_typing());
    }
}

#[test]
fn focused_field_is_cheap_enough_for_the_fire_path() {
    let start = std::time::Instant::now();
    let _ = focused_field();
    assert!(start.elapsed() < std::time::Duration::from_secs(2));
}

#[test]
fn window_title_query_does_not_panic() {
    let _ = focused_window_title();
}

#[test]
fn repeated_queries_do_not_leak_or_crash() {
    for _ in 0..50 {
        let _ = focused_field();
        let _ = focused_window_title();
    }
}

#[test]
fn focused_field_survives_a_headless_session() {
    let f = focused_field();
    if f.kind == FieldKind::Unknown {
        assert!(f.kind.allows_typing());
    }
}

#[test]
fn repeated_queries_do_not_crash_com() {
    for _ in 0..20 {
        let _ = focused_field();
    }
}

#[test]
fn reasons_name_each_kind() {
    assert_eq!(FieldKind::Editable.reason(), "editable");
    assert_eq!(FieldKind::Secure.reason(), "secure-field");
    assert_eq!(FieldKind::NotEditable.reason(), "not-editable");
    assert_eq!(FieldKind::Unknown.reason(), "unknown");
}

#[test]
fn an_empty_selection_counts_as_none() {
    let mut f = FocusedField::default();
    f.selected_text = Some(String::new());
    assert_eq!(selection_of(&f), None);
    f.selected_text = Some("picked".into());
    assert_eq!(selection_of(&f), Some("picked".to_string()));
    assert_eq!(selected_text(), None);
}
