use contemporary::config::{ContemporaryConfigDeployment, LocalisedString};

fn text(s: &Option<LocalisedString>) -> Option<String> {
    match s {
        Some(LocalisedString::Hardcoded(t)) => Some(t.clone()),
        _ => None,
    }
}

#[test]
fn application_name_of_a_release() {
    let d = ContemporaryConfigDeployment::new(Some(LocalisedString::Hardcoded("Foo".into())), false);
    assert_eq!(text(&d.application_name()), Some("Foo".to_string()));
}

#[test]
fn application_name_of_a_blueprint() {
    let d = ContemporaryConfigDeployment::new(Some(LocalisedString::Hardcoded("Foo".into())), true);
    assert_eq!(text(&d.application_name()), Some("Foo Blueprint".to_string()));
}

#[test]
fn localised_application_name_of_a_blueprint() {
    let name = LocalisedString::Localised(vec![
        ("en".to_string(), "Files".to_string()),
        ("de".to_string(), "Dateien".to_string()),
    ]);
    let d = ContemporaryConfigDeployment::new(Some(name), true);
    match d.application_name() {
        Some(LocalisedString::Localised(pairs)) => assert_eq!(
            pairs,
            vec![
                ("en".to_string(), "Files Blueprint".to_string()),
                ("de".to_string(), "Dateien Blueprint".to_string()),
            ]
        ),
        _ => panic!("expected a localised name"),
    }
}

#[test]
fn no_application_name() {
    let d = ContemporaryConfigDeployment::new(None, true);
    assert!(d.application_name().is_none());
}
