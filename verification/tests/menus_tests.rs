use contemporary::components::{
    modifier_parts, paint_order, shortcut_label, AdmonitionSeverity, ApplicationMenu, ContextMenuItem, KeyModifier,
    Keystroke, ModifierNames, PagerElement,
};
use contemporary::self_update::{
    SelfUpdateState, SelfUpdateStatus, UpdateAction, UpdateNotification, UpdateStatusControl, VisibleSelfUpdateState,
};
use contemporary::config::LocalisedString;
use contemporary::notification::{help_menu_entries, ApplicationLink, HelpMenuEntry, Notification, NotificationPriority};
use contemporary::text_field::{text_field_key_bindings, TextField, TextFieldAction};
use contemporary::text_layout::text_runs;
use contemporary::assets::parse_u8;

#[test]
fn pager_paints_the_top_page_last() {
    assert!(paint_order(PagerElement::Current, false, true) == vec![PagerElement::Previous, PagerElement::Current]);
    assert!(paint_order(PagerElement::Previous, false, true) == vec![PagerElement::Current, PagerElement::Previous]);
    assert!(paint_order(PagerElement::Current, true, true) == vec![PagerElement::Current]);
    assert!(paint_order(PagerElement::Previous, false, false) == vec![PagerElement::Current]);
}

#[test]
fn application_menu_navigation() {
    let mut menu: ApplicationMenu<&str> = ApplicationMenu::new("root");
    assert!(!menu.is_open());
    assert_eq!(*menu.current_menu(), "root");
    assert!(!menu.shows_back_button());
    menu.set_open(true);
    assert!(menu.is_open());
    menu.open_submenu("file");
    menu.open_submenu("recent");
    assert_eq!(*menu.current_menu(), "recent");
    assert!(menu.shows_back_button());
    menu.go_back();
    assert_eq!(*menu.current_menu(), "file");
    menu.go_back();
    assert_eq!(*menu.current_menu(), "root");
    menu.go_back();
    assert_eq!(*menu.current_menu(), "root");
    menu.open_submenu("edit");
    menu.set_open(false);
    assert!(!menu.is_open());
    assert_eq!(*menu.current_menu(), "root");
    assert!(!menu.shows_back_button());
}

#[test]
fn modifiers_come_in_a_fixed_order() {
    assert!(modifier_parts(true, true, true, true, true)
        == vec![KeyModifier::Control, KeyModifier::Shift, KeyModifier::Alt, KeyModifier::Platform, KeyModifier::Function]);
    assert!(modifier_parts(false, true, false, true, false) == vec![KeyModifier::Shift, KeyModifier::Platform]);
    assert!(modifier_parts(false, false, false, false, false).is_empty());
}

#[test]
fn runs_underline_the_marked_text() {
    assert_eq!(text_runs(10, None), vec![(10, false)]);
    assert_eq!(text_runs(10, Some((2, 5))), vec![(2, false), (3, true), (5, false)]);
    assert_eq!(text_runs(10, Some((0, 10))), vec![(10, true)]);
    assert_eq!(text_runs(10, Some((4, 4))), vec![(4, false), (6, false)]);
    assert_eq!(text_runs(0, None), vec![(0, false)]);
}

#[test]
fn help_menu_layout() {
    let links = vec![
        ApplicationLink::FileBug,
        ApplicationLink::HelpContents,
        ApplicationLink::SourceCode,
    ];
    assert!(help_menu_entries(&links)
        == vec![
            HelpMenuEntry::Link(0),
            HelpMenuEntry::HelpContents(1),
            HelpMenuEntry::Separator,
            HelpMenuEntry::Link(2),
            HelpMenuEntry::Separator,
            HelpMenuEntry::About,
        ]);
    assert!(help_menu_entries(&Vec::new()) == vec![HelpMenuEntry::About]);
}

#[test]
fn text_field_keys() {
    let bindings = text_field_key_bindings();
    assert_eq!(bindings.len(), 15);
    assert_eq!(bindings[0].0, "enter");
    assert!(bindings[0].1 == TextFieldAction::Enter);
    assert_eq!(bindings[1].0, "shift-enter");
    assert!(bindings[1].1 == TextFieldAction::NewLine);
    assert_eq!(bindings[14].0, "ctrl-cmd-space");
    assert!(bindings[14].1 == TextFieldAction::ShowCharacterPalette);
}

#[test]
fn border_can_be_turned_off() {
    let mut field = TextField::new();
    field.set_has_border(false);
    assert!(!field.has_border());
    field.set_has_border(true);
    assert!(field.has_border());
}

#[test]
fn high_priority_notification() {
    let n: Notification<u8> = Notification::new().high_priority();
    assert_eq!(n.priority, NotificationPriority::High);
}

#[test]
fn localised_names_get_the_suffix() {
    let name = LocalisedString::Localised(vec![
        ("en".to_string(), "Files".to_string()),
        ("de".to_string(), "Dateien".to_string()),
    ]);
    match name.with_blueprint_suffix() {
        LocalisedString::Localised(pairs) => {
            assert_eq!(pairs, vec![
                ("en".to_string(), "Files Blueprint".to_string()),
                ("de".to_string(), "Dateien Blueprint".to_string()),
            ]);
        }
        _ => panic!("expected a localised name"),
    }
    match name.duplicate() {
        LocalisedString::Localised(pairs) => assert_eq!(pairs.len(), 2),
        _ => panic!("expected a localised name"),
    }
    match LocalisedString::Hardcoded("Files".to_string()).with_blueprint_suffix() {
        LocalisedString::Hardcoded(s) => assert_eq!(s, "Files Blueprint"),
        _ => panic!("expected a fixed name"),
    }
}

#[test]
fn small_numbers_parse() {
    assert_eq!(parse_u8(&vec!['4', '2']), Some(42));
    assert_eq!(parse_u8(&vec!['2', '5', '5']), Some(255));
    assert_eq!(parse_u8(&vec!['2', '5', '6']), None);
    assert_eq!(parse_u8(&vec![]), None);
    assert_eq!(parse_u8(&vec!['x']), None);
    assert_eq!(parse_u8(&vec!['+', '7']), Some(7));
    assert_eq!(parse_u8(&vec!['0', '0', '7']), Some(7));
}

#[test]
fn clicking_context_menu_items() {
    let item: ContextMenuItem<u8> = ContextMenuItem::menu_item().label("Open".to_string()).on_triggered(1).build();
    let c = item.click();
    assert!(c.triggers_action && c.requests_close);
    let item: ContextMenuItem<u8> = ContextMenuItem::menu_item().remain_open().build();
    let c = item.click();
    assert!(c.triggers_action && !c.requests_close);
    let item: ContextMenuItem<u8> = ContextMenuItem::menu_item().disabled().build();
    let c = item.click();
    assert!(!c.triggers_action && !c.requests_close);
    let sep: ContextMenuItem<u8> = ContextMenuItem::<u8>::separator().build();
    let c = sep.click();
    assert!(!c.triggers_action && !c.requests_close);
}

fn button_of(control: &UpdateStatusControl) -> Option<(&'static str, &'static str, &'static str, UpdateAction)> {
    match control {
        UpdateStatusControl::Button(b) => Some((b.id, b.icon, b.label, b.action)),
        UpdateStatusControl::Spinner => None,
    }
}

#[test]
fn about_page_update_status() {
    let c = SelfUpdateStatus::content(&SelfUpdateState::Idle);
    assert_eq!(c.text, "ABOUT_UPDATE_NONE");
    assert!(button_of(&c.control) == Some(("check-for-updates-again", "view-refresh", "ABOUT_UPDATE_CHECK_AGAIN", UpdateAction::CheckForUpdates)));
    let c = SelfUpdateStatus::content(&SelfUpdateState::UpdateChecking);
    assert_eq!(c.text, "ABOUT_UPDATE_CHECKING");
    assert!(button_of(&c.control).is_none());
    let c = SelfUpdateStatus::content(&SelfUpdateState::UpdateDownloadingInBackground { version: Some("2.0".to_string()) });
    assert_eq!(c.text, "ABOUT_UPDATE_DOWNLOADING_VERSION");
    assert_eq!(c.version, Some("2.0".to_string()));
    let c = SelfUpdateStatus::content(&SelfUpdateState::UpdateDownloadingInBackground { version: None });
    assert_eq!(c.text, "ABOUT_UPDATE_DOWNLOADING");
    assert_eq!(c.version, None);
    let c = SelfUpdateStatus::content(&SelfUpdateState::UpdateDownloadedInBackground { version: None });
    assert_eq!(c.text, "ABOUT_UPDATE_READY");
    assert!(button_of(&c.control) == Some(("download", "package-upgrade", "UPDATE_NOTIFICATION_INSTALL_BUTTON", UpdateAction::InstallDownloadedUpdate)));
    let c = SelfUpdateStatus::content(&SelfUpdateState::RestartToUpdate { version: None });
    assert!(button_of(&c.control).map(|b| b.3) == Some(UpdateAction::RestartApplication));
    let c = SelfUpdateStatus::content(&SelfUpdateState::InstallStepFailed { version: Some("2.0".to_string()) });
    assert_eq!(c.text, "ABOUT_UPDATE_FAILED");
    assert!(button_of(&c.control).map(|b| b.0) == Some("retry-update"));
}

#[test]
fn application_menu_update_notification() {
    let c = UpdateNotification::content(&VisibleSelfUpdateState::UpdateDownloaded { version: Some("3.1".to_string()) });
    assert!(c.severity == AdmonitionSeverity::Info);
    assert_eq!(c.title, "UPDATE_NOTIFICATION_TITLE");
    assert_eq!(c.text, "UPDATE_NOTIFICATION_TEXT");
    assert_eq!(c.version, Some("3.1".to_string()));
    assert!(c.button.map(|b| b.action) == Some(UpdateAction::InstallDownloadedUpdate));
    let c = UpdateNotification::content(&VisibleSelfUpdateState::UpdateInstalling { version: None });
    assert_eq!(c.text, "UPDATE_NOTIFICATION_INSTALLING");
    assert!(c.button.is_none());
    let c = UpdateNotification::content(&VisibleSelfUpdateState::RestartToUpdate { version: None });
    assert_eq!(c.text, "UPDATE_NOTIFICATION_RESTART_NO_VERSION");
    assert!(c.button.map(|b| b.icon) == Some("system-reboot"));
    let c = UpdateNotification::content(&VisibleSelfUpdateState::InstallStepFailed { version: None });
    assert!(c.severity == AdmonitionSeverity::Error);
    assert_eq!(c.title, "UPDATE_NOTIFICATION_ERROR_TITLE");
    assert_eq!(c.text, "UPDATE_NOTIFICATION_ERROR_NO_VERSION");
}

fn default_names() -> ModifierNames {
    ModifierNames {
        control: "Ctrl".to_string(),
        shift: "Shift".to_string(),
        alt: "Alt".to_string(),
        platform: "Super".to_string(),
        function: "Fn".to_string(),
    }
}

fn keystroke(control: bool, shift: bool, alt: bool, platform: bool, function: bool, key: &str) -> Keystroke {
    Keystroke { control, shift, alt, platform, function, key: key.to_string() }
}

#[test]
fn shortcut_labels() {
    let names = default_names();
    assert_eq!(shortcut_label(&vec![keystroke(true, true, false, false, false, "s")], &names), "Ctrl+Shift+S");
    assert_eq!(shortcut_label(&vec![keystroke(false, false, false, false, false, "f5")], &names), "F5");
    assert_eq!(shortcut_label(&vec![keystroke(true, true, true, true, true, "q")], &names), "Ctrl+Shift+Alt+Super+Fn+Q");
    assert_eq!(shortcut_label(&vec![], &names), "");
    assert_eq!(
        shortcut_label(&vec![keystroke(true, false, false, false, false, "k"), keystroke(true, false, false, false, false, "c")], &names),
        ""
    );
}
