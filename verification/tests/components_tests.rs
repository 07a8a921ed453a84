use contemporary::components::{
    checked_change_event, slider_value_after_drag, spinner_arc, CheckState, ContextMenuItem,
    ErrorFlasher, FlyoutAnchorPoisition, LiftAnimation, FadeAnimation, Pager,
    PagerAnimationDirection, PagerElement, PagerPages, SlideHorizontalAnimation, SpinnerPhase,
    StandardButton, SwitchDrag,
};
use contemporary::notification::{
    about_page_links, ApplicationLink, GrantStatus, LinkName, Notification, NotificationPriority,
    NotificationSound, PermissionType, Permissions, Toast,
};
use contemporary::components::AdmonitionSeverity;

#[test]
fn check_box_clicks() {
    assert!(CheckState::Off.toggled() == CheckState::On);
    assert!(CheckState::On.toggled() == CheckState::Off);
    assert!(CheckState::Indeterminate.toggled() == CheckState::On);
    assert!(checked_change_event(CheckState::On).check_state == CheckState::Off);
}

#[test]
fn switch_click_and_drag() {
    let drag = SwitchDrag::press(false);
    assert!(drag.release(false).checked);
    let mut drag = SwitchDrag::press(false);
    drag.moved();
    assert!(!drag.release(false).checked);
    assert!(drag.release(true).checked);
}

#[test]
fn slider_values() {
    assert_eq!(slider_value_after_drag(50, 10, 100), 60);
    assert_eq!(slider_value_after_drag(50, -60, 100), 0);
    assert_eq!(slider_value_after_drag(50, 70, 100), 100);
    assert_eq!(slider_value_after_drag(0, 0, 0), 0);
}

#[test]
fn pager_pages_and_direction() {
    let mut pages = PagerPages::new(0);
    assert!(!pages.show(0));
    assert!(pages.show(2));
    assert_eq!(pages.previous_current_page, 0);
    assert_eq!(pages.current_page, 2);
    assert!(pages.direction(None) == PagerAnimationDirection::Forward);
    assert!(pages.direction(Some(PagerAnimationDirection::Backward)) == PagerAnimationDirection::Backward);
    assert!(pages.show(1));
    assert!(pages.direction(None) == PagerAnimationDirection::Backward);
}

#[test]
fn pager_picks_the_shown_page() {
    let mut pager = Pager::new(1);
    assert!(!pager.page());
    assert!(pager.page());
    assert!(!pager.page());
}

#[test]
fn pager_animations_top_element() {
    let lift = LiftAnimation::new();
    assert!(lift.top_element(PagerAnimationDirection::Forward) == PagerElement::Current);
    assert!(lift.top_element(PagerAnimationDirection::Backward) == PagerElement::Previous);
    assert!(FadeAnimation::new().top_element(PagerAnimationDirection::Backward) == PagerElement::Current);
    assert!(SlideHorizontalAnimation::new().top_element(PagerAnimationDirection::Backward) == PagerElement::Current);
}

#[test]
fn spinner_phases() {
    assert!(spinner_arc(0) == (0, SpinnerPhase::Growing(0)));
    assert!(spinner_arc(499) == (0, SpinnerPhase::Growing(499)));
    assert!(spinner_arc(600) == (0, SpinnerPhase::Holding));
    assert!(spinner_arc(1000) == (0, SpinnerPhase::Shrinking(250)));
    assert!(spinner_arc(1250) == (310, SpinnerPhase::Growing(0)));
    assert!(spinner_arc(2500) == (260, SpinnerPhase::Growing(0)));
}

#[test]
fn context_menu_items() {
    match ContextMenuItem::<u32>::separator().build::<u32>() {
        ContextMenuItem::Separator => {}
        _ => panic!("expected a separator"),
    }
    match ContextMenuItem::<u32>::separator().label("Edit".to_string()).build::<u32>() {
        ContextMenuItem::Group(label) => assert_eq!(label, "Edit"),
        _ => panic!("expected a group"),
    }
    let item = ContextMenuItem::<u32>::menu_item()
        .icon("edit-copy".to_string())
        .on_triggered(7)
        .remain_open()
        .disabled()
        .build();
    match item {
        ContextMenuItem::MenuItem { label, icon, action, remain_open, disabled } => {
            assert_eq!(label, "");
            assert_eq!(icon, Some("edit-copy".to_string()));
            assert_eq!(action, Some(7));
            assert!(remain_open);
            assert!(disabled);
        }
        _ => panic!("expected a menu item"),
    }
    match ContextMenuItem::<u32>::menu_item().label("Copy".to_string()).build() {
        ContextMenuItem::MenuItem { label, action, remain_open, .. } => {
            assert_eq!(label, "Copy");
            assert_eq!(action, None);
            assert!(!remain_open);
        }
        _ => panic!("expected a menu item"),
    }
}

#[test]
fn standard_buttons() {
    assert_eq!(StandardButton::Okay.id_and_icon(), ("ok-button", "dialog-ok"));
    assert_eq!(StandardButton::Cancel.id_and_icon(), ("cancel-button", "dialog-cancel"));
    assert_eq!(StandardButton::No.id_and_icon(), ("no-button", "dialog-cancel"));
    assert_eq!(StandardButton::Sorry.id_and_icon(), ("sorry-button", "dialog-ok"));
    assert!(FlyoutAnchorPoisition::default() == FlyoutAnchorPoisition::BottomLeft);
}

#[test]
fn error_flasher_flashes_for_half_a_second() {
    let mut flasher = ErrorFlasher::new();
    assert!(!flasher.is_flashing(0));
    flasher.flash(1000);
    assert!(flasher.is_flashing(1000));
    assert!(flasher.is_flashing(1499));
    assert!(!flasher.is_flashing(1500));
}

#[test]
fn notification_builder() {
    let n: Notification<u8> = Notification::new()
        .summary("Done")
        .body("All copied")
        .urgent_priority()
        .silent()
        .on_dismiss(1)
        .on_dismiss(2);
    assert_eq!(n.summary, Some("Done".to_string()));
    assert_eq!(n.body, Some("All copied".to_string()));
    assert_eq!(n.priority, NotificationPriority::Urgent);
    assert_eq!(n.sound, NotificationSound::Silent);
    assert_eq!(n.on_dismiss, vec![1, 2]);
    let posted = n.post_without_platform();
    assert_eq!(posted.summary(), Some("Done"));
    assert_eq!(posted.body(), Some("All copied"));
    let n: Notification<u8> = Notification::new();
    assert_eq!(n.priority, NotificationPriority::Normal);
    assert_eq!(n.low_priority().priority, NotificationPriority::Low);
}

#[test]
fn toast_builder() {
    let toast = Toast::new().title("Saved").body("The file was saved").severity(AdmonitionSeverity::Warning);
    assert_eq!(toast.get_title(), Some("Saved"));
    assert_eq!(toast.get_body(), Some("The file was saved"));
    assert!(toast.get_severity() == AdmonitionSeverity::Warning);
    assert!(Toast::default().get_severity() == AdmonitionSeverity::Info);
}

#[test]
fn permissions_are_not_supported_here() {
    assert!(Permissions::grant_status(PermissionType::Camera) == GrantStatus::PlatformUnsupported);
    assert!(Permissions::request_permission(PermissionType::Microphone).grant_status == GrantStatus::PlatformUnsupported);
}

#[test]
fn about_page_leaves_out_help_contents() {
    let links = vec![
        ApplicationLink::HelpContents,
        ApplicationLink::FileBug,
        ApplicationLink::Other { icon: "globe", text: "Website".to_string() },
        ApplicationLink::SourceCode,
    ];
    assert_eq!(about_page_links(&links), vec![1, 2, 3]);
    assert_eq!(links[2].get_icon(), "globe");
    assert_eq!(links[2].own_text(), Some("Website"));
    assert_eq!(links[1].get_icon(), "tools-report-bug");
    assert_eq!(links[1].own_text(), None);
}

#[test]
fn link_names() {
    match ApplicationLink::FileBug.get_name() {
        LinkName::Translated(id) => assert_eq!(id, "HELP_FILE_BUG"),
        LinkName::Own(_) => panic!("a standard link has a translated name"),
    }
    match ApplicationLink::HelpContents.get_name() {
        LinkName::Translated(id) => assert_eq!(id, "HELP"),
        LinkName::Own(_) => panic!("a standard link has a translated name"),
    }
    let other = ApplicationLink::Other { icon: "globe", text: "Website".to_string() };
    match other.get_name() {
        LinkName::Own(text) => assert_eq!(text, "Website"),
        LinkName::Translated(_) => panic!("a link of its own keeps its text"),
    }
}
