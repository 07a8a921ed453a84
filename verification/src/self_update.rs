//! What the about page and the application menu show of a self update: the
//! message for each state of the update, and the button offered with it.
use crate::components::AdmonitionSeverity;
use vstd::prelude::*;

verus! {

/// The state of a self update; `version` is the version of the new update,
/// where it is known.
pub enum SelfUpdateState {
    Idle,
    UpdateChecking,
    UpdateAvailableBackground,
    UpdateDownloadingInBackground { version: Option<String> },
    UpdateDownloaded { version: Option<String> },
    UpdateDownloadedInBackground { version: Option<String> },
    UpdateInstalling { version: Option<String> },
    RestartToUpdate { version: Option<String> },
    InstallStepFailed { version: Option<String> },
}

/// The states of a self update that the application menu tells the user of.
pub enum VisibleSelfUpdateState {
    UpdateDownloaded { version: Option<String> },
    UpdateInstalling { version: Option<String> },
    RestartToUpdate { version: Option<String> },
    InstallStepFailed { version: Option<String> },
}

/// What a button about the update does when clicked.
#[derive(Clone, Copy, PartialEq, Eq, Structural)]
pub enum UpdateAction {
    CheckForUpdates,
    StartDownload,
    InstallDownloadedUpdate,
    RestartApplication,
}

/// A button about the update: its id, its icon, the message id of its label
/// and what it does.
pub struct UpdateButton {
    pub id: &'static str,
    pub icon: &'static str,
    pub label: &'static str,
    pub action: UpdateAction,
}

/// What stands beside the update's message on the about page.
pub enum UpdateStatusControl {
    /// Work is under way.
    Spinner,
    Button(UpdateButton),
}

/// The line of the about page on the update: the message id of its text, the
/// version that the text names (if it names one) and what stands beside it.
pub struct UpdateStatusContent {
    pub text: &'static str,
    pub version: Option<String>,
    pub control: UpdateStatusControl,
}

/// The admonition of the application menu on the update.
pub struct UpdateNotificationContent {
    pub severity: AdmonitionSeverity,
    pub title: &'static str,
    pub text: &'static str,
    pub version: Option<String>,
    pub button: Option<UpdateButton>,
}

/// A button, as plain values.
pub open spec fn button_is(
    b: UpdateButton,
    id: Seq<char>,
    icon: Seq<char>,
    label: Seq<char>,
    action: UpdateAction,
) -> bool {
    &&& b.id@ == id
    &&& b.icon@ == icon
    &&& b.label@ == label
    &&& b.action == action
}

pub open spec fn opt_version_view(v: Option<String>) -> Option<Seq<char>> {
    match v {
        Some(s) => Some(s@),
        None => None,
    }
}

fn clone_version(v: &Option<String>) -> (r: Option<String>)
    ensures
        opt_version_view(r) == opt_version_view(*v),
{
    match v {
        Some(s) => Some(s.clone()),
        None => None,
    }
}

/// The status of a self update, shown on the about page.
pub struct SelfUpdateStatus;

impl SelfUpdateStatus {
    /// The text and the button (or spinner) of the about page for each state
    /// of the update.
    pub fn content(state: &SelfUpdateState) -> (r: UpdateStatusContent)
        ensures
            match state {
                SelfUpdateState::Idle => {
                    &&& r.text@ == "ABOUT_UPDATE_NONE"@
                    &&& r.version is None
                    &&& r.control matches UpdateStatusControl::Button(b) && button_is(
                        b,
                        "check-for-updates-again"@,
                        "view-refresh"@,
                        "ABOUT_UPDATE_CHECK_AGAIN"@,
                        UpdateAction::CheckForUpdates,
                    )
                },
                SelfUpdateState::UpdateChecking => {
                    &&& r.text@ == "ABOUT_UPDATE_CHECKING"@
                    &&& r.version is None
                    &&& r.control is Spinner
                },
                SelfUpdateState::UpdateAvailableBackground => {
                    &&& r.text@ == "ABOUT_UPDATE_AVAILABLE"@
                    &&& r.version is None
                    &&& r.control matches UpdateStatusControl::Button(b) && button_is(
                        b,
                        "download"@,
                        "cloud-download"@,
                        "ABOUT_UPDATE_DOWNLOAD"@,
                        UpdateAction::StartDownload,
                    )
                },
                SelfUpdateState::UpdateDownloadingInBackground { version } => {
                    &&& r.text@ == if version is Some {
                        "ABOUT_UPDATE_DOWNLOADING_VERSION"@
                    } else {
                        "ABOUT_UPDATE_DOWNLOADING"@
                    }
                    &&& opt_version_view(r.version) == opt_version_view(*version)
                    &&& r.control is Spinner
                },
                SelfUpdateState::UpdateDownloaded { .. }
                | SelfUpdateState::UpdateDownloadedInBackground { .. } => {
                    &&& r.text@ == "ABOUT_UPDATE_READY"@
                    &&& r.version is None
                    &&& r.control matches UpdateStatusControl::Button(b) && button_is(
                        b,
                        "download"@,
                        "package-upgrade"@,
                        "UPDATE_NOTIFICATION_INSTALL_BUTTON"@,
                        UpdateAction::InstallDownloadedUpdate,
                    )
                },
                SelfUpdateState::UpdateInstalling { .. } => {
                    &&& r.text@ == "ABOUT_UPDATE_INSTALLING"@
                    &&& r.version is None
                    &&& r.control is Spinner
                },
                SelfUpdateState::RestartToUpdate { .. } => {
                    &&& r.text@ == "ABOUT_UPDATE_INSTALLED"@
                    &&& r.version is None
                    &&& r.control matches UpdateStatusControl::Button(b) && button_is(
                        b,
                        "download"@,
                        "system-reboot"@,
                        "UPDATE_NOTIFICATION_RESTART_BUTTON"@,
                        UpdateAction::RestartApplication,
                    )
                },
                SelfUpdateState::InstallStepFailed { .. } => {
                    &&& r.text@ == "ABOUT_UPDATE_FAILED"@
                    &&& r.version is None
                    &&& r.control matches UpdateStatusControl::Button(b) && button_is(
                        b,
                        "retry-update"@,
                        "view-refresh"@,
                        "UPDATE_NOTIFICATION_TRY_AGAIN_BUTTON"@,
                        UpdateAction::InstallDownloadedUpdate,
                    )
                },
            },
    {
        match state {
            SelfUpdateState::Idle => UpdateStatusContent {
                text: "ABOUT_UPDATE_NONE",
                version: None,
                control: UpdateStatusControl::Button(
                    UpdateButton {
                        id: "check-for-updates-again",
                        icon: "view-refresh",
                        label: "ABOUT_UPDATE_CHECK_AGAIN",
                        action: UpdateAction::CheckForUpdates,
                    },
                ),
            },
            SelfUpdateState::UpdateChecking => UpdateStatusContent {
                text: "ABOUT_UPDATE_CHECKING",
                version: None,
                control: UpdateStatusControl::Spinner,
            },
            SelfUpdateState::UpdateAvailableBackground => UpdateStatusContent {
                text: "ABOUT_UPDATE_AVAILABLE",
                version: None,
                control: UpdateStatusControl::Button(
                    UpdateButton {
                        id: "download",
                        icon: "cloud-download",
                        label: "ABOUT_UPDATE_DOWNLOAD",
                        action: UpdateAction::StartDownload,
                    },
                ),
            },
            SelfUpdateState::UpdateDownloadingInBackground { version } => {
                let text = match version {
                    Some(_) => "ABOUT_UPDATE_DOWNLOADING_VERSION",
                    None => "ABOUT_UPDATE_DOWNLOADING",
                };
                UpdateStatusContent {
                    text,
                    version: clone_version(version),
                    control: UpdateStatusControl::Spinner,
                }
            },
            SelfUpdateState::UpdateDownloaded { .. }
            | SelfUpdateState::UpdateDownloadedInBackground { .. } => UpdateStatusContent {
                text: "ABOUT_UPDATE_READY",
                version: None,
                control: UpdateStatusControl::Button(
                    UpdateButton {
                        id: "download",
                        icon: "package-upgrade",
                        label: "UPDATE_NOTIFICATION_INSTALL_BUTTON",
                        action: UpdateAction::InstallDownloadedUpdate,
                    },
                ),
            },
            SelfUpdateState::UpdateInstalling { .. } => UpdateStatusContent {
                text: "ABOUT_UPDATE_INSTALLING",
                version: None,
                control: UpdateStatusControl::Spinner,
            },
            SelfUpdateState::RestartToUpdate { .. } => UpdateStatusContent {
                text: "ABOUT_UPDATE_INSTALLED",
                version: None,
                control: UpdateStatusControl::Button(
                    UpdateButton {
                        id: "download",
                        icon: "system-reboot",
                        label: "UPDATE_NOTIFICATION_RESTART_BUTTON",
                        action: UpdateAction::RestartApplication,
                    },
                ),
            },
            SelfUpdateState::InstallStepFailed { .. } => UpdateStatusContent {
                text: "ABOUT_UPDATE_FAILED",
                version: None,
                control: UpdateStatusControl::Button(
                    UpdateButton {
                        id: "retry-update",
                        icon: "view-refresh",
                        label: "UPDATE_NOTIFICATION_TRY_AGAIN_BUTTON",
                        action: UpdateAction::InstallDownloadedUpdate,
                    },
                ),
            },
        }
    }
}

/// The notification of the application menu that an update is ready, being
/// installed, waiting for a restart or failed.
pub struct UpdateNotification;

impl UpdateNotification {
    /// The admonition for each visible state of the update: its text names
    /// the new version where it is known; every state but installing offers a
    /// button.
    pub fn content(state: &VisibleSelfUpdateState) -> (r: UpdateNotificationContent)
        ensures
            match state {
                VisibleSelfUpdateState::UpdateDownloaded { version } => {
                    &&& r.severity == AdmonitionSeverity::Info
                    &&& r.title@ == "UPDATE_NOTIFICATION_TITLE"@
                    &&& r.text@ == if version is Some {
                        "UPDATE_NOTIFICATION_TEXT"@
                    } else {
                        "UPDATE_NOTIFICATION_TEXT_NO_VERSION"@
                    }
                    &&& opt_version_view(r.version) == opt_version_view(*version)
                    &&& r.button matches Some(b) && button_is(
                        b,
                        "perform-update"@,
                        "package-upgrade"@,
                        "UPDATE_NOTIFICATION_INSTALL_BUTTON"@,
                        UpdateAction::InstallDownloadedUpdate,
                    )
                },
                VisibleSelfUpdateState::UpdateInstalling { .. } => {
                    &&& r.severity == AdmonitionSeverity::Info
                    &&& r.title@ == "UPDATE_NOTIFICATION_INSTALLING_TITLE"@
                    &&& r.text@ == "UPDATE_NOTIFICATION_INSTALLING"@
                    &&& r.version is None
                    &&& r.button is None
                },
                VisibleSelfUpdateState::RestartToUpdate { version } => {
                    &&& r.severity == AdmonitionSeverity::Info
                    &&& r.title@ == "UPDATE_NOTIFICATION_TITLE"@
                    &&& r.text@ == if version is Some {
                        "UPDATE_NOTIFICATION_RESTART"@
                    } else {
                        "UPDATE_NOTIFICATION_RESTART_NO_VERSION"@
                    }
                    &&& opt_version_view(r.version) == opt_version_view(*version)
                    &&& r.button matches Some(b) && button_is(
                        b,
                        "perform-update"@,
                        "system-reboot"@,
                        "UPDATE_NOTIFICATION_RESTART_BUTTON"@,
                        UpdateAction::RestartApplication,
                    )
                },
                VisibleSelfUpdateState::InstallStepFailed { version } => {
                    &&& r.severity == AdmonitionSeverity::Error
                    &&& r.title@ == "UPDATE_NOTIFICATION_ERROR_TITLE"@
                    &&& r.text@ == if version is Some {
                        "UPDATE_NOTIFICATION_ERROR"@
                    } else {
                        "UPDATE_NOTIFICATION_ERROR_NO_VERSION"@
                    }
                    &&& opt_version_view(r.version) == opt_version_view(*version)
                    &&& r.button matches Some(b) && button_is(
                        b,
                        "perform-update"@,
                        "view-refresh"@,
                        "UPDATE_NOTIFICATION_TRY_AGAIN_BUTTON"@,
                        UpdateAction::InstallDownloadedUpdate,
                    )
                },
            },
    {
        match state {
            VisibleSelfUpdateState::UpdateDownloaded { version } => {
                let text = match version {
                    Some(_) => "UPDATE_NOTIFICATION_TEXT",
                    None => "UPDATE_NOTIFICATION_TEXT_NO_VERSION",
                };
                UpdateNotificationContent {
                    severity: AdmonitionSeverity::Info,
                    title: "UPDATE_NOTIFICATION_TITLE",
                    text,
                    version: clone_version(version),
                    button: Some(
                        UpdateButton {
                            id: "perform-update",
                            icon: "package-upgrade",
                            label: "UPDATE_NOTIFICATION_INSTALL_BUTTON",
                            action: UpdateAction::InstallDownloadedUpdate,
                        },
                    ),
                }
            },
            VisibleSelfUpdateState::UpdateInstalling { .. } => UpdateNotificationContent {
                severity: AdmonitionSeverity::Info,
                title: "UPDATE_NOTIFICATION_INSTALLING_TITLE",
                text: "UPDATE_NOTIFICATION_INSTALLING",
                version: None,
                button: None,
            },
            VisibleSelfUpdateState::RestartToUpdate { version } => {
                let text = match version {
                    Some(_) => "UPDATE_NOTIFICATION_RESTART",
                    None => "UPDATE_NOTIFICATION_RESTART_NO_VERSION",
                };
                UpdateNotificationContent {
                    severity: AdmonitionSeverity::Info,
                    title: "UPDATE_NOTIFICATION_TITLE",
                    text,
                    version: clone_version(version),
                    button: Some(
                        UpdateButton {
                            id: "perform-update",
                            icon: "system-reboot",
                            label: "UPDATE_NOTIFICATION_RESTART_BUTTON",
                            action: UpdateAction::RestartApplication,
                        },
                    ),
                }
            },
            VisibleSelfUpdateState::InstallStepFailed { version } => {
                let text = match version {
                    Some(_) => "UPDATE_NOTIFICATION_ERROR",
                    None => "UPDATE_NOTIFICATION_ERROR_NO_VERSION",
                };
                UpdateNotificationContent {
                    severity: AdmonitionSeverity::Error,
                    title: "UPDATE_NOTIFICATION_ERROR_TITLE",
                    text,
                    version: clone_version(version),
                    button: Some(
                        UpdateButton {
                            id: "perform-update",
                            icon: "view-refresh",
                            label: "UPDATE_NOTIFICATION_TRY_AGAIN_BUTTON",
                            action: UpdateAction::InstallDownloadedUpdate,
                        },
                    ),
                }
            },
        }
    }
}

} // verus!
