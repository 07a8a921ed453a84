//! Notifications, toasts, permissions and the application's links.
use crate::components::AdmonitionSeverity;
use std::time::Duration;
use vstd::prelude::*;

verus! {

/// Sent when a notification is dismissed.
pub struct NotificationDismissEvent;

/// How urgent a notification is.
#[derive(Clone, Copy, Debug, PartialEq, Eq, Structural)]
pub enum NotificationPriority {
    Low,
    Normal,
    High,
    Urgent,
}

impl Default for NotificationPriority {
    fn default() -> (r: Self)
        ensures
            r == NotificationPriority::Normal,
    {
        NotificationPriority::Normal
    }
}

/// Whether a notification makes a sound.
#[derive(Clone, Copy, Debug, PartialEq, Eq, Structural)]
pub enum NotificationSound {
    Default,
    Silent,
}

impl Default for NotificationSound {
    fn default() -> (r: Self)
        ensures
            r == NotificationSound::Default,
    {
        NotificationSound::Default
    }
}

/// How long a notification stays.
#[derive(Clone, Copy, Debug, PartialEq, Eq)]
pub enum NotificationTimeout {
    Default,
    Never,
    Duration(Duration),
}

impl Default for NotificationTimeout {
    fn default() -> (r: Self)
        ensures
            r == NotificationTimeout::Default,
    {
        NotificationTimeout::Default
    }
}

/// A notification to post, with the listeners `L` to call when it is
/// dismissed.
pub struct Notification<L> {
    pub summary: Option<String>,
    pub body: Option<String>,
    pub priority: NotificationPriority,
    pub sound: NotificationSound,
    pub timeout: NotificationTimeout,
    pub on_dismiss: Vec<L>,
}

impl<L> Notification<L> {
    /// A notification with no text, of normal priority, with the default
    /// sound and timeout, and no listeners.
    pub fn new() -> (n: Self)
        ensures
            n.summary is None,
            n.body is None,
            n.priority == NotificationPriority::Normal,
            n.sound == NotificationSound::Default,
            n.timeout == NotificationTimeout::Default,
            n.on_dismiss@.len() == 0,
    {
        Notification {
            summary: None,
            body: None,
            priority: NotificationPriority::Normal,
            sound: NotificationSound::Default,
            timeout: NotificationTimeout::Default,
            on_dismiss: Vec::new(),
        }
    }

    pub fn summary(self, summary: &str) -> (n: Self)
        ensures
            n.summary matches Some(s) && s@ == summary@,
            n.body == self.body,
            n.priority == self.priority,
            n.sound == self.sound,
            n.timeout == self.timeout,
            n.on_dismiss@ == self.on_dismiss@,
    {
        Notification { summary: Some(summary.to_owned()), ..self }
    }

    pub fn body(self, body: &str) -> (n: Self)
        ensures
            n.body matches Some(s) && s@ == body@,
            n.summary == self.summary,
            n.priority == self.priority,
            n.sound == self.sound,
            n.timeout == self.timeout,
            n.on_dismiss@ == self.on_dismiss@,
    {
        Notification { body: Some(body.to_owned()), ..self }
    }

    pub fn priority(self, priority: NotificationPriority) -> (n: Self)
        ensures
            n == (Notification { priority, ..self }),
    {
        Notification { priority, ..self }
    }

    pub fn low_priority(self) -> (n: Self)
        ensures
            n == (Notification { priority: NotificationPriority::Low, ..self }),
    {
        self.priority(NotificationPriority::Low)
    }

    pub fn high_priority(self) -> (n: Self)
        ensures
            n == (Notification { priority: NotificationPriority::High, ..self }),
    {
        self.priority(NotificationPriority::High)
    }

    pub fn urgent_priority(self) -> (n: Self)
        ensures
            n == (Notification { priority: NotificationPriority::Urgent, ..self }),
    {
        self.priority(NotificationPriority::Urgent)
    }

    pub fn sound(self, sound: NotificationSound) -> (n: Self)
        ensures
            n == (Notification { sound, ..self }),
    {
        Notification { sound, ..self }
    }

    pub fn silent(self) -> (n: Self)
        ensures
            n == (Notification { sound: NotificationSound::Silent, ..self }),
    {
        self.sound(NotificationSound::Silent)
    }

    /// Adds a listener to call when the notification is dismissed.
    pub fn on_dismiss(self, listener: L) -> (n: Self)
        ensures
            n.on_dismiss@ == self.on_dismiss@.push(listener),
            n.summary == self.summary,
            n.body == self.body,
            n.priority == self.priority,
            n.sound == self.sound,
            n.timeout == self.timeout,
    {
        let mut n = self;
        n.on_dismiss.push(listener);
        n
    }

    /// Where the platform shows no notifications, the posted notification
    /// only keeps its summary and body.
    pub fn post_without_platform(self) -> (p: DummyPostedNotification)
        ensures
            p.summary == self.summary,
            p.body == self.body,
    {
        DummyPostedNotification { summary: self.summary, body: self.body }
    }
}

/// A posted notification where the platform shows none: dismissing and
/// replacing it do nothing.
pub struct DummyPostedNotification {
    pub summary: Option<String>,
    pub body: Option<String>,
}

impl DummyPostedNotification {
    pub fn summary(&self) -> (r: Option<&str>)
        ensures
            match self.summary {
                Some(s) => r matches Some(t) && t@ == s@,
                None => r is None,
            },
    {
        match &self.summary {
            Some(s) => Some(s.as_str()),
            None => None,
        }
    }

    pub fn body(&self) -> (r: Option<&str>)
        ensures
            match self.body {
                Some(s) => r matches Some(t) && t@ == s@,
                None => r is None,
            },
    {
        match &self.body {
            Some(s) => Some(s.as_str()),
            None => None,
        }
    }
}

/// A short message shown in a window.
pub struct Toast {
    pub(crate) title: Option<String>,
    pub(crate) body: Option<String>,
    pub(crate) severity: AdmonitionSeverity,
}

pub struct ToastView {
    pub title: Option<Seq<char>>,
    pub body: Option<Seq<char>>,
    pub severity: AdmonitionSeverity,
}

pub open spec fn opt_string_view(s: Option<String>) -> Option<Seq<char>> {
    match s {
        Some(t) => Some(t@),
        None => None,
    }
}

impl View for Toast {
    type V = ToastView;

    closed spec fn view(&self) -> ToastView {
        ToastView {
            title: opt_string_view(self.title),
            body: opt_string_view(self.body),
            severity: self.severity,
        }
    }
}

impl Toast {
    /// A toast with no title or body, for information.
    pub fn new() -> (t: Self)
        ensures
            t@ == (ToastView { title: None, body: None, severity: AdmonitionSeverity::Info }),
    {
        Toast { title: None, body: None, severity: AdmonitionSeverity::Info }
    }

    pub fn title(self, title: &str) -> (t: Self)
        ensures
            t@ == (ToastView { title: Some(title@), ..self@ }),
    {
        Toast { title: Some(title.to_owned()), ..self }
    }

    pub fn body(self, body: &str) -> (t: Self)
        ensures
            t@ == (ToastView { body: Some(body@), ..self@ }),
    {
        Toast { body: Some(body.to_owned()), ..self }
    }

    pub fn severity(self, severity: AdmonitionSeverity) -> (t: Self)
        ensures
            t@ == (ToastView { severity, ..self@ }),
    {
        Toast { severity, ..self }
    }

    pub fn get_title(&self) -> (r: Option<&str>)
        ensures
            match self@.title {
                Some(s) => r matches Some(t) && t@ == s,
                None => r is None,
            },
    {
        match &self.title {
            Some(s) => Some(s.as_str()),
            None => None,
        }
    }

    pub fn get_body(&self) -> (r: Option<&str>)
        ensures
            match self@.body {
                Some(s) => r matches Some(t) && t@ == s,
                None => r is None,
            },
    {
        match &self.body {
            Some(s) => Some(s.as_str()),
            None => None,
        }
    }

    pub fn get_severity(&self) -> (r: AdmonitionSeverity)
        ensures
            r == self@.severity,
    {
        self.severity
    }
}

impl Default for Toast {
    fn default() -> (t: Self)
        ensures
            t@ == (ToastView { title: None, body: None, severity: AdmonitionSeverity::Info }),
    {
        Toast::new()
    }
}

/// A permission that an application may ask for.
#[derive(Clone, Copy, PartialEq, Eq, Structural)]
pub enum PermissionType {
    Microphone,
    Camera,
}

/// Whether a permission is granted.
#[derive(Clone, Copy, PartialEq, Eq, Structural)]
pub enum GrantStatus {
    Granted,
    Denied,
    NotDetermined,
    /// The platform cannot tell, but the permission may still be tried.
    PlatformUnsupported,
}

/// Sent when a request for a permission is answered.
pub struct PermissionRequestCompleteEvent {
    pub grant_status: GrantStatus,
}

/// Permissions of the application.
pub struct Permissions {}

impl Permissions {
    /// Whether `permission` is granted; this platform cannot tell.
    pub fn grant_status(permission: PermissionType) -> (r: GrantStatus)
        ensures
            r == GrantStatus::PlatformUnsupported,
    {
        GrantStatus::PlatformUnsupported
    }

    /// The answer to a request for `permission`; this platform cannot ask.
    pub fn request_permission(permission: PermissionType) -> (e: PermissionRequestCompleteEvent)
        ensures
            e.grant_status == GrantStatus::PlatformUnsupported,
    {
        PermissionRequestCompleteEvent { grant_status: GrantStatus::PlatformUnsupported }
    }
}

/// A link that the about page and the help menu offer.
pub enum ApplicationLink {
    FileBug,
    SourceCode,
    HelpContents,
    Other { icon: &'static str, text: String },
}

/// The name of a link: a message to translate, by its id, or a text of the
/// link's own.
pub enum LinkName<'a> {
    Translated(&'static str),
    Own(&'a str),
}

impl ApplicationLink {
    /// The name of the icon of the link.
    pub fn get_icon(&self) -> (r: &str)
        ensures
            r@ == match self {
                ApplicationLink::FileBug => "tools-report-bug"@,
                ApplicationLink::SourceCode => "commit"@,
                ApplicationLink::HelpContents => "help-contents"@,
                ApplicationLink::Other { icon, text: _ } => icon@,
            },
    {
        match self {
            ApplicationLink::FileBug => "tools-report-bug",
            ApplicationLink::SourceCode => "commit",
            ApplicationLink::HelpContents => "help-contents",
            ApplicationLink::Other { icon, text: _ } => *icon,
        }
    }

    /// The name shown for the link: the message id of a standard link's
    /// translated name, or the link's own text.
    pub fn get_name(&self) -> (r: LinkName<'_>)
        ensures
            match self {
                ApplicationLink::FileBug => r matches LinkName::Translated(id) && id@ == "HELP_FILE_BUG"@,
                ApplicationLink::SourceCode => r matches LinkName::Translated(id) && id@
                    == "HELP_SOURCE_CODE"@,
                ApplicationLink::HelpContents => r matches LinkName::Translated(id) && id@ == "HELP"@,
                ApplicationLink::Other { icon: _, text } => r matches LinkName::Own(t) && t@ == text@,
            },
    {
        match self {
            ApplicationLink::FileBug => LinkName::Translated("HELP_FILE_BUG"),
            ApplicationLink::SourceCode => LinkName::Translated("HELP_SOURCE_CODE"),
            ApplicationLink::HelpContents => LinkName::Translated("HELP"),
            ApplicationLink::Other { icon: _, text } => LinkName::Own(text.as_str()),
        }
    }

    /// The link's own text, for links other than the standard ones (whose
    /// names are translated).
    pub fn own_text(&self) -> (r: Option<&str>)
        ensures
            match self {
                ApplicationLink::Other { icon: _, text } => r matches Some(t) && t@ == text@,
                _ => r is None,
            },
    {
        match self {
            ApplicationLink::Other { icon: _, text } => Some(text.as_str()),
            _ => None,
        }
    }

    pub open spec fn is_help_contents(&self) -> bool {
        self matches ApplicationLink::HelpContents
    }
}

/// The positions of the links that the about page shows as buttons, in
/// order: all but the help contents.
pub fn about_page_links(links: &Vec<ApplicationLink>) -> (r: Vec<usize>)
    ensures
        forall|k: int| 0 <= k < r@.len() ==> (r@[k] as int) < links@.len() && !links@[r@[k] as int].is_help_contents(),
        forall|k: int, l: int| 0 <= k < l < r@.len() ==> r@[k] < r@[l],
        forall|i: int| 0 <= i < links@.len() && !links@[i].is_help_contents() ==> r@.contains(i as usize),
{
    let mut r: Vec<usize> = Vec::new();
    let mut i: usize = 0;
    while i < links.len()
        invariant
            i <= links@.len(),
            forall|k: int| 0 <= k < r@.len() ==> (r@[k] as int) < i && !links@[r@[k] as int].is_help_contents(),
            forall|k: int, l: int| 0 <= k < l < r@.len() ==> r@[k] < r@[l],
            forall|j: int| 0 <= j < i && !links@[j].is_help_contents() ==> r@.contains(j as usize),
        decreases links@.len() - i,
    {
        let is_help = match &links[i] {
            ApplicationLink::HelpContents => true,
            _ => false,
        };
        if !is_help {
            let ghost before = r@;
            r.push(i);
            proof {
                assert forall|j: int| 0 <= j < i + 1 && !links@[j].is_help_contents() implies r@.contains(j as usize) by {
                    if j == i {
                        assert(r@[r@.len() - 1] == i);
                    } else {
                        let k = choose|k: int| 0 <= k < before.len() && before[k] == j as usize;
                        assert(r@[k] == j as usize);
                    }
                }
            }
        }
        i = i + 1;
    }
    r
}

/// The copyright line of the about page: `Copyright © `, the holder, a
/// space and the year.
pub open spec fn copyright_line_spec(holder: Seq<char>, year: Seq<char>) -> Seq<char> {
    seq!['C', 'o', 'p', 'y', 'r', 'i', 'g', 'h', 't', ' ', '©', ' '] + holder + seq![' '] + year
}

/// The copyright line of the about page.
pub fn copyright_line(holder: &str, year: &str) -> (r: String)
    ensures
        r@ == copyright_line_spec(holder@, year@),
{
    proof {
        reveal_strlit("Copyright © ");
        reveal_strlit(" ");
        assert("Copyright © "@ =~= seq!['C', 'o', 'p', 'y', 'r', 'i', 'g', 'h', 't', ' ', '©', ' ']);
        assert(" "@ =~= seq![' ']);
    }
    "Copyright © ".to_owned().concat(holder).concat(" ").concat(year)
}

/// The licence of an application.
pub enum License {
    Gpl3,
    Gpl3OrLater,
    Gpl2,
    Gpl2OrLater,
    Lgpl3,
    Lgpl3OrLater,
    Lgpl2_1,
    Lgpl2_1OrLater,
    Mit,
    Other(String),
}

/// An entry of the help menu.
#[derive(Clone, Copy, PartialEq, Eq, Structural)]
pub enum HelpMenuEntry {
    /// The help contents, at this position of the links.
    HelpContents(usize),
    /// Another link, at this position of the links.
    Link(usize),
    Separator,
    About,
}

/// The entries for the first `n` links: the help contents followed by a
/// separator, every other link by itself.
pub open spec fn link_entries(links: Seq<ApplicationLink>, n: int) -> Seq<HelpMenuEntry>
    decreases n,
{
    if n <= 0 {
        Seq::empty()
    } else if links[n - 1].is_help_contents() {
        link_entries(links, n - 1) + seq![
            HelpMenuEntry::HelpContents((n - 1) as usize),
            HelpMenuEntry::Separator,
        ]
    } else {
        link_entries(links, n - 1).push(HelpMenuEntry::Link((n - 1) as usize))
    }
}

/// The help menu: the entries of the links, a separator after them where
/// there are any, and the About entry last.
pub open spec fn help_menu_spec(links: Seq<ApplicationLink>) -> Seq<HelpMenuEntry> {
    let entries = link_entries(links, links.len() as int);
    (if entries.len() > 0 {
        entries.push(HelpMenuEntry::Separator)
    } else {
        entries
    }).push(HelpMenuEntry::About)
}

/// The entries of the help menu of the application menu.
pub fn help_menu_entries(links: &Vec<ApplicationLink>) -> (r: Vec<HelpMenuEntry>)
    ensures
        r@ == help_menu_spec(links@),
        r@.last() == HelpMenuEntry::About,
{
    let mut r: Vec<HelpMenuEntry> = Vec::new();
    let mut i: usize = 0;
    while i < links.len()
        invariant
            i <= links@.len(),
            r@ == link_entries(links@, i as int),
        decreases links@.len() - i,
    {
        let is_help = match &links[i] {
            ApplicationLink::HelpContents => true,
            _ => false,
        };
        if is_help {
            r.push(HelpMenuEntry::HelpContents(i));
            r.push(HelpMenuEntry::Separator);
            proof {
                assert(r@ =~= link_entries(links@, i as int) + seq![
                    HelpMenuEntry::HelpContents(i),
                    HelpMenuEntry::Separator,
                ]);
            }
        } else {
            r.push(HelpMenuEntry::Link(i));
        }
        i = i + 1;
    }
    if r.len() > 0 {
        r.push(HelpMenuEntry::Separator);
    }
    r.push(HelpMenuEntry::About);
    r
}

} // verus!
