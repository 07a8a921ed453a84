//! The decisions of the widgets: check boxes, switches, sliders, pagers and
//! their animations, the spinner's arc, context menu items, dialog buttons,
//! flyouts, the error flasher, and the application menu with its shortcut labels.
use vstd::prelude::*;

verus! {

/// The state of a check box.
#[derive(Clone, Copy, PartialEq, Eq, Structural)]
pub enum CheckState {
    Off,
    On,
    Indeterminate,
}

impl CheckState {
    /// The state a click asks for: an indeterminate or unchecked box is
    /// checked, a checked one unchecked.
    pub fn toggled(&self) -> (r: CheckState)
        ensures
            r == match *self {
                CheckState::Indeterminate => CheckState::On,
                CheckState::On => CheckState::Off,
                CheckState::Off => CheckState::On,
            },
            r != CheckState::Indeterminate,
            r != *self,
    {
        match self {
            CheckState::Indeterminate => CheckState::On,
            CheckState::On => CheckState::Off,
            CheckState::Off => CheckState::On,
        }
    }
}

/// Sent when a check box is clicked, with the state it asks for.
#[derive(Clone, Copy)]
pub struct CheckedChangeEvent {
    pub check_state: CheckState,
}

/// The event a click on a check box in `state` sends.
pub fn checked_change_event(state: CheckState) -> (e: CheckedChangeEvent)
    ensures
        e.check_state == state.toggled_spec(),
{
    CheckedChangeEvent { check_state: state.toggled() }
}

impl CheckState {
    pub open spec fn toggled_spec(self) -> CheckState {
        match self {
            CheckState::Indeterminate => CheckState::On,
            CheckState::On => CheckState::Off,
            CheckState::Off => CheckState::On,
        }
    }
}

/// Sent when a switch is flipped, with its new state.
pub struct SwitchChangeEvent {
    pub checked: bool,
}

/// A press on a switch that has not been released yet.
#[derive(Clone, Copy)]
pub struct SwitchDrag {
    pub started_checked: bool,
    pub mouse_moved: bool,
}

impl SwitchDrag {
    /// A press on a switch in state `checked`.
    pub fn press(checked: bool) -> (d: SwitchDrag)
        ensures
            d.started_checked == checked,
            !d.mouse_moved,
    {
        SwitchDrag { started_checked: checked, mouse_moved: false }
    }

    /// The mouse moved while pressed.
    pub fn moved(&mut self)
        ensures
            final(self).mouse_moved,
            final(self).started_checked == old(self).started_checked,
    {
        self.mouse_moved = true;
    }

    /// The state asked for on release: a click (no move) flips the switch; a
    /// drag leaves it on the side where the thumb's centre is.
    pub fn release(&self, thumb_past_centre: bool) -> (e: SwitchChangeEvent)
        ensures
            e.checked == if self.mouse_moved {
                thumb_past_centre
            } else {
                !self.started_checked
            },
    {
        if !self.mouse_moved {
            SwitchChangeEvent { checked: !self.started_checked }
        } else {
            SwitchChangeEvent { checked: thumb_past_centre }
        }
    }
}

/// Sent when a slider is dragged, with its new value.
pub struct SliderChangeEvent {
    pub new_value: u32,
}

/// Sent when a slider is pressed.
pub struct SliderPressEvent;

/// Sent when a slider is released.
pub struct SliderReleaseEvent;

/// The value of a slider dragged by `moved` steps from `start_value`, kept
/// within 0 and `max_value`.
pub fn slider_value_after_drag(start_value: u32, moved: i64, max_value: u32) -> (r: u32)
    requires
        moved + start_value <= i64::MAX,
    ensures
        r == if moved + start_value < 0 {
            0
        } else if moved + start_value > max_value {
            max_value as int
        } else {
            moved + start_value
        },
        r <= max_value,
{
    let v = moved + start_value as i64;
    if v < 0 {
        0
    } else if v > max_value as i64 {
        max_value
    } else {
        v as u32
    }
}

/// The direction a pager animates in.
#[derive(Clone, Copy, PartialEq, Eq, Structural)]
pub enum PagerAnimationDirection {
    Forward,
    Backward,
}

/// Which page a pager draws on top.
#[derive(Clone, Copy, PartialEq, Eq, Structural)]
pub enum PagerElement {
    Previous,
    Current,
}

/// The pages a pager animates between.
pub struct PagerPages {
    pub previous_current_page: usize,
    pub current_page: usize,
}

impl PagerPages {
    /// A pager that first shows `page`.
    pub fn new(page: usize) -> (p: Self)
        ensures
            p.previous_current_page == page,
            p.current_page == page,
    {
        PagerPages { previous_current_page: page, current_page: page }
    }

    /// The pager is asked to show `page`: where it is another page than the
    /// current one, the current one becomes the previous one and an
    /// animation starts. Answers whether it did.
    pub fn show(&mut self, page: usize) -> (changed: bool)
        ensures
            changed == (old(self).current_page != page),
            final(self).current_page == page,
            final(self).previous_current_page == if changed {
                old(self).current_page
            } else {
                old(self).previous_current_page
            },
    {
        if self.current_page != page {
            self.previous_current_page = self.current_page;
            self.current_page = page;
            true
        } else {
            false
        }
    }

    /// The direction of the animation: the one forced, else forward when the
    /// new page comes after the previous one, else backward.
    pub fn direction(&self, force_direction: Option<PagerAnimationDirection>) -> (r:
        PagerAnimationDirection)
        ensures
            r == match force_direction {
                Some(d) => d,
                None => if self.current_page > self.previous_current_page {
                    PagerAnimationDirection::Forward
                } else {
                    PagerAnimationDirection::Backward
                },
            },
    {
        match force_direction {
            Some(d) => d,
            None => if self.current_page > self.previous_current_page {
                PagerAnimationDirection::Forward
            } else {
                PagerAnimationDirection::Backward
            },
        }
    }
}

/// Counts the pages given to a pager and picks the one to show.
pub struct Pager {
    page: usize,
    current_page: usize,
}

impl Pager {
    pub closed spec fn shown_page(&self) -> usize {
        self.page
    }

    pub closed spec fn pages_given(&self) -> usize {
        self.current_page
    }

    /// A pager that shows page `page`, with no pages given yet.
    pub fn new(page: usize) -> (p: Self)
        ensures
            p.shown_page() == page,
            p.pages_given() == 0,
    {
        Pager { page, current_page: 0 }
    }

    /// The next page is given: answers whether it is the page shown.
    pub fn page(&mut self) -> (shown: bool)
        requires
            old(self).pages_given() < usize::MAX,
        ensures
            shown == (old(self).pages_given() == old(self).shown_page()),
            final(self).pages_given() == old(self).pages_given() + 1,
            final(self).shown_page() == old(self).shown_page(),
    {
        let shown = self.current_page == self.page;
        self.current_page = self.current_page + 1;
        shown
    }
}

/// A page fades in.
pub struct FadeAnimation {}

impl FadeAnimation {
    pub fn new() -> (a: Box<Self>)
        ensures
            *a == (FadeAnimation {}),
    {
        Box::new(FadeAnimation {})
    }

    /// The new page is drawn on top.
    pub fn top_element(&self, _direction: PagerAnimationDirection) -> (r: PagerElement)
        ensures
            r == PagerElement::Current,
    {
        PagerElement::Current
    }
}

/// A page lifts in going forward, and the old one lifts out going back.
pub struct LiftAnimation {}

impl LiftAnimation {
    pub fn new() -> (a: Box<Self>)
        ensures
            *a == (LiftAnimation {}),
    {
        Box::new(LiftAnimation {})
    }

    /// Going forward the new page lifts in on top; going back the old page
    /// lifts out on top.
    pub fn top_element(&self, direction: PagerAnimationDirection) -> (r: PagerElement)
        ensures
            r == match direction {
                PagerAnimationDirection::Forward => PagerElement::Current,
                PagerAnimationDirection::Backward => PagerElement::Previous,
            },
    {
        match direction {
            PagerAnimationDirection::Forward => PagerElement::Current,
            PagerAnimationDirection::Backward => PagerElement::Previous,
        }
    }
}

/// Pages slide in from the side.
pub struct SlideHorizontalAnimation {}

impl SlideHorizontalAnimation {
    pub fn new() -> (a: Box<Self>)
        ensures
            *a == (SlideHorizontalAnimation {}),
    {
        Box::new(SlideHorizontalAnimation {})
    }

    /// The new page is drawn on top.
    pub fn top_element(&self, _direction: PagerAnimationDirection) -> (r: PagerElement)
        ensures
            r == PagerElement::Current,
    {
        PagerElement::Current
    }
}

/// The smallest arc of the spinner, in degrees.
pub const SMALL_ARC: u128 = 15;

/// The largest arc of the spinner, in degrees.
pub const LARGE_ARC: u128 = 325;

/// How long the spinner's arc grows or shrinks, in milliseconds.
pub const ARC_ANIMATE_TIME: u128 = 500;

/// How long the spinner's arc stays large, in milliseconds.
pub const ARC_ANIMATE_DELAY: u128 = 250;

/// What the spinner's arc does in one cycle: it grows (for this many
/// milliseconds so far), stays large, or shrinks (for this many
/// milliseconds so far).
#[derive(Clone, Copy, PartialEq, Eq, Structural)]
pub enum SpinnerPhase {
    Growing(u128),
    Holding,
    Shrinking(u128),
}

/// Where the spinner's arc stands after `elapsed` milliseconds: each full
/// cycle (grow, hold, shrink) turns its start by the difference of the
/// largest and smallest arcs (in degrees, modulo 360), and the time into the
/// current cycle gives the phase.
pub fn spinner_arc(elapsed: u128) -> (r: (u128, SpinnerPhase))
    ensures
        ({
            let cycle: int = (ARC_ANIMATE_TIME * 2 + ARC_ANIMATE_DELAY) as int;
            let x: int = elapsed as int % cycle;
            &&& r.0 == ((elapsed as int / cycle) * (LARGE_ARC - SMALL_ARC)) % 360
            &&& r.1 == if x < ARC_ANIMATE_TIME {
                SpinnerPhase::Growing(x as u128)
            } else if x < ARC_ANIMATE_TIME + ARC_ANIMATE_DELAY {
                SpinnerPhase::Holding
            } else {
                SpinnerPhase::Shrinking((x - ARC_ANIMATE_TIME - ARC_ANIMATE_DELAY) as u128)
            }
            &&& (r.1 matches SpinnerPhase::Shrinking(p) ==> p < ARC_ANIMATE_TIME)
        }),
{
    let cycle: u128 = ARC_ANIMATE_TIME * 2 + ARC_ANIMATE_DELAY;
    let loops = elapsed / cycle;
    let turn = (loops % 360) * (LARGE_ARC - SMALL_ARC) % 360;
    proof {
        assert(((loops % 360) * 310) % 360 == (loops * 310) % 360) by (nonlinear_arith)
            requires
                loops >= 0,
        {
            vstd::arithmetic::div_mod::lemma_mul_mod_noop_left(loops as int, 310, 360);
        }
    }
    let x = elapsed % cycle;
    let phase = if x < ARC_ANIMATE_TIME {
        SpinnerPhase::Growing(x)
    } else if x < ARC_ANIMATE_TIME + ARC_ANIMATE_DELAY {
        SpinnerPhase::Holding
    } else {
        SpinnerPhase::Shrinking(x - ARC_ANIMATE_TIME - ARC_ANIMATE_DELAY)
    };
    (turn, phase)
}

/// Sent when a context menu item is triggered.
pub struct ContextMenuActionEvent {}

/// Sent when a context menu asks to be closed.
pub struct ContextMenuRequestCloseEvent;

/// An item of a context menu; `A` is the action a menu item triggers.
pub enum ContextMenuItem<A> {
    Separator,
    Group(String),
    MenuItem { label: String, icon: Option<String>, action: Option<A>, remain_open: bool, disabled: bool },
}

impl<A> ContextMenuItem<A> {
    /// What clicking the item does: an enabled menu item triggers its action
    /// and then asks the menu to close, unless it keeps the menu open; a
    /// disabled item, a separator or a group heading does nothing.
    pub fn click(&self) -> (r: MenuItemClick)
        ensures
            match *self {
                ContextMenuItem::MenuItem { remain_open, disabled, .. } => {
                    &&& r.triggers_action == !disabled
                    &&& r.requests_close == (!disabled && !remain_open)
                },
                _ => !r.triggers_action && !r.requests_close,
            },
    {
        match self {
            ContextMenuItem::MenuItem { remain_open, disabled, .. } => MenuItemClick {
                triggers_action: !*disabled,
                requests_close: !*disabled && !*remain_open,
            },
            _ => MenuItemClick { triggers_action: false, requests_close: false },
        }
    }

    /// A builder of a separator.
    pub fn separator() -> (b: ContextMenuSeparatorBuilder)
        ensures
            b.label is None,
    {
        ContextMenuSeparatorBuilder { label: None }
    }

    /// A builder of a menu item with no label, icon or action, that closes
    /// the menu and is enabled.
    pub fn menu_item() -> (b: ContextMenuMenuItemBuilder<A>)
        ensures
            b.label is None,
            b.icon is None,
            b.action is None,
            !b.remain_open,
            !b.disabled,
    {
        ContextMenuMenuItemBuilder {
            label: None,
            icon: None,
            action: None,
            remain_open: false,
            disabled: false,
        }
    }
}

/// The outcome of a click on a context menu item.
#[derive(Clone, Copy, PartialEq, Eq, Structural)]
pub struct MenuItemClick {
    /// The item's action is triggered.
    pub triggers_action: bool,
    /// The menu is asked to close.
    pub requests_close: bool,
}

/// Builds a separator, or a group heading where it has a label.
pub struct ContextMenuSeparatorBuilder {
    pub label: Option<String>,
}

impl ContextMenuSeparatorBuilder {
    pub fn label(self, label: String) -> (b: Self)
        ensures
            b.label == Some(label),
    {
        ContextMenuSeparatorBuilder { label: Some(label) }
    }

    /// A group heading with the label, or a plain separator without one.
    pub fn build<A>(self) -> (item: ContextMenuItem<A>)
        ensures
            match self.label {
                Some(l) => item == ContextMenuItem::<A>::Group(l),
                None => item == ContextMenuItem::<A>::Separator,
            },
    {
        match self.label {
            Some(label) => ContextMenuItem::Group(label),
            None => ContextMenuItem::Separator,
        }
    }
}

/// Builds a menu item.
pub struct ContextMenuMenuItemBuilder<A> {
    pub label: Option<String>,
    pub icon: Option<String>,
    pub action: Option<A>,
    pub remain_open: bool,
    pub disabled: bool,
}

impl<A> ContextMenuMenuItemBuilder<A> {
    pub fn label(self, label: String) -> (b: Self)
        ensures
            b == (ContextMenuMenuItemBuilder { label: Some(label), ..self }),
    {
        ContextMenuMenuItemBuilder { label: Some(label), ..self }
    }

    pub fn icon(self, icon: String) -> (b: Self)
        ensures
            b == (ContextMenuMenuItemBuilder { icon: Some(icon), ..self }),
    {
        ContextMenuMenuItemBuilder { icon: Some(icon), ..self }
    }

    pub fn on_triggered(self, action: A) -> (b: Self)
        ensures
            b == (ContextMenuMenuItemBuilder { action: Some(action), ..self }),
    {
        ContextMenuMenuItemBuilder { action: Some(action), ..self }
    }

    pub fn remain_open(self) -> (b: Self)
        ensures
            b == (ContextMenuMenuItemBuilder { remain_open: true, ..self }),
    {
        ContextMenuMenuItemBuilder { remain_open: true, ..self }
    }

    pub fn disabled(self) -> (b: Self)
        ensures
            b == (ContextMenuMenuItemBuilder { disabled: true, ..self }),
    {
        ContextMenuMenuItemBuilder { disabled: true, ..self }
    }

    /// The menu item: an empty label where none was given; without an action
    /// the item does nothing when triggered.
    pub fn build(self) -> (item: ContextMenuItem<A>)
        ensures
            match item {
                ContextMenuItem::MenuItem { label, icon, action, remain_open, disabled } => {
                    &&& label@ == match self.label {
                        Some(l) => l@,
                        None => Seq::<char>::empty(),
                    }
                    &&& icon == self.icon
                    &&& action == self.action
                    &&& remain_open == self.remain_open
                    &&& disabled == self.disabled
                },
                _ => false,
            },
    {
        let label = match self.label {
            Some(l) => l,
            None => String::new(),
        };
        ContextMenuItem::MenuItem {
            label,
            icon: self.icon,
            action: self.action,
            remain_open: self.remain_open,
            disabled: self.disabled,
        }
    }
}

/// The buttons a dialog box offers ready-made.
#[derive(Clone, Copy, PartialEq, Eq, Structural)]
pub enum StandardButton {
    Okay,
    Cancel,
    Yes,
    No,
    Sorry,
}

impl StandardButton {
    /// The element id and the icon name of the button.
    pub fn id_and_icon(&self) -> (r: (&'static str, &'static str))
        ensures
            r.0@ == match *self {
                StandardButton::Okay => "ok-button"@,
                StandardButton::Cancel => "cancel-button"@,
                StandardButton::Yes => "yes-button"@,
                StandardButton::No => "no-button"@,
                StandardButton::Sorry => "sorry-button"@,
            },
            r.1@ == match *self {
                StandardButton::Okay | StandardButton::Yes | StandardButton::Sorry => "dialog-ok"@,
                StandardButton::Cancel | StandardButton::No => "dialog-cancel"@,
            },
    {
        match self {
            StandardButton::Okay => ("ok-button", "dialog-ok"),
            StandardButton::Cancel => ("cancel-button", "dialog-cancel"),
            StandardButton::Yes => ("yes-button", "dialog-ok"),
            StandardButton::No => ("no-button", "dialog-cancel"),
            StandardButton::Sorry => ("sorry-button", "dialog-ok"),
        }
    }
}

/// Sent when a flyout asks to be closed.
pub struct FlyoutRequestCloseEvent;

/// Where a flyout is anchored to its anchor.
#[derive(Clone, Copy, PartialEq, Eq, Structural)]
pub enum FlyoutAnchorPoisition {
    BottomLeft,
    TopRight,
}

impl Default for FlyoutAnchorPoisition {
    fn default() -> (r: Self)
        ensures
            r == FlyoutAnchorPoisition::BottomLeft,
    {
        FlyoutAnchorPoisition::BottomLeft
    }
}

/// How long the error flasher flashes, in milliseconds.
pub const ERROR_FLASH_TIME: u64 = 500;

/// Flashes a widget red when an error is shown; the time is in milliseconds
/// of a clock the caller keeps.
pub struct ErrorFlasher {
    pub start: Option<u64>,
}

impl ErrorFlasher {
    /// A flasher that has not flashed.
    pub fn new() -> (f: Self)
        ensures
            f.start is None,
    {
        ErrorFlasher { start: None }
    }

    /// Starts a flash at `now`.
    pub fn flash(&mut self, now: u64)
        ensures
            final(self).start == Some(now),
    {
        self.start = Some(now);
    }

    /// The flash still runs at `now`, so another frame is needed.
    pub fn is_flashing(&self, now: u64) -> (r: bool)
        ensures
            r == match self.start {
                Some(s) => now >= s && now - s < ERROR_FLASH_TIME,
                None => false,
            },
    {
        match self.start {
            Some(s) => now >= s && now - s < ERROR_FLASH_TIME,
            None => false,
        }
    }
}

/// The severity of an admonition or a toast.
#[derive(Clone, Copy, PartialEq, Eq, Structural)]
pub enum AdmonitionSeverity {
    Info,
    Warning,
    Error,
}

/// The pages a pager paints, bottom first: the current page first where the
/// previous page is on top, then the previous page while an animation runs,
/// then the current page where it is on top.
pub open spec fn paint_order_spec(top: PagerElement, animating: bool) -> Seq<PagerElement> {
    let first = if top == PagerElement::Previous {
        seq![PagerElement::Current]
    } else {
        Seq::empty()
    };
    let middle = if animating {
        seq![PagerElement::Previous]
    } else {
        Seq::empty()
    };
    let last = if top == PagerElement::Current {
        seq![PagerElement::Current]
    } else {
        Seq::empty()
    };
    first + middle + last
}

/// The pages a pager paints, bottom first; `animating` is that the
/// animation is not done and the pager has one. The current page is always
/// painted, exactly once.
pub fn paint_order(top: PagerElement, animation_done: bool, has_animation: bool) -> (r: Vec<
    PagerElement,
>)
    ensures
        r@ == paint_order_spec(top, !animation_done && has_animation),
        r@.contains(PagerElement::Current),
{
    let mut r: Vec<PagerElement> = Vec::new();
    if top == PagerElement::Previous {
        r.push(PagerElement::Current);
    }
    if !animation_done && has_animation {
        r.push(PagerElement::Previous);
    }
    if top == PagerElement::Current {
        r.push(PagerElement::Current);
    }
    proof {
        let animating = !animation_done && has_animation;
        assert(r@ =~= paint_order_spec(top, animating));
        if top == PagerElement::Previous {
            assert(r@[0] == PagerElement::Current);
        } else {
            assert(r@[r@.len() - 1] == PagerElement::Current);
        }
    }
    r
}

/// The application menu: open or closed, and the submenus opened from the
/// root menu, the innermost last; `M` is a menu.
pub struct ApplicationMenu<M> {
    is_open: bool,
    root_menu: M,
    menu_stack: Vec<M>,
}

impl<M> ApplicationMenu<M> {
    pub closed spec fn open(&self) -> bool {
        self.is_open
    }

    pub closed spec fn root(&self) -> M {
        self.root_menu
    }

    pub closed spec fn stack(&self) -> Seq<M> {
        self.menu_stack@
    }

    /// A closed menu at its root.
    pub fn new(menu: M) -> (m: Self)
        ensures
            !m.open(),
            m.root() == menu,
            m.stack().len() == 0,
    {
        ApplicationMenu { is_open: false, root_menu: menu, menu_stack: Vec::new() }
    }

    pub fn is_open(&self) -> (r: bool)
        ensures
            r == self.open(),
    {
        self.is_open
    }

    /// Opens or closes the menu; closing it goes back to the root.
    pub fn set_open(&mut self, is_open: bool)
        ensures
            final(self).open() == is_open,
            final(self).root() == old(self).root(),
            final(self).stack() == if is_open {
                old(self).stack()
            } else {
                Seq::empty()
            },
    {
        self.is_open = is_open;
        if !is_open {
            self.menu_stack.clear();
        }
    }

    /// A submenu was clicked: it is shown.
    pub fn open_submenu(&mut self, menu: M)
        ensures
            final(self).open() == old(self).open(),
            final(self).root() == old(self).root(),
            final(self).stack() == old(self).stack().push(menu),
    {
        self.menu_stack.push(menu);
    }

    /// Back: the submenu shown is left for the one it was opened from.
    pub fn go_back(&mut self)
        ensures
            final(self).open() == old(self).open(),
            final(self).root() == old(self).root(),
            final(self).stack() == if old(self).stack().len() > 0 {
                old(self).stack().drop_last()
            } else {
                old(self).stack()
            },
    {
        let _ = self.menu_stack.pop();
    }

    /// The menu shown: the innermost submenu, or the root menu.
    pub fn current_menu(&self) -> (r: &M)
        ensures
            *r == if self.stack().len() > 0 {
                self.stack().last()
            } else {
                self.root()
            },
    {
        if self.menu_stack.len() > 0 {
            &self.menu_stack[self.menu_stack.len() - 1]
        } else {
            &self.root_menu
        }
    }

    /// A Back button is shown inside a submenu.
    pub fn shows_back_button(&self) -> (r: bool)
        ensures
            r == (self.stack().len() > 0),
    {
        self.menu_stack.len() > 0
    }
}

/// The key modifiers shown next to a menu item.
#[derive(Clone, Copy, PartialEq, Eq, Structural)]
pub enum KeyModifier {
    Control,
    Shift,
    Alt,
    Platform,
    Function,
}

/// The modifiers of a keystroke, in the order they are shown.
pub open spec fn modifier_parts_spec(
    control: bool,
    shift: bool,
    alt: bool,
    platform: bool,
    function: bool,
) -> Seq<KeyModifier> {
    (if control { seq![KeyModifier::Control] } else { Seq::empty() }) + (if shift {
        seq![KeyModifier::Shift]
    } else {
        Seq::empty()
    }) + (if alt { seq![KeyModifier::Alt] } else { Seq::empty() }) + (if platform {
        seq![KeyModifier::Platform]
    } else {
        Seq::empty()
    }) + (if function { seq![KeyModifier::Function] } else { Seq::empty() })
}

/// The modifiers shown before the key of a menu item's shortcut: Control,
/// Shift, Alt, Super and Fn, those that are held, in that order.
pub fn modifier_parts(control: bool, shift: bool, alt: bool, platform: bool, function: bool) -> (r:
    Vec<KeyModifier>)
    ensures
        r@ == modifier_parts_spec(control, shift, alt, platform, function),
{
    let mut r: Vec<KeyModifier> = Vec::new();
    if control {
        r.push(KeyModifier::Control);
    }
    if shift {
        r.push(KeyModifier::Shift);
    }
    if alt {
        r.push(KeyModifier::Alt);
    }
    if platform {
        r.push(KeyModifier::Platform);
    }
    if function {
        r.push(KeyModifier::Function);
    }
    proof {
        assert(r@ =~= modifier_parts_spec(control, shift, alt, platform, function));
    }
    r
}


/// A keystroke of a key binding: the modifiers held and the key.
pub struct Keystroke {
    pub control: bool,
    pub shift: bool,
    pub alt: bool,
    pub platform: bool,
    pub function: bool,
    pub key: String,
}

/// The names shown for the modifiers next to menu items, as translated for
/// the user (by default Ctrl, Shift, Alt, Super and Fn).
pub struct ModifierNames {
    pub control: String,
    pub shift: String,
    pub alt: String,
    pub platform: String,
    pub function: String,
}

/// What `str::to_uppercase` makes of a text.
pub uninterp spec fn uppercase_of(s: Seq<char>) -> Seq<char>;

/// Calls `str::to_uppercase`. Its result, the text mapped to upper case by
/// the Unicode rules, is a function of the text alone and is left to the name
/// `uppercase_of`.
#[verifier::external_body]
fn to_uppercase(s: &str) -> (r: String)
    ensures
        r@ == uppercase_of(s@),
{
    s.to_uppercase()
}

/// The name shown for a modifier.
pub open spec fn modifier_name(names: ModifierNames, m: KeyModifier) -> Seq<char> {
    match m {
        KeyModifier::Control => names.control@,
        KeyModifier::Shift => names.shift@,
        KeyModifier::Alt => names.alt@,
        KeyModifier::Platform => names.platform@,
        KeyModifier::Function => names.function@,
    }
}

/// The texts joined, with a `+` between each two.
pub open spec fn join_with_plus(parts: Seq<Seq<char>>) -> Seq<char>
    decreases parts.len(),
{
    if parts.len() == 0 {
        Seq::empty()
    } else if parts.len() == 1 {
        parts[0]
    } else {
        join_with_plus(parts.drop_last()) + seq!['+'] + parts.last()
    }
}

/// The parts of a keystroke's label: the names of its modifiers, in the
/// order Control, Shift, Alt, Super, Fn, then its key in upper case.
pub open spec fn keystroke_parts(names: ModifierNames, k: Keystroke) -> Seq<Seq<char>> {
    modifier_parts_spec(k.control, k.shift, k.alt, k.platform, k.function).map_values(
        |m: KeyModifier| modifier_name(names, m),
    ).push(uppercase_of(k.key@))
}

/// The shortcut shown next to a menu item for the keystrokes of its first
/// key binding: nothing unless there is exactly one keystroke; then its parts
/// joined by `+`.
pub open spec fn shortcut_label_spec(names: ModifierNames, keystrokes: Seq<Keystroke>) -> Seq<
    char,
> {
    if keystrokes.len() == 1 {
        join_with_plus(keystroke_parts(names, keystrokes[0]))
    } else {
        Seq::empty()
    }
}

fn modifier_name_of(names: &ModifierNames, m: KeyModifier) -> (r: String)
    ensures
        r@ == modifier_name(*names, m),
{
    match m {
        KeyModifier::Control => names.control.clone(),
        KeyModifier::Shift => names.shift.clone(),
        KeyModifier::Alt => names.alt.clone(),
        KeyModifier::Platform => names.platform.clone(),
        KeyModifier::Function => names.function.clone(),
    }
}

/// The texts joined, with a `+` between each two.
fn join_plus(parts: &Vec<String>) -> (r: String)
    ensures
        r@ == join_with_plus(parts@.map_values(|p: String| p@)),
{
    let ghost views = parts@.map_values(|p: String| p@);
    if parts.len() == 0 {
        proof {
            assert(views.len() == 0);
        }
        return String::new();
    }
    let mut out = parts[0].clone();
    let mut i: usize = 1;
    proof {
        assert(views.take(1).len() == 1);
        assert(views.take(1)[0] == views[0]);
    }
    while i < parts.len()
        invariant
            1 <= i <= parts@.len(),
            views == parts@.map_values(|p: String| p@),
            out@ == join_with_plus(views.take(i as int)),
        decreases parts@.len() - i,
    {
        proof {
            reveal_strlit("+");
        }
        out.append("+");
        out.append(parts[i].as_str());
        proof {
            let t = views.take(i + 1);
            assert(t.drop_last() =~= views.take(i as int));
            assert(t.last() == views[i as int]);
            assert("+"@ =~= seq!['+']);
        }
        i = i + 1;
    }
    proof {
        assert(views.take(parts@.len() as int) =~= views);
    }
    out
}

/// The shortcut shown next to a menu item: for the keystrokes of its first
/// key binding (none where it has no binding), the names of the held
/// modifiers and the key in upper case, joined by `+`, where there is exactly
/// one keystroke; nothing otherwise.
pub fn shortcut_label(keystrokes: &Vec<Keystroke>, names: &ModifierNames) -> (r: String)
    ensures
        r@ == shortcut_label_spec(*names, keystrokes@),
{
    if keystrokes.len() != 1 {
        return String::new();
    }
    let k = &keystrokes[0];
    let mods = modifier_parts(k.control, k.shift, k.alt, k.platform, k.function);
    let ghost target = mods@.map_values(|m: KeyModifier| modifier_name(*names, m));
    let mut parts: Vec<String> = Vec::new();
    let mut i: usize = 0;
    while i < mods.len()
        invariant
            i <= mods@.len(),
            target == mods@.map_values(|m: KeyModifier| modifier_name(*names, m)),
            parts@.map_values(|p: String| p@) == target.take(i as int),
        decreases mods@.len() - i,
    {
        let name = modifier_name_of(names, mods[i]);
        let ghost before = parts@;
        parts.push(name);
        proof {
            assert(parts@.map_values(|p: String| p@) =~= before.map_values(|p: String| p@).push(
                target[i as int],
            ));
            assert(target.take(i + 1) =~= target.take(i as int).push(target[i as int]));
        }
        i = i + 1;
    }
    let ghost before = parts@;
    parts.push(to_uppercase(k.key.as_str()));
    proof {
        assert(target.take(mods@.len() as int) =~= target);
        assert(parts@.map_values(|p: String| p@) =~= keystroke_parts(*names, keystrokes@[0])) by {
            assert(parts@.map_values(|p: String| p@) =~= before.map_values(|p: String| p@).push(
                uppercase_of(k.key@),
            ));
        }
    }
    join_plus(&parts)
}

} // verus!
