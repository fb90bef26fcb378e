//! The colour scheme of the windows.

use crate::json::read_string;
use crate::text::same_text;
use vstd::prelude::*;

verus! {

/// The two colour schemes.
#[derive(Clone, Copy, Debug, PartialEq, Eq, Structural)]
pub enum Theme {
    Light,
    Dark,
}

/// The name of a scheme.
pub open spec fn theme_name(theme: Theme) -> Seq<char> {
    match theme {
        Theme::Light => "light"@,
        Theme::Dark => "dark"@,
    }
}

/// The scheme of a name: `light` is light, any other name is dark.
pub open spec fn theme_of(name: Seq<char>) -> Theme {
    if name == "light"@ {
        Theme::Light
    } else {
        Theme::Dark
    }
}

/// The scheme that a text names exactly.
pub open spec fn exact_theme(name: Seq<char>) -> Option<Theme> {
    if name == "light"@ {
        Some(Theme::Light)
    } else if name == "dark"@ {
        Some(Theme::Dark)
    } else {
        None
    }
}

/// The scheme of a name: `light` is light, any other name is dark.
pub fn tauri_theme(name: &str) -> (theme: Theme)
    ensures
        theme == theme_of(name@),
{
    if same_text(name, "light") {
        Theme::Light
    } else {
        Theme::Dark
    }
}

/// The scheme that a text names exactly.
pub fn recognise_theme(name: &str) -> (theme: Option<Theme>)
    ensures
        theme == exact_theme(name@),
{
    if same_text(name, "light") {
        Some(Theme::Light)
    } else if same_text(name, "dark") {
        Some(Theme::Dark)
    } else {
        None
    }
}

/// The name of the scheme at the start: the user's setting, else what the
/// system gives the loading window, else dark.
pub fn startup_theme(preference: Option<&'static str>, system: Option<Theme>) -> (name:
    &'static str)
    ensures
        name@ == match (preference, system) {
            (Some(preference), _) => preference@,
            (None, Some(theme)) => theme_name(theme),
            (None, None) => "dark"@,
        },
{
    match preference {
        Some(preference) => preference,
        None => match system {
            Some(Theme::Light) => "light",
            Some(Theme::Dark) => "dark",
            None => "dark",
        },
    }
}

/// The icon in the title bar: a light logo on a dark bar, a dark one on a light
/// bar.
#[derive(Clone, Copy, Debug, PartialEq, Eq, Structural)]
pub enum Icon {
    ForDark,
    ForLight,
}

/// How a window looks in a scheme.
#[derive(Clone, Copy, Debug, PartialEq, Eq, Structural)]
pub struct WindowLook {
    pub theme: Theme,
    pub red: u8,
    pub green: u8,
    pub blue: u8,
    pub alpha: u8,
    pub icon: Icon,
}

/// The look of a scheme.
pub open spec fn look_of(theme: Theme) -> WindowLook {
    match theme {
        Theme::Light => WindowLook {
            theme,
            red: 255,
            green: 255,
            blue: 255,
            alpha: 255,
            icon: Icon::ForLight,
        },
        Theme::Dark => WindowLook {
            theme,
            red: 21,
            green: 21,
            blue: 23,
            alpha: 255,
            icon: Icon::ForDark,
        },
    }
}

/// How a window looks under the scheme of a name: title bar, background and
/// icon together.
pub fn apply_window_theme(name: &str) -> (look: WindowLook)
    ensures
        look == look_of(theme_of(name@)),
{
    match tauri_theme(name) {
        Theme::Light => WindowLook {
            theme: Theme::Light,
            red: 255,
            green: 255,
            blue: 255,
            alpha: 255,
            icon: Icon::ForLight,
        },
        Theme::Dark => WindowLook {
            theme: Theme::Dark,
            red: 21,
            green: 21,
            blue: 23,
            alpha: 255,
            icon: Icon::ForDark,
        },
    }
}

/// The name of a scheme.
pub fn name_of_theme(theme: Theme) -> (name: &'static str)
    ensures
        name@ == theme_name(theme),
{
    match theme {
        Theme::Light => "light",
        Theme::Dark => "dark",
    }
}

/// What was applied to the main window, and what was seen once since.
#[derive(Clone, Copy, Debug, PartialEq, Eq, Structural)]
pub struct ThemeSync {
    pub current: Option<Theme>,
    pub pending: Option<Theme>,
}

impl Default for ThemeSync {
    fn default() -> (sync: ThemeSync)
        ensures
            sync == ThemeSync::start(),
    {
        ThemeSync { current: None, pending: None }
    }
}

impl ThemeSync {
    /// Nothing was applied or seen yet.
    pub open spec fn start() -> ThemeSync {
        ThemeSync { current: None, pending: None }
    }

    /// What is pending differs from what is applied.
    pub open spec fn well_formed(self) -> bool {
        self.pending is Some ==> self.pending != self.current
    }

    /// The state after the page showed `seen`; `None` where it showed no scheme.
    pub open spec fn after(self, seen: Option<Theme>) -> ThemeSync {
        match seen {
            None => ThemeSync { current: self.current, pending: None },
            Some(theme) => if self.current == Some(theme) {
                ThemeSync { current: self.current, pending: None }
            } else if self.pending == Some(theme) {
                ThemeSync { current: Some(theme), pending: None }
            } else {
                ThemeSync { current: self.current, pending: Some(theme) }
            },
        }
    }

    /// The scheme that is to be applied when the page showed `seen`.
    pub open spec fn applied(self, seen: Option<Theme>) -> Option<Theme> {
        match seen {
            None => None,
            Some(theme) => if self.current != Some(theme) && self.pending == Some(theme) {
                Some(theme)
            } else {
                None
            },
        }
    }

    /// Takes what the page shows. A scheme that differs from the applied one is
    /// given back, to be applied, when two polls in a row show it. A text that
    /// names no scheme is applied to nothing: the page is not ready.
    pub fn observe_name(&mut self, name: &str) -> (apply: Option<Theme>)
        ensures
            *final(self) == old(self).after(exact_theme(name@)),
            apply == old(self).applied(exact_theme(name@)),
            old(self).well_formed() ==> final(self).well_formed(),
    {
        match recognise_theme(name) {
            None => {
                self.pending = None;
                None
            },
            Some(theme) => {
                if self.current == Some(theme) {
                    self.pending = None;
                    None
                } else if self.pending == Some(theme) {
                    self.pending = None;
                    self.current = Some(theme);
                    Some(theme)
                } else {
                    self.pending = Some(theme);
                    None
                }
            },
        }
    }

    /// Takes what the page's probe script gave, a JSON document. Anything but a
    /// string is taken as the empty text.
    pub fn observe(&mut self, value: &str) -> (apply: Option<Theme>)
        ensures
            *final(self) == old(self).after(shown_theme(value@)),
            apply == old(self).applied(shown_theme(value@)),
            old(self).well_formed() ==> final(self).well_formed(),
    {
        match read_string(value) {
            Some(name) => self.observe_name(name.as_str()),
            None => {
                proof {
                    reveal_strlit("");
                    reveal_strlit("light");
                    reveal_strlit("dark");
                    assert(""@.len() != "light"@.len() && ""@.len() != "dark"@.len());
                }
                self.observe_name("")
            },
        }
    }
}

/// The scheme that a JSON document names.
pub open spec fn shown_theme(value: Seq<char>) -> Option<Theme> {
    match crate::json::json_string(value) {
        Some(name) => exact_theme(name),
        None => None,
    }
}

/// The state after a run of observations.
pub open spec fn after_all(seen: Seq<Option<Theme>>) -> ThemeSync
    decreases seen.len(),
{
    if seen.len() == 0 {
        ThemeSync::start()
    } else {
        after_all(seen.drop_last()).after(seen.last())
    }
}

/// What the last poll of a run showed.
pub open spec fn last_seen(seen: Seq<Option<Theme>>) -> Option<Theme> {
    if seen.len() == 0 {
        None
    } else {
        seen.last()
    }
}

proof fn pending_was_last(seen: Seq<Option<Theme>>)
    ensures
        after_all(seen).well_formed(),
        after_all(seen).pending == if last_seen(seen) == after_all(seen).current {
            None
        } else {
            last_seen(seen)
        },
    decreases seen.len(),
{
    if seen.len() > 0 {
        pending_was_last(seen.drop_last());
    }
}

/// A scheme is applied at a poll exactly where that poll and the one before it
/// both showed it and it is not the applied one.
pub proof fn scheme_is_applied_at_the_second_sight(seen: Seq<Option<Theme>>, now: Option<Theme>)
    ensures
        after_all(seen).applied(now) == if now is Some && last_seen(seen) == now && after_all(
            seen,
        ).current != now {
            now
        } else {
            None
        },
{
    pending_was_last(seen);
}

/// What is applied is what the last poll that applied anything showed, and stays
/// until another is applied.
pub proof fn applied_scheme_stays(seen: Seq<Option<Theme>>, now: Option<Theme>)
    ensures
        after_all(seen.push(now)).current == match after_all(seen).applied(now) {
            Some(theme) => Some(theme),
            None => after_all(seen).current,
        },
{
    assert(seen.push(now).drop_last() == seen);
}

/// A scheme that is seen twice in a row is the applied one, whatever was before.
pub proof fn scheme_seen_twice_is_applied(seen: Seq<Option<Theme>>, theme: Theme)
    ensures
        after_all(seen.push(Some(theme)).push(Some(theme))).current == Some(theme),
{
    let once = seen.push(Some(theme));
    assert(once.drop_last() == seen);
    assert(once.push(Some(theme)).drop_last() == once);
    assert(after_all(once) == after_all(seen).after(Some(theme)));
}

/// A scheme that is seen at a single poll changes nothing, whatever the next poll
/// shows instead.
pub proof fn single_sight_is_ignored(sync: ThemeSync, glimpse: Theme, next: Option<Theme>)
    requires
        sync.pending is None,
        sync.current != Some(glimpse),
        next != Some(glimpse),
    ensures
        sync.applied(Some(glimpse)) is None,
        sync.after(Some(glimpse)).applied(next) is None,
        sync.after(Some(glimpse)).after(next).current == sync.current,
        next is None || next == sync.current ==> sync.after(Some(glimpse)).after(next) == sync,
{
}

/// `light` and `dark` name the two schemes, and no other text names one. Where a
/// scheme has to be chosen, any other text is dark.
pub proof fn two_names_for_two_schemes(
    name: &str,
    chosen: Theme,
    recognised: Option<Theme>,
    theme: Theme,
    own: &'static str,
)
    requires
        call_ensures(tauri_theme, (name,), chosen),
        call_ensures(recognise_theme, (name,), recognised),
        call_ensures(name_of_theme, (theme,), own),
    ensures
        recognised == Some(theme) <==> name@ == own@,
        recognised is None <==> name@ != "light"@ && name@ != "dark"@,
        chosen == Theme::Light <==> name@ == "light"@,
        own@ == "light"@ <==> theme == Theme::Light,
        own@ == "light"@ || own@ == "dark"@,
{
    reveal_strlit("light");
    reveal_strlit("dark");
    assert("light"@.len() != "dark"@.len());
}

/// The scheme at the start is the user's, where that is set, whatever the system
/// has; else the system's; else dark. The name is one that the window takes as
/// that scheme.
pub proof fn setting_goes_before_the_system(
    preference: Option<&'static str>,
    system: Option<Theme>,
    name: &'static str,
)
    requires
        call_ensures(startup_theme, (preference, system), name),
    ensures
        preference is Some ==> name@ == preference->0@,
        preference is None && system is Some ==> exact_theme(name@) == system,
        preference is None && system is None ==> exact_theme(name@) == Some(Theme::Dark),
{
    reveal_strlit("light");
    reveal_strlit("dark");
    assert("light"@.len() != "dark"@.len());
}

/// A window looks as its scheme is: the title bar, the icon and the background go
/// together. A light window is white, a dark one is (21, 21, 23), and neither lets
/// anything shine through.
pub proof fn look_goes_together(name: &str, look: WindowLook, theme: Theme)
    requires
        call_ensures(apply_window_theme, (name,), look),
        call_ensures(tauri_theme, (name,), theme),
    ensures
        look.theme == theme,
        look.icon == Icon::ForLight <==> theme == Theme::Light,
        theme == Theme::Light ==> look.red == 255 && look.green == 255 && look.blue == 255,
        theme == Theme::Dark ==> look.red == 21 && look.green == 21 && look.blue == 23,
        look.alpha == 255,
{
}

/// What the page's probe gives counts only where it is a JSON string that is
/// exactly `light` or `dark`.
pub proof fn only_a_json_string_names_a_scheme(value: Seq<char>, name: Seq<char>, theme: Theme)
    ensures
        crate::json::parsed_json(value) == Ok::<crate::json::JsonModel, Seq<char>>(
            crate::json::JsonModel::Text(name),
        ) ==> (shown_theme(value) == Some(theme) <==> name == (match theme {
            Theme::Light => "light"@,
            Theme::Dark => "dark"@,
        })),
        crate::json::parsed_json(value) is Err || !(crate::json::parsed_json(value)->Ok_0 is Text)
            ==> shown_theme(value) is None,
{
    reveal_strlit("light");
    reveal_strlit("dark");
    assert("light"@.len() != "dark"@.len());
}

/// At the start nothing is applied, and a scheme is applied for the first time when
/// it is seen twice in a row.
pub proof fn nothing_is_applied_at_first(sync: ThemeSync, seen: Option<Theme>)
    requires
        call_ensures(ThemeSync::default, (), sync),
    ensures
        sync.current is None,
        sync.applied(seen) is None,
        seen is Some ==> sync.after(seen).applied(seen) == seen && sync.after(seen).after(
            seen,
        ).current == seen,
{
}

/// The window follows the page after two polls in a row: whatever was before, two
/// that both show a scheme leave it applied, and it is given back to be applied at
/// most once, and not at the first of them unless that repeats one before.
pub proof fn window_follows_two_polls(
    first: &mut ThemeSync,
    second: &mut ThemeSync,
    name: &str,
    at_first: Option<Theme>,
    at_second: Option<Theme>,
    theme: Theme,
)
    requires
        call_ensures(ThemeSync::observe_name, (first, name), at_first),
        call_ensures(ThemeSync::observe_name, (second, name), at_second),
        *old(second) == *final(first),
        name@ == (match theme {
            Theme::Light => "light"@,
            Theme::Dark => "dark"@,
        }),
    ensures
        final(second).current == Some(theme),
        final(second).pending is None,
        at_first == Some(theme) <==> old(first).pending == Some(theme) && old(first).current != Some(
            theme,
        ),
        at_second == Some(theme) <==> old(first).current != Some(theme) && at_first is None,
        old(first).current == Some(theme) ==> at_first is None && at_second is None,
{
    reveal_strlit("light");
    reveal_strlit("dark");
    assert("light"@.len() != "dark"@.len());
}

/// A poll that shows neither scheme, or that is no JSON string, applies nothing and
/// keeps what is applied, but what was seen once before counts no more. A poll that
/// is a JSON string is taken as its text.
pub proof fn page_that_is_not_ready_applies_nothing(
    sync: &mut ThemeSync,
    named: &mut ThemeSync,
    value: &str,
    name: &str,
    apply: Option<Theme>,
    named_apply: Option<Theme>,
)
    requires
        call_ensures(ThemeSync::observe, (sync, value), apply),
        call_ensures(ThemeSync::observe_name, (named, name), named_apply),
        *old(sync) == *old(named),
    ensures
        crate::json::parsed_json(value@) is Err || !(crate::json::parsed_json(value@)->Ok_0 is Text)
            ==> apply is None && final(sync).current == old(sync).current
            && final(sync).pending is None,
        name@ != "light"@ && name@ != "dark"@ ==> named_apply is None && final(named).current
            == old(named).current && final(named).pending is None,
        crate::json::parsed_json(value@) == Ok::<crate::json::JsonModel, Seq<char>>(
            crate::json::JsonModel::Text(name@),
        ) ==> apply == named_apply && *final(sync) == *final(named),
{
}

} // verus!
