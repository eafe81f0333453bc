//! User settings: keyboard shortcuts, their defaults, and the check for
//! shortcuts that collide.

use crate::item::texts;
use crate::text::same_text;
use vstd::prelude::*;
use vstd::string::*;

verus! {

/// A key with its modifiers.
#[derive(Debug)]
pub struct ShortcutConfig {
    pub key: String,
    pub ctrl: bool,
    pub alt: bool,
    pub shift: bool,
    /// Command on macOS, the Windows key on Windows.
    pub meta: bool,
}

pub struct ShortcutConfigView {
    pub key: Seq<char>,
    pub ctrl: bool,
    pub alt: bool,
    pub shift: bool,
    pub meta: bool,
}

impl View for ShortcutConfig {
    type V = ShortcutConfigView;

    open spec fn view(&self) -> ShortcutConfigView {
        ShortcutConfigView {
            key: self.key@,
            ctrl: self.ctrl,
            alt: self.alt,
            shift: self.shift,
            meta: self.meta,
        }
    }
}

/// The name of a modifier with the plus sign that follows it, or nothing
/// where the modifier is not part of the shortcut.
pub open spec fn modifier_text(held: bool, name: Seq<char>) -> Seq<char> {
    if held {
        name + "+"@
    } else {
        Seq::<char>::empty()
    }
}

impl ShortcutConfigView {
    /// The shortcut written out: its modifiers in the order Ctrl, Alt,
    /// Shift, Meta, then the key, with plus signs between.
    pub open spec fn text(self) -> Seq<char> {
        modifier_text(self.ctrl, "Ctrl"@) + modifier_text(self.alt, "Alt"@) + modifier_text(
            self.shift,
            "Shift"@,
        ) + modifier_text(self.meta, "Meta"@) + self.key
    }

    /// A shortcut of one key without modifiers.
    pub open spec fn plain(key: Seq<char>) -> ShortcutConfigView {
        ShortcutConfigView { key, ctrl: false, alt: false, shift: false, meta: false }
    }
}

impl Clone for ShortcutConfig {
    fn clone(&self) -> (out: Self)
        ensures
            out@ == self@,
    {
        ShortcutConfig {
            key: self.key.clone(),
            ctrl: self.ctrl,
            alt: self.alt,
            shift: self.shift,
            meta: self.meta,
        }
    }
}

impl ShortcutConfig {
    /// The shortcut written out, as in `Ctrl+Shift+V`.
    pub fn to_config_string(&self) -> (out: String)
        ensures
            out@ == self@.text(),
    {
        let mut out = String::new();
        if self.ctrl {
            out.append("Ctrl");
            out.append("+");
        }
        if self.alt {
            out.append("Alt");
            out.append("+");
        }
        if self.shift {
            out.append("Shift");
            out.append("+");
        }
        if self.meta {
            out.append("Meta");
            out.append("+");
        }
        out.append(self.key.as_str());
        assert(out@ =~= self@.text());
        out
    }

    /// The shortcut that shows and hides the window unless the user picks
    /// another: Ctrl+Shift+V.
    pub fn default_global() -> (out: ShortcutConfig)
        ensures
            out@ == (ShortcutConfigView {
                key: "V"@,
                ctrl: true,
                alt: false,
                shift: true,
                meta: false,
            }),
    {
        ShortcutConfig {
            key: String::from_str("V"),
            ctrl: true,
            alt: false,
            shift: true,
            meta: false,
        }
    }

    /// A shortcut of one key without modifiers.
    pub fn plain(key: &str) -> (out: ShortcutConfig)
        ensures
            out@ == ShortcutConfigView::plain(key@),
    {
        ShortcutConfig {
            key: String::from_str(key),
            ctrl: false,
            alt: false,
            shift: false,
            meta: false,
        }
    }
}

/// The shortcuts of the application.
#[derive(Debug)]
pub struct Shortcuts {
    /// Shows and hides the window; works from anywhere.
    pub toggle_window: ShortcutConfig,
    pub focus_search: ShortcutConfig,
    pub navigate_up: ShortcutConfig,
    pub navigate_down: ShortcutConfig,
    pub expand_item: ShortcutConfig,
    pub copy_selected: ShortcutConfig,
    pub pin_selected: ShortcutConfig,
    pub delete_selected: ShortcutConfig,
    pub open_tags: ShortcutConfig,
    pub close_window: ShortcutConfig,
}

pub struct ShortcutsView {
    pub toggle_window: ShortcutConfigView,
    pub focus_search: ShortcutConfigView,
    pub navigate_up: ShortcutConfigView,
    pub navigate_down: ShortcutConfigView,
    pub expand_item: ShortcutConfigView,
    pub copy_selected: ShortcutConfigView,
    pub pin_selected: ShortcutConfigView,
    pub delete_selected: ShortcutConfigView,
    pub open_tags: ShortcutConfigView,
    pub close_window: ShortcutConfigView,
}

impl View for Shortcuts {
    type V = ShortcutsView;

    open spec fn view(&self) -> ShortcutsView {
        ShortcutsView {
            toggle_window: self.toggle_window@,
            focus_search: self.focus_search@,
            navigate_up: self.navigate_up@,
            navigate_down: self.navigate_down@,
            expand_item: self.expand_item@,
            copy_selected: self.copy_selected@,
            pin_selected: self.pin_selected@,
            delete_selected: self.delete_selected@,
            open_tags: self.open_tags@,
            close_window: self.close_window@,
        }
    }
}

impl ShortcutsView {
    /// The shortcuts written out, in the order in which they are checked.
    pub open spec fn written(self) -> Seq<Seq<char>> {
        seq![
            self.toggle_window.text(),
            self.focus_search.text(),
            self.navigate_up.text(),
            self.navigate_down.text(),
            self.expand_item.text(),
            self.copy_selected.text(),
            self.pin_selected.text(),
            self.delete_selected.text(),
            self.open_tags.text(),
            self.close_window.text(),
        ]
    }

    /// The shortcuts as they are unless the user changes them.
    pub open spec fn standard() -> ShortcutsView {
        ShortcutsView {
            toggle_window: ShortcutConfigView {
                key: "V"@,
                ctrl: true,
                alt: false,
                shift: true,
                meta: false,
            },
            focus_search: ShortcutConfigView::plain("/"@),
            navigate_up: ShortcutConfigView::plain("ArrowUp"@),
            navigate_down: ShortcutConfigView::plain("ArrowDown"@),
            expand_item: ShortcutConfigView::plain(" "@),
            copy_selected: ShortcutConfigView::plain("Enter"@),
            pin_selected: ShortcutConfigView::plain("P"@),
            delete_selected: ShortcutConfigView::plain("Delete"@),
            open_tags: ShortcutConfigView::plain("T"@),
            close_window: ShortcutConfigView::plain("Escape"@),
        }
    }
}

/// The names of the shortcuts, in the order in which they are checked.
pub open spec fn shortcut_names() -> Seq<Seq<char>> {
    seq![
        "toggle_window"@,
        "focus_search"@,
        "navigate_up"@,
        "navigate_down"@,
        "expand_item"@,
        "copy_selected"@,
        "pin_selected"@,
        "delete_selected"@,
        "open_tags"@,
        "close_window"@,
    ]
}

impl Clone for Shortcuts {
    fn clone(&self) -> (out: Self)
        ensures
            out@ == self@,
    {
        Shortcuts {
            toggle_window: self.toggle_window.clone(),
            focus_search: self.focus_search.clone(),
            navigate_up: self.navigate_up.clone(),
            navigate_down: self.navigate_down.clone(),
            expand_item: self.expand_item.clone(),
            copy_selected: self.copy_selected.clone(),
            pin_selected: self.pin_selected.clone(),
            delete_selected: self.delete_selected.clone(),
            open_tags: self.open_tags.clone(),
            close_window: self.close_window.clone(),
        }
    }
}

impl Default for Shortcuts {
    fn default() -> (out: Shortcuts)
        ensures
            out@ == ShortcutsView::standard(),
    {
        Shortcuts {
            toggle_window: ShortcutConfig::default_global(),
            focus_search: ShortcutConfig::plain("/"),
            navigate_up: ShortcutConfig::plain("ArrowUp"),
            navigate_down: ShortcutConfig::plain("ArrowDown"),
            expand_item: ShortcutConfig::plain(" "),
            copy_selected: ShortcutConfig::plain("Enter"),
            pin_selected: ShortcutConfig::plain("P"),
            delete_selected: ShortcutConfig::plain("Delete"),
            open_tags: ShortcutConfig::plain("T"),
            close_window: ShortcutConfig::plain("Escape"),
        }
    }
}

/// The report of one collision.
pub open spec fn conflict_text(first: Seq<char>, second: Seq<char>) -> Seq<char> {
    first + " conflicts with "@ + second
}

/// The collisions of the shortcut at `at` with those after it up to, not
/// including, `end`.
pub open spec fn conflicts_of(
    names: Seq<Seq<char>>,
    written: Seq<Seq<char>>,
    at: int,
    end: int,
) -> Seq<Seq<char>>
    decreases end - at,
{
    if end <= at + 1 {
        Seq::<Seq<char>>::empty()
    } else {
        let before = conflicts_of(names, written, at, end - 1);
        if written[at] == written[end - 1] {
            before.push(conflict_text(names[at], names[end - 1]))
        } else {
            before
        }
    }
}

/// The collisions among the shortcuts, of the first `upto` of them with all
/// that come later: one report for every pair of shortcuts that are written
/// the same, ordered by the first of the pair and then by the second.
pub open spec fn conflicts(names: Seq<Seq<char>>, written: Seq<Seq<char>>, upto: int) -> Seq<
    Seq<char>,
>
    decreases upto,
{
    if upto <= 0 {
        Seq::<Seq<char>>::empty()
    } else {
        conflicts(names, written, upto - 1) + conflicts_of(
            names,
            written,
            upto - 1,
            written.len() as int,
        )
    }
}

/// The settings of the application.
#[derive(Debug)]
pub struct Settings {
    pub autostart_enabled: bool,
    pub show_on_startup: bool,
    pub start_minimized: bool,
    pub shortcuts: Shortcuts,
    pub theme: String,
    pub accent_color: String,
    pub language: String,
    pub max_history_items: i64,
    pub auto_cleanup_days: Option<i64>,
    pub paste_on_select: bool,
    pub show_notifications: bool,
    pub always_on_top: bool,
    pub display_mode: String,
    pub timeline_mode: String,
    pub enable_input_panel: bool,
    pub input_panel_trigger: String,
    pub input_panel_selection_modifier: String,
    /// On Linux: `auto`, `x11` or `wayland`.
    pub linux_display_server: String,
    /// On Windows.
    pub run_as_administrator: bool,
}

pub struct SettingsView {
    pub autostart_enabled: bool,
    pub show_on_startup: bool,
    pub start_minimized: bool,
    pub shortcuts: ShortcutsView,
    pub theme: Seq<char>,
    pub accent_color: Seq<char>,
    pub language: Seq<char>,
    pub max_history_items: i64,
    pub auto_cleanup_days: Option<i64>,
    pub paste_on_select: bool,
    pub show_notifications: bool,
    pub always_on_top: bool,
    pub display_mode: Seq<char>,
    pub timeline_mode: Seq<char>,
    pub enable_input_panel: bool,
    pub input_panel_trigger: Seq<char>,
    pub input_panel_selection_modifier: Seq<char>,
    pub linux_display_server: Seq<char>,
    pub run_as_administrator: bool,
}

impl View for Settings {
    type V = SettingsView;

    open spec fn view(&self) -> SettingsView {
        SettingsView {
            autostart_enabled: self.autostart_enabled,
            show_on_startup: self.show_on_startup,
            start_minimized: self.start_minimized,
            shortcuts: self.shortcuts@,
            theme: self.theme@,
            accent_color: self.accent_color@,
            language: self.language@,
            max_history_items: self.max_history_items,
            auto_cleanup_days: self.auto_cleanup_days,
            paste_on_select: self.paste_on_select,
            show_notifications: self.show_notifications,
            always_on_top: self.always_on_top,
            display_mode: self.display_mode@,
            timeline_mode: self.timeline_mode@,
            enable_input_panel: self.enable_input_panel,
            input_panel_trigger: self.input_panel_trigger@,
            input_panel_selection_modifier: self.input_panel_selection_modifier@,
            linux_display_server: self.linux_display_server@,
            run_as_administrator: self.run_as_administrator,
        }
    }
}

impl SettingsView {
    /// The settings as they are unless the user changes them.
    pub open spec fn standard() -> SettingsView {
        SettingsView {
            autostart_enabled: false,
            show_on_startup: true,
            start_minimized: false,
            shortcuts: ShortcutsView::standard(),
            theme: "system"@,
            accent_color: "#6366f1"@,
            language: "system"@,
            max_history_items: 1000,
            auto_cleanup_days: Some(30i64),
            paste_on_select: false,
            show_notifications: true,
            always_on_top: true,
            display_mode: "compact"@,
            timeline_mode: "standard"@,
            enable_input_panel: false,
            input_panel_trigger: "/v"@,
            input_panel_selection_modifier: "ctrl"@,
            linux_display_server: "auto"@,
            run_as_administrator: false,
        }
    }
}

/// The modifier that goes with a selection in the input panel unless the
/// settings name another.
pub fn default_input_panel_selection_modifier() -> (out: String)
    ensures
        out@ == "ctrl"@,
{
    String::from_str("ctrl")
}

/// The timeline mode unless the settings name another.
pub fn default_timeline_mode() -> (out: String)
    ensures
        out@ == "standard"@,
{
    String::from_str("standard")
}

impl Clone for Settings {
    fn clone(&self) -> (out: Self)
        ensures
            out@ == self@,
    {
        Settings {
            autostart_enabled: self.autostart_enabled,
            show_on_startup: self.show_on_startup,
            start_minimized: self.start_minimized,
            shortcuts: self.shortcuts.clone(),
            theme: self.theme.clone(),
            accent_color: self.accent_color.clone(),
            language: self.language.clone(),
            max_history_items: self.max_history_items,
            auto_cleanup_days: self.auto_cleanup_days,
            paste_on_select: self.paste_on_select,
            show_notifications: self.show_notifications,
            always_on_top: self.always_on_top,
            display_mode: self.display_mode.clone(),
            timeline_mode: self.timeline_mode.clone(),
            enable_input_panel: self.enable_input_panel,
            input_panel_trigger: self.input_panel_trigger.clone(),
            input_panel_selection_modifier: self.input_panel_selection_modifier.clone(),
            linux_display_server: self.linux_display_server.clone(),
            run_as_administrator: self.run_as_administrator,
        }
    }
}

impl Default for Settings {
    fn default() -> (out: Settings)
        ensures
            out@ == SettingsView::standard(),
    {
        Settings {
            autostart_enabled: false,
            show_on_startup: true,
            start_minimized: false,
            shortcuts: Shortcuts::default(),
            theme: String::from_str("system"),
            accent_color: String::from_str("#6366f1"),
            language: String::from_str("system"),
            max_history_items: 1000,
            auto_cleanup_days: Some(30),
            paste_on_select: false,
            show_notifications: true,
            always_on_top: true,
            display_mode: String::from_str("compact"),
            timeline_mode: default_timeline_mode(),
            enable_input_panel: false,
            input_panel_trigger: String::from_str("/v"),
            input_panel_selection_modifier: default_input_panel_selection_modifier(),
            linux_display_server: String::from_str("auto"),
            run_as_administrator: false,
        }
    }
}

impl Settings {
    /// The settings as they are put to use: whatever was stored, the input
    /// panel stays switched off.
    pub fn with_input_panel_off(self) -> (out: Settings)
        ensures
            out@ == (SettingsView { enable_input_panel: false, ..self@ }),
    {
        let mut out = self;
        out.enable_input_panel = false;
        out
    }

    /// Reports the shortcuts that collide: one line for every pair of
    /// shortcuts that are written the same.
    pub fn validate_shortcuts(&self) -> (out: Vec<String>)
        ensures
            texts(out@) == conflicts(shortcut_names(), self@.shortcuts.written(), 10),
    {
        let names: [&str; 10] = [
            "toggle_window",
            "focus_search",
            "navigate_up",
            "navigate_down",
            "expand_item",
            "copy_selected",
            "pin_selected",
            "delete_selected",
            "open_tags",
            "close_window",
        ];
        let mut written: Vec<String> = Vec::new();
        written.push(self.shortcuts.toggle_window.to_config_string());
        written.push(self.shortcuts.focus_search.to_config_string());
        written.push(self.shortcuts.navigate_up.to_config_string());
        written.push(self.shortcuts.navigate_down.to_config_string());
        written.push(self.shortcuts.expand_item.to_config_string());
        written.push(self.shortcuts.copy_selected.to_config_string());
        written.push(self.shortcuts.pin_selected.to_config_string());
        written.push(self.shortcuts.delete_selected.to_config_string());
        written.push(self.shortcuts.open_tags.to_config_string());
        written.push(self.shortcuts.close_window.to_config_string());
        let ghost all_names = shortcut_names();
        let ghost all_written = self@.shortcuts.written();
        assert(texts(written@) =~= all_written);
        assert(all_names.len() == 10);
        assert(forall|k: int| 0 <= k < 10 ==> #[trigger] names@[k]@ == all_names[k]);
        let mut out: Vec<String> = Vec::new();
        let mut i: usize = 0;
        assert(texts(out@) =~= conflicts(all_names, all_written, 0));
        while i < 10
            invariant
                i <= 10,
                written@.len() == 10,
                all_names == shortcut_names(),
                all_written.len() == 10,
                texts(written@) == all_written,
                forall|k: int| 0 <= k < 10 ==> #[trigger] names@[k]@ == all_names[k],
                texts(out@) == conflicts(all_names, all_written, i as int),
            decreases 10 - i,
        {
            let ghost before = texts(out@);
            let mut j: usize = i + 1;
            while j < 10
                invariant
                    i < 10,
                    i + 1 <= j <= 10,
                    written@.len() == 10,
                    all_names == shortcut_names(),
                    all_written.len() == 10,
                    texts(written@) == all_written,
                    forall|k: int| 0 <= k < 10 ==> #[trigger] names@[k]@ == all_names[k],
                    texts(out@) == before + conflicts_of(
                        all_names,
                        all_written,
                        i as int,
                        j as int,
                    ),
                decreases 10 - j,
            {
                assert(all_written[i as int] == written@[i as int]@);
                assert(all_written[j as int] == written@[j as int]@);
                if same_text(written[i].as_str(), written[j].as_str()) {
                    let mut line = String::from_str(names[i]);
                    line.append(" conflicts with ");
                    line.append(names[j]);
                    let ghost so_far = texts(out@);
                    out.push(line);
                    assert(texts(out@) =~= so_far.push(
                        conflict_text(all_names[i as int], all_names[j as int]),
                    ));
                }
                j += 1;
            }
            i += 1;
        }
        out
    }
}

} // verus!
