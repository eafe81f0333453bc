use fat_clip::settings::{
    default_input_panel_selection_modifier, default_timeline_mode, Settings, ShortcutConfig,
    Shortcuts,
};

fn shortcut(key: &str, ctrl: bool, alt: bool, shift: bool, meta: bool) -> ShortcutConfig {
    ShortcutConfig { key: key.to_string(), ctrl, alt, shift, meta }
}

#[test]
fn shortcuts_are_written_with_plus_signs() {
    assert_eq!(shortcut("V", true, false, true, false).to_config_string(), "Ctrl+Shift+V");
    assert_eq!(shortcut("K", true, true, true, true).to_config_string(), "Ctrl+Alt+Shift+Meta+K");
    assert_eq!(shortcut("Enter", false, false, false, false).to_config_string(), "Enter");
    assert_eq!(shortcut("X", false, true, false, true).to_config_string(), "Alt+Meta+X");
    assert_eq!(shortcut("", false, false, true, false).to_config_string(), "Shift+");
    assert_eq!(shortcut("+", true, false, false, false).to_config_string(), "Ctrl++");
}

#[test]
fn default_global_shortcut() {
    let s = ShortcutConfig::default_global();
    assert_eq!(s.key, "V");
    assert!(s.ctrl && s.shift && !s.alt && !s.meta);
    assert_eq!(s.to_config_string(), "Ctrl+Shift+V");
}

#[test]
fn default_shortcuts() {
    let s = Shortcuts::default();
    let written = [
        s.toggle_window.to_config_string(),
        s.focus_search.to_config_string(),
        s.navigate_up.to_config_string(),
        s.navigate_down.to_config_string(),
        s.expand_item.to_config_string(),
        s.copy_selected.to_config_string(),
        s.pin_selected.to_config_string(),
        s.delete_selected.to_config_string(),
        s.open_tags.to_config_string(),
        s.close_window.to_config_string(),
    ];
    assert_eq!(
        written,
        ["Ctrl+Shift+V", "/", "ArrowUp", "ArrowDown", " ", "Enter", "P", "Delete", "T", "Escape"]
    );
}

#[test]
fn default_settings() {
    let s = Settings::default();
    assert!(!s.autostart_enabled);
    assert!(s.show_on_startup);
    assert!(!s.start_minimized);
    assert_eq!(s.theme, "system");
    assert_eq!(s.accent_color, "#6366f1");
    assert_eq!(s.language, "system");
    assert_eq!(s.max_history_items, 1000);
    assert_eq!(s.auto_cleanup_days, Some(30));
    assert!(!s.paste_on_select);
    assert!(s.show_notifications);
    assert!(s.always_on_top);
    assert_eq!(s.display_mode, "compact");
    assert_eq!(s.timeline_mode, "standard");
    assert!(!s.enable_input_panel);
    assert_eq!(s.input_panel_trigger, "/v");
    assert_eq!(s.input_panel_selection_modifier, "ctrl");
    assert_eq!(s.linux_display_server, "auto");
    assert!(!s.run_as_administrator);
    assert_eq!(s.shortcuts.toggle_window.to_config_string(), "Ctrl+Shift+V");
    assert_eq!(default_timeline_mode(), "standard");
    assert_eq!(default_input_panel_selection_modifier(), "ctrl");
}

#[test]
fn default_shortcuts_do_not_collide() {
    assert_eq!(Settings::default().validate_shortcuts(), Vec::<String>::new());
}

#[test]
fn colliding_shortcuts_are_reported_pair_by_pair() {
    let mut s = Settings::default();
    s.shortcuts.open_tags = shortcut("P", false, false, false, false);
    assert_eq!(s.validate_shortcuts(), vec!["pin_selected conflicts with open_tags"]);
    s.shortcuts.focus_search = shortcut("P", false, false, false, false);
    assert_eq!(
        s.validate_shortcuts(),
        vec![
            "focus_search conflicts with pin_selected",
            "focus_search conflicts with open_tags",
            "pin_selected conflicts with open_tags",
        ]
    );
    s.shortcuts.close_window = shortcut("V", true, false, true, false);
    assert_eq!(
        s.validate_shortcuts(),
        vec![
            "toggle_window conflicts with close_window",
            "focus_search conflicts with pin_selected",
            "focus_search conflicts with open_tags",
            "pin_selected conflicts with open_tags",
        ]
    );
}

#[test]
fn shortcuts_collide_by_what_is_written() {
    let mut s = Settings::default();
    s.shortcuts.navigate_up = shortcut("A", true, false, false, false);
    s.shortcuts.navigate_down = shortcut("A", false, true, false, false);
    assert_eq!(s.validate_shortcuts(), Vec::<String>::new());
    s.shortcuts.navigate_up = shortcut("+A", true, false, false, false);
    s.shortcuts.navigate_down = shortcut("A", true, false, false, false);
    assert_eq!(s.validate_shortcuts(), Vec::<String>::new());
    s.shortcuts.navigate_up = shortcut("Shift+A", false, false, false, false);
    s.shortcuts.navigate_down = shortcut("A", false, false, true, false);
    assert_eq!(s.validate_shortcuts(), vec!["navigate_up conflicts with navigate_down"]);
}

#[test]
fn input_panel_stays_off() {
    let mut s = Settings::default();
    s.enable_input_panel = true;
    s.theme = "dark".to_string();
    let used = s.with_input_panel_off();
    assert!(!used.enable_input_panel);
    assert_eq!(used.theme, "dark");
    assert_eq!(used.max_history_items, 1000);
}

#[test]
fn settings_can_be_copied() {
    let mut s = Settings::default();
    s.language = "zh-CN".to_string();
    s.shortcuts.open_tags = shortcut("G", true, false, false, false);
    let copy = s.clone();
    assert_eq!(copy.language, "zh-CN");
    assert_eq!(copy.shortcuts.open_tags.to_config_string(), "Ctrl+G");
    assert_eq!(copy.accent_color, s.accent_color);
}
