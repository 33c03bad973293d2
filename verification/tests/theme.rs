use paneflow::theme::model::{
    apply_surface_overrides, is_light_theme, opaque_selection, ui_colors_with, TerminalTheme,
    Tint, BORDER_HEX, CHROME_BACKGROUND_HEX, TERMINAL_BACKGROUND_HEX,
};
use paneflow::theme::signal::ThemeSignal;
use paneflow::theme::syntax::SyntaxPalette;
use paneflow::theme::watcher::{theme_for_config, theme_generation, ThemeCache};
use paneflow::window_chrome::macos_backdrop::{sync_subtle_sidebar_material, SidebarMaterial};
use paneflow::window_chrome::title_bar::{click_zooms, PointerEvent, TitleBar};

fn h(rgb: u32) -> Tint {
    Tint::solid(rgb)
}

/// A theme of one background and one foreground.
fn theme(background: u32, foreground: u32, syntax: SyntaxPalette) -> TerminalTheme {
    let bg = h(background);
    let fg = h(foreground);
    TerminalTheme {
        ui: None,
        background: bg,
        foreground: fg,
        bright_foreground: fg,
        dim_foreground: fg,
        ansi_background: bg,
        cursor: fg,
        selection: Tint::wash(0x5aa6ff, 40),
        selection_foreground: fg,
        scrollbar_thumb: fg,
        link_text: fg,
        title_bar_background: bg,
        title_bar_inactive_background: bg,
        black: bg,
        red: fg,
        green: fg,
        yellow: fg,
        blue: fg,
        magenta: fg,
        cyan: fg,
        white: fg,
        bright_black: bg,
        bright_red: fg,
        bright_green: fg,
        bright_yellow: fg,
        bright_blue: fg,
        bright_magenta: fg,
        bright_cyan: fg,
        bright_white: fg,
        dim_black: bg,
        dim_red: fg,
        dim_green: fg,
        dim_yellow: fg,
        dim_blue: fg,
        dim_magenta: fg,
        dim_cyan: fg,
        dim_white: fg,
        syntax,
    }
}

fn light() -> TerminalTheme {
    theme(0xffffff, 0x262626, SyntaxPalette::catppuccin_latte())
}

fn dark() -> TerminalTheme {
    theme(0x1e1e2e, 0xcdd6f4, SyntaxPalette::catppuccin_mocha())
}

#[test]
fn light_theme_keeps_light_surfaces_after_overrides() {
    let theme = apply_surface_overrides(light());

    assert!(theme.background.is_light());
    assert_eq!(theme.background, h(0xffffff));
    assert!(theme.ansi_background.is_light());
    assert!(theme.title_bar_background.is_light());
}

#[test]
fn light_ui_keeps_the_work_area_pure_white() {
    let ui = ui_colors_with(&light());

    assert_eq!(ui.base, h(0xffffff));
    assert_eq!(ui.overlay, h(0xffffff));
    assert_eq!(ui.border, h(0xe6e6e6));
    assert_ne!(ui.surface, ui.base);
    assert_ne!(ui.border, ui.base);
    assert_ne!(ui.text, ui.base);
}

#[test]
fn dark_theme_still_uses_dark_surface_overrides() {
    let theme = apply_surface_overrides(dark());

    assert_eq!(theme.background, h(TERMINAL_BACKGROUND_HEX));
    assert_eq!(theme.ansi_background, h(TERMINAL_BACKGROUND_HEX));
    assert_eq!(theme.title_bar_background, h(CHROME_BACKGROUND_HEX));
    assert_eq!(apply_surface_overrides(theme), theme);
}

#[test]
fn dark_ui_uses_cockpit_surface_palette() {
    let ui = ui_colors_with(&dark());

    assert_eq!(ui.base, h(TERMINAL_BACKGROUND_HEX));
    assert_eq!(ui.overlay, h(CHROME_BACKGROUND_HEX));
    assert_eq!(ui.border, h(BORDER_HEX));
}

#[test]
fn a_dark_theme_with_its_own_palette_keeps_it() {
    let mut own = ui_colors_with(&dark());
    own.surface = h(0x0a0a0a);
    own.accent = h(0xffffff);
    own.use_theme_diff_washes = true;
    let mut custom = theme(0x000000, 0xededed, SyntaxPalette::vercel_dark());
    custom.ui = Some(own);

    let shown = apply_surface_overrides(custom);
    assert_eq!(shown, custom);
    let ui = ui_colors_with(&shown);
    assert_eq!(ui.surface, h(0x0a0a0a));
    assert_eq!(ui.accent, h(0xffffff));
    assert_eq!(ui.diff_colors().added, ui.vc_added);
}

#[test]
fn vc_diff_slots_distinct_with_subtle_zed_alpha_backgrounds() {
    let dark = ui_colors_with(&dark());
    assert_ne!(dark.vc_added, dark.vc_deleted);
    assert_ne!(dark.vc_added, dark.vc_modified);
    assert_ne!(dark.vc_deleted, dark.vc_modified);
    for bg in [
        dark.vc_added_background,
        dark.vc_deleted_background,
        dark.vc_modified_background,
    ] {
        assert_eq!(bg.percent, 12);
    }
    let light = ui_colors_with(&light());
    assert_ne!(light.vc_added, dark.vc_added);
    for bg in [
        light.vc_added_background,
        light.vc_deleted_background,
        light.vc_modified_background,
    ] {
        assert_eq!(bg.percent, 16);
    }
    assert_eq!(light.diff_colors().added_background, light.vc_added_background);
    assert_ne!(dark.diff_colors().added_background, dark.vc_added_background);

    let mut own = dark;
    own.vc_added = h(0x00ff00);
    own.vc_deleted = h(0xff0000);
    own.vc_added_background = h(0x003300);
    own.use_theme_diff_washes = true;
    let mut custom = theme(0x000000, 0xededed, SyntaxPalette::vercel_dark());
    custom.ui = Some(own);
    let washed = ui_colors_with(&custom);
    let diff = washed.diff_colors();
    assert_eq!(diff.added, washed.vc_added);
    assert_eq!(diff.deleted, washed.vc_deleted);
    assert_eq!(diff.added_background, washed.vc_added_background);

    own.base = h(0x1f1f1e);
    own.use_theme_diff_washes = false;
    custom.ui = Some(own);
    let plain = ui_colors_with(&custom);
    let diff = plain.diff_colors();
    let canonical_dark_diff = dark.diff_colors();
    assert_ne!(diff.added, plain.vc_added);
    assert_eq!(diff.added, canonical_dark_diff.added);
    assert_eq!(diff.deleted, canonical_dark_diff.deleted);
    assert_eq!(diff.added_background, canonical_dark_diff.added_background);
    assert_eq!(
        diff.deleted_background,
        canonical_dark_diff.deleted_background
    );
    assert_eq!(plain.vc_modified, dark.vc_modified);
}

#[test]
fn agents_keep_their_brand_colours_on_both_themes() {
    let (dark, light) = (ui_colors_with(&dark()), ui_colors_with(&light()));
    assert_eq!(dark.agent_claude, h(0xe89271));
    assert_eq!(dark.agent_codex, h(0x5b6cff));
    assert_eq!(light.agent_claude, dark.agent_claude);
    assert_eq!(light.agent_codex, dark.agent_codex);
    for ui in [dark, light] {
        assert_ne!(ui.agent_error, ui.vc_conflict);
        assert_ne!(ui.agent_stalled, ui.vc_conflict);
    }
}

#[test]
fn group_colours_come_round_after_eight() {
    let ui = ui_colors_with(&dark());
    assert_eq!(ui.group_color(0), ui.group_1);
    assert_eq!(ui.group_color(7), ui.group_8);
    assert_eq!(ui.group_color(8), ui.group_1);
}

fn palettes() -> Vec<(&'static str, SyntaxPalette)> {
    vec![
        ("catppuccin_mocha", SyntaxPalette::catppuccin_mocha()),
        ("catppuccin_latte", SyntaxPalette::catppuccin_latte()),
        ("vercel_dark", SyntaxPalette::vercel_dark()),
        ("vercel_light", SyntaxPalette::vercel_light()),
        ("claude_dark", SyntaxPalette::claude_dark()),
        ("claude_light", SyntaxPalette::claude_light()),
        ("cursor_dark", SyntaxPalette::cursor_dark()),
        ("cursor_light", SyntaxPalette::cursor_light()),
    ]
}

fn distinct_count(colors: &[Tint]) -> usize {
    let mut seen: Vec<Tint> = Vec::new();
    for &c in colors {
        if !seen.contains(&c) {
            seen.push(c);
        }
    }
    seen.len()
}

#[test]
fn bundled_themes_populate_at_least_18_distinct_syntax_hues() {
    for (label, palette) in palettes() {
        let distinct = distinct_count(&palette.all_slots());
        assert!(
            distinct >= 18,
            "{label}: syntax palette has only {distinct} distinct hues (< 18)"
        );
    }
}

#[test]
fn the_busiest_light_syntax_colours_are_distinct() {
    let p = SyntaxPalette::catppuccin_latte();
    assert_eq!(
        distinct_count(&[p.comment, p.string, p.keyword, p.operator]),
        4
    );
    assert_eq!(p.all_slots().len(), 30);
}

#[test]
fn lightness_is_the_mean_of_the_extreme_channels() {
    assert!(h(0xffffff).is_light());
    assert!(!h(0x000000).is_light());
    assert!(!h(0x7f7f7f).is_light());
    assert!(h(0x808080).is_light());
    assert!(!h(0xff0000).is_light());
    assert!(h(0xff0100).is_light() == false);
    assert!(h(0xff0101).is_light());
    assert!(is_light_theme(&light()));
    assert!(!is_light_theme(&dark()));
    assert_eq!(opaque_selection(&dark()), h(0x5aa6ff));
}

#[test]
fn a_theme_set_from_a_config_is_served_without_reading_disk() {
    let mut cache = ThemeCache::new();
    let before = theme_generation(&cache);

    cache.set_from_config(Some(light()), dark());

    let got = cache.get().unwrap();
    assert_eq!(got, apply_surface_overrides(light()), "the passed config's theme wins");
    assert_eq!(cache.get_or_insert(dark()), got);
    assert!(theme_generation(&cache) > before, "a set bumps the generation");
}

#[test]
fn a_config_without_a_known_theme_resolves_to_paneflow_dark() {
    let fallback = apply_surface_overrides(dark());
    assert_eq!(theme_for_config(None, dark()), fallback);
}

#[test]
fn an_empty_cache_resolves_once() {
    let mut cache = ThemeCache::new();
    assert!(cache.get().is_none());
    let dark = apply_surface_overrides(dark());
    let first = cache.get_or_insert(dark);
    let second = cache.get_or_insert(light());
    assert_eq!(first, second);
}

#[test]
fn a_generation_is_news_once() {
    let mut signal = ThemeSignal::default();
    assert_eq!(signal.generation(), 0);
    assert!(signal.publish(3));
    assert!(!signal.publish(3));
    assert_eq!(signal.generation(), 3);
    assert_eq!(ThemeSignal::new(9).generation(), 9);
}

#[test]
fn the_window_moves_after_a_press_alone() {
    let mut bar = TitleBar::new();
    assert!(!bar.pointer(PointerEvent::Move));
    bar.pointer(PointerEvent::Down);
    assert!(bar.pointer(PointerEvent::Move));
    assert!(!bar.pointer(PointerEvent::Move));
    bar.pointer(PointerEvent::Down);
    bar.pointer(PointerEvent::Up);
    assert!(!bar.pointer(PointerEvent::Move));
    bar.pointer(PointerEvent::Down);
    bar.pointer(PointerEvent::DownOutside);
    assert!(!bar.pointer(PointerEvent::Move));
    assert!(click_zooms(2));
    assert!(!click_zooms(1));
    assert_eq!(bar.sidebar_tooltip(), "Hide sidebar");
    bar.sidebar_visible = false;
    assert_eq!(bar.sidebar_tooltip(), "Show sidebar");
}

#[test]
fn the_backdrop_changes_only_what_differs() {
    let mut none = None;
    let change = sync_subtle_sidebar_material(&mut none, true, true);
    assert_eq!((change.appearance, change.enabled), (None, None));
    let mut some = Some(SidebarMaterial {
        is_light: false,
        is_enabled: true,
    });
    let change = sync_subtle_sidebar_material(&mut some, true, true);
    assert_eq!((change.appearance, change.enabled), (Some(true), None));
    let change = sync_subtle_sidebar_material(&mut some, true, true);
    assert_eq!((change.appearance, change.enabled), (None, None));
}
