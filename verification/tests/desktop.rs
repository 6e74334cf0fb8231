use niji::config::{ColorScheme, DisableReloads, Terminal, Theme, UiTheme};
use niji::console::{lines, log, prompt, read_answer, trim, verbosity, Verbosity};
use niji::file_manager::FileManager;
use niji::files::{split_paths, Files, Location, XdgDirs};
use niji::managed_fs::{backup_and_replace, get_backup_path, FileState, ReplaceStep, WriteStep};
use niji::module_manager::{find_module_dir, holds, reload_step, select, ReloadStep, Selection};
use niji::paths::{file_name, file_stem, join};
use niji::state_manager::{State, StateError, StateManager};
use niji::theme::{ColorRef, Palette, ThemeError, UiThemeKind};
use niji::theme_manager::{ThemeLookupError, ThemeManager};
use niji::Color;
use std::rc::Rc;

fn xdg() -> XdgDirs {
    XdgDirs {
        config_home: "/home/u/.config".to_string(),
        data_home: "/home/u/.local/share".to_string(),
        state_home: "/home/u/.local/state/".to_string(),
        data_dirs: vec!["/usr/local/share".to_string(), "/usr/share".to_string()],
    }
}

fn strings(items: &[&str]) -> Vec<String> {
    items.iter().map(|s| s.to_string()).collect()
}

fn location(name: &str, path: &str) -> Location {
    Location {
        name: name.to_string(),
        path: path.to_string(),
    }
}

fn palette() -> Palette {
    Palette {
        pink: Color::from(0x01000000),
        red: Color::from(0x02000000),
        orange: Color::from(0x03000000),
        yellow: Color::from(0x04000000),
        green: Color::from(0x05000000),
        teal: Color::from(0x06000000),
        blue: Color::from(0x07000000),
        purple: Color::from(0x08000000),
        brown: Color::from(0x09000000),
        black: Color::from(0x0a000000),
        white: Color::from(0x0b000000),
        custom: vec![
            ("accent".to_string(), Color::from(0x0c000000)),
            ("red".to_string(), Color::from(0x0d000000)),
            ("accent".to_string(), Color::from(0x0e000000)),
        ],
    }
}

fn ui_theme() -> UiTheme {
    let c = |n: u8| Color::new_rgba(n, n + 1, n + 2, 255);
    UiTheme {
        color_scheme: ColorScheme::Dark,
        background: c(1),
        surface: c(11),
        primary: c(21),
        secondary: c(31),
        border: c(41),
        shadow: c(51),
        text_background: c(61),
        text_surface: c(71),
        text_primary: c(81),
        success: c(91),
        info: c(101),
        warning: c(111),
        error: c(121),
        text_success: c(131),
        text_info: c(141),
        text_warning: c(151),
        text_error: c(161),
    }
}

fn terminal() -> Terminal {
    let c = |n: u8| Color::new_rgba(n, 0, 0, 255);
    Terminal {
        black: c(0),
        red: c(1),
        green: c(2),
        yellow: c(3),
        blue: c(4),
        magenta: c(5),
        cyan: c(6),
        white: c(7),
        bright_black: c(8),
        bright_red: c(9),
        bright_green: c(10),
        bright_yellow: c(11),
        bright_blue: c(12),
        bright_magenta: c(13),
        bright_cyan: c(14),
        bright_white: c(15),
    }
}

#[test]
fn paths_are_joined_with_one_separator() {
    assert_eq!(join("/a", "b"), "/a/b");
    assert_eq!(join("/a/", "b"), "/a/b");
    assert_eq!(join("", "b"), "b");
    assert_eq!(join("/a", "/b"), "/b");
    assert_eq!(join("/", "b"), "/b");
    assert_eq!(join("a", ""), "a/");
}

#[test]
fn file_names_and_stems_follow_the_last_separator_and_dot() {
    assert_eq!(file_name("/a/b/test.toml"), "test.toml");
    assert_eq!(file_name("test.toml"), "test.toml");
    assert_eq!(file_name("/a/b/"), "");
    assert_eq!(file_stem("/a/b/test.toml"), "test");
    assert_eq!(file_stem("/a.d/test"), "test");
    assert_eq!(file_stem("archive.tar.gz"), "archive.tar");
    assert_eq!(file_stem("/a/.hidden"), ".hidden");
    assert_eq!(file_stem("/a/.hidden.toml"), ".hidden");
    assert_eq!(file_stem("name."), "name");
}

#[test]
fn files_lie_below_the_base_directories() {
    let files = Files::new(&xdg());
    assert_eq!(files.config_file(), "/home/u/.config/niji/config.toml");
    assert_eq!(
        files.current_theme_file(),
        "/home/u/.local/state/niji/current_theme.txt"
    );
    assert_eq!(
        files.managed_files_file(),
        "/home/u/.local/state/niji/managed_files.csv"
    );
    assert_eq!(files.state_file(), "/home/u/.local/state/niji/state.toml");
    assert_eq!(files.state_dir(), "/home/u/.local/state/niji");
    assert_eq!(files.output_dir(), "/home/u/.local/share/niji");
    assert_eq!(
        files.themes_dirs(),
        &strings(&[
            "/home/u/.config/niji/themes",
            "/usr/local/share/niji/themes",
            "/usr/share/niji/themes"
        ])
    );
    assert_eq!(
        files.modules_dirs(),
        &strings(&[
            "/home/u/.config/niji/modules",
            "/usr/local/share/niji/modules",
            "/usr/share/niji/modules"
        ])
    );
}

#[test]
fn themes_are_files_then_directories() {
    let files = Files::new(&xdg());
    let themes = files.iter_themes(
        &strings(&["/c/niji/themes/test2.toml", "/d/niji/themes/test.toml"]),
        &strings(&["/c/niji/themes/nested"]),
    );
    assert_eq!(
        themes,
        vec![
            location("test2", "/c/niji/themes/test2.toml"),
            location("test", "/d/niji/themes/test.toml"),
            location("nested", "/c/niji/themes/nested/theme.toml"),
        ]
    );
    assert_eq!(files.iter_themes(&vec![], &vec![]), vec![]);
}

#[test]
fn modules_are_directories() {
    let files = Files::new(&xdg());
    assert_eq!(
        files.iter_modules(&strings(&["/c/niji/modules/test2", "/d/niji/modules/test"])),
        vec![
            location("test2", "/c/niji/modules/test2"),
            location("test", "/d/niji/modules/test"),
        ]
    );
}

#[test]
fn themes_are_listed_once_and_in_order() {
    let manager = ThemeManager::new(Rc::new(Files::new(&xdg())));
    let locations = vec![
        location("theme3", "/c/theme3.toml"),
        location("theme1", "/d/theme1.toml"),
        location("theme2", "/c/theme2.toml"),
        location("theme1", "/c/theme1.toml"),
        location("Theme", "/c/Theme.toml"),
        location("theme10", "/c/theme10.toml"),
        location("", "/c/.toml"),
    ];
    assert_eq!(
        manager.list_themes(&locations),
        strings(&["", "Theme", "theme1", "theme10", "theme2", "theme3"])
    );
    assert_eq!(manager.list_themes(&vec![]), Vec::<String>::new());
    assert_eq!(
        manager.get_files().config_file(),
        "/home/u/.config/niji/config.toml"
    );
}

#[test]
fn the_first_location_of_a_name_is_the_theme() {
    let manager = ThemeManager::new(Rc::new(Files::new(&xdg())));
    let locations = vec![
        location("a", "/c/a.toml"),
        location("b", "/c/b.toml"),
        location("a", "/d/a.toml"),
    ];
    assert_eq!(manager.get_theme(&locations, "a"), Ok("/c/a.toml".to_string()));
    assert_eq!(manager.get_theme(&locations, "b"), Ok("/c/b.toml".to_string()));
    assert_eq!(
        manager.get_theme(&locations, "c"),
        Err(ThemeLookupError::NotFound("c".to_string()))
    );
    assert_eq!(manager.find_theme_path(&locations, "c"), None);
    assert_eq!(
        manager.get_current_theme(&locations, "b"),
        Ok("/c/b.toml".to_string())
    );
    assert_eq!(
        manager.get_current_theme(&locations, ""),
        Err(ThemeLookupError::NoneSelected)
    );
    assert_eq!(
        manager.get_current_theme(&locations, "gone"),
        Err(ThemeLookupError::NotFound("gone".to_string()))
    );
    assert_eq!(
        manager.set_current_theme(&locations, "a".to_string()),
        Ok("a".to_string())
    );
    assert_eq!(
        manager.set_current_theme(&locations, "theme1".to_string()),
        Err(ThemeLookupError::NotFound("theme1".to_string()))
    );
    assert_eq!(manager.unset_current_theme(), "");
}

#[test]
fn the_state_keeps_theme_and_accent() {
    let mut manager = StateManager::new(State::default());
    assert_eq!(manager.get_theme(), Err(StateError::NoTheme));
    assert_eq!(manager.get_accent(), Err(StateError::NoAccent));
    manager.set_theme("some_theme".to_string());
    manager.set_accent("some_color".to_string());
    assert_eq!(manager.get_theme(), Ok("some_theme"));
    assert_eq!(manager.get_accent(), Ok("some_color"));
    assert_eq!(
        manager.state(),
        &State {
            theme: Some("some_theme".to_string()),
            accent: Some("some_color".to_string())
        }
    );
    manager.set_theme("some_other_theme".to_string());
    assert_eq!(manager.get_theme(), Ok("some_other_theme"));
    assert_eq!(manager.get_accent(), Ok("some_color"));
    manager.unset_theme();
    assert_eq!(manager.get_theme(), Err(StateError::NoTheme));
    assert_eq!(manager.get_accent(), Ok("some_color"));
    manager.unset_accent();
    assert_eq!(manager.state(), &State::default());
    assert_eq!(
        StateError::NoTheme.message(),
        "No theme set; use `niji theme set <name>` to specify a theme."
    );
    assert_eq!(
        StateError::NoAccent.message(),
        "No accent color set; use `niji accent set <name>` to specify an accent color."
    );
}

#[test]
fn the_state_manager_starts_from_what_was_written() {
    let manager = StateManager::new(State {
        theme: Some("some_theme".to_string()),
        accent: None,
    });
    assert_eq!(manager.get_theme(), Ok("some_theme"));
    assert_eq!(manager.get_accent(), Err(StateError::NoAccent));
}

#[test]
fn palette_names_resolve_fixed_colors_first() {
    let palette = palette();
    assert_eq!(palette.get("pink"), Ok(Color::from(0x01000000)));
    assert_eq!(palette.get("red"), Ok(Color::from(0x02000000)));
    assert_eq!(palette.get("white"), Ok(Color::from(0x0b000000)));
    assert_eq!(palette.get("accent"), Ok(Color::from(0x0c000000)));
    assert_eq!(
        palette.get("Pink"),
        Err(ThemeError::UndefinedColor("Pink".to_string()))
    );
    assert_eq!(
        palette.get(""),
        Err(ThemeError::UndefinedColor("".to_string()))
    );
}

#[test]
fn palettes_print_as_squares() {
    let mut palette = palette();
    palette.custom = vec![("x".to_string(), Color::new_rgba(1, 20, 255, 0))];
    let text = palette.to_string();
    assert!(text.starts_with("\x1b[48;2;1;0;0m   \x1b[0m\x1b[48;2;2;0;0m   \x1b[0m"));
    assert!(text.ends_with("\x1b[48;2;11;0;0m   \x1b[0m \x1b[48;2;1;20;255m   \x1b[0m"));
    assert_eq!(text.matches("   ").count(), 12);
}

#[test]
fn color_references_are_names_or_colors() {
    let palette = palette();
    assert_eq!(
        ColorRef::from_str("#abcdef"),
        Ok(ColorRef::Exact(Color::from(0xabcdefff)))
    );
    assert_eq!(
        ColorRef::from_str("teal"),
        Ok(ColorRef::Named("teal".to_string()))
    );
    assert_eq!(ColorRef::from_str(""), Ok(ColorRef::Named("".to_string())));
    assert_eq!(
        ColorRef::from_str("#12"),
        Err(niji::color::ColorError::WrongLength(2))
    );
    assert_eq!(ColorRef::named("teal"), ColorRef::Named("teal".to_string()));
    assert_eq!(
        ColorRef::from(Color::from(1)),
        ColorRef::Exact(Color::from(1))
    );
    assert_eq!(
        ColorRef::named("teal").resolve(&palette),
        Ok(Color::from(0x06000000))
    );
    assert_eq!(
        ColorRef::Exact(Color::from(7)).resolve(&palette),
        Ok(Color::from(7))
    );
    assert_eq!(
        ColorRef::named("nope").resolve(&palette),
        Err(ThemeError::UndefinedColor("nope".to_string()))
    );
    assert_eq!(ColorRef::named("teal").to_string(), "teal");
    assert_eq!(
        ColorRef::Exact(Color::from(0x01020304)).to_string(),
        "#01020304"
    );
    assert_eq!(UiThemeKind::Light.to_string(), "light");
    assert_eq!(UiThemeKind::Dark.to_string(), "dark");
}

#[test]
fn reloads_are_disabled_for_none_all_or_some() {
    assert!(!DisableReloads::default().is_disabled("waybar"));
    assert!(!DisableReloads::Nothing.is_disabled("waybar"));
    assert!(DisableReloads::All.is_disabled("waybar"));
    let some = DisableReloads::Blacklist(strings(&["gtk", "waybar"]));
    assert!(some.is_disabled("waybar"));
    assert!(some.is_disabled("gtk"));
    assert!(!some.is_disabled("way"));
    assert!(!DisableReloads::Blacklist(vec![]).is_disabled(""));
}

#[test]
fn themes_print_as_samples() {
    assert_eq!(ColorScheme::Light.to_string(), "light");
    assert_eq!(ColorScheme::Dark.to_string(), "dark");
    assert_eq!(
        niji::ansi::colored_square(Color::new_rgba(1, 20, 255, 9)),
        "\x1b[48;2;1;20;255m   \x1b[0m"
    );
    assert_eq!(
        niji::ansi::color_display("Info", Color::new_rgba(1, 2, 3, 4), Color::new_rgba(0, 100, 200, 4)),
        "\x1b[48;2;1;2;3m\x1b[38;2;0;100;200m Info \x1b[0m"
    );
    let ui = ui_theme();
    let expected_ui = "Color scheme: dark\n\
        \x1b[48;2;1;2;3m\x1b[38;2;61;62;63m Background \x1b[0m\n\
        \x1b[48;2;11;12;13m\x1b[38;2;71;72;73m Surface \x1b[0m\n\
        \x1b[48;2;21;22;23m\x1b[38;2;81;82;83m Primary \x1b[0m\n\
        Secondary: \x1b[48;2;31;32;33m   \x1b[0m\n\
        Border: \x1b[48;2;41;42;43m   \x1b[0m\n\
        \n\
        \x1b[48;2;101;102;103m\x1b[38;2;141;142;143m Info \x1b[0m\n\
        \x1b[48;2;111;112;113m\x1b[38;2;151;152;153m Warning \x1b[0m\n\
        \x1b[48;2;121;122;123m\x1b[38;2;161;162;163m Error \x1b[0m\n";
    assert_eq!(ui.to_string(), expected_ui);
    let terminal = terminal();
    let row = |from: u8| -> String {
        (from..from + 8)
            .map(|n| format!("\x1b[48;2;{n};0;0m   \x1b[0m"))
            .collect()
    };
    let expected_terminal = format!("{}\n{}", row(0), row(8));
    assert_eq!(terminal.to_string(), expected_terminal);
    let theme = Theme {
        name: Some("test_theme".to_string()),
        ui,
        terminal,
    };
    assert_eq!(
        theme.to_string(),
        format!("{expected_ui}\n{expected_terminal}")
    );
}

#[test]
fn new_files_are_created_and_own_files_overwritten() {
    assert_eq!(niji::managed_fs::write(FileState::Missing), WriteStep::Create);
    assert_eq!(
        niji::managed_fs::write(FileState::Present {
            current_hash: 7,
            managed_hash: Some(7)
        }),
        WriteStep::Overwrite
    );
    assert_eq!(
        niji::managed_fs::write(FileState::Present {
            current_hash: 7,
            managed_hash: Some(8)
        }),
        WriteStep::Confirm { hash: 7 }
    );
    assert_eq!(
        niji::managed_fs::write(FileState::Present {
            current_hash: 7,
            managed_hash: None
        }),
        WriteStep::Confirm { hash: 7 }
    );
    let manager = FileManager::new(Rc::new(Files::new(&xdg())));
    assert_eq!(manager.write_managed(FileState::Missing), WriteStep::Create);
    assert_eq!(
        manager.write_managed(FileState::Present {
            current_hash: 1,
            managed_hash: Some(2)
        }),
        WriteStep::Confirm { hash: 1 }
    );
    assert_eq!(
        manager.get_files().managed_files_file(),
        "/home/u/.local/state/niji/managed_files.csv"
    );
}

#[test]
fn foreign_files_are_replaced_only_with_consent() {
    assert_eq!(backup_and_replace(false, true), ReplaceStep::Cancel);
    assert_eq!(backup_and_replace(false, false), ReplaceStep::Cancel);
    assert_eq!(backup_and_replace(true, true), ReplaceStep::BackupAndReplace);
    assert_eq!(backup_and_replace(true, false), ReplaceStep::Replace);
}

#[test]
fn backups_lie_beside_the_file() {
    assert_eq!(
        get_backup_path("/home/u/.config/app/conf.ini", "2024-02-29", 18446744073709551615),
        "/home/u/.config/app/conf.ini.backup-2024-02-29-18446744073709551615"
    );
    assert_eq!(get_backup_path("conf", "d", 0), "conf.backup-d-0");
}

#[test]
fn answers_are_trimmed_and_case_blind() {
    assert_eq!(prompt("y\n", None), Some(true));
    assert_eq!(prompt("  Y \r\n", None), Some(true));
    assert_eq!(prompt("n", Some(true)), Some(false));
    assert_eq!(prompt("\tN\n", None), Some(false));
    assert_eq!(prompt("\n", Some(true)), Some(true));
    assert_eq!(prompt("", Some(false)), Some(false));
    assert_eq!(prompt("   ", None), None);
    assert_eq!(prompt("yes", Some(true)), None);
    assert_eq!(prompt("y n", Some(true)), None);
    assert_eq!(prompt("garbage", None), None);
    assert_eq!(read_answer("Y", None), Some(true));
    assert_eq!(read_answer("y", None), Some(true));
    assert_eq!(read_answer(" y", None), None);
    assert_eq!(trim(" \u{a0}a b\u{3000}\n"), "a b");
    assert_eq!(trim(""), "");
    assert_eq!(trim(" \n\t"), "");
    assert_eq!(trim("x"), "x");
}

#[test]
fn reloading_is_decided_by_request_configuration_and_module() {
    let off = DisableReloads::Nothing;
    let some = DisableReloads::Blacklist(strings(&["gtk"]));
    assert_eq!(reload_step(false, &off, "gtk", true), ReloadStep::Skip);
    assert_eq!(reload_step(false, &DisableReloads::All, "gtk", true), ReloadStep::Skip);
    assert_eq!(reload_step(true, &DisableReloads::All, "gtk", true), ReloadStep::Disabled);
    assert_eq!(reload_step(true, &some, "gtk", true), ReloadStep::Disabled);
    assert_eq!(reload_step(true, &some, "kitty", true), ReloadStep::Reload);
    assert_eq!(reload_step(true, &some, "kitty", false), ReloadStep::Unsupported);
    assert_eq!(reload_step(true, &off, "gtk", true), ReloadStep::Reload);
}

#[test]
fn modules_are_selected_by_request() {
    let active = strings(&["gtk", "kitty", "gtk", "waybar"]);
    assert_eq!(
        select(&active, None),
        Selection {
            apply: vec![0, 1, 2, 3],
            activate: vec![]
        }
    );
    assert_eq!(
        select(&active, Some(&strings(&["sway", "gtk", "waybar", "sway", "mako"]))),
        Selection {
            apply: vec![0, 3],
            activate: strings(&["sway", "mako"])
        }
    );
    assert_eq!(
        select(&active, Some(&vec![])),
        Selection {
            apply: vec![],
            activate: vec![]
        }
    );
    assert_eq!(
        select(&vec![], Some(&strings(&["a"]))),
        Selection {
            apply: vec![],
            activate: strings(&["a"])
        }
    );
    assert!(holds(&active, &"kitty".to_string()));
    assert!(!holds(&active, &"kit".to_string()));
}

#[test]
fn modules_are_found_by_name() {
    let locations = vec![
        location("test2", "/c/niji/modules/test2"),
        location("test", "/d/niji/modules/test"),
        location("test2", "/d/niji/modules/test2"),
    ];
    assert_eq!(
        find_module_dir(&locations, "test2"),
        Some("/c/niji/modules/test2".to_string())
    );
    assert_eq!(
        find_module_dir(&locations, "test"),
        Some("/d/niji/modules/test".to_string())
    );
    assert_eq!(find_module_dir(&locations, "tes"), None);
}

#[test]
fn base_directories_come_from_the_environment_or_the_defaults() {
    assert_eq!(
        XdgDirs::from_environment("/home/u", None, None, None, None),
        XdgDirs {
            config_home: "/home/u/.config".to_string(),
            data_home: "/home/u/.local/share".to_string(),
            state_home: "/home/u/.local/state".to_string(),
            data_dirs: strings(&["/usr/local/share", "/usr/share"]),
        }
    );
    assert_eq!(
        XdgDirs::from_environment(
            "/home/u/",
            Some("/c".to_string()),
            Some("".to_string()),
            Some("/s".to_string()),
            Some("/a:/b::/c:".to_string()),
        ),
        XdgDirs {
            config_home: "/c".to_string(),
            data_home: "/home/u/.local/share".to_string(),
            state_home: "/s".to_string(),
            data_dirs: strings(&["/a", "/b", "/c"]),
        }
    );
    assert_eq!(
        XdgDirs::from_environment("/h", None, None, None, Some("".to_string())).data_dirs,
        strings(&["/usr/local/share", "/usr/share"])
    );
}

#[test]
fn lists_of_paths_are_split_at_colons() {
    assert_eq!(split_paths(""), Vec::<String>::new());
    assert_eq!(split_paths(":"), Vec::<String>::new());
    assert_eq!(split_paths("a"), strings(&["a"]));
    assert_eq!(split_paths(":a::b c:"), strings(&["a", "b c"]));
}

#[test]
fn messages_are_split_into_lines() {
    assert_eq!(lines(""), Vec::<String>::new());
    assert_eq!(lines("a"), strings(&["a"]));
    assert_eq!(lines("a\n"), strings(&["a"]));
    assert_eq!(lines("\n"), strings(&[""]));
    assert_eq!(lines("a\r\nb\rc\n\nd\r"), strings(&["a", "b\rc", "", "d\r"]));
    for text in ["", "x", "a\nb", "a\r\nb\n", "\n\n", "\r\n\r", "é\nü\r\n"] {
        let expected: Vec<String> = text.lines().map(str::to_string).collect();
        assert_eq!(lines(text), expected);
    }
}

#[test]
fn logged_messages_continue_under_their_first_line() {
    assert_eq!(log("", 5), "\n");
    assert_eq!(log("one line", 5), "one line\n");
    assert_eq!(
        log("first\nsecond\r\n\nlast\n", 5),
        "first\n        second\n        \n        last\n"
    );
    assert_eq!(log("a\nb", 0), "a\n   b\n");
}

#[test]
fn the_log_is_quiet_verbose_or_neither() {
    assert_eq!(verbosity(true, false), Verbosity::Off);
    assert_eq!(verbosity(true, true), Verbosity::Off);
    assert_eq!(verbosity(false, true), Verbosity::Debug);
    assert_eq!(verbosity(false, false), Verbosity::Info);
}

fn answer_by_lower_case(response: &str, default: Option<bool>) -> Option<bool> {
    match response.trim().to_lowercase().as_str() {
        "y" => Some(true),
        "n" => Some(false),
        "" => default,
        _ => None,
    }
}

#[test]
fn answers_mean_what_their_lower_case_means() {
    for default in [None, Some(true), Some(false)] {
        for code in 0..=0x10FFFFu32 {
            if let Some(c) = char::from_u32(code) {
                let response = c.to_string();
                assert_eq!(
                    prompt(&response, default),
                    answer_by_lower_case(&response, default),
                    "U+{code:04X}"
                );
            }
        }
        for response in [
            "", " ", "y", "Y", "n", "N", " y\n", "Y\r\n", "yy", "Yn", "y\u{307}", "\u{130}",
            "\u{3a3}", "no", "NO", "yes", "\u{a0}N\u{2003}", "\u{ff39}",
        ] {
            assert_eq!(
                prompt(response, default),
                answer_by_lower_case(response, default),
                "{response:?}"
            );
        }
    }
}

#[test]
fn trimming_and_lines_agree_with_the_standard_library() {
    for code in 0..=0x10FFFFu32 {
        if let Some(c) = char::from_u32(code) {
            let text = format!("{c}a{c}b{c}");
            assert_eq!(trim(&text), text.trim(), "U+{code:04X}");
            let expected: Vec<String> = text.lines().map(str::to_string).collect();
            assert_eq!(lines(&text), expected, "U+{code:04X}");
        }
    }
}

fn words(alphabet: &[char], longest: usize) -> Vec<String> {
    let mut all = vec![String::new()];
    let mut last = vec![String::new()];
    for _ in 0..longest {
        let mut next = Vec::new();
        for word in &last {
            for c in alphabet {
                let mut longer = word.clone();
                longer.push(*c);
                next.push(longer);
            }
        }
        all.extend(next.iter().cloned());
        last = next;
    }
    all
}

#[test]
fn joining_agrees_with_the_paths_of_the_standard_library() {
    let parts = words(&['/', 'a', '.'], 3);
    for base in &parts {
        for component in &parts {
            assert_eq!(
                join(base, component),
                std::path::Path::new(base)
                    .join(component)
                    .to_string_lossy()
                    .into_owned(),
                "{base:?} {component:?}"
            );
        }
    }
}

#[test]
fn names_and_stems_agree_with_the_standard_library_on_plain_paths() {
    for dir in ["", "/", "/a/", "a.b/", "/x.y/z/"] {
        for name in words(&['a', '.', 'b'], 4) {
            if name.is_empty() || name == "." || name == ".." {
                continue;
            }
            let path = format!("{dir}{name}");
            let by_std = std::path::Path::new(&path);
            assert_eq!(
                file_name(&path),
                by_std.file_name().unwrap_or_default().to_string_lossy(),
                "{path:?}"
            );
            assert_eq!(
                file_stem(&path),
                by_std.file_stem().unwrap_or_default().to_string_lossy(),
                "{path:?}"
            );
        }
    }
}

#[test]
fn palettes_are_equal_where_every_name_denotes_the_same() {
    let mut first = palette();
    let mut second = palette();
    assert_eq!(first, second);
    first.custom = vec![
        ("a".to_string(), Color::from(1)),
        ("b".to_string(), Color::from(2)),
    ];
    second.custom = vec![
        ("b".to_string(), Color::from(2)),
        ("a".to_string(), Color::from(1)),
        ("a".to_string(), Color::from(9)),
    ];
    assert_eq!(first, second);
    assert_eq!(second, first);
    second.custom.push(("c".to_string(), Color::from(3)));
    assert_ne!(first, second);
    assert_ne!(second, first);
    second.custom = vec![
        ("a".to_string(), Color::from(9)),
        ("b".to_string(), Color::from(2)),
    ];
    assert_ne!(first, second);
    second.custom = first.custom.clone();
    second.teal = Color::from(77);
    assert_ne!(first, second);
}
