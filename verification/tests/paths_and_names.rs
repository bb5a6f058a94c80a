use std::collections::BTreeMap;
use std::path::{Path, PathBuf};

use cosmic_term::color::{ColorScheme, ColorSchemeAnsi};
use cosmic_term::config::{AppTheme, ColorSchemeId, ColorSchemeKind, Config, Profile, ProfileId};
use cosmic_term::fonts::FontStretch;
use cosmic_term::rules::{match_depth, resolve_dir_rule, DirRule, DirRuleId};

/// Matching as std's `Path::components` sees it.
fn depth_by_std(rule_path: &str, cwd: &str, include_subdirs: bool) -> Option<usize> {
    let mut depth = 0;
    let mut cwd_components = Path::new(cwd).components();
    for rule_component in Path::new(rule_path).components() {
        if cwd_components.next()? != rule_component {
            return None;
        }
        depth += 1;
    }
    if cwd_components.next().is_some() && !include_subdirs {
        return None;
    }
    Some(depth)
}

/// Rule path resolution as std's `str::trim` and `Path::join` see it.
fn absolute_by_std(path: &str, home: Option<&str>) -> Option<String> {
    let trimmed = path.trim();
    if trimmed.is_empty() {
        return None;
    }
    if let Some(rest) = trimmed.strip_prefix('~') {
        if rest.is_empty() || rest.starts_with('/') {
            let home = PathBuf::from(home?);
            if !home.is_absolute() {
                return None;
            }
            return Some(home.join(rest.trim_start_matches('/')).to_str().unwrap().to_string());
        }
        return None;
    }
    let path = PathBuf::from(trimmed);
    if path.is_absolute() {
        Some(trimmed.to_string())
    } else {
        None
    }
}

const PATHS: &[&str] = &[
    "", "/", "//", "/home", "/home/", "/home//nico", "/home/./nico", "/home/nico/.",
    "/home/nico/..", "/home/nico/../nico", ".", "./", "./home", "home", "home/nico", "..",
    "../home", "/.", "/./", ".hidden", "/home/.hidden", "/home/nico/", "/home/nicola",
    "/home/ni co", "/héllo/wörld",
];

#[test]
fn component_matching_agrees_with_std_paths() {
    for rule in PATHS {
        for cwd in PATHS {
            for include_subdirs in [false, true] {
                assert_eq!(
                    match_depth(rule, cwd, include_subdirs),
                    depth_by_std(rule, cwd, include_subdirs),
                    "rule {:?} cwd {:?} subdirs {}",
                    rule,
                    cwd,
                    include_subdirs
                );
            }
        }
    }
}

#[test]
fn absolute_paths_agree_with_std() {
    let paths = [
        "~", "~/", "~//projects", "~/projects", "  ~/projects  ", "~user", "\t/srv\n",
        "/srv/", "srv", "", " ", "\u{3000}/x\u{a0}", "~~", "/~", "~/a b",
    ];
    let homes = [None, Some("/home/nico"), Some("/home/nico/"), Some(""), Some("/"), Some("rel"), Some("rel/")];
    for path in paths {
        for home in homes {
            let rule = DirRule {
                path: path.to_string(),
                ..Default::default()
            };
            assert_eq!(
                rule.absolute_path(home),
                absolute_by_std(path, home),
                "path {:?} home {:?}",
                path,
                home
            );
        }
    }
}

#[test]
fn a_trailing_slash_does_not_change_a_match() {
    assert_eq!(match_depth("/home/nico/", "/home/nico", false), Some(3));
    assert_eq!(match_depth("/home/nico", "/home/nico/", false), Some(3));
}

#[test]
fn rule_paths_are_trimmed_and_expanded() {
    let rule = DirRule {
        path: "  ~/projects ".to_string(),
        ..Default::default()
    };
    assert_eq!(
        rule.absolute_path(Some("/home/nico/")).as_deref(),
        Some("/home/nico/projects")
    );
    assert_eq!(rule.absolute_path(None), None);
    let home_only = DirRule {
        path: "~".to_string(),
        ..Default::default()
    };
    assert_eq!(home_only.absolute_path(Some("/home/nico")).as_deref(), Some("/home/nico/"));
}

#[test]
fn a_relative_home_expands_to_nothing() {
    let rule = DirRule {
        path: "~/x".to_string(),
        ..Default::default()
    };
    assert_eq!(rule.absolute_path(Some("rel")), None);
    assert_eq!(rule.absolute_path(Some("")), None);
    assert_eq!(rule.absolute_path(Some("/home/nico")).as_deref(), Some("/home/nico/x"));
}

#[test]
fn the_example_rules_resolve_folder_by_folder() {
    let home = Some("/home/nico");
    let mut rules = BTreeMap::new();
    rules.insert(
        1,
        DirRule {
            path: "~/projects".to_string(),
            opacity: Some(85),
            syntax_theme_dark: Some("Dracula".to_string()),
            ..Default::default()
        },
    );
    rules.insert(
        2,
        DirRule {
            path: "~/projects/prod".to_string(),
            tab_title: Some("PROD".to_string()),
            cursor: Some(hex_color::HexColor::rgb(255, 0, 0)),
            ..Default::default()
        },
    );
    rules.insert(
        3,
        DirRule {
            path: "/srv".to_string(),
            include_subdirs: true,
            syntax_theme_dark: Some("Solarized Dark".to_string()),
            ..Default::default()
        },
    );
    assert_eq!(resolve_dir_rule(&rules, "/home/nico/projects", home), Some(DirRuleId(1)));
    assert_eq!(resolve_dir_rule(&rules, "/home/nico/projects/prod", home), Some(DirRuleId(2)));
    assert_eq!(resolve_dir_rule(&rules, "/home/nico/projects/foo", home), None);
    assert_eq!(resolve_dir_rule(&rules, "/srv/a/b", home), Some(DirRuleId(3)));

    let mut config = Config::default();
    config.dir_rules = rules;
    let prod = config.effective_appearance(ColorSchemeKind::Dark, None, Some(DirRuleId(2)));
    assert_eq!(prod.syntax_theme, "COSMIC Dark");
    assert_eq!(prod.tab_title.as_deref(), Some("PROD"));
    assert_eq!(prod.opacity, 100);
}

#[test]
fn a_tilde_rule_without_a_home_matches_nothing() {
    let mut rules = BTreeMap::new();
    rules.insert(
        1,
        DirRule {
            path: "~/projects".to_string(),
            ..Default::default()
        },
    );
    assert_eq!(resolve_dir_rule(&rules, "/home/nico/projects", None), None);
}

#[test]
fn a_deeper_rule_wins_whatever_its_id() {
    let mut rules = BTreeMap::new();
    for (id, path) in [(9, "/"), (5, "/srv/www"), (1, "/srv")] {
        rules.insert(
            id,
            DirRule {
                path: path.to_string(),
                include_subdirs: true,
                ..Default::default()
            },
        );
    }
    assert_eq!(resolve_dir_rule(&rules, "/srv/www/site", None), Some(DirRuleId(5)));
    assert_eq!(resolve_dir_rule(&rules, "/srv/data", None), Some(DirRuleId(1)));
    assert_eq!(resolve_dir_rule(&rules, "/etc", None), Some(DirRuleId(9)));
    assert_eq!(resolve_dir_rule(&rules, "relative/dir", None), None);
}

#[test]
fn a_rule_default_covers_one_folder_and_is_enabled() {
    let rule = DirRule::default();
    assert!(!rule.include_subdirs);
    assert!(rule.enabled);
    assert_eq!(rule.path, "");
    assert_eq!(rule.opacity, None);
}

fn scheme(name: &str) -> ColorScheme {
    ColorScheme {
        name: name.to_string(),
        ..Default::default()
    }
}

#[test]
fn duplicate_scheme_names_get_numbers() {
    let mut config = Config::default();
    for (id, name) in [(4, "A"), (1, "A"), (2, "A (2)"), (3, "B")] {
        config.color_schemes_dark.insert(id, scheme(name));
    }
    let names = config.color_scheme_names(ColorSchemeKind::Dark);
    assert_eq!(
        names,
        vec![
            ("A".to_string(), ColorSchemeId(1)),
            ("A (2)".to_string(), ColorSchemeId(2)),
            ("B".to_string(), ColorSchemeId(3)),
            ("A (3)".to_string(), ColorSchemeId(4)),
        ]
    );
    assert!(config.color_scheme_names(ColorSchemeKind::Light).is_empty());
}

#[test]
fn many_copies_count_past_nine() {
    let mut config = Config::default();
    for id in 0..12u64 {
        config.profiles.insert(
            id,
            Profile {
                name: "Shell".to_string(),
                ..Default::default()
            },
        );
    }
    let names = config.profile_names();
    assert_eq!(names.len(), 12);
    assert_eq!(names[0], ("Shell".to_string(), ProfileId(0)));
    assert_eq!(names[1], ("Shell (2)".to_string(), ProfileId(1)));
    assert_eq!(names[9], ("Shell (10)".to_string(), ProfileId(9)));
    assert_eq!(names[11], ("Shell (12)".to_string(), ProfileId(11)));
}

#[test]
fn color_schemes_mut_changes_only_its_kind() {
    let mut config = Config::default();
    config
        .color_schemes_mut(ColorSchemeKind::Light)
        .insert(3, scheme("Paper"));
    assert_eq!(config.color_schemes(ColorSchemeKind::Light).len(), 1);
    assert!(config.color_schemes(ColorSchemeKind::Dark).is_empty());
    assert_eq!(config.color_schemes_light[&3].name, "Paper");
}

#[test]
fn an_empty_ansi_set_is_empty() {
    let mut ansi = ColorSchemeAnsi::default();
    assert!(ansi.is_empty());
    ansi.cyan = Some(hex_color::HexColor::rgb(0, 255, 255));
    assert!(!ansi.is_empty());
}

#[test]
fn the_scheme_kind_follows_the_app_theme() {
    let mut config = Config::default();
    assert_eq!(config.color_scheme_kind(true), ColorSchemeKind::Dark);
    assert_eq!(config.color_scheme_kind(false), ColorSchemeKind::Light);
    config.app_theme = AppTheme::Light;
    assert_eq!(config.color_scheme_kind(true), ColorSchemeKind::Light);
    config.app_theme = AppTheme::Dark;
    assert_eq!(config.color_scheme_kind(false), ColorSchemeKind::Dark);
}

#[test]
fn the_syntax_theme_comes_from_the_profile_when_it_exists() {
    let mut config = Config::default();
    config.profiles.insert(
        2,
        Profile {
            syntax_theme_light: "Profile Light".to_string(),
            ..Default::default()
        },
    );
    assert_eq!(
        config.syntax_theme(ColorSchemeKind::Light, Some(ProfileId(2))),
        ("Profile Light".to_string(), ColorSchemeKind::Light)
    );
    assert_eq!(
        config.syntax_theme(ColorSchemeKind::Dark, Some(ProfileId(2))),
        ("COSMIC Dark".to_string(), ColorSchemeKind::Dark)
    );
    assert_eq!(
        config.syntax_theme(ColorSchemeKind::Light, Some(ProfileId(7))),
        ("COSMIC Light".to_string(), ColorSchemeKind::Light)
    );
}

#[test]
fn an_empty_rule_title_hides_the_profile_title() {
    let mut config = Config::default();
    config.profiles.insert(
        1,
        Profile {
            tab_title: "Profile title".to_string(),
            ..Default::default()
        },
    );
    config.dir_rules.insert(
        1,
        DirRule {
            tab_title: Some(String::new()),
            opacity: Some(40),
            cursor: Some(hex_color::HexColor::rgb(255, 0, 0)),
            syntax_theme_light: Some("Rule Light".to_string()),
            ..Default::default()
        },
    );
    let a = config.effective_appearance(ColorSchemeKind::Dark, Some(ProfileId(1)), Some(DirRuleId(1)));
    assert_eq!(a.tab_title, None);
    assert_eq!(a.opacity, 40);
    assert_eq!(a.cursor, Some(hex_color::HexColor::rgb(255, 0, 0)));
    assert_eq!(a.syntax_theme, "COSMIC Dark");
    let b = config.effective_appearance(ColorSchemeKind::Dark, Some(ProfileId(1)), Some(DirRuleId(8)));
    assert_eq!(b.tab_title.as_deref(), Some("Profile title"));
    assert_eq!(b.opacity, 100);
    assert_eq!(b.cursor, None);
}

#[test]
fn defaults_use_the_font_numbers_of_cosmic_text() {
    let config = Config::default();
    assert_eq!(config.font_weight, 400);
    assert_eq!(config.dim_font_weight, 400);
    assert_eq!(config.bold_font_weight, 700);
    assert_eq!(config.font_stretch, 5);
    assert_eq!(config.typed_font_stretch(), FontStretch::Normal);
    assert_eq!(config.font_name, "Noto Sans Mono");
    assert_eq!(config.syntax_theme_dark, "COSMIC Dark");
    assert_eq!(config.syntax_theme_light, "COSMIC Light");
    assert_eq!(config.app_theme, AppTheme::System);
}

#[test]
fn every_width_number_names_its_width() {
    let expected = [
        FontStretch::UltraCondensed,
        FontStretch::ExtraCondensed,
        FontStretch::Condensed,
        FontStretch::SemiCondensed,
        FontStretch::Normal,
        FontStretch::SemiExpanded,
        FontStretch::Expanded,
        FontStretch::ExtraExpanded,
        FontStretch::UltraExpanded,
    ];
    let mut config = Config::default();
    for (i, width) in expected.iter().enumerate() {
        config.font_stretch = i as u16 + 1;
        assert_eq!(config.typed_font_stretch(), *width);
    }
    assert_eq!(cosmic_term::fonts::stretch_of_number(0), None);
    assert_eq!(cosmic_term::fonts::stretch_of_number(10), None);
}

#[test]
fn a_new_profile_keeps_its_name_and_the_cosmic_themes() {
    let profile = Profile::new("Work".to_string());
    assert_eq!(profile.name, "Work");
    assert_eq!(profile.syntax_theme_dark, "COSMIC Dark");
    assert_eq!(profile.syntax_theme_light, "COSMIC Light");
    assert_eq!(profile.tab_title, "");
    assert!(!profile.drain_on_exit);
}

#[test]
fn white_space_is_what_std_calls_white_space() {
    for c in (0u32..=0x10FFFF).filter_map(char::from_u32) {
        assert_eq!(cosmic_term::path::white_space(c), c.is_whitespace(), "{:?}", c);
    }
}
