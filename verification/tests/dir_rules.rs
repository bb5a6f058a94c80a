use std::collections::BTreeMap;

use cosmic_term::config::{ColorSchemeKind, Config, Profile, ProfileId};
use cosmic_term::rules::{resolve_dir_rule, DirRule, DirRuleId};

fn rule(path: &str) -> DirRule {
    DirRule {
        path: path.to_string(),
        include_subdirs: true,
        ..Default::default()
    }
}

fn rules(list: &[(u64, DirRule)]) -> BTreeMap<u64, DirRule> {
    list.iter().map(|(id, rule)| (*id, rule.clone())).collect()
}

#[test]
fn a_rule_covers_its_subdirectories() {
    let rules = rules(&[(1, rule("/home/nico/projects"))]);
    assert_eq!(
        resolve_dir_rule(&rules, "/home/nico/projects/foo/bar", None),
        Some(DirRuleId(1))
    );
}

#[test]
fn the_most_specific_rule_wins() {
    let rules = rules(&[
        (1, rule("/home/nico/projects")),
        (2, rule("/home/nico/projects/prod")),
    ]);
    assert_eq!(
        resolve_dir_rule(&rules, "/home/nico/projects/prod/src", None),
        Some(DirRuleId(2))
    );
    assert_eq!(
        resolve_dir_rule(&rules, "/home/nico/projects/dev", None),
        Some(DirRuleId(1))
    );
}

#[test]
fn matching_is_by_path_component_not_string_prefix() {
    let rules = rules(&[(1, rule("/home/a"))]);
    assert_eq!(resolve_dir_rule(&rules, "/home/ab", None), None);
    assert_eq!(resolve_dir_rule(&rules, "/home/a", None), Some(DirRuleId(1)));
}

#[test]
fn subdirectories_can_be_excluded() {
    let rules = rules(&[(
        1,
        DirRule {
            include_subdirs: false,
            ..rule("/home/nico/projects")
        },
    )]);
    assert_eq!(
        resolve_dir_rule(&rules, "/home/nico/projects", None),
        Some(DirRuleId(1))
    );
    assert_eq!(resolve_dir_rule(&rules, "/home/nico/projects/foo", None), None);
}

#[test]
fn a_disabled_rule_never_matches() {
    let rules = rules(&[(
        1,
        DirRule {
            enabled: false,
            ..rule("/home/nico")
        },
    )]);
    assert_eq!(resolve_dir_rule(&rules, "/home/nico", None), None);
}

#[test]
fn a_parked_rule_does_not_shadow_a_live_one() {
    let rules = rules(&[
        (1, rule("/home/nico")),
        (
            2,
            DirRule {
                enabled: false,
                ..rule("/home/nico/projects")
            },
        ),
    ]);
    assert_eq!(
        resolve_dir_rule(&rules, "/home/nico/projects", None),
        Some(DirRuleId(1))
    );
}

#[test]
fn overlapping_rules_resolve_deterministically() {
    let rules = rules(&[(7, rule("/home/nico")), (3, rule("/home/nico"))]);
    assert_eq!(
        resolve_dir_rule(&rules, "/home/nico", None),
        Some(DirRuleId(3))
    );
}

#[test]
fn an_unmatched_directory_has_no_rule() {
    let rules = rules(&[(1, rule("/home/nico/projects"))]);
    assert_eq!(resolve_dir_rule(&rules, "/etc", None), None);
    assert_eq!(resolve_dir_rule(&BTreeMap::new(), "/etc", None), None);
}

#[test]
fn a_tilde_path_expands_to_the_home_directory() {
    let home = "/home/nico";
    let rules = rules(&[(1, rule("~/projects"))]);
    assert_eq!(
        resolve_dir_rule(&rules, "/home/nico/projects/foo", Some(home)),
        Some(DirRuleId(1))
    );
}

#[test]
fn unusable_rule_paths_match_nothing() {
    let home = Some("/home/nico");
    assert_eq!(rule("projects").absolute_path(home), None);
    assert_eq!(rule("").absolute_path(home), None);
    assert_eq!(rule("   ").absolute_path(home), None);
    assert_eq!(rule("~otheruser/projects").absolute_path(home), None);
}

#[test]
fn a_rule_only_overrides_the_fields_it_sets() {
    let mut config = Config::default();
    config.opacity = 90;
    config.syntax_theme_dark = "Global Dark".to_string();
    config.dir_rules.insert(
        1,
        DirRule {
            syntax_theme_dark: Some("Rule Dark".to_string()),
            ..rule("/home/nico")
        },
    );

    let appearance =
        config.effective_appearance(ColorSchemeKind::Dark, None, Some(DirRuleId(1)));
    assert_eq!(appearance.syntax_theme, "Rule Dark");
    assert_eq!(appearance.opacity, 90, "opacity must still come from global");
    assert_eq!(appearance.tab_title, None);
    assert_eq!(appearance.cursor, None);
}

#[test]
fn a_rule_outranks_its_profile_field_by_field() {
    let mut config = Config::default();
    config.syntax_theme_dark = "Global Dark".to_string();
    config.profiles.insert(
        1,
        Profile {
            syntax_theme_dark: "Profile Dark".to_string(),
            tab_title: "Profile title".to_string(),
            ..Default::default()
        },
    );
    config.dir_rules.insert(
        1,
        DirRule {
            tab_title: Some("Rule title".to_string()),
            ..rule("/home/nico")
        },
    );

    let appearance = config.effective_appearance(
        ColorSchemeKind::Dark,
        Some(ProfileId(1)),
        Some(DirRuleId(1)),
    );
    assert_eq!(appearance.syntax_theme, "Profile Dark");
    assert_eq!(appearance.tab_title.as_deref(), Some("Rule title"));
}

#[test]
fn no_rule_leaves_the_existing_behaviour_untouched() {
    let mut config = Config::default();
    config.opacity = 75;
    config.syntax_theme_light = "Global Light".to_string();

    let appearance = config.effective_appearance(ColorSchemeKind::Light, None, None);
    assert_eq!(appearance.syntax_theme, "Global Light");
    assert_eq!(appearance.opacity, 75);
    assert_eq!(appearance.tab_title, None);
    assert_eq!(appearance.cursor, None);
}

#[test]
fn an_empty_profile_title_is_not_a_title() {
    let mut config = Config::default();
    config.profiles.insert(1, Profile::default());

    let appearance =
        config.effective_appearance(ColorSchemeKind::Dark, Some(ProfileId(1)), None);
    assert_eq!(appearance.tab_title, None);
}
