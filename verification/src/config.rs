//! The terminal's configuration, and the appearance a terminal renders with
//! once the directory rule, the profile and the global settings are layered.
use vstd::prelude::*;
use std::collections::BTreeMap;
use crate::color::ColorScheme;
use crate::fonts::{bold_weight, normal_weight, stretch_number, stretch_of_number, stretch_to_number, FontStretch};
use crate::names::{base_names, is_name_list, listing, name_list, Named};
use crate::rules::{DirRule, DirRuleId};

verus! {

pub const CONFIG_VERSION: u64 = 1;

pub const COSMIC_THEME_DARK: &'static str = "COSMIC Dark";

pub const COSMIC_THEME_LIGHT: &'static str = "COSMIC Light";

/// Which theme the application follows.
#[derive(Clone, Copy, Debug, Eq, Hash, PartialEq, Structural)]
pub enum AppTheme {
    Dark,
    Light,
    System,
}

/// Dark or light: selects one of the two sets of color schemes and themes.
#[derive(Clone, Copy, Debug, Eq, Hash, PartialEq, Structural)]
pub enum ColorSchemeKind {
    Dark,
    Light,
}

/// The key of a [`ColorScheme`] in the configuration.
#[derive(Clone, Copy, Debug, Default, Eq, Ord, PartialEq, PartialOrd, Structural)]
pub struct ColorSchemeId(pub u64);

/// The key of a [`Profile`] in the configuration.
#[derive(Clone, Copy, Debug, Default, Eq, Ord, PartialEq, PartialOrd, Structural)]
pub struct ProfileId(pub u64);

/// What a terminal runs, and under which title and themes.
#[derive(Clone, Debug, PartialEq, Eq)]
pub struct Profile {
    pub name: String,
    pub command: String,
    pub syntax_theme_dark: String,
    pub syntax_theme_light: String,
    pub tab_title: String,
    pub working_directory: String,
    pub drain_on_exit: bool,
}

impl Profile {
    /// A new profile called `name`: it runs the default shell, in the
    /// default directory, with the COSMIC themes and no title of its own.
    pub fn new(name: String) -> (p: Profile)
        ensures
            p.name@ == name@,
            p.command@ == Seq::<char>::empty(),
            p.syntax_theme_dark@ == COSMIC_THEME_DARK@,
            p.syntax_theme_light@ == COSMIC_THEME_LIGHT@,
            p.tab_title@ == Seq::<char>::empty(),
            p.working_directory@ == Seq::<char>::empty(),
            !p.drain_on_exit,
    {
        Profile {
            name,
            command: String::new(),
            syntax_theme_dark: COSMIC_THEME_DARK.to_string(),
            syntax_theme_light: COSMIC_THEME_LIGHT.to_string(),
            tab_title: String::new(),
            working_directory: String::new(),
            drain_on_exit: false,
        }
    }
}

impl Named for Profile {
    open spec fn name_view(&self) -> Seq<char> {
        self.name@
    }

    fn name(&self) -> (r: &String) {
        &self.name
    }
}

/// An id type that wraps a plain `u64`.
pub trait RawId: Sized {
    spec fn raw(&self) -> u64;

    fn from_raw(raw: u64) -> (r: Self)
        ensures
            r.raw() == raw,
    ;
}

impl RawId for ColorSchemeId {
    open spec fn raw(&self) -> u64 {
        self.0
    }

    fn from_raw(raw: u64) -> (r: Self) {
        ColorSchemeId(raw)
    }
}

impl RawId for ProfileId {
    open spec fn raw(&self) -> u64 {
        self.0
    }

    fn from_raw(raw: u64) -> (r: Self) {
        ProfileId(raw)
    }
}

/// A list of (name, id) pairs with plain ids.
pub open spec fn id_listing<I: RawId>(list: Seq<(String, I)>) -> Seq<(Seq<char>, u64)> {
    list.map_values(|p: (String, I)| (p.0@, p.1.raw()))
}

/// The pairs of `list` with their ids wrapped in `I`.
fn with_ids<I: RawId>(list: &Vec<(String, u64)>) -> (r: Vec<(String, I)>)
    ensures
        id_listing(r@) == listing(list@),
{
    let mut r: Vec<(String, I)> = Vec::new();
    let mut i: usize = 0;
    while i < list.len()
        invariant
            i <= list.len(),
            id_listing(r@) == listing(list@).take(i as int),
        decreases list.len() - i,
    {
        let name = list[i].0.clone();
        let id = I::from_raw(list[i].1);
        let ghost before = r@;
        r.push((name, id));
        assert(id_listing(r@) =~= id_listing(before).push((name@, list@[i as int].1)));
        assert(listing(list@).take(i + 1) =~= listing(list@).take(i as int).push(listing(list@)[i as int]));
        i += 1;
    }
    assert(listing(list@).take(list.len() as int) =~= listing(list@));
    r
}

impl Default for Profile {
    /// A new profile as [`Profile::new`] makes it. Its name is a placeholder:
    /// a profile shown to the user gets its name in the user's language
    /// through [`Profile::new`].
    fn default() -> (p: Profile)
        ensures
            p.command@ == Seq::<char>::empty(),
            p.syntax_theme_dark@ == COSMIC_THEME_DARK@,
            p.syntax_theme_light@ == COSMIC_THEME_LIGHT@,
            p.tab_title@ == Seq::<char>::empty(),
            p.working_directory@ == Seq::<char>::empty(),
            !p.drain_on_exit,
    {
        Profile::new(String::new())
    }
}

/// The appearance a terminal actually renders with, after the directory
/// rule, the profile and the global settings have been layered.
#[derive(Clone, Debug, PartialEq, Eq)]
pub struct Appearance {
    pub syntax_theme: String,
    pub opacity: u8,
    pub tab_title: Option<String>,
    pub cursor: Option<hex_color::HexColor>,
}

/// An [`Appearance`] with its strings as character sequences.
pub struct AppearanceView {
    pub syntax_theme: Seq<char>,
    pub opacity: u8,
    pub tab_title: Option<Seq<char>>,
    pub cursor: Option<hex_color::HexColor>,
}

/// The characters of an optional string.
pub open spec fn opt_string(s: Option<String>) -> Option<Seq<char>> {
    match s {
        Some(t) => Some(t@),
        None => None,
    }
}

impl View for Appearance {
    type V = AppearanceView;

    open spec fn view(&self) -> AppearanceView {
        AppearanceView {
            syntax_theme: self.syntax_theme@,
            opacity: self.opacity,
            tab_title: opt_string(self.tab_title),
            cursor: self.cursor,
        }
    }
}

/// The terminal's settings.
#[derive(Clone, Debug, PartialEq, Eq)]
pub struct Config {
    pub app_theme: AppTheme,
    /// Dark color schemes by id.
    pub color_schemes_dark: BTreeMap<u64, ColorScheme>,
    /// Light color schemes by id.
    pub color_schemes_light: BTreeMap<u64, ColorScheme>,
    pub font_name: String,
    pub font_size: u16,
    pub font_weight: u16,
    pub dim_font_weight: u16,
    pub bold_font_weight: u16,
    pub font_stretch: u16,
    pub font_size_zoom_step_mul_100: u16,
    pub opacity: u8,
    /// Per-directory appearance overrides by id. See [`DirRule`].
    pub dir_rules: BTreeMap<u64, DirRule>,
    /// Profiles by id.
    pub profiles: BTreeMap<u64, Profile>,
    pub show_headerbar: bool,
    pub show_pane_borders: bool,
    pub use_bright_bold: bool,
    pub syntax_theme_dark: String,
    pub syntax_theme_light: String,
    pub focus_follow_mouse: bool,
    pub tab_new_inherit_working_directory: bool,
    pub default_profile: Option<ProfileId>,
}

impl Default for Config {
    fn default() -> (c: Config)
        ensures
            c.app_theme == AppTheme::System,
            c.color_schemes_dark@ == Map::<u64, ColorScheme>::empty(),
            c.color_schemes_light@ == Map::<u64, ColorScheme>::empty(),
            c.font_name@ == "Noto Sans Mono"@,
            c.font_size == 14,
            c.font_weight == 400,
            c.dim_font_weight == 400,
            c.bold_font_weight == 700,
            c.font_stretch == stretch_number(FontStretch::Normal),
            c.font_size_zoom_step_mul_100 == 100,
            c.opacity == 100,
            c.dir_rules@ == Map::<u64, DirRule>::empty(),
            c.profiles@ == Map::<u64, Profile>::empty(),
            c.show_headerbar,
            !c.show_pane_borders,
            !c.use_bright_bold,
            c.syntax_theme_dark@ == COSMIC_THEME_DARK@,
            c.syntax_theme_light@ == COSMIC_THEME_LIGHT@,
            !c.focus_follow_mouse,
            !c.tab_new_inherit_working_directory,
            c.default_profile is None,
    {
        Config {
            app_theme: AppTheme::System,
            bold_font_weight: bold_weight(),
            color_schemes_dark: BTreeMap::new(),
            color_schemes_light: BTreeMap::new(),
            dim_font_weight: normal_weight(),
            focus_follow_mouse: false,
            tab_new_inherit_working_directory: false,
            font_name: "Noto Sans Mono".to_string(),
            font_size: 14,
            font_size_zoom_step_mul_100: 100,
            font_stretch: stretch_to_number(FontStretch::Normal),
            font_weight: normal_weight(),
            opacity: 100,
            dir_rules: BTreeMap::new(),
            profiles: BTreeMap::new(),
            show_headerbar: true,
            show_pane_borders: false,
            syntax_theme_dark: COSMIC_THEME_DARK.to_string(),
            syntax_theme_light: COSMIC_THEME_LIGHT.to_string(),
            use_bright_bold: false,
            default_profile: None,
        }
    }
}

impl Config {
    /// The color schemes of `kind`.
    pub open spec fn schemes_of(&self, kind: ColorSchemeKind) -> BTreeMap<u64, ColorScheme> {
        match kind {
            ColorSchemeKind::Dark => self.color_schemes_dark,
            ColorSchemeKind::Light => self.color_schemes_light,
        }
    }

    /// The profile with id `id`, if `id` is given and such a profile exists.
    pub open spec fn profile_of(&self, id: Option<ProfileId>) -> Option<Profile> {
        match id {
            Some(p) => if self.profiles@.contains_key(p.0) {
                Some(self.profiles@[p.0])
            } else {
                None
            },
            None => None,
        }
    }

    /// The directory rule with id `id`, if `id` is given and such a rule
    /// exists.
    pub open spec fn rule_of(&self, id: Option<DirRuleId>) -> Option<DirRule> {
        match id {
            Some(r) => if self.dir_rules@.contains_key(r.0) {
                Some(self.dir_rules@[r.0])
            } else {
                None
            },
            None => None,
        }
    }

    /// The syntax theme of `kind`: the profile's when the profile exists,
    /// the global one otherwise.
    pub open spec fn spec_syntax_theme(&self, kind: ColorSchemeKind, profile: Option<ProfileId>) -> Seq<char> {
        match self.profile_of(profile) {
            Some(p) => match kind {
                ColorSchemeKind::Dark => p.syntax_theme_dark@,
                ColorSchemeKind::Light => p.syntax_theme_light@,
            },
            None => match kind {
                ColorSchemeKind::Dark => self.syntax_theme_dark@,
                ColorSchemeKind::Light => self.syntax_theme_light@,
            },
        }
    }

    /// The appearance with the rule `rule` (if any) over the profile
    /// `profile` (if any) over the global settings, field by field:
    /// - the theme is the rule's theme of `kind` when it sets one, else
    ///   [`Config::spec_syntax_theme`];
    /// - the opacity is the rule's when it sets one, else the global one
    ///   (profiles carry no opacity);
    /// - the tab title is the rule's when it sets one, else the profile's;
    ///   an empty title is no title;
    /// - the cursor color is the rule's, if any.
    pub open spec fn spec_appearance(
        &self,
        kind: ColorSchemeKind,
        profile: Option<ProfileId>,
        rule: Option<DirRuleId>,
    ) -> AppearanceView {
        let r = self.rule_of(rule);
        let p = self.profile_of(profile);
        let rule_theme = match r {
            Some(d) => match kind {
                ColorSchemeKind::Dark => d.syntax_theme_dark,
                ColorSchemeKind::Light => d.syntax_theme_light,
            },
            None => None,
        };
        let title = match r {
            Some(d) if d.tab_title is Some => Some(d.tab_title->0@),
            _ => match p {
                Some(q) => Some(q.tab_title@),
                None => None,
            },
        };
        AppearanceView {
            syntax_theme: match rule_theme {
                Some(t) => t@,
                None => self.spec_syntax_theme(kind, profile),
            },
            opacity: match r {
                Some(d) if d.opacity is Some => d.opacity->0,
                _ => self.opacity,
            },
            tab_title: match title {
                Some(t) if t.len() > 0 => Some(t),
                _ => None,
            },
            cursor: match r {
                Some(d) => d.cursor,
                None => None,
            },
        }
    }

    /// The color schemes of `kind`.
    pub fn color_schemes(&self, color_scheme_kind: ColorSchemeKind) -> (r: &BTreeMap<u64, ColorScheme>)
        ensures
            *r == self.schemes_of(color_scheme_kind),
    {
        match color_scheme_kind {
            ColorSchemeKind::Dark => &self.color_schemes_dark,
            ColorSchemeKind::Light => &self.color_schemes_light,
        }
    }

    /// The color schemes of `kind`, to change; the configuration changes
    /// only there.
    pub fn color_schemes_mut(&mut self, color_scheme_kind: ColorSchemeKind) -> (r: &mut BTreeMap<
        u64,
        ColorScheme,
    >)
        ensures
            *r == old(self).schemes_of(color_scheme_kind),
            color_scheme_kind == ColorSchemeKind::Dark ==> *final(self) == (Config {
                color_schemes_dark: *final(r),
                ..*old(self)
            }),
            color_scheme_kind == ColorSchemeKind::Light ==> *final(self) == (Config {
                color_schemes_light: *final(r),
                ..*old(self)
            }),
    {
        match color_scheme_kind {
            ColorSchemeKind::Dark => &mut self.color_schemes_dark,
            ColorSchemeKind::Light => &mut self.color_schemes_light,
        }
    }

    /// The color schemes of `kind` in increasing id order, each under a name
    /// that no earlier one has (see [`is_name_list`]). The list comes in id
    /// order; ordering it for display by the user's collation is left to the
    /// caller.
    pub fn color_scheme_names(&self, color_scheme_kind: ColorSchemeKind) -> (r: Vec<(String, ColorSchemeId)>)
        ensures
            is_name_list(base_names(self.schemes_of(color_scheme_kind)@), id_listing(r@)),
    {
        with_ids(&name_list(self.color_schemes(color_scheme_kind)))
    }

    /// The profiles in increasing id order, each under a name that no
    /// earlier one has (see [`is_name_list`]). The list comes in id order;
    /// ordering it for display by the user's collation is left to the caller.
    pub fn profile_names(&self) -> (r: Vec<(String, ProfileId)>)
        ensures
            is_name_list(base_names(self.profiles@), id_listing(r@)),
    {
        with_ids(&name_list(&self.profiles))
    }

    /// The font width that `font_stretch` numbers.
    pub fn typed_font_stretch(&self) -> (r: FontStretch)
        requires
            1 <= self.font_stretch <= 9,
        ensures
            stretch_number(r) == self.font_stretch,
    {
        match stretch_of_number(self.font_stretch) {
            Some(s) => s,
            None => {
                // Every number from 1 to 9 names a width.
                assert(false);
                FontStretch::Normal
            },
        }
    }

    /// Dark or light: as the application theme says, or, when it follows the
    /// system, as the system theme is (`system_is_dark`).
    pub fn color_scheme_kind(&self, system_is_dark: bool) -> (r: ColorSchemeKind)
        ensures
            r == match self.app_theme {
                AppTheme::Dark => ColorSchemeKind::Dark,
                AppTheme::Light => ColorSchemeKind::Light,
                AppTheme::System => if system_is_dark {
                    ColorSchemeKind::Dark
                } else {
                    ColorSchemeKind::Light
                },
            },
    {
        match self.app_theme {
            AppTheme::Dark => ColorSchemeKind::Dark,
            AppTheme::Light => ColorSchemeKind::Light,
            AppTheme::System => {
                if system_is_dark {
                    ColorSchemeKind::Dark
                } else {
                    ColorSchemeKind::Light
                }
            },
        }
    }

    /// The current syntax theme of `kind`, the profile's when `profile_id_opt`
    /// names an existing profile, the global one otherwise.
    pub fn syntax_theme(&self, color_scheme_kind: ColorSchemeKind, profile_id_opt: Option<ProfileId>) -> (r: (
        String,
        ColorSchemeKind,
    ))
        ensures
            r.0@ == self.spec_syntax_theme(color_scheme_kind, profile_id_opt),
            r.1 == color_scheme_kind,
    {
        let profile = match profile_id_opt {
            Some(id) => self.profiles.get(&id.0),
            None => None,
        };
        let theme_name = match profile {
            Some(p) => match color_scheme_kind {
                ColorSchemeKind::Dark => p.syntax_theme_dark.clone(),
                ColorSchemeKind::Light => p.syntax_theme_light.clone(),
            },
            None => match color_scheme_kind {
                ColorSchemeKind::Dark => self.syntax_theme_dark.clone(),
                ColorSchemeKind::Light => self.syntax_theme_light.clone(),
            },
        };
        (theme_name, color_scheme_kind)
    }

    /// Layers the directory rule over the profile over the global settings,
    /// field by field (see [`Config::spec_appearance`]): a rule that only
    /// pins a color leaves the other fields to the layers below it.
    pub fn effective_appearance(
        &self,
        color_scheme_kind: ColorSchemeKind,
        profile_id_opt: Option<ProfileId>,
        dir_rule_id_opt: Option<DirRuleId>,
    ) -> (a: Appearance)
        ensures
            a@ == self.spec_appearance(color_scheme_kind, profile_id_opt, dir_rule_id_opt),
    {
        let rule_opt = match dir_rule_id_opt {
            Some(id) => self.dir_rules.get(&id.0),
            None => None,
        };
        let profile_opt = match profile_id_opt {
            Some(id) => self.profiles.get(&id.0),
            None => None,
        };
        let rule_theme: Option<&String> = match rule_opt {
            Some(rule) => match color_scheme_kind {
                ColorSchemeKind::Dark => rule.syntax_theme_dark.as_ref(),
                ColorSchemeKind::Light => rule.syntax_theme_light.as_ref(),
            },
            None => None,
        };
        let syntax_theme = match rule_theme {
            Some(t) => t.clone(),
            None => self.syntax_theme(color_scheme_kind, profile_id_opt).0,
        };
        let opacity = match rule_opt {
            Some(rule) => match rule.opacity {
                Some(o) => o,
                None => self.opacity,
            },
            None => self.opacity,
        };
        let title: Option<String> = match rule_opt {
            Some(rule) if rule.tab_title.is_some() => match &rule.tab_title {
                Some(t) => Some(t.clone()),
                None => None,
            },
            _ => match profile_opt {
                Some(profile) => Some(profile.tab_title.clone()),
                None => None,
            },
        };
        let tab_title = match title {
            Some(t) => if !t.as_str().is_empty() {
                Some(t)
            } else {
                None
            },
            None => None,
        };
        let cursor = match rule_opt {
            Some(rule) => rule.cursor,
            None => None,
        };
        Appearance { syntax_theme, opacity, tab_title, cursor }
    }
}

/// The current syntax theme of a kind is that kind's field of the profile
/// when the id names a stored profile, and the configuration's own field of
/// that kind otherwise.
pub proof fn syntax_theme_comes_from_the_fields(config: Config, kind: ColorSchemeKind, profile: Option<ProfileId>)
    ensures
        (profile matches Some(id) && config.profiles@.contains_key(id.0)) ==> config.spec_syntax_theme(
            kind,
            profile,
        ) == match kind {
            ColorSchemeKind::Dark => config.profiles@[profile.unwrap().0].syntax_theme_dark@,
            ColorSchemeKind::Light => config.profiles@[profile.unwrap().0].syntax_theme_light@,
        },
        !(profile matches Some(id) && config.profiles@.contains_key(id.0)) ==> config.spec_syntax_theme(
            kind,
            profile,
        ) == match kind {
            ColorSchemeKind::Dark => config.syntax_theme_dark@,
            ColorSchemeKind::Light => config.syntax_theme_light@,
        },
{
}

/// The profile an id names is the stored profile, unchanged; an id that
/// names no stored profile, or no id, names none.
pub proof fn profile_of_is_the_stored_profile(config: Config, profile: Option<ProfileId>)
    ensures
        (profile matches Some(id) && config.profiles@.contains_key(id.0)) ==> config.profile_of(profile)
            == Some(config.profiles@[profile.unwrap().0]),
        !(profile matches Some(id) && config.profiles@.contains_key(id.0)) ==> config.profile_of(
            profile,
        ) is None,
{
}

/// Without a rule, the tab title is the profile's own `tab_title` when it is
/// not empty, and there is none when it is empty or there is no profile.
pub proof fn title_without_rule_is_the_profile_title(config: Config, kind: ColorSchemeKind, profile: Option<ProfileId>)
    ensures
        (profile matches Some(id) && config.profiles@.contains_key(id.0)) ==> config.spec_appearance(
            kind,
            profile,
            None,
        ).tab_title == {
            let t = config.profiles@[profile.unwrap().0].tab_title@;
            if t.len() > 0 {
                Some(t)
            } else {
                None
            }
        },
        !(profile matches Some(id) && config.profiles@.contains_key(id.0)) ==> config.spec_appearance(
            kind,
            profile,
            None,
        ).tab_title is None,
{
}

/// Profiles and color schemes are listed under their `name` fields: the
/// base name of every entry is the entry's own name.
pub proof fn entries_are_listed_under_their_names(config: Config, kind: ColorSchemeKind)
    ensures
        base_names(config.profiles@).dom() == config.profiles@.dom(),
        forall|k: u64| #[trigger] config.profiles@.contains_key(k) ==> base_names(config.profiles@)[k]
            == config.profiles@[k].name@,
        base_names(config.schemes_of(kind)@).dom() == config.schemes_of(kind)@.dom(),
        forall|k: u64| #[trigger] config.schemes_of(kind)@.contains_key(k) ==> base_names(
            config.schemes_of(kind)@,
        )[k] == config.schemes_of(kind)@[k].name@,
{
}

/// A rule only overrides the fields it sets: each field of the appearance
/// with the rule is the rule's value when the rule sets it and the value
/// without the rule otherwise; an empty title set by the rule is no title.
pub proof fn rule_overrides_only_its_fields(
    config: Config,
    kind: ColorSchemeKind,
    profile: Option<ProfileId>,
    rule: DirRuleId,
)
    requires
        config.dir_rules@.contains_key(rule.0),
    ensures
        ({
            let d = config.dir_rules@[rule.0];
            let with = config.spec_appearance(kind, profile, Some(rule));
            let without = config.spec_appearance(kind, profile, None);
            let theme = match kind {
                ColorSchemeKind::Dark => d.syntax_theme_dark,
                ColorSchemeKind::Light => d.syntax_theme_light,
            };
            &&& with.syntax_theme == match theme {
                Some(t) => t@,
                None => without.syntax_theme,
            }
            &&& with.opacity == match d.opacity {
                Some(o) => o,
                None => without.opacity,
            }
            &&& with.tab_title == match d.tab_title {
                Some(t) => if t@.len() > 0 {
                    Some(t@)
                } else {
                    None
                },
                None => without.tab_title,
            }
            &&& with.cursor == d.cursor
        }),
{
}

/// With no rule, the appearance is the one the terminal had before rules
/// existed: the profile's or the global theme, the global opacity, the
/// profile's title when it has one, and the scheme's cursor color.
pub proof fn no_rule_leaves_appearance_untouched(
    config: Config,
    kind: ColorSchemeKind,
    profile: Option<ProfileId>,
)
    ensures
        ({
            let a = config.spec_appearance(kind, profile, None);
            &&& a.syntax_theme == config.spec_syntax_theme(kind, profile)
            &&& a.opacity == config.opacity
            &&& a.tab_title == match config.profile_of(profile) {
                Some(p) => if p.tab_title@.len() > 0 {
                    Some(p.tab_title@)
                } else {
                    None
                },
                None => None,
            }
            &&& a.cursor is None
        }),
{
}

/// Moving the global opacity moves every directory whose rule does not pin
/// its own: with such a rule, or none, the opacity is the global one.
pub proof fn global_opacity_reaches_unpinned_rules(
    config: Config,
    kind: ColorSchemeKind,
    profile: Option<ProfileId>,
    rule: Option<DirRuleId>,
)
    requires
        config.rule_of(rule) matches Some(d) ==> d.opacity is None,
    ensures
        config.spec_appearance(kind, profile, rule).opacity == config.opacity,
{
}

/// Profiles carry no opacity: the opacity does not depend on the profile.
pub proof fn opacity_ignores_profile(
    config: Config,
    kind: ColorSchemeKind,
    p1: Option<ProfileId>,
    p2: Option<ProfileId>,
    rule: Option<DirRuleId>,
)
    ensures
        config.spec_appearance(kind, p1, rule).opacity == config.spec_appearance(kind, p2, rule).opacity,
{
}

/// An id that names no rule, or no profile, counts as none.
pub proof fn unknown_ids_are_ignored(
    config: Config,
    kind: ColorSchemeKind,
    profile: Option<ProfileId>,
    rule: Option<DirRuleId>,
)
    ensures
        (rule matches Some(r) && !config.dir_rules@.contains_key(r.0)) ==> config.spec_appearance(
            kind,
            profile,
            rule,
        ) == config.spec_appearance(kind, profile, None),
        (profile matches Some(p) && !config.profiles@.contains_key(p.0)) ==> config.spec_appearance(
            kind,
            profile,
            rule,
        ) == config.spec_appearance(kind, None, rule),
{
}

} // verus!
