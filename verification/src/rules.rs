//! Per-directory appearance rules and the choice of the rule that applies to
//! a working directory.
use vstd::prelude::*;
use std::collections::BTreeMap;
use vstd::std_specs::btree::{increasing_seq, spec_btree_map_iter};
use vstd::std_specs::iter::IteratorSpec;
use crate::maps::lemma_keys_increase;
use crate::path::{
    chars_of, components, opt_chars, path_components, resolve_rule_path, resolved_rule_path,
    same_chars, string_of, views,
};

verus! {

/// The key of a [`DirRule`] in the configuration.
#[derive(Clone, Copy, Debug, Default, PartialEq, Eq, Structural, PartialOrd, Ord)]
pub struct DirRuleId(pub u64);

/// An appearance bound to a directory, so a folder can look different from
/// the rest without touching the global settings. Every appearance field is
/// an `Option` where `None` means "no opinion, inherit".
#[derive(Clone, Debug, PartialEq, Eq)]
pub struct DirRule {
    /// Directory this rule applies to. Absolute, except for a leading `~`,
    /// which is expanded when the rule is matched.
    pub path: String,
    /// Whether the rule also covers directories below `path`; off, the rule
    /// only fires on the exact directory.
    pub include_subdirs: bool,
    /// Lets a rule be kept but parked, instead of having to delete it.
    pub enabled: bool,
    pub syntax_theme_dark: Option<String>,
    pub syntax_theme_light: Option<String>,
    pub opacity: Option<u8>,
    pub tab_title: Option<String>,
    pub cursor: Option<hex_color::HexColor>,
}

impl Default for DirRule {
    /// An enabled rule on the empty path that covers only its own directory
    /// and sets nothing.
    fn default() -> (r: Self)
        ensures
            r.path@ == Seq::<char>::empty(),
            !r.include_subdirs,
            r.enabled,
            r.syntax_theme_dark is None,
            r.syntax_theme_light is None,
            r.opacity is None,
            r.tab_title is None,
            r.cursor is None,
    {
        DirRule {
            path: String::new(),
            include_subdirs: false,
            enabled: true,
            syntax_theme_dark: None,
            syntax_theme_light: None,
            opacity: None,
            tab_title: None,
            cursor: None,
        }
    }
}

impl DirRule {
    /// The rule's path with a leading `~` expanded with `home`, or `None`
    /// when it cannot be resolved to an absolute path (see
    /// [`resolved_rule_path`]). `home` is the user's home directory, `None`
    /// when it is unknown.
    pub fn absolute_path(&self, home: Option<&str>) -> (r: Option<String>)
        ensures
            r matches Some(s) ==> resolved_rule_path(self.path@, opt_str(home)) == Some(s@),
            r is None ==> resolved_rule_path(self.path@, opt_str(home)) is None,
    {
        let path = chars_of(self.path.as_str());
        let resolved = match home {
            Some(h) => {
                let hc = chars_of(h);
                resolve_rule_path(&path, Some(&hc))
            },
            None => resolve_rule_path(&path, None),
        };
        match resolved {
            Some(v) => Some(string_of(&v, 0, v.len())),
            None => None,
        }
    }
}

/// The characters of an optional string.
pub open spec fn opt_str(s: Option<&str>) -> Option<Seq<char>> {
    match s {
        Some(x) => Some(x@),
        None => None,
    }
}

/// How many components of `cwd` a rule whose path has the components `rule`
/// matches: all of them when `rule` is a prefix of `cwd`, provided the rule
/// covers subdirectories or `cwd` is the rule's own directory; `None` when
/// the rule does not apply.
pub open spec fn depth_of(rule: Seq<Seq<char>>, cwd: Seq<Seq<char>>, include_subdirs: bool) -> Option<nat> {
    if rule.len() <= cwd.len() && cwd.take(rule.len() as int) == rule && (include_subdirs
        || cwd.len() == rule.len()) {
        Some(rule.len())
    } else {
        None
    }
}

fn depth_between(rule: &Vec<Vec<char>>, cwd: &Vec<Vec<char>>, include_subdirs: bool) -> (r: Option<usize>)
    ensures
        r matches Some(d) ==> depth_of(views(rule@), views(cwd@), include_subdirs) == Some(d as nat),
        r is None ==> depth_of(views(rule@), views(cwd@), include_subdirs) is None,
{
    let ghost rv = views(rule@);
    let ghost cv = views(cwd@);
    if rule.len() > cwd.len() {
        return None;
    }
    let mut i: usize = 0;
    while i < rule.len()
        invariant
            rule.len() <= cwd.len(),
            i <= rule.len(),
            rv == views(rule@),
            cv == views(cwd@),
            forall|k: int| 0 <= k < i ==> rv[k] == cv[k],
        decreases rule.len() - i,
    {
        if !same_chars(&rule[i], &cwd[i]) {
            assert(cv.take(rv.len() as int)[i as int] != rv[i as int]);
            return None;
        }
        i += 1;
    }
    assert(cv.take(rv.len() as int) =~= rv);
    if cwd.len() > rule.len() && !include_subdirs {
        return None;
    }
    Some(rule.len())
}

/// How well the rule path `rule_path` covers `cwd`, as the number of path
/// components matched, or `None` when the rule does not apply at all.
/// Comparison is component by component rather than by string prefix, so a
/// rule on `/home/a` does not capture `/home/ab`.
pub fn match_depth(rule_path: &str, cwd: &str, include_subdirs: bool) -> (r: Option<usize>)
    ensures
        r matches Some(d) ==> depth_of(components(rule_path@), components(cwd@), include_subdirs)
            == Some(d as nat),
        r is None ==> depth_of(components(rule_path@), components(cwd@), include_subdirs) is None,
{
    let rc = path_components(&chars_of(rule_path));
    let cc = path_components(&chars_of(cwd));
    depth_between(&rc, &cc, include_subdirs)
}


/// How many components of `cwd` the rule matches, or `None` when it does not
/// apply: a parked rule, a path that names no directory, and a directory
/// outside the rule's reach match nothing.
pub open spec fn rule_depth(rule: DirRule, cwd: Seq<char>, home: Option<Seq<char>>) -> Option<nat> {
    depth_in(rule, components(cwd), home)
}

/// [`rule_depth`] for a working directory given by its components.
pub open spec fn depth_in(rule: DirRule, cwd: Seq<Seq<char>>, home: Option<Seq<char>>) -> Option<nat> {
    if !rule.enabled {
        None
    } else {
        match resolved_rule_path(rule.path@, home) {
            None => None,
            Some(p) => depth_of(components(p), cwd, rule.include_subdirs),
        }
    }
}

/// Whether `r` is the rule that applies to `cwd` among `rules`: `None` when
/// no rule matches; otherwise a matching rule that matches at least as many
/// components as any other, and the lowest id among those that match as many.
pub open spec fn is_resolution(
    rules: Map<u64, DirRule>,
    cwd: Seq<char>,
    home: Option<Seq<char>>,
    r: Option<u64>,
) -> bool {
    match r {
        None => forall|k: u64| #[trigger] rules.contains_key(k) ==> rule_depth(rules[k], cwd, home) is None,
        Some(id) => {
            &&& rules.contains_key(id)
            &&& rule_depth(rules[id], cwd, home) is Some
            &&& forall|k: u64|
                #[trigger] rules.contains_key(k) && rule_depth(rules[k], cwd, home) is Some ==> {
                    let dk = rule_depth(rules[k], cwd, home)->0;
                    let did = rule_depth(rules[id], cwd, home)->0;
                    dk < did || (dk == did && id <= k)
                }
        },
    }
}

/// The id inside an optional rule id.
pub open spec fn opt_id(r: Option<DirRuleId>) -> Option<u64> {
    match r {
        Some(id) => Some(id.0),
        None => None,
    }
}

fn depth_of_rule(rule: &DirRule, cwd: &Vec<Vec<char>>, home: Option<&Vec<char>>) -> (r: Option<usize>)
    ensures
        r matches Some(d) ==> depth_in(*rule, views(cwd@), opt_chars(home)) == Some(d as nat),
        r is None ==> depth_in(*rule, views(cwd@), opt_chars(home)) is None,
{
    if !rule.enabled {
        return None;
    }
    let path = chars_of(rule.path.as_str());
    match resolve_rule_path(&path, home) {
        None => None,
        Some(p) => {
            let rc = path_components(&p);
            depth_between(&rc, cwd, rule.include_subdirs)
        },
    }
}

/// The rule that applies to `cwd`, if any; `home` is the user's home
/// directory, used to expand rule paths that start with `~`.
///
/// The most specific rule wins, measured in path components matched, so a
/// rule on `~/projects/prod` beats one on `~/projects`. Ties (only possible
/// between rules with the same path) go to the lowest id, so the result never
/// depends on iteration order.
pub fn resolve_dir_rule(rules: &BTreeMap<u64, DirRule>, cwd: &str, home: Option<&str>) -> (r: Option<
    DirRuleId,
>)
    ensures
        is_resolution(rules@, cwd@, opt_str(home), opt_id(r)),
{
    let cc = path_components(&chars_of(cwd));
    let hc: Option<Vec<char>> = match home {
        Some(h) => Some(chars_of(h)),
        None => None,
    };
    let hr: Option<&Vec<char>> = match &hc {
        Some(v) => Some(v),
        None => None,
    };
    assert(opt_chars(hr) == opt_str(home));
    let ghost cv = views(cc@);
    let ghost hv = opt_str(home);
    let mut best: Option<(usize, u64)> = None;
    let entries = rules.iter();
    let ghost all = entries.remaining();
    for (id, rule) in it: entries
        invariant
            it.seq() == all,
            all == spec_btree_map_iter(rules).remaining(),
            increasing_seq(all.map_values(|kv: (&u64, &DirRule)| *kv.0)),
            cv == views(cc@),
            cv == components(cwd@),
            hv == opt_chars(hr),
            match best {
                None => forall|j: int|
                    0 <= j < it.index() ==> depth_in(*#[trigger] it.seq()[j].1, cv, hv) is None,
                Some((d, bid)) => {
                    &&& exists|j: int|
                        0 <= j < it.index() && *#[trigger] it.seq()[j].0 == bid && depth_in(
                            *it.seq()[j].1,
                            cv,
                            hv,
                        ) == Some(d as nat)
                    &&& forall|j: int|
                        0 <= j < it.index() && (#[trigger] depth_in(*it.seq()[j].1, cv, hv)) is Some
                            ==> {
                            let dj = depth_in(*it.seq()[j].1, cv, hv)->0;
                            dj < d || (dj == d && bid <= *it.seq()[j].0)
                        }
                },
            },
    {
        let ghost at = it.index();
        assert(all[at] == (id, rule));
        proof {
            assert forall|j: int| 0 <= j < at implies *#[trigger] all[j].0 < *id by {
                lemma_keys_increase::<DirRule>(all, j, at);
            }
        }
        match depth_of_rule(rule, &cc, hr) {
            Some(d) => {
                let deeper = match best {
                    None => true,
                    Some((bd, _)) => d > bd,
                };
                if deeper {
                    best = Some((d, *id));
                }
            },
            None => {},
        }
    }
    proof {
        let m = rules@;
        assert forall|k: u64| #[trigger] m.contains_key(k) implies exists|j: int|
            0 <= j < all.len() && *all[j].0 == k && *all[j].1 == m[k] by {
            assert(all.contains((&k, &m[k])));
        }
    }
    match best {
        Some((_, id)) => Some(DirRuleId(id)),
        None => None,
    }
}

/// Resolution is deterministic: the rules, the directory and the home
/// directory determine the rule that applies, whatever order the rules are
/// stored or visited in.
pub proof fn resolution_is_unique(
    rules: Map<u64, DirRule>,
    cwd: Seq<char>,
    home: Option<Seq<char>>,
    r1: Option<u64>,
    r2: Option<u64>,
)
    requires
        is_resolution(rules, cwd, home, r1),
        is_resolution(rules, cwd, home, r2),
    ensures
        r1 == r2,
{
    match (r1, r2) {
        (Some(a), Some(b)) => {
            assert(rules.contains_key(a) && rules.contains_key(b));
        },
        (Some(a), None) => {
            assert(rules.contains_key(a));
        },
        (None, Some(b)) => {
            assert(rules.contains_key(b));
        },
        (None, None) => {},
    }
}

/// A parked rule shadows nothing: the rule that applies is the same with the
/// parked rule as without it.
pub proof fn parked_rule_is_ignored(
    rules: Map<u64, DirRule>,
    parked: u64,
    cwd: Seq<char>,
    home: Option<Seq<char>>,
    r: Option<u64>,
)
    requires
        rules.contains_key(parked),
        !rules[parked].enabled,
    ensures
        is_resolution(rules, cwd, home, r) <==> is_resolution(rules.remove(parked), cwd, home, r),
{
    let less = rules.remove(parked);
    if is_resolution(rules, cwd, home, r) {
        match r {
            Some(id) => {
                assert(id != parked);
                assert forall|k: u64| #[trigger] less.contains_key(k) && rule_depth(less[k], cwd, home) is Some
                    implies {
                    let dk = rule_depth(less[k], cwd, home)->0;
                    let did = rule_depth(less[id], cwd, home)->0;
                    dk < did || (dk == did && id <= k)
                } by {
                    assert(rules.contains_key(k));
                }
            },
            None => {
                assert forall|k: u64| #[trigger] less.contains_key(k) implies rule_depth(less[k], cwd, home) is None by {
                    assert(rules.contains_key(k));
                }
            },
        }
    }
    if is_resolution(less, cwd, home, r) {
        match r {
            Some(id) => {
                assert forall|k: u64| #[trigger] rules.contains_key(k) && rule_depth(rules[k], cwd, home) is Some
                    implies {
                    let dk = rule_depth(rules[k], cwd, home)->0;
                    let did = rule_depth(rules[id], cwd, home)->0;
                    dk < did || (dk == did && id <= k)
                } by {
                    assert(k != parked);
                    assert(less.contains_key(k));
                }
            },
            None => {
                assert forall|k: u64| #[trigger] rules.contains_key(k) implies rule_depth(rules[k], cwd, home) is None by {
                    if k != parked {
                        assert(less.contains_key(k));
                    }
                }
            },
        }
    }
}

/// The most specific rule wins: a rule that matches more components of the
/// directory than another is never passed over for it.
pub proof fn deeper_rule_wins(
    rules: Map<u64, DirRule>,
    cwd: Seq<char>,
    home: Option<Seq<char>>,
    r: Option<u64>,
    deep: u64,
    shallow: u64,
)
    requires
        is_resolution(rules, cwd, home, r),
        rules.contains_key(deep),
        rules.contains_key(shallow),
        rule_depth(rules[deep], cwd, home) is Some,
        rule_depth(rules[shallow], cwd, home) is Some,
        rule_depth(rules[shallow], cwd, home)->0 < rule_depth(rules[deep], cwd, home)->0,
    ensures
        r != Some(shallow),
        r is Some,
{
}

/// A rule that does not cover subdirectories applies to its own directory
/// only: whenever it matches, the directory has exactly the rule path's
/// components.
pub proof fn rule_without_subdirs_covers_one_directory(
    rule: DirRule,
    cwd: Seq<char>,
    home: Option<Seq<char>>,
)
    requires
        !rule.include_subdirs,
        rule_depth(rule, cwd, home) is Some,
    ensures
        resolved_rule_path(rule.path@, home) matches Some(p) && components(p) == components(cwd),
{
    let p = resolved_rule_path(rule.path@, home)->0;
    assert(components(cwd).take(components(p).len() as int) =~= components(cwd));
}

/// A rule path whose components are the first components of a directory
/// covers it, at a depth of the rule path's component count, however many
/// components the directory has; a rule without subdirectories needs the
/// components to be all of the directory's.
pub proof fn depth_of_is_complete(rule: Seq<Seq<char>>, cwd: Seq<Seq<char>>, include_subdirs: bool)
    requires
        rule.len() <= cwd.len(),
        forall|i: int| 0 <= i < rule.len() ==> rule[i] == cwd[i],
        include_subdirs || cwd.len() == rule.len(),
    ensures
        depth_of(rule, cwd, include_subdirs) == Some(rule.len()),
{
    assert(cwd.take(rule.len() as int) =~= rule);
}

/// An enabled rule applies to every directory whose components start with
/// the components of the directory its path names (all of them when it
/// does not cover subdirectories), at a depth of that component count.
pub proof fn enabled_rule_covers_its_directories(rule: DirRule, cwd: Seq<char>, home: Option<Seq<char>>, p: Seq<char>)
    requires
        rule.enabled,
        resolved_rule_path(rule.path@, home) == Some(p),
        components(p).len() <= components(cwd).len(),
        forall|i: int| 0 <= i < components(p).len() ==> components(p)[i] == components(cwd)[i],
        rule.include_subdirs || components(cwd).len() == components(p).len(),
    ensures
        rule_depth(rule, cwd, home) == Some(components(p).len()),
{
    depth_of_is_complete(components(p), components(cwd), rule.include_subdirs);
}

/// A rule applies only as its components say: when it applies, it is
/// enabled, its path names a directory whose components start the working
/// directory's (all of them when it does not cover subdirectories), and the
/// depth is their count.
pub proof fn rule_applies_only_by_components(rule: DirRule, cwd: Seq<char>, home: Option<Seq<char>>)
    requires
        rule_depth(rule, cwd, home) is Some,
    ensures
        rule.enabled,
        resolved_rule_path(rule.path@, home) is Some,
        ({
            let rc = components(resolved_rule_path(rule.path@, home)->0);
            let cc = components(cwd);
            &&& rule_depth(rule, cwd, home)->0 == rc.len()
            &&& rc.len() <= cc.len()
            &&& forall|i: int| 0 <= i < rc.len() ==> rc[i] == cc[i]
            &&& (rule.include_subdirs || cc.len() == rc.len())
        }),
{
    let rc = components(resolved_rule_path(rule.path@, home)->0);
    let cc = components(cwd);
    assert forall|i: int| 0 <= i < rc.len() implies rc[i] == cc[i] by {
        assert(cc.take(rc.len() as int)[i] == cc[i]);
    }
}

/// Two rules that are alike but for paths naming directories with the same
/// components (say `/srv` and `/srv/`, or `~` and the home directory) apply
/// to exactly the same directories, at the same depth.
pub proof fn same_components_same_matches(r1: DirRule, r2: DirRule, cwd: Seq<char>, home: Option<Seq<char>>)
    requires
        r1.enabled == r2.enabled,
        r1.include_subdirs == r2.include_subdirs,
        resolved_rule_path(r1.path@, home) is Some <==> resolved_rule_path(r2.path@, home) is Some,
        resolved_rule_path(r1.path@, home) is Some ==> components(resolved_rule_path(r1.path@, home)->0)
            == components(resolved_rule_path(r2.path@, home)->0),
    ensures
        rule_depth(r1, cwd, home) == rule_depth(r2, cwd, home),
{
    if rule_depth(r1, cwd, home) is Some {
        rule_applies_only_by_components(r1, cwd, home);
        let p2 = resolved_rule_path(r2.path@, home)->0;
        enabled_rule_covers_its_directories(r2, cwd, home, p2);
    } else if rule_depth(r2, cwd, home) is Some {
        rule_applies_only_by_components(r2, cwd, home);
        let p1 = resolved_rule_path(r1.path@, home)->0;
        enabled_rule_covers_its_directories(r1, cwd, home, p1);
    }
}

/// A rule applies to a directory only when its path's components are the
/// first components of the directory's path, so `/home/a` never covers
/// `/home/ab`; the depth is the number of components of the rule's path.
pub proof fn match_is_by_component(rule: Seq<Seq<char>>, cwd: Seq<Seq<char>>, include_subdirs: bool)
    requires
        depth_of(rule, cwd, include_subdirs) is Some,
    ensures
        rule.len() <= cwd.len(),
        forall|i: int| 0 <= i < rule.len() ==> rule[i] == cwd[i],
        depth_of(rule, cwd, include_subdirs)->0 == rule.len(),
{
    assert forall|i: int| 0 <= i < rule.len() implies rule[i] == cwd[i] by {
        assert(cwd.take(rule.len() as int)[i] == cwd[i]);
    }
}

} // verus!
