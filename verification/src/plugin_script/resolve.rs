//! Which first-party plugin, and which of its skills, a script belongs to.
//!
//! All paths that are compared are canonical ones. Whoever reads the file
//! system canonicalizes the script, the plugin roots and the directories that
//! [`scripts_dir`] names, and hands the results over as [`CanonicalPaths`].

use vstd::prelude::*;
use vstd::string::*;

use crate::plugin_script::path::{
    is_well_formed, is_within, normal_texts, normalized_relative_path, parent_path, slash_joined, ComponentView,
    LexicalPath, NameView, PathComponent, PathName, PathView,
};
use crate::plugin_script::path_laws::{
    is_normal, normalized_paths_are_normal, parts_are_well_formed,
};
use crate::text::same_text;

verus! {

/// Where a first-party plugin is installed.
pub struct FirstPartyPluginRoot {
    pub plugin_id: String,
    pub plugin_root: LexicalPath,
}

/// A skill that was loaded.
pub struct SkillMetadata {
    pub name: String,
    /// The plugin that the skill came with.
    pub plugin_id: Option<String>,
    pub path_to_skills_md: LexicalPath,
    /// Whether the skill is enabled.
    pub enabled: bool,
}

/// The skills that were loaded.
pub struct SkillLoadOutcome {
    pub skills: Vec<SkillMetadata>,
}

/// The skill that a script belongs to.
pub struct PluginScriptSkill {
    pub skill_name: String,
    pub skill_path: LexicalPath,
}

/// A script of a plugin.
pub struct ResolvedPluginScript {
    pub plugin_id: String,
    /// The path of the script below the plugin's root, with slashes.
    pub script_path: String,
    pub skill: Option<PluginScriptSkill>,
}

/// Canonical paths, `None` where there is none.
pub struct CanonicalPaths {
    /// The script.
    pub script: LexicalPath,
    /// The root of each plugin, in the order of the plugins.
    pub plugin_roots: Vec<Option<LexicalPath>>,
    /// The directory of scripts of each skill, in the order of the skills.
    pub scripts_dirs: Vec<Option<LexicalPath>>,
}

/// What a [`PluginScriptSkill`] holds.
pub struct ScriptSkillView {
    pub skill_name: Seq<char>,
    pub skill_path: PathView,
}

/// What a [`ResolvedPluginScript`] holds.
pub struct ResolvedView {
    pub plugin_id: Seq<char>,
    pub script_path: Seq<char>,
    pub skill: Option<ScriptSkillView>,
}

/// What a [`SkillMetadata`] holds.
pub struct SkillView {
    pub name: Seq<char>,
    pub plugin_id: Option<Seq<char>>,
    pub path_to_skills_md: PathView,
    pub enabled: bool,
}

impl DeepView for PluginScriptSkill {
    type V = ScriptSkillView;

    open spec fn deep_view(&self) -> ScriptSkillView {
        ScriptSkillView { skill_name: self.skill_name@, skill_path: self.skill_path.deep_view() }
    }
}

impl DeepView for ResolvedPluginScript {
    type V = ResolvedView;

    open spec fn deep_view(&self) -> ResolvedView {
        ResolvedView {
            plugin_id: self.plugin_id@,
            script_path: self.script_path@,
            skill: self.skill.deep_view(),
        }
    }
}

impl DeepView for SkillMetadata {
    type V = SkillView;

    open spec fn deep_view(&self) -> SkillView {
        SkillView {
            name: self.name@,
            plugin_id: self.plugin_id.deep_view(),
            path_to_skills_md: self.path_to_skills_md.deep_view(),
            enabled: self.enabled,
        }
    }
}

impl Clone for PluginScriptSkill {
    fn clone(&self) -> (skill: Self)
        ensures
            skill.deep_view() == self.deep_view(),
    {
        PluginScriptSkill {
            skill_name: self.skill_name.clone(),
            skill_path: self.skill_path.clone(),
        }
    }
}

/// The directory next to a skill's description that holds its scripts.
pub open spec fn scripts_dir_path(path_to_skills_md: PathView) -> Option<PathView> {
    match parent_path(path_to_skills_md) {
        Some(dir) => Some(
            dir.push(
                ComponentView::Normal(
                    NameView {
                        bytes: vstd::utf8::encode_utf8("scripts"@),
                        text: "scripts"@,
                    },
                ),
            ),
        ),
        None => None,
    }
}

/// The directory that holds the scripts of `skill`.
pub fn scripts_dir(skill: &SkillMetadata) -> (dir: Option<LexicalPath>)
    ensures
        dir.deep_view() == scripts_dir_path(skill.path_to_skills_md.deep_view()),
        dir matches Some(dir) ==> is_well_formed(skill.path_to_skills_md.deep_view())
            ==> is_well_formed(dir.deep_view()),
{
    proof {
        reveal_strlit("scripts");
        reveal_strlit(".");
        reveal_strlit("..");
    }
    match skill.path_to_skills_md.parent() {
        Some(parent) => {
            let mut components = parent.components;
            let ghost before = components.deep_view();
            let name = "scripts";
            let component = PathComponent::Normal(
                PathName { bytes: name.as_bytes_vec(), text: name.to_owned() },
            );
            components.push(component);
            assert(components.deep_view() =~= before.push(component.deep_view()));
            Some(LexicalPath { components })
        },
        None => None,
    }
}

/// The canonical path at `i` of a list.
pub open spec fn canonical_at(paths: Seq<Option<PathView>>, i: int) -> Option<PathView> {
    if 0 <= i < paths.len() {
        paths[i]
    } else {
        None
    }
}

/// The script lies at or below the path at `i` of a list.
pub open spec fn holds_script(paths: Seq<Option<PathView>>, script: PathView, i: int) -> bool {
    match canonical_at(paths, i) {
        Some(path) => is_within(script, path),
        None => false,
    }
}

/// The depth of the path at `i` of a list.
pub open spec fn depth_at(paths: Seq<Option<PathView>>, i: int) -> nat {
    match canonical_at(paths, i) {
        Some(path) => path.len(),
        None => 0,
    }
}

/// Of the first `count` plugins, the script belongs to the one at `i`: its root
/// holds the script, no root that does is deeper, and of those that are as
/// deep it is the last.
pub open spec fn is_owner(
    count: int,
    roots: Seq<Option<PathView>>,
    script: PathView,
    i: int,
) -> bool {
    &&& 0 <= i < count
    &&& holds_script(roots, script, i)
    &&& forall|j: int|
        0 <= j < count && #[trigger] holds_script(roots, script, j) ==> depth_at(roots, j)
            < depth_at(roots, i) || (depth_at(roots, j) == depth_at(roots, i) && j <= i)
}

/// The plugin that the script belongs to, of the first `count` ones.
pub open spec fn owner(
    count: int,
    roots: Seq<Option<PathView>>,
    script: PathView,
) -> Option<int> {
    if exists|i: int| is_owner(count, roots, script, i) {
        Some(choose|i: int| is_owner(count, roots, script, i))
    } else {
        None
    }
}

/// A script belongs to at most one plugin, and to one as soon as the root of a
/// plugin holds it.
pub proof fn owner_is_the_one(
    count: int,
    roots: Seq<Option<PathView>>,
    script: PathView,
    i: int,
)
    ensures
        is_owner(count, roots, script, i) ==> owner(count, roots, script) == Some(i),
        0 <= i < count && holds_script(roots, script, i) ==> owner(count, roots, script) is Some,
{
    if is_owner(count, roots, script, i) {
        let chosen = choose|k: int| is_owner(count, roots, script, k);
        assert(is_owner(count, roots, script, chosen));
        assert(holds_script(roots, script, i));
        assert(holds_script(roots, script, chosen));
    }
    if 0 <= i < count && holds_script(roots, script, i) {
        lemma_owner_exists(count, roots, script, i);
    }
}

proof fn lemma_owner_exists(
    count: int,
    roots: Seq<Option<PathView>>,
    script: PathView,
    i: int,
)
    requires
        0 <= i < count,
        holds_script(roots, script, i),
    ensures
        exists|k: int| is_owner(count, roots, script, k),
    decreases count,
{
    let last = count - 1;
    if exists|k: int| 0 <= k < last && holds_script(roots, script, k) {
        let k = choose|k: int| 0 <= k < last && holds_script(roots, script, k);
        lemma_owner_exists(last, roots, script, k);
        let best = choose|k: int| is_owner(last, roots, script, k);
        if holds_script(roots, script, last) && depth_at(roots, last) >= depth_at(roots, best) {
            assert(is_owner(count, roots, script, last));
        } else {
            assert(is_owner(count, roots, script, best));
        }
    } else {
        assert(i == last);
        assert(is_owner(count, roots, script, last));
    }
}

/// The skill at `i` is the plugin's, is enabled, and holds the script in its
/// directory of scripts.
pub open spec fn is_skill_of(
    skills: Seq<SkillView>,
    scripts_dirs: Seq<Option<PathView>>,
    plugin_id: Seq<char>,
    script: PathView,
    i: int,
) -> bool {
    skills[i].plugin_id == Some(plugin_id) && skills[i].enabled && holds_script(
        scripts_dirs,
        script,
        i,
    )
}

/// The first skill from `i` on that the script belongs to.
pub open spec fn skill_from(
    skills: Seq<SkillView>,
    scripts_dirs: Seq<Option<PathView>>,
    plugin_id: Seq<char>,
    script: PathView,
    i: int,
) -> Option<ScriptSkillView>
    decreases skills.len() - i,
{
    if i < 0 || i >= skills.len() {
        None
    } else if is_skill_of(skills, scripts_dirs, plugin_id, script, i) {
        Some(
            ScriptSkillView {
                skill_name: skills[i].name,
                skill_path: skills[i].path_to_skills_md,
            },
        )
    } else {
        skill_from(skills, scripts_dirs, plugin_id, script, i + 1)
    }
}

/// The plugin script that a script is: it lies strictly below the root of the
/// plugin that it belongs to, and is named by its path from there.
pub open spec fn resolved_script(
    plugin_ids: Seq<Seq<char>>,
    roots: Seq<Option<PathView>>,
    skills: Seq<SkillView>,
    scripts_dirs: Seq<Option<PathView>>,
    script: PathView,
) -> Option<ResolvedView> {
    match owner(plugin_ids.len() as int, roots, script) {
        Some(i) if depth_at(roots, i) < script.len() => Some(
            ResolvedView {
                plugin_id: plugin_ids[i],
                script_path: slash_joined(
                    normal_texts(script.skip(depth_at(roots, i) as int)),
                ),
                skill: skill_from(skills, scripts_dirs, plugin_ids[i], script, 0),
            },
        ),
        _ => None,
    }
}

/// The ids of the plugins.
pub open spec fn plugin_ids(roots: Seq<FirstPartyPluginRoot>) -> Seq<Seq<char>> {
    roots.map_values(|root: FirstPartyPluginRoot| root.plugin_id@)
}

/// Whether the script lies at or below the path at `i` of the list.
fn lies_at(paths: &Vec<Option<LexicalPath>>, script: &LexicalPath, i: usize) -> (lies: bool)
    ensures
        lies == holds_script(paths.deep_view(), script.deep_view(), i as int),
{
    if i < paths.len() {
        assert(paths.deep_view()[i as int] == paths@[i as int].deep_view());
        match &paths[i] {
            Some(path) => script.is_within(path),
            None => false,
        }
    } else {
        false
    }
}

/// The depth of the path at `i` of the list.
fn depth(paths: &Vec<Option<LexicalPath>>, i: usize) -> (depth: usize)
    ensures
        depth == depth_at(paths.deep_view(), i as int),
{
    if i < paths.len() {
        assert(paths.deep_view()[i as int] == paths@[i as int].deep_view());
        match &paths[i] {
            Some(path) => path.components.len(),
            None => 0,
        }
    } else {
        0
    }
}

/// The plugin that the script belongs to, of the first `count` ones.
fn find_owner(count: usize, paths: &CanonicalPaths) -> (found: Option<usize>)
    ensures
        match found {
            Some(i) => is_owner(
                count as int,
                paths.plugin_roots.deep_view(),
                paths.script.deep_view(),
                i as int,
            ),
            None => owner(
                count as int,
                paths.plugin_roots.deep_view(),
                paths.script.deep_view(),
            ) is None,
        },
{
    let ghost roots = paths.plugin_roots.deep_view();
    let ghost script = paths.script.deep_view();
    let mut best: Option<usize> = None;
    let mut i: usize = 0;
    while i < count
        invariant
            i <= count,
            roots == paths.plugin_roots.deep_view(),
            script == paths.script.deep_view(),
            match best {
                Some(b) => is_owner(i as int, roots, script, b as int),
                None => forall|j: int| 0 <= j < i ==> !#[trigger] holds_script(roots, script, j),
            },
        decreases count - i,
    {
        if lies_at(&paths.plugin_roots, &paths.script, i) {
            best = match best {
                Some(b) => {
                    if depth(&paths.plugin_roots, i) >= depth(&paths.plugin_roots, b) {
                        Some(i)
                    } else {
                        Some(b)
                    }
                },
                None => Some(i),
            };
        }
        i += 1;
    }
    best
}

/// The first skill of the plugin `plugin_id` that the script belongs to.
pub fn skill_for_script(
    skills_outcome: &SkillLoadOutcome,
    plugin_id: &str,
    paths: &CanonicalPaths,
) -> (skill: Option<PluginScriptSkill>)
    ensures
        skill.deep_view() == skill_from(
            skills_outcome.skills.deep_view(),
            paths.scripts_dirs.deep_view(),
            plugin_id@,
            paths.script.deep_view(),
            0,
        ),
{
    let ghost skills = skills_outcome.skills.deep_view();
    let ghost dirs = paths.scripts_dirs.deep_view();
    let ghost script = paths.script.deep_view();
    let mut i: usize = 0;
    while i < skills_outcome.skills.len()
        invariant
            i <= skills_outcome.skills@.len(),
            skills == skills_outcome.skills.deep_view(),
            dirs == paths.scripts_dirs.deep_view(),
            script == paths.script.deep_view(),
            skill_from(skills, dirs, plugin_id@, script, 0) == skill_from(
                skills,
                dirs,
                plugin_id@,
                script,
                i as int,
            ),
        decreases skills_outcome.skills@.len() - i,
    {
        let skill = &skills_outcome.skills[i];
        assert(skills[i as int] == skill.deep_view());
        let of_plugin = match &skill.plugin_id {
            Some(id) => same_text(id.as_str(), plugin_id),
            None => false,
        };
        if of_plugin && skill.enabled && lies_at(&paths.scripts_dirs, &paths.script, i) {
            return Some(
                PluginScriptSkill {
                    skill_name: skill.name.clone(),
                    skill_path: skill.path_to_skills_md.clone(),
                },
            );
        }
        i += 1;
    }
    None
}

/// The plugin script that the script of `paths` is, if it is one.
pub fn resolve_plugin_script(
    plugin_roots: &Vec<FirstPartyPluginRoot>,
    skills_outcome: &SkillLoadOutcome,
    paths: &CanonicalPaths,
) -> (resolved: Option<ResolvedPluginScript>)
    ensures
        resolved.deep_view() == resolved_script(
            plugin_ids(plugin_roots@),
            paths.plugin_roots.deep_view(),
            skills_outcome.skills.deep_view(),
            paths.scripts_dirs.deep_view(),
            paths.script.deep_view(),
        ),
{
    let ghost ids = plugin_ids(plugin_roots@);
    let ghost roots = paths.plugin_roots.deep_view();
    let ghost script = paths.script.deep_view();
    let found = match find_owner(plugin_roots.len(), paths) {
        Some(i) => i,
        None => {
            return None;
        },
    };
    proof {
        owner_is_the_one(ids.len() as int, roots, script, found as int);
        assert(found < roots.len());
        assert(roots[found as int] == paths.plugin_roots@[found as int].deep_view());
        assert(ids[found as int] == plugin_roots@[found as int].plugin_id@);
    }
    let relative = match &paths.plugin_roots[found] {
        Some(plugin_root) => match paths.script.strip_prefix(plugin_root) {
            Some(relative) => relative,
            None => {
                return None;
            },
        },
        None => {
            return None;
        },
    };
    if relative.components.len() == 0 {
        return None;
    }
    let plugin_id = &plugin_roots[found].plugin_id;
    Some(
        ResolvedPluginScript {
            plugin_id: plugin_id.clone(),
            script_path: normalized_relative_path(&relative),
            skill: skill_for_script(skills_outcome, plugin_id.as_str(), paths),
        },
    )
}

/// A script that no plugin root holds is no plugin script.
pub proof fn outside_scripts_are_not_resolved(
    plugin_ids: Seq<Seq<char>>,
    roots: Seq<Option<PathView>>,
    skills: Seq<SkillView>,
    scripts_dirs: Seq<Option<PathView>>,
    script: PathView,
)
    requires
        forall|i: int| 0 <= i < plugin_ids.len() ==> !#[trigger] holds_script(roots, script, i),
    ensures
        resolved_script(plugin_ids, roots, skills, scripts_dirs, script) is None,
{
    let count = plugin_ids.len() as int;
    if exists|i: int| is_owner(count, roots, script, i) {
        let i = choose|i: int| is_owner(count, roots, script, i);
        assert(holds_script(roots, script, i));
    }
}

/// A plugin script lies strictly below the root of the plugin that it is
/// attributed to.
pub proof fn resolved_scripts_lie_in_their_plugin(
    plugin_ids: Seq<Seq<char>>,
    roots: Seq<Option<PathView>>,
    skills: Seq<SkillView>,
    scripts_dirs: Seq<Option<PathView>>,
    script: PathView,
)
    ensures
        resolved_script(plugin_ids, roots, skills, scripts_dirs, script) matches Some(resolved)
            ==> exists|i: int|
            0 <= i < plugin_ids.len() && plugin_ids[i] == resolved.plugin_id && #[trigger]
                holds_script(roots, script, i) && depth_at(roots, i) < script.len(),
{
    let count = plugin_ids.len() as int;
    if exists|i: int| is_owner(count, roots, script, i) {
        let i = choose|i: int| is_owner(count, roots, script, i);
        assert(holds_script(roots, script, i));
    }
}

/// A skill that a plugin script is attributed to is enabled, came with the
/// plugin, and holds the script in its directory of scripts.
pub proof fn resolved_skills_are_the_plugins(
    skills: Seq<SkillView>,
    scripts_dirs: Seq<Option<PathView>>,
    plugin_id: Seq<char>,
    script: PathView,
    from: int,
)
    requires
        0 <= from,
    ensures
        skill_from(skills, scripts_dirs, plugin_id, script, from) matches Some(skill)
            ==> exists|i: int|
            from <= i < skills.len() && #[trigger] is_skill_of(
                skills,
                scripts_dirs,
                plugin_id,
                script,
                i,
            ) && skill.skill_name == skills[i].name && skill.skill_path
                == skills[i].path_to_skills_md,
    decreases skills.len() - from,
{
    if from < skills.len() && !is_skill_of(skills, scripts_dirs, plugin_id, script, from) {
        resolved_skills_are_the_plugins(skills, scripts_dirs, plugin_id, script, from + 1);
    }
}

/// The reported path of a script tells nothing of where its plugin is
/// installed: two scripts of one plugin that lie on the same path below its root
/// are reported alike, wherever that root is, and whatever other plugins and
/// skills there are.
pub proof fn reported_path_hides_the_root(
    plugin_ids: Seq<Seq<char>>,
    i: int,
    here: (Seq<Option<PathView>>, Seq<SkillView>, Seq<Option<PathView>>, PathView),
    there: (Seq<Option<PathView>>, Seq<SkillView>, Seq<Option<PathView>>, PathView),
)
    requires
        owner(plugin_ids.len() as int, here.0, here.3) == Some(i),
        owner(plugin_ids.len() as int, there.0, there.3) == Some(i),
        depth_at(here.0, i) < here.3.len(),
        depth_at(there.0, i) < there.3.len(),
        here.3.skip(depth_at(here.0, i) as int) == there.3.skip(depth_at(there.0, i) as int),
    ensures
        ({
            let first = resolved_script(plugin_ids, here.0, here.1, here.2, here.3);
            let second = resolved_script(plugin_ids, there.0, there.1, there.2, there.3);
            &&& first is Some
            &&& second is Some
            &&& first->0.plugin_id == second->0.plugin_id
            &&& first->0.script_path == second->0.script_path
        }),
{
}

/// The reported path of a script is normal, whatever plugin it is of.
pub proof fn reported_paths_are_normal(
    plugin_ids: Seq<Seq<char>>,
    roots: Seq<Option<PathView>>,
    skills: Seq<SkillView>,
    scripts_dirs: Seq<Option<PathView>>,
    script: PathView,
)
    requires
        is_well_formed(script),
    ensures
        resolved_script(plugin_ids, roots, skills, scripts_dirs, script) matches Some(resolved)
            ==> is_normal(resolved.script_path),
{
    if let Some(i) = owner(plugin_ids.len() as int, roots, script) {
        if depth_at(roots, i) < script.len() {
            let from = depth_at(roots, i) as int;
            parts_are_well_formed(script, from, script.len() as int);
            normalized_paths_are_normal(script.skip(from));
        }
    }
}

/// The script of the one plugin there is is resolved, wherever the plugin is
/// installed.
pub proof fn scripts_of_the_one_plugin_are_resolved(
    plugin_id: Seq<char>,
    root: PathView,
    below: PathView,
)
    requires
        below.len() > 0,
    ensures
        resolved_script(
            seq![plugin_id],
            seq![Some(root)],
            Seq::empty(),
            Seq::empty(),
            root + below,
        ) == Some(
            ResolvedView {
                plugin_id,
                script_path: slash_joined(normal_texts(below)),
                skill: None,
            },
        ),
{
    let roots = seq![Some(root)];
    let script = root + below;
    assert(is_within(script, root));
    assert(holds_script(roots, script, 0));
    assert(is_owner(1, roots, script, 0));
    owner_is_the_one(1, roots, script, 0);
    assert(script.skip(root.len() as int) =~= below);
}

} // verus!
