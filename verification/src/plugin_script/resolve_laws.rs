//! What holds of every script that is attributed to a plugin, said of the paths
//! alone.

use vstd::prelude::*;
use vstd::utf8::encode_utf8;

use crate::plugin_script::path::{
    is_within, normal_texts, parent_path, same_component, slash_joined, ComponentView, NameView,
    PathView,
};
use crate::plugin_script::resolve::{
    canonical_at, depth_at, holds_script, is_owner, is_skill_of, outside_scripts_are_not_resolved,
    owner, owner_is_the_one, plugin_ids, resolved_script, scripts_dir_path, skill_from,
    FirstPartyPluginRoot, ScriptSkillView, SkillView,
};

verus! {

/// By what components are told apart: what they are, and the bytes of their
/// names.
pub open spec fn component_key(component: ComponentView) -> (int, Seq<u8>) {
    match component {
        ComponentView::Prefix(name) => (0, name.bytes),
        ComponentView::RootDir => (1, Seq::empty()),
        ComponentView::CurDir => (2, Seq::empty()),
        ComponentView::ParentDir => (3, Seq::empty()),
        ComponentView::Normal(name) => (4, name.bytes),
    }
}

/// By what paths are told apart.
pub open spec fn path_key(path: PathView) -> Seq<(int, Seq<u8>)> {
    path.map_values(|component: ComponentView| component_key(component))
}

/// `path` starts with all of `dir`.
pub open spec fn lies_in(path: PathView, dir: PathView) -> bool {
    dir.len() <= path.len() && path_key(path.take(dir.len() as int)) == path_key(dir)
}

/// A path lies at or below another exactly where it starts with all of it.
pub proof fn within_means_starting_with(path: PathView, dir: PathView)
    ensures
        is_within(path, dir) <==> lies_in(path, dir),
        is_within(dir + path, dir),
{
    assert forall|k: int| 0 <= k < dir.len() implies same_component(
        #[trigger] (dir + path)[k],
        dir[k],
    ) by {}
    if dir.len() <= path.len() {
        let start = path.take(dir.len() as int);
        if is_within(path, dir) {
            assert forall|k: int| 0 <= k < dir.len() implies path_key(start)[k] == path_key(
                dir,
            )[k] by {
                assert(same_component(path[k], dir[k]));
            }
            assert(path_key(start) =~= path_key(dir));
        }
        if lies_in(path, dir) {
            assert forall|k: int| 0 <= k < dir.len() implies same_component(
                #[trigger] path[k],
                dir[k],
            ) by {
                assert(path_key(start)[k] == path_key(dir)[k]);
            }
        }
    }
}

/// The names of the normal components of `path`, from the first to the last.
pub open spec fn names_of(path: PathView) -> Seq<Seq<char>>
    decreases path.len(),
{
    if path.len() == 0 {
        Seq::empty()
    } else {
        let rest = names_of(path.drop_first());
        match path[0] {
            ComponentView::Normal(name) => seq![name.text] + rest,
            _ => rest,
        }
    }
}

/// The first of `parts`, then each other one behind a slash.
pub open spec fn with_slashes(parts: Seq<Seq<char>>) -> Seq<char>
    decreases parts.len(),
{
    if parts.len() == 0 {
        Seq::empty()
    } else if parts.len() == 1 {
        parts[0]
    } else {
        parts[0] + seq!['/'] + with_slashes(parts.drop_first())
    }
}

proof fn lemma_names_from_both_ends(path: PathView)
    ensures
        normal_texts(path) == names_of(path),
    decreases path.len(),
{
    if path.len() > 0 {
        let front = path.drop_last();
        lemma_names_from_both_ends(front);
        lemma_names_append(front, seq![path.last()]);
        assert(front + seq![path.last()] =~= path);
        let one = seq![path.last()];
        assert(one.drop_first() =~= Seq::empty());
        assert(names_of(one.drop_first()) =~= Seq::empty());
        if let ComponentView::Normal(name) = path.last() {
            assert(names_of(one) =~= seq![name.text]);
            assert(normal_texts(front).push(name.text) =~= normal_texts(front) + seq![name.text]);
        } else {
            assert(names_of(one) =~= Seq::empty());
            assert(normal_texts(front) + Seq::<Seq<char>>::empty() =~= normal_texts(front));
        }
    } else {
        assert(normal_texts(path) =~= names_of(path));
    }
}

proof fn lemma_names_append(first: PathView, second: PathView)
    ensures
        names_of(first + second) == names_of(first) + names_of(second),
    decreases first.len(),
{
    if first.len() == 0 {
        assert(first + second =~= second);
        assert(names_of(first) + names_of(second) =~= names_of(second));
    } else {
        lemma_names_append(first.drop_first(), second);
        assert((first + second).drop_first() =~= first.drop_first() + second);
        assert(names_of(first + second) =~= names_of(first) + names_of(second));
    }
}

proof fn lemma_slashes_append(parts: Seq<Seq<char>>, last: Seq<char>)
    requires
        parts.len() > 0,
    ensures
        with_slashes(parts.push(last)) == with_slashes(parts) + seq!['/'] + last,
    decreases parts.len(),
{
    let more = parts.push(last);
    if parts.len() == 1 {
        assert(more.drop_first() =~= seq![last]);
        assert(with_slashes(seq![last]) == last);
    } else {
        lemma_slashes_append(parts.drop_first(), last);
        assert(more.drop_first() =~= parts.drop_first().push(last));
        assert(with_slashes(more) =~= with_slashes(parts) + seq!['/'] + last);
    }
}

proof fn lemma_slashes_from_both_ends(parts: Seq<Seq<char>>)
    ensures
        slash_joined(parts) == with_slashes(parts),
    decreases parts.len(),
{
    reveal_strlit("/");
    if parts.len() > 1 {
        let front = parts.drop_last();
        lemma_slashes_from_both_ends(front);
        lemma_slashes_append(front, parts.last());
        assert(front.push(parts.last()) =~= parts);
        assert("/"@ =~= seq!['/']);
    } else {
        assert(slash_joined(parts) =~= with_slashes(parts));
    }
}

/// The readable form of a path is the names of its normal components, with a
/// slash between each two.
pub proof fn readable_form_joins_the_names(path: PathView)
    ensures
        slash_joined(normal_texts(path)) == with_slashes(names_of(path)),
{
    lemma_names_from_both_ends(path);
    lemma_slashes_from_both_ends(normal_texts(path));
}

/// The script starts with all of the root at `i`.
pub open spec fn root_holds(roots: Seq<Option<PathView>>, script: PathView, i: int) -> bool {
    0 <= i < roots.len() && roots[i] is Some && lies_in(script, roots[i]->0)
}

/// Of the plugins that hold the script, the one at `i` has the deepest root, and
/// is the last of those that are as deep.
pub open spec fn root_is_deepest(
    count: int,
    roots: Seq<Option<PathView>>,
    script: PathView,
    i: int,
) -> bool {
    &&& 0 <= i < count
    &&& root_holds(roots, script, i)
    &&& forall|j: int|
        0 <= j < count && #[trigger] root_holds(roots, script, j) ==> roots[j]->0.len()
            < roots[i]->0.len() || (roots[j]->0.len() == roots[i]->0.len() && j <= i)
}

proof fn lemma_root_holds(roots: Seq<Option<PathView>>, script: PathView, i: int)
    ensures
        root_holds(roots, script, i) == holds_script(roots, script, i),
        root_holds(roots, script, i) ==> depth_at(roots, i) == roots[i]->0.len(),
{
    if let Some(root) = canonical_at(roots, i) {
        within_means_starting_with(script, root);
    }
}

proof fn lemma_deepest_is_owner(
    count: int,
    roots: Seq<Option<PathView>>,
    script: PathView,
    i: int,
)
    requires
        root_is_deepest(count, roots, script, i),
    ensures
        owner(count, roots, script) == Some(i),
{
    lemma_root_holds(roots, script, i);
    assert forall|j: int| 0 <= j < count && #[trigger] holds_script(
        roots,
        script,
        j,
    ) implies depth_at(roots, j) < depth_at(roots, i) || (depth_at(roots, j) == depth_at(roots, i)
        && j <= i) by {
        lemma_root_holds(roots, script, j);
        assert(root_holds(roots, script, j));
    }
    assert(is_owner(count, roots, script, i));
    owner_is_the_one(count, roots, script, i);
}

/// A script is attributed to the plugin with the deepest root that holds it,
/// whichever that is of how many, and whatever skills there are, and is named by
/// the names of its components below that root with slashes between them. A root
/// itself is no script.
pub proof fn deepest_root_owns_the_script(
    ids: Seq<Seq<char>>,
    roots: Seq<Option<PathView>>,
    skills: Seq<SkillView>,
    scripts_dirs: Seq<Option<PathView>>,
    script: PathView,
    i: int,
)
    requires
        root_is_deepest(ids.len() as int, roots, script, i),
    ensures
        ({
            let resolved = resolved_script(ids, roots, skills, scripts_dirs, script);
            let depth = roots[i]->0.len();
            &&& resolved is Some <==> depth < script.len()
            &&& resolved matches Some(resolved) ==> {
                &&& resolved.plugin_id == ids[i]
                &&& resolved.script_path == with_slashes(names_of(script.skip(depth as int)))
            }
        }),
{
    lemma_deepest_is_owner(ids.len() as int, roots, script, i);
    lemma_root_holds(roots, script, i);
    readable_form_joins_the_names(script.skip(roots[i]->0.len() as int));
}

/// For any number of plugins and any skills: a script that is the root of the
/// plugin that owns it, followed by what lies below, is reported as the names of
/// what lies below with slashes between them, whichever plugin that is.
pub proof fn reported_path_is_what_lies_below(
    ids: Seq<Seq<char>>,
    roots: Seq<Option<PathView>>,
    skills: Seq<SkillView>,
    scripts_dirs: Seq<Option<PathView>>,
    root: PathView,
    below: PathView,
    i: int,
)
    requires
        0 <= i < roots.len(),
        roots[i] == Some(root),
        below.len() > 0,
        root_is_deepest(ids.len() as int, roots, root + below, i),
    ensures
        ({
            let resolved = resolved_script(ids, roots, skills, scripts_dirs, root + below);
            &&& resolved is Some
            &&& resolved->0.plugin_id == ids[i]
            &&& resolved->0.script_path == with_slashes(names_of(below))
        }),
{
    deepest_root_owns_the_script(ids, roots, skills, scripts_dirs, root + below, i);
    assert((root + below).skip(root.len() as int) =~= below);
}

/// A script that no root holds is not attributed.
pub proof fn no_root_no_script(
    ids: Seq<Seq<char>>,
    roots: Seq<Option<PathView>>,
    skills: Seq<SkillView>,
    scripts_dirs: Seq<Option<PathView>>,
    script: PathView,
)
    requires
        forall|i: int| 0 <= i < ids.len() ==> !#[trigger] root_holds(roots, script, i),
    ensures
        resolved_script(ids, roots, skills, scripts_dirs, script) is None,
{
    assert forall|i: int| 0 <= i < ids.len() implies !#[trigger] holds_script(
        roots,
        script,
        i,
    ) by {
        lemma_root_holds(roots, script, i);
        assert(!root_holds(roots, script, i));
    }
    outside_scripts_are_not_resolved(ids, roots, skills, scripts_dirs, script);
}

/// The skill at `k` came with the plugin, is enabled, and the script lies in its
/// directory of scripts.
pub open spec fn skill_fits(
    skills: Seq<SkillView>,
    scripts_dirs: Seq<Option<PathView>>,
    plugin_id: Seq<char>,
    script: PathView,
    k: int,
) -> bool {
    &&& 0 <= k < skills.len()
    &&& skills[k].plugin_id is Some
    &&& skills[k].plugin_id->0 == plugin_id
    &&& skills[k].enabled
    &&& root_holds(scripts_dirs, script, k)
}

proof fn lemma_first_skill(
    skills: Seq<SkillView>,
    scripts_dirs: Seq<Option<PathView>>,
    plugin_id: Seq<char>,
    script: PathView,
    from: int,
)
    requires
        0 <= from <= skills.len(),
    ensures
        ({
            let found = skill_from(skills, scripts_dirs, plugin_id, script, from);
            &&& (forall|k: int|
                from <= k < skills.len() ==> !#[trigger] skill_fits(
                    skills,
                    scripts_dirs,
                    plugin_id,
                    script,
                    k,
                )) ==> found is None
            &&& forall|k: int|
                from <= k < skills.len() && #[trigger] skill_fits(
                    skills,
                    scripts_dirs,
                    plugin_id,
                    script,
                    k,
                ) && (forall|m: int|
                    from <= m < k ==> !#[trigger] skill_fits(
                        skills,
                        scripts_dirs,
                        plugin_id,
                        script,
                        m,
                    )) ==> {
                    &&& found is Some
                    &&& found->0.skill_name == skills[k].name
                    &&& found->0.skill_path == skills[k].path_to_skills_md
                }
        }),
    decreases skills.len() - from,
{
    if from < skills.len() {
        lemma_root_holds(scripts_dirs, script, from);
        assert(skill_fits(skills, scripts_dirs, plugin_id, script, from) == is_skill_of(
            skills,
            scripts_dirs,
            plugin_id,
            script,
            from,
        ));
        lemma_first_skill(skills, scripts_dirs, plugin_id, script, from + 1);
    }
}

/// The skill that a script is attributed to is the first of the plugin's own,
/// enabled skills in whose directory of scripts it lies, with its name and the
/// path of its description.
pub proof fn first_fitting_skill_is_reported(
    skills: Seq<SkillView>,
    scripts_dirs: Seq<Option<PathView>>,
    plugin_id: Seq<char>,
    script: PathView,
    k: int,
)
    requires
        skill_fits(skills, scripts_dirs, plugin_id, script, k),
        forall|m: int|
            0 <= m < k ==> !#[trigger] skill_fits(skills, scripts_dirs, plugin_id, script, m),
    ensures
        skill_from(skills, scripts_dirs, plugin_id, script, 0) == Some(
            ScriptSkillView {
                skill_name: skills[k].name,
                skill_path: skills[k].path_to_skills_md,
            },
        ),
{
    lemma_first_skill(skills, scripts_dirs, plugin_id, script, 0);
}

/// A script that lies in the scripts of no such skill has none.
pub proof fn without_fitting_skill(
    skills: Seq<SkillView>,
    scripts_dirs: Seq<Option<PathView>>,
    plugin_id: Seq<char>,
    script: PathView,
)
    requires
        forall|k: int|
            0 <= k < skills.len() ==> !#[trigger] skill_fits(
                skills,
                scripts_dirs,
                plugin_id,
                script,
                k,
            ),
    ensures
        skill_from(skills, scripts_dirs, plugin_id, script, 0) is None,
{
    lemma_first_skill(skills, scripts_dirs, plugin_id, script, 0);
}

/// What a plugin script is attributed to is the first fitting skill of the
/// plugin that it is attributed to, and to none where none fits.
pub proof fn resolved_skill_is_of_the_resolved_plugin(
    ids: Seq<Seq<char>>,
    roots: Seq<Option<PathView>>,
    skills: Seq<SkillView>,
    scripts_dirs: Seq<Option<PathView>>,
    script: PathView,
    k: int,
)
    requires
        resolved_script(ids, roots, skills, scripts_dirs, script) is Some,
    ensures
        ({
            let resolved = resolved_script(ids, roots, skills, scripts_dirs, script)->0;
            let id = resolved.plugin_id;
            &&& skill_fits(skills, scripts_dirs, id, script, k) && (forall|m: int|
                0 <= m < k ==> !#[trigger] skill_fits(skills, scripts_dirs, id, script, m)) ==> {
                &&& resolved.skill is Some
                &&& resolved.skill->0.skill_name == skills[k].name
                &&& resolved.skill->0.skill_path == skills[k].path_to_skills_md
            }
            &&& (forall|m: int|
                0 <= m < skills.len() ==> !#[trigger] skill_fits(
                    skills,
                    scripts_dirs,
                    id,
                    script,
                    m,
                )) ==> resolved.skill is None
        }),
{
    let resolved = resolved_script(ids, roots, skills, scripts_dirs, script)->0;
    lemma_first_skill(skills, scripts_dirs, resolved.plugin_id, script, 0);
}

/// The scripts of a skill lie in the directory `scripts` next to its
/// description, whatever that is called and wherever it lies; without a place
/// for a description there is no such directory.
pub proof fn scripts_lie_next_to_the_description(dir: PathView, description: ComponentView)
    ensures
        parent_path(dir.push(description)) == if description is RootDir || description is Prefix {
            None
        } else {
            Some(dir)
        },
        scripts_dir_path(dir.push(description)) == if description is RootDir
            || description is Prefix {
            None
        } else {
            Some(
                dir.push(
                    ComponentView::Normal(
                        NameView { bytes: encode_utf8("scripts"@), text: "scripts"@ },
                    ),
                ),
            )
        },
        parent_path(Seq::empty()) is None,
        scripts_dir_path(Seq::empty()) is None,
{
    assert(dir.push(description).drop_last() =~= dir);
}

/// Plugins are told by their ids, in their order.
pub proof fn plugins_keep_their_ids(roots: Seq<FirstPartyPluginRoot>, i: int)
    ensures
        plugin_ids(roots).len() == roots.len(),
        0 <= i < roots.len() ==> plugin_ids(roots)[i] == roots[i].plugin_id@,
{
}

} // verus!
