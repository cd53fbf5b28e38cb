//! The three phases of a tick over all render targets: hot reload, cleanup,
//! render.

use crate::assets::LdtkProject;
use crate::draw::{lemma_spawns_extended_twice, spawns_extended};
use crate::render::{ClearColor, EntitySpawn, EntitySpawnView};
use crate::target::{
    cleaned, cleanup_destroys, consistent, invalidated, lemma_despawn_all_kills, marker_matches,
    mode_clear, mode_renderable, mode_roots, mode_spawns, render_pending, rendered,
    LdtkProjectBundle, LdtkProjectBundleView, LdtkProjectCfgView, LdtkRenderType,
    FULL_WORLD_RENDERED,
};
use crate::tree::{forest, under};
use std::collections::HashMap;
use vstd::prelude::*;

verus! {

broadcast use vstd::std_specs::hash::group_hash_axioms;

/// What happened to a project asset.
#[derive(Clone, Copy, Debug, PartialEq, Eq, Structural)]
pub enum AssetEvent {
    Created { handle: u64 },
    Modified { handle: u64 },
    Removed { handle: u64 },
}

/// Names a tree of the output: the target by its position in the list of
/// targets, the tree by its root in the target's arena.
#[derive(Clone, Copy, Debug, PartialEq, Eq, Structural)]
pub struct TreeOf {
    pub target: usize,
    pub root: usize,
}

/// The trees of one target with the given roots.
pub open spec fn trees_of(target: int, roots: Seq<usize>) -> Seq<TreeOf> {
    Seq::new(roots.len(), |k: int| TreeOf { target: target as usize, root: roots[k] })
}

/// The trees of the targets before number `upto`, target by target, where
/// `roots[i]` are the roots of target `i`.
pub open spec fn gathered(roots: Seq<Seq<usize>>, upto: int) -> Seq<TreeOf>
    decreases upto,
{
    if upto <= 0 {
        Seq::empty()
    } else {
        gathered(roots, upto - 1) + trees_of(upto - 1, roots[upto - 1])
    }
}

/// Whether every output of `before` whose parent links are sound is still
/// sound in `after`.
pub open spec fn outputs_stay_sound<H>(
    before: Seq<LdtkProjectBundle<H>>,
    after: Seq<LdtkProjectBundle<H>>,
) -> bool {
    &&& after.len() == before.len()
    &&& forall|i: int|
        0 <= i < before.len() && forest(before[i]@.output) ==> forest((#[trigger] after[i])@.output)
}

/// Whether one of `events` says that project `handle` was modified.
pub open spec fn modified(events: Seq<AssetEvent>, handle: u64) -> bool {
    exists|e: int| 0 <= e < events.len() && #[trigger] events[e] == (AssetEvent::Modified { handle })
}

/// A target after the hot-reload phase.
pub open spec fn reloaded<H>(
    target: LdtkProjectBundleView<H>,
    events: Seq<AssetEvent>,
) -> LdtkProjectBundleView<H> {
    if modified(events, target.ldtk_project) {
        invalidated(target)
    } else {
        target
    }
}

/// The roots of the trees that the hot-reload phase destroys for a target.
pub open spec fn reload_destroyed<H>(
    target: LdtkProjectBundleView<H>,
    events: Seq<AssetEvent>,
) -> Seq<usize> {
    if modified(events, target.ldtk_project) {
        target.roots
    } else {
        Seq::empty()
    }
}

/// The roots of the trees that the cleanup phase destroys for a target.
pub open spec fn cleanup_destroyed<H>(target: LdtkProjectBundleView<H>) -> Seq<usize> {
    if cleanup_destroys(target) {
        target.roots
    } else {
        Seq::empty()
    }
}

fn append_trees(list: &mut Vec<TreeOf>, target: usize, roots: &Vec<usize>)
    ensures
        final(list)@ == old(list)@ + trees_of(target as int, roots@),
{
    let mut k: usize = 0;
    assert(list@ =~= old(list)@ + trees_of(target as int, roots@).take(0));
    while k < roots.len()
        invariant
            k <= roots@.len(),
            list@ == old(list)@ + trees_of(target as int, roots@).take(k as int),
        decreases roots@.len() - k,
    {
        list.push(TreeOf { target, root: roots[k] });
        assert(list@ =~= old(list)@ + trees_of(target as int, roots@).take(k + 1));
        k += 1;
    }
    assert(trees_of(target as int, roots@).take(k as int) =~= trees_of(target as int, roots@));
}

fn is_modified(events: &Vec<AssetEvent>, handle: u64) -> (yes: bool)
    ensures
        yes == modified(events@, handle),
{
    let mut e: usize = 0;
    while e < events.len()
        invariant
            e <= events@.len(),
            forall|d: int| 0 <= d < e ==> #[trigger] events@[d] != (AssetEvent::Modified { handle }),
        decreases events@.len() - e,
    {
        match events[e] {
            AssetEvent::Modified { handle: modified_handle } => {
                if modified_handle == handle {
                    return true;
                }
            },
            _ => {},
        }
        e += 1;
    }
    false
}

/// The hot-reload phase: every target that shows a modified project forgets
/// what was rendered, and its output is destroyed.  Returns the destroyed
/// trees.
pub fn ldtk_hot_reload<H>(events: &Vec<AssetEvent>, projects: &mut Vec<LdtkProjectBundle<H>>) -> (destroyed:
    Vec<TreeOf>)
    ensures
        final(projects)@.len() == old(projects)@.len(),
        forall|i: int|
            0 <= i < old(projects)@.len() ==> (#[trigger] final(projects)@[i])@ == reloaded(
                old(projects)@[i]@,
                events@,
            ),
        destroyed@ == gathered(
            Seq::new(
                old(projects)@.len(),
                |i: int| reload_destroyed(old(projects)@[i]@, events@),
            ),
            old(projects)@.len() as int,
        ),
        outputs_stay_sound(old(projects)@, final(projects)@),
{
    let mut destroyed: Vec<TreeOf> = Vec::new();
    let ghost roots = Seq::new(
        old(projects)@.len(),
        |i: int| reload_destroyed(old(projects)@[i]@, events@),
    );
    let n = projects.len();
    let mut i: usize = 0;
    while i < n
        invariant
            n == old(projects)@.len(),
            projects@.len() == n,
            i <= n,
            roots == Seq::new(
                old(projects)@.len(),
                |i: int| reload_destroyed(old(projects)@[i]@, events@),
            ),
            forall|k: int|
                0 <= k < i ==> (#[trigger] projects@[k])@ == reloaded(old(projects)@[k]@, events@),
            forall|k: int| i <= k < n ==> #[trigger] projects@[k] == old(projects)@[k],
            outputs_stay_sound(old(projects)@, projects@),
            destroyed@ == gathered(roots, i as int),
        decreases n - i,
    {
        if is_modified(events, projects[i].ldtk_project()) {
            let gone = projects[i].invalidate();
            append_trees(&mut destroyed, i, &gone);
        } else {
            assert(destroyed@ =~= destroyed@ + trees_of(i as int, Seq::<usize>::empty()));
        }
        i += 1;
    }
    destroyed
}

/// The cleanup phase: every target whose configuration was changed and
/// whose marker does not match its mode loses its output and its marker;
/// the change flags are cleared.  Returns the destroyed trees.
pub fn ldtk_entity_cleanup<H>(projects: &mut Vec<LdtkProjectBundle<H>>) -> (destroyed: Vec<TreeOf>)
    ensures
        final(projects)@.len() == old(projects)@.len(),
        forall|i: int|
            0 <= i < old(projects)@.len() ==> (#[trigger] final(projects)@[i])@ == cleaned(
                old(projects)@[i]@,
            ),
        destroyed@ == gathered(
            Seq::new(old(projects)@.len(), |i: int| cleanup_destroyed(old(projects)@[i]@)),
            old(projects)@.len() as int,
        ),
        outputs_stay_sound(old(projects)@, final(projects)@),
{
    let mut destroyed: Vec<TreeOf> = Vec::new();
    let ghost roots = Seq::new(
        old(projects)@.len(),
        |i: int| cleanup_destroyed(old(projects)@[i]@),
    );
    let n = projects.len();
    let mut i: usize = 0;
    while i < n
        invariant
            n == old(projects)@.len(),
            projects@.len() == n,
            i <= n,
            roots == Seq::new(
                old(projects)@.len(),
                |i: int| cleanup_destroyed(old(projects)@[i]@),
            ),
            forall|k: int| 0 <= k < i ==> (#[trigger] projects@[k])@ == cleaned(old(projects)@[k]@),
            forall|k: int| i <= k < n ==> #[trigger] projects@[k] == old(projects)@[k],
            outputs_stay_sound(old(projects)@, projects@),
            destroyed@ == gathered(roots, i as int),
        decreases n - i,
    {
        let gone = projects[i].cleanup();
        append_trees(&mut destroyed, i, &gone);
        i += 1;
    }
    destroyed
}

/// Whether the render phase can do its work for a target.
pub open spec fn drawable<H>(
    target: LdtkProjectBundleView<H>,
    assets: Map<u64, LdtkProject>,
) -> bool {
    render_pending(target, assets.contains_key(target.ldtk_project)) ==> mode_renderable(
        &assets[target.ldtk_project],
        target.cfg.render_type,
    )
}

/// A target after the render phase.
pub open spec fn drawn<H>(
    target: LdtkProjectBundleView<H>,
    assets: Map<u64, LdtkProject>,
) -> LdtkProjectBundleView<H> {
    if render_pending(target, assets.contains_key(target.ldtk_project)) {
        rendered(target, &assets[target.ldtk_project])
    } else {
        target
    }
}

/// The roots of the trees that the render phase creates for a target.
pub open spec fn created_roots<H>(
    target: LdtkProjectBundleView<H>,
    assets: Map<u64, LdtkProject>,
) -> Seq<usize> {
    if render_pending(target, assets.contains_key(target.ldtk_project)) {
        mode_roots(
            &assets[target.ldtk_project],
            target.cfg.render_type,
            target.cfg.attach_enums is Some,
            target.ldtk_project,
            target.output.len() as int,
        )
    } else {
        Seq::empty()
    }
}

/// The notifications that the render phase sends for a target.
pub open spec fn sent<H>(
    target: LdtkProjectBundleView<H>,
    assets: Map<u64, LdtkProject>,
) -> Seq<EntitySpawnView> {
    if render_pending(target, assets.contains_key(target.ldtk_project)) {
        mode_spawns(
            &assets[target.ldtk_project],
            target.cfg.render_type,
            target.cfg.attach_enums is Some,
            target.ldtk_project,
            target.output.len() as int,
        )
    } else {
        Seq::empty()
    }
}

/// The notifications that the render phase sends for the targets before
/// number `upto`, target by target.
pub open spec fn all_sent<H>(
    targets: Seq<LdtkProjectBundleView<H>>,
    assets: Map<u64, LdtkProject>,
    upto: int,
) -> Seq<EntitySpawnView>
    decreases upto,
{
    if upto <= 0 {
        Seq::empty()
    } else {
        all_sent(targets, assets, upto - 1) + sent(targets[upto - 1], assets)
    }
}

/// The clear colour after the render phase has dealt with the targets
/// before number `upto`: the one that the last drawn level set.
pub open spec fn all_cleared<H>(
    targets: Seq<LdtkProjectBundleView<H>>,
    assets: Map<u64, LdtkProject>,
    upto: int,
    clear: ClearColor,
) -> ClearColor
    decreases upto,
{
    if upto <= 0 {
        clear
    } else {
        let before = all_cleared(targets, assets, upto - 1, clear);
        let target = targets[upto - 1];
        if render_pending(target, assets.contains_key(target.ldtk_project)) {
            mode_clear(&assets[target.ldtk_project], target.cfg.render_type, before)
        } else {
            before
        }
    }
}

/// The views of a list of targets.
pub open spec fn target_views<H>(targets: Seq<LdtkProjectBundle<H>>) -> Seq<
    LdtkProjectBundleView<H>,
> {
    Seq::new(targets.len(), |i: int| targets[i]@)
}

/// The render phase: every target whose project is loaded and whose marker
/// does not record its mode as rendered gets its output drawn and its marker
/// set.  A target whose project is not loaded is passed over.  Returns the
/// created trees.
pub fn render_ldtk_projects<H>(
    projects: &mut Vec<LdtkProjectBundle<H>>,
    project_assets: &HashMap<u64, LdtkProject>,
    clear_color: &mut ClearColor,
    entity_spawner: &mut Vec<EntitySpawn>,
) -> (created: Vec<TreeOf>)
    requires
        forall|i: int|
            0 <= i < old(projects)@.len() ==> drawable(
                (#[trigger] old(projects)@[i])@,
                project_assets@,
            ),
    ensures
        final(projects)@.len() == old(projects)@.len(),
        forall|i: int|
            0 <= i < old(projects)@.len() ==> (#[trigger] final(projects)@[i])@ == drawn(
                old(projects)@[i]@,
                project_assets@,
            ),
        created@ == gathered(
            Seq::new(
                old(projects)@.len(),
                |i: int| created_roots(old(projects)@[i]@, project_assets@),
            ),
            old(projects)@.len() as int,
        ),
        *final(clear_color) == all_cleared(
            target_views(old(projects)@),
            project_assets@,
            old(projects)@.len() as int,
            *old(clear_color),
        ),
        spawns_extended(
            old(entity_spawner)@,
            final(entity_spawner)@,
            all_sent(target_views(old(projects)@), project_assets@, old(projects)@.len() as int),
        ),
        outputs_stay_sound(old(projects)@, final(projects)@),
{
    let mut created: Vec<TreeOf> = Vec::new();
    let ghost views = target_views(old(projects)@);
    let ghost roots = Seq::new(
        old(projects)@.len(),
        |i: int| created_roots(old(projects)@[i]@, project_assets@),
    );
    let n = projects.len();
    let mut i: usize = 0;
    while i < n
        invariant
            n == old(projects)@.len(),
            projects@.len() == n,
            i <= n,
            views == target_views(old(projects)@),
            roots == Seq::new(
                old(projects)@.len(),
                |i: int| created_roots(old(projects)@[i]@, project_assets@),
            ),
            forall|k: int|
                0 <= k < n ==> drawable((#[trigger] old(projects)@[k])@, project_assets@),
            forall|k: int|
                0 <= k < i ==> (#[trigger] projects@[k])@ == drawn(
                    old(projects)@[k]@,
                    project_assets@,
                ),
            forall|k: int| i <= k < n ==> #[trigger] projects@[k] == old(projects)@[k],
            outputs_stay_sound(old(projects)@, projects@),
            created@ == gathered(roots, i as int),
            *clear_color == all_cleared(views, project_assets@, i as int, *old(clear_color)),
            spawns_extended(
                old(entity_spawner)@,
                entity_spawner@,
                all_sent(views, project_assets@, i as int),
            ),
        decreases n - i,
    {
        assert(drawable(old(projects)@[i as int]@, project_assets@));
        assert(views[i as int] == old(projects)@[i as int]@);
        let handle = projects[i].ldtk_project();
        let project = project_assets.get(&handle);
        assert(project is Some == project_assets@.contains_key(handle));
        assert(project matches Some(p) ==> *p == project_assets@[handle]);
        let ghost spawns_before = entity_spawner@;
        let fresh = projects[i].render(project, clear_color, entity_spawner);
        append_trees(&mut created, i, &fresh);
        proof {
            let added = sent(views[i as int], project_assets@);
            if !render_pending(views[i as int], project is Some) {
                assert(spawns_extended(spawns_before, entity_spawner@, added));
            }
            lemma_spawns_extended_twice(
                old(entity_spawner)@,
                spawns_before,
                entity_spawner@,
                all_sent(views, project_assets@, i as int),
                added,
            );
        }
        i += 1;
    }
    created
}

/// Takes a target out of the list.  Its output is destroyed and its marker
/// reset the way a modified project does it; the targets behind it move up
/// by one.  Returns the target and the roots of the destroyed trees, or
/// `None` where there is no target number `target`.
pub fn remove_target<H>(projects: &mut Vec<LdtkProjectBundle<H>>, target: usize) -> (removed: Option<
    (LdtkProjectBundle<H>, Vec<usize>),
>)
    ensures
        removed is Some <==> target < old(projects)@.len(),
        removed is None ==> final(projects)@ == old(projects)@,
        removed matches Some((gone, destroyed)) ==> {
            &&& gone@ == invalidated(old(projects)@[target as int]@)
            &&& destroyed@ == old(projects)@[target as int]@.roots
            &&& final(projects)@ == old(projects)@.remove(target as int)
        },
{
    if target >= projects.len() {
        return None;
    }
    let mut gone = projects.remove(target);
    let destroyed = gone.invalidate();
    Some((gone, destroyed))
}

/// What a tick did to the output.
pub struct Tick {
    /// The trees destroyed by the hot-reload phase and then by the cleanup
    /// phase.
    pub destroyed: Vec<TreeOf>,
    /// The trees created by the render phase; `None` where the phase was
    /// not run because a level that is due cannot be drawn.
    pub created: Option<Vec<TreeOf>>,
}

/// A target after the hot-reload and cleanup phases.
pub open spec fn settled<H>(
    target: LdtkProjectBundleView<H>,
    events: Seq<AssetEvent>,
) -> LdtkProjectBundleView<H> {
    cleaned(reloaded(target, events))
}

/// The targets after the hot-reload and cleanup phases.
pub open spec fn all_settled<H>(
    targets: Seq<LdtkProjectBundle<H>>,
    events: Seq<AssetEvent>,
) -> Seq<LdtkProjectBundleView<H>> {
    Seq::new(targets.len(), |i: int| settled(targets[i]@, events))
}

/// Whether the render phase can do its work for every target once the
/// hot-reload and cleanup phases have run.
pub open spec fn all_drawable<H>(
    targets: Seq<LdtkProjectBundle<H>>,
    events: Seq<AssetEvent>,
    assets: Map<u64, LdtkProject>,
) -> bool {
    forall|i: int|
        0 <= i < targets.len() ==> drawable(settled((#[trigger] targets[i])@, events), assets)
}

/// Runs the phases of a tick in their fixed order.
#[derive(Clone, Copy, Debug, Default)]
pub struct LdtkPlugin;

impl LdtkPlugin {
    /// One tick: hot reload first, cleanup second, render third, so that
    /// stale output is destroyed before anything is drawn anew.  The render
    /// phase is left out, and nothing drawn, where a level that is due
    /// cannot be drawn.
    pub fn update<H>(
        &self,
        events: &Vec<AssetEvent>,
        projects: &mut Vec<LdtkProjectBundle<H>>,
        project_assets: &HashMap<u64, LdtkProject>,
        clear_color: &mut ClearColor,
        entity_spawner: &mut Vec<EntitySpawn>,
    ) -> (tick: Tick)
        ensures
            final(projects)@.len() == old(projects)@.len(),
            outputs_stay_sound(old(projects)@, final(projects)@),
            tick.destroyed@ == gathered(
                Seq::new(
                    old(projects)@.len(),
                    |i: int| reload_destroyed(old(projects)@[i]@, events@),
                ),
                old(projects)@.len() as int,
            ) + gathered(
                Seq::new(
                    old(projects)@.len(),
                    |i: int| cleanup_destroyed(reloaded(old(projects)@[i]@, events@)),
                ),
                old(projects)@.len() as int,
            ),
            tick.created is Some <==> all_drawable(old(projects)@, events@, project_assets@),
            tick.created is None ==> {
                &&& forall|i: int|
                    0 <= i < old(projects)@.len() ==> (#[trigger] final(projects)@[i])@ == settled(
                        old(projects)@[i]@,
                        events@,
                    )
                &&& *final(clear_color) == *old(clear_color)
                &&& final(entity_spawner)@ == old(entity_spawner)@
            },
            tick.created matches Some(created) ==> {
                &&& forall|i: int|
                    0 <= i < old(projects)@.len() ==> (#[trigger] final(projects)@[i])@ == drawn(
                        settled(old(projects)@[i]@, events@),
                        project_assets@,
                    )
                &&& created@ == gathered(
                    Seq::new(
                        old(projects)@.len(),
                        |i: int|
                            created_roots(settled(old(projects)@[i]@, events@), project_assets@),
                    ),
                    old(projects)@.len() as int,
                )
                &&& *final(clear_color) == all_cleared(
                    all_settled(old(projects)@, events@),
                    project_assets@,
                    old(projects)@.len() as int,
                    *old(clear_color),
                )
                &&& spawns_extended(
                    old(entity_spawner)@,
                    final(entity_spawner)@,
                    all_sent(
                        all_settled(old(projects)@, events@),
                        project_assets@,
                        old(projects)@.len() as int,
                    ),
                )
            },
    {
        let mut destroyed = ldtk_hot_reload(events, projects);
        let ghost after_reload = projects@;
        let mut swept = ldtk_entity_cleanup(projects);
        let ghost after_cleanup = projects@;
        proof {
            assert(Seq::new(after_reload.len(), |i: int| cleanup_destroyed(after_reload[i]@))
                =~= Seq::new(
                old(projects)@.len(),
                |i: int| cleanup_destroyed(reloaded(old(projects)@[i]@, events@)),
            ));
            assert(target_views(after_cleanup) =~= all_settled(old(projects)@, events@));
            assert(Seq::new(
                after_cleanup.len(),
                |i: int| created_roots(after_cleanup[i]@, project_assets@),
            ) =~= Seq::new(
                old(projects)@.len(),
                |i: int| created_roots(settled(old(projects)@[i]@, events@), project_assets@),
            ));
            assert forall|i: int| 0 <= i < after_cleanup.len() implies (#[trigger] after_cleanup[i])@
                == settled(old(projects)@[i]@, events@) by {
                assert(after_reload[i]@ == reloaded(old(projects)@[i]@, events@));
            }
        }
        destroyed.append(&mut swept);
        if !crate::ready::can_render_projects(projects, project_assets) {
            proof {
                let i = choose|i: int|
                    0 <= i < after_cleanup.len() && !drawable(
                        (#[trigger] after_cleanup[i])@,
                        project_assets@,
                    );
                assert(!drawable(settled(old(projects)@[i]@, events@), project_assets@));
            }
            return Tick { destroyed, created: None };
        }
        proof {
            assert forall|i: int| 0 <= i < old(projects)@.len() implies drawable(
                settled((#[trigger] old(projects)@[i])@, events@),
                project_assets@,
            ) by {
                assert(drawable(after_cleanup[i]@, project_assets@));
            }
        }
        let created = render_ldtk_projects(projects, project_assets, clear_color, entity_spawner);
        Tick { destroyed, created: Some(created) }
    }
}

/// A tick keeps a target consistent.
pub proof fn lemma_tick_consistent<H>(
    target: LdtkProjectBundleView<H>,
    events: Seq<AssetEvent>,
    assets: Map<u64, LdtkProject>,
)
    requires
        consistent(target),
    ensures
        consistent(settled(target, events)),
        consistent(drawn(settled(target, events), assets)),
{
}

/// A tick leaves a target alone whose marker records its mode as rendered
/// and whose project was not modified: nothing is destroyed, nothing is
/// created, nothing is sent.
pub proof fn lemma_tick_idempotent<H>(
    target: LdtkProjectBundleView<H>,
    events: Seq<AssetEvent>,
    assets: Map<u64, LdtkProject>,
)
    requires
        marker_matches(target.cfg.render_type, target.cfg.rendered),
        !modified(events, target.ldtk_project),
    ensures
        reload_destroyed(target, events) == Seq::<usize>::empty(),
        cleanup_destroyed(reloaded(target, events)) == Seq::<usize>::empty(),
        drawable(settled(target, events), assets),
        created_roots(settled(target, events), assets) == Seq::<usize>::empty(),
        sent(settled(target, events), assets) == Seq::<EntitySpawnView>::empty(),
        drawn(settled(target, events), assets) == (LdtkProjectBundleView {
            cfg: LdtkProjectCfgView { changed: false, ..target.cfg },
            ..target
        }),
{
}

/// A target whose project was modified, or whose configuration was changed
/// so that the marker no longer matches the mode, loses its output before
/// the render phase: every tree that was drawn is destroyed exactly once,
/// nothing that stood under one of their roots is live any more, and the
/// marker says that nothing is rendered.
pub proof fn lemma_stale_output_destroyed<H>(
    target: LdtkProjectBundleView<H>,
    events: Seq<AssetEvent>,
)
    requires
        modified(events, target.ldtk_project) || cleanup_destroys(target),
    ensures
        reload_destroyed(target, events) + cleanup_destroyed(reloaded(target, events))
            == target.roots,
        settled(target, events).cfg.rendered is None,
        settled(target, events).roots.len() == 0,
        settled(target, events).output.len() == target.output.len(),
        forall|k: int, i: int|
            0 <= k < target.roots.len() && #[trigger] under(
                target.output,
                target.roots[k] as int,
                i,
            ) ==> settled(target, events).output[i] is None,
{
    let after = settled(target, events);
    let gone = crate::target::despawn_all(target.output, target.roots);
    if modified(events, target.ldtk_project) {
        assert(crate::target::despawn_all(gone, Seq::<usize>::empty()) == gone);
        assert(target.roots + Seq::<usize>::empty() =~= target.roots);
    } else {
        assert(Seq::<usize>::empty() + target.roots =~= target.roots);
    }
    assert(after.output == gone);
    crate::target::lemma_despawn_all_len(target.output, target.roots);
    assert forall|k: int, i: int|
        0 <= k < target.roots.len() && #[trigger] under(
            target.output,
            target.roots[k] as int,
            i,
        ) implies after.output[i] is None by {
        lemma_despawn_all_kills(target.output, target.roots, k, i);
    }
}

/// A target that shows level `from` and is asked for level `to` instead:
/// the tick destroys the one tree that is drawn, so that nothing of it is
/// live any more, and then creates one tree, for level `to`.
pub proof fn lemma_mode_switch<H>(
    target: LdtkProjectBundleView<H>,
    from: usize,
    to: usize,
    events: Seq<AssetEvent>,
    assets: Map<u64, LdtkProject>,
)
    requires
        consistent(target),
        target.cfg.rendered == Some(from),
        from != FULL_WORLD_RENDERED,
        from != to,
        target.cfg.render_type == LdtkRenderType::SingleLevel(to),
        target.cfg.changed,
        assets.contains_key(target.ldtk_project),
    ensures
        target.roots.len() == 1,
        reload_destroyed(target, events) + cleanup_destroyed(reloaded(target, events))
            == target.roots,
        settled(target, events).output.len() == target.output.len(),
        forall|i: int|
            under(target.output, target.roots[0] as int, i) ==> (#[trigger] settled(
                target,
                events,
            ).output[i]) is None,
        created_roots(settled(target, events), assets) == seq![target.output.len() as usize],
        drawn(settled(target, events), assets).cfg.rendered == Some(to),
        drawn(settled(target, events), assets).roots == seq![target.output.len() as usize],
        drawn(settled(target, events), assets).output == settled(target, events).output
            + assets[target.ldtk_project].level_nodes(
            to as int,
            false,
            target.cfg.attach_enums is Some,
            target.ldtk_project,
            target.output.len() as usize,
        ),
{
    lemma_stale_output_destroyed(target, events);
    let after = settled(target, events);
    assert(after.roots =~= Seq::<usize>::empty());
    assert(after.roots + seq![after.output.len() as usize] =~= seq![
        target.output.len() as usize,
    ]);
}

} // verus!
