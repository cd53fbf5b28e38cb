//! A render target: which project it shows, how, and what is drawn for it.
//!
//! A target's configuration records the requested render mode and a marker
//! of what was last rendered.  Every change made from outside sets a flag;
//! the cleanup phase looks at the flag, destroys output that no longer
//! matches the mode, and clears it.  The output is owned by the target and
//! touched only here.

use crate::assets::LdtkProject;
use crate::color::hex_color;
use crate::draw::{render_single_ldtk_level, spawns_extended};
use crate::render::{ClearColor, EntitySpawn, EntitySpawnView};
use crate::tree::{
    forest, lemma_dead_stays_dead, lemma_under_survives, under, without_subtree, Node, RenderTree,
};
use vstd::prelude::*;

verus! {

/// What a target shows of its project.
#[derive(Clone, Copy, Debug, PartialEq, Eq, Structural)]
pub enum LdtkRenderType {
    /// One level, named by its position in the project's list, at the
    /// target's origin.
    SingleLevel(usize),
    /// All levels, each at its place in the world.
    FullWorld,
}

impl Default for LdtkRenderType {
    fn default() -> (mode: Self)
        ensures
            mode == LdtkRenderType::FullWorld,
    {
        LdtkRenderType::FullWorld
    }
}

/// The marker of a target whose whole world is rendered.  No level has this
/// position, so the marker of a single level never equals it.
pub const FULL_WORLD_RENDERED: usize = usize::MAX;

/// Whether `marker` records that what `mode` asks for is rendered.
pub open spec fn marker_matches(mode: LdtkRenderType, marker: Option<usize>) -> bool {
    match mode {
        LdtkRenderType::SingleLevel(level) => marker == Some(level),
        LdtkRenderType::FullWorld => marker == Some(FULL_WORLD_RENDERED),
    }
}

/// Whether the render phase has work to do for a target.
pub open spec fn render_due(mode: LdtkRenderType, marker: Option<usize>) -> bool {
    match mode {
        LdtkRenderType::SingleLevel(level) => marker != Some(level),
        LdtkRenderType::FullWorld => marker is None,
    }
}

/// What the marker is once `mode` is rendered.
pub open spec fn marker_of(mode: LdtkRenderType) -> usize {
    match mode {
        LdtkRenderType::SingleLevel(level) => level,
        LdtkRenderType::FullWorld => FULL_WORLD_RENDERED,
    }
}

/// The configuration of a render target.  `H` is the extension hook that
/// the host calls for every sprite; it is only kept here.
pub struct LdtkProjectCfg<H> {
    render_type: LdtkRenderType,
    attach_enums: Option<H>,
    rendered: Option<usize>,
    changed: bool,
}

pub struct LdtkProjectCfgView<H> {
    pub render_type: LdtkRenderType,
    pub attach_enums: Option<H>,
    /// What was last rendered: nothing, the position of a level, or
    /// `FULL_WORLD_RENDERED`.
    pub rendered: Option<usize>,
    /// Whether the configuration was changed from outside since the last
    /// cleanup.
    pub changed: bool,
}

impl<H> View for LdtkProjectCfg<H> {
    type V = LdtkProjectCfgView<H>;

    closed spec fn view(&self) -> LdtkProjectCfgView<H> {
        LdtkProjectCfgView {
            render_type: self.render_type,
            attach_enums: self.attach_enums,
            rendered: self.rendered,
            changed: self.changed,
        }
    }
}

impl<H> Default for LdtkProjectCfg<H> {
    /// The whole world, without a hook, nothing rendered yet.
    fn default() -> (cfg: Self)
        ensures
            cfg@ == (LdtkProjectCfgView::<H> {
                render_type: LdtkRenderType::FullWorld,
                attach_enums: None,
                rendered: None,
                changed: true,
            }),
    {
        LdtkProjectCfg {
            render_type: LdtkRenderType::FullWorld,
            attach_enums: None,
            rendered: None,
            changed: true,
        }
    }
}

impl<H> LdtkProjectCfg<H> {
    /// A configuration for which nothing is rendered yet.
    pub fn new(render_type: LdtkRenderType, attach_enums: Option<H>) -> (cfg: Self)
        ensures
            cfg@ == (LdtkProjectCfgView { render_type, attach_enums, rendered: None, changed: true }),
    {
        LdtkProjectCfg { render_type, attach_enums, rendered: None, changed: true }
    }

    pub fn render_type(&self) -> (mode: LdtkRenderType)
        ensures
            mode == self@.render_type,
    {
        self.render_type
    }

    pub fn attach_enums(&self) -> (hook: &Option<H>)
        ensures
            *hook == self@.attach_enums,
    {
        &self.attach_enums
    }

    /// What was last rendered.
    pub fn rendered(&self) -> (marker: Option<usize>)
        ensures
            marker == self@.rendered,
    {
        self.rendered
    }

    /// Whether the configuration was changed since the last cleanup.
    pub fn is_changed(&self) -> (changed: bool)
        ensures
            changed == self@.changed,
    {
        self.changed
    }

    /// Asks for another render mode.
    pub fn set_render_type(&mut self, render_type: LdtkRenderType)
        ensures
            final(self)@ == (LdtkProjectCfgView { render_type, changed: true, ..old(self)@ }),
    {
        self.render_type = render_type;
        self.changed = true;
    }

    /// Installs or removes the extension hook.
    pub fn set_attach_enums(&mut self, attach_enums: Option<H>)
        ensures
            final(self)@ == (LdtkProjectCfgView { attach_enums, changed: true, ..old(self)@ }),
    {
        self.attach_enums = attach_enums;
        self.changed = true;
    }
}

/// The arena after the subtrees of `roots` are destroyed, one after the
/// other.
pub open spec fn despawn_all(nodes: Seq<Option<Node>>, roots: Seq<usize>) -> Seq<Option<Node>>
    decreases roots.len(),
{
    if roots.len() == 0 {
        nodes
    } else {
        despawn_all(without_subtree(nodes, roots[0] as int), roots.drop_first())
    }
}

/// Destroying subtrees keeps the size of the arena.
pub proof fn lemma_despawn_all_len(nodes: Seq<Option<Node>>, roots: Seq<usize>)
    ensures
        despawn_all(nodes, roots).len() == nodes.len(),
    decreases roots.len(),
{
    if roots.len() > 0 {
        lemma_despawn_all_len(without_subtree(nodes, roots[0] as int), roots.drop_first());
    }
}

/// Destroying subtrees keeps the size of the arena and brings no dead node
/// back.
pub proof fn lemma_despawn_all_keeps_dead(nodes: Seq<Option<Node>>, roots: Seq<usize>, i: int)
    requires
        0 <= i < nodes.len(),
        nodes[i] is None,
    ensures
        despawn_all(nodes, roots).len() == nodes.len(),
        despawn_all(nodes, roots)[i] is None,
    decreases roots.len(),
{
    if roots.len() > 0 {
        lemma_dead_stays_dead(nodes, roots[0] as int, i);
        lemma_despawn_all_keeps_dead(
            without_subtree(nodes, roots[0] as int),
            roots.drop_first(),
            i,
        );
    }
}

/// Once the subtrees of `roots` are destroyed, nothing that stood under one
/// of them is live.
pub proof fn lemma_despawn_all_kills(nodes: Seq<Option<Node>>, roots: Seq<usize>, k: int, i: int)
    requires
        0 <= k < roots.len(),
        under(nodes, roots[k] as int, i),
    ensures
        despawn_all(nodes, roots).len() == nodes.len(),
        despawn_all(nodes, roots)[i] is None,
    decreases roots.len(),
{
    let first = roots[0] as int;
    let rest = roots.drop_first();
    let swept = without_subtree(nodes, first);
    if under(nodes, first, i) {
        lemma_despawn_all_keeps_dead(swept, rest, i);
    } else {
        lemma_under_survives(nodes, first, roots[k] as int, i);
        assert(rest[k - 1] == roots[k]);
        lemma_despawn_all_kills(swept, rest, k - 1, i);
    }
}

/// A render target.
pub struct LdtkProjectBundle<H> {
    ldtk_project: u64,
    cfg: LdtkProjectCfg<H>,
    output: RenderTree,
    roots: Vec<usize>,
}

pub struct LdtkProjectBundleView<H> {
    /// The project that the target shows.
    pub ldtk_project: u64,
    pub cfg: LdtkProjectCfgView<H>,
    /// The arena of what is drawn for the target.
    pub output: Seq<Option<Node>>,
    /// The roots of the trees that are drawn, one for each rendered level.
    pub roots: Seq<usize>,
}

impl<H> View for LdtkProjectBundle<H> {
    type V = LdtkProjectBundleView<H>;

    closed spec fn view(&self) -> LdtkProjectBundleView<H> {
        LdtkProjectBundleView {
            ldtk_project: self.ldtk_project,
            cfg: self.cfg@,
            output: self.output@,
            roots: self.roots@,
        }
    }
}

/// A target after its output is destroyed and its marker reset.
pub open spec fn invalidated<H>(target: LdtkProjectBundleView<H>) -> LdtkProjectBundleView<H> {
    LdtkProjectBundleView {
        cfg: LdtkProjectCfgView { rendered: None, ..target.cfg },
        output: despawn_all(target.output, target.roots),
        roots: Seq::empty(),
        ..target
    }
}

/// Whether the cleanup phase destroys the output of a target.
pub open spec fn cleanup_destroys<H>(target: LdtkProjectBundleView<H>) -> bool {
    target.cfg.changed && !marker_matches(target.cfg.render_type, target.cfg.rendered)
}

/// A target after the cleanup phase.
pub open spec fn cleaned<H>(target: LdtkProjectBundleView<H>) -> LdtkProjectBundleView<H> {
    let swept = if cleanup_destroys(target) {
        invalidated(target)
    } else {
        target
    };
    LdtkProjectBundleView { cfg: LdtkProjectCfgView { changed: false, ..swept.cfg }, ..swept }
}

/// What holds of a target between ticks: with nothing rendered nothing is
/// drawn, with a single level rendered one tree is drawn, and a marker that
/// does not match the mode is left only by a change that the cleanup phase
/// has not seen yet.
pub open spec fn consistent<H>(target: LdtkProjectBundleView<H>) -> bool {
    &&& target.cfg.rendered is None ==> target.roots.len() == 0
    &&& (target.cfg.rendered matches Some(marker) && marker != FULL_WORLD_RENDERED)
        ==> target.roots.len() == 1
    &&& !target.cfg.changed ==> (target.cfg.rendered is None || marker_matches(
        target.cfg.render_type,
        target.cfg.rendered,
    ))
}

/// The nodes created when the levels before number `upto` are drawn one
/// after the other, each at its place in the world, into an arena that
/// already holds `base` nodes.
pub open spec fn world_nodes(
    project: &LdtkProject,
    upto: int,
    attach_enums: bool,
    handle: u64,
    base: int,
) -> Seq<Option<Node>>
    decreases upto,
{
    if upto <= 0 {
        Seq::empty()
    } else {
        let before = world_nodes(project, upto - 1, attach_enums, handle, base);
        before + project.level_nodes(
            upto - 1,
            true,
            attach_enums,
            handle,
            (base + before.len()) as usize,
        )
    }
}

/// The roots of the trees of `world_nodes`, one for each level.
pub open spec fn world_roots(
    project: &LdtkProject,
    upto: int,
    attach_enums: bool,
    handle: u64,
    base: int,
) -> Seq<usize>
    decreases upto,
{
    if upto <= 0 {
        Seq::empty()
    } else {
        world_roots(project, upto - 1, attach_enums, handle, base).push(
            (base + world_nodes(project, upto - 1, attach_enums, handle, base).len()) as usize,
        )
    }
}

/// The notifications sent while the nodes of `world_nodes` are created.
pub open spec fn world_spawns(
    project: &LdtkProject,
    upto: int,
    attach_enums: bool,
    handle: u64,
    base: int,
) -> Seq<EntitySpawnView>
    decreases upto,
{
    if upto <= 0 {
        Seq::empty()
    } else {
        world_spawns(project, upto - 1, attach_enums, handle, base) + project.level_spawns(
            upto - 1,
            true,
            handle,
            (base + world_nodes(project, upto - 1, attach_enums, handle, base).len()) as usize,
        )
    }
}

/// The clear colour once the levels before number `upto` are drawn: the
/// background of the last of them.
pub open spec fn world_clear(project: &LdtkProject, upto: int, clear: ClearColor) -> ClearColor {
    if upto <= 0 {
        clear
    } else {
        ClearColor(hex_color(project.project.levels@[upto - 1].bg_color@).unwrap())
    }
}

/// Whether all that `mode` asks for can be drawn.
pub open spec fn mode_renderable(project: &LdtkProject, mode: LdtkRenderType) -> bool {
    match mode {
        LdtkRenderType::SingleLevel(level) => project.renderable(level as int, false),
        LdtkRenderType::FullWorld => forall|level: int|
            0 <= level < project.project.levels@.len() ==> #[trigger] project.renderable(
                level,
                true,
            ),
    }
}

/// The nodes created when `mode` is rendered into an arena that already
/// holds `base` nodes.
pub open spec fn mode_nodes(
    project: &LdtkProject,
    mode: LdtkRenderType,
    attach_enums: bool,
    handle: u64,
    base: int,
) -> Seq<Option<Node>> {
    match mode {
        LdtkRenderType::SingleLevel(level) => project.level_nodes(
            level as int,
            false,
            attach_enums,
            handle,
            base as usize,
        ),
        LdtkRenderType::FullWorld => world_nodes(
            project,
            project.project.levels@.len() as int,
            attach_enums,
            handle,
            base,
        ),
    }
}

/// The roots of the trees of `mode_nodes`.
pub open spec fn mode_roots(
    project: &LdtkProject,
    mode: LdtkRenderType,
    attach_enums: bool,
    handle: u64,
    base: int,
) -> Seq<usize> {
    match mode {
        LdtkRenderType::SingleLevel(level) => seq![base as usize],
        LdtkRenderType::FullWorld => world_roots(
            project,
            project.project.levels@.len() as int,
            attach_enums,
            handle,
            base,
        ),
    }
}

/// The notifications sent while `mode` is rendered.
pub open spec fn mode_spawns(
    project: &LdtkProject,
    mode: LdtkRenderType,
    attach_enums: bool,
    handle: u64,
    base: int,
) -> Seq<EntitySpawnView> {
    match mode {
        LdtkRenderType::SingleLevel(level) => project.level_spawns(
            level as int,
            false,
            handle,
            base as usize,
        ),
        LdtkRenderType::FullWorld => world_spawns(
            project,
            project.project.levels@.len() as int,
            attach_enums,
            handle,
            base,
        ),
    }
}

/// The clear colour once `mode` is rendered.
pub open spec fn mode_clear(
    project: &LdtkProject,
    mode: LdtkRenderType,
    clear: ClearColor,
) -> ClearColor {
    match mode {
        LdtkRenderType::SingleLevel(level) => world_clear(project, level + 1, clear),
        LdtkRenderType::FullWorld => world_clear(
            project,
            project.project.levels@.len() as int,
            clear,
        ),
    }
}

/// Whether the render phase draws for a target: its project is loaded and
/// the marker does not record the mode as rendered.
pub open spec fn render_pending<H>(target: LdtkProjectBundleView<H>, loaded: bool) -> bool {
    loaded && render_due(target.cfg.render_type, target.cfg.rendered)
}

/// A target after its mode is rendered.
pub open spec fn rendered<H>(
    target: LdtkProjectBundleView<H>,
    project: &LdtkProject,
) -> LdtkProjectBundleView<H> {
    let mode = target.cfg.render_type;
    let attach_enums = target.cfg.attach_enums is Some;
    let base = target.output.len() as int;
    LdtkProjectBundleView {
        cfg: LdtkProjectCfgView { rendered: Some(marker_of(mode)), ..target.cfg },
        output: target.output + mode_nodes(
            project,
            mode,
            attach_enums,
            target.ldtk_project,
            base,
        ),
        roots: target.roots + mode_roots(project, mode, attach_enums, target.ldtk_project, base),
        ..target
    }
}

impl<H> LdtkProjectBundle<H> {
    /// A target that shows `ldtk_project`, with nothing drawn yet.
    pub fn new(ldtk_project: u64, cfg: LdtkProjectCfg<H>) -> (target: Self)
        ensures
            target@ == (LdtkProjectBundleView {
                ldtk_project,
                cfg: cfg@,
                output: Seq::empty(),
                roots: Seq::empty(),
            }),
            cfg@.rendered is None ==> consistent(target@),
    {
        LdtkProjectBundle { ldtk_project, cfg, output: RenderTree::new(), roots: Vec::new() }
    }

    pub fn ldtk_project(&self) -> (handle: u64)
        ensures
            handle == self@.ldtk_project,
    {
        self.ldtk_project
    }

    pub fn cfg(&self) -> (cfg: &LdtkProjectCfg<H>)
        ensures
            cfg@ == self@.cfg,
    {
        &self.cfg
    }

    /// Asks for another render mode.
    pub fn set_render_type(&mut self, render_type: LdtkRenderType)
        ensures
            final(self)@ == (LdtkProjectBundleView {
                cfg: LdtkProjectCfgView { render_type, changed: true, ..old(self)@.cfg },
                ..old(self)@
            }),
            consistent(old(self)@) ==> consistent(final(self)@),
    {
        self.cfg.set_render_type(render_type);
    }

    /// Installs or removes the extension hook.
    pub fn set_attach_enums(&mut self, attach_enums: Option<H>)
        ensures
            final(self)@ == (LdtkProjectBundleView {
                cfg: LdtkProjectCfgView { attach_enums, changed: true, ..old(self)@.cfg },
                ..old(self)@
            }),
            consistent(old(self)@) ==> consistent(final(self)@),
    {
        self.cfg.set_attach_enums(attach_enums);
    }

    /// What is drawn for the target.
    pub fn output(&self) -> (tree: &RenderTree)
        ensures
            tree@ == self@.output,
    {
        &self.output
    }

    /// The roots of the trees that are drawn.
    pub fn roots(&self) -> (roots: &Vec<usize>)
        ensures
            roots@ == self@.roots,
    {
        &self.roots
    }

    /// Destroys all that is drawn for the target; returns the roots of the
    /// destroyed trees.
    fn destroy_output(&mut self) -> (destroyed: Vec<usize>)
        ensures
            destroyed@ == old(self)@.roots,
            final(self)@ == (LdtkProjectBundleView {
                output: despawn_all(old(self)@.output, old(self)@.roots),
                roots: Seq::empty(),
                ..old(self)@
            }),
            forest(old(self)@.output) ==> forest(final(self)@.output),
    {
        let mut destroyed: Vec<usize> = Vec::new();
        let ghost roots = self.roots@;
        let ghost start = self.output@;
        let n = self.roots.len();
        let mut i: usize = 0;
        assert(roots.skip(0) =~= roots);
        while i < n
            invariant
                n == roots.len(),
                i <= n,
                self.roots@ == roots,
                self.ldtk_project == old(self).ldtk_project,
                self.cfg == old(self).cfg,
                destroyed@ == roots.take(i as int),
                despawn_all(self.output@, roots.skip(i as int)) == despawn_all(start, roots),
                forest(start) ==> forest(self.output@),
            decreases n - i,
        {
            let root = self.roots[i];
            proof {
                assert(roots.skip(i as int).drop_first() =~= roots.skip(i + 1));
            }
            self.output.despawn_recursive(root);
            destroyed.push(root);
            assert(destroyed@ =~= roots.take(i + 1));
            i += 1;
        }
        assert(roots.take(n as int) =~= roots);
        assert(roots.skip(n as int) =~= Seq::<usize>::empty());
        self.roots = Vec::new();
        destroyed
    }

    /// The project was modified: forgets what was rendered and destroys the
    /// output.  Returns the roots of the destroyed trees.
    pub fn invalidate(&mut self) -> (destroyed: Vec<usize>)
        ensures
            final(self)@ == invalidated(old(self)@),
            destroyed@ == old(self)@.roots,
            forest(old(self)@.output) ==> forest(final(self)@.output),
    {
        self.cfg.rendered = None;
        self.destroy_output()
    }

    /// The cleanup phase: where the configuration was changed and the marker
    /// does not match the mode, destroys the output and resets the marker.
    /// Returns the roots of the destroyed trees.
    pub fn cleanup(&mut self) -> (destroyed: Vec<usize>)
        ensures
            final(self)@ == cleaned(old(self)@),
            destroyed@ == (if cleanup_destroys(old(self)@) {
                old(self)@.roots
            } else {
                Seq::empty()
            }),
            forest(old(self)@.output) ==> forest(final(self)@.output),
    {
        if !self.cfg.changed {
            return Vec::new();
        }
        self.cfg.changed = false;
        let matches = match self.cfg.render_type {
            LdtkRenderType::SingleLevel(level) => self.cfg.rendered == Some(level),
            LdtkRenderType::FullWorld => self.cfg.rendered == Some(FULL_WORLD_RENDERED),
        };
        if matches {
            Vec::new()
        } else {
            self.cfg.rendered = None;
            self.destroy_output()
        }
    }

    /// The render phase: where the project is loaded and the marker does not
    /// record the mode as rendered, draws what the mode asks for and sets
    /// the marker.  Returns the roots of the new trees.
    pub fn render(
        &mut self,
        project: Option<&LdtkProject>,
        clear_color: &mut ClearColor,
        entity_spawner: &mut Vec<EntitySpawn>,
    ) -> (created: Vec<usize>)
        requires
            render_pending(old(self)@, project is Some) ==> mode_renderable(
                project.unwrap(),
                old(self)@.cfg.render_type,
            ),
        ensures
            !render_pending(old(self)@, project is Some) ==> {
                &&& final(self)@ == old(self)@
                &&& *final(clear_color) == *old(clear_color)
                &&& final(entity_spawner)@ == old(entity_spawner)@
                &&& created@ == Seq::<usize>::empty()
            },
            render_pending(old(self)@, project is Some) ==> {
                let target = old(self)@;
                let mode = target.cfg.render_type;
                let attach_enums = target.cfg.attach_enums is Some;
                let base = target.output.len() as int;
                &&& final(self)@ == rendered(target, project.unwrap())
                &&& *final(clear_color) == mode_clear(project.unwrap(), mode, *old(clear_color))
                &&& spawns_extended(
                    old(entity_spawner)@,
                    final(entity_spawner)@,
                    mode_spawns(project.unwrap(), mode, attach_enums, target.ldtk_project, base),
                )
                &&& created@ == mode_roots(
                    project.unwrap(),
                    mode,
                    attach_enums,
                    target.ldtk_project,
                    base,
                )
            },
            forest(old(self)@.output) ==> forest(final(self)@.output),
    {
        let mut created: Vec<usize> = Vec::new();
        let attach_enums = self.cfg.attach_enums.is_some();
        let handle = self.ldtk_project;
        let ghost start = self.output@;
        let ghost start_roots = self.roots@;
        match self.cfg.render_type {
            LdtkRenderType::SingleLevel(current) => {
                if self.cfg.rendered == Some(current) {
                    return created;
                }
                let project = match project {
                    Some(p) => p,
                    None => {
                        return created;
                    },
                };
                let root = render_single_ldtk_level(
                    &mut self.output,
                    clear_color,
                    current,
                    false,
                    handle,
                    project,
                    entity_spawner,
                    attach_enums,
                );
                self.roots.push(root);
                created.push(root);
                self.cfg.rendered = Some(current);
                assert(created@ =~= seq![root]);
                assert(self.roots@ =~= start_roots + seq![root]);
            },
            LdtkRenderType::FullWorld => {
                if self.cfg.rendered.is_some() {
                    return created;
                }
                let project = match project {
                    Some(p) => p,
                    None => {
                        return created;
                    },
                };
                let count = project.project.levels.len();
                let mut level: usize = 0;
                proof {
                    assert(self.output@ =~= start + world_nodes(
                        project,
                        0,
                        attach_enums,
                        handle,
                        start.len() as int,
                    ));
                    assert(self.roots@ =~= start_roots + world_roots(
                        project,
                        0,
                        attach_enums,
                        handle,
                        start.len() as int,
                    ));
                }
                while level < count
                    invariant
                        count == project.project.levels@.len(),
                        level <= count,
                        mode_renderable(project, LdtkRenderType::FullWorld),
                        self.ldtk_project == old(self).ldtk_project,
                        self.cfg == old(self).cfg,
                        self.output@ == start + world_nodes(
                            project,
                            level as int,
                            attach_enums,
                            handle,
                            start.len() as int,
                        ),
                        self.roots@ == start_roots + world_roots(
                            project,
                            level as int,
                            attach_enums,
                            handle,
                            start.len() as int,
                        ),
                        created@ == world_roots(
                            project,
                            level as int,
                            attach_enums,
                            handle,
                            start.len() as int,
                        ),
                        *clear_color == world_clear(project, level as int, *old(clear_color)),
                        forest(start) ==> forest(self.output@),
                        spawns_extended(
                            old(entity_spawner)@,
                            entity_spawner@,
                            world_spawns(
                                project,
                                level as int,
                                attach_enums,
                                handle,
                                start.len() as int,
                            ),
                        ),
                    decreases count - level,
                {
                    assert(project.renderable(level as int, true));
                    let ghost spawns_before = entity_spawner@;
                    let root = render_single_ldtk_level(
                        &mut self.output,
                        clear_color,
                        level,
                        true,
                        handle,
                        project,
                        entity_spawner,
                        attach_enums,
                    );
                    self.roots.push(root);
                    created.push(root);
                    proof {
                        let base = start.len() as int;
                        let before = world_nodes(project, level as int, attach_enums, handle, base);
                        assert(root == base + before.len());
                        assert(self.output@ =~= start + world_nodes(
                            project,
                            level + 1,
                            attach_enums,
                            handle,
                            base,
                        ));
                        assert(self.roots@ =~= start_roots + world_roots(
                            project,
                            level + 1,
                            attach_enums,
                            handle,
                            base,
                        ));
                        crate::draw::lemma_spawns_extended_twice(
                            old(entity_spawner)@,
                            spawns_before,
                            entity_spawner@,
                            world_spawns(project, level as int, attach_enums, handle, base),
                            project.level_spawns(level as int, true, handle, root),
                        );
                    }
                    level += 1;
                }
                self.cfg.rendered = Some(FULL_WORLD_RENDERED);
            },
        }
        created
    }
}

} // verus!
