//! The one-shot setup that follows the loading of a scene.
//!
//! Once per frame the host hands over what it knows: whether the scene has
//! loaded, whether it brought a light, and for each mesh instance whether its
//! bounding box has been computed. The decision made here is what to do on
//! that frame. Nothing happens until the scene has loaded and every mesh
//! instance has its bounding box; on the first frame on which both hold the
//! whole setup is planned, once, and never again.

use vstd::prelude::*;

verus! {

/// What the viewer keeps about the scene it shows.
#[derive(Clone, Copy, Debug, PartialEq, Eq, Structural)]
pub struct SceneHandle {
    /// Which of the scenes bundled in the file is shown.
    pub scene_index: usize,
    /// Set by the host when the scene has been loaded.
    pub is_loaded: bool,
    /// Whether a light is present, brought by the scene or spawned by the setup.
    pub has_light: bool,
}

impl SceneHandle {
    /// The handle of a scene that has just been asked for: not loaded yet,
    /// and with no light known.
    pub fn new(scene_index: usize) -> (handle: SceneHandle)
        ensures
            handle == (SceneHandle { scene_index, is_loaded: false, has_light: false }),
    {
        SceneHandle { scene_index, is_loaded: false, has_light: false }
    }
}

/// One step of the setup, for the host to carry out.
#[derive(Clone, Copy, Debug, PartialEq, Eq, Structural)]
pub enum SetupAction {
    /// Estimate the bounding box of the scene from its mesh instances.
    EstimateBounds,
    /// Spawn the camera with its orbit controller and environment maps.
    SpawnCamera,
    /// Spawn the default directional light, shadows disabled.
    SpawnLight,
    /// Spawn the grid overlay.
    SpawnGrid,
}

/// Whether every mesh instance has its bounding data.
pub open spec fn all_bounded<B>(meshes: Seq<Option<B>>) -> bool {
    forall|i: int| 0 <= i < meshes.len() ==> (#[trigger] meshes[i]) is Some
}

/// Whether the setup runs on a frame: the scene has loaded, the setup has not
/// run before, and no mesh instance lacks its bounding data.
pub open spec fn setup_due(already_set_up: bool, scene: SceneHandle, bounded: bool) -> bool {
    scene.is_loaded && !already_set_up && bounded
}

/// The steps of a frame, in the order in which they are carried out: none
/// where the setup is not due, else all of them, the default light only where
/// no light is present.
pub open spec fn planned_actions(already_set_up: bool, scene: SceneHandle, bounded: bool) -> Seq<
    SetupAction,
> {
    if !setup_due(already_set_up, scene, bounded) {
        seq![]
    } else if scene.has_light {
        seq![SetupAction::EstimateBounds, SetupAction::SpawnCamera, SetupAction::SpawnGrid]
    } else {
        seq![
            SetupAction::EstimateBounds,
            SetupAction::SpawnCamera,
            SetupAction::SpawnLight,
            SetupAction::SpawnGrid,
        ]
    }
}

/// The scene handle after a frame: a light is present once the setup has run.
pub open spec fn scene_after(already_set_up: bool, scene: SceneHandle, bounded: bool)
    -> SceneHandle {
    SceneHandle {
        scene_index: scene.scene_index,
        is_loaded: scene.is_loaded,
        has_light: scene.has_light || setup_due(already_set_up, scene, bounded),
    }
}

/// Whether every mesh instance in `meshes` has its bounding data.
pub fn every_mesh_bounded<B>(meshes: &[Option<B>]) -> (bounded: bool)
    ensures
        bounded == all_bounded(meshes@),
{
    let mut i: usize = 0;
    while i < meshes.len()
        invariant
            i <= meshes.len(),
            forall|j: int| 0 <= j < i ==> (#[trigger] meshes@[j]) is Some,
        decreases meshes.len() - i,
    {
        if meshes[i].is_none() {
            return false;
        }
        i = i + 1;
    }
    true
}

/// Decides what one frame does for the setup of the scene.
///
/// `setup` tells whether the setup has run; `meshes` holds, for each mesh
/// instance of the scene, its bounding data where the host has computed it.
/// While the scene is loading, or a mesh instance lacks its bounding data,
/// or the setup has run, nothing is planned and nothing changes. Otherwise
/// the steps of the setup come back, `setup` is set, and the handle records
/// that a light is present.
pub fn setup_scene_after_load<B>(
    setup: &mut bool,
    scene_handle: &mut SceneHandle,
    meshes: &[Option<B>],
) -> (actions: Vec<SetupAction>)
    ensures
        actions@ == planned_actions(*old(setup), *old(scene_handle), all_bounded(meshes@)),
        *final(setup) == (*old(setup) || setup_due(
            *old(setup),
            *old(scene_handle),
            all_bounded(meshes@),
        )),
        *final(scene_handle) == scene_after(
            *old(setup),
            *old(scene_handle),
            all_bounded(meshes@),
        ),
{
    let mut actions: Vec<SetupAction> = Vec::new();
    if !scene_handle.is_loaded || *setup {
        return actions;
    }
    if !every_mesh_bounded(meshes) {
        return actions;
    }
    *setup = true;
    actions.push(SetupAction::EstimateBounds);
    actions.push(SetupAction::SpawnCamera);
    if !scene_handle.has_light {
        actions.push(SetupAction::SpawnLight);
        scene_handle.has_light = true;
    }
    actions.push(SetupAction::SpawnGrid);
    proof {
        assert(actions@ =~= planned_actions(
            *old(setup),
            *old(scene_handle),
            all_bounded(meshes@),
        ));
    }
    actions
}

/// What the host presents on one frame: the scene handle as it stands, and
/// whether every mesh instance has its bounding data.
pub struct Frame {
    pub scene: SceneHandle,
    pub bounded: bool,
}

/// Whether a frame has all that the setup waits for.
pub open spec fn is_ready(frame: Frame) -> bool {
    frame.scene.is_loaded && frame.bounded
}

/// Whether the setup has run once `frames` have passed, one call of
/// `setup_scene_after_load` each, starting with the setup not run.
pub open spec fn set_up_after(frames: Seq<Frame>) -> bool
    decreases frames.len(),
{
    if frames.len() == 0 {
        false
    } else {
        let before = set_up_after(frames.drop_last());
        before || setup_due(before, frames.last().scene, frames.last().bounded)
    }
}

/// Whether the setup runs on frame `i` of `frames`.
pub open spec fn runs_on(frames: Seq<Frame>, i: int) -> bool {
    setup_due(set_up_after(frames.take(i)), frames[i].scene, frames[i].bounded)
}

/// Once the setup has run it stays run.
pub proof fn lemma_set_up_stays(frames: Seq<Frame>, i: int, j: int)
    requires
        0 <= i <= j <= frames.len(),
        set_up_after(frames.take(i)),
    ensures
        set_up_after(frames.take(j)),
    decreases j - i,
{
    if i < j {
        lemma_set_up_stays(frames, i, j - 1);
        assert(frames.take(j).drop_last() =~= frames.take(j - 1));
    }
}

/// No step is planned on a frame on which the scene is loading or a mesh
/// instance lacks its bounding data, whatever went before.
pub proof fn lemma_setup_waits(frames: Seq<Frame>, i: int)
    requires
        0 <= i < frames.len(),
        !is_ready(frames[i]),
    ensures
        !runs_on(frames, i),
        planned_actions(set_up_after(frames.take(i)), frames[i].scene, frames[i].bounded)
            == Seq::<SetupAction>::empty(),
{
}

/// The setup runs on one frame at most.
pub proof fn lemma_setup_runs_at_most_once(frames: Seq<Frame>, i: int, j: int)
    requires
        0 <= i < frames.len(),
        0 <= j < frames.len(),
        runs_on(frames, i),
        runs_on(frames, j),
    ensures
        i == j,
{
    if i < j {
        assert(frames.take(i + 1).drop_last() =~= frames.take(i));
        assert(frames.take(i + 1).last() == frames[i]);
        lemma_set_up_stays(frames, i + 1, j);
    } else if j < i {
        assert(frames.take(j + 1).drop_last() =~= frames.take(j));
        assert(frames.take(j + 1).last() == frames[j]);
        lemma_set_up_stays(frames, j + 1, i);
    }
}

/// By the end of a frame that has all that the setup waits for, the setup
/// has run: on that frame or on an earlier one that was ready too.
pub proof fn lemma_setup_runs_when_ready(frames: Seq<Frame>, i: int)
    requires
        0 <= i < frames.len(),
        is_ready(frames[i]),
    ensures
        exists|j: int| 0 <= j <= i && is_ready(frames[j]) && #[trigger] runs_on(frames, j),
{
    if set_up_after(frames.take(i)) {
        lemma_set_up_began(frames, i);
    } else {
        assert(runs_on(frames, i));
    }
}

/// Where the setup has run before frame `i`, it ran on an earlier frame.
pub proof fn lemma_set_up_began(frames: Seq<Frame>, i: int)
    requires
        0 <= i <= frames.len(),
        set_up_after(frames.take(i)),
    ensures
        exists|j: int| 0 <= j < i && is_ready(frames[j]) && #[trigger] runs_on(frames, j),
    decreases i,
{
    assert(i > 0);
    assert(frames.take(i).drop_last() =~= frames.take(i - 1));
    assert(frames.take(i).last() == frames[i - 1]);
    if set_up_after(frames.take(i - 1)) {
        lemma_set_up_began(frames, i - 1);
    } else {
        assert(runs_on(frames, i - 1));
    }
}

} // verus!
