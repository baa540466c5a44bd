use scene_viewer::scene_setup::{every_mesh_bounded, setup_scene_after_load, SceneHandle, SetupAction};

fn loaded(has_light: bool) -> SceneHandle {
    SceneHandle { scene_index: 0, is_loaded: true, has_light }
}

#[test]
fn new_handle_is_not_loaded() {
    let handle = SceneHandle::new(3);
    assert_eq!(handle, SceneHandle { scene_index: 3, is_loaded: false, has_light: false });
}

#[test]
fn every_mesh_bounded_wants_all() {
    assert!(every_mesh_bounded::<u8>(&[]));
    assert!(every_mesh_bounded(&[Some(1u8), Some(2u8)]));
    assert!(!every_mesh_bounded(&[Some(1u8), None]));
    assert!(!every_mesh_bounded(&[None, Some(2u8)]));
    assert!(!every_mesh_bounded::<u8>(&[None]));
}

#[test]
fn nothing_happens_while_loading() {
    let mut setup = false;
    let mut handle = SceneHandle::new(1);
    let actions = setup_scene_after_load(&mut setup, &mut handle, &[Some(()), Some(())]);
    assert_eq!(actions, Vec::<SetupAction>::new());
    assert!(!setup);
    assert_eq!(handle, SceneHandle::new(1));
}

#[test]
fn nothing_happens_while_a_mesh_lacks_bounds() {
    let mut setup = false;
    let mut handle = loaded(false);
    let actions = setup_scene_after_load(&mut setup, &mut handle, &[Some(()), None, Some(())]);
    assert_eq!(actions, Vec::<SetupAction>::new());
    assert!(!setup);
    assert_eq!(handle, loaded(false));
}

#[test]
fn setup_spawns_a_light_where_none_is_present() {
    let mut setup = false;
    let mut handle = loaded(false);
    let actions = setup_scene_after_load(&mut setup, &mut handle, &[Some(1.5f32), Some(2.0f32)]);
    assert_eq!(
        actions,
        vec![
            SetupAction::EstimateBounds,
            SetupAction::SpawnCamera,
            SetupAction::SpawnLight,
            SetupAction::SpawnGrid,
        ]
    );
    assert!(setup);
    assert_eq!(handle, loaded(true));
}

#[test]
fn setup_spawns_no_light_where_one_is_present() {
    let mut setup = false;
    let mut handle = SceneHandle { scene_index: 2, is_loaded: true, has_light: true };
    let actions = setup_scene_after_load(&mut setup, &mut handle, &[Some(())]);
    assert_eq!(
        actions,
        vec![SetupAction::EstimateBounds, SetupAction::SpawnCamera, SetupAction::SpawnGrid]
    );
    assert!(setup);
    assert_eq!(handle, SceneHandle { scene_index: 2, is_loaded: true, has_light: true });
}

#[test]
fn scene_without_meshes_is_set_up() {
    let mut setup = false;
    let mut handle = loaded(false);
    let actions = setup_scene_after_load::<()>(&mut setup, &mut handle, &[]);
    assert_eq!(actions.len(), 4);
    assert!(setup);
}

#[test]
fn setup_does_not_run_again() {
    let mut setup = true;
    let mut handle = loaded(false);
    let actions = setup_scene_after_load(&mut setup, &mut handle, &[Some(())]);
    assert_eq!(actions, Vec::<SetupAction>::new());
    assert!(setup);
    assert_eq!(handle, loaded(false));
}

#[test]
fn setup_runs_once_over_many_frames() {
    let mut setup = false;
    let mut handle = SceneHandle::new(0);
    let mut runs = 0;
    let mut lights = 0;
    let frames: Vec<(bool, Vec<Option<u8>>)> = vec![
        (false, vec![]),
        (false, vec![None, None]),
        (true, vec![None, None]),
        (true, vec![Some(1), None]),
        (true, vec![Some(1), Some(2)]),
        (true, vec![Some(1), Some(2)]),
        (true, vec![Some(1), None]),
        (true, vec![Some(1), Some(2)]),
    ];
    for (index, (is_loaded, meshes)) in frames.iter().enumerate() {
        handle.is_loaded = *is_loaded;
        let actions = setup_scene_after_load(&mut setup, &mut handle, meshes);
        if index == 4 {
            assert_eq!(actions.len(), 4);
        } else {
            assert!(actions.is_empty());
        }
        if !actions.is_empty() {
            runs += 1;
        }
        lights += actions.iter().filter(|action| **action == SetupAction::SpawnLight).count();
        assert_eq!(setup, index >= 4);
        assert_eq!(handle.has_light, index >= 4);
    }
    assert_eq!(runs, 1);
    assert_eq!(lights, 1);
}
