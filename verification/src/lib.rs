//! Scene selection and one-shot scene setup for a glTF model viewer.
//!
//! The crate holds the two decisions the viewer makes on its own: how a
//! command-line argument names an asset file and a scene inside it, and when
//! the camera, the default light and the grid are spawned once a scene has
//! loaded. Rendering, asset loading and the frame loop belong to the host
//! engine.

pub mod scene_path;
pub mod scene_setup;
