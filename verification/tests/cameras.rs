use bevy_webxr::camera::{
    spawn_webxr_camera, update_webxr_camera, FramebufferView, Viewport, STEREO_HANDLE,
};
use bevy_webxr::platform::{XrEye, XrView, XrViewerPose, XrViewport, XrWebGlLayer};
use bevy_webxr::tracking::camera::{
    to_physical, to_physical_viewport, update_xr_cameras, CameraRig, FRAMEBUFFER_HANDLE,
};
use bevy_webxr::tracking::entity::{EntityId, EntityStore};
use bevy_webxr::WebXrFrame;

type Pose = [f32; 3];

fn layer() -> XrWebGlLayer {
    XrWebGlLayer { framebuffer: true, framebuffer_width: 2000, framebuffer_height: 1000 }
}

fn view(eye: XrEye, pose: Pose, x: i32) -> XrView<Pose> {
    XrView { eye, pose, viewport: XrViewport { x, y: 0, width: 1000, height: 1000 } }
}

fn frame(views: Vec<XrView<Pose>>) -> WebXrFrame<Pose> {
    WebXrFrame {
        viewer_pose: Some(XrViewerPose { views }),
        base_layer: Some(layer()),
        input_sources: vec![],
    }
}

fn origin(store: &mut EntityStore) -> EntityId {
    store.spawn()
}

#[test]
fn two_eyes_spawn_update_and_deactivate() {
    let mut store = EntityStore::new();
    let root = origin(&mut store);
    let mut rig: CameraRig<Pose> = CameraRig::new();

    let first = frame(vec![
        view(XrEye::Left, [-0.03, 1.6, 0.0], 0),
        view(XrEye::Right, [0.03, 1.6, 0.0], 1000),
    ]);
    let built = update_xr_cameras(Some(&first), Some(root), &mut rig, &mut store);
    assert_eq!(
        built,
        Some(FramebufferView { handle: FRAMEBUFFER_HANDLE, width: 2000, height: 1000 })
    );
    assert_eq!(rig.eyes_left.len(), 1);
    assert_eq!(rig.eyes_right.len(), 1);
    assert_eq!(rig.windows.len(), 0);
    let left = rig.eyes_left.entities[0];
    let right = rig.eyes_right.entities[0];
    assert_eq!(left.id, EntityId(1));
    assert_eq!(right.id, EntityId(2));
    assert_eq!(left.parent, Some(root));
    assert_eq!(right.parent, Some(root));
    assert!(left.active && right.active);
    assert_eq!(left.data.pose, [-0.03, 1.6, 0.0]);
    assert_eq!(right.data.pose, [0.03, 1.6, 0.0]);
    assert_eq!(left.data.viewport, Viewport { x: 0, y: 0, width: 1000, height: 1000 });
    assert_eq!(right.data.viewport, Viewport { x: 1000, y: 0, width: 1000, height: 1000 });
    assert_eq!(left.data.target, FRAMEBUFFER_HANDLE);
    assert_eq!((left.data.order, right.data.order), (0, 1));
    assert_eq!((left.data.flip_y, right.data.flip_y), (false, true));
    assert_eq!(store.len(), 3);

    let second = frame(vec![
        view(XrEye::Left, [-0.03, 1.7, 0.2], 0),
        view(XrEye::Right, [0.03, 1.7, 0.2], 1000),
    ]);
    update_xr_cameras(Some(&second), Some(root), &mut rig, &mut store);
    assert_eq!(store.len(), 3);
    assert_eq!(rig.eyes_left.len(), 1);
    assert_eq!(rig.eyes_right.len(), 1);
    assert_eq!(rig.eyes_left.entities[0].id, left.id);
    assert_eq!(rig.eyes_right.entities[0].id, right.id);
    assert_eq!(rig.eyes_left.entities[0].data.pose, [-0.03, 1.7, 0.2]);
    assert_eq!(rig.eyes_right.entities[0].data.pose, [0.03, 1.7, 0.2]);
    assert!(rig.eyes_left.entities[0].active && rig.eyes_right.entities[0].active);

    let third = frame(vec![]);
    let built = update_xr_cameras(Some(&third), Some(root), &mut rig, &mut store);
    assert_eq!(built, None);
    assert_eq!(store.len(), 3);
    assert_eq!(rig.eyes_left.len(), 1);
    assert_eq!(rig.eyes_right.len(), 1);
    assert_eq!(rig.eyes_left.entities[0].id, left.id);
    assert_eq!(rig.eyes_right.entities[0].id, right.id);
    assert!(!rig.eyes_left.entities[0].active);
    assert!(!rig.eyes_right.entities[0].active);
    assert!(store.is_alive(left.id) && store.is_alive(right.id));
    assert_eq!(rig.eyes_left.entities[0].data.pose, [-0.03, 1.7, 0.2]);
}

#[test]
fn cameras_come_back_as_the_same_entities() {
    let mut store = EntityStore::new();
    let root = origin(&mut store);
    let mut rig: CameraRig<Pose> = CameraRig::new();
    let views = frame(vec![view(XrEye::Left, [0.0; 3], 0), view(XrEye::Right, [1.0; 3], 1000)]);
    update_xr_cameras(Some(&views), Some(root), &mut rig, &mut store);
    let ids = (rig.eyes_left.entities[0].id, rig.eyes_right.entities[0].id);
    update_xr_cameras(None, Some(root), &mut rig, &mut store);
    assert!(!rig.eyes_left.entities[0].active);
    update_xr_cameras(Some(&views), Some(root), &mut rig, &mut store);
    assert_eq!((rig.eyes_left.entities[0].id, rig.eyes_right.entities[0].id), ids);
    assert!(rig.eyes_left.entities[0].active && rig.eyes_right.entities[0].active);
    assert_eq!(store.len(), 3);
}

#[test]
fn cameras_need_origin_frame_pose_layer_and_framebuffer() {
    let mut store = EntityStore::new();
    let root = origin(&mut store);
    let mut rig: CameraRig<Pose> = CameraRig::new();
    let good = frame(vec![view(XrEye::Neither, [0.0; 3], 0)]);
    update_xr_cameras(Some(&good), Some(root), &mut rig, &mut store);
    assert_eq!(rig.windows.len(), 1);
    assert!(rig.windows.entities[0].active);
    assert!(rig.windows.entities[0].data.flip_y);

    let no_pose: WebXrFrame<Pose> =
        WebXrFrame { viewer_pose: None, base_layer: Some(layer()), input_sources: vec![] };
    let no_layer: WebXrFrame<Pose> = WebXrFrame {
        viewer_pose: Some(XrViewerPose { views: vec![view(XrEye::Neither, [0.0; 3], 0)] }),
        base_layer: None,
        input_sources: vec![],
    };
    let no_framebuffer: WebXrFrame<Pose> = WebXrFrame {
        viewer_pose: Some(XrViewerPose { views: vec![view(XrEye::Neither, [0.0; 3], 0)] }),
        base_layer: Some(XrWebGlLayer { framebuffer: false, ..layer() }),
        input_sources: vec![],
    };
    let cases: Vec<(Option<&WebXrFrame<Pose>>, Option<EntityId>)> = vec![
        (Some(&good), None),
        (None, Some(root)),
        (Some(&no_pose), Some(root)),
        (Some(&no_layer), Some(root)),
        (Some(&no_framebuffer), Some(root)),
    ];
    for (xr_frame, at) in cases {
        update_xr_cameras(Some(&good), Some(root), &mut rig, &mut store);
        assert!(rig.windows.entities[0].active);
        let built = update_xr_cameras(xr_frame, at, &mut rig, &mut store);
        assert_eq!(built, None);
        assert_eq!(rig.windows.len(), 1);
        assert!(!rig.windows.entities[0].active);
        assert_eq!(store.len(), 2);
        assert!(store.is_alive(rig.windows.entities[0].id));
    }
}

#[test]
fn views_match_cameras_by_eye_and_rank() {
    let mut store = EntityStore::new();
    let root = origin(&mut store);
    let mut rig: CameraRig<Pose> = CameraRig::new();
    let first = frame(vec![
        view(XrEye::Right, [1.0; 3], 10),
        view(XrEye::Unknown, [9.0; 3], 90),
        view(XrEye::Left, [2.0; 3], 20),
        view(XrEye::Right, [3.0; 3], 30),
        view(XrEye::Neither, [4.0; 3], 40),
    ]);
    update_xr_cameras(Some(&first), Some(root), &mut rig, &mut store);
    assert_eq!((rig.eyes_left.len(), rig.eyes_right.len(), rig.windows.len()), (1, 2, 1));
    assert_eq!(rig.eyes_right.entities[0].id, EntityId(1));
    assert_eq!(rig.eyes_left.entities[0].id, EntityId(2));
    assert_eq!(rig.eyes_right.entities[1].id, EntityId(3));
    assert_eq!(rig.windows.entities[0].id, EntityId(4));
    assert_eq!(rig.eyes_right.entities[1].data.order, 3);
    assert_eq!(rig.windows.entities[0].data.order, 4);
    assert_eq!(store.len(), 5);

    let second = frame(vec![view(XrEye::Left, [5.0; 3], 50), view(XrEye::Right, [6.0; 3], 60)]);
    update_xr_cameras(Some(&second), Some(root), &mut rig, &mut store);
    assert_eq!((rig.eyes_left.len(), rig.eyes_right.len(), rig.windows.len()), (1, 2, 1));
    assert_eq!(rig.eyes_right.entities[0].data.pose, [6.0; 3]);
    assert_eq!(rig.eyes_right.entities[0].data.viewport.x, 60);
    assert_eq!(rig.eyes_right.entities[0].data.order, 0);
    assert!(rig.eyes_right.entities[0].active);
    assert!(!rig.eyes_right.entities[1].active);
    assert_eq!(rig.eyes_right.entities[1].data.pose, [3.0; 3]);
    assert!(!rig.windows.entities[0].active);
    assert!(rig.eyes_left.entities[0].active);
    assert_eq!(rig.eyes_left.entities[0].data.order, 2);
    assert_eq!(store.len(), 5);
}

#[test]
fn negative_device_coordinates_wrap() {
    assert_eq!(to_physical(0), 0);
    assert_eq!(to_physical(7), 7);
    assert_eq!(to_physical(i32::MAX), 2147483647);
    assert_eq!(to_physical(-1), 4294967295);
    assert_eq!(to_physical(i32::MIN), 2147483648);
    assert_eq!(
        to_physical_viewport(XrViewport { x: -2, y: 3, width: 640, height: -480 }),
        Viewport { x: 4294967294, y: 3, width: 640, height: 4294966816 }
    );
}

#[test]
fn stereo_halves_share_the_framebuffer() {
    let odd = XrWebGlLayer { framebuffer: true, framebuffer_width: 1921, framebuffer_height: 1080 };
    let cameras = spawn_webxr_camera(&odd);
    assert_eq!(cameras.view, FramebufferView { handle: STEREO_HANDLE, width: 1921, height: 1080 });
    assert_eq!(cameras.left, Viewport { x: 0, y: 0, width: 960, height: 1080 });
    assert_eq!(cameras.right, Viewport { x: 960, y: 0, width: 960, height: 1080 });
    assert_eq!(update_webxr_camera(&odd), cameras.view);
    assert_eq!(STEREO_HANDLE, 0);
    assert_eq!(FRAMEBUFFER_HANDLE, 5724242);
}
