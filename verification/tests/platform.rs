use gpui_bounded::atlas::{
    bounds_bytes, tile_bytes_estimate, AtlasFlushRegion, AtlasTextureId, AtlasTextureKind, DirectXAtlasTexture,
};
use gpui_bounded::geometry::{Bounds, DevicePixels, Point, Size};
use gpui_bounded::native_operation::{
    NativeOperationError, NativeOperationState, WindowsHiddenWindowLeaseRelease,
};
use gpui_bounded::placement::{
    bounds_rect, rect_bounds, validate_work_area, NativeMonitorInfo, NativeRect, PlacementError,
    WindowsOuterWindowPlacement, WindowsWindowPlacementMonitor,
};

fn bounds(x: i32, y: i32, width: i32, height: i32) -> Bounds<DevicePixels> {
    Bounds {
        origin: Point { x: DevicePixels(x), y: DevicePixels(y) },
        size: Size { width: DevicePixels(width), height: DevicePixels(height) },
    }
}

fn rect(left: i32, top: i32, right: i32, bottom: i32) -> NativeRect {
    NativeRect { left, top, right, bottom }
}

fn device_name(name: &str) -> [u16; 32] {
    let mut device = [0u16; 32];
    for (slot, unit) in device.iter_mut().zip(name.encode_utf16()) {
        *slot = unit;
    }
    device
}

fn monitor() -> WindowsWindowPlacementMonitor {
    WindowsWindowPlacementMonitor::capture(
        0x1234,
        NativeMonitorInfo {
            monitor: rect(0, 0, 1920, 1080),
            work: rect(0, 40, 1920, 1080),
            device: device_name(r"\\.\DISPLAY1"),
        },
        144,
        144,
    )
    .unwrap()
}

#[test]
fn native_rectangles_and_bounds_round_trip() {
    let native = rect(-10, 20, 90, 220);
    let converted = rect_bounds(native).unwrap();
    assert_eq!(converted, bounds(-10, 20, 100, 200));
    assert_eq!(bounds_rect(converted), Ok(native));
    assert_eq!(rect_bounds(rect(5, 5, 5, 10)), Err(PlacementError::NonPositiveSize));
    assert_eq!(rect_bounds(rect(i32::MIN, 0, i32::MAX, 10)), Err(PlacementError::WidthOverflow));
    assert_eq!(rect_bounds(rect(0, i32::MIN, 10, i32::MAX)), Err(PlacementError::HeightOverflow));
    assert_eq!(bounds_rect(bounds(i32::MAX, 0, 1, 1)), Err(PlacementError::RightOverflow));
    assert_eq!(bounds_rect(bounds(0, i32::MAX, 1, 1)), Err(PlacementError::BottomOverflow));
}

#[test]
fn work_area_must_lie_inside_the_monitor() {
    assert_eq!(validate_work_area(bounds(0, 0, 100, 100), bounds(0, 10, 100, 90)), Ok(()));
    assert_eq!(
        validate_work_area(bounds(0, 0, 100, 100), bounds(0, 10, 100, 100)),
        Err(PlacementError::WorkAreaOutsideMonitor)
    );
}

#[test]
fn captured_monitor_reports_its_identity_geometry_and_dpi() {
    let captured = monitor();
    assert_eq!(captured.native_identity(), 0x1234);
    assert_eq!(String::from_utf16(captured.device_name()).unwrap(), r"\\.\DISPLAY1");
    assert_eq!(captured.physical_bounds(), bounds(0, 0, 1920, 1080));
    assert_eq!(captured.work_area(), bounds(0, 40, 1920, 1040));
    assert_eq!(captured.dpi(), 144);

    let changed = captured
        .with_test_work_area(bounds(0, 0, 1920, 1000))
        .with_test_dpi(96)
        .with_test_native_identity(7);
    assert_eq!(changed.work_area(), bounds(0, 0, 1920, 1000));
    assert_eq!(changed.dpi(), 96);
    assert_eq!(changed.native_identity(), 7);
    assert_eq!(changed.physical_bounds(), captured.physical_bounds());
}

#[test]
fn monitor_capture_rejections_are_ordered() {
    let info = NativeMonitorInfo {
        monitor: rect(0, 0, 1920, 1080),
        work: rect(0, 40, 1920, 1080),
        device: device_name("D"),
    };
    assert_eq!(
        WindowsWindowPlacementMonitor::capture(0, info, 96, 96).err(),
        Some(PlacementError::MissingNativeIdentity)
    );
    assert_eq!(
        WindowsWindowPlacementMonitor::capture(1, NativeMonitorInfo { device: [0; 32], ..info }, 96, 96)
            .err(),
        Some(PlacementError::MissingDeviceIdentity)
    );
    assert_eq!(WindowsWindowPlacementMonitor::capture(1, info, 96, 120).err(), Some(PlacementError::InvalidDpi));
    assert_eq!(WindowsWindowPlacementMonitor::capture(1, info, 0, 0).err(), Some(PlacementError::InvalidDpi));
    assert_eq!(
        WindowsWindowPlacementMonitor::capture(
            1,
            NativeMonitorInfo { work: rect(0, 0, 2000, 1080), ..info },
            96,
            96
        )
        .err(),
        Some(PlacementError::WorkAreaOutsideMonitor)
    );
    let full_name = [0x41u16; 32];
    let named = WindowsWindowPlacementMonitor::capture(1, NativeMonitorInfo { device: full_name, ..info }, 96, 96)
        .unwrap();
    assert_eq!(named.device_name().len(), 32);
}

#[test]
fn outer_placement_offsets_workspace_by_the_work_area() {
    let captured = monitor();
    let placement = captured.outer_placement(Ok(rect(150, 240, 450, 540)), false).unwrap();
    assert_eq!(placement.screen_bounds(), bounds(150, 240, 300, 300));
    assert_eq!(placement.workspace_bounds(), bounds(150, 200, 300, 300));
    assert_eq!(placement.screen_rect(), Ok(rect(150, 240, 450, 540)));

    let tool = captured.outer_placement(Ok(rect(150, 240, 450, 540)), true).unwrap();
    assert_eq!(tool.workspace_bounds(), bounds(150, 240, 300, 300));

    assert_eq!(
        captured.outer_placement(Err(PlacementError::CoordinateOutOfRange), false).err(),
        Some(PlacementError::CoordinateOutOfRange)
    );
    assert_eq!(
        captured.outer_placement(Ok(rect(10, 10, 10, 20)), false).err(),
        Some(PlacementError::NonPositiveSize)
    );
    assert_eq!(
        WindowsOuterWindowPlacement::from_screen_rect(
            bounds(0, 0, 100, 100),
            bounds(0, 10, 100, 90),
            Ok(rect(0, i32::MIN, 10, i32::MIN + 10)),
            false,
        )
        .err(),
        Some(PlacementError::WorkspaceOutOfRange)
    );
    let sentinel = WindowsOuterWindowPlacement::from_screen_rect(
        bounds(0, 0, 100, 100),
        bounds(0, 0, 100, 100),
        Ok(rect(i32::MIN, 0, i32::MIN + 10, 10)),
        false,
    )
    .unwrap();
    assert_eq!(sentinel.screen_rect(), Err(PlacementError::DefaultPositionSentinel));
}

#[test]
fn hidden_window_lease_is_issued_once_and_defers_destruction() {
    let mut state = NativeOperationState::new();
    assert_eq!(state.lease_hidden_native_window(true), Err(NativeOperationError::WindowVisible));
    assert_eq!(state.lease_hidden_native_window(false), Ok(()));
    assert!(state.native_exposure_blocked());
    assert_eq!(
        state.lease_hidden_native_window(false),
        Err(NativeOperationError::OperationAlreadyIssued)
    );
    assert!(state.latch_native_close_request());
    assert!(state.native_close_requested());
    assert!(!state.request_native_destruction());
    assert_eq!(state.begin_native_destruction(), Err(NativeOperationError::DestructionDuringOperation));
    assert!(state.release_lease());
    assert_eq!(
        state.lease_release(),
        WindowsHiddenWindowLeaseRelease { close_requested: true, native_destroyed: false }
    );
    assert_eq!(state.begin_native_destruction(), Ok(true));
    assert!(!state.native_did_finish_destroy());
    assert_eq!(state.begin_native_destruction(), Ok(false));
}

#[test]
fn published_windows_cannot_lease_or_latch() {
    let mut state = NativeOperationState::new();
    state.native_did_publish();
    assert!(!state.latch_native_close_request());
    assert_eq!(
        state.lease_hidden_native_window(false),
        Err(NativeOperationError::PublishedClosingOrDestroyed)
    );
    assert!(!state.native_exposure_blocked());
    assert!(state.request_native_destruction());
    assert!(!state.request_native_destruction());
    assert!(state.native_exposure_blocked());
}

#[test]
fn destruction_receipt_is_issued_once_and_completed_once() {
    let mut state = NativeOperationState::new();
    assert_eq!(state.observe_native_destruction(), Ok(()));
    assert_eq!(state.observe_native_destruction(), Err(NativeOperationError::ReceiptAlreadyIssued));
    assert!(state.native_did_finish_destroy());
    assert!(!state.complete_native_destruction());
    assert_eq!(state.observe_native_destruction(), Err(NativeOperationError::AlreadyDestroyed));
    state.native_did_destroy();
    assert_eq!(state.begin_native_destruction(), Ok(false));
}

#[test]
fn atlas_texture_sizes_are_clamped_to_device_limits() {
    let texture = DirectXAtlasTexture::new(
        AtlasTextureId { index: 0, kind: AtlasTextureKind::Polychrome },
        Size { width: DevicePixels(10), height: DevicePixels(2048) },
    );
    assert_eq!(texture.texture_bytes(), 1024 * 2048 * 4);
    assert!(texture.is_unreferenced());
    assert_eq!(texture.bounds_bytes(bounds(0, 0, 3, 5)), 60);
}

#[test]
fn atlas_bounds_clamp_to_the_texture() {
    let texture = DirectXAtlasTexture::new(
        AtlasTextureId { index: 0, kind: AtlasTextureKind::Monochrome },
        Size { width: DevicePixels(1024), height: DevicePixels(1024) },
    );
    assert_eq!(texture.clamp_bounds(bounds(-5, 10, 20, 20)), Some(bounds(0, 10, 15, 20)));
    assert_eq!(texture.clamp_bounds(bounds(1020, 1020, 20, 20)), Some(bounds(1020, 1020, 4, 4)));
    assert_eq!(texture.clamp_bounds(bounds(2000, 0, 20, 20)), None);
    assert_eq!(texture.clamp_bounds(bounds(0, 0, 0, 20)), None);
}

#[test]
fn atlas_uploads_union_into_one_flush_region() {
    let mut texture = DirectXAtlasTexture::new(
        AtlasTextureId { index: 0, kind: AtlasTextureKind::Polychrome },
        Size { width: DevicePixels(1024), height: DevicePixels(1024) },
    );
    assert_eq!(texture.flush(), None);
    texture.upload(bounds(2, 3, 2, 2), &[1u8; 16]);
    texture.upload(bounds(10, 1, 1, 1), &[2u8; 4]);
    assert_eq!(
        texture.flush(),
        Some(AtlasFlushRegion { bounds: bounds(2, 1, 9, 4), source_offset: 4096 + 8, row_pitch: 4096 })
    );
    assert_eq!(texture.flush(), None);
    let tile = texture.allocate(Size { width: DevicePixels(8), height: DevicePixels(8) }).unwrap();
    assert_eq!(tile.bounds.size, Size { width: DevicePixels(8), height: DevicePixels(8) });
    assert!(!texture.is_unreferenced());
    texture.decrement_ref_count();
    assert!(texture.is_unreferenced());
}

#[test]
fn bounds_bytes_treat_negative_extents_as_empty() {
    assert_eq!(bounds_bytes(bounds(0, 0, -4, 10), 4), 0);
    assert_eq!(bounds_bytes(bounds(0, 0, 4, 10), 4), 160);
    assert_eq!(tile_bytes_estimate(bounds(0, 0, 4, 10)), 160);
}

#[test]
fn a_new_atlas_texture_grants_a_fitting_tile_and_refuses_empty_or_oversized_ones() {
    let mut texture = DirectXAtlasTexture::new(
        AtlasTextureId { index: 0, kind: AtlasTextureKind::Monochrome },
        Size { width: DevicePixels(1024), height: DevicePixels(1024) },
    );
    assert_eq!(texture.allocate(Size { width: DevicePixels(0), height: DevicePixels(4) }), None);
    assert_eq!(texture.allocate(Size { width: DevicePixels(1025), height: DevicePixels(4) }), None);
    assert!(texture.is_unreferenced());
    let tile = texture.allocate(Size { width: DevicePixels(1024), height: DevicePixels(1024) }).unwrap();
    assert_eq!(tile.bounds.origin.x.0, 0);
    assert_eq!(tile.bounds.origin.y.0, 0);
    assert_eq!(texture.live_atlas_keys(), 1);
}
