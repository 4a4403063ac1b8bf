use vstd::prelude::*;
use crate::geometry::{Bounds, DevicePixels, Point, Size};

verus! {

/// A native screen rectangle given by its edges.
#[derive(Clone, Copy, Debug, PartialEq, Eq, Structural)]
pub struct NativeRect {
    /// Left edge.
    pub left: i32,
    /// Top edge.
    pub top: i32,
    /// Right edge (exclusive).
    pub right: i32,
    /// Bottom edge (exclusive).
    pub bottom: i32,
}

/// Rejection of a native window placement.
#[derive(Clone, Copy, Debug, PartialEq, Eq, Structural)]
pub enum PlacementError {
    /// The monitor handle is null.
    MissingNativeIdentity,
    /// The monitor has no device name.
    MissingDeviceIdentity,
    /// The monitor reported a zero or asymmetric DPI.
    InvalidDpi,
    /// A rectangle's width does not fit the coordinate type.
    WidthOverflow,
    /// A rectangle's height does not fit the coordinate type.
    HeightOverflow,
    /// A rectangle has a non-positive width or height.
    NonPositiveSize,
    /// A rectangle's right edge does not fit the coordinate type.
    RightOverflow,
    /// A rectangle's bottom edge does not fit the coordinate type.
    BottomOverflow,
    /// The work area lies outside the monitor bounds.
    WorkAreaOutsideMonitor,
    /// The outer placement scale is not finite and positive.
    InvalidScale,
    /// The outer bounds are not finite with a positive size.
    InvalidOuterBounds,
    /// Scaled outer bounds exceed the native coordinate range.
    CoordinateOutOfRange,
    /// Workspace-relative outer bounds exceed the native coordinate range.
    WorkspaceOutOfRange,
    /// Outer bounds start at the native default-position sentinel.
    DefaultPositionSentinel,
}

/// Bounds described by a rectangle whose width and height are representable and positive.
pub open spec fn rect_bounds_spec(rect: NativeRect) -> Result<Bounds<DevicePixels>, PlacementError> {
    let width = rect.right - rect.left;
    let height = rect.bottom - rect.top;
    if width < i32::MIN || width > i32::MAX {
        Err(PlacementError::WidthOverflow)
    } else if height < i32::MIN || height > i32::MAX {
        Err(PlacementError::HeightOverflow)
    } else if width <= 0 || height <= 0 {
        Err(PlacementError::NonPositiveSize)
    } else {
        Ok(
            Bounds {
                origin: Point { x: DevicePixels(rect.left), y: DevicePixels(rect.top) },
                size: Size { width: DevicePixels(width as i32), height: DevicePixels(height as i32) },
            },
        )
    }
}

/// The rectangle described by bounds with a positive size whose far edges are representable.
pub open spec fn bounds_rect_spec(bounds: Bounds<DevicePixels>) -> Result<NativeRect, PlacementError> {
    let right = bounds.origin.x.0 + bounds.size.width.0;
    let bottom = bounds.origin.y.0 + bounds.size.height.0;
    if bounds.size.width.0 <= 0 || bounds.size.height.0 <= 0 {
        Err(PlacementError::NonPositiveSize)
    } else if right > i32::MAX {
        Err(PlacementError::RightOverflow)
    } else if bottom > i32::MAX {
        Err(PlacementError::BottomOverflow)
    } else {
        Ok(
            NativeRect {
                left: bounds.origin.x.0,
                top: bounds.origin.y.0,
                right: right as i32,
                bottom: bottom as i32,
            },
        )
    }
}

/// The work area is a valid rectangle inside the valid monitor rectangle.
pub open spec fn work_area_check(monitor: Bounds<DevicePixels>, work: Bounds<DevicePixels>) -> Result<
    (),
    PlacementError,
> {
    match bounds_rect_spec(monitor) {
        Err(error) => Err(error),
        Ok(monitor) => match bounds_rect_spec(work) {
            Err(error) => Err(error),
            Ok(work) => if work.left >= monitor.left && work.top >= monitor.top && work.right
                <= monitor.right && work.bottom <= monitor.bottom {
                Ok(())
            } else {
                Err(PlacementError::WorkAreaOutsideMonitor)
            },
        },
    }
}

/// Converts a native rectangle into bounds.
pub fn rect_bounds(rect: NativeRect) -> (result: Result<Bounds<DevicePixels>, PlacementError>)
    ensures
        result == rect_bounds_spec(rect),
{
    let width = match rect.right.checked_sub(rect.left) {
        Some(width) => width,
        None => {
            return Err(PlacementError::WidthOverflow);
        },
    };
    let height = match rect.bottom.checked_sub(rect.top) {
        Some(height) => height,
        None => {
            return Err(PlacementError::HeightOverflow);
        },
    };
    if !(width > 0 && height > 0) {
        return Err(PlacementError::NonPositiveSize);
    }
    Ok(
        Bounds {
            origin: Point { x: DevicePixels(rect.left), y: DevicePixels(rect.top) },
            size: Size { width: DevicePixels(width), height: DevicePixels(height) },
        },
    )
}

/// Converts bounds into a native rectangle.
pub fn bounds_rect(bounds: Bounds<DevicePixels>) -> (result: Result<NativeRect, PlacementError>)
    ensures
        result == bounds_rect_spec(bounds),
{
    if !(bounds.size.width.0 > 0 && bounds.size.height.0 > 0) {
        return Err(PlacementError::NonPositiveSize);
    }
    let right = match bounds.origin.x.0.checked_add(bounds.size.width.0) {
        Some(right) => right,
        None => {
            return Err(PlacementError::RightOverflow);
        },
    };
    let bottom = match bounds.origin.y.0.checked_add(bounds.size.height.0) {
        Some(bottom) => bottom,
        None => {
            return Err(PlacementError::BottomOverflow);
        },
    };
    Ok(NativeRect { left: bounds.origin.x.0, top: bounds.origin.y.0, right, bottom })
}

/// Checks that a work area is a valid rectangle inside a valid monitor rectangle.
pub fn validate_work_area(monitor: Bounds<DevicePixels>, work: Bounds<DevicePixels>) -> (result:
    Result<(), PlacementError>)
    ensures
        result == work_area_check(monitor, work),
{
    let monitor = match bounds_rect(monitor) {
        Ok(rect) => rect,
        Err(error) => {
            return Err(error);
        },
    };
    let work = match bounds_rect(work) {
        Ok(rect) => rect,
        Err(error) => {
            return Err(error);
        },
    };
    if work.left >= monitor.left && work.top >= monitor.top && work.right <= monitor.right
        && work.bottom <= monitor.bottom {
        Ok(())
    } else {
        Err(PlacementError::WorkAreaOutsideMonitor)
    }
}

/// Converting a rectangle with a representable positive size to bounds and back yields the same
/// rectangle, and converting bounds with representable far edges to a rectangle and back yields
/// the same bounds.
pub proof fn lemma_rect_bounds_round_trip(rect: NativeRect, bounds: Bounds<DevicePixels>)
    ensures
        rect_bounds_spec(rect) is Ok ==> bounds_rect_spec(rect_bounds_spec(rect)->Ok_0) == Ok::<
            _,
            PlacementError,
        >(rect),
        bounds_rect_spec(bounds) is Ok ==> rect_bounds_spec(bounds_rect_spec(bounds)->Ok_0)
            == Ok::<_, PlacementError>(bounds),
{
}

/// A monitor's identity, geometry and DPI captured when a window placement was prepared.
#[derive(Clone, Copy, Debug, PartialEq, Eq)]
pub struct WindowsWindowPlacementMonitor {
    native_identity: usize,
    device_name: [u16; 32],
    physical_bounds: Bounds<DevicePixels>,
    work_area: Bounds<DevicePixels>,
    dpi: u32,
}

/// Native facts read from one monitor.
#[derive(Clone, Copy, Debug, PartialEq, Eq)]
pub struct NativeMonitorInfo {
    /// Monitor rectangle.
    pub monitor: NativeRect,
    /// Work-area rectangle.
    pub work: NativeRect,
    /// Null-terminated device name.
    pub device: [u16; 32],
}

/// Outcome of capturing a monitor from its handle, its native information and its DPI pair.
pub open spec fn capture_check(
    native_identity: usize,
    info: NativeMonitorInfo,
    dpi_x: u32,
    dpi_y: u32,
) -> Result<(Bounds<DevicePixels>, Bounds<DevicePixels>), PlacementError> {
    if native_identity == 0 {
        Err(PlacementError::MissingNativeIdentity)
    } else if rect_bounds_spec(info.monitor) is Err {
        Err(rect_bounds_spec(info.monitor)->Err_0)
    } else if rect_bounds_spec(info.work) is Err {
        Err(rect_bounds_spec(info.work)->Err_0)
    } else if work_area_check(
        rect_bounds_spec(info.monitor)->Ok_0,
        rect_bounds_spec(info.work)->Ok_0,
    ) is Err {
        Err(
            work_area_check(
                rect_bounds_spec(info.monitor)->Ok_0,
                rect_bounds_spec(info.work)->Ok_0,
            )->Err_0,
        )
    } else if info.device[0] == 0 {
        Err(PlacementError::MissingDeviceIdentity)
    } else if !(dpi_x > 0 && dpi_x == dpi_y) {
        Err(PlacementError::InvalidDpi)
    } else {
        Ok((rect_bounds_spec(info.monitor)->Ok_0, rect_bounds_spec(info.work)->Ok_0))
    }
}

impl WindowsWindowPlacementMonitor {
    /// The monitor's native handle value.
    pub closed spec fn identity(&self) -> usize {
        self.native_identity
    }

    /// The monitor's null-terminated device name buffer.
    pub closed spec fn device(&self) -> Seq<u16> {
        self.device_name@
    }

    /// The monitor's physical bounds.
    pub closed spec fn monitor_bounds(&self) -> Bounds<DevicePixels> {
        self.physical_bounds
    }

    /// The monitor's work area.
    pub closed spec fn work(&self) -> Bounds<DevicePixels> {
        self.work_area
    }

    /// The monitor's effective DPI.
    pub closed spec fn dots_per_inch(&self) -> u32 {
        self.dpi
    }

    /// Captures a monitor from its native handle value, the native information read for it, and
    /// the DPI pair read for it; rejects a null handle, invalid rectangles, a work area outside
    /// the monitor, an unnamed device, and a zero or asymmetric DPI.
    pub fn capture(native_identity: usize, info: NativeMonitorInfo, dpi_x: u32, dpi_y: u32) -> (result:
        Result<Self, PlacementError>)
        ensures
            match result {
                Ok(monitor) => capture_check(native_identity, info, dpi_x, dpi_y) == Ok::<
                    _,
                    PlacementError,
                >((monitor.monitor_bounds(), monitor.work())) && monitor.identity()
                    == native_identity && monitor.device() == info.device@
                    && monitor.dots_per_inch() == dpi_x,
                Err(error) => capture_check(native_identity, info, dpi_x, dpi_y) == Err::<
                    (Bounds<DevicePixels>, Bounds<DevicePixels>),
                    _,
                >(error),
            },
    {
        if native_identity == 0 {
            return Err(PlacementError::MissingNativeIdentity);
        }
        let physical_bounds = match rect_bounds(info.monitor) {
            Ok(bounds) => bounds,
            Err(error) => {
                return Err(error);
            },
        };
        let work_area = match rect_bounds(info.work) {
            Ok(bounds) => bounds,
            Err(error) => {
                return Err(error);
            },
        };
        match validate_work_area(physical_bounds, work_area) {
            Ok(()) => {},
            Err(error) => {
                return Err(error);
            },
        }
        if info.device[0] == 0 {
            return Err(PlacementError::MissingDeviceIdentity);
        }
        if !(dpi_x > 0 && dpi_x == dpi_y) {
            return Err(PlacementError::InvalidDpi);
        }
        Ok(
            Self {
                native_identity,
                device_name: info.device,
                physical_bounds,
                work_area,
                dpi: dpi_x,
            },
        )
    }

    /// Replaces the captured work area.
    pub fn with_test_work_area(self, work_area: Bounds<DevicePixels>) -> (monitor: Self)
        ensures
            monitor.work() == work_area,
            monitor.identity() == self.identity(),
            monitor.device() == self.device(),
            monitor.monitor_bounds() == self.monitor_bounds(),
            monitor.dots_per_inch() == self.dots_per_inch(),
    {
        Self { work_area, ..self }
    }

    /// Replaces the captured DPI.
    pub fn with_test_dpi(self, dpi: u32) -> (monitor: Self)
        ensures
            monitor.dots_per_inch() == dpi,
            monitor.identity() == self.identity(),
            monitor.device() == self.device(),
            monitor.monitor_bounds() == self.monitor_bounds(),
            monitor.work() == self.work(),
    {
        Self { dpi, ..self }
    }

    /// Replaces the captured native handle value.
    pub fn with_test_native_identity(self, native_identity: usize) -> (monitor: Self)
        ensures
            monitor.identity() == native_identity,
            monitor.device() == self.device(),
            monitor.monitor_bounds() == self.monitor_bounds(),
            monitor.work() == self.work(),
            monitor.dots_per_inch() == self.dots_per_inch(),
    {
        Self { native_identity, ..self }
    }

    /// The monitor's native handle value.
    pub fn native_identity(&self) -> (identity: usize)
        ensures
            identity == self.identity(),
    {
        self.native_identity
    }

    /// The device name up to (excluding) its first null code unit.
    pub fn device_name(&self) -> (name: &[u16])
        ensures
            self.device().len() == 32,
            exists|end: int|
                #![trigger self.device().subrange(0, end)]
                0 <= end <= 32 && name@ == self.device().subrange(0, end) && (end == 32
                    || self.device()[end] == 0) && forall|i: int|
                    0 <= i < end ==> #[trigger] self.device()[i] != 0,
    {
        let mut end: usize = 0;
        while end < 32 && self.device_name[end] != 0
            invariant
                end <= 32,
                self.device_name@.len() == 32,
                forall|i: int| 0 <= i < end ==> #[trigger] self.device_name@[i] != 0,
            decreases 32 - end,
        {
            end = end + 1;
        }
        let name = vstd::slice::slice_subrange(self.device_name.as_slice(), 0, end);
        assert(name@ == self.device().subrange(0, end as int));
        name
    }

    /// The monitor's physical bounds.
    pub fn physical_bounds(&self) -> (bounds: Bounds<DevicePixels>)
        ensures
            bounds == self.monitor_bounds(),
    {
        self.physical_bounds
    }

    /// The monitor's work area.
    pub fn work_area(&self) -> (bounds: Bounds<DevicePixels>)
        ensures
            bounds == self.work(),
    {
        self.work_area
    }

    /// The monitor's effective DPI.
    pub fn dpi(&self) -> (dpi: u32)
        ensures
            dpi == self.dots_per_inch(),
    {
        self.dpi
    }

    /// Builds an outer placement on this monitor from the outer window's scaled screen rectangle
    /// (or the error that scaling reported).
    pub fn outer_placement(
        &self,
        screen: Result<NativeRect, PlacementError>,
        tool_window: bool,
    ) -> (result: Result<WindowsOuterWindowPlacement, PlacementError>)
        ensures
            match result {
                Ok(placement) => outer_placement_check(
                    self.monitor_bounds(),
                    self.work(),
                    screen,
                    tool_window,
                ) == Ok::<_, PlacementError>((placement.screen(), placement.workspace())),
                Err(error) => outer_placement_check(
                    self.monitor_bounds(),
                    self.work(),
                    screen,
                    tool_window,
                ) == Err::<(Bounds<DevicePixels>, Bounds<DevicePixels>), _>(error),
            },
    {
        WindowsOuterWindowPlacement::from_screen_rect(
            self.physical_bounds,
            self.work_area,
            screen,
            tool_window,
        )
    }
}

/// Outer window bounds in screen coordinates and in workspace coordinates.
#[derive(Clone, Copy, Debug, PartialEq, Eq, Structural)]
pub struct WindowsOuterWindowPlacement {
    screen_bounds: Bounds<DevicePixels>,
    workspace_bounds: Bounds<DevicePixels>,
}

/// The workspace-relative rectangle: the screen rectangle shifted by the work area's offset from
/// the monitor origin (no shift for tool windows, which are placed in screen coordinates).
pub open spec fn workspace_rect(
    screen: NativeRect,
    monitor: Bounds<DevicePixels>,
    work: Bounds<DevicePixels>,
    tool_window: bool,
) -> (int, int, int, int) {
    let dx = if tool_window { 0int } else { work.origin.x.0 - monitor.origin.x.0 };
    let dy = if tool_window { 0int } else { work.origin.y.0 - monitor.origin.y.0 };
    (screen.left - dx, screen.top - dy, screen.right - dx, screen.bottom - dy)
}

/// Outcome of building an outer placement from its scaled screen rectangle.
pub open spec fn outer_placement_check(
    monitor: Bounds<DevicePixels>,
    work: Bounds<DevicePixels>,
    screen: Result<NativeRect, PlacementError>,
    tool_window: bool,
) -> Result<(Bounds<DevicePixels>, Bounds<DevicePixels>), PlacementError> {
    if work_area_check(monitor, work) is Err {
        Err(work_area_check(monitor, work)->Err_0)
    } else {
        match screen {
            Err(error) => Err(error),
            Ok(screen) => match rect_bounds_spec(screen) {
                Err(error) => Err(error),
                Ok(screen_bounds) => {
                    let (left, top, right, bottom) = workspace_rect(
                        screen,
                        monitor,
                        work,
                        tool_window,
                    );
                    if !(i32::MIN <= left <= i32::MAX && i32::MIN <= top <= i32::MAX && i32::MIN
                        <= right <= i32::MAX && i32::MIN <= bottom <= i32::MAX) {
                        Err(PlacementError::WorkspaceOutOfRange)
                    } else {
                        match rect_bounds_spec(
                            NativeRect {
                                left: left as i32,
                                top: top as i32,
                                right: right as i32,
                                bottom: bottom as i32,
                            },
                        ) {
                            Err(error) => Err(error),
                            Ok(workspace_bounds) => Ok((screen_bounds, workspace_bounds)),
                        }
                    }
                },
            },
        }
    }
}

fn offset_coordinate(value: i32, delta: i64) -> (result: Result<i32, PlacementError>)
    requires
        -0x1_0000_0000 <= delta <= 0x1_0000_0000,
    ensures
        match result {
            Ok(coordinate) => coordinate == value - delta,
            Err(error) => (value - delta < i32::MIN || value - delta > i32::MAX) && error
                == PlacementError::WorkspaceOutOfRange,
        },
{
    let shifted = value as i64 - delta;
    if shifted < i32::MIN as i64 || shifted > i32::MAX as i64 {
        Err(PlacementError::WorkspaceOutOfRange)
    } else {
        Ok(shifted as i32)
    }
}

impl WindowsOuterWindowPlacement {
    /// The placement's screen bounds.
    pub closed spec fn screen(&self) -> Bounds<DevicePixels> {
        self.screen_bounds
    }

    /// The placement's workspace bounds.
    pub closed spec fn workspace(&self) -> Bounds<DevicePixels> {
        self.workspace_bounds
    }

    /// Builds an outer placement from the monitor and work-area bounds and the outer window's
    /// scaled screen rectangle (or the error that scaling reported).
    pub fn from_screen_rect(
        monitor_bounds: Bounds<DevicePixels>,
        work_area: Bounds<DevicePixels>,
        screen: Result<NativeRect, PlacementError>,
        tool_window: bool,
    ) -> (result: Result<Self, PlacementError>)
        ensures
            match result {
                Ok(placement) => outer_placement_check(monitor_bounds, work_area, screen, tool_window)
                    == Ok::<_, PlacementError>((placement.screen(), placement.workspace())),
                Err(error) => outer_placement_check(monitor_bounds, work_area, screen, tool_window)
                    == Err::<(Bounds<DevicePixels>, Bounds<DevicePixels>), _>(error),
            },
    {
        match validate_work_area(monitor_bounds, work_area) {
            Ok(()) => {},
            Err(error) => {
                return Err(error);
            },
        }
        let screen = match screen {
            Ok(screen) => screen,
            Err(error) => {
                return Err(error);
            },
        };
        let screen_bounds = match rect_bounds(screen) {
            Ok(bounds) => bounds,
            Err(error) => {
                return Err(error);
            },
        };
        let (dx, dy): (i64, i64) = if tool_window {
            (0, 0)
        } else {
            (
                work_area.origin.x.0 as i64 - monitor_bounds.origin.x.0 as i64,
                work_area.origin.y.0 as i64 - monitor_bounds.origin.y.0 as i64,
            )
        };
        let left = match offset_coordinate(screen.left, dx) {
            Ok(value) => value,
            Err(error) => {
                return Err(error);
            },
        };
        let top = match offset_coordinate(screen.top, dy) {
            Ok(value) => value,
            Err(error) => {
                return Err(error);
            },
        };
        let right = match offset_coordinate(screen.right, dx) {
            Ok(value) => value,
            Err(error) => {
                return Err(error);
            },
        };
        let bottom = match offset_coordinate(screen.bottom, dy) {
            Ok(value) => value,
            Err(error) => {
                return Err(error);
            },
        };
        let workspace_bounds = match rect_bounds(NativeRect { left, top, right, bottom }) {
            Ok(bounds) => bounds,
            Err(error) => {
                return Err(error);
            },
        };
        Ok(Self { screen_bounds, workspace_bounds })
    }

    /// Screen-coordinate outer bounds.
    pub fn screen_bounds(&self) -> (bounds: Bounds<DevicePixels>)
        ensures
            bounds == self.screen(),
    {
        self.screen_bounds
    }

    /// Workspace-coordinate outer bounds.
    pub fn workspace_bounds(&self) -> (bounds: Bounds<DevicePixels>)
        ensures
            bounds == self.workspace(),
    {
        self.workspace_bounds
    }

    /// The placement's screen rectangle, rejecting one whose left or top edge is the native
    /// default-position sentinel.
    pub fn screen_rect(&self) -> (result: Result<NativeRect, PlacementError>)
        ensures
            match bounds_rect_spec(self.screen()) {
                Err(error) => result == Err::<NativeRect, _>(error),
                Ok(rect) => if rect.left == i32::MIN || rect.top == i32::MIN {
                    result == Err::<NativeRect, _>(PlacementError::DefaultPositionSentinel)
                } else {
                    result == Ok::<_, PlacementError>(rect)
                },
            },
    {
        let rect = match bounds_rect(self.screen_bounds) {
            Ok(rect) => rect,
            Err(error) => {
                return Err(error);
            },
        };
        if rect.left == i32::MIN || rect.top == i32::MIN {
            return Err(PlacementError::DefaultPositionSentinel);
        }
        Ok(rect)
    }
}

/// An accepted outer placement keeps the window's size in workspace coordinates, and its
/// workspace origin is its screen origin shifted by the work area's offset from the monitor
/// origin (unshifted for tool windows).
pub proof fn lemma_outer_placement_preserves_size(
    monitor: Bounds<DevicePixels>,
    work: Bounds<DevicePixels>,
    screen: Result<NativeRect, PlacementError>,
    tool_window: bool,
)
    requires
        outer_placement_check(monitor, work, screen, tool_window) is Ok,
    ensures
        ({
            let (screen_bounds, workspace_bounds) = outer_placement_check(
                monitor,
                work,
                screen,
                tool_window,
            )->Ok_0;
            let dx = if tool_window { 0int } else { work.origin.x.0 - monitor.origin.x.0 };
            let dy = if tool_window { 0int } else { work.origin.y.0 - monitor.origin.y.0 };
            &&& workspace_bounds.size == screen_bounds.size
            &&& workspace_bounds.origin.x.0 == screen_bounds.origin.x.0 - dx
            &&& workspace_bounds.origin.y.0 == screen_bounds.origin.y.0 - dy
        }),
{
}

} // verus!
