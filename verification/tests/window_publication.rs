use gpui_bounded::geometry::{Bounds, Pixels, Point, Size};
use gpui_bounded::publication::{WindowBounds, WindowPublication, WindowPublicationError};

fn default_bounds() -> Bounds<Pixels> {
    Bounds::default()
}

fn open_window_with_bounds(show: bool, focus: bool, window_bounds: Option<WindowBounds>) -> WindowPublication {
    WindowPublication::open(show, focus, window_bounds.unwrap_or(WindowBounds::Windowed(default_bounds())))
}

fn open_window(show: bool) -> WindowPublication {
    open_window_with_bounds(show, true, None)
}

#[test]
fn window_publication_requires_test_support() {}

#[test]
fn hidden_window_waits_for_one_explicit_visibility_change() {
    let mut window = open_window(false);

    let initial = window.visibility();
    assert!(!initial.is_visible);
    assert_eq!(initial.visibility_change_count, 0);
    assert!(!initial.is_active);
    assert_eq!(initial.activation_change_count, 0);

    window.activate_window();
    window.minimize_window();
    let prepared = window.visibility();
    assert!(!prepared.is_visible);
    assert!(!prepared.is_active);
    assert_eq!(prepared.activation_change_count, 0);
    assert!(!prepared.is_minimized);
    assert_eq!(prepared.minimize_change_count, 0);

    window.publish().unwrap();
    let published = window.visibility();
    assert!(published.is_visible);
    assert_eq!(published.visibility_change_count, 1);
    assert!(!published.is_active);
    assert_eq!(published.activation_change_count, 0);

    window.activate_window();
    let activated = window.visibility();
    assert!(activated.is_active);
    assert_eq!(activated.activation_change_count, 1);

    window.minimize_window();
    let minimized = window.visibility();
    assert!(minimized.is_minimized);
    assert_eq!(minimized.minimize_change_count, 1);

    window.publish().unwrap();
    assert_eq!(window.visibility().visibility_change_count, 1);
}

#[test]
fn immediate_window_is_visible_once_at_creation() {
    let mut window = open_window(true);

    let visible = window.visibility();
    assert!(visible.is_visible);
    assert_eq!(visible.visibility_change_count, 1);
    assert!(visible.is_active);
    assert_eq!(visible.activation_change_count, 1);

    window.publish().unwrap();
    assert_eq!(window.visibility().visibility_change_count, 1);

    let unfocused = open_window_with_bounds(true, false, None);
    let unfocused_state = unfocused.visibility();
    assert!(unfocused_state.is_visible);
    assert!(!unfocused_state.is_active);
    assert_eq!(unfocused_state.activation_change_count, 0);
}

#[test]
fn failed_visibility_change_remains_retryable() {
    let mut window = open_window(false);
    window.fail_next_visibility_change();

    assert!(window.publish().is_err());
    let failed = window.visibility();
    assert!(!failed.is_visible);
    assert_eq!(failed.visibility_change_count, 0);

    window.publish().unwrap();
    assert_eq!(window.visibility().visibility_change_count, 1);
}

#[test]
fn closed_window_handle_cannot_publish() {
    let mut window = open_window(false);

    window.remove_window();
    assert!(window.publish().is_err());
}

#[test]
fn removed_window_cannot_publish_in_the_same_update() {
    let mut window = open_window(false);

    window.remove_window();
    assert_eq!(window.publish(), Err(WindowPublicationError::Closed));
}

#[test]
fn hidden_initial_states_are_fixed_until_publication() {
    let bounds = Bounds {
        origin: Point { x: Pixels(10.0f32.to_bits()), y: Pixels(20.0f32.to_bits()) },
        size: Size { width: Pixels(300.0f32.to_bits()), height: Pixels(200.0f32.to_bits()) },
    };
    for window_bounds in [
        WindowBounds::Windowed(default_bounds()),
        WindowBounds::Maximized(default_bounds()),
        WindowBounds::Fullscreen(default_bounds()),
        WindowBounds::Maximized(bounds),
    ] {
        let mut window = open_window_with_bounds(false, true, Some(window_bounds));

        window.zoom_window();
        window.toggle_fullscreen();
        assert_eq!(window.window_bounds(), window_bounds);

        window.publish().unwrap();
        window.zoom_window();
        let zoomed_bounds = match window_bounds {
            WindowBounds::Maximized(bounds) => WindowBounds::Windowed(bounds),
            WindowBounds::Fullscreen(bounds) | WindowBounds::Windowed(bounds) => {
                WindowBounds::Maximized(bounds)
            }
        };
        assert_eq!(window.window_bounds(), zoomed_bounds);
        window.toggle_fullscreen();
        assert_eq!(window.window_bounds(), WindowBounds::Fullscreen(window_bounds.get_bounds()));
    }
}

#[test]
fn fullscreen_toggle_returns_to_a_windowed_state() {
    let mut window = open_window(true);
    window.toggle_fullscreen();
    assert_eq!(window.window_bounds(), WindowBounds::Fullscreen(default_bounds()));
    window.toggle_fullscreen();
    assert_eq!(window.window_bounds(), WindowBounds::Windowed(default_bounds()));
}
