use prim_core::stages::CoreStages;
use prim_core::window::{PrimWindow, PrimWindowMode, PrimWindowResized};

#[test]
fn test_window_reports_its_size() {
    let mut window = PrimWindow::new(1280, 720);
    assert_eq!(window.width(), 1280);
    assert_eq!(window.height(), 720);
    window.update(1920, 1080);
    assert_eq!(window.width(), 1920);
    assert_eq!(window.height(), 1080);
}

#[test]
fn test_resize_event_accessors() {
    let event = PrimWindowResized::from_size(800, 600);
    assert_eq!(event.new_size(), (800, 600));
    assert_eq!(event.width(), 800);
    assert_eq!(event.height(), 600);
}

#[test]
fn test_window_mode_default() {
    assert_eq!(PrimWindowMode::default(), PrimWindowMode::Window);
}

#[test]
fn test_stage_order_is_ascending() {
    let stages = [
        CoreStages::Startup,
        CoreStages::PreUpdate,
        CoreStages::Update,
        CoreStages::PostUpdate,
        CoreStages::Collect,
        CoreStages::Render,
    ];
    for pair in stages.windows(2) {
        assert!(pair[0].order() < pair[1].order());
    }
}
