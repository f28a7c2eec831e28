use canvas_rs::canvas::Canvas;
use canvas_rs::matrix::Matrix;

#[test]
fn context_size_is_canvas_size() {
    let canvas = Canvas::new(640, 480);
    let ctx = canvas.get_context();
    assert_eq!(ctx.size(), (640, 480));
}

#[test]
fn fresh_context_is_identity_with_empty_stack() {
    let canvas = Canvas::new(640, 480);
    let ctx = canvas.get_context();
    assert_eq!(ctx.current_transform(), Matrix::identity());
    assert_eq!(ctx.stack_depth(), 0);
}

#[test]
fn save_resets_current_to_identity() {
    let canvas = Canvas::new(640, 480);
    let mut ctx = canvas.get_context();
    ctx.save();
    assert_eq!(ctx.current_transform(), Matrix::identity());
    assert_eq!(ctx.stack_depth(), 1);
}

#[test]
fn save_restore_roundtrip_leaves_state_unchanged() {
    let canvas = Canvas::new(640, 480);
    let mut ctx = canvas.get_context();
    let before = ctx.current_transform();
    let depth_before = ctx.stack_depth();
    ctx.save();
    ctx.restore();
    assert_eq!(ctx.current_transform(), before);
    assert_eq!(ctx.stack_depth(), depth_before);
}

#[test]
fn restore_on_empty_stack_is_a_noop() {
    let canvas = Canvas::new(640, 480);
    let mut ctx = canvas.get_context();
    ctx.restore();
    assert_eq!(ctx.current_transform(), Matrix::identity());
    assert_eq!(ctx.stack_depth(), 0);
}

#[test]
fn stack_depth_tracks_saves_and_restores() {
    let canvas = Canvas::new(640, 480);
    let mut ctx = canvas.get_context();
    ctx.save();
    ctx.save();
    assert_eq!(ctx.stack_depth(), 2);
    ctx.restore();
    assert_eq!(ctx.stack_depth(), 1);
}

#[test]
fn three_restores_against_two_saves() {
    let canvas = Canvas::new(640, 480);
    let mut ctx = canvas.get_context();
    ctx.save();
    ctx.save();
    ctx.restore();
    ctx.restore();
    ctx.restore();
    assert_eq!(ctx.current_transform(), Matrix::identity());
    assert_eq!(ctx.stack_depth(), 0);
}
