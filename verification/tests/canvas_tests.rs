use canvas_rs::Renderer;
use canvas_rs::canvas::{Canvas, OpKind};

/// A renderer that records each call it receives, in order.
struct Recorder {
    width: i64,
    height: i64,
    calls: Vec<String>,
}

impl Renderer for Recorder {
    fn size(&self) -> (i64, i64) {
        (self.width, self.height)
    }

    fn render_path(&mut self, path: &str) {
        self.calls.push(format!("path:{}", path));
    }

    fn render_image(&mut self, path: &str) {
        self.calls.push(format!("image:{}", path));
    }

    fn render_text(&mut self, text: &str) {
        self.calls.push(format!("text:{}", text));
    }
}

fn recorder() -> Recorder {
    Recorder { width: 800, height: 600, calls: Vec::new() }
}

#[test]
fn new_canvas_size_getters() {
    let canvas = Canvas::new(640, 480);
    assert_eq!(canvas.get_width(), 640);
    assert_eq!(canvas.get_height(), 480);
    assert_eq!(canvas.size(), (640, 480));
}

#[test]
fn new_canvas_is_empty() {
    let canvas = Canvas::new(640, 480);
    assert!(canvas.empty());
    assert_eq!(canvas.render_ops(), vec![]);
}

#[test]
fn adding_a_primitive_makes_it_nonempty() {
    let mut canvas = Canvas::new(640, 480);
    canvas.add_path(0, "p".to_string());
    assert!(!canvas.empty());
}

#[test]
fn reset_drops_all_layers_and_keeps_size() {
    let mut canvas = Canvas::new(640, 480);
    canvas.add_path(0, "p".to_string());
    canvas.add_text(3, "t".to_string());
    canvas.reset();
    assert!(canvas.empty());
    assert_eq!(canvas.render_ops(), vec![]);
    assert_eq!(canvas.size(), (640, 480));
}

#[test]
fn render_ordering_scenario() {
    // Primitives inserted at z-indices {2, 0}, higher first: rendering
    // must still emit z 0 before z 2.
    let mut canvas = Canvas::new(640, 480);
    canvas.add_path(2, "late".to_string());
    canvas.add_path(0, "early".to_string());
    assert_eq!(
        canvas.render_ops(),
        vec![(OpKind::Path, "early".to_string()), (OpKind::Path, "late".to_string())]
    );
    let mut rec = recorder();
    canvas.render_to(&mut rec);
    assert_eq!(rec.calls, vec!["path:early".to_string(), "path:late".to_string()]);
}

#[test]
fn within_a_layer_paths_then_images_then_texts() {
    let mut canvas = Canvas::new(640, 480);
    canvas.add_text(1, "t".to_string());
    canvas.add_image(1, "i".to_string());
    canvas.add_path(1, "p".to_string());
    assert_eq!(
        canvas.render_ops(),
        vec![
            (OpKind::Path, "p".to_string()),
            (OpKind::Image, "i".to_string()),
            (OpKind::Text, "t".to_string()),
        ]
    );
}

#[test]
fn insertion_order_kept_within_a_category() {
    let mut canvas = Canvas::new(640, 480);
    canvas.add_path(0, "first".to_string());
    canvas.add_path(0, "second".to_string());
    assert_eq!(
        canvas.render_ops(),
        vec![(OpKind::Path, "first".to_string()), (OpKind::Path, "second".to_string())]
    );
}

#[test]
fn negative_z_renders_before_zero() {
    let mut canvas = Canvas::new(640, 480);
    canvas.add_image(0, "front".to_string());
    canvas.add_image(-5, "back".to_string());
    assert_eq!(
        canvas.render_ops(),
        vec![(OpKind::Image, "back".to_string()), (OpKind::Image, "front".to_string())]
    );
}

#[test]
fn set_z_index_does_not_affect_render_order() {
    let mut canvas = Canvas::new(640, 480);
    canvas.add_path(2, "late".to_string());
    canvas.add_path(0, "early".to_string());
    canvas.set_z_index(7);
    assert_eq!(
        canvas.render_ops(),
        vec![(OpKind::Path, "early".to_string()), (OpKind::Path, "late".to_string())]
    );
}

#[test]
fn render_to_emits_every_category_across_layers() {
    let mut canvas = Canvas::new(640, 480);
    canvas.add_text(5, "caption".to_string());
    canvas.add_path(5, "outline".to_string());
    canvas.add_image(-1, "backdrop".to_string());
    let mut rec = recorder();
    canvas.render_to(&mut rec);
    assert_eq!(
        rec.calls,
        vec![
            "image:backdrop".to_string(),
            "path:outline".to_string(),
            "text:caption".to_string(),
        ]
    );
}

#[test]
fn render_to_an_empty_canvas_emits_nothing() {
    let canvas = Canvas::new(640, 480);
    let mut rec = recorder();
    canvas.render_to(&mut rec);
    assert_eq!(rec.calls, Vec::<String>::new());
    assert_eq!(rec.size(), (800, 600));
}
