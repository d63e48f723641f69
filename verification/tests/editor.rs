use screenshot_tool::editor::{
    paint_order, tb_button_x, Annotation, AppState, DragMode, Editor, FrameInput, PendingAction, PressHit,
    ReleaseGeometry, ToolbarClick,
};
use screenshot_tool::style::{FontSize, LineColor, Rgb, StrokeWidth, Tool};
use screenshot_tool::text_input::TextEv;

type P = (i32, i32);
type R = (i32, i32, i32, i32);
type Ed = Editor<P, R>;

fn no_hit() -> PressHit {
    PressHit { in_size_picker: false, in_color_picker: false, toolbar: None, handle: DragMode::Idle, in_selection: false }
}

fn toolbar_hit(col: i32, first_row: bool) -> PressHit {
    PressHit { toolbar: Some(ToolbarClick { col, first_row }), ..no_hit() }
}

fn geom(span: R, big: bool) -> ReleaseGeometry<R> {
    ReleaseGeometry { span, span_exceeds_two: big, span_exceeds_four: big, arrow_exceeds_two: big, resized: None }
}

fn no_keys() -> FrameInput {
    FrameInput { text_events: Vec::new(), backspace: false, escape: false, undo: false, enter: false }
}

/// Drags from `a` to `b` and releases with the given geometry.
fn drag(ed: &mut Ed, a: P, b: P, g: ReleaseGeometry<R>) {
    ed.pointer_press(a, &no_hit());
    ed.pointer_track(a);
    ed.pointer_track(b);
    ed.pointer_release(&g);
}

/// An editor with a selection, in the adjusting state.
fn selected() -> Ed {
    let mut ed = Ed::new();
    drag(&mut ed, (10, 10), (200, 120), geom((10, 10, 200, 120), true));
    ed
}

#[test]
fn starts_selecting_with_defaults() {
    let ed = Ed::new();
    assert_eq!(ed.state, AppState::Selecting);
    assert_eq!(ed.current_tool, Tool::NoTool);
    assert_eq!(ed.stroke_width, StrokeWidth::Thin);
    assert_eq!(ed.line_color, LineColor::Red);
    assert_eq!(ed.font_size, FontSize::Medium);
    assert!(ed.annotations.is_empty());
    assert!(!ed.toolbar_has_row2());
}

#[test]
fn selection_needs_more_than_four_pixels() {
    let mut ed = Ed::new();
    drag(&mut ed, (0, 0), (3, 3), geom((0, 0, 3, 3), false));
    assert_eq!(ed.selection, None);
    assert_eq!(ed.state, AppState::Selecting);
    drag(&mut ed, (0, 0), (50, 40), geom((0, 0, 50, 40), true));
    assert_eq!(ed.selection, Some((0, 0, 50, 40)));
    assert_eq!(ed.state, AppState::Adjusting);
    assert_eq!(ed.drag_mode, DragMode::Idle);
    assert_eq!(ed.drag_start, None);
}

#[test]
fn corner_drag_resizes_selection() {
    let mut ed = selected();
    let hit = PressHit { handle: DragMode::ResizeSE, ..no_hit() };
    ed.pointer_press((200, 120), &hit);
    assert_eq!(ed.drag_mode, DragMode::ResizeSE);
    ed.pointer_track((220, 130));
    ed.pointer_release(&ReleaseGeometry {
        span: (0, 0, 0, 0),
        span_exceeds_two: false,
        span_exceeds_four: false,
        arrow_exceeds_two: false,
        resized: Some(((10, 10, 220, 130), true)),
    });
    assert_eq!(ed.selection, Some((10, 10, 220, 130)));
    let hit = PressHit { handle: DragMode::ResizeNW, ..no_hit() };
    ed.pointer_press((10, 10), &hit);
    ed.pointer_release(&ReleaseGeometry {
        span: (0, 0, 0, 0),
        span_exceeds_two: false,
        span_exceeds_four: false,
        arrow_exceeds_two: false,
        resized: Some(((218, 128, 220, 130), false)),
    });
    assert_eq!(ed.selection, Some((10, 10, 220, 130)));
}

#[test]
fn choosing_a_tool_starts_annotating() {
    let mut ed = selected();
    ed.pointer_press((0, 0), &toolbar_hit(12, true));
    assert_eq!(ed.current_tool, Tool::Rectangle);
    assert_eq!(ed.state, AppState::Canvas);
    assert_eq!(ed.drag_mode, DragMode::Idle);
    ed.pointer_press((0, 0), &toolbar_hit(12 + 34 * 5 + 27, true));
    assert_eq!(ed.current_tool, Tool::Mosaic);
    ed.pointer_press((0, 0), &toolbar_hit(40, true));
    assert_eq!(ed.current_tool, Tool::Mosaic);
}

#[test]
fn toolbar_buttons_and_gaps() {
    assert_eq!(tb_button_x(0), 12);
    assert_eq!(tb_button_x(7), 250);
    assert_eq!(tb_button_x(usize::MAX), 12 + 34 * (usize::MAX as u128));
    let mut ed = selected();
    ed.handle_toolbar_click(ToolbarClick { col: 12 + 34 * 6, first_row: true });
    assert_eq!(ed.pending_action, Some(PendingAction::SaveToFile));
    ed.handle_toolbar_click(ToolbarClick { col: 258 + 34, first_row: true });
    assert_eq!(ed.pending_action, Some(PendingAction::Close));
    ed.handle_toolbar_click(ToolbarClick { col: 258 + 68, first_row: true });
    assert_eq!(ed.pending_action, Some(PendingAction::CopyToClipboard));
    ed.pending_action = None;
    ed.handle_toolbar_click(ToolbarClick { col: 287, first_row: true });
    assert_eq!(ed.pending_action, None);
}

#[test]
fn second_row_sets_width_and_color() {
    let mut ed = selected();
    ed.select_tool(Tool::Arrow);
    ed.handle_toolbar_click(ToolbarClick { col: 12 + 34 * 2, first_row: false });
    assert_eq!(ed.stroke_width, StrokeWidth::Thick);
    ed.handle_toolbar_click(ToolbarClick { col: 122 + 24 * 3 + 5, first_row: false });
    assert_eq!(ed.line_color, LineColor::Blue);
    ed.handle_toolbar_click(ToolbarClick { col: 122 + 24 * 3 + 21, first_row: false });
    assert_eq!(ed.line_color, LineColor::Blue);
}

#[test]
fn second_row_of_text_tool() {
    let mut ed = selected();
    ed.select_tool(Tool::Text);
    ed.handle_toolbar_click(ToolbarClick { col: 20, first_row: false });
    assert!(ed.show_size_picker);
    ed.handle_toolbar_click(ToolbarClick { col: 12 + 34 * 4, first_row: false });
    assert!(ed.show_color_picker);
    assert!(!ed.show_size_picker);
    ed.handle_toolbar_click(ToolbarClick { col: 12 + 34, first_row: false });
    ed.handle_toolbar_click(ToolbarClick { col: 12 + 68, first_row: false });
    ed.handle_toolbar_click(ToolbarClick { col: 12 + 102, first_row: false });
    assert!(ed.bold && ed.italic && ed.underline);
}

#[test]
fn open_menu_swallows_click() {
    let mut ed = selected();
    ed.show_color_picker = true;
    assert!(ed.pointer_press((5, 5), &PressHit { in_color_picker: true, ..toolbar_hit(12, true) }));
    assert!(ed.show_color_picker);
    assert_eq!(ed.current_tool, Tool::NoTool);
    assert!(ed.pointer_press((5, 5), &toolbar_hit(12, true)));
    assert!(!ed.show_color_picker);
    assert_eq!(ed.current_tool, Tool::NoTool);
}

#[test]
fn only_menus_and_toolbar_take_a_press() {
    let mut ed = selected();
    assert!(ed.pointer_press((0, 0), &toolbar_hit(12, true)));
    assert_eq!(ed.drag_mode, DragMode::Idle);
    assert!(!ed.pointer_press((50, 50), &no_hit()));
    assert_eq!(ed.drag_mode, DragMode::CanvasDraw);
}

#[test]
fn annotating_never_goes_back_to_selecting() {
    let mut ed = selected();
    assert_eq!(ed.state, AppState::Adjusting);
    assert_eq!(ed.current_tool, Tool::NoTool);
    ed.pointer_press((0, 0), &toolbar_hit(12, true));
    assert_eq!(ed.state, AppState::Canvas);
    // A large drag on the canvas draws; it never chooses a new region.
    drag(&mut ed, (20, 20), (150, 100), geom((20, 20, 150, 100), true));
    assert_eq!(ed.state, AppState::Canvas);
    assert_eq!(ed.selection, Some((10, 10, 200, 120)));
    let mut keys = no_keys();
    keys.escape = true;
    keys.undo = true;
    keys.enter = true;
    ed.process_frame_input(&keys);
    ed.end_frame();
    assert_eq!(ed.state, AppState::Canvas);
    assert_eq!(ed.current_tool, Tool::Rectangle);
}

#[test]
fn rectangle_drag_adds_annotation_and_undo_removes_it() {
    let mut ed = selected();
    ed.select_tool(Tool::Rectangle);
    drag(&mut ed, (20, 20), (60, 60), geom((20, 20, 60, 60), true));
    assert_eq!(ed.annotations.len(), 1);
    match &ed.annotations[0] {
        Annotation::Rectangle { rect, color, width } => {
            assert_eq!(*rect, (20, 20, 60, 60));
            assert_eq!(*color, Rgb { r: 255, g: 59, b: 48 });
            assert_eq!(*width, 2);
        }
        _ => panic!("expected a rectangle"),
    }
    drag(&mut ed, (20, 20), (21, 21), geom((20, 20, 21, 21), false));
    assert_eq!(ed.annotations.len(), 1);
    let keys = FrameInput { undo: true, ..no_keys() };
    ed.process_frame_input(&keys);
    assert!(ed.annotations.is_empty());
}

#[test]
fn brush_records_trail() {
    let mut ed = selected();
    ed.select_tool(Tool::Brush);
    ed.stroke_width = StrokeWidth::Medium;
    ed.pointer_press((1, 1), &no_hit());
    ed.pointer_track((1, 1));
    ed.pointer_track((2, 3));
    ed.pointer_track((4, 5));
    ed.pointer_release(&geom((1, 1, 4, 5), true));
    match &ed.annotations[0] {
        Annotation::FreeDraw { points, width, .. } => {
            assert_eq!(points, &vec![(1, 1), (1, 1), (2, 3), (4, 5)]);
            assert_eq!(*width, 4);
        }
        _ => panic!("expected a stroke"),
    }
    assert!(ed.brush_points.is_empty());
}

#[test]
fn mosaic_uses_ten_pixel_blocks() {
    let mut ed = selected();
    ed.select_tool(Tool::Mosaic);
    drag(&mut ed, (20, 20), (60, 60), geom((20, 20, 60, 60), true));
    match &ed.annotations[0] {
        Annotation::Mosaic { rect, block_size } => {
            assert_eq!(*rect, (20, 20, 60, 60));
            assert_eq!(*block_size, 10);
        }
        _ => panic!("expected a mosaic"),
    }
}

fn entering_text() -> Ed {
    let mut ed = selected();
    ed.select_tool(Tool::Text);
    drag(&mut ed, (30, 40), (30, 40), geom((30, 40, 30, 40), false));
    assert!(ed.text_input_active);
    assert_eq!(ed.text_input_pos, Some((30, 40)));
    ed
}

#[test]
fn commit_and_enter_in_one_frame_saves_text() {
    let mut ed = entering_text();
    let input = FrameInput {
        text_events: vec![
            TextEv::Enabled,
            TextEv::Preedit("ni".into()),
            TextEv::Preedit("你好".into()),
            TextEv::Commit("你好".into()),
        ],
        enter: true,
        ..no_keys()
    };
    assert!(ed.process_frame_input(&input));
    assert!(!ed.text_input_active);
    assert_eq!(ed.annotations.len(), 1);
    match &ed.annotations[0] {
        Annotation::Text { text, position, size, .. } => {
            assert_eq!(text, "你好");
            assert_eq!(*position, (30, 40));
            assert_eq!(*size, 24);
        }
        _ => panic!("expected text"),
    }
}

#[test]
fn open_composition_is_saved_with_text() {
    let mut ed = entering_text();
    ed.bold = true;
    let input = FrameInput {
        text_events: vec![TextEv::Text("ab".into()), TextEv::Preedit("中".into())],
        ..no_keys()
    };
    ed.process_frame_input(&input);
    assert_eq!(ed.text_input_buffer, "ab");
    assert_eq!(ed.ime_preedit, "中");
    ed.finish_text_input();
    match &ed.annotations[0] {
        Annotation::Text { text, bold, .. } => {
            assert_eq!(text, "ab中");
            assert!(*bold);
        }
        _ => panic!("expected text"),
    }
    assert!(ed.text_input_buffer.is_empty() && ed.ime_preedit.is_empty());
}

#[test]
fn escape_abandons_text_then_closes() {
    let mut ed = entering_text();
    let input = FrameInput { text_events: vec![TextEv::Text("x".into())], escape: true, ..no_keys() };
    ed.process_frame_input(&input);
    assert!(!ed.text_input_active);
    assert!(ed.annotations.is_empty());
    assert_eq!(ed.pending_action, None);
    ed.process_frame_input(&FrameInput { escape: true, ..no_keys() });
    assert_eq!(ed.pending_action, Some(PendingAction::Close));
}

#[test]
fn empty_text_is_not_saved() {
    let mut ed = entering_text();
    ed.process_frame_input(&FrameInput { enter: true, ..no_keys() });
    assert!(ed.annotations.is_empty());
    assert!(!ed.text_input_active);
}

#[test]
fn click_elsewhere_saves_text_and_starts_new_entry() {
    let mut ed = entering_text();
    ed.process_frame_input(&FrameInput { text_events: vec![TextEv::Text("hi".into())], ..no_keys() });
    drag(&mut ed, (90, 90), (90, 90), geom((90, 90, 90, 90), false));
    assert_eq!(ed.annotations.len(), 1);
    assert!(ed.text_input_active);
    assert_eq!(ed.text_input_pos, Some((90, 90)));
}

#[test]
fn input_method_wanted_only_while_entering_text() {
    let mut ed = selected();
    assert!(!ed.process_frame_input(&no_keys()));
    assert!(!ed.ime_was_enabled);
    let mut ed = entering_text();
    assert!(ed.process_frame_input(&no_keys()));
    assert!(ed.ime_was_enabled);
}

#[test]
fn enter_in_adjusting_with_tool_starts_canvas() {
    let mut ed = selected();
    ed.current_tool = Tool::Ellipse;
    ed.process_frame_input(&FrameInput { enter: true, ..no_keys() });
    assert_eq!(ed.state, AppState::Canvas);
}

#[test]
fn save_closes_after_thirty_frames() {
    let mut ed = selected();
    ed.pending_action = Some(PendingAction::SaveToFile);
    let fx = ed.end_frame();
    assert_eq!(fx.action, Some(PendingAction::SaveToFile));
    assert!(!fx.countdown_expired);
    assert_eq!(ed.exit_countdown, 30);
    for _ in 0..29 {
        assert!(!ed.end_frame().countdown_expired);
    }
    let fx = ed.end_frame();
    assert!(fx.countdown_expired);
    assert_eq!(fx.action, None);
    assert!(!ed.end_frame().countdown_expired);
}

#[test]
fn mosaics_are_painted_first() {
    let anns: Vec<Annotation<P, R>> = vec![
        Annotation::Rectangle { rect: (0, 0, 1, 1), color: Rgb { r: 0, g: 0, b: 0 }, width: 2 },
        Annotation::Mosaic { rect: (0, 0, 5, 5), block_size: 10 },
        Annotation::Arrow { start: (0, 0), end: (5, 5), color: Rgb { r: 0, g: 0, b: 0 }, width: 2 },
        Annotation::Mosaic { rect: (1, 1, 5, 5), block_size: 10 },
    ];
    assert_eq!(paint_order(&anns), vec![1, 3, 0, 2]);
}

#[test]
fn mosaics_first_reordering_paints_the_same() {
    let black = Rgb { r: 0, g: 0, b: 0 };
    let anns: Vec<Annotation<P, R>> = vec![
        Annotation::Rectangle { rect: (0, 0, 1, 1), color: black, width: 2 },
        Annotation::Mosaic { rect: (0, 0, 5, 5), block_size: 10 },
        Annotation::Arrow { start: (0, 0), end: (5, 5), color: black, width: 4 },
        Annotation::Mosaic { rect: (1, 1, 5, 5), block_size: 10 },
    ];
    let reordered: Vec<Annotation<P, R>> = vec![anns[1].clone(), anns[3].clone(), anns[0].clone(), anns[2].clone()];
    assert_eq!(paint_order(&reordered), vec![0, 1, 2, 3]);
    let painted = |v: &Vec<Annotation<P, R>>| -> Vec<String> {
        paint_order(v).iter().map(|&i| format!("{:?}", v[i])).collect()
    };
    assert_eq!(painted(&anns), painted(&reordered));
}
