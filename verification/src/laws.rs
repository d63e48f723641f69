use vstd::prelude::*;

use crate::editor::{
    canvas_draw_spec, drop_last_if_any, end_frame_spec, frame_input_spec, indices_where, initial_view, paint_order_spec,
    press_spec, release_spec, track_spec, undo_key_spec, toolbar_spec, grid_hit, hits, lemma_grid_unique, ToolbarClick,
    AnnotationView, AppState, DragMode, EditorView, FrameInput, PendingAction, PressHit,
    ReleaseGeometry,
};
use crate::style::{FontSize, LineColor, StrokeWidth, Tool};
use crate::raster::{block_end, block_start, channel, mosaic_px, rect_sum, row_sum, Px};
use crate::text_input::{frame_text_result, run_text_events, TextEv};

verus! {

/// Pressing Enter while entering text on the canvas saves the text entered
/// so far together with every text event of the same frame, including any
/// open composition; text entry then closes with empty buffers. (A Ctrl+Z of
/// the same frame acts before the text is saved.)
pub proof fn law_enter_saves_text_of_same_frame<P, R>(v: EditorView<P, R>, input: FrameInput)
    requires
        v.text_input_active,
        v.state == AppState::Canvas,
        v.text_input_pos is Some,
        input.enter,
        !input.escape,
    ensures
        ({
            let (b, p) = frame_text_result(input.text_events@, input.backspace, v.text_input_buffer, v.ime_preedit);
            let before = if input.undo { drop_last_if_any(v.annotations) } else { v.annotations };
            let w = frame_input_spec(v, input);
            &&& !w.text_input_active
            &&& w.text_input_buffer.len() == 0
            &&& w.ime_preedit.len() == 0
            &&& w.annotations == if (b + p).len() > 0 {
                before.push(
                    AnnotationView::Text {
                        text: b + p,
                        position: v.text_input_pos.unwrap(),
                        color: v.line_color.spec_rgb(),
                        size: v.font_size.spec_value(),
                        bold: v.bold,
                        italic: v.italic,
                        underline: v.underline,
                    },
                )
            } else {
                before
            }
        }),
{
}

/// Text committed by the input method in the same frame as Enter ends the
/// saved text: the commit is applied before Enter is handled.
pub proof fn law_commit_then_enter_keeps_commit<P, R>(v: EditorView<P, R>, input: FrameInput, t: String)
    requires
        v.text_input_active,
        v.state == AppState::Canvas,
        v.text_input_pos is Some,
        input.enter,
        !input.escape,
        !input.undo,
        !input.backspace,
        input.text_events@.len() > 0,
        input.text_events@.last() == TextEv::Commit(t),
        t@.len() > 0,
    ensures
        ({
            let w = frame_input_spec(v, input);
            let earlier = run_text_events(input.text_events@.drop_last(), v.text_input_buffer, v.ime_preedit);
            &&& w.annotations.len() == v.annotations.len() + 1
            &&& w.annotations.last() matches AnnotationView::Text { text, .. } && text == earlier.0 + t@
        }),
{
    law_enter_saves_text_of_same_frame(v, input);
    let (b, p) = frame_text_result(input.text_events@, input.backspace, v.text_input_buffer, v.ime_preedit);
    assert(p.len() == 0);
    assert(b + p =~= b);
}

/// Ctrl+Z right after a canvas drag that produced an annotation removes
/// exactly that annotation.
pub proof fn law_undo_reverts_canvas_draw<P, R>(v: EditorView<P, R>, g: ReleaseGeometry<R>)
    requires
        v.state == AppState::Canvas,
        v.drag_mode == DragMode::CanvasDraw,
        release_spec(v, g).annotations.len() > v.annotations.len(),
    ensures
        undo_key_spec(release_spec(v, g)).annotations == v.annotations,
        undo_key_spec(release_spec(v, g)).state == AppState::Canvas,
{
    let w = canvas_draw_spec(v, g);
    assert(w.annotations.drop_last() =~= v.annotations);
}

/// `n` frames end in a row with nothing new requested.
pub open spec fn end_frames<P, R>(v: EditorView<P, R>, n: nat) -> EditorView<P, R>
    decreases n,
{
    if n == 0 {
        v
    } else {
        end_frames(end_frame_spec(v).0, (n - 1) as nat)
    }
}

proof fn lemma_end_frames_count<P, R>(v: EditorView<P, R>, n: nat)
    requires
        v.pending_action is None,
        n <= v.exit_countdown,
    ensures
        end_frames(v, n).exit_countdown == v.exit_countdown - n,
        end_frames(v, n).pending_action is None,
    decreases n,
{
    if n > 0 {
        lemma_end_frames_count(end_frame_spec(v).0, (n - 1) as nat);
    }
}

/// Saving or copying closes the window exactly 30 frames later: the frame
/// that carries out the action starts the countdown, the next 29 frame ends
/// do not expire it, and the 30th does (when nothing else is requested
/// meanwhile).
pub proof fn law_exit_after_thirty_frames<P, R>(v: EditorView<P, R>)
    requires
        v.pending_action == Some(PendingAction::SaveToFile) || v.pending_action == Some(
            PendingAction::CopyToClipboard,
        ),
    ensures
        ({
            let w = end_frame_spec(v).0;
            &&& forall|j: nat| j < 29 ==> !(#[trigger] end_frame_spec(end_frames(w, j))).1.countdown_expired
            &&& end_frame_spec(end_frames(w, 29)).1.countdown_expired
        }),
{
    let w = end_frame_spec(v).0;
    assert(w.exit_countdown == 30);
    assert forall|j: nat| j < 29 implies !(#[trigger] end_frame_spec(end_frames(w, j))).1.countdown_expired by {
        lemma_end_frames_count(w, j);
    }
    lemma_end_frames_count(w, 29);
}

/// Something that happens to the editor: a frame's keyboard and text input,
/// the pointer going down, moving or coming up, the end of a frame, or a
/// choice in the size or colour menu.
pub enum EditorEvent<P, R> {
    Frame(FrameInput),
    Press(P, PressHit),
    Track(P),
    Release(ReleaseGeometry<R>),
    EndFrame,
    PickFontSize(FontSize),
    PickColor(LineColor),
    CloseColorPicker,
}

/// The editor after `e`, as the contracts of `process_frame_input`,
/// `pointer_press`, `pointer_track`, `pointer_release`, `end_frame`,
/// `choose_font_size`, `choose_color` and `close_color_picker` state it.
#[verifier::opaque]
pub open spec fn event_spec<P, R>(v: EditorView<P, R>, e: EditorEvent<P, R>) -> EditorView<P, R> {
    match e {
        EditorEvent::Frame(input) => frame_input_spec(v, input),
        EditorEvent::Press(p, hit) => press_spec(v, p, hit),
        EditorEvent::Track(p) => track_spec(v, p),
        EditorEvent::Release(g) => release_spec(v, g),
        EditorEvent::EndFrame => end_frame_spec(v).0,
        EditorEvent::PickFontSize(fs) => EditorView { font_size: fs, show_size_picker: false, ..v },
        EditorEvent::PickColor(c) => EditorView { line_color: c, ..v },
        EditorEvent::CloseColorPicker => EditorView { show_color_picker: false, ..v },
    }
}

/// The toolbar is shown, and can be clicked, only once a region is selected.
pub open spec fn event_possible<P, R>(v: EditorView<P, R>, e: EditorEvent<P, R>) -> bool {
    match e {
        EditorEvent::Press(_, hit) => hit.toolbar is Some ==> v.selection is Some,
        _ => true,
    }
}

/// The editor after the events `es`, one after the other.
pub open spec fn run_events<P, R>(v: EditorView<P, R>, es: Seq<EditorEvent<P, R>>) -> EditorView<P, R>
    decreases es.len(),
{
    if es.len() == 0 {
        v
    } else {
        event_spec(run_events(v, es.drop_last()), es.last())
    }
}

/// Every event of `es` is possible where it happens.
pub open spec fn events_possible<P, R>(v: EditorView<P, R>, es: Seq<EditorEvent<P, R>>) -> bool
    decreases es.len(),
{
    es.len() == 0 || (events_possible(v, es.drop_last()) && event_possible(run_events(v, es.drop_last()), es.last()))
}

/// Choosing a region, adjusting it, annotating it: the order in which the
/// editor's states follow one another.
pub open spec fn state_rank(s: AppState) -> int {
    match s {
        AppState::Selecting => 0,
        AppState::Adjusting => 1,
        AppState::Canvas => 2,
    }
}

/// What holds of every editor a session can reach: a region is chosen
/// exactly when the editor is past choosing one, a tool is chosen only while
/// annotating, and a drag that chooses a new region never runs while
/// annotating.
pub open spec fn session_invariant<P, R>(v: EditorView<P, R>) -> bool {
    &&& (v.state == AppState::Selecting <==> v.selection is None)
    &&& (v.state != AppState::Canvas ==> v.current_tool == Tool::NoTool)
    &&& (v.drag_mode == DragMode::NewSelection ==> v.state != AppState::Canvas)
}

/// Every possible event keeps [`session_invariant`], and none moves the
/// editor back to an earlier state: once annotating, it stays annotating.
pub proof fn law_event_keeps_session_invariant<P, R>(v: EditorView<P, R>, e: EditorEvent<P, R>)
    requires
        session_invariant(v),
        event_possible(v, e),
    ensures
        session_invariant(event_spec(v, e)),
        state_rank(v.state) <= state_rank(event_spec(v, e).state),
{
    reveal(event_spec);
    match e {
        EditorEvent::Frame(input) => lemma_frame_keeps_session_invariant(v, input),
        EditorEvent::Press(p, hit) => lemma_press_keeps_session_invariant(v, p, hit),
        EditorEvent::Release(g) => lemma_release_keeps_session_invariant(v, g),
        _ => {},
    }
}

proof fn lemma_frame_keeps_session_invariant<P, R>(v: EditorView<P, R>, input: FrameInput)
    requires
        session_invariant(v),
    ensures
        session_invariant(frame_input_spec(v, input)),
        state_rank(v.state) <= state_rank(frame_input_spec(v, input).state),
{
}

proof fn lemma_press_keeps_session_invariant<P, R>(v: EditorView<P, R>, p: P, hit: PressHit)
    requires
        session_invariant(v),
        hit.toolbar is Some ==> v.selection is Some,
    ensures
        session_invariant(press_spec(v, p, hit)),
        state_rank(v.state) <= state_rank(press_spec(v, p, hit).state),
{
}

proof fn lemma_release_keeps_session_invariant<P, R>(v: EditorView<P, R>, g: ReleaseGeometry<R>)
    requires
        session_invariant(v),
    ensures
        session_invariant(release_spec(v, g)),
        state_rank(v.state) <= state_rank(release_spec(v, g).state),
{
}

/// From start-up, through any sequence of possible events: the editor keeps
/// [`session_invariant`], and its state never goes back (of any two moments,
/// the later one is at least as far along).
pub proof fn law_session_states<P, R>(es: Seq<EditorEvent<P, R>>)
    requires
        events_possible(initial_view(), es),
    ensures
        session_invariant(run_events(initial_view(), es)),
        forall|i: int, j: int|
            0 <= i <= j <= es.len() ==> state_rank(run_events(initial_view(), #[trigger] es.take(i)).state) <= state_rank(
                run_events(initial_view(), #[trigger] es.take(j)).state,
            ),
    decreases es.len(),
{
    let init = initial_view::<P, R>();
    if es.len() == 0 {
        assert forall|i: int, j: int| 0 <= i <= j <= es.len() implies state_rank(
            run_events(init, #[trigger] es.take(i)).state,
        ) <= state_rank(run_events(init, #[trigger] es.take(j)).state) by {
            assert(es.take(i) =~= es.take(j));
        }
    } else {
        let d = es.drop_last();
        law_session_states(d);
        law_event_keeps_session_invariant(run_events(init, d), es.last());
        assert(es.take(es.len() as int) =~= es);
        assert(es.take(es.len() - 1) =~= d);
        assert forall|i: int, j: int| 0 <= i <= j <= es.len() implies state_rank(
            run_events(init, #[trigger] es.take(i)).state,
        ) <= state_rank(run_events(init, #[trigger] es.take(j)).state) by {
            if i < es.len() {
                assert(es.take(i) =~= d.take(i));
                assert(d.take(d.len() as int) =~= d);
                if j < es.len() {
                    assert(es.take(j) =~= d.take(j));
                } else {
                    assert(state_rank(run_events(init, d.take(i)).state) <= state_rank(run_events(init, d.take(d.len() as int)).state));
                }
            }
        }
    }
}

/// The annotations of `anns` at the positions `idx`, in that order.
pub open spec fn pick<P, R>(anns: Seq<AnnotationView<P, R>>, idx: Seq<usize>) -> Seq<AnnotationView<P, R>> {
    idx.map_values(|i: usize| anns[i as int])
}

/// The annotations in the order in which they are painted onto the saved
/// image.
pub open spec fn in_paint_order<P, R>(anns: Seq<AnnotationView<P, R>>) -> Seq<AnnotationView<P, R>> {
    pick(anns, paint_order_spec(anns))
}

/// Mosaics (`mosaic`), or everything else (`!mosaic`).
pub open spec fn of_kind<P, R>(mosaic: bool) -> spec_fn(AnnotationView<P, R>) -> bool {
    |a: AnnotationView<P, R>| (a is Mosaic) == mosaic
}

/// The stable reordering of `anns` that puts every mosaic first: mosaics in
/// creation order, then everything else in creation order.
pub open spec fn mosaics_first<P, R>(anns: Seq<AnnotationView<P, R>>) -> Seq<AnnotationView<P, R>> {
    anns.filter(of_kind(true)) + anns.filter(of_kind(false))
}

proof fn lemma_indices_pick<P, R>(anns: Seq<AnnotationView<P, R>>, mosaic: bool, n: int)
    requires
        0 <= n <= anns.len(),
        anns.len() <= usize::MAX,
    ensures
        pick(anns, indices_where(anns, mosaic, n)) == anns.take(n).filter(of_kind(mosaic)),
        anns.take(n).filter(of_kind(true)).len() + anns.take(n).filter(of_kind(false)).len() == n,
    decreases n,
{
    reveal(Seq::filter);
    if n == 0 {
        assert(pick(anns, indices_where(anns, mosaic, n)) =~= Seq::empty());
        assert(anns.take(n) =~= Seq::empty());
    } else {
        lemma_indices_pick(anns, mosaic, n - 1);
        let prev = anns.take(n - 1);
        let a = anns[n - 1];
        assert(anns.take(n) =~= prev.push(a));
        prev.lemma_filter_push(a, of_kind(mosaic));
        prev.lemma_filter_push(a, of_kind(true));
        prev.lemma_filter_push(a, of_kind(false));
        let s = indices_where(anns, mosaic, n - 1);
        assert(pick(anns, s.push((n - 1) as usize)) =~= pick(anns, s).push(a));
    }
}

proof fn lemma_filter_keeps_all<A>(s: Seq<A>, p: spec_fn(A) -> bool)
    requires
        forall|i: int| 0 <= i < s.len() ==> p(#[trigger] s[i]),
    ensures
        s.filter(p) == s,
    decreases s.len(),
{
    reveal(Seq::filter);
    if s.len() > 0 {
        lemma_filter_keeps_all(s.drop_last(), p);
        s.drop_last().lemma_filter_push(s.last(), p);
        assert(s.drop_last().push(s.last()) =~= s);
    }
}

proof fn lemma_filter_keeps_none<A>(s: Seq<A>, p: spec_fn(A) -> bool)
    requires
        forall|i: int| 0 <= i < s.len() ==> !p(#[trigger] s[i]),
    ensures
        s.filter(p).len() == 0,
    decreases s.len(),
{
    reveal(Seq::filter);
    if s.len() > 0 {
        lemma_filter_keeps_none(s.drop_last(), p);
        s.drop_last().lemma_filter_push(s.last(), p);
        assert(s.drop_last().push(s.last()) =~= s);
    }
}

/// Annotations are painted mosaics first, then everything else, each group
/// in creation order. So every mosaic is applied to the cropped screenshot
/// before any shape or text, and reordering the annotations that way
/// beforehand paints exactly the same sequence.
pub proof fn law_paint_order_is_mosaics_first<P, R>(anns: Seq<AnnotationView<P, R>>)
    requires
        anns.len() <= usize::MAX,
    ensures
        in_paint_order(anns) == mosaics_first(anns),
        mosaics_first(anns).len() == anns.len(),
        in_paint_order(mosaics_first(anns)) == in_paint_order(anns),
{
    let n = anns.len() as int;
    lemma_indices_pick(anns, true, n);
    lemma_indices_pick(anns, false, n);
    assert(anns.take(n) =~= anns);
    let m = anns.filter(of_kind(true));
    let o = anns.filter(of_kind(false));
    let ti = indices_where(anns, true, n);
    let fi = indices_where(anns, false, n);
    assert(pick(anns, ti + fi) =~= pick(anns, ti) + pick(anns, fi));
    let mf = mosaics_first(anns);
    assert forall|i: int| 0 <= i < m.len() implies #[trigger] of_kind::<P, R>(true)(m[i]) by {
        anns.lemma_filter_pred(of_kind(true), i);
    }
    assert forall|i: int| 0 <= i < o.len() implies #[trigger] of_kind::<P, R>(false)(o[i]) by {
        anns.lemma_filter_pred(of_kind(false), i);
    }
    Seq::filter_distributes_over_add(m, o, of_kind(true));
    Seq::filter_distributes_over_add(m, o, of_kind(false));
    lemma_filter_keeps_all(m, of_kind(true));
    lemma_filter_keeps_all(o, of_kind(false));
    assert forall|i: int| 0 <= i < m.len() implies !#[trigger] of_kind::<P, R>(false)(m[i]) by {
        assert(of_kind::<P, R>(true)(m[i]));
    }
    assert forall|i: int| 0 <= i < o.len() implies !#[trigger] of_kind::<P, R>(true)(o[i]) by {
        assert(of_kind::<P, R>(false)(o[i]));
    }
    lemma_filter_keeps_none(m, of_kind(false));
    lemma_filter_keeps_none(o, of_kind(true));
    assert(mf.filter(of_kind(true)) =~= m);
    assert(mf.filter(of_kind(false)) =~= o);
    lemma_indices_pick(mf, true, n);
    lemma_indices_pick(mf, false, n);
    assert(mf.take(n) =~= mf);
    let ti2 = indices_where(mf, true, n);
    let fi2 = indices_where(mf, false, n);
    assert(pick(mf, ti2 + fi2) =~= pick(mf, ti2) + pick(mf, fi2));
}

/// Once a drag is under way, whatever it drags (a new region, a corner of
/// the selection, or a stroke on the canvas), its current point follows the
/// pointer; nothing else about the drag changes.
pub proof fn law_drag_follows_pointer<P, R>(v: EditorView<P, R>, p: P)
    requires
        v.drag_mode != DragMode::Idle,
    ensures
        track_spec(v, p).drag_current == Some(p),
        track_spec(v, p).drag_start == v.drag_start,
        track_spec(v, p).drag_mode == v.drag_mode,
        track_spec(v, p).selection == v.selection,
        track_spec(v, p).state == v.state,
{
}

/// Without a drag, moving the pointer changes nothing.
pub proof fn law_idle_pointer_changes_nothing<P, R>(v: EditorView<P, R>, p: P)
    requires
        v.drag_mode == DragMode::Idle,
    ensures
        track_spec(v, p) == v,
{
}

/// While choosing a region, pressing at `a` and moving to `b` makes a
/// new-region drag from `a` to `b`; releasing it, when the region is large
/// enough, selects the rectangle it spans and starts adjusting.
pub proof fn law_dragging_out_a_region<P, R>(v: EditorView<P, R>, a: P, b: P, hit: PressHit, g: ReleaseGeometry<R>)
    requires
        v.state == AppState::Selecting,
        !v.show_size_picker,
        !v.show_color_picker,
        hit.toolbar is None,
    ensures
        ({
            let w = track_spec(press_spec(v, a, hit), b);
            &&& w.drag_mode == DragMode::NewSelection
            &&& w.drag_start == Some(a)
            &&& w.drag_current == Some(b)
            &&& g.span_exceeds_four ==> release_spec(w, g).selection == Some(g.span)
            &&& g.span_exceeds_four ==> release_spec(w, g).state == AppState::Adjusting
            &&& !g.span_exceeds_four ==> release_spec(w, g).selection == v.selection
            &&& release_spec(w, g).drag_mode == DragMode::Idle
        }),
{
}

/// The end of a frame hands out exactly the action requested during it
/// (save, copy or close) and clears the request.
pub proof fn law_end_frame_hands_out_request<P, R>(v: EditorView<P, R>)
    ensures
        end_frame_spec(v).1.action == v.pending_action,
        end_frame_spec(v).0.pending_action is None,
        v.pending_action == Some(PendingAction::Close) ==> end_frame_spec(v).1.action == Some(PendingAction::Close),
{
}

proof fn lemma_grid_hit_at(col: int, first: int, pitch: int, width: int, n: int, i: int)
    requires
        0 < width <= pitch,
        0 <= i < n,
        hits(col, first + pitch * i, width),
    ensures
        grid_hit(col, first, pitch, width, n) == Some(i),
{
    assert(exists|k: int| 0 <= k < n && #[trigger] hits(col, first + pitch * k, width));
    let k = choose|k: int| 0 <= k < n && #[trigger] hits(col, first + pitch * k, width);
    lemma_grid_unique(col, first, pitch, width, i, k);
}

/// With the text tool, the second toolbar row's buttons B (columns 46 to
/// 73), I (80 to 107) and U (114 to 141) each flip their own style and
/// leave the other two alone.
pub proof fn law_text_style_buttons<P, R>(v: EditorView<P, R>, col: i32)
    requires
        v.current_tool == Tool::Text,
    ensures
        ({
            let w = toolbar_spec(v, ToolbarClick { col, first_row: false });
            &&& 46 <= col < 74 ==> w.bold == !v.bold && w.italic == v.italic && w.underline == v.underline
            &&& 80 <= col < 108 ==> w.italic == !v.italic && w.bold == v.bold && w.underline == v.underline
            &&& 114 <= col < 142 ==> w.underline == !v.underline && w.bold == v.bold && w.italic == v.italic
            &&& w.current_tool == Tool::Text
            &&& w.state == v.state
        }),
{
    let c = col as int;
    if 46 <= c < 74 {
        lemma_grid_hit_at(c, 46, 34, 28, 3, 0);
    } else if 80 <= c < 108 {
        lemma_grid_hit_at(c, 46, 34, 28, 3, 1);
    } else if 114 <= c < 142 {
        lemma_grid_hit_at(c, 46, 34, 28, 3, 2);
    }
}

/// The first toolbar row, left to right: rectangle, ellipse, arrow, brush,
/// text and mosaic tools (each button 28 pixels wide, 34 apart from 12 on),
/// then save; past the divider, undo, close and copy (34 apart from 258 on).
/// Choosing a tool leaves region adjustment for annotating and drops any
/// text entry; the other buttons leave tool and state alone.
pub proof fn law_first_toolbar_row<P, R>(v: EditorView<P, R>, col: i32)
    ensures
        ({
            let w = toolbar_spec(v, ToolbarClick { col, first_row: true });
            let c = col as int;
            let chosen = |t: Tool|
                w.current_tool == t && w.state == (if v.state == AppState::Adjusting {
                    AppState::Canvas
                } else {
                    v.state
                }) && !w.text_input_active && w.text_input_buffer.len() == 0 && w.ime_preedit.len() == 0
                    && w.annotations == v.annotations;
            let unchanged_tool = w.current_tool == v.current_tool && w.state == v.state;
            &&& 12 <= c < 40 ==> chosen(Tool::Rectangle)
            &&& 46 <= c < 74 ==> chosen(Tool::Ellipse)
            &&& 80 <= c < 108 ==> chosen(Tool::Arrow)
            &&& 114 <= c < 142 ==> chosen(Tool::Brush)
            &&& 148 <= c < 176 ==> chosen(Tool::Text)
            &&& 182 <= c < 210 ==> chosen(Tool::Mosaic)
            &&& 216 <= c < 244 ==> w.pending_action == Some(PendingAction::SaveToFile) && unchanged_tool
            &&& 258 <= c < 286 ==> w.annotations == drop_last_if_any(v.annotations) && unchanged_tool
                && w.pending_action == v.pending_action
            &&& 292 <= c < 320 ==> w.pending_action == Some(PendingAction::Close) && unchanged_tool
                && w.annotations == v.annotations
            &&& 326 <= c < 354 ==> w.pending_action == Some(PendingAction::CopyToClipboard) && unchanged_tool
                && w.annotations == v.annotations
            &&& c < 12 ==> w == v
        }),
{
    let c = col as int;
    if 12 <= c < 210 {
        let k = (c - 12) / 34;
        if c < 40 + 34 * k {
            lemma_grid_hit_at(c, 12, 34, 28, 6, k);
        }
    }
    if 258 <= c < 354 {
        let k = (c - 258) / 34;
        if c < 286 + 34 * k {
            lemma_grid_hit_at(c, 258, 34, 28, 3, k);
        }
    }
    if 216 <= c < 244 {
        assert(!exists|i: int| 0 <= i < 6 && #[trigger] hits(c, 12 + 34 * i, 28));
    }
    if c < 12 {
        assert(!exists|i: int| 0 <= i < 6 && #[trigger] hits(c, 12 + 34 * i, 28));
    }
}

/// The second toolbar row of a drawing tool: thin, medium and thick lines
/// (34 apart from 12 on, 28 wide), then red, yellow, green, blue and white
/// (24 apart from 122 on, 20 wide). Nothing else changes.
pub proof fn law_second_row_of_drawing_tools<P, R>(v: EditorView<P, R>, col: i32)
    requires
        v.current_tool == Tool::Rectangle || v.current_tool == Tool::Ellipse || v.current_tool == Tool::Arrow
            || v.current_tool == Tool::Brush,
    ensures
        ({
            let w = toolbar_spec(v, ToolbarClick { col, first_row: false });
            let c = col as int;
            &&& 12 <= c < 40 ==> w == EditorView { stroke_width: StrokeWidth::Thin, ..v }
            &&& 46 <= c < 74 ==> w == EditorView { stroke_width: StrokeWidth::Medium, ..v }
            &&& 80 <= c < 108 ==> w == EditorView { stroke_width: StrokeWidth::Thick, ..v }
            &&& 122 <= c < 142 ==> w == EditorView { line_color: LineColor::Red, ..v }
            &&& 146 <= c < 166 ==> w == EditorView { line_color: LineColor::Yellow, ..v }
            &&& 170 <= c < 190 ==> w == EditorView { line_color: LineColor::Green, ..v }
            &&& 194 <= c < 214 ==> w == EditorView { line_color: LineColor::Blue, ..v }
            &&& 218 <= c < 238 ==> w == EditorView { line_color: LineColor::White, ..v }
        }),
{
    let c = col as int;
    if 12 <= c < 40 {
        lemma_grid_hit_at(c, 12, 34, 28, 3, 0);
    } else if 46 <= c < 74 {
        lemma_grid_hit_at(c, 12, 34, 28, 3, 1);
    } else if 80 <= c < 108 {
        lemma_grid_hit_at(c, 12, 34, 28, 3, 2);
    } else if 122 <= c < 238 {
        assert(!exists|i: int| 0 <= i < 3 && #[trigger] hits(c, 12 + 34 * i, 28));
        if 122 <= c < 142 {
            lemma_grid_hit_at(c, 122, 24, 20, 5, 0);
        } else if 146 <= c < 166 {
            lemma_grid_hit_at(c, 122, 24, 20, 5, 1);
        } else if 170 <= c < 190 {
            lemma_grid_hit_at(c, 122, 24, 20, 5, 2);
        } else if 194 <= c < 214 {
            lemma_grid_hit_at(c, 122, 24, 20, 5, 3);
        } else if 218 <= c < 238 {
            lemma_grid_hit_at(c, 122, 24, 20, 5, 4);
        }
    }
}

/// The text tool's menu buttons: the size button (columns 12 to 39) and the
/// colour button (148 to 175) each open or close their own menu and close
/// the other one.
pub proof fn law_text_menu_buttons<P, R>(v: EditorView<P, R>, col: i32)
    requires
        v.current_tool == Tool::Text,
    ensures
        ({
            let w = toolbar_spec(v, ToolbarClick { col, first_row: false });
            let c = col as int;
            &&& 12 <= c < 40 ==> w == EditorView { show_size_picker: !v.show_size_picker, show_color_picker: false, ..v }
            &&& 148 <= c < 176 ==> w == EditorView { show_color_picker: !v.show_color_picker, show_size_picker: false, ..v }
        }),
{
    let c = col as int;
    if 148 <= c < 176 {
        assert(!exists|i: int| 0 <= i < 3 && #[trigger] hits(c, 46 + 34 * i, 28));
    }
}

/// A frame with no text events and no Backspace.
pub open spec fn keys_only(input: FrameInput) -> bool {
    input.text_events@.len() == 0 && !input.backspace
}

/// Escape alone: while text is being entered it abandons the entry (no
/// annotation is made, the buffers are emptied, nothing is requested);
/// otherwise it asks to close the window.
pub proof fn law_escape<P, R>(v: EditorView<P, R>, input: FrameInput)
    requires
        keys_only(input),
        input.escape,
        !input.undo,
        !input.enter,
    ensures
        ({
            let w = frame_input_spec(v, input);
            &&& v.text_input_active ==> !w.text_input_active && w.text_input_buffer.len() == 0
                && w.ime_preedit.len() == 0 && w.annotations == v.annotations && w.pending_action == v.pending_action
            &&& !v.text_input_active ==> w.pending_action == Some(PendingAction::Close) && w.annotations == v.annotations
            &&& w.state == v.state
            &&& w.selection == v.selection
        }),
{
}

/// Ctrl+Z alone removes the newest annotation while annotating, and does
/// nothing to the annotations before that.
pub proof fn law_undo_key<P, R>(v: EditorView<P, R>, input: FrameInput)
    requires
        keys_only(input),
        input.undo,
        !input.escape,
        !input.enter,
    ensures
        ({
            let w = frame_input_spec(v, input);
            &&& v.state == AppState::Canvas && v.annotations.len() > 0 ==> w.annotations == v.annotations.drop_last()
            &&& v.state != AppState::Canvas || v.annotations.len() == 0 ==> w.annotations == v.annotations
            &&& w.state == v.state
            &&& w.pending_action == v.pending_action
        }),
{
}

/// Enter alone, while adjusting the region with a tool chosen, starts
/// annotating; without a tool it leaves the state alone.
pub proof fn law_enter_starts_annotating<P, R>(v: EditorView<P, R>, input: FrameInput)
    requires
        keys_only(input),
        input.enter,
        !input.escape,
        !input.undo,
        v.state == AppState::Adjusting,
    ensures
        v.current_tool != Tool::NoTool ==> frame_input_spec(v, input).state == AppState::Canvas,
        v.current_tool == Tool::NoTool ==> frame_input_spec(v, input).state == AppState::Adjusting,
        frame_input_spec(v, input).selection == v.selection,
{
}

/// Every frame records whether the input method is wanted: exactly while
/// text is being entered on the canvas.
pub proof fn law_input_method_wanted<P, R>(v: EditorView<P, R>, input: FrameInput)
    ensures
        frame_input_spec(v, input).ime_was_enabled == (v.text_input_active && v.state == AppState::Canvas),
{
}

/// Releasing a corner drag of the selection replaces the selection by the
/// resized one when that is large enough, and otherwise keeps it; the state
/// and the annotations do not change.
pub proof fn law_corner_drag_resizes<P, R>(v: EditorView<P, R>, g: ReleaseGeometry<R>, r: R, big: bool)
    requires
        v.drag_mode == DragMode::ResizeNW || v.drag_mode == DragMode::ResizeNE || v.drag_mode == DragMode::ResizeSW
            || v.drag_mode == DragMode::ResizeSE,
        v.drag_start is Some,
        v.drag_current is Some,
        v.selection is Some,
        g.resized == Some((r, big)),
    ensures
        big ==> release_spec(v, g).selection == Some(r),
        !big ==> release_spec(v, g).selection == v.selection,
        release_spec(v, g).state == v.state,
        release_spec(v, g).annotations == v.annotations,
        release_spec(v, g).drag_mode == DragMode::Idle,
{
}

/// While a menu is open, a press inside it changes nothing and a press
/// outside it only closes it; nothing else happens to that press.
pub proof fn law_open_menu_takes_press<P, R>(v: EditorView<P, R>, p: P, hit: PressHit)
    requires
        v.show_size_picker || v.show_color_picker,
    ensures
        v.show_size_picker && hit.in_size_picker ==> press_spec(v, p, hit) == v,
        v.show_size_picker && !hit.in_size_picker ==> press_spec(v, p, hit) == (EditorView { show_size_picker: false, ..v }),
        !v.show_size_picker && hit.in_color_picker ==> press_spec(v, p, hit) == v,
        !v.show_size_picker && !hit.in_color_picker ==> press_spec(v, p, hit) == (EditorView {
            show_color_picker: false,
            ..v
        }),
{
}

/// A frame end without a save or copy request counts a running exit
/// countdown down by one, and reports expiry exactly when it reaches zero.
pub proof fn law_countdown_ticks<P, R>(v: EditorView<P, R>)
    requires
        v.pending_action != Some(PendingAction::SaveToFile),
        v.pending_action != Some(PendingAction::CopyToClipboard),
        v.exit_countdown > 0,
    ensures
        end_frame_spec(v).0.exit_countdown == v.exit_countdown - 1,
        end_frame_spec(v).1.countdown_expired == (v.exit_countdown == 1),
{
}

/// A canvas drag with the text tool opens text entry, with empty buffers, at
/// the point where the drag ended; it adds no annotation.
pub proof fn law_text_tool_opens_entry_at_drag_end<P, R>(v: EditorView<P, R>, g: ReleaseGeometry<R>)
    requires
        v.drag_mode == DragMode::CanvasDraw,
        v.current_tool == Tool::Text,
        v.drag_start is Some,
        v.drag_current is Some,
    ensures
        release_spec(v, g).text_input_active,
        release_spec(v, g).text_input_pos == v.drag_current,
        release_spec(v, g).text_input_buffer.len() == 0,
        release_spec(v, g).ime_preedit.len() == 0,
        release_spec(v, g).annotations == v.annotations,
{
}

/// Pressing on the canvas while entering text with the text tool first saves
/// the text (committed text and open composition, at the entry position, in
/// the current colour, size and style) when there is any.
pub proof fn law_press_saves_open_text<P, R>(v: EditorView<P, R>, p: P, hit: PressHit)
    requires
        v.state == AppState::Canvas,
        v.current_tool == Tool::Text,
        v.text_input_active,
        v.text_input_pos is Some,
        (v.text_input_buffer + v.ime_preedit).len() > 0,
        !v.show_size_picker,
        !v.show_color_picker,
        hit.toolbar is None,
    ensures
        press_spec(v, p, hit).annotations == v.annotations.push(
            AnnotationView::Text {
                text: v.text_input_buffer + v.ime_preedit,
                position: v.text_input_pos.unwrap(),
                color: v.line_color.spec_rgb(),
                size: v.font_size.spec_value(),
                bold: v.bold,
                italic: v.italic,
                underline: v.underline,
            },
        ),
        !press_spec(v, p, hit).text_input_active,
{
}

/// A canvas drag with the arrow tool, long enough, adds one arrow that
/// starts where the drag started and points to where it ended, in the
/// current colour and line width.
pub proof fn law_arrow_runs_from_drag_start_to_end<P, R>(v: EditorView<P, R>, g: ReleaseGeometry<R>)
    requires
        v.drag_mode == DragMode::CanvasDraw,
        v.current_tool == Tool::Arrow,
        v.drag_start is Some,
        v.drag_current is Some,
        g.arrow_exceeds_two,
    ensures
        release_spec(v, g).annotations == v.annotations.push(
            AnnotationView::Arrow {
                start: v.drag_start.unwrap(),
                end: v.drag_current.unwrap(),
                color: v.line_color.spec_rgb(),
                width: v.stroke_width.spec_value(),
            },
        ),
{
}

/// A canvas drag with the rectangle, ellipse or mosaic tool, large enough,
/// adds one annotation over the rectangle the drag spans; a brush drag with
/// at least two recorded points adds a stroke through them.
pub proof fn law_shapes_cover_the_drag<P, R>(v: EditorView<P, R>, g: ReleaseGeometry<R>)
    requires
        v.drag_mode == DragMode::CanvasDraw,
        v.drag_start is Some,
        v.drag_current is Some,
    ensures
        ({
            let w = release_spec(v, g);
            let color = v.line_color.spec_rgb();
            let width = v.stroke_width.spec_value();
            &&& v.current_tool == Tool::Rectangle && g.span_exceeds_two ==> w.annotations == v.annotations.push(
                AnnotationView::Rectangle { rect: g.span, color, width },
            )
            &&& v.current_tool == Tool::Ellipse && g.span_exceeds_two ==> w.annotations == v.annotations.push(
                AnnotationView::Ellipse { rect: g.span, color, width },
            )
            &&& v.current_tool == Tool::Mosaic && g.span_exceeds_four ==> w.annotations == v.annotations.push(
                AnnotationView::Mosaic { rect: g.span, block_size: 10 },
            )
            &&& v.current_tool == Tool::Brush && v.brush_points.len() >= 2 ==> w.annotations == v.annotations.push(
                AnnotationView::FreeDraw { points: v.brush_points, color, width },
            )
            &&& w.drag_mode == DragMode::Idle
            &&& w.brush_points.len() == 0
        }),
{
}

/// While adjusting, with no menu open and off the toolbar: a press on a
/// corner handle starts resizing from that corner, and a press elsewhere
/// inside the selection starts choosing a new region from that point. The
/// selection itself stays until the drag is released.
pub proof fn law_press_while_adjusting<P, R>(v: EditorView<P, R>, p: P, hit: PressHit)
    requires
        v.state == AppState::Adjusting,
        !v.show_size_picker,
        !v.show_color_picker,
        hit.toolbar is None,
    ensures
        ({
            let w = press_spec(v, p, hit);
            &&& hit.handle != DragMode::Idle ==> w.drag_mode == hit.handle && w.drag_start == Some(p)
            &&& hit.handle == DragMode::Idle && hit.in_selection ==> w.drag_mode == DragMode::NewSelection
                && w.drag_start == Some(p) && w.drag_current == Some(p)
            &&& hit.handle == DragMode::Idle && !hit.in_selection ==> w == v
            &&& w.selection == v.selection
            &&& w.state == AppState::Adjusting
        }),
{
}

/// On the canvas, with no menu open and off the toolbar, a press starts a
/// canvas drag at that point whose brush trail is just that point.
pub proof fn law_press_on_canvas_starts_drawing<P, R>(v: EditorView<P, R>, p: P, hit: PressHit)
    requires
        v.state == AppState::Canvas,
        !v.show_size_picker,
        !v.show_color_picker,
        hit.toolbar is None,
    ensures
        ({
            let w = press_spec(v, p, hit);
            &&& w.drag_mode == DragMode::CanvasDraw
            &&& w.drag_start == Some(p)
            &&& w.drag_current == Some(p)
            &&& w.brush_points == seq![p]
            &&& w.state == AppState::Canvas
        }),
{
}

/// Summing a channel that is `v` at every pixel of a row segment gives `v`
/// times its length.
proof fn lemma_row_sum_constant(m: Map<(u32, u32), Px>, c: int, y: int, xa: int, xb: int, v: int)
    requires
        xa <= xb,
        forall|x: int| xa <= x < xb ==> #[trigger] channel(m[(x as u32, y as u32)], c) == v,
    ensures
        row_sum(m, c, y, xa, xb) == (xb - xa) * v,
    decreases xb - xa,
{
    if xb > xa {
        lemma_row_sum_constant(m, c, y, xa, xb - 1, v);
        let last = xb - 1;
        assert(channel(m[(last as u32, y as u32)], c) == v);
        assert(row_sum(m, c, y, xa, xb) == row_sum(m, c, y, xa, last) + channel(m[(last as u32, y as u32)], c));
        assert((last - xa) * v + v == (xb - xa) * v) by (nonlinear_arith)
            requires
                last == xb - 1,
        ;
    } else {
        assert((xb - xa) * v == 0) by (nonlinear_arith)
            requires
                xb == xa,
        ;
    }
}

/// Summing a channel that is `v` at every pixel of a rectangle gives `v`
/// times its area.
proof fn lemma_rect_sum_constant(m: Map<(u32, u32), Px>, c: int, xa: int, xb: int, ya: int, yb: int, v: int)
    requires
        xa <= xb,
        ya <= yb,
        forall|x: int, y: int| xa <= x < xb && ya <= y < yb ==> #[trigger] channel(m[(x as u32, y as u32)], c) == v,
    ensures
        rect_sum(m, c, xa, xb, ya, yb) == (yb - ya) * (xb - xa) * v,
    decreases yb - ya,
{
    if yb > ya {
        let last = yb - 1;
        lemma_rect_sum_constant(m, c, xa, xb, ya, last, v);
        assert forall|x: int| xa <= x < xb implies #[trigger] channel(m[(x as u32, last as u32)], c) == v by {
            assert(channel(m[(x as u32, last as u32)], c) == v);
        }
        lemma_row_sum_constant(m, c, last, xa, xb, v);
        assert(rect_sum(m, c, xa, xb, ya, yb) == rect_sum(m, c, xa, xb, ya, last) + row_sum(m, c, last, xa, xb));
        assert((last - ya) * (xb - xa) * v + (xb - xa) * v == (yb - ya) * (xb - xa) * v) by (nonlinear_arith)
            requires
                last == yb - 1,
        ;
    } else {
        assert((yb - ya) * (xb - xa) * v == 0) by (nonlinear_arith)
            requires
                yb == ya,
        ;
    }
}

proof fn lemma_block_contains(v: int, origin: int, bs: int)
    requires
        bs > 0,
        origin <= v,
    ensures
        origin <= block_start(v, origin, bs) <= v < block_start(v, origin, bs) + bs,
{
    let k = (v - origin) / bs;
    vstd::arithmetic::div_mod::lemma_fundamental_div_mod(v - origin, bs);
    vstd::arithmetic::div_mod::lemma_mod_bound(v - origin, bs);
    vstd::arithmetic::div_mod::lemma_div_pos_is_pos(v - origin, bs);
    assert(bs * k == k * bs) by (nonlinear_arith);
    assert(k * bs >= 0) by (nonlinear_arith)
        requires
            k >= 0,
            bs > 0,
    ;
}

proof fn lemma_same_block(v: int, u: int, origin: int, bs: int)
    requires
        bs > 0,
        origin <= v,
        block_start(v, origin, bs) <= u < block_start(v, origin, bs) + bs,
    ensures
        block_start(u, origin, bs) == block_start(v, origin, bs),
{
    let k = (v - origin) / bs;
    lemma_block_contains(v, origin, bs);
    vstd::arithmetic::div_mod::lemma_div_pos_is_pos(v - origin, bs);
    vstd::arithmetic::div_mod::lemma_fundamental_div_mod_converse(u - origin, bs, k, u - origin - k * bs);
}

/// Pixelating a region a second time, with the same blocks, changes
/// nothing: every block is already a single colour.
pub proof fn law_pixelate_idempotent(
    m0: Map<(u32, u32), Px>,
    m1: Map<(u32, u32), Px>,
    w: u32,
    h: u32,
    x0: int,
    y0: int,
    x1: int,
    y1: int,
    bs: int,
)
    requires
        0 <= x0 <= w,
        0 <= y0 <= h,
        0 <= x1 <= w,
        0 <= y1 <= h,
        bs >= 2,
        forall|x: u32, y: u32| x < w && y < h ==> #[trigger] m1[(x, y)] == mosaic_px(m0, x0, y0, x1, y1, bs, x as int, y as int),
    ensures
        forall|x: u32, y: u32| x < w && y < h ==> #[trigger] mosaic_px(m1, x0, y0, x1, y1, bs, x as int, y as int) == m1[(x, y)],
{
    assert forall|x: u32, y: u32| x < w && y < h implies #[trigger] mosaic_px(m1, x0, y0, x1, y1, bs, x as int, y as int)
        == m1[(x, y)] by {
        if x0 <= x < x1 && y0 <= y < y1 {
            let bx = block_start(x as int, x0, bs);
            let ex = block_end(x as int, x0, bs, x1);
            let by = block_start(y as int, y0, bs);
            let ey = block_end(y as int, y0, bs, y1);
            lemma_block_contains(x as int, x0, bs);
            lemma_block_contains(y as int, y0, bs);
            let n = (ey - by) * (ex - bx);
            let avg = m1[(x, y)];
            assert forall|xx: int, yy: int| bx <= xx < ex && by <= yy < ey implies #[trigger] m1[(xx as u32, yy as u32)] == avg by {
                lemma_same_block(x as int, xx, x0, bs);
                lemma_same_block(y as int, yy, y0, bs);
                assert(xx < w && yy < h);
                assert(m1[(xx as u32, yy as u32)] == mosaic_px(m0, x0, y0, x1, y1, bs, xx, yy));
            }
            assert(n > 0) by (nonlinear_arith)
                requires
                    n == (ey - by) * (ex - bx),
                    by < ey,
                    bx < ex,
            ;
            assert forall|c: int| 0 <= c < 3 implies (rect_sum(m1, c, bx, ex, by, ey) / n) as u8 as int == channel(avg, c) by {
                assert forall|xx: int, yy: int| bx <= xx < ex && by <= yy < ey implies #[trigger] channel(
                    m1[(xx as u32, yy as u32)],
                    c,
                ) == channel(avg, c) by {
                    assert(m1[(xx as u32, yy as u32)] == avg);
                }
                lemma_rect_sum_constant(m1, c, bx, ex, by, ey, channel(avg, c));
                assert((ey - by) * (ex - bx) * channel(avg, c) == n * channel(avg, c));
                vstd::arithmetic::div_mod::lemma_div_multiples_vanish(channel(avg, c), n);
                assert(n * channel(avg, c) == channel(avg, c) * n) by (nonlinear_arith);
            }
            assert(avg.3 == 255u8);
        }
    }
}

} // verus!
