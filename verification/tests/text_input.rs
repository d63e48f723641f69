use screenshot_tool::text_input::{apply_text_events, process_text_ev, TextEv};

fn run_events(events: &[TextEv]) -> (String, String) {
    let mut buf = String::new();
    let mut preedit = String::new();
    for ev in events {
        process_text_ev(ev, &mut buf, &mut preedit);
    }
    (buf, preedit)
}

#[test]
fn english_typewriter_input() {
    let (buf, pre) = run_events(&[
        TextEv::Text("H".into()),
        TextEv::Text("e".into()),
        TextEv::Text("l".into()),
        TextEv::Text("l".into()),
        TextEv::Text("o".into()),
    ]);
    assert_eq!(buf, "Hello");
    assert!(pre.is_empty());
}

#[test]
fn chinese_via_event_text() {
    let (buf, pre) = run_events(&[
        TextEv::Text("你".into()),
        TextEv::Text("好".into()),
        TextEv::Text("世".into()),
        TextEv::Text("界".into()),
    ]);
    assert_eq!(buf, "你好世界");
    assert!(pre.is_empty());
}

#[test]
fn chinese_via_ime_commit() {
    let (buf, pre) = run_events(&[
        TextEv::Enabled,
        TextEv::Preedit("n".into()),
        TextEv::Preedit("ni".into()),
        TextEv::Preedit("你好".into()),
        TextEv::Commit("你好".into()),
    ]);
    assert_eq!(buf, "你好");
    assert!(pre.is_empty());
}

#[test]
fn chinese_multi_word_ime() {
    let (buf, pre) = run_events(&[
        TextEv::Enabled,
        TextEv::Preedit("zhong".into()),
        TextEv::Preedit("中国".into()),
        TextEv::Commit("中国".into()),
        TextEv::Preedit("jia".into()),
        TextEv::Preedit("加油".into()),
        TextEv::Commit("加油".into()),
    ]);
    assert_eq!(buf, "中国加油");
    assert!(pre.is_empty());
}

#[test]
fn chinese_mixed_english() {
    let (buf, pre) = run_events(&[
        TextEv::Text("Rust ".into()),
        TextEv::Enabled,
        TextEv::Preedit("zhongwen".into()),
        TextEv::Preedit("中文".into()),
        TextEv::Commit("中文".into()),
        TextEv::Text(" is".into()),
        TextEv::Text(" great".into()),
    ]);
    assert_eq!(buf, "Rust 中文 is great");
    assert!(pre.is_empty());
}

#[test]
fn ime_preedit_canceled_with_backspace() {
    let (buf, pre) = run_events(&[
        TextEv::Enabled,
        TextEv::Preedit("ni".into()),
        TextEv::Preedit("你好".into()),
        TextEv::Backspace,
    ]);
    assert!(buf.is_empty());
    assert!(pre.is_empty());
}

#[test]
fn backspace_deletes_committed_text() {
    let (buf, pre) = run_events(&[
        TextEv::Text("H".into()),
        TextEv::Text("i".into()),
        TextEv::Backspace,
    ]);
    assert_eq!(buf, "H");
    assert!(pre.is_empty());
}

#[test]
fn chinese_punctuation() {
    let (buf, pre) = run_events(&[
        TextEv::Text("你好".into()),
        TextEv::Text("，".into()),
        TextEv::Text("欢迎".into()),
        TextEv::Text("！".into()),
    ]);
    assert_eq!(buf, "你好，欢迎！");
    assert!(pre.is_empty());
}

#[test]
fn ime_commit_then_preedit_does_not_overflow() {
    let (buf, pre) = run_events(&[
        TextEv::Enabled,
        TextEv::Preedit("中文".into()),
        TextEv::Commit("中文".into()),
        TextEv::Preedit("编程".into()),
    ]);
    assert_eq!(buf, "中文");
    assert_eq!(pre, "编程");
}

#[test]
fn empty_commit_is_handled() {
    let (buf, pre) = run_events(&[
        TextEv::Enabled,
        TextEv::Commit("".into()),
        TextEv::Commit("测试".into()),
    ]);
    assert_eq!(buf, "测试");
    assert!(pre.is_empty());
}

#[test]
fn chinese_text_and_enter_same_frame() {
    let (buf, _pre) = run_events(&[
        TextEv::Enabled,
        TextEv::Preedit("ni".into()),
        TextEv::Preedit("你好".into()),
        TextEv::Commit("你好".into()),
        TextEv::Enter,
    ]);
    assert_eq!(buf, "你好", "Chinese text should be in buffer before Enter fires finish_text_input");
}

#[test]
fn backspace_on_empty_buffer_changes_nothing() {
    let (buf, pre) = run_events(&[TextEv::Backspace, TextEv::Backspace]);
    assert!(buf.is_empty());
    assert!(pre.is_empty());
}

#[test]
fn backspace_removes_whole_multibyte_character() {
    let (buf, pre) = run_events(&[TextEv::Text("中文".into()), TextEv::Backspace]);
    assert_eq!(buf, "中");
    assert!(pre.is_empty());
}

#[test]
fn disabled_input_method_drops_composition() {
    let (buf, pre) = run_events(&[
        TextEv::Text("a".into()),
        TextEv::Preedit("pin".into()),
        TextEv::Disabled,
    ]);
    assert_eq!(buf, "a");
    assert!(pre.is_empty());
}

#[test]
fn preedit_replaces_previous_preedit() {
    let (buf, pre) = run_events(&[TextEv::Preedit("a".into()), TextEv::Preedit("ab".into())]);
    assert!(buf.is_empty());
    assert_eq!(pre, "ab");
}

#[test]
fn frame_backspace_comes_after_events() {
    let mut buf = String::from("x");
    let mut pre = String::new();
    let events = vec![TextEv::Text("yz".into()), TextEv::Preedit("q".into())];
    apply_text_events(&events, true, &mut buf, &mut pre);
    assert_eq!(buf, "xyz");
    assert!(pre.is_empty());

    let events = vec![TextEv::Commit("好".into())];
    apply_text_events(&events, true, &mut buf, &mut pre);
    assert_eq!(buf, "xyz");
    assert!(pre.is_empty());
}
