use vstd::prelude::*;

verus! {

/// A text-entry event as delivered by the windowing layer: committed text,
/// input-method composition updates, and the editing keys that matter here.
#[derive(Clone, Debug, PartialEq)]
pub enum TextEv {
    Text(String),
    Preedit(String),
    Commit(String),
    Enabled,
    Disabled,
    Backspace,
    Enter,
}

/// The committed buffer and the composition (preedit) text after one event.
pub open spec fn text_ev_step(ev: TextEv, buf: Seq<char>, pre: Seq<char>) -> (Seq<char>, Seq<char>) {
    match ev {
        TextEv::Text(t) => (buf + t@, pre),
        TextEv::Preedit(t) => (buf, t@),
        TextEv::Commit(t) => (buf + t@, Seq::empty()),
        TextEv::Enabled => (buf, pre),
        TextEv::Disabled => (buf, Seq::empty()),
        TextEv::Backspace => backspace_step(buf, pre),
        TextEv::Enter => (buf, pre),
    }
}

/// Backspace first cancels an open composition; only without one does it
/// delete the last committed character (if any).
pub open spec fn backspace_step(buf: Seq<char>, pre: Seq<char>) -> (Seq<char>, Seq<char>) {
    if pre.len() > 0 {
        (buf, Seq::empty())
    } else if buf.len() > 0 {
        (buf.drop_last(), pre)
    } else {
        (buf, pre)
    }
}

/// The buffer and composition text after a sequence of events, in order.
pub open spec fn run_text_events(evs: Seq<TextEv>, buf: Seq<char>, pre: Seq<char>) -> (Seq<char>, Seq<char>)
    decreases evs.len(),
{
    if evs.len() == 0 {
        (buf, pre)
    } else {
        let (b, p) = run_text_events(evs.drop_last(), buf, pre);
        text_ev_step(evs.last(), b, p)
    }
}

/// One frame of text entry: every event in order, then a Backspace key press
/// if one happened during the frame.
pub open spec fn frame_text_result(evs: Seq<TextEv>, backspace: bool, buf: Seq<char>, pre: Seq<char>) -> (Seq<char>, Seq<char>) {
    let (b, p) = run_text_events(evs, buf, pre);
    if backspace {
        backspace_step(b, p)
    } else {
        (b, p)
    }
}

/// `String::pop`: removes the last character and returns it, or returns
/// `None` and leaves the string unchanged when it is empty.
#[verifier::external_body]
fn string_pop(s: &mut String) -> (r: Option<char>)
    ensures
        old(s)@.len() == 0 ==> r is None && final(s)@ == old(s)@,
        old(s)@.len() > 0 ==> r == Some(old(s)@.last()) && final(s)@ == old(s)@.drop_last(),
{
    s.pop()
}

fn string_is_empty(s: &String) -> (r: bool)
    ensures
        r == (s@.len() == 0),
{
    s.as_str().is_empty()
}

fn apply_backspace(buf: &mut String, preedit: &mut String)
    ensures
        (final(buf)@, final(preedit)@) == backspace_step(old(buf)@, old(preedit)@),
{
    if !string_is_empty(preedit) {
        *preedit = String::new();
    } else {
        let _ = string_pop(buf);
    }
}

/// Applies one text event to the committed buffer `buf` and the composition
/// text `preedit`.
pub fn process_text_ev(event: &TextEv, buf: &mut String, preedit: &mut String)
    ensures
        (final(buf)@, final(preedit)@) == text_ev_step(*event, old(buf)@, old(preedit)@),
{
    match event {
        TextEv::Text(t) => buf.append(t.as_str()),
        TextEv::Enabled => {},
        TextEv::Preedit(t) => *preedit = t.clone(),
        TextEv::Commit(t) => {
            buf.append(t.as_str());
            *preedit = String::new();
        },
        TextEv::Disabled => *preedit = String::new(),
        TextEv::Backspace => apply_backspace(buf, preedit),
        TextEv::Enter => {},
    }
}

/// Applies a frame's text events in order, then a Backspace key press of the
/// same frame: the events always come first.
pub fn apply_text_events(events: &Vec<TextEv>, backspace: bool, buf: &mut String, preedit: &mut String)
    ensures
        (final(buf)@, final(preedit)@) == frame_text_result(events@, backspace, old(buf)@, old(preedit)@),
{
    let n = events.len();
    let mut i: usize = 0;
    while i < n
        invariant
            n == events@.len(),
            i <= n,
            (buf@, preedit@) == run_text_events(events@.take(i as int), old(buf)@, old(preedit)@),
        decreases n - i,
    {
        proof {
            assert(events@.take(i + 1).drop_last() =~= events@.take(i as int));
        }
        process_text_ev(&events[i], buf, preedit);
        i = i + 1;
    }
    proof {
        assert(events@.take(n as int) =~= events@);
    }
    if backspace {
        apply_backspace(buf, preedit);
    }
}

} // verus!
