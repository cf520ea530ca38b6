//! Text injection: the exact keystroke-level plan a "paste text into
//! the focused window" request turns into, and the actor state that
//! serialises such requests. Requests are applied strictly one at a
//! time, in submission order; the steps of one request are never
//! interleaved with another's.

use vstd::prelude::*;

verus! {

/// One keystroke-level step of a text injection, as the actor performs
/// them against the clipboard and the synthetic-input backend.
#[derive(Clone, Debug, PartialEq, Eq)]
pub enum InjectStep {
    /// Wait the given number of milliseconds.
    Delay(u64),
    /// Put the text on the system clipboard.
    SetClipboard(String),
    /// Press and hold the paste modifier.
    PressControl,
    /// Click the paste character key.
    ClickV,
    /// Release the paste modifier.
    ReleaseControl,
}

/// `steps` is the injection plan for `text`: a settling delay, the
/// clipboard copy, then the paste combination with short delays
/// between its three key events.
pub open spec fn is_inject_plan(steps: Seq<InjectStep>, text: Seq<char>) -> bool {
    &&& steps.len() == 7
    &&& steps[0] == InjectStep::Delay(100)
    &&& steps[1] matches InjectStep::SetClipboard(s) && s@ == text
    &&& steps[2] == InjectStep::PressControl
    &&& steps[3] == InjectStep::Delay(50)
    &&& steps[4] == InjectStep::ClickV
    &&& steps[5] == InjectStep::Delay(50)
    &&& steps[6] == InjectStep::ReleaseControl
}

/// Copies text to the system clipboard. No clipboard backend exists on
/// this platform, so every request is refused with a descriptive
/// error; requests after a failed one are unaffected.
pub fn copy_to_clipboard(text: &str) -> (r: Result<(), String>)
    ensures
        r matches Err(m) && m@ == "Clipboard operation not supported on this platform"@,
{
    let _ = text;
    Err("Clipboard operation not supported on this platform".to_owned())
}

/// The injection actor's state: the keystroke-level history of
/// everything it has performed, oldest step first.
pub struct TextInjector {
    history: Vec<InjectStep>,
}

impl TextInjector {
    /// The steps performed so far.
    pub closed spec fn spec_history(&self) -> Seq<InjectStep> {
        self.history@
    }

    /// A fresh injector: nothing performed yet.
    pub fn new() -> (r: TextInjector)
        ensures
            r.spec_history() == Seq::<InjectStep>::empty(),
    {
        TextInjector { history: Vec::new() }
    }

    /// Serialises one injection request: the whole plan for `text` is
    /// appended to the history as one contiguous block, and returned
    /// for the actor thread to perform. Exclusive access to the state
    /// keeps two requests from interleaving.
    pub fn inject_text(&mut self, text: &str) -> (r: Vec<InjectStep>)
        ensures
            is_inject_plan(r@, text@),
            final(self).spec_history() == old(self).spec_history() + r@,
    {
        let mut steps: Vec<InjectStep> = Vec::new();
        steps.push(InjectStep::Delay(100));
        steps.push(InjectStep::SetClipboard(text.to_owned()));
        steps.push(InjectStep::PressControl);
        steps.push(InjectStep::Delay(50));
        steps.push(InjectStep::ClickV);
        steps.push(InjectStep::Delay(50));
        steps.push(InjectStep::ReleaseControl);
        let mut i: usize = 0;
        let n = steps.len();
        let ghost entry_history = self.history@;
        while i < n
            invariant
                0 <= i <= n,
                n == steps@.len(),
                self.history@ == entry_history + steps@.subrange(0, i as int),
            decreases n - i,
        {
            let s = clone_step(&steps[i]);
            self.history.push(s);
            proof {
                assert(self.history@ =~= entry_history + steps@.subrange(0, i + 1));
            }
            i = i + 1;
        }
        proof {
            assert(steps@.subrange(0, n as int) =~= steps@);
        }
        steps
    }
}

/// A copy of one step, equal to the original.
fn clone_step(s: &InjectStep) -> (r: InjectStep)
    ensures
        r == *s,
{
    match s {
        InjectStep::Delay(ms) => InjectStep::Delay(*ms),
        InjectStep::SetClipboard(t) => InjectStep::SetClipboard(t.clone()),
        InjectStep::PressControl => InjectStep::PressControl,
        InjectStep::ClickV => InjectStep::ClickV,
        InjectStep::ReleaseControl => InjectStep::ReleaseControl,
    }
}

/// Requests submitted one after the other land in the history in
/// submission order: after a history `h`, a plan for `t1` and then one
/// for `t2`, the first plan occupies one contiguous block and the
/// second the block after it — no step of one stands among the steps
/// of the other.
pub proof fn lemma_injects_never_interleave(
    h: Seq<InjectStep>,
    p1: Seq<InjectStep>,
    p2: Seq<InjectStep>,
    t1: Seq<char>,
    t2: Seq<char>,
)
    requires
        is_inject_plan(p1, t1),
        is_inject_plan(p2, t2),
    ensures
        (h + p1 + p2).subrange(h.len() as int, h.len() + p1.len() as int) == p1,
        (h + p1 + p2).subrange(h.len() + p1.len() as int, (h + p1 + p2).len() as int) == p2,
{
    assert((h + p1 + p2).subrange(h.len() as int, h.len() + p1.len() as int) =~= p1);
    assert((h + p1 + p2).subrange(h.len() + p1.len() as int, (h + p1 + p2).len() as int) =~= p2);
}

} // verus!
