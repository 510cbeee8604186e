//! Text injection planning: which strategy a platform uses and the exact
//! key steps a transcript turns into.  Performing the keystrokes and the
//! clipboard calls is the shell's business; the translation is verified.

use vstd::prelude::*;

verus! {

/// The platform capability the injector was built for.
#[derive(Clone, Copy, Debug, PartialEq, Eq, Structural)]
pub enum Platform {
    Windows,
    MacOs,
    Linux,
}

/// How text reaches the focused application.
#[derive(Clone, Copy, Debug, PartialEq, Eq, Structural)]
pub enum InjectionStrategy {
    /// Hand the whole transcript to direct keystroke synthesis.
    DirectType,
    /// Snapshot the clipboard, paste the transcript, restore the
    /// clipboard; falls back to character steps when the paste fails.
    ClipboardPasteRestore,
    /// Type character by character.
    CharByChar,
}

/// The strategy each platform uses, chosen once at startup: the
/// clipboard paste is reliable on Windows, the clipboard is unsafe off
/// the main thread on macOS, and direct typing works on Linux.
pub fn select_strategy(platform: Platform) -> (s: InjectionStrategy)
    ensures
        platform == Platform::Windows ==> s == InjectionStrategy::ClipboardPasteRestore,
        platform == Platform::MacOs ==> s == InjectionStrategy::CharByChar,
        platform == Platform::Linux ==> s == InjectionStrategy::DirectType,
{
    match platform {
        Platform::Windows => InjectionStrategy::ClipboardPasteRestore,
        Platform::MacOs => InjectionStrategy::CharByChar,
        Platform::Linux => InjectionStrategy::DirectType,
    }
}

/// One keystroke of a character-by-character injection.
#[derive(Clone, Copy, Debug, PartialEq, Eq, Structural)]
pub enum KeyStep {
    /// Press the return key: control characters are sent as key events,
    /// not as literal text.
    Newline,
    /// Press the tab key.
    Tab,
    /// Type this character as text.
    Char(char),
}

/// The key step a single character becomes.
pub open spec fn step_of_char(c: char) -> KeyStep {
    if c == '\n' {
        KeyStep::Newline
    } else if c == '\t' {
        KeyStep::Tab
    } else {
        KeyStep::Char(c)
    }
}

/// The steps of a whole transcript, one per character, in order.
pub open spec fn steps_of(s: Seq<char>) -> Seq<KeyStep> {
    Seq::new(s.len(), |i: int| step_of_char(s[i]))
}

/// Translate a transcript into the exact key steps the shell performs:
/// newlines and tabs become key events, everything else is typed as is.
pub fn injection_steps(text: &str) -> (r: Vec<KeyStep>)
    ensures
        r@ == steps_of(text@),
{
    let n = text.unicode_len();
    let mut out: Vec<KeyStep> = Vec::new();
    let mut i: usize = 0;
    while i < n
        invariant
            n == text@.len(),
            i <= n,
            out@.len() == i,
            forall|k: int| 0 <= k < i ==> out@[k] == steps_of(text@)[k],
        decreases n - i,
    {
        let c = text.get_char(i);
        let step = if c == '\n' {
            KeyStep::Newline
        } else if c == '\t' {
            KeyStep::Tab
        } else {
            KeyStep::Char(c)
        };
        out.push(step);
        i += 1;
    }
    proof {
        assert(out@ =~= steps_of(text@));
    }
    out
}

} // verus!
