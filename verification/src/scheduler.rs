use vstd::prelude::*;

use crate::filter::{
    extract_payloads, is_blank, pattern_compiles, spec_lines, spec_payloads, text_is_blank,
};

verus! {

/// One-shot gate for starting the polling loop.
///
/// The loop's trigger (readiness of the destination connection) may arrive
/// more than once; this guard makes sure exactly one polling loop is ever
/// started. Once running, there is no way back to idle.
pub struct StartGate {
    running: bool,
}

impl StartGate {
    /// Whether the polling loop has been started.
    pub closed spec fn is_running(&self) -> bool {
        self.running
    }

    /// A fresh gate: the loop has not been started.
    pub fn new() -> (g: Self)
        ensures
            !g.is_running(),
    {
        StartGate { running: false }
    }

    /// Claim the right to start the loop. Returns true on the first call
    /// alone: however often the trigger arrives, only one caller is told to
    /// start the loop, and the guard stays set forever after.
    pub fn try_start(&mut self) -> (r: bool)
        ensures
            final(self).is_running(),
            r == !old(self).is_running(),
    {
        let first = !self.running;
        self.running = true;
        first
    }
}

/// The compute part of one polling cycle, between the read of new text and
/// the dispatch of messages: text that is empty or all whitespace ends the
/// cycle with nothing to dispatch; any other text is split into lines and
/// filtered, and the extracted payloads are handed on for delivery in line
/// order.
pub fn plan_cycle(text: &Vec<u8>, pattern: &str) -> (r: Option<Vec<String>>)
    ensures
        r is None <==> is_blank(text@),
        pattern_compiles(pattern@) ==> match r {
            Some(p) => p.deep_view() == spec_payloads(pattern@, spec_lines(text@)),
            None => is_blank(text@),
        },
{
    if text_is_blank(text) {
        None
    } else {
        Some(extract_payloads(text, pattern))
    }
}

} // verus!
