//! The conversation in which a model repairs a command stream.

use vstd::prelude::*;

use crate::history::{
    compaction_request, CompactionMode, HistoryEntry, HistoryFile, HISTORY_VERSION,
};
use crate::number::{decimal, decimal_text};
use crate::turn::{is_due, is_told, Turn, TurnAction, TurnKind, TurnPhase};

verus! {

/// A repair conversation.
#[derive(Debug)]
pub struct RepairAgent {
    pub history: HistoryFile,
    pub history_token_limit: u64,
}

impl RepairAgent {
    /// A conversation that begins at a time, given in seconds and in milliseconds.
    pub fn new(
        workspace_root: &str,
        history_token_limit: u64,
        seconds: u64,
        millis: u128,
    ) -> (r: RepairAgent)
        ensures
            r.history_token_limit == history_token_limit,
            r.history.version == HISTORY_VERSION,
            r.history.session_id@ == "repair-"@ + decimal_text(seconds as nat),
            r.history.workspace_root@ == workspace_root@,
            r.history.last_active_at_ms == millis,
            r.history.total_input_tokens == 0,
            r.history.total_output_tokens == 0,
            r.history.total_tokens == 0,
            r.history.entries@ == Seq::<HistoryEntry>::empty(),
    {
        let mut session_id = "repair-".to_owned();
        session_id.append(decimal(seconds as u128).as_str());
        RepairAgent {
            history: HistoryFile {
                version: HISTORY_VERSION,
                session_id,
                workspace_root: workspace_root.to_owned(),
                last_active_at_ms: millis,
                total_input_tokens: 0,
                total_output_tokens: 0,
                total_tokens: 0,
                entries: Vec::new(),
            },
            history_token_limit,
        }
    }

    /// Begins a repair with a request.
    pub fn repair(&mut self, prompt: String) -> (r: (Turn, TurnAction))
        ensures
            final(self).history_token_limit == old(self).history_token_limit,
            r.0.wf(),
            r.0.kind is Repair,
            r.0.token_limit == old(self).history_token_limit,
            r.0.replies == 0,
            if !old(self).history.usage_fits() {
                &&& r.1 is Overflow
                &&& r.0.phase is Over
                &&& final(self).history == old(self).history
            } else if is_due(old(self).history, old(self).history_token_limit) {
                &&& r.1 is AskSummary
                &&& r.0.phase matches TurnPhase::SummaryFirst { text } && text == prompt
                &&& is_told(
                    final(self).history,
                    old(self).history,
                    compaction_request(CompactionMode::BeforeTurn),
                )
            } else {
                &&& r.1 is Save
                &&& r.0.phase is Ready
                &&& is_told(final(self).history, old(self).history, prompt@)
            },
    {
        Turn::start(TurnKind::Repair, self.history_token_limit, &mut self.history, prompt)
    }
}

} // verus!
