use vstd::prelude::*;

use crate::client::{GooseClient, GooseClientMode, GooseClientView, GooseRequestView};

verus! {

/// Control commands the parent can send to a worker over the command
/// channel.
#[allow(non_camel_case_types)]
#[derive(Clone, Copy, PartialEq, Eq, Structural, Debug)]
pub enum GooseClientCommand {
    /// Hand the parent a snapshot of the worker state and restart the local
    /// counters from zero.
    SYNC,
    /// Hand the parent a final snapshot and stop the scheduler loop.
    EXIT,
}

impl GooseClient {
    /// Answer one command from the parent. The returned pair is the
    /// snapshot that must be sent on the snapshot channel and whether the
    /// scheduler loop is to continue.
    ///
    /// `SYNC` snapshots the state as it stands and then clears `requests`:
    /// ownership of the counted totals passes to the parent, and the local
    /// counters restart from zero. `EXIT` moves the worker to `Exiting`
    /// first, so the snapshot already carries the final mode, and leaves
    /// `requests` untouched: the worker is about to terminate.
    pub fn handle_command(&mut self, command: GooseClientCommand) -> (r: (GooseClient, bool))
        requires
            command is EXIT ==> old(self)@.mode == GooseClientMode::Running,
        ensures
            match command {
                GooseClientCommand::SYNC => {
                    &&& r.0@ == old(self)@
                    &&& final(self)@ == (GooseClientView {
                        requests: Seq::<GooseRequestView>::empty(),
                        ..old(self)@
                    })
                    &&& r.1 == true
                },
                GooseClientCommand::EXIT => {
                    &&& final(self)@ == (GooseClientView {
                        mode: GooseClientMode::Exiting,
                        ..old(self)@
                    })
                    &&& r.0@ == final(self)@
                    &&& r.1 == false
                },
            },
    {
        match command {
            GooseClientCommand::SYNC => {
                let snapshot = self.snapshot();
                self.requests = Vec::new();
                proof {
                    assert(self.requests.deep_view() =~= Seq::<GooseRequestView>::empty());
                    assert(self@ =~~= (GooseClientView {
                        requests: Seq::<GooseRequestView>::empty(),
                        ..old(self)@
                    }));
                }
                (snapshot, true)
            },
            GooseClientCommand::EXIT => {
                self.set_mode(GooseClientMode::Exiting);
                let snapshot = self.snapshot();
                (snapshot, false)
            },
        }
    }
}

} // verus!
