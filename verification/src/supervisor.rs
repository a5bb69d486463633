//! Watch lifecycle: at most one tailer worker is ever live. Starting a watch
//! signals the previous tailer to stop, joins it, resets the dispatcher's
//! queue and timer, and only then may spawn a fresh tailer.

use vstd::prelude::*;
use crate::dispatch::Dispatcher;

verus! {

/// The supervisor's bookkeeping of its background workers: the shared run
/// flag and how many tailer workers are live.
#[derive(Clone, Copy)]
pub struct Supervisor {
    pub run_flag: bool,
    pub active_tailers: u8,
}

/// What starting a watch does to the worker bookkeeping: the previous tailer
/// is signalled and joined (so none is live), the run flag is raised, and one
/// fresh tailer is spawned exactly when a log file was found.
pub open spec fn start_spec(s: Supervisor, file_found: bool) -> Supervisor {
    Supervisor { run_flag: true, active_tailers: if file_found { 1u8 } else { 0u8 } }
}

impl Supervisor {
    /// Before any watch: no workers, nothing running.
    pub fn new() -> (s: Self)
        ensures
            s.run_flag == false,
            s.active_tailers == 0,
    {
        Supervisor { run_flag: false, active_tailers: 0 }
    }

    /// Start a watch session: stop and join the previous tailer, clear the
    /// dispatch queue, reset the send timer, and decide whether to spawn a
    /// tailer. Returns whether the caller must spawn one.
    pub fn start_watch(&mut self, dispatcher: &mut Dispatcher, file_found: bool) -> (spawn: bool)
        ensures
            *final(self) == start_spec(*old(self), file_found),
            final(self).active_tailers <= 1,
            spawn == file_found,
            final(dispatcher)@.queue == Seq::<usize>::empty(),
            final(dispatcher)@.last_send is None,
            final(dispatcher)@.sent == old(dispatcher)@.sent,
    {
        // Models: clear the run flag, join the previous tailer (blocking),
        // then raise the flag for the new workers.
        self.run_flag = false;
        self.active_tailers = 0;
        self.run_flag = true;
        dispatcher.clear_osc_queue();
        dispatcher.reset_timer();
        if file_found {
            self.active_tailers = 1;
        }
        file_found
    }

    /// The tailer worker exited on its own (stop signal observed, or the log
    /// file could not be opened): no session remains.
    pub fn note_tailer_exit(&mut self)
        requires
            old(self).active_tailers >= 1,
        ensures
            final(self).active_tailers == old(self).active_tailers - 1,
            final(self).run_flag == old(self).run_flag,
    {
        self.active_tailers = self.active_tailers - 1;
    }

    /// Deterministic, idempotent shutdown: signal and join everything.
    pub fn stop_all(&mut self)
        ensures
            final(self).run_flag == false,
            final(self).active_tailers == 0,
    {
        self.run_flag = false;
        self.active_tailers = 0;
    }
}

/// However often and from whatever state a watch is started, at most one
/// tailer is live afterwards: the previous one is joined before a new one
/// may be spawned.
pub proof fn lemma_single_tailer(s: Supervisor, file_found: bool)
    ensures
        start_spec(s, file_found).active_tailers <= 1,
{
}

/// Starting twice in a row still leaves at most one tailer, whatever the
/// two starts found on disk.
pub proof fn lemma_restart_single_tailer(s: Supervisor, first_found: bool, second_found: bool)
    ensures
        start_spec(start_spec(s, first_found), second_found).active_tailers <= 1,
{
}

} // verus!
