//! Command buffers that load resources, from recording to completion.

use vstd::prelude::*;

verus! {

/// Command buffers by their handles, with the staging buffers that they read.
pub struct LoadingContext {
    executable: Vec<u64>,
    pending: Vec<u64>,
    staging_buffers: Vec<u64>,
}

/// What is wrong when a context is given up.
#[derive(Clone, Copy, PartialEq, Eq, Structural, Debug)]
pub struct LoadingLeftovers {
    /// Commands were not submitted.
    pub unsubmitted: bool,
    /// Commands were not completed: the staging buffers must not be freed.
    pub uncompleted: bool,
}

impl LoadingContext {
    /// The command buffers that were recorded and not submitted.
    pub closed spec fn spec_executable(self) -> Seq<u64> {
        self.executable@
    }

    /// The command buffers that were submitted and not completed.
    pub closed spec fn spec_pending(self) -> Seq<u64> {
        self.pending@
    }

    /// The staging buffers that the command buffers read.
    pub closed spec fn spec_staging(self) -> Seq<u64> {
        self.staging_buffers@
    }

    /// Nothing to load yet.
    pub fn new() -> (context: Self)
        ensures
            context.spec_executable() == Seq::<u64>::empty(),
            context.spec_pending() == Seq::<u64>::empty(),
            context.spec_staging() == Seq::<u64>::empty(),
    {
        LoadingContext {
            executable: Vec::new(),
            pending: Vec::new(),
            staging_buffers: Vec::new(),
        }
    }

    /// Adds a command buffer that was recorded, with its staging buffers.
    pub fn load(&mut self, commands: u64, staging_buffers: &Vec<u64>)
        ensures
            final(self).spec_executable() == old(self).spec_executable().push(commands),
            final(self).spec_pending() == old(self).spec_pending(),
            final(self).spec_staging() == old(self).spec_staging() + staging_buffers@,
    {
        let mut i: usize = 0;
        assert(self.staging_buffers@ =~= old(self).staging_buffers@ + staging_buffers@.take(0));
        while i < staging_buffers.len()
            invariant
                i <= staging_buffers.len(),
                self.executable == old(self).executable,
                self.pending == old(self).pending,
                self.staging_buffers@ == old(self).staging_buffers@ + staging_buffers@.take(
                    i as int,
                ),
            decreases staging_buffers.len() - i,
        {
            self.staging_buffers.push(staging_buffers[i]);
            i += 1;
            assert(self.staging_buffers@ =~= old(self).staging_buffers@ + staging_buffers@.take(
                i as int,
            ));
        }
        assert(staging_buffers@.take(staging_buffers.len() as int) =~= staging_buffers@);
        self.executable.push(commands);
    }

    /// The command buffers to submit; nothing has to be submitted where there are none.
    pub fn to_submit(&self) -> (commands: &Vec<u64>)
        ensures
            commands@ == self.spec_executable(),
    {
        &self.executable
    }

    /// Takes note that all command buffers were submitted.
    pub fn submitted(&mut self)
        ensures
            final(self).spec_executable() == Seq::<u64>::empty(),
            final(self).spec_pending() == old(self).spec_pending() + old(self).spec_executable(),
            final(self).spec_staging() == old(self).spec_staging(),
    {
        let mut executable: Vec<u64> = Vec::new();
        std::mem::swap(&mut executable, &mut self.executable);
        self.pending.append(&mut executable);
    }

    /// Takes note that all command buffers that were submitted are completed. Returns them, and
    /// the staging buffers that are no longer needed.
    pub fn completed(&mut self) -> (done: (Vec<u64>, Vec<u64>))
        requires
            old(self).spec_executable().len() == 0,
        ensures
            done.0@ == old(self).spec_pending(),
            done.1@ == old(self).spec_staging(),
            final(self).spec_executable() == Seq::<u64>::empty(),
            final(self).spec_pending() == Seq::<u64>::empty(),
            final(self).spec_staging() == Seq::<u64>::empty(),
    {
        let mut pending: Vec<u64> = Vec::new();
        std::mem::swap(&mut pending, &mut self.pending);
        let mut staging_buffers: Vec<u64> = Vec::new();
        std::mem::swap(&mut staging_buffers, &mut self.staging_buffers);
        assert(self.executable@ =~= Seq::<u64>::empty());
        (pending, staging_buffers)
    }

    /// What is left when the context is given up.
    pub fn leftovers(&self) -> (leftovers: LoadingLeftovers)
        ensures
            leftovers.unsubmitted == (self.spec_executable().len() > 0),
            leftovers.uncompleted == (self.spec_pending().len() > 0),
    {
        LoadingLeftovers {
            unsubmitted: self.executable.len() > 0,
            uncompleted: self.pending.len() > 0,
        }
    }
}

/// A command buffer that is loaded, submitted and completed is handed back with its staging
/// buffers: `done` is what completing the context gives back, after `loaded` was submitted.
pub proof fn loading_hands_back(
    before: LoadingContext,
    commands: u64,
    staging_buffers: Seq<u64>,
    loaded: LoadingContext,
    submitted: LoadingContext,
    done: (Seq<u64>, Seq<u64>),
)
    requires
        loaded.spec_executable() == before.spec_executable().push(commands),
        loaded.spec_pending() == before.spec_pending(),
        loaded.spec_staging() == before.spec_staging() + staging_buffers,
        submitted.spec_pending() == loaded.spec_pending() + loaded.spec_executable(),
        submitted.spec_staging() == loaded.spec_staging(),
        done == (submitted.spec_pending(), submitted.spec_staging()),
    ensures
        done.0 == before.spec_pending() + before.spec_executable() + seq![commands],
        done.1 == before.spec_staging() + staging_buffers,
        done.0.last() == commands,
        forall|s: u64| #[trigger] staging_buffers.contains(s) ==> done.1.contains(s),
{
    assert(done.0 =~= before.spec_pending() + before.spec_executable() + seq![commands]);
    assert forall|s: u64| #[trigger] staging_buffers.contains(s) implies done.1.contains(s) by {
        let i = staging_buffers.index_of(s);
        assert(done.1[before.spec_staging().len() + i] == s);
    }
}

/// A command buffer is used once, or kept.
#[derive(Clone, Copy, PartialEq, Eq, Structural, Debug)]
pub enum TransientOrPersistent {
    Persistent(u64),
    Transient(u64),
}

impl TransientOrPersistent {
    /// The command buffer.
    pub open spec fn spec_command_buffer(self) -> u64 {
        match self {
            TransientOrPersistent::Persistent(handle) => handle,
            TransientOrPersistent::Transient(handle) => handle,
        }
    }

    /// The command buffer.
    pub fn command_buffer(&self) -> (handle: u64)
        ensures
            handle == self.spec_command_buffer(),
    {
        match *self {
            TransientOrPersistent::Persistent(handle) => handle,
            TransientOrPersistent::Transient(handle) => handle,
        }
    }

    /// The command buffer to end, submit and wait for, now that its commands are recorded: one
    /// that is used once.
    pub fn to_end(self) -> (handle: Option<u64>)
        ensures
            handle == (match self {
                TransientOrPersistent::Persistent(_) => None,
                TransientOrPersistent::Transient(h) => Some(h),
            }),
    {
        match self {
            TransientOrPersistent::Persistent(_) => None,
            TransientOrPersistent::Transient(handle) => Some(handle),
        }
    }
}

} // verus!
