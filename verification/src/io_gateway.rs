use vstd::prelude::*;

verus! {

/// A request to the I/O worker: confirm idleness, load a snapshot, or save
/// one.
#[derive(Debug, Clone, Copy, PartialEq, Eq, Structural)]
pub enum IoCommand {
    IoCheckIdle,
    IoInput,
    IoOutput,
}

/// What the I/O worker reports when it finishes a command: the cells of a
/// loaded snapshot handed over, a saved snapshot flushed to storage, or the
/// confirmation that nothing is in flight.
#[derive(Debug, Clone, Copy, PartialEq, Eq, Structural)]
pub enum IoAck {
    LoadCompleted,
    SaveCompleted,
    IdleConfirmed,
}

/// The acknowledgement each command ends with.
pub open spec fn spec_io_ack(c: IoCommand) -> IoAck {
    match c {
        IoCommand::IoCheckIdle => IoAck::IdleConfirmed,
        IoCommand::IoInput => IoAck::LoadCompleted,
        IoCommand::IoOutput => IoAck::SaveCompleted,
    }
}

/// The acknowledgement log of a command queue. The I/O worker serves one
/// command at a time and finishes it fully before taking the next, so the
/// log mirrors the queue, acknowledgement by acknowledgement, in queue
/// order.
pub open spec fn spec_io_log(queue: Seq<IoCommand>) -> Seq<IoAck> {
    queue.map_values(|c: IoCommand| spec_io_ack(c))
}

/// The acknowledgement one command ends with.
pub fn io_ack(c: IoCommand) -> (a: IoAck)
    ensures
        a == spec_io_ack(c),
{
    match c {
        IoCommand::IoCheckIdle => IoAck::IdleConfirmed,
        IoCommand::IoInput => IoAck::LoadCompleted,
        IoCommand::IoOutput => IoAck::SaveCompleted,
    }
}

/// Serve a whole command queue in order, one command at a time, and return
/// the acknowledgement log.
pub fn process_io_queue(queue: &Vec<IoCommand>) -> (log: Vec<IoAck>)
    ensures
        log@ == spec_io_log(queue@),
{
    let mut log: Vec<IoAck> = Vec::new();
    let mut i: usize = 0;
    while i < queue.len()
        invariant
            i <= queue@.len(),
            log@.len() == i,
            forall|j: int| 0 <= j < i ==> log@[j] == spec_io_ack(queue@[j]),
        decreases queue@.len() - i,
    {
        log.push(io_ack(queue[i]));
        i += 1;
    }
    proof {
        assert(log@ =~= spec_io_log(queue@));
    }
    log
}

/// A save queued before an idle check is acknowledged before it: the idle
/// confirmation at position `j` comes only after the save at position `i`
/// has fully completed, never before.
pub proof fn lemma_idle_after_save(queue: Seq<IoCommand>, i: int, j: int)
    requires
        0 <= i < j < queue.len(),
        queue[i] == IoCommand::IoOutput,
        queue[j] == IoCommand::IoCheckIdle,
    ensures
        spec_io_log(queue)[i] == IoAck::SaveCompleted,
        spec_io_log(queue)[j] == IoAck::IdleConfirmed,
        spec_io_log(queue).subrange(0, j).contains(IoAck::SaveCompleted),
{
    assert(spec_io_log(queue)[i] == IoAck::SaveCompleted);
    assert(spec_io_log(queue).subrange(0, j)[i] == IoAck::SaveCompleted);
}

/// The single pending request: at most one load or save is in flight at any
/// time. A new request is accepted only while nothing is in flight, and the
/// idle check reports true exactly when nothing is.
pub struct IoGateway {
    pub in_flight: Option<IoCommand>,
}

impl IoGateway {
    /// No load or save is in flight.
    pub open spec fn idle(self) -> bool {
        self.in_flight is None
    }

    /// A fresh gateway, with nothing in flight.
    pub fn new() -> (g: Self)
        ensures
            g.idle(),
    {
        IoGateway { in_flight: None }
    }

    /// Accept a load or save request. The caller must wait until the gateway
    /// is idle: a second request cannot overlap the first.
    pub fn begin(&mut self, c: IoCommand)
        requires
            old(self).idle(),
            c != IoCommand::IoCheckIdle,
        ensures
            final(self).in_flight == Some(c),
    {
        self.in_flight = Some(c);
    }

    /// Finish the in-flight request: its work has fully drained, and its
    /// acknowledgement is returned. Only now can the gateway report idle
    /// again.
    pub fn complete(&mut self) -> (a: IoAck)
        requires
            old(self).in_flight is Some,
        ensures
            final(self).idle(),
            a == spec_io_ack(old(self).in_flight->0),
    {
        let c = match self.in_flight {
            Some(c) => c,
            None => IoCommand::IoCheckIdle,
        };
        self.in_flight = None;
        io_ack(c)
    }

    /// Whether nothing is in flight: true only once any prior load or save
    /// has fully completed.
    pub fn check_idle(&self) -> (r: bool)
        ensures
            r == self.idle(),
    {
        matches!(self.in_flight, None)
    }
}

} // verus!
