//! The process group of a handler, which must not outlive the job.

use vstd::prelude::*;

verus! {

/// Remembers the process group of a handler until the handler is known to have ended. Whoever
/// lets go of a guard first sends the kill signal to the group that `kill` names.
#[derive(Debug)]
pub struct ProcessGroupGuard {
    process_group_id: Option<i32>,
}

/// The process group that a child with the process id `child_id` leads.
pub open spec fn group_of(child_id: Option<u32>) -> Option<i32> {
    match child_id {
        Some(id) => if id <= i32::MAX {
            Some(id as i32)
        } else {
            None
        },
        None => None,
    }
}

/// The address of a process group: its id with a minus sign.
pub open spec fn group_address(group: Option<i32>) -> Option<i32> {
    match group {
        Some(id) => Some((-id) as i32),
        None => None,
    }
}

impl View for ProcessGroupGuard {
    type V = Option<i32>;

    /// The group that is guarded, if any.
    closed spec fn view(&self) -> Option<i32> {
        self.process_group_id
    }
}

impl ProcessGroupGuard {
    #[verifier::type_invariant]
    spec fn well_formed(self) -> bool {
        self.process_group_id matches Some(id) ==> id >= 0
    }

    /// Guards the group that a new child leads. A child without an id, or with one that is no
    /// process id, leads none.
    pub fn new(child_id: Option<u32>) -> (guard: ProcessGroupGuard)
        ensures
            guard@ == group_of(child_id),
    {
        match child_id {
            Some(id) => if id <= i32::MAX as u32 {
                ProcessGroupGuard { process_group_id: Some(id as i32) }
            } else {
                ProcessGroupGuard { process_group_id: None }
            },
            None => ProcessGroupGuard { process_group_id: None },
        }
    }

    /// Where the kill signal goes: a negative process id stands for the whole group.
    pub fn kill(&self) -> (address: Option<i32>)
        ensures
            address == group_address(self@),
            address matches Some(a) ==> a <= 0,
    {
        proof {
            use_type_invariant(self);
        }
        match self.process_group_id {
            Some(id) => Some(-id),
            None => None,
        }
    }

    /// Where the kill signal goes for the last time. The group is no longer guarded then: its id
    /// may soon belong to someone else.
    pub fn kill_remaining_and_disarm(&mut self) -> (address: Option<i32>)
        ensures
            address == group_address(old(self)@),
            final(self)@ is None,
    {
        let address = self.kill();
        self.process_group_id = None;
        address
    }
}

/// The signal of a guard goes to the group of the child, which has the id of the child, and to no
/// group where the child has no id that a process can have.
pub proof fn law_signal_goes_to_the_group_of_the_child(
    child_id: Option<u32>,
    guard: ProcessGroupGuard,
    address: Option<i32>,
)
    requires
        call_ensures(ProcessGroupGuard::new, (child_id,), guard),
        call_ensures(ProcessGroupGuard::kill, (&guard,), address),
    ensures
        child_id is Some && child_id->0 <= i32::MAX ==> address is Some && address->0 + child_id->0
            == 0,
        child_id is Some && child_id->0 > i32::MAX ==> address is None,
        child_id is None ==> address is None,
{
}

/// The last signal of a guard goes where its signals went, and none goes anywhere after it.
pub proof fn law_disarmed_guard_sends_no_signal(
    guard: &mut ProcessGroupGuard,
    before: Option<i32>,
    last: Option<i32>,
    after: Option<i32>,
)
    requires
        call_ensures(ProcessGroupGuard::kill, (old(guard),), before),
        call_ensures(ProcessGroupGuard::kill_remaining_and_disarm, (guard,), last),
        call_ensures(ProcessGroupGuard::kill, (final(guard),), after),
    ensures
        last == before,
        after is None,
{
}

} // verus!
