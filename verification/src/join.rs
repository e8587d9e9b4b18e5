//! The order of work within one call that recomputes a subtree in parallel.
//!
//! Such a call starts one task for each child of its node, matches the rules
//! against the node itself while those tasks run, and then waits for one
//! acknowledgment from each task before it returns. `ForkJoin` keeps the
//! count and says what comes next; whoever owns the tasks and the channel
//! performs each step and asks again.

use vstd::prelude::*;

verus! {

/// One step of a call that recomputes a subtree.
#[derive(Clone, Copy, Debug, PartialEq, Eq, Structural)]
pub enum JoinStep {
    /// Start the task that recomputes the subtree of the child with this
    /// index.
    Spawn(usize),
    /// Match the rules against the node itself.
    MatchOwnStyle,
    /// Block until one more task has acknowledged that it is done.
    AwaitAck,
    /// Everything is done: return.
    Return,
}

/// The step at the given position in the call for a node with `children`
/// children: first one task per child, in the order of the children, then the
/// match of the node itself, then one wait per task, and from then on the
/// return.
pub open spec fn schedule(children: nat, position: nat) -> JoinStep {
    if position < children {
        JoinStep::Spawn(position as usize)
    } else if position == children {
        JoinStep::MatchOwnStyle
    } else if position <= 2 * children {
        JoinStep::AwaitAck
    } else {
        JoinStep::Return
    }
}

/// How many of the steps before `position` start a task.
pub open spec fn spawned_before(children: nat, position: nat) -> nat
    decreases position,
{
    if position == 0 {
        0
    } else {
        let earlier = (position - 1) as nat;
        spawned_before(children, earlier) + if schedule(children, earlier) is Spawn {
            1nat
        } else {
            0nat
        }
    }
}

/// How many of the steps before `position` wait for an acknowledgment.
pub open spec fn awaited_before(children: nat, position: nat) -> nat
    decreases position,
{
    if position == 0 {
        0
    } else {
        let earlier = (position - 1) as nat;
        awaited_before(children, earlier) + if schedule(children, earlier) is AwaitAck {
            1nat
        } else {
            0nat
        }
    }
}

/// Where one call that recomputes a subtree stands.
#[derive(Debug)]
pub struct ForkJoin {
    children: usize,
    spawned: usize,
    matched: bool,
    acknowledged: usize,
}

impl ForkJoin {
    #[verifier::type_invariant]
    spec fn well_formed(self) -> bool {
        &&& self.spawned <= self.children
        &&& self.acknowledged <= self.spawned
        &&& self.matched ==> self.spawned == self.children
        &&& self.acknowledged > 0 ==> self.matched
    }

    /// The number of children of the node that the call is for.
    pub closed spec fn children(self) -> nat {
        self.children as nat
    }

    /// The number of steps that were handed out so far, the return not
    /// counted.
    pub closed spec fn position(self) -> nat {
        (self.spawned + self.acknowledged + if self.matched { 1int } else { 0int }) as nat
    }

    /// The start of a call for a node with the given number of children.
    pub fn new(children: usize) -> (join: ForkJoin)
        ensures
            join.children() == children,
            join.position() == 0,
    {
        ForkJoin { children, spawned: 0, matched: false, acknowledged: 0 }
    }

    /// The step to perform next. Every step but the return is counted as
    /// performed when the next one is asked for.
    pub fn next_step(&mut self) -> (step: JoinStep)
        ensures
            step == schedule(old(self).children(), old(self).position()),
            final(self).children() == old(self).children(),
            final(self).position() == old(self).position() + if step is Return {
                0int
            } else {
                1int
            },
    {
        proof {
            use_type_invariant(&*self);
        }
        if self.spawned < self.children {
            let child = self.spawned;
            *self = ForkJoin {
                children: self.children,
                spawned: self.spawned + 1,
                matched: false,
                acknowledged: 0,
            };
            JoinStep::Spawn(child)
        } else if !self.matched {
            *self = ForkJoin {
                children: self.children,
                spawned: self.spawned,
                matched: true,
                acknowledged: 0,
            };
            JoinStep::MatchOwnStyle
        } else if self.acknowledged < self.spawned {
            *self = ForkJoin {
                children: self.children,
                spawned: self.spawned,
                matched: true,
                acknowledged: self.acknowledged + 1,
            };
            JoinStep::AwaitAck
        } else {
            JoinStep::Return
        }
    }
}

/// Up to any position, the call has started as many tasks as the node has
/// children before that position, and has waited as often as the position
/// lies behind the match of the node itself.
pub proof fn lemma_counts_before(children: nat, position: nat)
    ensures
        spawned_before(children, position) == if position <= children {
            position
        } else {
            children
        },
        awaited_before(children, position) == if position <= children {
            0
        } else if position <= 2 * children + 1 {
            position - children - 1
        } else {
            children as int
        },
    decreases position,
{
    if position > 0 {
        lemma_counts_before(children, (position - 1) as nat);
    }
}

/// A call returns only after it has started one task for each child, matched
/// its own node, and waited for exactly as many acknowledgments as it started
/// tasks.
pub proof fn lemma_return_follows_every_ack(children: nat, position: nat)
    requires
        schedule(children, position) is Return,
    ensures
        spawned_before(children, position) == children,
        awaited_before(children, position) == children,
        exists|earlier: nat| earlier < position && schedule(children, earlier) is MatchOwnStyle,
{
    lemma_counts_before(children, position);
    assert(schedule(children, children) is MatchOwnStyle);
}

/// A call never waits for an acknowledgment that no task is left to send:
/// whenever it waits, it has started more tasks than it has waited for.
pub proof fn lemma_waits_only_for_started_tasks(children: nat, position: nat)
    requires
        schedule(children, position) is AwaitAck,
    ensures
        awaited_before(children, position) < spawned_before(children, position),
{
    lemma_counts_before(children, position);
}

/// A call blocks in one stretch, at its end: once it has waited for an
/// acknowledgment it starts no task and matches nothing, it only waits again
/// or returns.
pub proof fn lemma_waits_come_last(children: nat, position: nat, later: nat)
    requires
        schedule(children, position) is AwaitAck,
        position <= later,
    ensures
        schedule(children, later) is AwaitAck || schedule(children, later) is Return,
{
}

/// The tasks are started for the children in order, each child once, and all
/// of them before the node itself is matched.
pub proof fn lemma_one_task_per_child(children: nat, child: nat)
    requires
        child < children,
        children <= usize::MAX,
    ensures
        schedule(children, child) == JoinStep::Spawn(child as usize),
        forall|position: nat| #[trigger]
            schedule(children, position) == JoinStep::Spawn(child as usize) ==> position == child,
{
}

} // verus!
