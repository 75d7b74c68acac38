use vstd::prelude::*;
use std::sync::mpsc::Sender;

verus! {

#[verifier::external_type_specification]
#[verifier::external_body]
#[verifier::reject_recursive_types(T)]
pub struct ExSender<T>(std::sync::mpsc::Sender<T>);

/// A chaser: an ordered list of switch ids that are stepped through, and the
/// stop handle of the thread that runs it, if it runs.
#[derive(Debug, Clone)]
pub struct Chaser {
    pub switches: Vec<usize>,
    pub current_thread: Option<Sender<()>>,
}

/// The view of a chaser that is sent to the control surfaces.
#[derive(Debug, Clone)]
pub struct FrontendChaser {
    pub switches: Vec<usize>,
    pub current_thread: bool,
}

/// `switches` once switch `switch_id` is deleted from the switch list: the
/// references to it are dropped and every reference to a later switch moves
/// down by one, order kept.
pub open spec fn spec_remove_switch(switches: Seq<usize>, switch_id: usize) -> Seq<usize>
    decreases switches.len(),
{
    if switches.len() == 0 {
        Seq::empty()
    } else {
        let rest = spec_remove_switch(switches.drop_last(), switch_id);
        let x = switches.last();
        if x == switch_id {
            rest
        } else if x < switch_id {
            rest.push(x)
        } else {
            rest.push((x - 1) as usize)
        }
    }
}

impl FrontendChaser {
    pub fn new() -> (c: FrontendChaser)
        ensures
            c.switches@ == Seq::<usize>::empty(),
            c.current_thread,
    {
        FrontendChaser { switches: Vec::new(), current_thread: true }
    }

    /// Accounts for the deletion of switch `switch_id` from the switch list.
    pub fn remove_switch_with_id(&mut self, switch_id: usize)
        ensures
            final(self).switches@ == spec_remove_switch(old(self).switches@, switch_id),
            final(self).current_thread == old(self).current_thread,
    {
        let mut kept: Vec<usize> = Vec::new();
        let mut i: usize = 0;
        let n = self.switches.len();
        while i < n
            invariant
                n == self.switches@.len(),
                i <= n,
                kept@ == spec_remove_switch(self.switches@.subrange(0, i as int), switch_id),
            decreases n - i,
        {
            let x = self.switches[i];
            proof {
                let p = self.switches@.subrange(0, i + 1);
                assert(p.drop_last() =~= self.switches@.subrange(0, i as int));
            }
            if x != switch_id {
                if x < switch_id {
                    kept.push(x);
                } else {
                    kept.push(x - 1);
                }
            }
            i = i + 1;
        }
        assert(self.switches@.subrange(0, n as int) =~= self.switches@);
        self.switches = kept;
    }
}

impl Chaser {
    pub fn new() -> (c: Chaser)
        ensures
            c.switches@ == Seq::<usize>::empty(),
            c.current_thread is None,
    {
        Chaser { switches: Vec::new(), current_thread: None }
    }

    /// A chaser with the switches of `frontend_chaser`, not running.
    pub fn from_frontend_data(frontend_chaser: FrontendChaser) -> (c: Chaser)
        ensures
            c.switches@ == frontend_chaser.switches@,
            c.current_thread is None,
    {
        Chaser { switches: frontend_chaser.switches, current_thread: None }
    }

    /// Stops the chaser: the stop handle of its running thread, if any, is
    /// handed to the caller, who sends the stop signal on it, and the chaser
    /// no longer counts as running.
    pub fn stop_chaser(&mut self) -> (tx: Option<Sender<()>>)
        ensures
            tx == old(self).current_thread,
            final(self).current_thread is None,
            final(self).switches@ == old(self).switches@,
    {
        self.current_thread.take()
    }

    pub fn get_frontend_data(&self) -> (f: FrontendChaser)
        ensures
            f.switches@ == self.switches@,
            f.current_thread == (self.current_thread is Some),
    {
        FrontendChaser { switches: self.switches.clone(), current_thread: self.current_thread.is_some() }
    }
}

/// Every switch id that a chaser keeps after the deletion of a switch from a
/// list of `n` switches points into the shortened list, if every id pointed
/// into the list before.
pub proof fn lemma_remove_switch_keeps_ids_valid(switches: Seq<usize>, switch_id: usize, n: nat)
    requires
        switch_id < n,
        forall|i: int| 0 <= i < switches.len() ==> switches[i] < n,
    ensures
        forall|i: int|
            0 <= i < spec_remove_switch(switches, switch_id).len() ==> spec_remove_switch(
                switches,
                switch_id,
            )[i] < n - 1,
        spec_remove_switch(switches, switch_id).len() <= switches.len(),
    decreases switches.len(),
{
    if switches.len() > 0 {
        lemma_remove_switch_keeps_ids_valid(switches.drop_last(), switch_id, n);
    }
}

/// Deleting a switch that a chaser does not refer to, and that comes after
/// every switch it refers to, leaves the chaser unchanged.
pub proof fn lemma_remove_later_switch_is_identity(switches: Seq<usize>, switch_id: usize)
    requires
        forall|i: int| 0 <= i < switches.len() ==> switches[i] < switch_id,
    ensures
        spec_remove_switch(switches, switch_id) == switches,
    decreases switches.len(),
{
    if switches.len() > 0 {
        lemma_remove_later_switch_is_identity(switches.drop_last(), switch_id);
        assert(switches.drop_last().push(switches.last()) =~= switches);
    }
}

} // verus!
