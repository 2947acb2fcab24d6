//! The workers of a scan, each of which checks one thing and counts it before it
//! ends.
use vstd::prelude::*;

verus! {

/// How a worker ended.
#[derive(Clone, Copy, Debug, PartialEq, Eq, Structural)]
pub enum Ending {
    /// It has counted a success.
    Found,
    /// It has counted a miss.
    Nothing,
    /// It ended before its time and has counted nothing.
    Failed,
}

/// What a [`Workers`] stands for.
pub struct WorkersView {
    /// Those that have not counted yet.
    pub at_work: nat,
    /// Those that have counted a success and whose end is awaited.
    pub found: nat,
    /// Those that have counted a miss and whose end is awaited.
    pub nothing: nat,
}

impl WorkersView {
    /// Some workers that have just begun.
    pub open spec fn begun(count: nat) -> WorkersView {
        WorkersView { at_work: count, found: 0, nothing: 0 }
    }

    /// The workers after one of them has counted.
    pub open spec fn after_count(self, found: bool) -> WorkersView {
        let at_work = (self.at_work - 1) as nat;
        if found {
            WorkersView { at_work, found: self.found + 1, ..self }
        } else {
            WorkersView { at_work, nothing: self.nothing + 1, ..self }
        }
    }

    /// Whether there is a worker that can end in this way.
    pub open spec fn can_end(self, ending: Ending) -> bool {
        match ending {
            Ending::Found => self.found > 0,
            Ending::Nothing => self.nothing > 0,
            Ending::Failed => self.at_work > 0,
        }
    }

    /// The workers after one of them has ended.
    pub open spec fn after_end(self, ending: Ending) -> WorkersView {
        match ending {
            Ending::Found => WorkersView { found: (self.found - 1) as nat, ..self },
            Ending::Nothing => WorkersView { nothing: (self.nothing - 1) as nat, ..self },
            Ending::Failed => WorkersView { at_work: (self.at_work - 1) as nat, ..self },
        }
    }

    /// Those that have counted and whose end is awaited.
    pub open spec fn counted(self) -> nat {
        self.found + self.nothing
    }

    /// Those whose end is awaited.
    pub open spec fn left(self) -> nat {
        self.at_work + self.counted()
    }
}

/// The workers of a scan that have not ended.
#[derive(Clone, Copy, Debug)]
pub struct Workers {
    at_work: usize,
    found: usize,
    nothing: usize,
}

impl View for Workers {
    type V = WorkersView;

    closed spec fn view(&self) -> WorkersView {
        WorkersView {
            at_work: self.at_work as nat,
            found: self.found as nat,
            nothing: self.nothing as nat,
        }
    }
}

impl Workers {
    #[verifier::type_invariant]
    spec fn fits(self) -> bool {
        self.at_work + self.found + self.nothing <= usize::MAX
    }

    /// Some workers that have just begun.
    pub fn begin(count: usize) -> (workers: Workers)
        ensures
            workers@ == WorkersView::begun(count as nat),
    {
        Workers { at_work: count, found: 0, nothing: 0 }
    }

    /// Whether there is a worker that has not counted yet.
    pub fn awaits_count(&self) -> (awaited: bool)
        ensures
            awaited == (self@.at_work > 0),
    {
        self.at_work > 0
    }

    /// Whether there is a worker that can end in this way.
    pub fn awaits_end(&self, ending: Ending) -> (awaited: bool)
        ensures
            awaited == self@.can_end(ending),
    {
        match ending {
            Ending::Found => self.found > 0,
            Ending::Nothing => self.nothing > 0,
            Ending::Failed => self.at_work > 0,
        }
    }

    /// Takes note that one of the workers has counted.
    pub fn count(&self, found: bool) -> (workers: Workers)
        requires
            self@.at_work > 0,
        ensures
            workers@ == self@.after_count(found),
    {
        proof {
            use_type_invariant(self);
        }
        let at_work: usize = self.at_work - 1;
        if found {
            Workers { at_work, found: self.found + 1, nothing: self.nothing }
        } else {
            Workers { at_work, found: self.found, nothing: self.nothing + 1 }
        }
    }

    /// Takes note that one of the workers has ended.
    pub fn end(&self, ending: Ending) -> (workers: Workers)
        requires
            self@.can_end(ending),
        ensures
            workers@ == self@.after_end(ending),
    {
        proof {
            use_type_invariant(self);
        }
        match ending {
            Ending::Found => Workers { found: self.found - 1, ..*self },
            Ending::Nothing => Workers { nothing: self.nothing - 1, ..*self },
            Ending::Failed => Workers { at_work: self.at_work - 1, ..*self },
        }
    }

    /// Whether all workers have ended.
    pub fn all_ended(&self) -> (ended: bool)
        ensures
            ended == (self@.left() == 0),
    {
        self.at_work == 0 && self.found == 0 && self.nothing == 0
    }
}

} // verus!
