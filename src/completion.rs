//! Chain of responsibility for autocomplete requests.
use vstd::prelude::*;

verus! {

/// What one completion handler did with a request.
#[derive(Clone, Copy, Debug, PartialEq, Eq, Structural)]
pub enum CompletionOutcome {
    /// Not this handler's request: the chain goes on.
    Declined,
    /// Claimed and answered: the chain stops.
    Handled,
    /// Claimed and failed: the chain stops and the error is reported.
    Failed,
}

/// What the dispatcher does next while walking the chain.
#[derive(Clone, Copy, Debug, PartialEq, Eq, Structural)]
pub enum ChainStep {
    /// Invoke the handler at this position.
    Invoke(usize),
    /// The handler at this position answered.
    Answered(usize),
    /// The handler at this position failed.
    Failed(usize),
    /// Every handler declined.
    Unclaimed,
}

/// Position of the first handler that claims the request, if any.
pub open spec fn first_claim(outcomes: Seq<CompletionOutcome>) -> Option<int>
    decreases outcomes.len(),
{
    if outcomes.len() == 0 {
        None
    } else if outcomes[0] != CompletionOutcome::Declined {
        Some(0)
    } else {
        match first_claim(outcomes.skip(1)) {
            Some(i) => Some(i + 1),
            None => None,
        }
    }
}

/// Number of handlers invoked when the handlers would answer `outcomes`.
pub open spec fn invoked_count(outcomes: Seq<CompletionOutcome>) -> int {
    match first_claim(outcomes) {
        Some(i) => i + 1,
        None => outcomes.len() as int,
    }
}

/// Final step of walking the chain over `outcomes`.
pub open spec fn chain_result(outcomes: Seq<CompletionOutcome>) -> ChainStep {
    match first_claim(outcomes) {
        Some(i) => if outcomes[i] == CompletionOutcome::Handled {
            ChainStep::Answered(i as usize)
        } else {
            ChainStep::Failed(i as usize)
        },
        None => ChainStep::Unclaimed,
    }
}

pub proof fn lemma_first_claim(outcomes: Seq<CompletionOutcome>)
    ensures
        first_claim(outcomes) is Some <==> exists|i: int| 0 <= i < outcomes.len() && outcomes[i] != CompletionOutcome::Declined,
        first_claim(outcomes) is Some ==> {
            let i = first_claim(outcomes)->Some_0;
            &&& 0 <= i < outcomes.len()
            &&& outcomes[i] != CompletionOutcome::Declined
            &&& forall|k: int| 0 <= k < i ==> outcomes[k] == CompletionOutcome::Declined
        },
    decreases outcomes.len(),
{
    if outcomes.len() > 0 {
        let t = outcomes.skip(1);
        lemma_first_claim(t);
        if outcomes[0] == CompletionOutcome::Declined {
            if exists|i: int| 0 <= i < outcomes.len() && outcomes[i] != CompletionOutcome::Declined {
                let i = choose|i: int| 0 <= i < outcomes.len() && outcomes[i] != CompletionOutcome::Declined;
                assert(t[i - 1] == outcomes[i]);
            }
            if first_claim(t) is Some {
                let i = first_claim(t)->Some_0;
                assert(outcomes[i + 1] == t[i]);
                assert forall|k: int| 0 <= k < i + 1 implies outcomes[k] == CompletionOutcome::Declined by {
                    if k > 0 {
                        assert(outcomes[k] == t[k - 1]);
                    }
                }
            }
        }
    }
}

/// Completion handlers in registration order; the first to claim wins.
pub struct CompletionChain {
    handlers: Vec<u64>,
}

impl View for CompletionChain {
    type V = Seq<u64>;

    closed spec fn view(&self) -> Seq<u64> {
        self.handlers@
    }
}

impl CompletionChain {
    pub fn new() -> (r: CompletionChain)
        ensures
            r@ == Seq::<u64>::empty(),
    {
        CompletionChain { handlers: Vec::new() }
    }

    pub fn len(&self) -> (r: usize)
        ensures
            r == self@.len(),
    {
        self.handlers.len()
    }

    /// The handler at position `i`.
    pub fn handler(&self, i: usize) -> (r: u64)
        requires
            i < self@.len(),
        ensures
            r == self@[i as int],
    {
        self.handlers[i]
    }

    /// Appends a handler; it is consulted after every earlier one.
    pub fn push(&mut self, handler: u64)
        ensures
            final(self)@ == old(self)@.push(handler),
    {
        self.handlers.push(handler);
    }

    /// The first step of dispatching a request.
    pub fn start(&self) -> (r: ChainStep)
        ensures
            self@.len() == 0 ==> r == ChainStep::Unclaimed,
            self@.len() > 0 ==> r == ChainStep::Invoke(0),
    {
        if self.handlers.len() == 0 {
            ChainStep::Unclaimed
        } else {
            ChainStep::Invoke(0)
        }
    }

    /// The step that follows the handler at `pos` answering `outcome`.
    pub fn next_step(&self, pos: usize, outcome: CompletionOutcome) -> (r: ChainStep)
        requires
            pos < self@.len(),
        ensures
            outcome == CompletionOutcome::Handled ==> r == ChainStep::Answered(pos),
            outcome == CompletionOutcome::Failed ==> r == ChainStep::Failed(pos),
            outcome == CompletionOutcome::Declined && pos + 1 < self@.len() ==> r == ChainStep::Invoke((pos + 1) as usize),
            outcome == CompletionOutcome::Declined && pos + 1 == self@.len() ==> r == ChainStep::Unclaimed,
    {
        match outcome {
            CompletionOutcome::Handled => ChainStep::Answered(pos),
            CompletionOutcome::Failed => ChainStep::Failed(pos),
            CompletionOutcome::Declined => {
                if pos < self.handlers.len() - 1 {
                    ChainStep::Invoke(pos + 1)
                } else {
                    ChainStep::Unclaimed
                }
            },
        }
    }

    /// Walks the chain when the handler at position `i` would answer
    /// `outcomes[i]`: returns the final step and how many handlers ran.
    pub fn dispatch(&self, outcomes: &Vec<CompletionOutcome>) -> (r: (ChainStep, usize))
        requires
            outcomes@.len() == self@.len(),
        ensures
            r.0 == chain_result(outcomes@),
            r.1 == invoked_count(outcomes@),
    {
        proof {
            lemma_first_claim(outcomes@);
        }
        let mut step = self.start();
        let mut ran: usize = 0;
        while ran < outcomes.len()
            invariant
                outcomes@.len() == self@.len(),
                ran <= outcomes@.len(),
                forall|k: int| 0 <= k < ran ==> outcomes@[k] == CompletionOutcome::Declined,
                ran < outcomes@.len() ==> step == ChainStep::Invoke(ran),
                ran == outcomes@.len() ==> step == ChainStep::Unclaimed,
            decreases outcomes@.len() - ran,
        {
            let pos = ran;
            step = self.next_step(pos, outcomes[pos]);
            ran = ran + 1;
            if outcomes[pos] != CompletionOutcome::Declined {
                proof {
                    assert(0 <= pos < outcomes@.len() && outcomes@[pos as int] != CompletionOutcome::Declined);
                    lemma_first_claim(outcomes@);
                    assert(exists|i: int| 0 <= i < outcomes@.len() && outcomes@[i] != CompletionOutcome::Declined);
                    assert(first_claim(outcomes@) is Some);
                    let i = first_claim(outcomes@)->Some_0;
                    if i < pos {
                        assert(outcomes@[i] == CompletionOutcome::Declined);
                    }
                    if i > pos {
                        assert(outcomes@[pos as int] == CompletionOutcome::Declined);
                    }
                }
                return (step, ran);
            }
        }
        (step, ran)
    }
}

/// Once a handler claims a request, no later handler is invoked.
pub proof fn lemma_later_handlers_not_invoked(outcomes: Seq<CompletionOutcome>, claimer: int)
    requires
        0 <= claimer < outcomes.len(),
        outcomes[claimer] != CompletionOutcome::Declined,
    ensures
        invoked_count(outcomes) <= claimer + 1,
        chain_result(outcomes) != ChainStep::Unclaimed,
{
    lemma_first_claim(outcomes);
}

} // verus!
