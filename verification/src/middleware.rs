//! The middleware chain around a handler: the order in which middlewares
//! and the final handler see a message.

use vstd::prelude::*;

verus! {

/// A chain of middlewares (`M`) in front of a final handler (`H`).
pub struct Pipeline<M, H> {
    middlewares: Vec<M>,
    handler: H,
}

/// The rest of a chain from position `index`: the middleware there, or
/// the handler once every middleware has run.
pub struct Next<'a, M, H> {
    next: &'a Vec<M>,
    index: usize,
    handler: &'a H,
}

/// Who handles a message at some point of the chain.
pub enum Step<'a, M, H> {
    /// This middleware, which may go on with the rest of the chain.
    Middleware(&'a M, Next<'a, M, H>),
    /// The final handler.
    Handler(&'a H),
}

impl<M, H> Pipeline<M, H> {
    /// The middlewares, in the order they see a message.
    pub closed spec fn spec_middlewares(&self) -> Seq<M> {
        self.middlewares@
    }

    /// The final handler.
    pub closed spec fn spec_handler(&self) -> H {
        self.handler
    }

    /// A pipeline with no middleware.
    pub fn new(handler: H) -> (p: Self)
        ensures
            p.spec_middlewares() == Seq::<M>::empty(),
            p.spec_handler() == handler,
    {
        Pipeline { middlewares: Vec::new(), handler }
    }

    /// The pipeline with `middleware` added at the end of the chain.
    pub fn with(self, middleware: M) -> (p: Self)
        ensures
            p.spec_middlewares() == self.spec_middlewares().push(middleware),
            p.spec_handler() == self.spec_handler(),
    {
        let mut s = self;
        s.middlewares.push(middleware);
        s
    }

    /// The whole chain, starting at the first middleware.
    pub fn start(&self) -> (n: Next<'_, M, H>)
        ensures
            n.wf(),
            n.spec_rest() == self.spec_middlewares(),
            n.spec_handler() == self.spec_handler(),
    {
        let n = Next { next: &self.middlewares, index: 0, handler: &self.handler };
        assert(n.spec_rest() =~= self.spec_middlewares());
        n
    }
}

impl<'a, M, H> Next<'a, M, H> {
    /// The middlewares still to run.
    pub closed spec fn spec_rest(&self) -> Seq<M> {
        self.next@.subrange(self.index as int, self.next@.len() as int)
    }

    /// The final handler.
    pub closed spec fn spec_handler(&self) -> H {
        *self.handler
    }

    /// Position within the whole chain is valid.
    pub closed spec fn wf(&self) -> bool {
        self.index <= self.next@.len()
    }

    /// Who handles the message now: the next middleware, given the rest of
    /// the chain after it, or the handler when no middleware is left.
    pub fn step(&self) -> (s: Step<'a, M, H>)
        requires
            self.wf(),
        ensures
            self.spec_rest().len() > 0 ==> (s matches Step::Middleware(m, rest)
                && *m == self.spec_rest()[0]
                && rest.wf()
                && rest.spec_rest() == self.spec_rest().drop_first()
                && rest.spec_handler() == self.spec_handler()),
            self.spec_rest().len() == 0 ==> (s matches Step::Handler(h) && *h == self.spec_handler()),
    {
        if self.index < self.next.len() {
            let rest = Next { next: self.next, index: self.index + 1, handler: self.handler };
            assert(rest.spec_rest() =~= self.spec_rest().drop_first());
            Step::Middleware(&self.next[self.index], rest)
        } else {
            Step::Handler(self.handler)
        }
    }
}

/// The middlewares still to run after `k` steps of a chain whose
/// middlewares are `ms`: each step hands the message to the first of the
/// rest and goes on with the rest after it (`Next::step`).
pub open spec fn rest_after<M>(ms: Seq<M>, k: nat) -> Seq<M>
    decreases k,
{
    if k == 0 { ms } else { rest_after(ms, (k - 1) as nat).drop_first() }
}

/// A run goes through the middlewares in the order they were added, each
/// once, and then the handler: the step after `k` steps reaches the
/// `k`-th middleware while `k` is below their number, and the handler
/// once every middleware has run.
pub proof fn lemma_run_order<M>(ms: Seq<M>, k: nat)
    requires
        k <= ms.len(),
    ensures
        rest_after(ms, k) == ms.skip(k as int),
        k < ms.len() ==> rest_after(ms, k).len() > 0 && rest_after(ms, k)[0] == ms[k as int],
        k == ms.len() ==> rest_after(ms, k).len() == 0,
    decreases k,
{
    if k > 0 {
        lemma_run_order(ms, (k - 1) as nat);
        assert(ms.skip(k - 1).drop_first() =~= ms.skip(k as int));
    } else {
        assert(ms.skip(0) =~= ms);
    }
}

} // verus!
