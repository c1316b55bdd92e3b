use vstd::prelude::*;

verus! {

/// Which thread, if any, has the context current.
#[derive(Debug, Clone, Copy, PartialEq, Eq, Structural)]
pub enum Binding {
    Uncurrent,
    CurrentTo(u64),
}

/// The state of a handed-off context: its owning thread and its binding.
pub struct Currency {
    pub owner: u64,
    pub binding: Binding,
}

/// Proof that a thread holds the context; only `SafeContext::lock` makes one.
#[derive(Debug)]
pub struct ContextWrap {
    thread: u64,
}

impl ContextWrap {
    pub closed spec fn holder(&self) -> u64 {
        self.thread
    }

    pub fn thread(&self) -> (r: u64)
        ensures
            r == self.holder(),
    {
        self.thread
    }
}

/// A context released by its owner so that other threads can take it in turn.
#[derive(Debug)]
pub struct SafeContext {
    owner: u64,
    binding: Binding,
}

impl View for SafeContext {
    type V = Currency;

    closed spec fn view(&self) -> Currency {
        Currency { owner: self.owner, binding: self.binding }
    }
}

/// `lock` by `thread`: the new state and whether a guard was handed out.
pub open spec fn lock_step(c: Currency, thread: u64) -> (Currency, bool) {
    if c.binding is Uncurrent {
        (Currency { binding: Binding::CurrentTo(thread), ..c }, true)
    } else {
        (c, false)
    }
}

/// `release` of the guard held by `thread`.
pub open spec fn release_step(c: Currency, thread: u64) -> (Currency, bool) {
    if c.binding == Binding::CurrentTo(thread) {
        (Currency { binding: Binding::Uncurrent, ..c }, true)
    } else {
        (c, false)
    }
}

impl SafeContext {
    /// Takes over a context that `owner` has just released.
    pub fn new(owner: u64) -> (r: SafeContext)
        ensures
            r@ == (Currency { owner, binding: Binding::Uncurrent }),
    {
        SafeContext { owner, binding: Binding::Uncurrent }
    }

    /// Makes the context current to `thread`; there is no guard while another
    /// one is live.
    pub fn lock(&mut self, thread: u64) -> (r: Option<ContextWrap>)
        ensures
            (final(self)@, r is Some) == lock_step(old(self)@, thread),
            r matches Some(g) ==> g.holder() == thread,
    {
        match self.binding {
            Binding::Uncurrent => {
                self.binding = Binding::CurrentTo(thread);
                Some(ContextWrap { thread })
            },
            Binding::CurrentTo(_) => None,
        }
    }

    /// Drops a guard: the context is current to no thread again.
    pub fn release(&mut self, guard: ContextWrap) -> (r: bool)
        ensures
            (final(self)@, r) == release_step(old(self)@, guard.holder()),
    {
        if self.binding == Binding::CurrentTo(guard.thread) {
            self.binding = Binding::Uncurrent;
            true
        } else {
            false
        }
    }

    /// Hands the context back to its owner, once no guard is live.
    pub fn hand_back(&mut self) -> (r: bool)
        ensures
            r == (old(self)@.binding is Uncurrent),
            final(self)@ == (if r {
                Currency { binding: Binding::CurrentTo(old(self)@.owner), ..old(self)@ }
            } else {
                old(self)@
            }),
    {
        match self.binding {
            Binding::Uncurrent => {
                self.binding = Binding::CurrentTo(self.owner);
                true
            },
            Binding::CurrentTo(_) => false,
        }
    }

    pub fn binding(&self) -> (r: Binding)
        ensures
            r == self@.binding,
    {
        self.binding
    }
}

/// A call on a `SafeContext` by some thread.
pub enum CurrencyOp {
    Lock(u64),
    Release(u64),
}

/// `s` with every occurrence of `t` taken out.
pub open spec fn without(s: Seq<u64>, t: u64) -> Seq<u64>
    decreases s.len(),
{
    if s.len() == 0 {
        s
    } else if s.last() == t {
        without(s.drop_last(), t)
    } else {
        without(s.drop_last(), t).push(s.last())
    }
}

/// The state and the holders of live guards after `ops`, from `start`.
pub open spec fn run(start: Currency, ops: Seq<CurrencyOp>) -> (Currency, Seq<u64>)
    decreases ops.len(),
{
    if ops.len() == 0 {
        (start, seq![])
    } else {
        let (c, live) = run(start, ops.drop_last());
        match ops.last() {
            CurrencyOp::Lock(t) => {
                let (c2, ok) = lock_step(c, t);
                (c2, if ok { live.push(t) } else { live })
            },
            CurrencyOp::Release(t) => {
                let (c2, ok) = release_step(c, t);
                (c2, if ok { without(live, t) } else { live })
            },
        }
    }
}

/// Whatever threads lock and release in whatever order, at most one guard is
/// live, and the context is current exactly to its holder.
pub proof fn lemma_one_guard(owner: u64, ops: Seq<CurrencyOp>)
    ensures
        run(Currency { owner, binding: Binding::Uncurrent }, ops).1.len() <= 1,
        run(Currency { owner, binding: Binding::Uncurrent }, ops).1.len() == 0 <==> run(
            Currency { owner, binding: Binding::Uncurrent },
            ops,
        ).0.binding is Uncurrent,
        run(Currency { owner, binding: Binding::Uncurrent }, ops).1.len() == 1 ==> run(
            Currency { owner, binding: Binding::Uncurrent },
            ops,
        ).0.binding == Binding::CurrentTo(
            run(Currency { owner, binding: Binding::Uncurrent }, ops).1[0],
        ),
    decreases ops.len(),
{
    if ops.len() > 0 {
        lemma_one_guard(owner, ops.drop_last());
        let (c, live) = run(Currency { owner, binding: Binding::Uncurrent }, ops.drop_last());
        match ops.last() {
            CurrencyOp::Lock(t) => {
                if c.binding is Uncurrent {
                    assert(live.push(t) =~= seq![t]);
                }
            },
            CurrencyOp::Release(t) => {
                if c.binding == Binding::CurrentTo(t) {
                    assert(live =~= seq![t]);
                    assert(live.drop_last() =~= Seq::<u64>::empty());
                    assert(without(Seq::<u64>::empty(), t) == Seq::<u64>::empty());
                    assert(without(live, t) == without(live.drop_last(), t));
                }
            },
        }
    }
}

} // verus!
