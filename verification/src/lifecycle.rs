//! Lifecycle hooks: run at startup in registration order, at shutdown in reverse order, and on
//! every bot connection in registration order.
use vstd::prelude::*;

verus! {

/// The hooks to run at startup, at shutdown and when a bot connects. `L` is a startup or
/// shutdown hook and `B` a bot connection hook; the driver does not call them itself.
pub struct LifecycleDriver<L, B> {
    startup_hooks: Vec<L>,
    shutdown_hooks: Vec<L>,
    bot_connect_hooks: Vec<B>,
}

/// The positions `n - 1` down to `0`: the order in which shutdown hooks run.
pub open spec fn reverse_positions(n: nat) -> Seq<usize> {
    Seq::new(n, |i: int| (n - 1 - i) as usize)
}

impl<L, B> LifecycleDriver<L, B> {
    pub closed spec fn spec_startup(&self) -> Seq<L> {
        self.startup_hooks@
    }

    pub closed spec fn spec_shutdown(&self) -> Seq<L> {
        self.shutdown_hooks@
    }

    pub closed spec fn spec_bot_connect(&self) -> Seq<B> {
        self.bot_connect_hooks@
    }

    pub fn new() -> (r: Self)
        ensures
            r.spec_startup().len() == 0,
            r.spec_shutdown().len() == 0,
            r.spec_bot_connect().len() == 0,
    {
        LifecycleDriver { startup_hooks: Vec::new(), shutdown_hooks: Vec::new(), bot_connect_hooks: Vec::new() }
    }

    /// Registers a hook to run at startup.
    pub fn on_startup(&mut self, hook: L)
        ensures
            final(self).spec_startup() == old(self).spec_startup().push(hook),
            final(self).spec_shutdown() == old(self).spec_shutdown(),
            final(self).spec_bot_connect() == old(self).spec_bot_connect(),
    {
        self.startup_hooks.push(hook);
    }

    /// Registers a hook to run at shutdown.
    pub fn on_shutdown(&mut self, hook: L)
        ensures
            final(self).spec_shutdown() == old(self).spec_shutdown().push(hook),
            final(self).spec_startup() == old(self).spec_startup(),
            final(self).spec_bot_connect() == old(self).spec_bot_connect(),
    {
        self.shutdown_hooks.push(hook);
    }

    /// Registers a hook to run when a bot connects.
    pub fn on_bot_connect(&mut self, hook: B)
        ensures
            final(self).spec_bot_connect() == old(self).spec_bot_connect().push(hook),
            final(self).spec_startup() == old(self).spec_startup(),
            final(self).spec_shutdown() == old(self).spec_shutdown(),
    {
        self.bot_connect_hooks.push(hook);
    }

    /// The startup hooks, in the order they run (registration order).
    pub fn startup_hooks(&self) -> (r: &Vec<L>)
        ensures
            r@ == self.spec_startup(),
    {
        &self.startup_hooks
    }

    /// The shutdown hooks, in registration order; they run in reverse (see `shutdown_order`).
    pub fn shutdown_hooks(&self) -> (r: &Vec<L>)
        ensures
            r@ == self.spec_shutdown(),
    {
        &self.shutdown_hooks
    }

    /// The bot connection hooks, in the order they run (registration order).
    pub fn bot_connect_hooks(&self) -> (r: &Vec<B>)
        ensures
            r@ == self.spec_bot_connect(),
    {
        &self.bot_connect_hooks
    }

    /// The positions of the shutdown hooks in the order they run: the last registered first.
    pub fn shutdown_order(&self) -> (r: Vec<usize>)
        ensures
            r@ == reverse_positions(self.spec_shutdown().len()),
    {
        let n = self.shutdown_hooks.len();
        let mut out: Vec<usize> = Vec::new();
        let mut i: usize = n;
        while i > 0
            invariant
                i <= n,
                n == self.spec_shutdown().len(),
                out@ == reverse_positions(n as nat).take((n - i) as int),
            decreases i,
        {
            i = i - 1;
            out.push(i);
            assert(out@ =~= reverse_positions(n as nat).take((n - i) as int));
        }
        assert(reverse_positions(n as nat).take(n as int) =~= reverse_positions(n as nat));
        out
    }

    pub fn startup_hook_count(&self) -> (r: usize)
        ensures
            r == self.spec_startup().len(),
    {
        self.startup_hooks.len()
    }

    pub fn shutdown_hook_count(&self) -> (r: usize)
        ensures
            r == self.spec_shutdown().len(),
    {
        self.shutdown_hooks.len()
    }

    pub fn bot_connect_hook_count(&self) -> (r: usize)
        ensures
            r == self.spec_bot_connect().len(),
    {
        self.bot_connect_hooks.len()
    }
}

/// Shutdown runs every hook exactly once, the last registered first.
pub proof fn law_shutdown_reverses_registration(n: nat)
    requires
        n <= usize::MAX,
    ensures
        reverse_positions(n).len() == n,
        forall|i: int| 0 <= i < n ==> reverse_positions(n)[i] == n - 1 - i,
        forall|p: int| 0 <= p < n ==> #[trigger] reverse_positions(n).contains(p as usize),
{
    assert forall|p: int| 0 <= p < n implies #[trigger] reverse_positions(n).contains(p as usize) by {
        assert(reverse_positions(n)[n - 1 - p] == p as usize);
    }
}

} // verus!
