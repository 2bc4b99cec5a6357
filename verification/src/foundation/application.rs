//! The application and the lifecycle of its service providers: every
//! provider registers, in order, before any boots, in order; on shutdown
//! they shut down in the reverse order.

use vstd::prelude::*;

verus! {

/// A lifecycle hook of a service provider.
#[derive(Debug, Clone, Copy, PartialEq, Eq)]
pub enum Phase {
    Register,
    Boot,
    Shutdown,
}

/// The hooks that booting runs for `n` providers: `Register` for each in
/// order, then `Boot` for each in order.
pub open spec fn boot_steps(n: nat) -> Seq<(Phase, usize)> {
    Seq::new(2 * n, |i: int| if i < n { (Phase::Register, i as usize) } else { (Phase::Boot, (i - n) as usize) })
}

/// The hooks that shutting down runs for `n` providers: `Shutdown` for each
/// in reverse order.
pub open spec fn shutdown_steps(n: nat) -> Seq<(Phase, usize)> {
    Seq::new(n, |i: int| (Phase::Shutdown, (n - 1 - i) as usize))
}

/// The application: where it lives on disk and its service providers.
pub struct Application<P> {
    pub providers: Vec<P>,
    pub base_path: String,
}

impl<P> Application<P> {
    /// The application's root directory.
    pub closed spec fn root(&self) -> Seq<char> {
        self.base_path@
    }

    /// An application rooted at `base_path`, with no providers.
    pub fn new(base_path: &str) -> (r: Self)
        ensures
            r.root() == base_path@,
            r.providers@.len() == 0,
    {
        Application { providers: Vec::new(), base_path: base_path.to_string() }
    }

    /// Replaces the providers.
    pub fn set_providers(&mut self, providers: Vec<P>)
        ensures
            final(self).providers@ == providers@,
            final(self).root() == old(self).root(),
    {
        self.providers = providers;
    }

    /// Adds a provider after the others.
    pub fn register_provider(&mut self, provider: P)
        ensures
            final(self).providers@ == old(self).providers@.push(provider),
            final(self).root() == old(self).root(),
    {
        self.providers.push(provider);
    }

    /// The hooks to run to boot, in order: every provider's `register`,
    /// then every provider's `boot`.
    pub fn boot_plan(&self) -> (r: Vec<(Phase, usize)>)
        requires
            2 * self.providers@.len() <= usize::MAX,
        ensures
            r@ == boot_steps(self.providers@.len()),
    {
        let n = self.providers.len();
        let mut plan: Vec<(Phase, usize)> = Vec::new();
        let mut i: usize = 0;
        while i < 2 * n
            invariant
                n == self.providers@.len(),
                2 * n <= usize::MAX,
                i <= 2 * n,
                plan@ == boot_steps(n as nat).take(i as int),
            decreases 2 * n - i,
        {
            let step = if i < n {
                (Phase::Register, i)
            } else {
                (Phase::Boot, i - n)
            };
            plan.push(step);
            assert(plan@ =~= boot_steps(n as nat).take(i + 1));
            i += 1;
        }
        assert(plan@ =~= boot_steps(n as nat));
        plan
    }

    /// The hooks to run to shut down: every provider's `shutdown`, last
    /// provider first.
    pub fn shutdown_plan(&self) -> (r: Vec<(Phase, usize)>)
        ensures
            r@ == shutdown_steps(self.providers@.len()),
    {
        let n = self.providers.len();
        let mut plan: Vec<(Phase, usize)> = Vec::new();
        let mut i: usize = 0;
        while i < n
            invariant
                n == self.providers@.len(),
                i <= n,
                plan@ == shutdown_steps(n as nat).take(i as int),
            decreases n - i,
        {
            plan.push((Phase::Shutdown, n - 1 - i));
            assert(plan@ =~= shutdown_steps(n as nat).take(i + 1));
            i += 1;
        }
        assert(plan@ =~= shutdown_steps(n as nat));
        plan
    }

    /// The application's root directory.
    pub fn base_path(&self) -> (r: &str)
        ensures
            r@ == self.root(),
    {
        self.base_path.as_str()
    }

    /// The path of the configuration file: `config/config.yaml` under the
    /// root.
    pub fn config_path(&self) -> (r: String)
        ensures
            r@ == self.root() + "/config/config.yaml"@,
    {
        let mut p = self.base_path.clone();
        p.append("/config/config.yaml");
        p
    }
}

/// Booting runs every provider's `register` before any provider's `boot`,
/// each phase in the providers' order, and shutting down visits the
/// providers in the reverse order.
pub proof fn law_lifecycle_order(n: nat, i: nat, j: nat)
    requires
        i < n,
        j < n,
    ensures
        boot_steps(n)[i as int] == (Phase::Register, i as usize),
        boot_steps(n)[(n + j) as int] == (Phase::Boot, j as usize),
        shutdown_steps(n)[i as int] == (Phase::Shutdown, (n - 1 - i) as usize),
{
}

} // verus!
