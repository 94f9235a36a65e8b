//! Plugin identities: a monotonic counter and the identifier it mints.
use vstd::prelude::*;

verus! {

/// Monotonically increasing identifier source.
#[derive(Clone, Debug, Default)]
pub struct Counter(usize);

impl Counter {
    /// How many identifiers have been handed out so far.
    pub closed spec fn count(self) -> usize {
        self.0
    }

    /// A counter that has handed out nothing yet.
    pub fn new() -> (r: Counter)
        ensures
            r.count() == 0,
    {
        Counter(0)
    }

    /// Hands out the next identifier: one larger than everything
    /// handed out before, so identifiers are distinct and strictly
    /// increasing over the counter's lifetime.
    pub fn next(&mut self) -> (r: usize)
        requires
            old(self).count() < usize::MAX,
        ensures
            r == old(self).count() + 1,
            final(self).count() == r,
    {
        let n = self.0;
        self.0 = n + 1;
        n + 1
    }
}

/// Process-wide-unique identity of a started plugin, minted by the
/// catalog when the plugin starts, never at discovery time.
#[derive(Eq, PartialEq, Hash, Clone, Debug, Structural)]
pub struct PluginId(pub usize);

} // verus!
