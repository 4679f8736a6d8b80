//! The profile resolution engine: an ordered chain of backend adapters is
//! tried until one yields a usable answer, subject to the configured
//! preference order and fallback policy.

use vstd::prelude::*;
use crate::model::{Platform, ProfileConfig, ProfileError};

verus! {

/// One kind of backend adapter that a platform may offer.
#[derive(Debug, Clone, Copy, PartialEq, Eq, Structural)]
pub enum AdapterKind {
    /// The message-bus colour-management service.
    MessageBus,
    /// The command-line colour-management tool.
    CommandTool,
    /// The platform's native graphics interface.
    NativeApi,
    /// The registry of profile associations.
    Registry,
    /// A scan of the profile directories on disk.
    FilesystemScan,
    /// Built-in constant profiles, the terminal fallback.
    BuiltIn,
}

/// The adapter order for a platform: the preferred channel first when the
/// configuration selects it and it is reachable, then the baseline, then
/// the platform's remaining fallbacks.
pub open spec fn chain_spec(platform: Platform, config: ProfileConfig, bus_reachable: bool) -> Seq<
    AdapterKind,
> {
    match platform {
        Platform::Linux => if config.linux_prefer_dbus && bus_reachable {
            seq![
                AdapterKind::MessageBus,
                AdapterKind::CommandTool,
                AdapterKind::FilesystemScan,
            ]
        } else {
            seq![AdapterKind::CommandTool, AdapterKind::FilesystemScan]
        },
        Platform::MacOS => seq![AdapterKind::NativeApi, AdapterKind::BuiltIn],
        Platform::Windows => seq![
            AdapterKind::NativeApi,
            AdapterKind::Registry,
            AdapterKind::FilesystemScan,
            AdapterKind::BuiltIn,
        ],
    }
}

/// Builds the adapter order for `platform` under `config`;
/// `bus_reachable` says whether the message-bus service answers at all.
pub fn adapter_chain(platform: Platform, config: &ProfileConfig, bus_reachable: bool) -> (r: Vec<
    AdapterKind,
>)
    ensures
        r@ == chain_spec(platform, *config, bus_reachable),
{
    let mut r: Vec<AdapterKind> = Vec::new();
    match platform {
        Platform::Linux => {
            if config.linux_prefer_dbus && bus_reachable {
                r.push(AdapterKind::MessageBus);
            }
            r.push(AdapterKind::CommandTool);
            r.push(AdapterKind::FilesystemScan);
        },
        Platform::MacOS => {
            r.push(AdapterKind::NativeApi);
            r.push(AdapterKind::BuiltIn);
        },
        Platform::Windows => {
            r.push(AdapterKind::NativeApi);
            r.push(AdapterKind::Registry);
            r.push(AdapterKind::FilesystemScan);
            r.push(AdapterKind::BuiltIn);
        },
    }
    proof {
        assert(r@ =~= chain_spec(platform, *config, bus_reachable));
    }
    r
}

/// Where a resolution stands: untried, trying the adapter at an index of
/// the chain, finished with an answer, or out of adapters.
#[derive(Debug, Clone, Copy, PartialEq, Eq, Structural)]
pub enum EngineState {
    NotTried,
    Trying(usize),
    Succeeded,
    Exhausted,
}

impl EngineState {
    /// The chain index under trial; meaningful in the `Trying` state.
    pub open spec fn trying_index(self) -> int {
        match self {
            EngineState::Trying(i) => i as int,
            _ => -1,
        }
    }
}

/// The resolution state machine for one operation. The caller performs
/// each adapter attempt and reports its outcome; the engine decides which
/// adapter comes next under the fallback policy.
#[derive(Debug, Clone)]
pub struct ResolutionEngine {
    /// The ordered adapters for this operation.
    pub chain: Vec<AdapterKind>,
    /// Whether a failed attempt may move on to the next adapter.
    pub fallback_enabled: bool,
    /// The current state.
    pub state: EngineState,
}

impl ResolutionEngine {
    /// A fresh engine over `chain`, not yet tried.
    pub fn new(chain: Vec<AdapterKind>, fallback_enabled: bool) -> (r: Self)
        ensures
            r.chain@ == chain@,
            r.fallback_enabled == fallback_enabled,
            r.state == EngineState::NotTried,
    {
        ResolutionEngine { chain, fallback_enabled, state: EngineState::NotTried }
    }

    /// Starts the resolution: the first adapter of the chain is up, or the
    /// engine is exhausted at once when the chain is empty.
    pub fn begin(&mut self) -> (r: Option<AdapterKind>)
        requires
            old(self).state == EngineState::NotTried,
        ensures
            final(self).chain@ == old(self).chain@,
            final(self).fallback_enabled == old(self).fallback_enabled,
            old(self).chain@.len() == 0 ==> final(self).state == EngineState::Exhausted && r
                is None,
            old(self).chain@.len() > 0 ==> final(self).state == EngineState::Trying(0) && r
                == Some(old(self).chain@[0]),
    {
        if self.chain.len() == 0 {
            self.state = EngineState::Exhausted;
            None
        } else {
            self.state = EngineState::Trying(0);
            Some(self.chain[0])
        }
    }

    /// Notes that the adapter under trial answered: the resolution is done.
    pub fn succeed(&mut self)
        requires
            old(self).state is Trying,
        ensures
            final(self).chain@ == old(self).chain@,
            final(self).fallback_enabled == old(self).fallback_enabled,
            final(self).state == EngineState::Succeeded,
    {
        self.state = EngineState::Succeeded;
    }

    /// Notes that the adapter under trial failed. With fallback off the
    /// engine is exhausted at once, and the caller surfaces that adapter's
    /// own error; with fallback on the next adapter of the chain is up,
    /// until none remain.
    pub fn fail(&mut self) -> (r: Option<AdapterKind>)
        requires
            old(self).state is Trying,
            0 <= old(self).state.trying_index() < old(self).chain@.len(),
        ensures
            final(self).chain@ == old(self).chain@,
            final(self).fallback_enabled == old(self).fallback_enabled,
            !old(self).fallback_enabled ==> final(self).state == EngineState::Exhausted && r
                is None,
            old(self).fallback_enabled && old(self).state.trying_index() + 1 < old(
                self,
            ).chain@.len() ==> final(self).state == EngineState::Trying(
                (old(self).state.trying_index() + 1) as usize,
            ) && r == Some(old(self).chain@[old(self).state.trying_index() + 1]),
            old(self).fallback_enabled && old(self).state.trying_index() + 1 == old(
                self,
            ).chain@.len() ==> final(self).state == EngineState::Exhausted && r is None,
    {
        let i: usize = match self.state {
            EngineState::Trying(i) => i,
            _ => 0,
        };
        let clen: usize = self.chain.len();
        if !self.fallback_enabled {
            self.state = EngineState::Exhausted;
            None
        } else if i + 1 < clen {
            self.state = EngineState::Trying(i + 1);
            Some(self.chain[i + 1])
        } else {
            self.state = EngineState::Exhausted;
            None
        }
    }
}

/// Index of the first successful outcome, or the length when every
/// attempt failed.
pub open spec fn first_success_index<T>(s: Seq<Result<T, ProfileError>>) -> int
    decreases s.len(),
{
    if s.len() == 0 {
        0
    } else if s[0] is Ok {
        0
    } else {
        1 + first_success_index(s.skip(1))
    }
}

proof fn lemma_first_success_at<T>(s: Seq<Result<T, ProfileError>>, i: int)
    requires
        0 <= i <= s.len(),
        forall|j: int| 0 <= j < i ==> !((#[trigger] s[j]) is Ok),
        i < s.len() ==> s[i] is Ok,
    ensures
        first_success_index(s) == i,
    decreases i,
{
    if i == 0 {
    } else {
        let t = s.skip(1);
        assert(forall|j: int| 0 <= j < i - 1 ==> t[j] == s[j + 1]);
        assert(i - 1 < t.len() ==> t[i - 1] == s[i]);
        lemma_first_success_at(t, i - 1);
    }
}

/// Resolves one operation over the recorded outcomes of its adapter
/// chain, in order. With fallback off, only the first outcome counts and
/// its own error is surfaced. With fallback on, the first success wins;
/// when every adapter failed, the last adapter's error — the terminal
/// fallback's — is what the caller observes. The second component counts
/// the adapters that were consulted.
pub fn resolve_attempts<T>(
    replies: Vec<Result<T, ProfileError>>,
    fallback_enabled: bool,
    empty_error: ProfileError,
) -> (r: (Result<T, ProfileError>, usize))
    ensures
        replies@.len() == 0 ==> r.0 == Err::<T, ProfileError>(empty_error) && r.1 == 0,
        !fallback_enabled && replies@.len() > 0 ==> r.0 == replies@[0] && r.1 == 1,
        fallback_enabled && first_success_index(replies@) < replies@.len() ==> r.0 == replies@[
            first_success_index(replies@)
        ] && r.1 == first_success_index(replies@) + 1,
        fallback_enabled && replies@.len() > 0 && first_success_index(replies@) == replies@.len()
            ==> r.0 == replies@[replies@.len() - 1] && r.1 == replies@.len(),
{
    let ghost orig = replies@;
    let n: usize = replies.len();
    if n == 0 {
        return (Err(empty_error), 0);
    }
    let mut rest = replies;
    if !fallback_enabled {
        let first = rest.remove(0);
        return (first, 1);
    }
    let mut i: usize = 0;
    loop
        invariant
            fallback_enabled,
            orig == replies@,
            i < n,
            n == orig.len(),
            rest@ == orig.skip(i as int),
            forall|j: int| 0 <= j < i ==> !((#[trigger] orig[j]) is Ok),
        decreases n - i,
    {
        let head = rest.remove(0);
        proof {
            assert(orig.skip(i as int)[0] == orig[i as int]);
            assert(orig.skip(i as int).remove(0) =~= orig.skip(i + 1));
        }
        if head.is_ok() {
            proof {
                lemma_first_success_at(orig, i as int);
            }
            return (head, i + 1);
        }
        if i + 1 == n {
            proof {
                lemma_first_success_at(orig, n as int);
            }
            return (head, n);
        }
        i = i + 1;
    }
}

} // verus!
