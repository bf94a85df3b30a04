//! Device selection and the lazy model loader.
//!
//! The loader owns the one cached [`ModelHandle`] of the process.  It
//! starts unloaded; the first separation request performs the load and
//! installs the handle, and every later request reuses it.  A failed
//! load installs nothing — the loader is not poisoned, and the next
//! request simply retries.  Callers hold one exclusive lock around
//! every load-or-inference step, so requests are served one at a
//! time; under that serialization, [`lemma_single_load`] is the
//! concurrency law: any run of successful requests against an
//! unloaded loader performs exactly one load and one inference per
//! request.
//!
//! The actual weight loading and inference are outside capabilities;
//! this module holds the decisions: which device to use, whether a
//! request must load, and what the cache holds afterward.

use vstd::prelude::*;

use crate::fixed::MAX_RATE;

verus! {

/// The compute devices, in selection priority order.
#[derive(Clone, Copy, Debug, PartialEq, Eq, Structural)]
pub enum DeviceKind {
    /// The preferred vendor accelerator.
    PrimaryAccelerator,
    /// The second-choice vendor accelerator.
    SecondaryAccelerator,
    /// The general-purpose processor, always available.
    Cpu,
}

/// Pick the compute device: the primary accelerator when present,
/// else the secondary, else the CPU.
pub fn get_available_device(primary_present: bool, secondary_present: bool) -> (d: DeviceKind)
    ensures
        d == (if primary_present {
            DeviceKind::PrimaryAccelerator
        } else if secondary_present {
            DeviceKind::SecondaryAccelerator
        } else {
            DeviceKind::Cpu
        }),
{
    if primary_present {
        DeviceKind::PrimaryAccelerator
    } else if secondary_present {
        DeviceKind::SecondaryAccelerator
    } else {
        DeviceKind::Cpu
    }
}

/// Shape of a separation model: the rate and channel count it was
/// trained on, and the ordered names of the sources it produces.
pub struct SeparationConfig {
    /// Sample rate the model expects, in Hz.
    pub sample_rate: usize,
    /// Channel count the model expects.
    pub channels: usize,
    /// Ordered source names; the model emits one buffer per entry.
    pub sources: Vec<String>,
}

impl SeparationConfig {
    /// A usable configuration: sane rate, at least one channel and
    /// one source.
    pub open spec fn wf(self) -> bool {
        &&& 1 <= self.sample_rate <= MAX_RATE
        &&& self.channels >= 1
        &&& self.sources@.len() >= 1
    }
}

/// Check a model descriptor at configuration time.
///
/// Fails with a configuration error exactly when the descriptor is
/// unusable: a sample rate of zero or beyond the supported range, no
/// channels, or no sources.
pub fn validate_config(config: &SeparationConfig) -> (r: Result<(), crate::split::StemError>)
    ensures
        r is Ok <==> config.wf(),
        r is Err ==> r == Err::<(), crate::split::StemError>(crate::split::StemError::Config),
{
    if config.sample_rate < 1 || config.sample_rate > MAX_RATE || config.channels < 1
        || config.sources.len() < 1 {
        Err(crate::split::StemError::Config)
    } else {
        Ok(())
    }
}

/// A loaded model: its configuration, the device it lives on, and the
/// path its weights came from.  Immutable once constructed.
pub struct ModelHandle {
    /// The model's separation configuration.
    pub config: SeparationConfig,
    /// The device the weights were loaded onto.
    pub device: DeviceKind,
    /// The path of the weights file, kept for diagnostics and reload.
    pub weights_path: String,
}

/// The lazy loader: at most one cached model handle.
pub struct LazyModelLoader {
    /// The cached handle; `None` until the first successful load.
    pub cached: Option<ModelHandle>,
}

impl LazyModelLoader {
    /// A fresh loader holds nothing; the model is loaded on demand.
    pub fn new() -> (loader: Self)
        ensures
            loader.cached is None,
    {
        LazyModelLoader { cached: None }
    }

    /// Whether a request arriving now must perform the load.
    pub fn needs_load(&self) -> (b: bool)
        ensures
            b == (self.cached is None),
    {
        self.cached.is_none()
    }

    /// Install the handle a successful load produced; every later
    /// request reuses it.
    pub fn install(&mut self, handle: ModelHandle)
        ensures
            final (self).cached == Some(handle),
    {
        self.cached = Some(handle);
    }

    /// Borrow the cached handle.
    pub fn cached_handle(&self) -> (h: Option<&ModelHandle>)
        ensures
            match h {
                Some(m) => self.cached == Some(*m),
                None => self.cached is None,
            },
    {
        self.cached.as_ref()
    }

    /// Drop the cached handle, forcing the next request to reload.
    pub fn invalidate(&mut self)
        ensures
            final (self).cached is None,
    {
        self.cached = None;
    }
}

/// Counts of one serialized run of requests: how many loads happened
/// and how many inferences ran.
pub struct RunCounts {
    /// The loader state after the run.
    pub state: Option<ModelHandle>,
    /// Number of load events.
    pub loads: nat,
    /// Number of inference invocations.
    pub inferences: nat,
}

/// The result of serving `n` separation requests one after the other,
/// starting from `state`, where every needed load succeeds and
/// produces `handle`.  Each request loads exactly when nothing is
/// cached — the decision [`LazyModelLoader::needs_load`] makes — then
/// runs one inference with the cached handle, as the lock-holding
/// caller does.
pub open spec fn run_requests(state: Option<ModelHandle>, handle: ModelHandle, n: nat) -> RunCounts
    decreases n,
{
    if n == 0 {
        RunCounts { state, loads: 0, inferences: 0 }
    } else {
        let first_state = if state is None {
            Some(handle)
        } else {
            state
        };
        let first_loads: nat = if state is None {
            1
        } else {
            0
        };
        let rest = run_requests(first_state, handle, (n - 1) as nat);
        RunCounts { state: rest.state, loads: first_loads + rest.loads, inferences: 1 + rest.inferences }
    }
}

/// Concurrency law of the loader: `n` requests serialized against an
/// unloaded loader, with the load succeeding, produce exactly one
/// load event and `n` inference invocations, and leave the handle
/// cached; against a loaded one they produce no load at all.
pub proof fn lemma_single_load(handle: ModelHandle, n: nat)
    ensures
        n >= 1 ==> run_requests(None, handle, n) == (RunCounts {
            state: Some(handle),
            loads: 1,
            inferences: n,
        }),
        run_requests(Some(handle), handle, n) == (RunCounts {
            state: Some(handle),
            loads: 0,
            inferences: n,
        }),
    decreases n,
{
    if n >= 1 {
        lemma_single_load(handle, (n - 1) as nat);
    }
}

} // verus!
