//! Benchmark settings, as the command line gives them.
use crate::binary64::Float64;
use crate::text::same_text;
use vstd::prelude::*;

verus! {

/// Which benchmark runs.
#[derive(Clone, Copy, Debug, PartialEq, Eq, Structural)]
pub enum Suite {
    Crud,
    SteadyState,
}

/// The scale of a steady-state run.
#[derive(Clone, Copy, Debug, PartialEq, Eq, Structural)]
pub enum SteadyStatePreset {
    Smoke,
    Default,
    Large,
}

/// The command line of the benchmark.
pub struct Args {
    pub privileged: bool,
    pub image: Option<String>,
    pub endpoint: Option<String>,
    pub clients: u32,
    pub threads: u32,
    pub samples: u32,
    pub sync: bool,
    pub pid: Option<u32>,
    pub persisted: bool,
    pub optimised: bool,
    pub skip_deletes: bool,
    pub skip_writes: bool,
    /// Seconds that one operation may take.
    pub operation_timeout: u64,
    pub emit_phase_markers: bool,
    pub suite: Suite,
    pub bench: Option<String>,
    pub preset: SteadyStatePreset,
    pub warmup_secs: Option<u64>,
    pub measurement_secs: Option<u64>,
    pub latency_sample_every: Option<u64>,
    pub seed: u64,
    pub zipfian_exponent: Float64,
    pub operation_mix: Option<String>,
    pub operation_mix_period: u32,
}

/// Shared benchmark settings.
pub struct Benchmark {
    /// Whether to run containers in privileged mode.
    pub privileged: bool,
    /// The container image to use.
    pub image: Option<String>,
    /// Whether to skip the delete phase.
    pub skip_deletes: bool,
    /// Whether to skip every phase that writes.
    pub skip_writes: bool,
    /// The server endpoint to connect to.
    pub endpoint: Option<String>,
    /// The number of clients.
    pub clients: u32,
    /// The number of threads per client.
    pub threads: u32,
    /// The number of samples per phase.
    pub samples: u32,
    /// The process to monitor.
    pub pid: Option<u32>,
    /// Whether to ensure data is synced.
    pub sync: bool,
    /// Whether to enable disk persistence.
    pub persisted: bool,
    /// Whether to enable optimised configurations.
    pub optimised: bool,
    /// Seconds that one operation may take.
    pub operation_timeout: u64,
    /// Whether to print the marker lines that profiling scripts look for.
    pub emit_phase_markers: bool,
    pub suite: Suite,
    pub steady_state_benches: Option<String>,
    pub steady_state_preset: SteadyStatePreset,
    pub warmup_secs: Option<u64>,
    pub measurement_secs: Option<u64>,
    pub latency_sample_every: Option<u64>,
    pub seed: u64,
    pub zipfian_exponent: Float64,
    pub operation_mix: Option<String>,
    pub operation_mix_period: u32,
}

/// Whether the value of an environment switch turns it on.
pub open spec fn switched_on(value: Seq<char>) -> bool {
    value == "1"@ || value == "true"@ || value == "yes"@ || value == "on"@
}

impl Benchmark {
    /// The settings for the given command line; `marker_switch` is the value of the environment
    /// variable that asks for phase markers, where it is set.
    pub fn new(args: &Args, marker_switch: Option<&str>) -> (r: Self)
        ensures
            r.emit_phase_markers == (args.emit_phase_markers || (marker_switch matches Some(v)
                && switched_on(v@))),
            r.privileged == args.privileged,
            r.image == args.image,
            r.endpoint == args.endpoint,
            r.clients == args.clients,
            r.threads == args.threads,
            r.samples == args.samples,
            r.sync == args.sync,
            r.pid == args.pid,
            r.persisted == args.persisted,
            r.optimised == args.optimised,
            r.skip_deletes == args.skip_deletes,
            r.skip_writes == args.skip_writes,
            r.operation_timeout == args.operation_timeout,
            r.suite == args.suite,
            r.steady_state_benches == args.bench,
            r.steady_state_preset == args.preset,
            r.warmup_secs == args.warmup_secs,
            r.measurement_secs == args.measurement_secs,
            r.latency_sample_every == args.latency_sample_every,
            r.seed == args.seed,
            r.zipfian_exponent == args.zipfian_exponent,
            r.operation_mix == args.operation_mix,
            r.operation_mix_period == args.operation_mix_period,
    {
        let switched: bool = match marker_switch {
            Some(v) => same_text(v, "1") || same_text(v, "true") || same_text(v, "yes")
                || same_text(v, "on"),
            None => false,
        };
        Benchmark {
            privileged: args.privileged,
            image: args.image.clone(),
            skip_deletes: args.skip_deletes,
            skip_writes: args.skip_writes,
            endpoint: args.endpoint.clone(),
            clients: args.clients,
            threads: args.threads,
            samples: args.samples,
            pid: args.pid,
            sync: args.sync,
            persisted: args.persisted,
            optimised: args.optimised,
            operation_timeout: args.operation_timeout,
            emit_phase_markers: args.emit_phase_markers || switched,
            suite: args.suite,
            steady_state_benches: args.bench.clone(),
            steady_state_preset: args.preset,
            warmup_secs: args.warmup_secs,
            measurement_secs: args.measurement_secs,
            latency_sample_every: args.latency_sample_every,
            seed: args.seed,
            zipfian_exponent: args.zipfian_exponent,
            operation_mix: args.operation_mix.clone(),
            operation_mix_period: args.operation_mix_period,
        }
    }
}

} // verus!
