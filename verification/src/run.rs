//! The memory preflight taken before a runtime command is launched.
use vstd::prelude::*;
use crate::binary64::Binary64;

verus! {

/// Where a free-memory reading came from.
#[derive(Debug, Clone, Copy, PartialEq, Eq)]
pub enum ProbeSource {
    NvidiaSmi,
    AppleUnified,
}

pub open spec fn source_label(s: ProbeSource) -> Seq<char> {
    match s {
        ProbeSource::NvidiaSmi => "nvidia-smi"@,
        ProbeSource::AppleUnified => "apple-unified"@,
    }
}

impl ProbeSource {
    pub fn label(self) -> (r: &'static str)
        ensures
            r@ == source_label(self),
    {
        match self {
            ProbeSource::NvidiaSmi => "nvidia-smi",
            ProbeSource::AppleUnified => "apple-unified",
        }
    }
}

/// A free-memory reading, and whether it covers the manifest minimum
/// (free memory plus half a gigabyte of slack reaches `min_vram_gb`).
#[derive(Debug, Clone, Copy, PartialEq, Eq)]
pub struct ProbeReading {
    pub free_gb: Binary64,
    pub source: ProbeSource,
    pub meets_minimum: bool,
}

/// How the preflight let the launch go on.
#[derive(Debug, Clone, Copy, PartialEq, Eq)]
pub enum Preflight {
    /// Enough free memory.
    Clear { free_gb: Binary64, source: ProbeSource },
    /// No probe could measure free memory.
    SkippedNoProbe,
    /// Too little free memory, overridden by `--force`.
    ForcedBelow { free_gb: Binary64, source: ProbeSource },
    /// Too little free memory, reported only because of `--dry-run`.
    WarnedBelow { free_gb: Binary64, source: ProbeSource },
}

/// Too little free memory, and neither `--force` nor `--dry-run`.
#[derive(Debug, Clone, Copy, PartialEq, Eq)]
pub struct PreflightFailure {
    pub free_gb: Binary64,
    pub source: ProbeSource,
}

pub open spec fn preflight_outcome(probe: Option<ProbeReading>, force: bool, dry_run: bool) -> Result<
    Preflight,
    PreflightFailure,
> {
    match probe {
        None => Ok(Preflight::SkippedNoProbe),
        Some(p) => if p.meets_minimum {
            Ok(Preflight::Clear { free_gb: p.free_gb, source: p.source })
        } else if force {
            Ok(Preflight::ForcedBelow { free_gb: p.free_gb, source: p.source })
        } else if dry_run {
            Ok(Preflight::WarnedBelow { free_gb: p.free_gb, source: p.source })
        } else {
            Err(PreflightFailure { free_gb: p.free_gb, source: p.source })
        },
    }
}

/// The preflight decision: a launch is blocked only when a probe measured
/// too little memory and neither `--force` nor `--dry-run` was given.
pub fn vram_preflight(probe: Option<ProbeReading>, force: bool, dry_run: bool) -> (r: Result<
    Preflight,
    PreflightFailure,
>)
    ensures
        r == preflight_outcome(probe, force, dry_run),
{
    match probe {
        None => Ok(Preflight::SkippedNoProbe),
        Some(p) => if p.meets_minimum {
            Ok(Preflight::Clear { free_gb: p.free_gb, source: p.source })
        } else if force {
            Ok(Preflight::ForcedBelow { free_gb: p.free_gb, source: p.source })
        } else if dry_run {
            Ok(Preflight::WarnedBelow { free_gb: p.free_gb, source: p.source })
        } else {
            Err(PreflightFailure { free_gb: p.free_gb, source: p.source })
        },
    }
}

/// A dry run is never blocked by the preflight.
pub proof fn law_dry_run_never_blocked(probe: Option<ProbeReading>, force: bool)
    ensures
        preflight_outcome(probe, force, true) is Ok,
{
}

/// The launch is blocked exactly when a probe measured too little free
/// memory and neither `--force` nor `--dry-run` was given; whatever the
/// decision, it reports the probe's reading and source.
pub proof fn law_preflight_blocks_only_short_unforced_runs(
    probe: Option<ProbeReading>,
    force: bool,
    dry_run: bool,
)
    ensures
        preflight_outcome(probe, force, dry_run) is Err <==> (probe matches Some(p)
            && !p.meets_minimum && !force && !dry_run),
        probe is None ==> preflight_outcome(probe, force, dry_run) == Ok::<
            Preflight,
            PreflightFailure,
        >(Preflight::SkippedNoProbe),
        probe matches Some(p) ==> match preflight_outcome(probe, force, dry_run) {
            Ok(Preflight::Clear { free_gb, source }) => p.meets_minimum && free_gb == p.free_gb
                && source == p.source,
            Ok(Preflight::ForcedBelow { free_gb, source }) => !p.meets_minimum && force && free_gb
                == p.free_gb && source == p.source,
            Ok(Preflight::WarnedBelow { free_gb, source }) => !p.meets_minimum && !force && dry_run
                && free_gb == p.free_gb && source == p.source,
            Ok(Preflight::SkippedNoProbe) => false,
            Err(f) => f.free_gb == p.free_gb && f.source == p.source,
        },
{
}

} // verus!
