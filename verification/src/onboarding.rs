//! First launch and device capabilities.

use vstd::prelude::*;
use vstd::string::*;
use crate::text::{cat2, cat3, decimal, decimal_u64};

verus! {

/// The file that marks onboarding as completed.
pub fn onboarded_sentinel() -> (r: &'static str)
    ensures
        r@ == ".onboarded"@,
{
    ".onboarded"
}

/// Which of the files that tell a returning user exist.
#[derive(Clone, Copy, Debug, PartialEq, Eq)]
pub struct InstallTraces {
    /// The onboarding sentinel.
    pub sentinel: bool,
    /// `models.toml`, whatever it holds.
    pub models: bool,
    /// `config.toml`, whatever it holds.
    pub config: bool,
}

/// A fresh install has left none of its files. Every other state, a broken
/// one included, is that of a returning user.
pub open spec fn is_fresh(traces: InstallTraces) -> bool {
    !traces.sentinel && !traces.models && !traces.config
}

/// Do the traces tell a fresh install?
pub fn is_first_launch_in(traces: InstallTraces) -> (r: bool)
    ensures
        r == is_fresh(traces),
{
    !traces.sentinel && !traces.models && !traces.config
}

/// Whether to show the onboarding; not where the directory is unknown.
pub fn is_first_launch(traces: Option<InstallTraces>) -> (r: bool)
    ensures
        r == match traces {
            Some(t) => is_fresh(t),
            None => false,
        },
{
    match traces {
        Some(t) => is_first_launch_in(t),
        None => false,
    }
}

/// Marks onboarding as completed. The result says whether the sentinel has to
/// be written; no other file is touched.
pub fn complete_onboarding(traces: &mut InstallTraces) -> (write: bool)
    ensures
        write == !old(traces).sentinel,
        *final(traces) == (InstallTraces { sentinel: true, ..*old(traces) }),
{
    let write = !traces.sentinel;
    traces.sentinel = true;
    write
}

/// Once onboarding is completed it is never shown again, whatever becomes of
/// the other files.
pub proof fn completed_onboarding_stays_completed(
    after: InstallTraces,
    models: bool,
    config: bool,
)
    requires
        after.sentinel,
    ensures
        !is_fresh(InstallTraces { models, config, ..after }),
{
}

/// What a machine can do, and which embedding tier fits it.
pub struct DeviceCapabilities {
    /// Memory in gigabytes, rounded down.
    pub total_ram_gb: u64,
    /// Logical cores.
    pub cpu_cores: usize,
    pub os: &'static str,
    /// `standard`, `small` or `skip`.
    pub recommended_tier: &'static str,
    pub tier_reason: String,
}

/// The embedding tier that fits a machine.
pub open spec fn tier_for(ram_gb: u64, cores: usize) -> Seq<char> {
    if ram_gb >= 16 && cores >= 4 {
        "standard"@
    } else if ram_gb >= 8 {
        "small"@
    } else {
        "skip"@
    }
}

/// Why that tier fits.
pub open spec fn tier_reason_for(ram_gb: u64, cores: usize) -> Seq<char> {
    let ram = decimal(ram_gb as nat);
    if ram_gb >= 16 && cores >= 4 {
        ram + " GB RAM and "@ + decimal(cores as nat)
            + " cores — comfortable for a local embedding model."@
    } else if ram_gb >= 8 {
        ram + " GB RAM — a small embedding model (~80 MB) will run fine."@
    } else {
        "Only "@ + ram
            + " GB RAM detected — recommend cloud embeddings or the keyword fallback."@
    }
}

/// What a machine with so much memory and so many cores can do.
pub fn detect_device_capabilities(total_memory: u64, cpu_cores: usize, os: &'static str) -> (r:
    DeviceCapabilities)
    ensures
        r.total_ram_gb == total_memory / 1_073_741_824,
        r.cpu_cores == cpu_cores,
        r.os == os,
        r.recommended_tier@ == tier_for(r.total_ram_gb, cpu_cores),
        r.tier_reason@ == tier_reason_for(r.total_ram_gb, cpu_cores),
{
    let total_ram_gb: u64 = total_memory / 1_073_741_824;
    let ram = decimal_u64(total_ram_gb);
    if total_ram_gb >= 16 && cpu_cores >= 4 {
        let cores = decimal_u64(cpu_cores as u64);
        let head = cat3(ram.as_str(), " GB RAM and ", cores.as_str());
        DeviceCapabilities {
            total_ram_gb,
            cpu_cores,
            os,
            recommended_tier: "standard",
            tier_reason: cat2(
                head.as_str(),
                " cores — comfortable for a local embedding model.",
            ),
        }
    } else if total_ram_gb >= 8 {
        DeviceCapabilities {
            total_ram_gb,
            cpu_cores,
            os,
            recommended_tier: "small",
            tier_reason: cat2(
                ram.as_str(),
                " GB RAM — a small embedding model (~80 MB) will run fine.",
            ),
        }
    } else {
        DeviceCapabilities {
            total_ram_gb,
            cpu_cores,
            os,
            recommended_tier: "skip",
            tier_reason: cat3(
                "Only ",
                ram.as_str(),
                " GB RAM detected — recommend cloud embeddings or the keyword fallback.",
            ),
        }
    }
}

/// An install is fresh exactly where nothing of an earlier one is left.
pub proof fn fresh_installs_have_no_traces(traces: InstallTraces)
    ensures
        is_fresh(traces) <==> !(traces.sentinel || traces.models || traces.config),
{
}

/// A standard model needs sixteen gigabytes and four cores, a small one eight
/// gigabytes. A stronger device is never recommended less, and the reason
/// tells what was found.
pub proof fn stronger_devices_get_more(ram: u64, cores: usize)
    ensures
        tier_for(ram, cores) == "standard"@ <==> ram >= 16 && cores >= 4,
        tier_for(ram, cores) == "small"@ <==> ram >= 8 && !(ram >= 16 && cores >= 4),
        tier_for(ram, cores) == "skip"@ <==> ram < 8,
        ram >= 16 && cores >= 4 ==> tier_reason_for(ram, cores) == decimal(ram as nat)
            + " GB RAM and "@ + decimal(cores as nat)
            + " cores — comfortable for a local embedding model."@,
        ram >= 8 && !(ram >= 16 && cores >= 4) ==> tier_reason_for(ram, cores) == decimal(
            ram as nat,
        ) + " GB RAM — a small embedding model (~80 MB) will run fine."@,
        ram < 8 ==> tier_reason_for(ram, cores) == "Only "@ + decimal(ram as nat)
            + " GB RAM detected — recommend cloud embeddings or the keyword fallback."@,
{
    reveal_strlit("standard");
    reveal_strlit("small");
    reveal_strlit("skip");
    assert("standard"@.len() == 8 && "small"@.len() == 5 && "skip"@.len() == 4);
}

} // verus!
