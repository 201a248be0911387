//! Mode manager: hardware and network facts turned into runtime policy
//! (online-first reasoning, whether a local LLM is viable, whether the VM path is
//! allowed), degrading on weak hardware.
use vstd::prelude::*;

verus! {

/// Reasoning backend to prefer.
#[derive(Debug, PartialEq, Eq, Clone, Copy, Structural)]
pub enum Mode {
    Online,
    Local,
}

/// Detected (or simulated) machine and connectivity facts.
#[derive(Debug, Clone, Copy)]
pub struct Specs {
    pub ram_mb: u64,
    pub cpu_cores: usize,
    pub has_kvm: bool,
    pub has_gpu: bool,
    pub online: bool,
}

/// Policy derived from specs.
#[derive(Debug, PartialEq, Eq, Structural, Clone, Copy)]
pub struct Decision {
    pub mode: Mode,
    pub vm_enabled: bool,
    pub allow_local_llm: bool,
}

/// RAM needed before a local LLM is worth offering.
pub const LOCAL_LLM_MIN_RAM_MB: u64 = 8192;

/// RAM needed (with KVM) before the VM path is allowed.
pub const VM_MIN_RAM_MB: u64 = 4096;

/// The mode chosen when settings do not force one: online when reachable, else
/// local if the machine can run a model, else online (so it works once reconnected).
pub open spec fn auto_mode(specs: Specs) -> Mode {
    if specs.online {
        Mode::Online
    } else if specs.ram_mb >= LOCAL_LLM_MIN_RAM_MB {
        Mode::Local
    } else {
        Mode::Online
    }
}

/// The policy for a machine: a local LLM needs enough RAM, the VM path needs KVM and
/// enough RAM, and the mode is the forced one or the automatic one.
pub open spec fn decision_for(specs: Specs, override_mode: Option<Mode>) -> Decision {
    Decision {
        mode: match override_mode {
            Some(m) => m,
            None => auto_mode(specs),
        },
        vm_enabled: specs.has_kvm && specs.ram_mb >= VM_MIN_RAM_MB,
        allow_local_llm: specs.ram_mb >= LOCAL_LLM_MIN_RAM_MB,
    }
}

/// Decide runtime policy. `override_mode` lets settings force a mode manually.
pub fn decide(specs: &Specs, override_mode: Option<Mode>) -> (d: Decision)
    ensures
        d == decision_for(*specs, override_mode),
        // online-first: a reachable network means online unless settings force otherwise
        override_mode is None && specs.online ==> d.mode == Mode::Online,
        // a local model is only chosen automatically on a machine that can run one
        override_mode is None && d.mode == Mode::Local ==> d.allow_local_llm,
{
    let allow_local_llm = specs.ram_mb >= LOCAL_LLM_MIN_RAM_MB;
    let vm_enabled = specs.has_kvm && specs.ram_mb >= VM_MIN_RAM_MB;
    let auto = if specs.online {
        Mode::Online
    } else if allow_local_llm {
        Mode::Local
    } else {
        Mode::Online
    };
    let mode = match override_mode {
        Some(m) => m,
        None => auto,
    };
    Decision { mode, vm_enabled, allow_local_llm }
}


/// The VM path the mode manager enables is exactly the one the launcher allows on
/// the same hardware, whatever mode is chosen.
pub proof fn law_vm_policy_agrees(specs: Specs, override_mode: Option<Mode>)
    ensures
        decision_for(specs, override_mode).vm_enabled == (crate::launcher::Capabilities {
            has_kvm: specs.has_kvm,
            ram_mb: specs.ram_mb,
        }).can_run_vm(),
{
}

/// A machine that can run a local model but has no network falls back to it; one
/// that cannot stays online-first.
pub proof fn law_offline_fallback(specs: Specs)
    requires
        !specs.online,
    ensures
        decision_for(specs, None).mode == (if specs.ram_mb >= LOCAL_LLM_MIN_RAM_MB {
            Mode::Local
        } else {
            Mode::Online
        }),
{
}

/// The local-LLM and VM gates depend on the hardware alone: a local LLM is allowed
/// exactly on a machine with at least 8192 MB of RAM, and the VM path exactly with KVM
/// and at least 4096 MB, whatever the GPU, the cores, the network or a forced mode.
pub proof fn law_hardware_gates(specs: Specs, override_mode: Option<Mode>)
    ensures
        decision_for(specs, override_mode).allow_local_llm == (specs.ram_mb >= 8192),
        decision_for(specs, override_mode).vm_enabled == (specs.has_kvm && specs.ram_mb >= 4096),
{
}

/// The mode is the forced one when settings force one; otherwise online whenever the
/// network is up, and offline local exactly on a machine with at least 8192 MB of RAM.
pub proof fn law_mode_choice(specs: Specs, override_mode: Option<Mode>)
    ensures
        override_mode matches Some(m) ==> decision_for(specs, override_mode).mode == m,
        override_mode is None ==> (decision_for(specs, override_mode).mode == Mode::Local <==> (
        !specs.online && specs.ram_mb >= 8192)),
{
}

/// Two machines that differ only in GPU and core count get the same policy.
pub proof fn law_gpu_and_cores_do_not_matter(a: Specs, b: Specs, override_mode: Option<Mode>)
    requires
        a.ram_mb == b.ram_mb,
        a.has_kvm == b.has_kvm,
        a.online == b.online,
    ensures
        decision_for(a, override_mode) == decision_for(b, override_mode),
{
}

} // verus!
