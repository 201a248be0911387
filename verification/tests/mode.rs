use zenvx::launcher::Capabilities;
use zenvx::mode::{decide, Mode, Specs};

fn specs(ram_mb: u64, has_kvm: bool, online: bool) -> Specs {
    Specs { ram_mb, cpu_cores: 4, has_kvm, has_gpu: false, online }
}

#[test]
fn weak_target_is_online_first_vm_off() {
    let d = decide(&specs(3700, true, true), None); // 3GB target, online
    assert_eq!(d.mode, Mode::Online);
    assert!(!d.vm_enabled);
    assert!(!d.allow_local_llm);
}

#[test]
fn strong_machine_unlocks_local_and_vm() {
    let d = decide(&specs(16000, true, true), None);
    assert_eq!(d.mode, Mode::Online); // still online-first by default
    assert!(d.vm_enabled);
    assert!(d.allow_local_llm);
}

#[test]
fn offline_strong_falls_back_to_local() {
    let d = decide(&specs(16000, true, false), None);
    assert_eq!(d.mode, Mode::Local);
}

#[test]
fn manual_override_wins() {
    let d = decide(&specs(3700, true, true), Some(Mode::Local));
    assert_eq!(d.mode, Mode::Local);
}

#[test]
fn offline_weak_stays_online_first() {
    let d = decide(&specs(3700, false, false), None);
    assert_eq!(d.mode, Mode::Online);
    assert!(!d.vm_enabled);
    let d = decide(&specs(8192, false, false), None);
    assert_eq!(d.mode, Mode::Local);
    assert!(!d.vm_enabled); // no kvm
}

#[test]
fn vm_policy_matches_launcher() {
    for (ram, kvm) in [(4095u64, true), (4096, true), (16000, false), (8192, true)] {
        let d = decide(&specs(ram, kvm, true), Some(Mode::Local));
        assert_eq!(d.vm_enabled, Capabilities { has_kvm: kvm, ram_mb: ram }.vm_capable());
    }
}
