use zenvx::launcher::{classify_target, launch_command, mem_total_mb, shq, Capabilities, Target};

fn caps(has_kvm: bool, ram_mb: u64) -> Capabilities {
    Capabilities { has_kvm, ram_mb }
}

#[test]
fn routes_by_type() {
    assert!(matches!(classify_target("game.exe"), Target::WindowsExe(_)));
    assert!(matches!(classify_target("Tool.AppImage"), Target::AppImage(_)));
    assert!(matches!(classify_target("org.mozilla.firefox"), Target::Flatpak(_)));
    assert!(matches!(classify_target("disk.iso"), Target::Vm(_)));
    assert!(matches!(classify_target("htop"), Target::Pacman(_)));
}

#[test]
fn builds_commands() {
    let c = caps(true, 8192);
    assert_eq!(launch_command(&Target::WindowsExe("a.exe".into()), &c).unwrap(), "wine 'a.exe'");
    assert_eq!(launch_command(&Target::Flatpak("org.x.Y".into()), &c).unwrap(), "flatpak run 'org.x.Y'");
    assert_eq!(launch_command(&Target::Pacman("htop".into()), &c).unwrap(), "'htop'");
    assert!(launch_command(&Target::AppImage("a.AppImage".into()), &c).unwrap().contains("chmod +x"));
}

#[test]
fn vm_gated_by_hardware() {
    assert!(launch_command(&Target::Vm("x.iso".into()), &caps(true, 3700)).is_err()); // 3GB target
    assert!(launch_command(&Target::Vm("x.iso".into()), &caps(false, 16000)).is_err()); // no kvm
    assert!(launch_command(&Target::Vm("x.iso".into()), &caps(true, 8192))
        .unwrap()
        .contains("qemu-system"));
}

#[test]
fn quotes_prevent_injection() {
    let cmd =
        launch_command(&Target::WindowsExe("a; rm -rf /.exe".into()), &caps(true, 8192)).unwrap();
    assert!(cmd.starts_with("wine '"));
    assert!(!cmd.contains("'; rm")); // cannot break out of the quotes
}

#[test]
fn exact_commands_and_refusal() {
    let c = caps(true, 4096);
    assert_eq!(
        launch_command(&Target::AppImage("a.AppImage".into()), &c).unwrap(),
        "chmod +x 'a.AppImage' && 'a.AppImage'"
    );
    assert_eq!(
        launch_command(&Target::Vm("x.iso".into()), &c).unwrap(),
        "qemu-system-x86_64 -enable-kvm -m 2048 -drive file='x.iso',format=raw"
    );
    let e = launch_command(&Target::Vm("x.iso".into()), &caps(true, 4095)).unwrap_err();
    assert_eq!(
        e.message(),
        "VM path disabled on this hardware (needs KVM + >=4GB RAM); cannot launch x.iso"
    );
    assert!(caps(true, 4096).vm_capable());
    assert!(!caps(true, 4095).vm_capable());
}

#[test]
fn quoting_escapes_single_quotes() {
    assert_eq!(shq("it's"), "'it'\\''s'");
    assert_eq!(shq(""), "''");
}

#[test]
fn classification_details() {
    assert_eq!(classify_target("SETUP.MSI"), Target::WindowsExe("SETUP.MSI".into()));
    assert_eq!(classify_target("vm.QCOW2"), Target::Vm("vm.QCOW2".into()));
    assert_eq!(classify_target("a.b"), Target::Pacman("a.b".into()));
    assert_eq!(classify_target("org/x.y.z"), Target::Pacman("org/x.y.z".into()));
    assert_eq!(classify_target("my app.x.y"), Target::Pacman("my app.x.y".into()));
    assert_eq!(classify_target("a..b"), Target::Flatpak("a..b".into()));
}

#[test]
fn meminfo_total() {
    let text = "MemFree:  1000 kB\nMemTotal:       3790000 kB\nMemTotal: 1 kB\n";
    assert_eq!(mem_total_mb(text), Some(3701));
    assert_eq!(mem_total_mb("MemTotal: +2048 kB"), Some(2));
    assert_eq!(mem_total_mb("MemTotal:"), None);
    assert_eq!(mem_total_mb("MemTotal: x kB"), None);
    assert_eq!(mem_total_mb("MemTotal: 99999999999999999999 kB"), None);
    assert_eq!(mem_total_mb("Other: 5"), None);
}
