use zenvx::agent::{classify, gate_answer, gate_start, Risk, Stage, StepKind, Tool};
use zenvx::launcher::Capabilities;

/// Answers confirmations from a script; `false` once the script runs out.
struct Scripted {
    answers: Vec<bool>,
    asked: usize,
}

impl Scripted {
    fn new(a: Vec<bool>) -> Self {
        Self { answers: a, asked: 0 }
    }
    fn confirm(&mut self, _p: &str) -> bool {
        let a = self.answers.get(self.asked).copied().unwrap_or(false);
        self.asked += 1;
        a
    }
}

/// Records the commands it is asked to run.
#[derive(Default)]
struct Recording {
    calls: Vec<String>,
}

impl Recording {
    fn run(&mut self, c: &str) -> Result<String, String> {
        self.calls.push(c.to_string());
        Ok("ran".into())
    }
}

/// Drives the safety gate the way an agent does.
fn dispatch(c: &mut Scripted, e: &mut Recording, tool: Tool) -> Result<String, String> {
    let caps = Capabilities { has_kvm: false, ram_mb: 0 };
    let (mut gate, mut step) = gate_start(&tool, &caps);
    loop {
        match step.kind {
            StepKind::Ask => {
                let yes = c.confirm(&step.text);
                let (g, s) = gate_answer(gate, yes);
                gate = g;
                step = s;
            }
            StepKind::Run => return e.run(&step.text),
            StepKind::Failed => return Err(step.text),
            StepKind::List => return Ok(String::new()),
        }
    }
}

#[test]
fn classify_levels() {
    assert_eq!(classify("ls -la"), Risk::Safe);
    assert_eq!(classify("sudo pacman -Syu"), Risk::Confirm);
    assert_eq!(classify("rm -rf /"), Risk::Denied);
    assert_eq!(classify("rm -rf /home"), Risk::Denied);
    assert_eq!(classify(":(){ :|:& };:"), Risk::Denied);
    // a deep path is destructive but not catastrophic -> confirm, not deny
    assert_eq!(classify("rm -rf /home/rye/project/target"), Risk::Confirm);
}

#[test]
fn denied_never_executes() {
    let (mut c, mut e) = (Scripted::new(vec![true, true]), Recording::default());
    assert!(dispatch(&mut c, &mut e, Tool::RunShell("rm -rf /".into())).is_err());
    assert!(e.calls.is_empty()); // executor never touched
}

#[test]
fn safe_runs_without_confirm() {
    let (mut c, mut e) = (Scripted::new(vec![]), Recording::default());
    dispatch(&mut c, &mut e, Tool::RunShell("echo hi".into())).unwrap();
    assert_eq!(e.calls, vec!["echo hi"]);
    assert_eq!(c.asked, 0);
}

#[test]
fn risky_needs_two_confirms() {
    // both yes -> runs, asked exactly twice
    let (mut c, mut e) = (Scripted::new(vec![true, true]), Recording::default());
    dispatch(&mut c, &mut e, Tool::RunShell("sudo reboot".into())).unwrap();
    assert_eq!(e.calls.len(), 1);
    assert_eq!(c.asked, 2);

    // first no -> stops after one ask, never runs
    let (mut c, mut e) = (Scripted::new(vec![false, true]), Recording::default());
    assert!(dispatch(&mut c, &mut e, Tool::RunShell("sudo systemctl restart sshd".into())).is_err());
    assert!(e.calls.is_empty());
    assert_eq!(c.asked, 1);

    // yes then no -> asked twice, never runs
    let (mut c, mut e) = (Scripted::new(vec![true, false]), Recording::default());
    assert!(dispatch(&mut c, &mut e, Tool::RunShell("sudo pacman -Rns foo".into())).is_err());
    assert!(e.calls.is_empty());
    assert_eq!(c.asked, 2);
}

#[test]
fn open_app_routes_and_quotes() {
    let (mut c, mut e) = (Scripted::new(vec![]), Recording::default());
    // a malicious name is single-quoted by the launcher, so it can't break out
    dispatch(&mut c, &mut e, Tool::OpenApp("firefox; rm -rf /".into())).unwrap();
    assert!(e.calls[0].contains("setsid -f 'firefox; rm -rf /'"));
    // a Windows exe routes through Wine
    dispatch(&mut c, &mut e, Tool::OpenApp("game.exe".into())).unwrap();
    assert!(e.calls[1].contains("wine 'game.exe'"));
}

#[test]
fn gate_messages_are_exact() {
    let caps = Capabilities { has_kvm: false, ram_mb: 0 };
    let (g, s) = gate_start(&Tool::RunShell("mkfs.ext4 /dev/sda".into()), &caps);
    assert_eq!(g.stage, Stage::Idle);
    assert_eq!(s.kind, StepKind::Failed);
    assert_eq!(s.text, "blocked: 'mkfs.ext4 /dev/sda' is on the denylist and will not run");

    let (g, s) = gate_start(&Tool::RunShell("sudo reboot".into()), &caps);
    assert_eq!(g.stage, Stage::First);
    assert_eq!(s.kind, StepKind::Ask);
    assert_eq!(s.text, "This may need root or is destructive:\n  sudo reboot\nConfirm? (1/2)");
    let (g, s) = gate_answer(g, true);
    assert_eq!(g.stage, Stage::Second);
    assert_eq!(s.text, "Are you absolutely sure? (2/2)");
    let (g, s) = gate_answer(g, false);
    assert_eq!(g.stage, Stage::Idle);
    assert_eq!(s.kind, StepKind::Failed);
    assert_eq!(s.text, "cancelled by user");
}

#[test]
fn list_files_targets_current_dir_when_empty() {
    let caps = Capabilities { has_kvm: false, ram_mb: 0 };
    let (_, s) = gate_start(&Tool::ListFiles(String::new()), &caps);
    assert_eq!(s.kind, StepKind::List);
    assert_eq!(s.text, ".");
    let (_, s) = gate_start(&Tool::ListFiles("/tmp".into()), &caps);
    assert_eq!(s.text, "/tmp");
}

#[test]
fn classify_is_case_insensitive_and_checks_all_rm_forms() {
    assert_eq!(classify("SUDO ls"), Risk::Confirm);
    assert_eq!(classify("rm -fr /etc"), Risk::Denied);
    assert_eq!(classify("rm -r -f /usr"), Risk::Denied);
    assert_eq!(classify("rm -f -r /*"), Risk::Denied);
    assert_eq!(classify("RM -RF /"), Risk::Denied);
    assert_eq!(classify("dd if=x of=/dev/sda"), Risk::Denied);
    assert_eq!(classify("echo --no-preserve-root"), Risk::Denied);
    assert_eq!(classify("rm -rf ./build"), Risk::Confirm);
    assert_eq!(classify("cat notes.txt"), Risk::Safe);
}

#[test]
fn classify_checks_every_rm_operand() {
    assert_eq!(classify("rm -rf /tmp/cache /home"), Risk::Denied);
    assert_eq!(classify("rm -rf ./a ./b /etc"), Risk::Denied);
    assert_eq!(classify("rm -rf  \t/boot"), Risk::Denied);
    assert_eq!(classify("rm -rf /tmp; rm -fr /var"), Risk::Denied);
    assert_eq!(classify("rm -rf /home/rye/project/target /tmp/x"), Risk::Confirm);
    assert_eq!(classify("rm -rf /etcetera"), Risk::Confirm);
    assert_eq!(classify("rm -rf ./build /tmp/home"), Risk::Confirm);
    assert_eq!(classify("rm -rf a; rm -rf /"), Risk::Denied);
    assert_eq!(classify("rm -rf /home;ls"), Risk::Denied);
}

#[test]
fn rm_operands_end_with_the_command() {
    assert_eq!(classify("rm -rf build && ls /"), Risk::Confirm);
    assert_eq!(classify("rm -rf build; cd /etc"), Risk::Confirm);
    assert_eq!(classify("rm -rf build | tee /"), Risk::Confirm);
    assert_eq!(classify("rm -rf build || echo /home"), Risk::Confirm);
    assert_eq!(classify("rm -rf build\nls /usr"), Risk::Confirm);
    assert_eq!(classify("ls / && rm -rf build"), Risk::Confirm);
}

#[test]
fn detached_launch_command() {
    assert_eq!(
        zenvx::agent::detached_command("firefox"),
        "setsid -f firefox >/dev/null 2>&1"
    );
}

#[test]
fn listing_puts_each_name_on_its_own_line() {
    assert_eq!(zenvx::agent::listing(&vec![]), "");
    assert_eq!(
        zenvx::agent::listing(&vec!["Cargo.toml".to_string(), "src".to_string()]),
        "Cargo.toml\nsrc\n"
    );
}
