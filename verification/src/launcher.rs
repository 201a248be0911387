//! App launcher / compatibility router: what a target is, and the shell command
//! that runs it (Windows `.exe` via Wine, `.AppImage` directly, Flatpak by app id,
//! disk images in a VM when the hardware allows, otherwise a packaged command).
use vstd::prelude::*;
use crate::common::Error;
use crate::text::{
    append_chars, append_str, chars_of, ends_with, lowercase, skip_ws, skip_ws_exec, split_lines_exec,
    split_on, starts_with, string_of, to_lowercase, word_end, word_end_exec,
};

verus! {

/// What a launch spec names.
#[derive(Debug, PartialEq, Eq)]
pub enum Target {
    WindowsExe(String),
    AppImage(String),
    Flatpak(String),
    Pacman(String),
    Vm(String),
}

/// The kinds of target, without their names.
#[derive(Debug, PartialEq, Eq, Structural, Clone, Copy)]
pub enum TargetKind {
    WindowsExe,
    AppImage,
    Flatpak,
    Pacman,
    Vm,
}

impl Target {
    /// The kind of this target.
    pub open spec fn kind(self) -> TargetKind {
        match self {
            Target::WindowsExe(_) => TargetKind::WindowsExe,
            Target::AppImage(_) => TargetKind::AppImage,
            Target::Flatpak(_) => TargetKind::Flatpak,
            Target::Pacman(_) => TargetKind::Pacman,
            Target::Vm(_) => TargetKind::Vm,
        }
    }

    /// The name this target carries.
    pub open spec fn name(self) -> Seq<char> {
        match self {
            Target::WindowsExe(s) => s@,
            Target::AppImage(s) => s@,
            Target::Flatpak(s) => s@,
            Target::Pacman(s) => s@,
            Target::Vm(s) => s@,
        }
    }
}

/// Reverse-DNS-style Flatpak app id, e.g. `org.mozilla.firefox`: no `/`, no space,
/// and at least three dot-separated parts.
pub open spec fn flatpak_id(s: Seq<char>) -> bool {
    !s.contains('/') && !s.contains(' ') && split_on(s, '.').len() >= 3
}

/// The kind of target a spec names; `lc` is the spec lower-cased.
pub open spec fn kind_for(spec: Seq<char>, lc: Seq<char>) -> TargetKind {
    if ends_with(lc, ".exe"@) || ends_with(lc, ".msi"@) {
        TargetKind::WindowsExe
    } else if ends_with(lc, ".appimage"@) {
        TargetKind::AppImage
    } else if ends_with(lc, ".iso"@) || ends_with(lc, ".img"@) || ends_with(lc, ".qcow2"@)
        || ends_with(lc, ".vhd"@) {
        TargetKind::Vm
    } else if flatpak_id(spec) {
        TargetKind::Flatpak
    } else {
        TargetKind::Pacman
    }
}

/// Hardware capabilities relevant to launching.
#[derive(Debug, Clone, Copy)]
pub struct Capabilities {
    pub has_kvm: bool,
    pub ram_mb: u64,
}

/// RAM (with KVM) a usable VM needs.
pub const VM_MIN_RAM_MB: u64 = 4096;

impl Capabilities {
    /// A usable VM needs KVM and enough RAM.
    pub open spec fn can_run_vm(self) -> bool {
        self.has_kvm && self.ram_mb >= VM_MIN_RAM_MB
    }

    /// A usable VM needs KVM and enough RAM (the 3GB target falls short on purpose).
    pub fn vm_capable(&self) -> (r: bool)
        ensures
            r == self.can_run_vm(),
    {
        self.has_kvm && self.ram_mb >= VM_MIN_RAM_MB
    }
}

/// `s` with every `'` written as `'\''`.
pub open spec fn escape_quotes(s: Seq<char>) -> Seq<char>
    decreases s.len(),
{
    if s.len() == 0 {
        Seq::<char>::empty()
    } else if s.last() == '\'' {
        escape_quotes(s.drop_last()) + seq!['\'', '\\', '\'', '\'']
    } else {
        escape_quotes(s.drop_last()).push(s.last())
    }
}

/// `s` single-quoted for a POSIX shell.
pub open spec fn shell_quoted(s: Seq<char>) -> Seq<char> {
    seq!['\''] + escape_quotes(s) + seq!['\'']
}

/// The message of a refused VM launch.
pub open spec fn vm_refusal(img: Seq<char>) -> Seq<char> {
    "VM path disabled on this hardware (needs KVM + >=4GB RAM); cannot launch "@ + img
}

/// The command that launches a target, or the refusal when it cannot run here.
pub open spec fn launch_text(t: Target, caps: Capabilities) -> Result<Seq<char>, Seq<char>> {
    launch_text_of(t.kind(), t.name(), caps)
}

/// The command that launches a target of kind `kind` named `name`, or the refusal
/// when it cannot run here.
pub open spec fn launch_text_of(kind: TargetKind, name: Seq<char>, caps: Capabilities) -> Result<
    Seq<char>,
    Seq<char>,
> {
    let q = shell_quoted(name);
    match kind {
        TargetKind::WindowsExe => Ok("wine "@ + q),
        TargetKind::AppImage => Ok("chmod +x "@ + q + " && "@ + q),
        TargetKind::Flatpak => Ok("flatpak run "@ + q),
        TargetKind::Pacman => Ok(q),
        TargetKind::Vm => if caps.can_run_vm() {
            Ok("qemu-system-x86_64 -enable-kvm -m 2048 -drive file="@ + q + ",format=raw"@)
        } else {
            Err(vm_refusal(name))
        },
    }
}

/// Whether `s` ends with `p`.
fn ends_with_exec(s: &[char], p: &str) -> (r: bool)
    ensures
        r == ends_with(s@, p@),
{
    let pc = chars_of(p);
    if pc.len() > s.len() {
        return false;
    }
    let off = s.len() - pc.len();
    let mut j: usize = 0;
    while j < pc.len()
        invariant
            off + pc@.len() == s.len(),
            pc@ == p@,
            j <= pc@.len(),
            forall|k: int| 0 <= k < j ==> s@[off + k] == pc@[k],
        decreases pc@.len() - j,
    {
        if s[off + j] != pc[j] {
            assert(s@.subrange(off as int, s@.len() as int)[j as int] != pc@[j as int]);
            return false;
        }
        j = j + 1;
    }
    assert(s@.subrange(off as int, s@.len() as int) =~= pc@);
    true
}

/// Whether `s` is a reverse-DNS-style Flatpak app id.
fn is_flatpak_id(s: &[char]) -> (r: bool)
    ensures
        r == flatpak_id(s@),
{
    let mut slash = false;
    let mut space = false;
    let mut dots: usize = 0;
    let mut i: usize = 0;
    while i < s.len()
        invariant
            i <= s@.len(),
            slash == s@.take(i as int).contains('/'),
            space == s@.take(i as int).contains(' '),
            dots + 1 == split_on(s@.take(i as int), '.').len(),
            dots <= i,
        decreases s@.len() - i,
    {
        let c = s[i];
        let ghost pre = s@.take(i as int);
        assert(s@.take(i + 1).drop_last() =~= pre);
        proof {
            crate::text::lemma_split_on_nonempty(pre, '.');
        }
        if c == '/' {
            slash = true;
        }
        if c == ' ' {
            space = true;
        }
        if c == '.' {
            dots = dots + 1;
        }
        i = i + 1;
        proof {
            let cur = s@.take(i as int);
            assert(cur.last() == c);
            if s@.take(i as int).contains('/') && !pre.contains('/') {
                assert(c == '/');
            }
            if pre.contains('/') {
                let k = choose|k: int| 0 <= k < pre.len() && pre[k] == '/';
                assert(cur[k] == '/');
            }
            if s@.take(i as int).contains(' ') && !pre.contains(' ') {
                assert(c == ' ');
            }
            if pre.contains(' ') {
                let k = choose|k: int| 0 <= k < pre.len() && pre[k] == ' ';
                assert(cur[k] == ' ');
            }
            if c == '/' {
                assert(cur[cur.len() - 1] == '/');
            }
            if c == ' ' {
                assert(cur[cur.len() - 1] == ' ');
            }
        }
    }
    assert(s@.take(s@.len() as int) =~= s@);
    !slash && !space && dots >= 2
}

/// The target a spec names, given the spec lower-cased (`lc`): by the extension of
/// `lc`, or by the shape of the spec.
pub fn target_for(spec: &str, lc: &str) -> (r: Target)
    ensures
        r.kind() == kind_for(spec@, lc@),
        r.name() == spec@,
{
    let lc = chars_of(lc);
    let s = chars_of(spec);
    let name = string_of(&s);
    if ends_with_exec(&lc, ".exe") || ends_with_exec(&lc, ".msi") {
        Target::WindowsExe(name)
    } else if ends_with_exec(&lc, ".appimage") {
        Target::AppImage(name)
    } else if ends_with_exec(&lc, ".iso") || ends_with_exec(&lc, ".img") || ends_with_exec(
        &lc,
        ".qcow2",
    ) || ends_with_exec(&lc, ".vhd") {
        Target::Vm(name)
    } else if is_flatpak_id(&s) {
        Target::Flatpak(name)
    } else {
        Target::Pacman(name)
    }
}

/// Classify a launch spec by its extension (case-insensitively) or its shape.
pub fn classify_target(spec: &str) -> (r: Target)
    ensures
        r.kind() == kind_for(spec@, lowercase(spec@)),
        r.name() == spec@,
{
    let lcs = to_lowercase(spec);
    target_for(spec, lcs.as_str())
}

/// `s` with every `'` written as `'\''`.
fn escape_quotes_exec(s: &[char]) -> (r: Vec<char>)
    ensures
        r@ == escape_quotes(s@),
{
    let mut r: Vec<char> = Vec::new();
    let mut i: usize = 0;
    while i < s.len()
        invariant
            i <= s@.len(),
            r@ == escape_quotes(s@.take(i as int)),
        decreases s@.len() - i,
    {
        assert(s@.take(i + 1).drop_last() =~= s@.take(i as int));
        if s[i] == '\'' {
            r.push('\'');
            r.push('\\');
            r.push('\'');
            r.push('\'');
            assert(r@ =~= escape_quotes(s@.take(i as int)) + seq!['\'', '\\', '\'', '\'']);
        } else {
            r.push(s[i]);
        }
        i = i + 1;
    }
    assert(s@.take(s@.len() as int) =~= s@);
    r
}

/// Single-quote a value so it cannot break out of the shell command.
pub fn shq(s: &str) -> (r: String)
    ensures
        r@ == shell_quoted(s@),
{
    let sc = chars_of(s);
    let mut v: Vec<char> = Vec::new();
    v.push('\'');
    let e = escape_quotes_exec(&sc);
    append_chars(&mut v, &e);
    v.push('\'');
    assert(v@ =~= shell_quoted(s@));
    string_of(&v)
}

/// Build the shell command to launch a target, honoring hardware limits.
pub fn launch_command(target: &Target, caps: &Capabilities) -> (r: Result<String, Error>)
    ensures
        r matches Ok(c) ==> launch_text(*target, *caps) == Ok::<Seq<char>, Seq<char>>(c@),
        r matches Err(e) ==> launch_text(*target, *caps) == Err::<Seq<char>, Seq<char>>(
            e.msg_view(),
        ),
{
    match target {
        Target::WindowsExe(p) => {
            let q = chars_of(shq(p.as_str()).as_str());
            let mut v = chars_of("wine ");
            append_chars(&mut v, &q);
            Ok(string_of(&v))
        },
        Target::AppImage(p) => {
            let q = chars_of(shq(p.as_str()).as_str());
            let mut v = chars_of("chmod +x ");
            append_chars(&mut v, &q);
            append_str(&mut v, " && ");
            append_chars(&mut v, &q);
            Ok(string_of(&v))
        },
        Target::Flatpak(id) => {
            let q = chars_of(shq(id.as_str()).as_str());
            let mut v = chars_of("flatpak run ");
            append_chars(&mut v, &q);
            Ok(string_of(&v))
        },
        Target::Pacman(name) => Ok(shq(name.as_str())),
        Target::Vm(img) => {
            if !caps.vm_capable() {
                let mut v = chars_of(
                    "VM path disabled on this hardware (needs KVM + >=4GB RAM); cannot launch ",
                );
                append_str(&mut v, img.as_str());
                return Err(Error::Msg(string_of(&v)));
            }
            let q = chars_of(shq(img.as_str()).as_str());
            let mut v = chars_of("qemu-system-x86_64 -enable-kvm -m 2048 -drive file=");
            append_chars(&mut v, &q);
            append_str(&mut v, ",format=raw");
            Ok(string_of(&v))
        },
    }
}


/// The second whitespace-separated word of `s` (`split_whitespace().nth(1)`).
pub open spec fn second_word(s: Seq<char>) -> Option<Seq<char>> {
    let a = skip_ws(s, 0);
    let c = skip_ws(s, word_end(s, a));
    if c < s.len() {
        Some(s.subrange(c, word_end(s, c)))
    } else {
        None
    }
}

/// The value of a run of decimal digits.
pub open spec fn digits_value(d: Seq<char>) -> int
    decreases d.len(),
{
    if d.len() == 0 {
        0
    } else {
        digits_value(d.drop_last()) * 10 + (d.last() as int - '0' as int)
    }
}

pub open spec fn all_digits(d: Seq<char>) -> bool {
    forall|i: int| 0 <= i < d.len() ==> '0' <= #[trigger] d[i] <= '9'
}

/// `u64::from_str`: an optional `+`, then one or more decimal digits, in range.
pub open spec fn parse_u64(t: Seq<char>) -> Option<u64> {
    let d = if t.len() > 0 && t[0] == '+' {
        t.skip(1)
    } else {
        t
    };
    if d.len() > 0 && all_digits(d) && digits_value(d) <= u64::MAX {
        Some(digits_value(d) as u64)
    } else {
        None
    }
}

/// The first of `lines`, from index `i` on, that starts with `p`.
pub open spec fn first_starting(lines: Seq<Seq<char>>, p: Seq<char>, i: int) -> Option<Seq<char>>
    decreases lines.len() - i,
{
    if i < 0 || i >= lines.len() {
        None
    } else if starts_with(lines[i], p) {
        Some(lines[i])
    } else {
        first_starting(lines, p, i + 1)
    }
}

/// Total RAM in MiB read from the text of `/proc/meminfo`: the number on the first
/// `MemTotal:` line, in KiB, divided by 1024.
pub open spec fn meminfo_mb(text: Seq<char>) -> Option<u64> {
    match first_starting(split_on(text, '\n'), "MemTotal:"@, 0) {
        None => None,
        Some(line) => match second_word(line) {
            None => None,
            Some(w) => match parse_u64(w) {
                None => None,
                Some(kb) => Some((kb / 1024) as u64),
            },
        },
    }
}

proof fn lemma_digits_grow(d: Seq<char>, c: char)
    requires
        '0' <= c <= '9',
    ensures
        digits_value(d.push(c)) >= digits_value(d) * 10,
        digits_value(d) >= 0 ==> digits_value(d.push(c)) >= digits_value(d),
{
    assert(d.push(c).drop_last() =~= d);
}

proof fn lemma_digits_nonneg(d: Seq<char>)
    requires
        all_digits(d),
    ensures
        digits_value(d) >= 0,
    decreases d.len(),
{
    if d.len() > 0 {
        assert(all_digits(d.drop_last())) by {
            assert forall|i: int| 0 <= i < d.drop_last().len() implies '0' <= #[trigger] d.drop_last()[i] <= '9' by {
                assert(d.drop_last()[i] == d[i]);
            }
        }
        lemma_digits_nonneg(d.drop_last());
        assert(d[d.len() - 1] <= '9');
    }
}

proof fn lemma_digits_prefix_bound(d: Seq<char>, k: int)
    requires
        all_digits(d),
        0 <= k <= d.len(),
    ensures
        digits_value(d.take(k)) <= digits_value(d),
    decreases d.len() - k,
{
    if k < d.len() {
        lemma_digits_prefix_bound(d, k + 1);
        assert(d.take(k + 1) =~= d.take(k).push(d[k]));
        assert(all_digits(d.take(k))) by {
            assert forall|i: int| 0 <= i < d.take(k).len() implies '0' <= #[trigger] d.take(k)[i] <= '9' by {
                assert(d.take(k)[i] == d[i]);
            }
        }
        lemma_digits_nonneg(d.take(k));
        lemma_digits_grow(d.take(k), d[k]);
    } else {
        assert(d.take(k) =~= d);
    }
}

/// `u64::from_str`.
pub fn parse_u64_exec(t: &[char]) -> (r: Option<u64>)
    ensures
        r == parse_u64(t@),
{
    let mut start: usize = 0;
    if t.len() > 0 && t[0] == '+' {
        start = 1;
    }
    let ghost d = if t@.len() > 0 && t@[0] == '+' {
        t@.skip(1)
    } else {
        t@
    };
    assert(d =~= t@.skip(start as int));
    if start >= t.len() {
        return None;
    }
    let mut v: u64 = 0;
    let mut i: usize = start;
    while i < t.len()
        invariant
            start <= i <= t@.len(),
            d == t@.skip(start as int),
            d == (if t@.len() > 0 && t@[0] == '+' {
                t@.skip(1)
            } else {
                t@
            }),
            v as int == digits_value(d.take(i - start)),
            all_digits(d.take(i - start)),
        decreases t@.len() - i,
    {
        let c = t[i];
        let ghost pre = d.take(i - start);
        assert(d.take(i + 1 - start) =~= pre.push(c));
        assert(pre.push(c).drop_last() =~= pre);
        if c < '0' || c > '9' {
            assert(!all_digits(d)) by {
                assert(d[i - start] == c);
            }
            return None;
        }
        let dig = (c as u32 - '0' as u32) as u64;
        assert(dig as int == c as int - '0' as int);
        if v > (u64::MAX - dig) / 10 {
            proof {
                assert(v * 10 + dig > u64::MAX) by (nonlinear_arith)
                    requires
                        v > (u64::MAX - dig) / 10,
                        dig <= 9,
                ;
                assert(all_digits(pre.push(c))) by {
                    assert forall|j: int| 0 <= j < pre.push(c).len() implies '0' <= #[trigger] pre.push(c)[j] <= '9' by {
                        if j < pre.len() {
                            assert(pre.push(c)[j] == pre[j]);
                        }
                    }
                }
                if all_digits(d) {
                    lemma_digits_prefix_bound(d, i + 1 - start);
                }
            }
            return None;
        }
        assert(v * 10 + dig <= u64::MAX) by (nonlinear_arith)
            requires
                v <= (u64::MAX - dig) / 10,
                dig <= 9,
        ;
        v = v * 10 + dig;
        proof {
            assert forall|j: int| 0 <= j < pre.push(c).len() implies '0' <= #[trigger] pre.push(c)[j] <= '9' by {
                if j < pre.len() {
                    assert(pre.push(c)[j] == pre[j]);
                }
            }
        }
        i = i + 1;
    }
    assert(d.take(t@.len() - start) =~= d);
    Some(v)
}

/// Total RAM in MiB from the text of `/proc/meminfo` (reading the file is the
/// caller's part).
pub fn mem_total_mb(meminfo: &str) -> (r: Option<u64>)
    ensures
        r == meminfo_mb(meminfo@),
{
    let s = chars_of(meminfo);
    let lines = split_lines_exec(&s);
    let prefix = chars_of("MemTotal:");
    let mut k: usize = 0;
    while k < lines.len()
        invariant
            k <= lines@.len(),
            s@ == meminfo@,
            prefix@ == "MemTotal:"@,
            lines@.len() == split_on(s@, '\n').len(),
            forall|i: int| 0 <= i < lines@.len() ==> #[trigger] lines@[i]@ == split_on(s@, '\n')[i],
            first_starting(split_on(s@, '\n'), "MemTotal:"@, 0) == first_starting(
                split_on(s@, '\n'),
                "MemTotal:"@,
                k as int,
            ),
        decreases lines@.len() - k,
    {
        let line = &lines[k];
        let sw = starts_with_exec(line, &prefix);
        if sw {
            assert(split_on(s@, '\n')[k as int] == line@);
            assert(first_starting(split_on(s@, '\n'), "MemTotal:"@, k as int) == Some(line@));
            let a = skip_ws_exec(line, 0);
            let b = word_end_exec(line, a);
            let c = skip_ws_exec(line, b);
            if c >= line.len() {
                assert(second_word(line@) is None);
                return None;
            }
            let e = word_end_exec(line, c);
            let w = crate::text::slice_chars(line, c, e);
            return match parse_u64_exec(&w) {
                None => None,
                Some(kb) => Some(kb / 1024),
            };
        }
        k = k + 1;
    }
    None
}

fn starts_with_exec(s: &[char], p: &[char]) -> (r: bool)
    ensures
        r == starts_with(s@, p@),
{
    if p.len() > s.len() {
        return false;
    }
    let mut j: usize = 0;
    while j < p.len()
        invariant
            p@.len() <= s@.len(),
            j <= p@.len(),
            forall|k: int| 0 <= k < j ==> s@[k] == p@[k],
        decreases p@.len() - j,
    {
        if s[j] != p[j] {
            assert(s@.subrange(0, p@.len() as int)[j as int] != p@[j as int]);
            return false;
        }
        j = j + 1;
    }
    assert(s@.subrange(0, p@.len() as int) =~= p@);
    true
}


/// How a POSIX shell reads a word made only of quoted text: the text so far and the
/// state (0 outside quotes, 1 inside single quotes, 2 after a backslash), or `None`
/// once a character stands unquoted (where the shell could read it as syntax).
pub open spec fn sh_scan(w: Seq<char>) -> Option<(Seq<char>, int)>
    decreases w.len(),
{
    if w.len() == 0 {
        Some((Seq::<char>::empty(), 0))
    } else {
        match sh_scan(w.drop_last()) {
            None => None,
            Some((acc, st)) => {
                let c = w.last();
                if st == 1 {
                    if c == '\'' {
                        Some((acc, 0))
                    } else {
                        Some((acc.push(c), 1))
                    }
                } else if st == 2 {
                    Some((acc.push(c), 0))
                } else if c == '\'' {
                    Some((acc, 1))
                } else if c == '\\' {
                    Some((acc, 2))
                } else {
                    None
                }
            },
        }
    }
}

/// The value a shell gives a word made only of quoted text, if it is one.
pub open spec fn sh_unquote(w: Seq<char>) -> Option<Seq<char>> {
    match sh_scan(w) {
        Some((acc, st)) => if st == 0 {
            Some(acc)
        } else {
            None
        },
        None => None,
    }
}

proof fn lemma_scan_open_quote(t: Seq<char>)
    ensures
        sh_scan(seq!['\''] + escape_quotes(t)) == Some((t, 1int)),
    decreases t.len(),
{
    if t.len() == 0 {
        assert(seq!['\''] + escape_quotes(t) =~= seq!['\'']);
        assert(seq!['\''].drop_last() =~= Seq::<char>::empty());
        assert(t =~= Seq::<char>::empty());
        assert(sh_scan(Seq::<char>::empty()) == Some((Seq::<char>::empty(), 0int)));
        assert(sh_scan(seq!['\'']) == Some((Seq::<char>::empty(), 1int)));
    } else {
        let t1 = t.drop_last();
        let c = t.last();
        lemma_scan_open_quote(t1);
        let base = seq!['\''] + escape_quotes(t1);
        if c == '\'' {
            let w1 = base.push('\'');
            let w2 = w1.push('\\');
            let w3 = w2.push('\'');
            let w4 = w3.push('\'');
            assert(w1.drop_last() =~= base);
            assert(w2.drop_last() =~= w1);
            assert(w3.drop_last() =~= w2);
            assert(w4.drop_last() =~= w3);
            assert(sh_scan(w1) == Some((t1, 0int)));
            assert(sh_scan(w2) == Some((t1, 2int)));
            assert(sh_scan(w3) == Some((t1.push('\''), 0int)));
            assert(sh_scan(w4) == Some((t1.push('\''), 1int)));
            assert(w4 =~= seq!['\''] + escape_quotes(t));
            assert(t1.push('\'') =~= t);
            assert(sh_scan(seq!['\''] + escape_quotes(t)) == Some((t, 1int)));
        } else {
            let w = base.push(c);
            assert(w.drop_last() =~= base);
            assert(w =~= seq!['\''] + escape_quotes(t));
            assert(t1.push(c) =~= t);
            assert(sh_scan(w) == Some((t1.push(c), 1int)));
        }
    }
}

/// Single-quoting prevents shell injection: the quoted text is one shell word, with
/// no character left unquoted, whose value is exactly the original text.
pub proof fn law_shell_quote(s: Seq<char>)
    ensures
        sh_unquote(shell_quoted(s)) == Some(s),
{
    lemma_scan_open_quote(s);
    let w = shell_quoted(s);
    assert(w.drop_last() =~= seq!['\''] + escape_quotes(s));
}

/// How many times `c` occurs in `s`.
pub open spec fn count_of(s: Seq<char>, c: char) -> nat
    decreases s.len(),
{
    if s.len() == 0 {
        0
    } else {
        count_of(s.drop_last(), c) + if s.last() == c {
            1nat
        } else {
            0nat
        }
    }
}

proof fn lemma_split_count(s: Seq<char>, c: char)
    ensures
        split_on(s, c).len() == count_of(s, c) + 1,
    decreases s.len(),
{
    if s.len() > 0 {
        lemma_split_count(s.drop_last(), c);
    }
}

/// Launch targets by extension (of the lower-cased spec `lc`), in this order of
/// precedence: `.exe` and `.msi` run under Wine; `.appimage` runs directly; `.iso`,
/// `.img`, `.qcow2` and `.vhd` are disk images for the VM; anything else is a Flatpak
/// exactly when the spec has no `/`, no space and at least two dots, else a packaged
/// command.
pub proof fn law_target_kinds(spec: Seq<char>, lc: Seq<char>)
    ensures
        ends_with(lc, ".exe"@) || ends_with(lc, ".msi"@) ==> kind_for(spec, lc)
            == TargetKind::WindowsExe,
        !ends_with(lc, ".exe"@) && !ends_with(lc, ".msi"@) && ends_with(lc, ".appimage"@)
            ==> kind_for(spec, lc) == TargetKind::AppImage,
        !ends_with(lc, ".exe"@) && !ends_with(lc, ".msi"@) && !ends_with(lc, ".appimage"@) && (
        ends_with(lc, ".iso"@) || ends_with(lc, ".img"@) || ends_with(lc, ".qcow2"@) || ends_with(
            lc,
            ".vhd"@,
        )) ==> kind_for(spec, lc) == TargetKind::Vm,
        !ends_with(lc, ".exe"@) && !ends_with(lc, ".msi"@) && !ends_with(lc, ".appimage"@)
            && !ends_with(lc, ".iso"@) && !ends_with(lc, ".img"@) && !ends_with(lc, ".qcow2"@)
            && !ends_with(lc, ".vhd"@) ==> kind_for(spec, lc) == if !spec.contains('/')
            && !spec.contains(' ') && count_of(spec, '.') >= 2 {
            TargetKind::Flatpak
        } else {
            TargetKind::Pacman
        },
{
    lemma_split_count(spec, '.');
}

/// The command for each kind of target, with the name single-quoted: `wine` for
/// Windows programs, `chmod +x` then the file for an AppImage, `flatpak run` for a
/// Flatpak, the name itself for a packaged command, and QEMU with KVM and 2048 MB for a
/// disk image, which is refused, naming the image, unless the machine has KVM and at
/// least 4096 MB of RAM.
pub proof fn law_launch_commands(name: Seq<char>, caps: Capabilities)
    ensures
        launch_text_of(TargetKind::WindowsExe, name, caps) == Ok::<Seq<char>, Seq<char>>(
            "wine "@ + shell_quoted(name),
        ),
        launch_text_of(TargetKind::AppImage, name, caps) == Ok::<Seq<char>, Seq<char>>(
            "chmod +x "@ + shell_quoted(name) + " && "@ + shell_quoted(name),
        ),
        launch_text_of(TargetKind::Flatpak, name, caps) == Ok::<Seq<char>, Seq<char>>(
            "flatpak run "@ + shell_quoted(name),
        ),
        launch_text_of(TargetKind::Pacman, name, caps) == Ok::<Seq<char>, Seq<char>>(
            shell_quoted(name),
        ),
        (caps.has_kvm && caps.ram_mb >= 4096) ==> launch_text_of(TargetKind::Vm, name, caps)
            == Ok::<Seq<char>, Seq<char>>(
            "qemu-system-x86_64 -enable-kvm -m 2048 -drive file="@ + shell_quoted(name)
                + ",format=raw"@,
        ),
        !(caps.has_kvm && caps.ram_mb >= 4096) ==> (launch_text_of(TargetKind::Vm, name, caps) matches Err(
            m,
        ) && m.len() >= name.len() && m.subrange(m.len() - name.len(), m.len() as int) == name),
{
    let m = vm_refusal(name);
    assert(m.subrange(m.len() - name.len(), m.len() as int) =~= name);
}

} // verus!
