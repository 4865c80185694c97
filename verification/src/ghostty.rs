//! The decisions of opening an agent in Ghostty: which window belongs to a
//! connection, how the window lookups answer, and what to do next.
use vstd::prelude::*;
use vstd::string::StringExecFns;

use crate::config::ConnectionConfig;
use crate::text::{
    chars_eq, chars_of, lossy_text, push_chars, push_str, string_from_chars, trim, trim_chars,
    utf8_lossy,
};

verus! {

/// What the widget tells the user about its connection when it starts.
#[derive(Debug, Clone)]
pub struct ConnectionBootstrap {
    pub config: ConnectionConfig,
    pub configured: bool,
    pub warning: Option<String>,
}

/// What opening an agent did: it focused an existing window or opened a new one.
#[derive(Debug, Clone, Copy, PartialEq, Eq)]
pub enum GhosttyAction {
    Focused,
    Opened,
}

/// The Ghostty terminal last focused for a connection.
#[derive(Debug, Clone)]
pub struct GhosttyTerminal {
    pub connection_key: u64,
    pub terminal_id: String,
}

/// The FNV-1a offset basis and prime.
pub const FNV_OFFSET: u64 = 0xcbf29ce484222325u64;
pub const FNV_PRIME: u64 = 0x100000001b3u64;

/// One FNV-1a step.
pub open spec fn fnv_step(hash: u64, byte: u8) -> u64 {
    vstd::wrapping::u64_specs::wrapping_mul(hash ^ (byte as u64), FNV_PRIME)
}

/// FNV-1a over `bytes`, starting from `hash`.
pub open spec fn fnv(hash: u64, bytes: Seq<u8>) -> u64
    decreases bytes.len(),
{
    if bytes.len() == 0 {
        hash
    } else {
        fnv_step(fnv(hash, bytes.drop_last()), bytes.last())
    }
}

/// The bytes hashed for a connection: the mode, the trimmed host and the trimmed
/// executable, each in UTF-8 and followed by `0xff`.
pub open spec fn connection_bytes(config: ConnectionConfig) -> Seq<u8> {
    let mode = if config.spec_uses_ssh() {
        "ssh"@
    } else {
        "local"@
    };
    vstd::utf8::encode_utf8(mode) + seq![0xffu8] + vstd::utf8::encode_utf8(trim(config.ssh_target@))
        + seq![0xffu8] + vstd::utf8::encode_utf8(trim(config.remote_herdr@)) + seq![0xffu8]
}

/// The key that names a connection's Ghostty window without revealing its details.
pub open spec fn connection_key(config: ConnectionConfig) -> u64 {
    fnv(FNV_OFFSET, connection_bytes(config))
}

/// A lowercase hexadecimal digit.
pub open spec fn hex_digit(d: u64) -> char {
    if d < 10 {
        (('0' as u64) + d) as char
    } else {
        (('a' as u64) + d - 10) as char
    }
}

/// The 16 lowercase hexadecimal digits of `key`, most significant first.
pub open spec fn hex16(key: u64) -> Seq<char> {
    Seq::new(16, |i: int| hex_digit((key >> ((60 - 4 * i) as u64)) & 0xf))
}

/// The title that marks a connection's Ghostty window.
pub open spec fn window_title_of(key: u64) -> Seq<char> {
    "Herdr Glance ["@ + hex16(key) + "]"@
}

/// Feeds `bytes` into `hash`.
fn fnv_feed(hash: u64, bytes: &[u8]) -> (r: u64)
    ensures
        r == fnv(hash, bytes@),
{
    let mut h = hash;
    for i in 0..bytes.len()
        invariant
            h == fnv(hash, bytes@.take(i as int)),
    {
        assert(bytes@.take(i + 1).drop_last() == bytes@.take(i as int));
        h = (h ^ (bytes[i] as u64)).wrapping_mul(FNV_PRIME);
    }
    assert(bytes@.take(bytes@.len() as int) == bytes@);
    h
}

proof fn lemma_fnv_append(hash: u64, a: Seq<u8>, b: Seq<u8>)
    ensures
        fnv(hash, a + b) == fnv(fnv(hash, a), b),
    decreases b.len(),
{
    if b.len() == 0 {
        assert(a + b == a);
    } else {
        lemma_fnv_append(hash, a, b.drop_last());
        assert((a + b).drop_last() == a + b.drop_last());
    }
}

/// Hashes a trimmed field followed by the `0xff` separator.
fn fnv_field(hash: u64, value: &str) -> (r: u64)
    ensures
        r == fnv(hash, vstd::utf8::encode_utf8(value@) + seq![0xffu8]),
{
    let bytes = value.as_bytes();
    let h = fnv_feed(hash, bytes);
    proof {
        lemma_fnv_append(hash, vstd::utf8::encode_utf8(value@), seq![0xffu8]);
        let sep = seq![0xffu8];
        assert(sep.drop_last() == Seq::<u8>::empty());
        assert(fnv(h, Seq::<u8>::empty()) == h);
        assert(fnv(h, sep) == fnv_step(h, 0xffu8));
        assert((0xffu8 as u64) == 0xffu64);
    }
    (h ^ 0xffu64).wrapping_mul(FNV_PRIME)
}

/// FNV-1a of the connection's mode, host and executable: a stable key for its
/// Ghostty window.
pub fn ghostty_connection_key(config: &ConnectionConfig) -> (r: u64)
    ensures
        r == connection_key(*config),
{
    let mode = if config.uses_ssh() {
        "ssh"
    } else {
        "local"
    };
    let target = string_from_chars(&trim_chars(&chars_of(config.ssh_target.as_str())));
    let binary = string_from_chars(&trim_chars(&chars_of(config.remote_herdr.as_str())));
    let h1 = fnv_field(FNV_OFFSET, mode);
    let h2 = fnv_field(h1, target.as_str());
    let h3 = fnv_field(h2, binary.as_str());
    proof {
        let m = vstd::utf8::encode_utf8(mode@) + seq![0xffu8];
        let t = vstd::utf8::encode_utf8(target@) + seq![0xffu8];
        let b = vstd::utf8::encode_utf8(binary@) + seq![0xffu8];
        lemma_fnv_append(FNV_OFFSET, m, t);
        lemma_fnv_append(FNV_OFFSET, m + t, b);
        assert(m + t + b == connection_bytes(*config));
    }
    h3
}

fn hex_char(d: u64) -> (c: char)
    requires
        d < 16,
    ensures
        c == hex_digit(d),
{
    if d < 10 {
        (('0' as u8) + (d as u8)) as char
    } else {
        (('a' as u8) + (d as u8) - 10) as char
    }
}

/// The title of a connection's Ghostty window: `Herdr Glance [` and the key in 16
/// lowercase hexadecimal digits, then `]`.
pub fn window_title(key: u64) -> (r: String)
    ensures
        r@ == window_title_of(key),
{
    let mut out: Vec<char> = Vec::new();
    push_str(&mut out, "Herdr Glance [");
    let ghost head = out@;
    for i in 0..16usize
        invariant
            out@ == head + hex16(key).take(i as int),
    {
        let shift: u64 = 60 - 4 * (i as u64);
        let d = (key >> shift) & 0xf;
        assert(((key >> shift) & 0xf) < 16) by (bit_vector);
        let c = hex_char(d);
        out.push(c);
        assert(hex16(key).take(i + 1) == hex16(key).take(i as int).push(hex16(key)[i as int]));
    }
    assert(hex16(key).take(16) == hex16(key));
    push_str(&mut out, "]");
    string_from_chars(&out)
}


/// The id of the terminal remembered for this connection, if any.
pub fn saved_terminal_id(saved: &Option<GhosttyTerminal>, connection_key: u64) -> (r: Option<String>)
    ensures
        match *saved {
            Some(t) => if t.connection_key == connection_key {
                r matches Some(id) && id@ == t.terminal_id@
            } else {
                r is None
            },
            None => r is None,
        },
{
    match saved {
        Some(terminal) => if terminal.connection_key == connection_key {
            Some(terminal.terminal_id.clone())
        } else {
            None
        },
        None => None,
    }
}

/// How the lookup of a connection's window in a current Ghostty answered.
#[derive(Debug, Clone)]
pub enum ModernGhosttyWindow {
    /// The window was found and its terminal, with this id, focused.
    Focused(String),
    /// Ghostty runs no such window.
    Missing,
    /// This Ghostty cannot be asked; the older lookup has to be tried.
    Unsupported,
}

pub open spec fn invalid_lookup_message() -> Seq<char> {
    "Ghostty returned an invalid window lookup result."@
}

pub open spec fn accessibility_message() -> Seq<char> {
    "Allow Herdr Glance to control Ghostty in System Settings > Privacy & Security > Accessibility, then try again."@
}

pub open spec fn focused_prefix() -> Seq<char> {
    "focused|"@
}

/// The part of `text` after `prefix`, when `text` starts with it.
pub open spec fn strip_prefix(text: Seq<char>, prefix: Seq<char>) -> Option<Seq<char>> {
    if prefix.len() <= text.len() && text.take(prefix.len() as int) == prefix {
        Some(text.skip(prefix.len() as int))
    } else {
        None
    }
}

/// The characters of `v` from position `n` on.
fn skip_chars(v: &Vec<char>, n: usize) -> (r: Vec<char>)
    requires
        n <= v@.len(),
    ensures
        r@ == v@.skip(n as int),
{
    let mut r: Vec<char> = Vec::new();
    let mut i: usize = n;
    while i < v.len()
        invariant
            n <= i <= v@.len(),
            r@ == v@.subrange(n as int, i as int),
        decreases v@.len() - i,
    {
        r.push(v[i]);
        assert(v@.subrange(n as int, i + 1) == v@.subrange(n as int, i as int).push(v@[i as int]));
        i = i + 1;
    }
    r
}

/// Reads the answer of the window lookup script: a failed run means the lookup is
/// unsupported; `missing`, or `focused|` and the terminal id, otherwise.
pub fn modern_window_result(success: bool, stdout: &[u8]) -> (res: Result<ModernGhosttyWindow, String>)
    ensures
        ({
            let text = trim(lossy_text(stdout@));
            if !success {
                res matches Ok(ModernGhosttyWindow::Unsupported)
            } else if text == "missing"@ {
                res matches Ok(ModernGhosttyWindow::Missing)
            } else {
                match strip_prefix(text, focused_prefix()) {
                    Some(id) => if id.len() > 0 {
                        res matches Ok(ModernGhosttyWindow::Focused(t)) && t@ == id
                    } else {
                        res matches Err(m) && m@ == invalid_lookup_message()
                    },
                    None => res matches Err(m) && m@ == invalid_lookup_message(),
                }
            }
        }),
{
    if !success {
        return Ok(ModernGhosttyWindow::Unsupported);
    }
    let text = trim_chars(&chars_of(utf8_lossy(stdout).as_str()));
    if chars_eq(&text, &chars_of("missing")) {
        return Ok(ModernGhosttyWindow::Missing);
    }
    let prefix = chars_of("focused|");
    if prefix.len() <= text.len() && crate::text::occurs_at(&text, &prefix, 0) {
        assert(text@.subrange(0, prefix@.len() as int) == text@.take(prefix@.len() as int));
        let id = skip_chars(&text, prefix.len());
        if id.len() > 0 {
            return Ok(ModernGhosttyWindow::Focused(string_from_chars(&id)));
        }
    } else {
        assert(prefix@.len() <= text@.len() ==> text@.subrange(0, prefix@.len() as int) == text@.take(
            prefix@.len() as int,
        ));
    }
    Err(String::from_str("Ghostty returned an invalid window lookup result."))
}

/// Reads the answer of the older, System Events lookup: whether the window was
/// raised; a failed run means Ghostty may not be controlled, with the error output
/// in parentheses when there is any.
pub fn legacy_window_result(success: bool, stdout: &[u8], stderr: &[u8]) -> (res: Result<bool, String>)
    ensures
        success ==> res == Ok::<bool, String>(trim(lossy_text(stdout@)) == "focused"@),
        !success ==> (res matches Err(m) && m@ == accessibility_message() + ({
            let detail = trim(lossy_text(stderr@));
            if detail.len() == 0 {
                Seq::empty()
            } else {
                " ("@ + detail + ")"@
            }
        })),
{
    if success {
        let text = trim_chars(&chars_of(utf8_lossy(stdout).as_str()));
        return Ok(chars_eq(&text, &chars_of("focused")));
    }
    let detail = trim_chars(&chars_of(utf8_lossy(stderr).as_str()));
    let mut out: Vec<char> = Vec::new();
    push_str(
        &mut out,
        "Allow Herdr Glance to control Ghostty in System Settings > Privacy & Security > Accessibility, then try again.",
    );
    if detail.len() > 0 {
        push_str(&mut out, " (");
        push_chars(&mut out, &detail);
        push_str(&mut out, ")");
    }
    Err(string_from_chars(&out))
}

/// The arguments of `open` that start a new Ghostty with this title running `command`.
pub fn ghostty_launch_arguments(command: &str, window_title: &str) -> (r: Vec<String>)
    ensures
        crate::herdr::strings_view(r@) == seq![
            "-na"@,
            "Ghostty.app"@,
            "--args"@,
            "--title="@ + window_title@,
            "-e"@,
            "/bin/sh"@,
            "-c"@,
            command@,
        ],
{
    let mut title: Vec<char> = Vec::new();
    push_str(&mut title, "--title=");
    push_str(&mut title, window_title);
    let mut r: Vec<String> = Vec::new();
    r.push(String::from_str("-na"));
    r.push(String::from_str("Ghostty.app"));
    r.push(String::from_str("--args"));
    r.push(string_from_chars(&title));
    r.push(String::from_str("-e"));
    r.push(String::from_str("/bin/sh"));
    r.push(String::from_str("-c"));
    r.push(String::from_str(command));
    assert(crate::herdr::strings_view(r@) =~= seq![
        "-na"@,
        "Ghostty.app"@,
        "--args"@,
        "--title="@ + window_title@,
        "-e"@,
        "/bin/sh"@,
        "-c"@,
        command@,
    ]);
    r
}

/// Reads the outcome of starting Ghostty: nothing on success, otherwise the error
/// output, or the exit status when there is none.
pub fn launch_result(success: bool, stderr: &[u8], status: &str) -> (res: Result<(), String>)
    ensures
        success ==> res is Ok,
        !success ==> (res matches Err(m) && m@ == ({
            let message = trim(lossy_text(stderr@));
            if message.len() == 0 {
                "Ghostty could not open Herdr ("@ + status@ + ")."@
            } else {
                "Ghostty could not open Herdr: "@ + message
            }
        })),
{
    if success {
        return Ok(());
    }
    let message = trim_chars(&chars_of(utf8_lossy(stderr).as_str()));
    let mut out: Vec<char> = Vec::new();
    if message.len() == 0 {
        push_str(&mut out, "Ghostty could not open Herdr (");
        push_str(&mut out, status);
        push_str(&mut out, ").");
    } else {
        push_str(&mut out, "Ghostty could not open Herdr: ");
        push_chars(&mut out, &message);
    }
    Err(string_from_chars(&out))
}

/// What happened last while opening an agent in Ghostty.
#[derive(Debug, Clone)]
pub enum GhosttyEvent {
    /// Nothing yet.
    Start,
    /// The current Ghostty answered the window lookup.
    ModernLookup(ModernGhosttyWindow),
    /// The older lookup answered whether it raised the window.
    LegacyLookup(bool),
    /// A new Ghostty session was started.
    Launched,
}

/// What to do next while opening an agent in Ghostty.
#[derive(Debug, Clone, Copy, PartialEq, Eq)]
pub enum GhosttyStep {
    LookUpModernWindow,
    LookUpLegacyWindow,
    LaunchSession,
    Finish(GhosttyAction),
}

/// The next step, and the terminal id to remember for the connection, if any.
#[derive(Debug, Clone)]
pub struct GhosttyDecision {
    pub step: GhosttyStep,
    pub remember: Option<String>,
}

/// Opening an agent: ask the current Ghostty first; a found window is focused and
/// its terminal remembered, a missing one is launched; when the current lookup is
/// unsupported, try the older lookup, and launch when it finds nothing.
pub fn next_ghostty_step(event: GhosttyEvent) -> (d: GhosttyDecision)
    ensures
        match event {
            GhosttyEvent::Start => d.step == GhosttyStep::LookUpModernWindow && d.remember is None,
            GhosttyEvent::ModernLookup(ModernGhosttyWindow::Focused(id)) => d.step == GhosttyStep::Finish(
                GhosttyAction::Focused,
            ) && d.remember == Some(id),
            GhosttyEvent::ModernLookup(ModernGhosttyWindow::Missing) => d.step
                == GhosttyStep::LaunchSession && d.remember is None,
            GhosttyEvent::ModernLookup(ModernGhosttyWindow::Unsupported) => d.step
                == GhosttyStep::LookUpLegacyWindow && d.remember is None,
            GhosttyEvent::LegacyLookup(found) => d.step == (if found {
                GhosttyStep::Finish(GhosttyAction::Focused)
            } else {
                GhosttyStep::LaunchSession
            }) && d.remember is None,
            GhosttyEvent::Launched => d.step == GhosttyStep::Finish(GhosttyAction::Opened)
                && d.remember is None,
        },
{
    match event {
        GhosttyEvent::Start => GhosttyDecision { step: GhosttyStep::LookUpModernWindow, remember: None },
        GhosttyEvent::ModernLookup(ModernGhosttyWindow::Focused(id)) => GhosttyDecision {
            step: GhosttyStep::Finish(GhosttyAction::Focused),
            remember: Some(id),
        },
        GhosttyEvent::ModernLookup(ModernGhosttyWindow::Missing) => GhosttyDecision {
            step: GhosttyStep::LaunchSession,
            remember: None,
        },
        GhosttyEvent::ModernLookup(ModernGhosttyWindow::Unsupported) => GhosttyDecision {
            step: GhosttyStep::LookUpLegacyWindow,
            remember: None,
        },
        GhosttyEvent::LegacyLookup(found) => GhosttyDecision {
            step: if found {
                GhosttyStep::Finish(GhosttyAction::Focused)
            } else {
                GhosttyStep::LaunchSession
            },
            remember: None,
        },
        GhosttyEvent::Launched => GhosttyDecision {
            step: GhosttyStep::Finish(GhosttyAction::Opened),
            remember: None,
        },
    }
}

}
