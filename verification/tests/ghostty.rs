use herdr_glance_core::config::ConnectionConfig;
use herdr_glance_core::ghostty::{
    ghostty_connection_key, ghostty_launch_arguments, launch_result, legacy_window_result,
    modern_window_result, next_ghostty_step, saved_terminal_id, window_title, GhosttyAction,
    GhosttyEvent, GhosttyStep, GhosttyTerminal, ModernGhosttyWindow,
};

fn fnv_reference(fields: &[&str]) -> u64 {
    let mut hash = 0xcbf29ce484222325_u64;
    for field in fields {
        for byte in field.bytes().chain(std::iter::once(0xff)) {
            hash ^= u64::from(byte);
            hash = hash.wrapping_mul(0x100000001b3);
        }
    }
    hash
}

#[test]
fn connection_key_hashes_mode_host_and_executable() {
    let remote = ConnectionConfig {
        ssh_target: " devbox ".to_string(),
        remote_herdr: "/home/me/herdr\n".to_string(),
    };
    assert_eq!(ghostty_connection_key(&remote), fnv_reference(&["ssh", "devbox", "/home/me/herdr"]));
    let local = ConnectionConfig::default();
    assert_eq!(ghostty_connection_key(&local), fnv_reference(&["local", "", "herdr"]));
    assert_ne!(ghostty_connection_key(&remote), ghostty_connection_key(&local));
    let unicode = ConnectionConfig { ssh_target: "hôte".to_string(), remote_herdr: "h".to_string() };
    assert_eq!(ghostty_connection_key(&unicode), fnv_reference(&["ssh", "hôte", "h"]));
}

#[test]
fn window_title_holds_sixteen_hex_digits() {
    assert_eq!(window_title(0), "Herdr Glance [0000000000000000]");
    assert_eq!(window_title(0xdeadbeef), "Herdr Glance [00000000deadbeef]");
    assert_eq!(window_title(u64::MAX), "Herdr Glance [ffffffffffffffff]");
    let key = 0x0123456789abcdef_u64;
    assert_eq!(window_title(key), format!("Herdr Glance [{key:016x}]"));
}

#[test]
fn remembers_terminal_per_connection() {
    let saved = Some(GhosttyTerminal { connection_key: 7, terminal_id: "T-1".to_string() });
    assert_eq!(saved_terminal_id(&saved, 7), Some("T-1".to_string()));
    assert_eq!(saved_terminal_id(&saved, 8), None);
    assert_eq!(saved_terminal_id(&None, 7), None);
}

#[test]
fn reads_modern_window_lookup() {
    assert!(matches!(modern_window_result(false, b"focused|x"), Ok(ModernGhosttyWindow::Unsupported)));
    assert!(matches!(modern_window_result(true, b" missing\n"), Ok(ModernGhosttyWindow::Missing)));
    match modern_window_result(true, b"focused|ABC-1\n") {
        Ok(ModernGhosttyWindow::Focused(id)) => assert_eq!(id, "ABC-1"),
        other => panic!("unexpected {other:?}"),
    }
    for bad in [&b"focused|"[..], b"focused", b"surprise", b""] {
        assert_eq!(
            modern_window_result(true, bad).unwrap_err(),
            "Ghostty returned an invalid window lookup result."
        );
    }
}

#[test]
fn reads_legacy_window_lookup() {
    assert_eq!(legacy_window_result(true, b"focused\n", b""), Ok(true));
    assert_eq!(legacy_window_result(true, b"missing", b""), Ok(false));
    assert_eq!(
        legacy_window_result(false, b"", b"  "),
        Err("Allow Herdr Glance to control Ghostty in System Settings > Privacy & Security > Accessibility, then try again.".to_string())
    );
    assert_eq!(
        legacy_window_result(false, b"", b" not allowed\n"),
        Err("Allow Herdr Glance to control Ghostty in System Settings > Privacy & Security > Accessibility, then try again. (not allowed)".to_string())
    );
}

#[test]
fn builds_launch_arguments() {
    assert_eq!(
        ghostty_launch_arguments("herdr agent attach p --takeover", "Herdr Glance [00]"),
        vec![
            "-na",
            "Ghostty.app",
            "--args",
            "--title=Herdr Glance [00]",
            "-e",
            "/bin/sh",
            "-c",
            "herdr agent attach p --takeover",
        ]
    );
}

#[test]
fn reads_launch_outcome() {
    assert_eq!(launch_result(true, b"noise", "0"), Ok(()));
    assert_eq!(
        launch_result(false, b"", "exit status: 1"),
        Err("Ghostty could not open Herdr (exit status: 1).".to_string())
    );
    assert_eq!(
        launch_result(false, b" no app \n", "exit status: 1"),
        Err("Ghostty could not open Herdr: no app".to_string())
    );
}

fn step(event: GhosttyEvent) -> (GhosttyStep, Option<String>) {
    let decision = next_ghostty_step(event);
    (decision.step, decision.remember)
}

#[test]
fn opening_follows_lookups_and_launch() {
    assert_eq!(step(GhosttyEvent::Start), (GhosttyStep::LookUpModernWindow, None));
    assert_eq!(
        step(GhosttyEvent::ModernLookup(ModernGhosttyWindow::Focused("T".to_string()))),
        (GhosttyStep::Finish(GhosttyAction::Focused), Some("T".to_string()))
    );
    assert_eq!(
        step(GhosttyEvent::ModernLookup(ModernGhosttyWindow::Missing)),
        (GhosttyStep::LaunchSession, None)
    );
    assert_eq!(
        step(GhosttyEvent::ModernLookup(ModernGhosttyWindow::Unsupported)),
        (GhosttyStep::LookUpLegacyWindow, None)
    );
    assert_eq!(step(GhosttyEvent::LegacyLookup(true)), (GhosttyStep::Finish(GhosttyAction::Focused), None));
    assert_eq!(step(GhosttyEvent::LegacyLookup(false)), (GhosttyStep::LaunchSession, None));
    assert_eq!(step(GhosttyEvent::Launched), (GhosttyStep::Finish(GhosttyAction::Opened), None));
}
