//! What a launch decides.

use signage_desktop::cli::Provisioning;
use signage_desktop::launch::{autostart, provisioning_of, refuses_close, Autostart};

#[test]
fn the_program_itself_is_no_argument() {
    let out = provisioning_of(&["--server", "--store", "710"]);
    assert_eq!(
        out,
        Provisioning {
            store: Some("710".into()),
            ..Provisioning::default()
        }
    );
    assert!(provisioning_of(&["--server=x"]).is_empty());
    assert!(provisioning_of(&[]).is_empty());
}

#[test]
fn a_kiosk_window_refuses_to_close() {
    assert!(refuses_close(false));
    assert!(!refuses_close(true));
}

#[test]
fn a_store_screen_registers_for_autostart_once() {
    assert_eq!(autostart(false, Some(false)), Autostart::Register);
    assert_eq!(autostart(false, Some(true)), Autostart::AlreadyRegistered);
    assert_eq!(autostart(false, None), Autostart::Unknown);
    assert_eq!(autostart(true, Some(false)), Autostart::Skip);
    assert_eq!(autostart(true, None), Autostart::Skip);
}
