use assist::hotkey::{hook_message_pump_sleep_timeout, hotkey_shutdown_poll_timeout};

#[test]
fn hotkey_shutdown_poll_timeout_is_bounded() {
    let timeout = std::time::Duration::from_nanos(hotkey_shutdown_poll_timeout());
    assert!(timeout > std::time::Duration::ZERO);
    assert!(timeout <= std::time::Duration::from_millis(100));
}

#[test]
fn low_level_hook_message_pump_does_not_poll_sleep() {
    assert_eq!(
        std::time::Duration::from_nanos(hook_message_pump_sleep_timeout()),
        std::time::Duration::ZERO
    );
}
