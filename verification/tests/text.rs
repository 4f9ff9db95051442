//! Numbers as text, and the settings of a connection.
use std::time::Duration;

use futures::channel::mpsc;
use nails::client::heartbeat_pause;
use nails::error::{Error, ErrorKind};
use nails::execution::{send_to_io, Command, BUF_COUNT};
use nails::text::decimal_text;
use nails::Config;

#[test]
fn decimal_forms() {
    for n in [0, 1, 9, 10, 99, 100, 12345, i64::MAX, -1, -10, i64::MIN] {
        assert_eq!(decimal_text(n), n.to_string());
    }
}

#[test]
fn settings() {
    let config = Config::default();
    assert!(!config.noisy_stdin);
    assert_eq!(config.heartbeat_frequency, None);
    let config = config.noisy_stdin(true).heartbeat_frequency(Duration::from_millis(500));
    assert!(config.noisy_stdin);
    assert_eq!(config.heartbeat_frequency, Some(Duration::from_millis(500)));
    let copy = config.clone().noisy_stdin(false);
    assert!(!copy.noisy_stdin);
    assert_eq!(copy.heartbeat_frequency, Some(Duration::from_millis(500)));
}

#[test]
fn heartbeats_come_four_times_as_often() {
    assert_eq!(heartbeat_pause(Duration::from_millis(100)), Duration::from_millis(25));
    assert_eq!(heartbeat_pause(Duration::from_secs(1)), Duration::from_millis(250));
    assert_eq!(heartbeat_pause(Duration::from_nanos(1_000_000_007)), Duration::from_nanos(250_000_001));
    assert_eq!(heartbeat_pause(Duration::from_nanos(3)), Duration::from_nanos(0));
    assert_eq!(heartbeat_pause(Duration::MAX).as_nanos(), Duration::MAX.as_nanos() / 4);
}

#[test]
fn failures_to_send_are_broken_pipes() {
    let (mut sender, receiver) = mpsc::channel::<u8>(0);
    sender.try_send(1).unwrap();
    let full = sender.try_send(2).unwrap_err().into_send_error();
    assert!(full.is_full());
    assert_eq!(
        send_to_io(full),
        Error {
            kind: ErrorKind::BrokenPipe,
            message: "Failed to send: SendError { kind: Full }".to_owned(),
        }
    );
    drop(receiver);
    let gone = sender.try_send(3).unwrap_err().into_send_error();
    assert!(gone.is_disconnected());
    assert_eq!(send_to_io(gone.clone()).message, format!("Failed to send: {:?}", gone));
    assert_eq!(
        send_to_io(gone).message,
        "Failed to send: SendError { kind: Disconnected }"
    );
}

#[test]
fn an_empty_command() {
    let command = Command::default();
    assert_eq!(command.command, "");
    assert!(command.args.is_empty() && command.env.is_empty() && command.working_dir.as_os_str().is_empty());
    assert_eq!(BUF_COUNT, 128);
}
