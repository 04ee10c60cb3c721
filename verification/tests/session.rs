use plc_control::changed::CValue;
use plc_control::config::{DataBits, Parity, Preferences, StopBits};
use plc_control::error::PlcError;
use plc_control::link::{received, sent, Link};
use plc_control::session::{is_listed, Mode, Presence, SessionState, Toggle};

fn ports(names: &[&str]) -> Vec<String> {
    names.iter().map(|name| name.to_string()).collect()
}

fn connected_to(port: &str) -> SessionState {
    let mut state = SessionState::new();
    assert!(state.select(port));
    assert_eq!(state.toggle(), Toggle::Open);
    assert_eq!(state.complete_open(Ok(())), Ok(()));
    state
}

#[test]
fn state_starts_disconnected_without_selection() {
    let state = SessionState::new();
    assert_eq!(state.mode(), Mode::Disconnected);
    assert!(!state.is_connected());
    assert_eq!(state.selected(), "");
    assert_eq!(state.toggle(), Toggle::NothingSelected);
}

#[test]
fn watcher_ends_the_session_when_the_port_vanishes() {
    let mut state = SessionState::new();
    assert_eq!(state.reconcile(&ports(&["COM1", "COM3"])), Presence::Selected);
    assert!(state.select("COM3"));
    assert_eq!(state.complete_open(Ok(())), Ok(()));
    assert_eq!(state.reconcile(&ports(&["COM1", "COM3"])), Presence::Unchanged);
    assert_eq!(state.mode(), Mode::Connected);
    assert_eq!(state.selected(), "COM3");

    assert_eq!(state.reconcile(&ports(&["COM1"])), Presence::Vanished);
    assert_eq!(state.selected(), "");
    assert_eq!(state.mode(), Mode::Disconnected);
}

#[test]
fn watcher_selects_the_first_port_without_connecting() {
    let mut state = SessionState::new();
    assert_eq!(state.reconcile(&ports(&["COM5"])), Presence::Selected);
    assert_eq!(state.selected(), "COM5");
    assert_eq!(state.mode(), Mode::Disconnected);

    let mut other = SessionState::new();
    assert_eq!(other.reconcile(&ports(&["COM7", "COM2"])), Presence::Selected);
    assert_eq!(other.selected(), "COM7");
    assert!(!other.is_connected());
}

#[test]
fn watcher_changes_nothing_otherwise() {
    let mut state = SessionState::new();
    assert_eq!(state.reconcile(&ports(&[])), Presence::Unchanged);
    assert_eq!(state.selected(), "");

    assert!(state.select("COM3"));
    assert_eq!(state.reconcile(&ports(&["COM1", "COM3"])), Presence::Unchanged);
    assert_eq!(state.selected(), "COM3");
    assert_eq!(state.mode(), Mode::Disconnected);

    // A selection that vanishes while disconnected is cleared as well; the
    // next round selects anew.
    assert_eq!(state.reconcile(&ports(&["COM1"])), Presence::Vanished);
    assert_eq!(state.selected(), "");
    assert_eq!(state.reconcile(&ports(&["COM1"])), Presence::Selected);
    assert_eq!(state.selected(), "COM1");
}

#[test]
fn watcher_passes_over_a_failed_listing() {
    let mut state = connected_to("COM3");
    let failed: Result<Vec<String>, PlcError> = Err(PlcError::Connect("no driver".to_string()));
    assert_eq!(state.watch(&failed), Presence::Skipped);
    assert_eq!(state.mode(), Mode::Connected);
    assert_eq!(state.selected(), "COM3");

    assert_eq!(state.watch(&Ok(ports(&["COM3"]))), Presence::Unchanged);
    assert_eq!(state.watch(&Ok(ports(&[]))), Presence::Vanished);
    assert_eq!(state.mode(), Mode::Disconnected);
    assert_eq!(state.selected(), "");
}

#[test]
fn listed_ports_are_found_by_name() {
    let list = ports(&["COM1", "COM3"]);
    assert!(is_listed(&list, &"COM1".to_string()));
    assert!(is_listed(&list, &"COM3".to_string()));
    assert!(!is_listed(&list, &"COM".to_string()));
    assert!(!is_listed(&list, &"com1".to_string()));
    assert!(!is_listed(&ports(&[]), &"COM1".to_string()));
}

#[test]
fn selection_is_fixed_while_connected() {
    let mut state = connected_to("COM3");
    assert!(!state.select("COM4"));
    assert_eq!(state.selected(), "COM3");
    assert_eq!(state.toggle(), Toggle::Close);
    state.disconnect();
    assert_eq!(state.mode(), Mode::Disconnected);
    assert_eq!(state.selected(), "COM3");
    assert!(state.select("COM4"));
    assert_eq!(state.selected(), "COM4");
    assert!(state.select(""));
    assert_eq!(state.toggle(), Toggle::NothingSelected);
}

#[test]
fn failed_open_gives_a_connect_error_and_no_session() {
    let mut state = SessionState::new();
    assert!(state.select("COM9"));
    assert_eq!(
        state.complete_open(Err("port not found".to_string())),
        Err(PlcError::Connect("port not found".to_string()))
    );
    assert_eq!(state.mode(), Mode::Disconnected);
    assert_eq!(state.selected(), "COM9");

    let mut link: Link<u32> = Link::new();
    assert_eq!(
        link.open(&mut state, Err("port not found".to_string())),
        Err(PlcError::Connect("port not found".to_string()))
    );
    assert!(!link.is_open());
    assert!(!state.is_connected());
    assert!(link.port(&state).is_none());
}

#[test]
fn opening_a_missing_port_produces_no_session() {
    let mut state = SessionState::new();
    assert!(state.select("/dev/no-such-serial-port"));
    let attempt = serialport::new(state.selected(), 115200)
        .open()
        .map_err(|failure| failure.to_string());
    assert!(attempt.is_err());
    let mut link = Link::new();
    let result = link.open(&mut state, attempt);
    assert!(matches!(result, Err(PlcError::Connect(_))));
    assert!(!link.is_open());
    assert_eq!(state.mode(), Mode::Disconnected);
}

#[test]
fn link_holds_the_handle_while_connected() {
    let mut state = SessionState::new();
    let mut link: Link<Vec<u8>> = Link::new();
    assert!(!link.is_open());
    assert!(link.port(&state).is_none());

    assert!(state.select("COM3"));
    assert_eq!(link.open(&mut state, Ok(vec![1])), Ok(()));
    assert!(link.is_open());
    assert!(state.is_connected());
    link.port(&state).unwrap().push(2);
    assert_eq!(link.port(&state), Some(&mut vec![1, 2]));

    link.close(&mut state);
    assert!(!link.is_open());
    assert!(!state.is_connected());
    assert_eq!(state.selected(), "COM3");
    assert!(link.port(&state).is_none());
}

#[test]
fn link_lets_go_after_the_watcher_ended_the_session() {
    let mut state = SessionState::new();
    let mut link: Link<u8> = Link::new();
    assert!(state.select("COM3"));
    assert_eq!(link.open(&mut state, Ok(7)), Ok(()));
    assert!(!link.sync(&mut state));
    assert!(link.is_open());

    assert_eq!(state.reconcile(&ports(&["COM1"])), Presence::Vanished);
    // The handle is still held, but it is no longer lent.
    assert!(link.is_open());
    assert!(link.port(&state).is_none());
    assert!(!state.may_send("01"));

    assert!(link.sync(&mut state));
    assert!(!link.is_open());
    assert!(!link.sync(&mut state));
    assert!(!state.is_connected());
}

#[test]
fn link_repairs_a_session_without_handle() {
    let mut state = connected_to("COM3");
    let mut link: Link<u8> = Link::new();
    assert!(!link.sync(&mut state));
    assert!(!state.is_connected());
    assert_eq!(state.selected(), "COM3");
}

#[test]
fn reopening_replaces_a_stale_handle() {
    let mut state = SessionState::new();
    let mut link: Link<u8> = Link::new();
    assert!(state.select("COM3"));
    assert_eq!(link.open(&mut state, Ok(1)), Ok(()));
    assert_eq!(state.reconcile(&ports(&["COM4"])), Presence::Vanished);
    assert_eq!(state.reconcile(&ports(&["COM4"])), Presence::Selected);
    assert_eq!(state.toggle(), Toggle::Open);
    assert_eq!(link.open(&mut state, Ok(2)), Ok(()));
    assert_eq!(link.port(&state), Some(&mut 2));
    assert_eq!(state.selected(), "COM4");
}

#[test]
fn commands_go_out_only_on_an_open_session() {
    let idle = SessionState::new();
    assert!(!idle.may_send("01"));
    assert!(!idle.may_send(""));

    let mut state = connected_to("COM3");
    assert!(state.may_send("01"));
    assert!(state.may_send("zz"));
    assert!(!state.may_send(""));
    state.disconnect();
    assert!(!state.may_send("01"));
}

#[test]
fn partial_read_is_a_success() {
    assert_eq!(
        received(vec![0x10, 0x20, 0x30], Some("stream closed".to_string())),
        Ok(vec![0x10, 0x20, 0x30])
    );
    assert_eq!(received(vec![0x10], None), Ok(vec![0x10]));
    assert_eq!(received(vec![], None), Ok(vec![]));
}

#[test]
fn empty_read_with_an_error_is_a_failure() {
    assert_eq!(
        received(vec![], Some("Operation timed out".to_string())),
        Err(PlcError::IO("Operation timed out".to_string()))
    );
}

#[test]
fn incomplete_write_is_a_failure() {
    assert_eq!(sent(Ok(())), Ok(()));
    assert_eq!(
        sent(Err("failed to write whole buffer".to_string())),
        Err(PlcError::IO("failed to write whole buffer".to_string()))
    );
}

#[test]
fn changed_flag_is_consumed_once() {
    let mut lines: CValue<Vec<String>> = CValue::new(Vec::new());
    assert!(!lines.is_changed());
    assert!(lines.get().is_empty());

    lines.change().push("first".to_string());
    assert_eq!(lines.get().len(), 1);
    assert!(lines.is_changed());
    assert!(!lines.is_changed());
    assert_eq!(lines.get()[0], "first");

    // Reading does not raise the flag; lending for change does, even if
    // nothing is written.
    let _ = lines.get();
    assert!(!lines.is_changed());
    let _ = lines.change();
    assert!(lines.is_changed());

    lines.set(vec!["a".to_string(), "b".to_string()]);
    lines.change().push("c".to_string());
    assert!(lines.is_changed());
    assert!(!lines.is_changed());
    assert_eq!(lines.get().len(), 3);
}

#[test]
fn preferences_have_the_usual_values() {
    let preferences = Preferences::new(250);
    assert_eq!(preferences.baud_rate, 115200);
    assert_eq!(preferences.data_bits, DataBits::Eight);
    assert_eq!(preferences.parity, Parity::Odd);
    assert_eq!(preferences.stop_bits, StopBits::One);
    assert_eq!(preferences.timeout, 250);
    assert!(preferences.is_valid());

    let mut silent = preferences;
    silent.baud_rate = 0;
    assert!(!silent.is_valid());
}
