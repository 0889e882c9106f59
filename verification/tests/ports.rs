use mixxx_midi_clock::ports::{
    auto_discover_input, auto_discover_output, find_input_port, find_output_port, first_port_containing,
    str_contains,
};

fn names(v: &[Option<&str>]) -> Vec<Option<String>> {
    v.iter().map(|n| n.map(|s| s.to_string())).collect()
}

#[test]
fn substring_search() {
    assert!(str_contains("Circuit Rhythm MIDI 1", "Rhythm"));
    assert!(str_contains("abc", ""));
    assert!(str_contains("abc", "abc"));
    assert!(!str_contains("abc", "abcd"));
    assert!(!str_contains("abc", "ac"));
    assert!(str_contains("äöü", "öü"));
}

#[test]
fn find_port_ignores_case_and_unreadable_names() {
    let ports = names(&[Some("Midi Through:0"), None, Some("MIXXX_MIDI_CLOCK 1"), Some("mixxx_midi_clock 2")]);
    assert_eq!(find_input_port(&ports, "Mixxx"), Some(2));
    assert_eq!(find_output_port(&ports, "through"), Some(0));
    assert_eq!(find_input_port(&ports, "nothing"), None);
    assert_eq!(find_input_port(&ports, ""), Some(0));
    assert_eq!(find_input_port(&names(&[None, None]), ""), None);
    assert_eq!(find_input_port(&names(&[Some("ÄRGER")]), "ärg"), Some(0));
}

#[test]
fn first_port_containing_is_case_sensitive() {
    let ports = names(&[Some("ABC"), Some("abc")]);
    assert_eq!(first_port_containing(&ports, "abc"), Some(1));
    assert_eq!(first_port_containing(&ports, "x"), None);
}

#[test]
fn auto_discovery() {
    let ports = names(&[Some("Midi Through"), Some("mixxx_midi_clock:out 128:0")]);
    assert_eq!(auto_discover_input(&ports), Some(1));
    assert_eq!(auto_discover_input(&names(&[Some("Midi Through")])), None);

    // the Focusrite-Novation name is preferred to a Circuit Rhythm one that comes earlier
    let ports = names(&[Some("Circuit Rhythm MIDI 1"), Some("focusrite-novation circuit rhythm")]);
    assert_eq!(auto_discover_output(&ports), Some(1));
    let ports = names(&[Some("Midi Through"), Some("CIRCUIT RHYTHM")]);
    assert_eq!(auto_discover_output(&ports), Some(1));
    assert_eq!(auto_discover_output(&names(&[Some("Midi Through"), None])), None);
}

#[test]
fn find_port_by_index() {
    let ports = names(&[Some("Midi Through Port-0"), Some("mixxx_midi_clock out")]);
    assert_eq!(find_input_port(&ports, "1"), Some(1));
    assert_eq!(find_input_port(&ports, "0"), Some(0));
    assert_eq!(find_output_port(&ports, "01"), Some(1));
    // an index past the last port falls back to matching names
    assert_eq!(find_input_port(&ports, "2"), None);
    assert_eq!(find_input_port(&ports, "99999999999999999999999999"), None);
    let ports = names(&[Some("Port 5"), Some("Port 7")]);
    assert_eq!(find_output_port(&ports, "7"), Some(1));
    // a port whose name cannot be read can still be chosen by index
    let ports = names(&[None, Some("synth")]);
    assert_eq!(find_input_port(&ports, "0"), Some(0));
    // not all digits: a name
    assert_eq!(find_input_port(&names(&[Some("a"), Some("port 1a")]), "1a"), Some(1));
}
