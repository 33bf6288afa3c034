use pym2::signals::{
    is_pid_alive, kill_signal_number, pid_as_i32, send_signal_to_group, signal_from_name,
    signal_name, stop_signal_number, SignalAnswer,
};

fn answer(rc: i32, errno: Option<i32>) -> SignalAnswer {
    SignalAnswer {
        rc,
        errno,
        message: "no".to_string(),
    }
}

#[test]
fn names_and_numbers() {
    let all = [
        ("SIGTERM", 15),
        ("SIGINT", 2),
        ("SIGQUIT", 3),
        ("SIGHUP", 1),
        ("SIGKILL", 9),
    ];
    for (name, number) in all {
        assert_eq!(signal_from_name(name), Some(number));
        assert_eq!(signal_name(number), name);
    }
    assert_eq!(signal_from_name("SIGSEGV"), None);
    assert_eq!(signal_name(11), "SIGSEGV");
    assert_eq!(signal_name(6), "SIGABRT");
    assert_eq!(signal_name(64), "SIG64");
    assert_eq!(stop_signal_number("SIGHUP"), 1);
    assert_eq!(stop_signal_number("whatever"), 15);
    assert_eq!(kill_signal_number(), 9);
}

#[test]
fn a_group_that_is_gone_needs_no_signal() {
    assert!(send_signal_to_group(&answer(0, None), 5, 15).is_ok());
    assert!(send_signal_to_group(&answer(-1, Some(3)), 5, 15).is_ok());
    assert_eq!(
        send_signal_to_group(&answer(-1, Some(1)), 5, 15).unwrap_err().to_string(),
        "supervisor error: failed to send signal 15 to pgid 5: no"
    );
}

#[test]
fn processes_that_are_alive() {
    assert!(is_pid_alive(0, None));
    assert!(is_pid_alive(-1, Some(1)));
    assert!(!is_pid_alive(-1, Some(3)));
    assert_eq!(pid_as_i32(7), 7);
    assert_eq!(pid_as_i32(u32::MAX), -1);
}
