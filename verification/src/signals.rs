//! Signals by name and number, and what came of sending one. The numbers are
//! those of Linux, as `libc` has them.

use crate::error::{outcome, ErrorView, PyopsError};
use crate::text::{cat2, cat5, decimal_int, i32_text, same};
use vstd::prelude::*;

verus! {

/// `libc::SIGTERM`, the number of the signal that asks a process to end.
#[verifier::external_body]
fn sigterm() -> (r: i32)
    ensures
        r == 15,
{
    libc::SIGTERM
}

/// `libc::SIGINT`, the number of the interrupt signal.
#[verifier::external_body]
fn sigint() -> (r: i32)
    ensures
        r == 2,
{
    libc::SIGINT
}

/// `libc::SIGQUIT`, the number of the quit signal.
#[verifier::external_body]
fn sigquit() -> (r: i32)
    ensures
        r == 3,
{
    libc::SIGQUIT
}

/// `libc::SIGHUP`, the number of the hangup signal.
#[verifier::external_body]
fn sighup() -> (r: i32)
    ensures
        r == 1,
{
    libc::SIGHUP
}

/// `libc::SIGKILL`, the number of the signal that ends a process at once.
#[verifier::external_body]
fn sigkill() -> (r: i32)
    ensures
        r == 9,
{
    libc::SIGKILL
}

/// `libc::SIGSEGV`, the number of the segmentation fault signal.
#[verifier::external_body]
fn sigsegv() -> (r: i32)
    ensures
        r == 11,
{
    libc::SIGSEGV
}

/// `libc::SIGABRT`, the number of the abort signal.
#[verifier::external_body]
fn sigabrt() -> (r: i32)
    ensures
        r == 6,
{
    libc::SIGABRT
}

/// `libc::ESRCH`, the error number for a process that does not exist.
#[verifier::external_body]
fn esrch() -> (r: i32)
    ensures
        r == 3,
{
    libc::ESRCH
}

/// `libc::EPERM`, the error number for an operation that is not permitted.
#[verifier::external_body]
fn eperm() -> (r: i32)
    ensures
        r == 1,
{
    libc::EPERM
}

/// The number of the stop signal `name`.
pub open spec fn signal_number(name: Seq<char>) -> Option<i32> {
    if name == "SIGTERM"@ {
        Some(15)
    } else if name == "SIGINT"@ {
        Some(2)
    } else if name == "SIGQUIT"@ {
        Some(3)
    } else if name == "SIGHUP"@ {
        Some(1)
    } else if name == "SIGKILL"@ {
        Some(9)
    } else {
        None
    }
}

/// The name of signal `sig`.
pub open spec fn signal_label(sig: i32) -> Seq<char> {
    if sig == 15 {
        "SIGTERM"@
    } else if sig == 2 {
        "SIGINT"@
    } else if sig == 3 {
        "SIGQUIT"@
    } else if sig == 1 {
        "SIGHUP"@
    } else if sig == 9 {
        "SIGKILL"@
    } else if sig == 11 {
        "SIGSEGV"@
    } else if sig == 6 {
        "SIGABRT"@
    } else {
        "SIG"@ + decimal_int(sig as int)
    }
}

/// The number of the stop signal `name`.
pub fn signal_from_name(name: &str) -> (r: Option<i32>)
    ensures
        r == signal_number(name@),
{
    if same(name, "SIGTERM") {
        Some(sigterm())
    } else if same(name, "SIGINT") {
        Some(sigint())
    } else if same(name, "SIGQUIT") {
        Some(sigquit())
    } else if same(name, "SIGHUP") {
        Some(sighup())
    } else if same(name, "SIGKILL") {
        Some(sigkill())
    } else {
        None
    }
}

/// The name of signal `sig`.
pub fn signal_name(sig: i32) -> (r: String)
    ensures
        r@ == signal_label(sig),
{
    if sig == sigterm() {
        "SIGTERM".to_string()
    } else if sig == sigint() {
        "SIGINT".to_string()
    } else if sig == sigquit() {
        "SIGQUIT".to_string()
    } else if sig == sighup() {
        "SIGHUP".to_string()
    } else if sig == sigkill() {
        "SIGKILL".to_string()
    } else if sig == sigsegv() {
        "SIGSEGV".to_string()
    } else if sig == sigabrt() {
        "SIGABRT".to_string()
    } else {
        let number = i32_text(sig);
        cat2("SIG", number.as_str())
    }
}

/// The signal that stops an app whose stop signal is `name`; an unknown name
/// stands for `SIGTERM`.
pub open spec fn stop_signal(name: Seq<char>) -> i32 {
    match signal_number(name) {
        Some(sig) => sig,
        None => 15,
    }
}

/// The signal that stops an app whose stop signal is `name`.
pub fn stop_signal_number(name: &str) -> (r: i32)
    ensures
        r == stop_signal(name@),
{
    match signal_from_name(name) {
        Some(sig) => sig,
        None => sigterm(),
    }
}

/// The number of the signal that no process can ignore.
pub fn kill_signal_number() -> (r: i32)
    ensures
        r == 9,
{
    sigkill()
}

/// Every signal that has a name to stop apps by is shown under that name.
pub proof fn law_stop_signals_keep_their_names(name: Seq<char>)
    requires
        signal_number(name) is Some,
    ensures
        signal_label(signal_number(name)->0) == name,
{
}

/// What the system answered to a signal: the return code, the error number and
/// how it words the error.
pub struct SignalAnswer {
    pub rc: i32,
    pub errno: Option<i32>,
    pub message: String,
}

pub struct SignalAnswerView {
    pub rc: i32,
    pub errno: Option<i32>,
    pub message: Seq<char>,
}

impl View for SignalAnswer {
    type V = SignalAnswerView;

    open spec fn view(&self) -> SignalAnswerView {
        SignalAnswerView { rc: self.rc, errno: self.errno, message: self.message@ }
    }
}

/// A process id as a signed number, the way the system takes it.
pub open spec fn signed_pid(pid: u32) -> int {
    if pid <= i32::MAX {
        pid as int
    } else {
        pid - 0x1_0000_0000
    }
}

/// A process id as a signed number, the way the system takes it.
pub fn pid_as_i32(pid: u32) -> (r: i32)
    ensures
        r == signed_pid(pid),
{
    if pid <= 0x7fff_ffff {
        pid as i32
    } else {
        (pid as i64 - 0x1_0000_0000) as i32
    }
}

/// Whether a signal to the process group of `pid` counts as sent: a group that
/// is gone needs none.
pub open spec fn sent(answer: SignalAnswerView, pid: u32, signal: i32) -> Result<(), ErrorView> {
    if answer.rc != -1 || answer.errno == Some(3i32) {
        Ok(())
    } else {
        Err(
            ErrorView::Supervisor(
                "failed to send signal "@ + decimal_int(signal as int) + " to pgid "@
                    + decimal_int(signed_pid(pid)) + (": "@ + answer.message),
            ),
        )
    }
}

/// Whether a signal to the process group of `pid` counts as sent.
pub fn send_signal_to_group(answer: &SignalAnswer, pid: u32, signal: i32) -> (r: Result<
    (),
    PyopsError,
>)
    ensures
        outcome(r) == sent(answer@, pid, signal),
{
    if answer.rc == -1 {
        if answer.errno == Some(esrch()) {
            return Ok(());
        }
        let number = i32_text(signal);
        let group = i32_text(pid_as_i32(pid));
        let reason = cat2(": ", answer.message.as_str());
        return Err(
            PyopsError::Supervisor(
                cat5(
                    "failed to send signal ",
                    number.as_str(),
                    " to pgid ",
                    group.as_str(),
                    reason.as_str(),
                ),
            ),
        );
    }
    Ok(())
}

/// Whether the answer to the null signal shows that the process exists: a
/// process that may not be signalled does.
pub open spec fn alive(rc: i32, errno: Option<i32>) -> bool {
    rc == 0 || errno == Some(1i32)
}

/// Whether the answer to the null signal shows that the process exists.
pub fn is_pid_alive(rc: i32, errno: Option<i32>) -> (r: bool)
    ensures
        r == alive(rc, errno),
{
    if rc == 0 {
        return true;
    }
    errno == Some(eperm())
}

/// The names by which apps can be stopped stand for the numbers that the system
/// gives these signals; any other name stands for the first of them.
pub proof fn law_stop_signals_have_their_numbers(name: Seq<char>)
    ensures
        stop_signal("SIGTERM"@) == 15,
        stop_signal("SIGINT"@) == 2,
        stop_signal("SIGQUIT"@) == 3,
        stop_signal("SIGHUP"@) == 1,
        stop_signal("SIGKILL"@) == 9,
        name != "SIGINT"@ && name != "SIGQUIT"@ && name != "SIGHUP"@ && name != "SIGKILL"@
            ==> stop_signal(name) == 15,
        signal_number(name) is Some <==> name == "SIGTERM"@ || name == "SIGINT"@ || name
            == "SIGQUIT"@ || name == "SIGHUP"@ || name == "SIGKILL"@,
{
    lemma_names_differ();
}

proof fn lemma_names_differ()
    ensures
        "SIGINT"@ != "SIGTERM"@ && "SIGQUIT"@ != "SIGTERM"@ && "SIGHUP"@ != "SIGTERM"@
            && "SIGKILL"@ != "SIGTERM"@,
        "SIGQUIT"@ != "SIGINT"@ && "SIGHUP"@ != "SIGINT"@ && "SIGKILL"@ != "SIGINT"@,
        "SIGHUP"@ != "SIGQUIT"@ && "SIGKILL"@ != "SIGQUIT"@ && "SIGKILL"@ != "SIGHUP"@,
        "SIGSEGV"@ != "SIGABRT"@,
{
    reveal_strlit("SIGTERM");
    reveal_strlit("SIGINT");
    reveal_strlit("SIGQUIT");
    reveal_strlit("SIGHUP");
    reveal_strlit("SIGKILL");
    reveal_strlit("SIGSEGV");
    reveal_strlit("SIGABRT");
    assert("SIGTERM"@[3] == 'T' && "SIGINT"@[3] == 'I' && "SIGQUIT"@[3] == 'Q' && "SIGHUP"@[3]
        == 'H' && "SIGKILL"@[3] == 'K' && "SIGSEGV"@[3] == 'S' && "SIGABRT"@[3] == 'A');
}

/// The signals that end processes are shown by their names, and any other by its
/// number.
pub proof fn law_signals_are_named(sig: i32)
    ensures
        signal_label(15) == "SIGTERM"@ && signal_label(9) == "SIGKILL"@ && signal_label(2)
            == "SIGINT"@ && signal_label(3) == "SIGQUIT"@ && signal_label(1) == "SIGHUP"@,
        signal_label(11) == "SIGSEGV"@ && signal_label(6) == "SIGABRT"@,
        sig != 15 && sig != 9 && sig != 2 && sig != 3 && sig != 1 && sig != 11 && sig != 6
            ==> signal_label(sig) == "SIG"@ + decimal_int(sig as int),
{
}

/// A signal counts as sent if the system took it, or if there is no one left to
/// take it; else it fails with what the system said. A process is alive if the
/// system lets it be signalled, or says that it may not be.
pub proof fn law_answers_of_the_system(answer: SignalAnswerView, pid: u32, signal: i32)
    ensures
        sent(answer, pid, signal) is Ok <==> answer.rc != -1 || answer.errno == Some(3i32),
        sent(answer, pid, signal) matches Err(e) ==> e == ErrorView::Supervisor(
            "failed to send signal "@ + decimal_int(signal as int) + " to pgid "@ + decimal_int(
                signed_pid(pid),
            ) + (": "@ + answer.message),
        ),
        forall|rc: i32, errno: Option<i32>|
            #[trigger] alive(rc, errno) <==> rc == 0 || errno == Some(1i32),
        pid <= i32::MAX ==> signed_pid(pid) == pid,
        pid > i32::MAX ==> signed_pid(pid) == pid - u32::MAX - 1,
{
}

} // verus!
