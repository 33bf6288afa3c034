use pym2::error::{IoFailure, IoKind};
use pym2::ipc::{
    part, read_line_json, stream_item, stream_step, write_line_json, Exchange, IpcClient,
    LineRead, StreamStep, WireResponse,
};

fn failure(kind: IoKind) -> IoFailure {
    IoFailure {
        kind,
        message: "m".to_string(),
    }
}

#[test]
fn messages_take_a_line() {
    assert_eq!(write_line_json("{\"a\":1}"), "{\"a\":1}\n");
    assert_eq!(read_line_json("{\"a\":1}\r\n"), "{\"a\":1}");
    assert_eq!(read_line_json(&write_line_json("[ 1 ]")), "[ 1 ]");
}

#[test]
fn requests_go_over_the_socket() {
    let client = IpcClient::new("/run/s".to_string());
    let back = client.clone().request("{}", |path, line| {
        Exchange::Line(format!("{} {:?} \n", path, line))
    });
    assert_eq!(back.unwrap(), "/run/s \"{}\\n\"");
    let back = client.request("{}", |_, _| Exchange::NotConnected("refused".to_string()));
    assert_eq!(
        back.unwrap_err().to_string(),
        "ipc error: failed to connect to agent socket /run/s: refused"
    );
    let back = client.request("{}", |_, _| Exchange::Failed(failure(IoKind::Other)));
    assert_eq!(back.unwrap_err().to_string(), "io error: m");
}

#[test]
fn streams() {
    assert!(matches!(stream_step(LineRead::Bytes(0)), StreamStep::End));
    assert!(matches!(stream_step(LineRead::Bytes(3)), StreamStep::Take));
    for kind in [IoKind::WouldBlock, IoKind::TimedOut, IoKind::Interrupted] {
        assert!(matches!(
            stream_step(LineRead::Failed(failure(kind))),
            StreamStep::Again
        ));
    }
    assert!(matches!(
        stream_step(LineRead::Failed(failure(IoKind::ConnectionReset))),
        StreamStep::Fail(_)
    ));
    let refused: WireResponse<u8> = WireResponse {
        ok: false,
        data: None,
        error: None,
    };
    assert_eq!(
        stream_item(refused).unwrap_err().to_string(),
        "ipc error: log stream returned unknown error"
    );
    let item = WireResponse {
        ok: true,
        data: Some(4),
        error: None,
    };
    assert_eq!(stream_item(item).unwrap(), Some(4));
    assert_eq!(
        part::<u8>(None, "missing").unwrap_err().to_string(),
        "ipc error: missing"
    );
}
