use fspipe::fstream;
use fspipe::fstream::Error;
use fspipe::walk;
use fspipe::walk::Walk;

#[test]
fn send_after_the_receiver_is_dropped_fails_with_a_closed_channel_error() {
    let (send_root, recv_root) = fstream::new();
    let step = walk::walk("/t".to_string(), true, send_root).unwrap();
    let (msg, sending) = match step {
        Walk::Send(msg, sending) => (msg, sending),
        _ => panic!("a walk starts by offering the root"),
    };
    drop(recv_root);
    let rt = tokio::runtime::Builder::new_current_thread().build().unwrap();
    let sent = rt.block_on(sending.channel().send(msg));
    let err = match sent {
        Ok(()) => panic!("the send went through"),
        Err(failed) => fstream::send_failed(failed, "FsMsg".to_string()),
    };
    assert!(matches!(err, Error::ErrChanSend { ref item } if item == "FsMsg"));
}

#[test]
fn a_queue_that_closed_too_early_is_an_error() {
    assert!(matches!(fstream::recv::<u8>(None), Err(Error::ErrUnexpectedClosedChannel)));
    assert!(matches!(fstream::recv(Some(7u8)), Ok(7)));
}
