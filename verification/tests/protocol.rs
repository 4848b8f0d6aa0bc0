use fspipe::fstream;
use fspipe::fstream::recv;
use fspipe::fstream::send;
use fspipe::fstream::syncext;
use fspipe::fstream::{Action, DirEntry, Error, FsData, FsMsg};

fn dir(name: &str) -> DirEntry {
    DirEntry::new(name.to_string(), true)
}

fn file(name: &str) -> DirEntry {
    DirEntry::new(name.to_string(), false)
}

/// A sender in the root directory, and the receiver that stands there too.
fn both_in_root() -> (send::Dir, recv::Dir) {
    let (s, r) = fstream::new();
    let (msg, pending) = s.dir("/t".to_string());
    let (path, reply, r) = r.dir(msg).unwrap();
    assert_eq!(path, "/t");
    assert_eq!(reply.action, Action::Down);
    (pending.resolve(reply.action).unwrap(), r)
}

#[test]
fn the_root_is_accepted_at_depth_one() {
    let (s, r) = both_in_root();
    assert_eq!(s.depth(), 1);
    assert_eq!(r.depth(), 1);
}

#[test]
fn a_root_that_is_declined_gives_no_stream() {
    for a in [Action::Next, Action::Skip] {
        let (s, _r) = fstream::new();
        let (msg, pending) = s.dir("/t".to_string());
        assert!(matches!(msg.data, FsData::Root(ref p) if p == "/t"));
        assert!(pending.resolve(a).is_none());
    }
}

#[test]
fn a_file_sent_as_a_directory_and_a_directory_sent_as_a_file() {
    let (s, _r) = both_in_root();
    assert!(matches!(s.dir(file("f")),
        Err(Error::ErrNotADirectory { ref entry }) if entry.name == "f"));
    let (s, _r) = both_in_root();
    assert!(matches!(s.file(dir("d")),
        Err(Error::ErrIsADirectory { ref entry }) if entry.name == "d"));
}

#[test]
fn the_depth_follows_each_answer_on_both_sides() {
    let (s, r) = both_in_root();
    // Down into a directory: 1 -> 2.
    let (msg, pending) = s.dir(dir("a")).unwrap();
    let act = match r.entry(msg).unwrap() {
        recv::Entry::Dir(e, act) => {
            assert_eq!(e.name, "a");
            act
        }
        _ => panic!("no directory"),
    };
    let (reply, r) = act.down();
    let s = match pending.resolve(reply.action) {
        send::DirEntryAction::Down(s) => s,
        _ => panic!("no descent"),
    };
    assert_eq!((s.depth(), r.depth()), (2, 2));
    // Next on a file: stays at 2.
    let (msg, pending) = s.file(file("f")).unwrap();
    let act = match r.entry(msg).unwrap() {
        recv::Entry::File(_, act) => act,
        _ => panic!("no file"),
    };
    let (reply, r) = act.next();
    let s = match pending.resolve(reply.action) {
        send::FileEntryAction::Next(s) => s,
        _ => panic!("not passed by"),
    };
    assert_eq!((s.depth(), r.depth()), (2, 2));
    // Down into a file: 2 -> 3, data keeps 3, the end goes back to 2.
    let (msg, pending) = s.file(file("g")).unwrap();
    let act = match r.entry(msg).unwrap() {
        recv::Entry::File(_, act) => act,
        _ => panic!("no file"),
    };
    let (reply, rf) = act.down();
    let sf = match pending.resolve(reply.action) {
        send::FileEntryAction::Down(f) => f,
        _ => panic!("not opened"),
    };
    assert_eq!((sf.depth(), rf.depth()), (3, 3));
    let (msg, pending) = sf.data(vec![1, 2, 3]);
    let (reply, rf) = match rf.data(msg).unwrap() {
        recv::Data::Bytes(b, reply, rf) => {
            assert_eq!(b, vec![1, 2, 3]);
            (reply, rf)
        }
        _ => panic!("no block"),
    };
    assert_eq!(reply.action, Action::Next);
    let sf = match pending.resolve(reply.action) {
        send::FileAction::Next(f) => f,
        _ => panic!("file left"),
    };
    assert_eq!((sf.depth(), rf.depth()), (3, 3));
    let (msg, pending) = sf.end();
    let (reply, r) = match rf.data(msg).unwrap() {
        recv::Data::End(reply, r) => (reply, r),
        _ => panic!("no end"),
    };
    let s = pending.resolve(reply.action);
    assert_eq!((s.depth(), r.depth()), (2, 2));
    // The end of the directory: 2 -> 1; the end of the root: nothing is left.
    let (msg, pending) = s.end();
    let (reply, r) = match r.entry(msg).unwrap() {
        recv::Entry::End(reply, Some(r)) => (reply, r),
        _ => panic!("no parent"),
    };
    let s = pending.resolve(reply.action).unwrap();
    assert_eq!((s.depth(), r.depth()), (1, 1));
    let (msg, pending) = s.end();
    let reply = match r.entry(msg).unwrap() {
        recv::Entry::End(reply, None) => reply,
        _ => panic!("a parent above the root"),
    };
    assert!(pending.resolve(reply.action).is_none());
}

#[test]
fn a_skip_goes_one_level_up_and_ends_the_stream_in_the_root() {
    let (s, r) = both_in_root();
    let (msg, pending) = s.dir(dir("a")).unwrap();
    let act = match r.entry(msg).unwrap() {
        recv::Entry::Dir(_, act) => act,
        _ => panic!(),
    };
    let (reply, parent) = act.skip();
    assert_eq!(reply.action, Action::Skip);
    assert!(parent.is_none());
    assert!(matches!(pending.resolve(Action::Skip), send::DirEntryAction::End));

    let (s, r) = both_in_root();
    let (msg, pending) = s.dir(dir("a")).unwrap();
    let act = match r.entry(msg).unwrap() {
        recv::Entry::Dir(_, act) => act,
        _ => panic!(),
    };
    let (reply, r) = act.down();
    let s = match pending.resolve(reply.action) {
        send::DirEntryAction::Down(s) => s,
        _ => panic!(),
    };
    let (msg, pending) = s.file(file("f")).unwrap();
    let act = match r.entry(msg).unwrap() {
        recv::Entry::File(_, act) => act,
        _ => panic!(),
    };
    let (_, r) = act.skip();
    assert_eq!(r.unwrap().depth(), 1);
    match pending.resolve(Action::Skip) {
        send::FileEntryAction::Skip(s) => assert_eq!(s.depth(), 1),
        _ => panic!("no skip"),
    }
}

#[test]
fn a_skip_of_data_leaves_the_file_on_the_sending_side() {
    let (s, _r) = both_in_root();
    let (_, pending) = s.file(file("f")).unwrap();
    let f = match pending.resolve(Action::Down) {
        send::FileEntryAction::Down(f) => f,
        _ => panic!(),
    };
    let (_, pending) = f.data(vec![0]);
    match pending.resolve(Action::Skip) {
        send::FileAction::Skip(d) => assert_eq!(d.depth(), 1),
        _ => panic!("still in the file"),
    }
    let (s, _r) = both_in_root();
    let (_, pending) = s.file(file("f")).unwrap();
    let f = match pending.resolve(Action::Down) {
        send::FileEntryAction::Down(f) => f,
        _ => panic!(),
    };
    let (_, pending) = f.data(vec![0]);
    assert!(matches!(pending.resolve(Action::Down), send::FileAction::Next(_)));
}

fn runtime() -> tokio::runtime::Runtime {
    tokio::runtime::Builder::new_current_thread().build().unwrap()
}

#[test]
fn a_receiver_that_skips_a_file_gives_up_its_queue() {
    let (s, r) = both_in_root();
    let (msg, pending) = s.file(file("f")).unwrap();
    let act = match r.entry(msg).unwrap() {
        recv::Entry::File(_, act) => act,
        _ => panic!(),
    };
    let (reply, mut rf) = act.down();
    let sf = match pending.resolve(reply.action) {
        send::FileEntryAction::Down(f) => f,
        _ => panic!(),
    };
    assert_eq!(rf.depth(), 2);
    // A first block is sent, received and answered.
    let (msg, mut pending) = sf.data(vec![1]);
    let sf = runtime().block_on(async {
        pending.channel().send(msg).await.unwrap();
        let got = rf.channel().recv().await.unwrap();
        let (reply, next) = match rf.data(got).unwrap() {
            recv::Data::Bytes(_, reply, next) => (reply, next),
            _ => panic!("no block"),
        };
        reply.to.send(reply.action).await.unwrap();
        let action = pending.replies().recv().await.unwrap();
        // The receiver skips the rest of the file.
        next.skip();
        match pending.resolve(action) {
            send::FileAction::Next(f) => f,
            _ => panic!("file left"),
        }
    });
    // The sender's next send finds the queue closed.
    let (msg, pending) = sf.data(vec![2]);
    let sent = runtime().block_on(pending.channel().send(msg));
    let err = match sent {
        Ok(()) => panic!("the send went through"),
        Err(failed) => fstream::send_failed(failed, "FsMsg".to_string()),
    };
    assert!(matches!(err, Error::ErrChanSend { .. }));
}

#[test]
fn a_sender_whose_message_is_dropped_unanswered_is_not_left_waiting() {
    let (s, mut r) = fstream::new();
    let (msg, mut pending) = s.dir("/t".to_string());
    let answer = runtime().block_on(async {
        pending.channel().send(msg).await.unwrap();
        let got = r.channel().recv().await.unwrap();
        // The receiver takes the message and goes away without an answer.
        drop(got);
        drop(r);
        fstream::recv(pending.replies().recv().await)
    });
    assert!(matches!(answer, Err(Error::ErrUnexpectedClosedChannel)));
}

fn a_message(data: FsData) -> FsMsg {
    // Any message will do to carry the item: its answer slot is not used.
    let (s, _r) = fstream::new();
    let (msg, _) = s.dir(String::new());
    FsMsg { data, reply: msg.reply }
}

#[test]
fn a_message_that_has_no_place_where_it_arrives() {
    let (_s, r) = fstream::new();
    assert!(matches!(r.dir(a_message(FsData::End)), Err(Error::ErrUnexpectedMessage)));
    let (_s, r) = fstream::new();
    assert!(matches!(r.dir(a_message(FsData::Data(vec![]))), Err(Error::ErrUnexpectedMessage)));
    let (_s, r) = both_in_root();
    assert!(matches!(r.entry(a_message(FsData::Data(vec![1]))), Err(Error::ErrUnexpectedMessage)));
    let (_s, r) = both_in_root();
    assert!(matches!(
        r.entry(a_message(FsData::Root("/x".to_string()))),
        Err(Error::ErrUnexpectedMessage)
    ));
    let (s, r) = both_in_root();
    let (msg, _p) = s.file(file("f")).unwrap();
    let act = match r.entry(msg).unwrap() {
        recv::Entry::File(_, act) => act,
        _ => panic!(),
    };
    let (_, f) = act.down();
    assert!(matches!(f.data(a_message(FsData::DirEntry(dir("d")))), Err(Error::ErrUnexpectedMessage)));
}

#[test]
fn a_queue_that_closed_too_early() {
    assert_eq!(syncext::recv::<u8>(None), Err(syncext::Error::ErrUnexpectedClose));
    assert_eq!(syncext::recv(Some(3u8)), Ok(3));
}
