use fspipe::filter;
use fspipe::filter::Turn;
use fspipe::fstream;
use fspipe::fstream::recv;
use fspipe::fstream::{Action, DirEntry, FsMsg, Path, Reply};
use fspipe::print;
use fspipe::walk;
use fspipe::walk::Walk;
use tokio::sync::mpsc::Receiver;

async fn next<T>(c: &mut Receiver<T>) -> Result<T, fstream::Error> {
    fstream::recv(c.recv().await)
}

async fn answer(reply: Reply) -> Result<(), fstream::Error> {
    reply.to.send(reply.action).await.map_err(|e| fstream::send_failed(e, "Action".to_string()))
}

/// Walks a tree of one empty directory `a` and one file `b.txt` that holds
/// `hi`, over the queues that the walk hands out.
async fn walk_sample(root: fstream::SendRoot) -> Result<(), fstream::Error> {
    let mut step = walk::walk("/t".to_string(), true, root).unwrap();
    loop {
        step = match step {
            Walk::Send(msg, mut sending) => {
                let sent = sending.channel().send(msg).await;
                sent.map_err(|e| fstream::send_failed(e, "FsMsg".to_string()))?;
                let action = next(sending.replies()).await?;
                assert!(sending.accepts(action));
                sending.answered(action)
            }
            Walk::List(listing) => {
                let entries = if listing.path().len() == 0 {
                    vec![
                        DirEntry::new("b.txt".to_string(), false),
                        DirEntry::new("a".to_string(), true),
                    ]
                } else {
                    vec![]
                };
                walk::walk_dir(listing, entries)
            }
            Walk::Read(reading) => {
                let mut buf = walk::block_buffer();
                let n = if reading.is_first() {
                    buf[..2].copy_from_slice(b"hi");
                    2
                } else {
                    0
                };
                walk::walk_file(reading, buf, n)
            }
            Walk::Done => return Ok(()),
        }
    }
}

fn all(_: &DirEntry, _: &Path) -> bool {
    true
}

fn directories(entry: &DirEntry, _: &Path) -> bool {
    entry.is_dir()
}

/// Runs a transducer over the queues that it hands out.
async fn filter_stream(
    from: fstream::RecvRoot,
    to: fstream::SendRoot,
    keep: fn(&DirEntry, &Path) -> bool,
) -> Result<(), filter::Error> {
    let stream = |source| filter::Error::ErrFstream { source };
    let mut from = from;
    let first = next(from.channel()).await.map_err(stream)?;
    let mut turn = filter::filter(from, to, first)?;
    loop {
        turn = match turn {
            Turn::Entries(reply, mut state) => {
                if let Some(reply) = reply {
                    answer(reply).await.map_err(stream)?;
                }
                let msg = next(state.upstream()).await.map_err(stream)?;
                filter::filter_dir(state, msg, &keep)?
            }
            Turn::Blocks(reply, mut state) => {
                if let Some(reply) = reply {
                    answer(reply).await.map_err(stream)?;
                }
                let msg = next(state.upstream()).await.map_err(stream)?;
                filter::transfer_file(state, msg)?
            }
            Turn::Push(reply, msg, mut pushing) => {
                if let Some(reply) = reply {
                    answer(reply).await.map_err(stream)?;
                }
                let sent = pushing.channel().send(msg).await;
                sent.map_err(|e| stream(fstream::send_failed(e, "FsMsg".to_string())))?;
                let action = next(pushing.replies()).await.map_err(stream)?;
                assert!(pushing.accepts(action));
                pushing.answered(action)?
            }
            Turn::Done(reply) => {
                if let Some(reply) = reply {
                    answer(reply).await.map_err(stream)?;
                }
                return Ok(());
            }
            Turn::Cut(_) => return Ok(()),
        }
    }
}

enum At {
    Dir(recv::Dir),
    File(recv::File),
}

/// Reads a stream over the queues that the receiver hands out, and opens
/// every directory and every file.
async fn read_all(root: fstream::RecvRoot) -> Result<Vec<String>, fstream::Error> {
    let mut seen = vec![];
    let mut root = root;
    let msg = next(root.channel()).await?;
    let (path, reply, dir) = root.dir(msg)?;
    seen.push(format!("root {}", path));
    answer(reply).await?;
    let mut at = At::Dir(dir);
    loop {
        at = match at {
            At::Dir(mut dir) => {
                let msg = next(dir.channel()).await?;
                match dir.entry(msg)? {
                    recv::Entry::Dir(e, act) => {
                        seen.push(format!("dir {}", e.name));
                        let (reply, dir) = act.down();
                        answer(reply).await?;
                        At::Dir(dir)
                    }
                    recv::Entry::File(e, act) => {
                        seen.push(format!("file {}", e.name));
                        let (reply, file) = act.down();
                        answer(reply).await?;
                        At::File(file)
                    }
                    recv::Entry::End(reply, parent) => {
                        seen.push("end".to_string());
                        answer(reply).await?;
                        match parent {
                            Some(dir) => At::Dir(dir),
                            None => return Ok(seen),
                        }
                    }
                }
            }
            At::File(mut file) => {
                let msg = next(file.channel()).await?;
                match file.data(msg)? {
                    recv::Data::Bytes(b, reply, file) => {
                        seen.push(format!("data {}", String::from_utf8_lossy(&b)));
                        answer(reply).await?;
                        At::File(file)
                    }
                    recv::Data::End(reply, dir) => {
                        seen.push("end".to_string());
                        answer(reply).await?;
                        At::Dir(dir)
                    }
                }
            }
        }
    }
}

/// Prints a stream over the queue that the consumer hands out.
async fn print_stream(root: fstream::RecvRoot) -> Result<Vec<String>, print::Error> {
    let stream = |source| print::Error::ErrFstream { source };
    let mut seen = vec![];
    let mut root = root;
    let first = next(root.channel()).await.map_err(stream)?;
    let (reply, mut printer) = print::print(root, first)?;
    answer(reply).await.map_err(stream)?;
    loop {
        let msg = next(printer.channel()).await.map_err(stream)?;
        assert!(printer.can_descend());
        let turn = print::print_dir(printer, msg)?;
        if let Some(v) = &turn.visit {
            let name = v.path.name(v.path.len() - 1);
            seen.push(format!("{} {}", if v.dir { "d" } else { "f" }, name));
        }
        answer(turn.reply).await.map_err(stream)?;
        printer = match turn.next {
            Some(printer) => printer,
            None => return Ok(seen),
        };
    }
}

fn runtime() -> tokio::runtime::Runtime {
    tokio::runtime::Builder::new_current_thread().build().unwrap()
}

#[test]
fn the_two_halves_of_a_pair_are_the_ends_of_one_queue() {
    let (s, mut r) = fstream::new();
    let (msg, mut pending) = s.dir("/t".to_string());
    let action = runtime().block_on(async {
        pending.channel().send(msg).await.unwrap();
        let got: FsMsg = r.channel().recv().await.unwrap();
        let (path, reply, _dir) = r.dir(got).unwrap();
        assert_eq!(path, "/t");
        reply.to.send(reply.action).await.unwrap();
        pending.replies().recv().await.unwrap()
    });
    assert_eq!(action, Action::Down);
    assert_eq!(pending.resolve(action).unwrap().depth(), 1);
}

#[test]
fn a_walk_and_a_reader_over_their_queues() {
    let (s, r) = fstream::new();
    let (walked, seen) = runtime().block_on(futures::future::join(walk_sample(s), read_all(r)));
    walked.unwrap();
    assert_eq!(
        seen.unwrap(),
        vec!["root /t", "dir a", "end", "file b.txt", "data hi", "end", "end"]
    );
}

#[test]
fn a_walk_a_transducer_and_a_reader_over_their_queues() {
    let (s1, r1) = fstream::new();
    let (s2, r2) = fstream::new();
    let (walked, filtered, seen) = runtime().block_on(futures::future::join3(
        walk_sample(s1),
        filter_stream(r1, s2, all),
        read_all(r2),
    ));
    walked.unwrap();
    filtered.unwrap();
    assert_eq!(
        seen.unwrap(),
        vec!["root /t", "dir a", "end", "file b.txt", "data hi", "end", "end"]
    );
}

#[test]
fn a_walk_a_transducer_and_a_printer_over_their_queues() {
    let (s1, r1) = fstream::new();
    let (s2, r2) = fstream::new();
    let (walked, filtered, seen) = runtime().block_on(futures::future::join3(
        walk_sample(s1),
        filter_stream(r1, s2, directories),
        print_stream(r2),
    ));
    walked.unwrap();
    filtered.unwrap();
    assert_eq!(seen.unwrap(), vec!["d a"]);
    let (s, r) = fstream::new();
    let (walked, seen) = runtime().block_on(futures::future::join(walk_sample(s), print_stream(r)));
    walked.unwrap();
    assert_eq!(seen.unwrap(), vec!["d a", "f b.txt"]);
}

/// Reads a stream and skips the rest of the first file at its first block.
async fn skip_at_first_block(root: fstream::RecvRoot) -> Result<Vec<String>, fstream::Error> {
    let mut seen = vec![];
    let mut root = root;
    let msg = next(root.channel()).await?;
    let (_, reply, mut dir) = root.dir(msg)?;
    answer(reply).await?;
    loop {
        let msg = next(dir.channel()).await?;
        dir = match dir.entry(msg)? {
            recv::Entry::Dir(e, act) => {
                seen.push(format!("dir {}", e.name));
                let (reply, dir) = act.next();
                answer(reply).await?;
                dir
            }
            recv::Entry::File(e, act) => {
                seen.push(format!("file {}", e.name));
                let (reply, mut file) = act.down();
                answer(reply).await?;
                let msg = next(file.channel()).await?;
                match file.data(msg)? {
                    recv::Data::Bytes(b, reply, file) => {
                        seen.push(format!("data {}", String::from_utf8_lossy(&b)));
                        answer(Reply { to: reply.to, action: Action::Skip }).await?;
                        file.skip();
                        return Ok(seen);
                    }
                    recv::Data::End(..) => panic!("the file is empty"),
                }
            }
            recv::Entry::End(..) => panic!("no file"),
        };
    }
}

#[test]
fn a_skip_of_a_block_cuts_the_transducer_off_and_ends_the_walk_with_a_closed_queue() {
    let (s1, r1) = fstream::new();
    let (s2, r2) = fstream::new();
    let (walked, filtered, seen) = runtime().block_on(futures::future::join3(
        walk_sample(s1),
        filter_stream(r1, s2, all),
        skip_at_first_block(r2),
    ));
    assert_eq!(seen.unwrap(), vec!["dir a", "file b.txt", "data hi"]);
    filtered.unwrap();
    assert!(matches!(
        walked,
        Err(fstream::Error::ErrChanSend { .. }) | Err(fstream::Error::ErrUnexpectedClosedChannel)
    ));
}
