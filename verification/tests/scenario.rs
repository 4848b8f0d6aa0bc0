use fspipe::filter;
use fspipe::filter::Turn;
use fspipe::fstream;
use fspipe::fstream::{Action, DirEntry, FsData, FsMsg, Path};
use fspipe::print;
use fspipe::print::Printer;
use fspipe::walk;
use fspipe::walk::Walk;

/// A directory tree held in memory.
enum Node {
    File(&'static str, Vec<u8>),
    Dir(&'static str, Vec<Node>),
}

fn name(n: &Node) -> &'static str {
    match n {
        Node::File(name, _) => name,
        Node::Dir(name, _) => name,
    }
}

fn find<'a>(nodes: &'a [Node], names: &[String]) -> &'a Node {
    let node = nodes.iter().find(|n| name(n) == names[0]).unwrap();
    if names.len() == 1 {
        return node;
    }
    match node {
        Node::Dir(_, kids) => find(kids, &names[1..]),
        Node::File(..) => panic!("a file has nothing below it"),
    }
}

fn names(path: &Path) -> Vec<String> {
    (0..path.len()).map(|i| path.name(i).clone()).collect()
}

/// The entries of the directory at `path`, last name first, so that the walk
/// has to put them in order.
fn list(tree: &[Node], path: &Path) -> Vec<DirEntry> {
    let names = names(path);
    let kids: &[Node] = if names.is_empty() {
        tree
    } else {
        match find(tree, &names) {
            Node::Dir(_, kids) => kids,
            Node::File(..) => panic!("not a directory"),
        }
    };
    let mut entries: Vec<DirEntry> = kids
        .iter()
        .map(|n| DirEntry::new(name(n).to_string(), matches!(n, Node::Dir(..))))
        .collect();
    entries.sort_by(|a, b| b.name.cmp(&a.name));
    entries
}

fn contents<'a>(tree: &'a [Node], path: &Path) -> &'a [u8] {
    match find(tree, &names(path)) {
        Node::File(_, data) => data,
        Node::Dir(..) => panic!("not a file"),
    }
}

fn show(path: &Path) -> String {
    let mut s = path.root().clone();
    for i in 0..path.len() {
        s.push('/');
        s.push_str(path.name(i));
    }
    s
}

fn describe(data: &FsData) -> String {
    match data {
        FsData::Root(p) => format!("root {}", p),
        FsData::DirEntry(e) => format!("dir {}", e.name),
        FsData::FileEntry(e) => format!("file {}", e.name),
        FsData::Data(b) => format!("data {}", String::from_utf8_lossy(b)),
        FsData::End => "end".to_string(),
    }
}

/// Runs a walk over `tree` against `answer`, which sees each message and
/// decides on it.
fn drive(tree: &[Node], answer: &mut dyn FnMut(FsMsg) -> Action) {
    let (send_root, _recv_root) = fstream::new();
    let mut step = walk::walk("/t".to_string(), true, send_root).unwrap();
    let mut offset = 0usize;
    loop {
        step = match step {
            Walk::Send(msg, sending) => {
                let action = answer(msg);
                assert!(sending.accepts(action));
                sending.answered(action)
            }
            Walk::List(listing) => {
                let entries = list(tree, listing.path());
                offset = 0;
                walk::walk_dir(listing, entries)
            }
            Walk::Read(reading) => {
                let data = contents(tree, reading.path());
                let mut buf = walk::block_buffer();
                let n = std::cmp::min(buf.len(), data.len() - offset);
                buf[..n].copy_from_slice(&data[offset..offset + n]);
                offset += n;
                walk::walk_file(reading, buf, n)
            }
            Walk::Done => return,
        }
    }
}

/// A consumer that prints, fed message by message.
struct Printing {
    root: Option<fstream::RecvRoot>,
    printer: Option<Printer>,
    lines: Vec<String>,
}

impl Printing {
    fn new(root: fstream::RecvRoot) -> Printing {
        Printing { root: Some(root), printer: None, lines: vec![] }
    }

    fn take(&mut self, msg: FsMsg) -> Action {
        if let Some(root) = self.root.take() {
            let (reply, printer) = print::print(root, msg).unwrap();
            self.printer = Some(printer);
            return reply.action;
        }
        let printer = self.printer.take().expect("the stream has ended");
        let turn = print::print_dir(printer, msg).unwrap();
        match &turn.visit {
            Some(v) => {
                self.lines.push(format!("{} {}", if v.dir { "d" } else { "f" }, show(&v.path)))
            }
            None => self.lines.push("end".to_string()),
        }
        self.printer = turn.next;
        turn.reply.action
    }
}

fn sample() -> Vec<Node> {
    vec![Node::File("b.txt", b"hi".to_vec()), Node::Dir("a", vec![])]
}

#[test]
fn walk_sends_the_tree_in_order_to_a_consumer_that_descends() {
    let mut seen: Vec<String> = vec![];
    drive(&sample(), &mut |msg: FsMsg| {
        seen.push(describe(&msg.data));
        Action::Down
    });
    assert_eq!(
        seen,
        vec!["root /t", "dir a", "end", "file b.txt", "data hi", "end", "end"]
    );
}

#[test]
fn walk_and_print_report_each_entry() {
    let (_send, recv) = fstream::new();
    let mut printing = Printing::new(recv);
    drive(&sample(), &mut |msg: FsMsg| printing.take(msg));
    assert_eq!(printing.lines, vec!["d /t/a", "end", "f /t/b.txt", "end"]);
    assert!(printing.printer.is_none());
}

/// Runs a walk over `tree` through a transducer with `keep` into a consumer
/// that prints.
fn filtered(tree: &[Node], keep: &dyn Fn(&DirEntry, &Path) -> bool) -> Vec<String> {
    let (_s1, recv1) = fstream::new();
    let (send2, recv2) = fstream::new();
    let mut printing = Printing::new(recv2);
    let mut ends = Some((recv1, send2));
    let mut turn: Option<Turn> = None;
    drive(tree, &mut |msg: FsMsg| {
        let mut next = match turn.take() {
            None => {
                let (recv, send) = ends.take().unwrap();
                filter::filter(recv, send, msg).unwrap()
            }
            Some(Turn::Entries(_, state)) => filter::filter_dir(state, msg, &keep).unwrap(),
            Some(Turn::Blocks(_, state)) => filter::transfer_file(state, msg).unwrap(),
            Some(_) => panic!("the transducer does not wait for a message"),
        };
        let mut answer: Option<Action> = None;
        loop {
            next = match next {
                Turn::Push(reply, out, pushing) => {
                    answer = answer.or(reply.map(|r| r.action));
                    let action = printing.take(out);
                    assert!(pushing.accepts(action));
                    pushing.answered(action).unwrap()
                }
                Turn::Entries(reply, state) => {
                    answer = answer.or(reply.map(|r| r.action));
                    turn = Some(Turn::Entries(None, state));
                    break;
                }
                Turn::Blocks(reply, state) => {
                    answer = answer.or(reply.map(|r| r.action));
                    turn = Some(Turn::Blocks(None, state));
                    break;
                }
                Turn::Done(reply) => {
                    answer = answer.or(reply.map(|r| r.action));
                    turn = Some(Turn::Done(None));
                    break;
                }
                Turn::Cut(_) => panic!("the transducer was cut off"),
            }
        }
        answer.expect("each message is answered")
    });
    printing.lines
}

#[test]
fn filter_on_directories_hides_the_file() {
    let lines = filtered(&sample(), &|entry: &DirEntry, _path: &Path| entry.is_dir());
    assert_eq!(lines, vec!["d /t/a", "end", "end"]);
}
