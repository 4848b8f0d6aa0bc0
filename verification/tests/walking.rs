use fspipe::filter;
use fspipe::filter::{InDir, Turn};
use fspipe::fstream;
use fspipe::fstream::{Action, DirEntry, FsData, FsMsg, Path};
use fspipe::order::{name_no_later, sort};
use fspipe::walk;
use fspipe::walk::{Walk, BLOCK_SIZE};

fn entry(name: &str, dir: bool) -> DirEntry {
    DirEntry::new(name.to_string(), dir)
}

fn names(v: &[DirEntry]) -> Vec<&str> {
    v.iter().map(|e| e.name.as_str()).collect()
}

#[test]
fn names_are_ordered_by_their_bytes() {
    let le = |a: &str, b: &str| name_no_later(&a.to_string(), &b.to_string());
    assert!(le("", ""));
    assert!(le("", "a"));
    assert!(!le("a", ""));
    assert!(le("a", "a"));
    assert!(le("a", "ab"));
    assert!(!le("ab", "a"));
    assert!(le("B", "a"));
    assert!(!le("a", "B"));
    assert!(le("a.txt", "a0"));
    assert!(le("z", "é"));
    assert!(!le("é", "z"));
}

#[test]
fn entries_are_sorted_by_name() {
    let v = vec![entry("b", false), entry("a", true), entry("c", false), entry("B", true)];
    assert_eq!(names(&sort(v)), vec!["B", "a", "b", "c"]);
    assert!(sort(vec![]).is_empty());
    assert_eq!(names(&sort(vec![entry("x", true)])), vec!["x"]);
    let sorted = sort(vec![entry("a", true), entry("b", true), entry("c", true)]);
    assert_eq!(names(&sorted), vec!["a", "b", "c"]);
    let reversed = sort(vec![entry("c", true), entry("b", true), entry("a", true)]);
    assert_eq!(names(&reversed), vec!["a", "b", "c"]);
}

#[test]
fn entries_of_one_name_keep_the_order_they_came_in() {
    let v = vec![entry("a", true), entry("b", false), entry("a", false)];
    let s = sort(v);
    assert_eq!(names(&s), vec!["a", "a", "b"]);
    assert!(s[0].dir);
    assert!(!s[1].dir);
}

#[test]
fn a_path_that_is_no_directory_is_not_walked() {
    let (s, _r) = fstream::new();
    assert!(matches!(
        walk::walk("/t/f".to_string(), false, s),
        Err(walk::Error::ErrNotDirectory)
    ));
}

/// Answers each message a walk sends with what `answer` says, and hands the
/// walk what `list` and `read` say. Gives the messages in order.
fn run(
    list: &dyn Fn(&Path) -> Vec<DirEntry>,
    read: &dyn Fn(&Path, usize) -> Vec<u8>,
    answer: &mut dyn FnMut(&FsData) -> Action,
) -> Vec<String> {
    let (s, _r) = fstream::new();
    let mut step = walk::walk("/t".to_string(), true, s).unwrap();
    let mut seen = vec![];
    let mut reads = 0usize;
    loop {
        step = match step {
            Walk::Send(FsMsg { data, .. }, sending) => {
                seen.push(match &data {
                    FsData::Root(p) => format!("root {}", p),
                    FsData::DirEntry(e) => format!("dir {}", e.name),
                    FsData::FileEntry(e) => format!("file {}", e.name),
                    FsData::Data(b) => format!("data {}", b.len()),
                    FsData::End => "end".to_string(),
                });
                let a = answer(&data);
                assert!(sending.accepts(a));
                sending.answered(a)
            }
            Walk::List(l) => {
                reads = 0;
                let entries = list(l.path());
                walk::walk_dir(l, entries)
            }
            Walk::Read(r) => {
                let data = read(r.path(), reads);
                reads += 1;
                let mut buf = walk::block_buffer();
                assert_eq!(buf.len(), BLOCK_SIZE);
                assert!(buf.iter().all(|b| *b == 0));
                let n = data.len();
                buf[..n].copy_from_slice(&data);
                walk::walk_file(r, buf, n)
            }
            Walk::Done => return seen,
        }
    }
}

fn last(path: &Path) -> String {
    if path.len() == 0 {
        String::new()
    } else {
        path.name(path.len() - 1).clone()
    }
}

/// root: d1 (x, y), d2 (z), f
fn two_dirs(path: &Path) -> Vec<DirEntry> {
    match last(path).as_str() {
        "" => vec![entry("f", false), entry("d2", true), entry("d1", true)],
        "d1" => vec![entry("y", false), entry("x", false)],
        "d2" => vec![entry("z", false)],
        other => panic!("no directory {}", other),
    }
}

fn nothing(_: &Path, _: usize) -> Vec<u8> {
    vec![]
}

#[test]
fn a_walk_that_is_let_into_every_directory() {
    let seen = run(&two_dirs, &nothing, &mut |d| match d {
        FsData::FileEntry(_) => Action::Next,
        _ => Action::Down,
    });
    assert_eq!(
        seen,
        vec![
            "root /t", "dir d1", "file x", "file y", "end", "dir d2", "file z", "end", "file f",
            "end"
        ]
    );
}

#[test]
fn a_skip_leaves_the_directory_and_goes_on_behind_it() {
    // Skip at x: y is not sent, nor the end of d1; the walk goes on at d2.
    let seen = run(&two_dirs, &nothing, &mut |d| match d {
        FsData::FileEntry(e) if e.name == "x" => Action::Skip,
        FsData::FileEntry(_) => Action::Next,
        _ => Action::Down,
    });
    assert_eq!(
        seen,
        vec!["root /t", "dir d1", "file x", "dir d2", "file z", "end", "file f", "end"]
    );
}

#[test]
fn a_skip_in_the_root_ends_the_walk() {
    let seen = run(&two_dirs, &nothing, &mut |d| match d {
        FsData::DirEntry(e) if e.name == "d2" => Action::Skip,
        FsData::Root(_) => Action::Down,
        _ => Action::Next,
    });
    assert_eq!(seen, vec!["root /t", "dir d1", "dir d2"]);
}

#[test]
fn a_directory_passed_by_is_not_listed() {
    let seen = run(
        &|p: &Path| {
            assert_eq!(p.len(), 0, "a directory below the root was listed");
            two_dirs(p)
        },
        &nothing,
        &mut |d| match d {
            FsData::Root(_) => Action::Down,
            _ => Action::Next,
        },
    );
    assert_eq!(seen, vec!["root /t", "dir d1", "dir d2", "file f", "end"]);
}

#[test]
fn a_root_that_is_declined_is_not_walked() {
    let seen = run(&|_| panic!("listed"), &nothing, &mut |_| Action::Next);
    assert_eq!(seen, vec!["root /t"]);
}

#[test]
fn a_file_is_sent_in_blocks_until_a_read_gives_nothing() {
    let one = |_: &Path| vec![entry("big", false)];
    let read = |_: &Path, k: usize| match k {
        0 | 1 => vec![7u8; BLOCK_SIZE],
        2 => vec![7u8; 5],
        _ => vec![],
    };
    let seen = run(&one, &read, &mut |_| Action::Down);
    assert_eq!(
        seen,
        vec!["root /t", "file big", "data 8192", "data 8192", "data 5", "end", "end"]
    );
}

#[test]
fn a_skip_of_a_block_leaves_the_file() {
    let one = |_: &Path| vec![entry("a", false), entry("b", false)];
    let read = |_: &Path, _: usize| vec![1u8; 3];
    let seen = run(&one, &read, &mut |d| match d {
        FsData::Data(_) => Action::Skip,
        _ => Action::Down,
    });
    assert_eq!(
        seen,
        vec!["root /t", "file a", "data 3", "file b", "data 3", "end"]
    );
}

#[test]
fn an_empty_file_is_an_end_without_a_block() {
    let one = |_: &Path| vec![entry("e", false)];
    let seen = run(&one, &nothing, &mut |_| Action::Down);
    assert_eq!(seen, vec!["root /t", "file e", "end", "end"]);
}

#[test]
fn a_transducer_whose_sides_stand_at_different_depths_reports_it() {
    // Upstream stands in the root; downstream one level deeper.
    let (s1, r1) = fstream::new();
    let (m, p) = s1.dir("/t".to_string());
    let (_, _, up) = r1.dir(m).unwrap();
    let s1 = p.resolve(Action::Down).unwrap();
    let (s2, _r2) = fstream::new();
    let (_, p) = s2.dir("/t".to_string());
    let down = p.resolve(Action::Down).unwrap();
    let (_, p) = down.dir(entry("a", true)).unwrap();
    let down = match p.resolve(Action::Down) {
        fstream::SendDirEntryAction::Down(d) => d,
        _ => panic!(),
    };
    assert_eq!((up.depth(), down.depth()), (1, 2));
    let state = InDir::new(Path::new("/t".to_string()), up, down);
    let (end, _) = s1.end();
    let turn = filter::filter_dir(state, end, &|_: &DirEntry, _: &Path| true).unwrap();
    let pushing = match turn {
        Turn::Push(Some(reply), FsMsg { data: FsData::End, .. }, pushing) => {
            assert_eq!(reply.action, Action::Next);
            pushing
        }
        _ => panic!("the end was not passed on"),
    };
    assert!(matches!(pushing.answered(Action::Next), Err(filter::Error::ErrMismatchedEnd)));
}

#[test]
fn a_transducer_does_not_show_what_is_not_kept() {
    let (s1, r1) = fstream::new();
    let (m, p) = s1.dir("/t".to_string());
    let (_, _, up) = r1.dir(m).unwrap();
    let s1 = p.resolve(Action::Down).unwrap();
    let (s2, _r2) = fstream::new();
    let (_, p) = s2.dir("/t".to_string());
    let down = p.resolve(Action::Down).unwrap();
    let state = InDir::new(Path::new("/t".to_string()), up, down);
    let (m, _) = s1.file(entry("f", false)).unwrap();
    let mut asked: Vec<String> = vec![];
    let seen = std::cell::RefCell::new(&mut asked);
    let keep = |e: &DirEntry, p: &Path| {
        seen.borrow_mut().push(format!("{} at {} below {}", e.name, p.name(0), p.root()));
        false
    };
    match filter::filter_dir(state, m, &keep).unwrap() {
        Turn::Entries(Some(reply), state) => {
            assert_eq!(reply.action, Action::Next);
            assert_eq!(state.path().len(), 0);
        }
        _ => panic!("the file was shown"),
    }
    assert_eq!(asked, vec!["f at f below /t"]);
}

/// A transducer and its upstream sender, both inside the file `f` of the
/// root, with one block passed downstream and waiting for its answer.
fn with_a_block_under_way() -> (fspipe::filter::Pushing, fstream::SendFile) {
    let (s1, r1) = fstream::new();
    let (s2, _r2) = fstream::new();
    let keep = |_: &DirEntry, _: &Path| true;
    let (m, p) = s1.dir("/t".to_string());
    let pushing = match filter::filter(r1, s2, m).unwrap() {
        Turn::Push(Some(_), _, pushing) => pushing,
        _ => panic!("the root was not passed on"),
    };
    let s1 = p.resolve(Action::Down).unwrap();
    let state = match pushing.answered(Action::Down).unwrap() {
        Turn::Entries(None, state) => state,
        _ => panic!("not in the root"),
    };
    let (m, p) = s1.file(entry("f", false)).unwrap();
    let pushing = match filter::filter_dir(state, m, &keep).unwrap() {
        Turn::Push(None, _, pushing) => pushing,
        _ => panic!("the file was not offered"),
    };
    let state = match pushing.answered(Action::Down).unwrap() {
        Turn::Blocks(Some(reply), state) => {
            assert_eq!(reply.action, Action::Down);
            state
        }
        _ => panic!("the file was not opened"),
    };
    let file = match p.resolve(Action::Down) {
        fstream::SendFileEntryAction::Down(file) => file,
        _ => panic!(),
    };
    let (m, p) = file.data(vec![1, 2]);
    let pushing = match filter::transfer_file(state, m).unwrap() {
        Turn::Push(Some(reply), FsMsg { data: FsData::Data(b), .. }, pushing) => {
            assert_eq!(reply.action, Action::Next);
            assert_eq!(b, vec![1, 2]);
            pushing
        }
        _ => panic!("the block was not passed on"),
    };
    let file = match p.resolve(Action::Next) {
        fstream::SendFileAction::Next(file) => file,
        _ => panic!(),
    };
    (pushing, file)
}

#[test]
fn a_skip_of_a_block_cuts_the_transducer_off_from_upstream() {
    let (pushing, file) = with_a_block_under_way();
    match pushing.answered(Action::Skip).unwrap() {
        Turn::Cut(down) => assert_eq!(down.depth(), 1),
        _ => panic!("the transducer goes on"),
    }
    // Upstream has been given up: the sender's next block cannot be sent.
    let (m, p) = file.data(vec![3]);
    let rt = tokio::runtime::Builder::new_current_thread().build().unwrap();
    assert!(rt.block_on(p.channel().send(m)).is_err());
}

#[test]
fn a_block_that_is_taken_lets_the_transducer_go_on_in_the_file() {
    let (pushing, _file) = with_a_block_under_way();
    assert!(matches!(pushing.answered(Action::Next), Ok(Turn::Blocks(None, _))));
}
