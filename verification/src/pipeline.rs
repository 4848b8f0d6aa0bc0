//! The stages wired together: a walk, a consumer that prints, and between
//! them, where there is one, a transducer with its predicate. What the
//! consumer gets to see is stated here for every directory tree.
use vstd::prelude::*;
use crate::filter;
use crate::filter::{FilterState, TurnView};
use crate::fstream::common::{Action, EntryView, Kind, MsgView, PathView};
use crate::order::{distinct, increasing, lemma_sorted_increasing, sorted};
use crate::print::{printed, PrintState, VisitView};
use crate::walk;
use crate::walk::{advance, WalkState, WalkView};

verus! {

/// A node of a directory tree: its entry, and for a directory its children
/// in the order of their names.
pub struct Tree {
    pub entry: EntryView,
    pub children: Seq<Tree>,
}

/// What the consumer notes of a message: an entry with its path, or the end
/// of a directory.
pub enum Seen {
    Entry(VisitView),
    End,
}

/// The predicate of the transducer; `None` where the walk feeds the consumer
/// directly.
pub type Keep = Option<spec_fn(EntryView, PathView) -> bool>;

/// The predicate keeps the entry `e` at `path`. Without a transducer every
/// entry is kept.
pub open spec fn keeps(keep: Keep, e: EntryView, path: PathView) -> bool {
    match keep {
        Some(k) => k(e, path),
        None => true,
    }
}

/// The entries of `kids` from the `i`-th on.
pub open spec fn entries(kids: Seq<Tree>, i: int) -> Seq<EntryView> {
    Seq::new((kids.len() - i) as nat, |j: int| kids[i + j].entry)
}

/// Listing shows, at `path`, a directory whose children from the `i`-th on
/// are those of `kids`, and below each of them that is a directory its own
/// children, all the way down.
pub open spec fn shows(ls: spec_fn(PathView) -> Seq<EntryView>, path: PathView, kids: Seq<Tree>, i: int) -> bool
    decreases kids, kids.len() - i,
{
    if i < 0 || i >= kids.len() {
        true
    } else {
        let at = path.push(kids[i].entry.name);
        &&& kids[i].entry.dir ==> sorted(ls(at)) == entries(kids[i].children, 0) && shows(
            ls,
            at,
            kids[i].children,
            0,
        )
        &&& shows(ls, path, kids, i + 1)
    }
}

/// The number of directories that have to be entered one inside the other
/// to get through the children of `kids` from the `i`-th on, in a directory
/// at `path`: the deepest chain of directories that are kept.
pub open spec fn height(keep: Keep, path: PathView, kids: Seq<Tree>, i: int) -> nat
    decreases kids, kids.len() - i,
{
    if i < 0 || i >= kids.len() {
        0
    } else {
        let e = kids[i].entry;
        let at = path.push(e.name);
        let below = if e.dir && keeps(keep, e, at) {
            1 + height(keep, at, kids[i].children, 0)
        } else {
            0
        };
        let rest = height(keep, path, kids, i + 1);
        if below >= rest {
            below
        } else {
            rest
        }
    }
}

/// What the consumer notes of the children of `kids` from the `i`-th on, in
/// a directory at `path`, up to and with the end of that directory: each
/// child that is kept, in order; behind a directory that is kept, what is
/// noted of its own children; nothing of a child that is not kept, nor of
/// anything below it.
pub open spec fn noted(keep: Keep, path: PathView, kids: Seq<Tree>, i: int) -> Seq<Seen>
    decreases kids, kids.len() - i,
{
    if i < 0 || i >= kids.len() {
        seq![Seen::End]
    } else {
        let e = kids[i].entry;
        let at = path.push(e.name);
        let this = if !keeps(keep, e, at) {
            Seq::<Seen>::empty()
        } else if e.dir {
            seq![Seen::Entry(VisitView { dir: true, path: at })] + noted(
                keep,
                at,
                kids[i].children,
                0,
            )
        } else {
            seq![Seen::Entry(VisitView { dir: false, path: at })]
        };
        this + noted(keep, path, kids, i + 1)
    }
}

/// The number of steps the stages take on the children of `kids` from the
/// `i`-th on, up to and with the end of their directory.
pub open spec fn cost(keep: Keep, path: PathView, kids: Seq<Tree>, i: int) -> nat
    decreases kids, kids.len() - i,
{
    if i < 0 || i >= kids.len() {
        1
    } else {
        let e = kids[i].entry;
        let at = path.push(e.name);
        let this = if keeps(keep, e, at) && e.dir {
            2 + cost(keep, at, kids[i].children, 0)
        } else {
            1
        };
        this + cost(keep, path, kids, i + 1)
    }
}

/// The consuming side between two messages: the transducer, where there is
/// one, and the consumer.
pub struct Sink {
    pub filter: Option<FilterState>,
    pub print: PrintState,
}

/// What the consuming side makes of one message: the answer that goes back
/// to the walk, what the consumer notes, and the state to go on in, if the
/// stream has not ended.
pub struct Round {
    pub answer: Action,
    pub noted: Seq<Seen>,
    pub next: Option<Sink>,
}

pub open spec fn note(v: Option<VisitView>) -> Seq<Seen> {
    match v {
        Some(v) => seq![Seen::Entry(v)],
        None => seq![Seen::End],
    }
}

/// The answer upstream: the one given before the message went downstream,
/// or else the one given after.
pub open spec fn either(before: Option<Action>, after: Option<Action>) -> Option<Action> {
    if before is Some {
        before
    } else {
        after
    }
}

/// One message through the transducer and, where it passes, the consumer.
/// `None` where a stage fails or cannot go on.
pub open spec fn filtered(
    k: spec_fn(EntryView, PathView) -> bool,
    f: FilterState,
    p: PrintState,
    m: MsgView,
) -> Option<Round> {
    let kept = match m {
        MsgView::FileEntry(e) | MsgView::DirEntry(e) => k(e, f.path.push(e.name)),
        _ => false,
    };
    match filter::pulled(f, m, kept) {
        Ok(TurnView::Entries(Some(a), g)) => Some(
            Round { answer: a, noted: Seq::empty(), next: Some(Sink { filter: Some(g), print: p }) },
        ),
        Ok(TurnView::Push(before, out, offered, g)) => match printed(p, out) {
            Some(turn) => if !filter::accepts(offered, g, turn.answer) {
                None
            } else {
                match filter::answered(offered, g, turn.answer) {
                    Ok(TurnView::Entries(after, h)) => match (either(before, after), turn.next) {
                        (Some(a), Some(q)) => Some(
                            Round {
                                answer: a,
                                noted: note(turn.visit),
                                next: Some(Sink { filter: Some(h), print: q }),
                            },
                        ),
                        _ => None,
                    },
                    Ok(TurnView::Done(after)) => match (either(before, after), turn.next) {
                        (Some(a), None) => Some(
                            Round { answer: a, noted: note(turn.visit), next: None },
                        ),
                        _ => None,
                    },
                    _ => None,
                }
            },
            None => None,
        },
        _ => None,
    }
}

/// One message through the consuming side. `None` where a stage fails or
/// cannot go on.
pub open spec fn react(keep: Keep, sink: Sink, m: MsgView) -> Option<Round> {
    match (keep, sink.filter) {
        (Some(k), Some(f)) => filtered(k, f, sink.print, m),
        (None, None) => match printed(sink.print, m) {
            Some(turn) => Some(
                Round {
                    answer: turn.answer,
                    noted: note(turn.visit),
                    next: match turn.next {
                        Some(q) => Some(Sink { filter: None, print: q }),
                        None => None,
                    },
                },
            ),
            None => None,
        },
        _ => None,
    }
}

/// All the stages between two steps, and what the consumer has noted so far.
pub struct Stages {
    pub walk: WalkView,
    pub sink: Option<Sink>,
    pub noted: Seq<Seen>,
}

/// One step of the stages: the walk has a directory listed, or sends a
/// message that the consuming side answers. Where nothing can move, nothing
/// changes.
pub open spec fn step(ls: spec_fn(PathView) -> Seq<EntryView>, keep: Keep, c: Stages) -> Stages {
    match c.walk {
        WalkView::List(s) => Stages { walk: walk::listed(s, ls(s.path)), ..c },
        WalkView::Send(m, kind, s) => match c.sink {
            Some(sink) => match react(keep, sink, m) {
                Some(round) => if walk::accepts(kind, s, round.answer) {
                    Stages {
                        walk: walk::answered(kind, s, round.answer),
                        sink: round.next,
                        noted: c.noted + round.noted,
                    }
                } else {
                    c
                },
                None => c,
            },
            None => c,
        },
        _ => c,
    }
}

/// `n` steps of the stages.
pub open spec fn steps(
    ls: spec_fn(PathView) -> Seq<EntryView>,
    keep: Keep,
    c: Stages,
    n: nat,
) -> Stages
    decreases n,
{
    if n == 0 {
        c
    } else {
        steps(ls, keep, step(ls, keep, c), (n - 1) as nat)
    }
}

/// The consuming side inside a directory at `path`, `depth` levels down, all
/// of its stages in step.
pub open spec fn sink_at(keep: Keep, path: PathView, depth: int) -> Sink {
    Sink {
        filter: if keep is Some {
            Some(FilterState { path, up: depth, down: depth })
        } else {
            None
        },
        print: PrintState { path, depth },
    }
}

/// The walk once a directory at `depth` has ended, its parent's entries not
/// yet offered being the last of `below`.
pub open spec fn walk_after(path: PathView, below: Seq<Seq<EntryView>>, depth: int) -> WalkView {
    if depth <= 1 {
        WalkView::Done
    } else {
        advance(path.pop(), below, depth - 1)
    }
}

/// The consuming side once a directory at `depth` has ended.
pub open spec fn sink_after(keep: Keep, path: PathView, depth: int) -> Option<Sink> {
    if depth <= 1 {
        None
    } else {
        Some(sink_at(keep, path.pop(), depth - 1))
    }
}

/// Steps add up.
pub proof fn lemma_steps_add(
    ls: spec_fn(PathView) -> Seq<EntryView>,
    keep: Keep,
    c: Stages,
    a: nat,
    b: nat,
)
    ensures
        steps(ls, keep, c, a + b) == steps(ls, keep, steps(ls, keep, c, a), b),
    decreases a,
{
    if a > 0 {
        lemma_steps_add(ls, keep, step(ls, keep, c), (a - 1) as nat, b);
        assert((a + b - 1) as nat == (a - 1) as nat + b);
    }
}

/// A name pushed and dropped again leaves the path as it was.
pub proof fn lemma_push_pop(path: PathView, name: Seq<char>)
    ensures
        path.push(name).pop() == path,
{
    assert(path.push(name).pop().names =~= path.names);
}

/// The entries from the `i`-th on are the `i`-th and those behind it.
pub proof fn lemma_entries(below: Seq<Seq<EntryView>>, kids: Seq<Tree>, i: int)
    requires
        0 <= i < kids.len(),
    ensures
        entries(kids, i).len() > 0,
        entries(kids, i)[0] == kids[i].entry,
        below.push(entries(kids, i)).drop_last().push(entries(kids, i).drop_first())
            == below.push(entries(kids, i + 1)),
        below.push(entries(kids, i)).last() == entries(kids, i),
{
    assert(entries(kids, i).drop_first() =~= entries(kids, i + 1));
    assert(below.push(entries(kids, i)).drop_last() =~= below);
}

/// What the stages do with the contents of one directory. Let the walk stand
/// in a directory at `path`, `depth` levels down, with the children of `kids`
/// from the `i`-th on still to offer, and let the consuming side stand in the
/// same directory. Then after `cost` steps the directory has ended on both
/// sides, and the consumer has noted, behind what it had noted before,
/// exactly `noted`: the children that are kept, each once, in the order of
/// their names, and between a directory and its end what is below it.
pub proof fn lemma_directory(
    ls: spec_fn(PathView) -> Seq<EntryView>,
    keep: Keep,
    path: PathView,
    below: Seq<Seq<EntryView>>,
    kids: Seq<Tree>,
    i: int,
    depth: int,
    before: Seq<Seen>,
)
    requires
        0 <= i <= kids.len(),
        depth >= 1,
        below.len() == depth - 1,
        path.names.len() == depth - 1,
        shows(ls, path, kids, i),
        depth + height(keep, path, kids, i) <= i32::MAX,
    ensures
        steps(
            ls,
            keep,
            Stages {
                walk: advance(path, below.push(entries(kids, i)), depth),
                sink: Some(sink_at(keep, path, depth)),
                noted: before,
            },
            cost(keep, path, kids, i),
        ) == (Stages {
            walk: walk_after(path, below, depth),
            sink: sink_after(keep, path, depth),
            noted: before + noted(keep, path, kids, i),
        }),
    decreases kids, kids.len() - i,
{
    let c = Stages {
        walk: advance(path, below.push(entries(kids, i)), depth),
        sink: Some(sink_at(keep, path, depth)),
        noted: before,
    };
    let sink = sink_at(keep, path, depth);
    if i >= kids.len() {
        assert(entries(kids, i) =~= Seq::<EntryView>::empty());
        assert(below.push(entries(kids, i)).drop_last() =~= below);
        let s = WalkState { path, frames: below, depth };
        assert(c.walk == WalkView::Send(MsgView::End, Kind::End, s));
        let round = react(keep, sink, MsgView::End);
        assert(round == Some(
            Round {
                answer: Action::Next,
                noted: seq![Seen::End],
                next: sink_after(keep, path, depth),
            },
        ));
        let d = step(ls, keep, c);
        assert(d.walk == walk_after(path, below, depth));
        assert(d.noted == before + seq![Seen::End]);
        assert(steps(ls, keep, d, 0) == d);
        assert(steps(ls, keep, c, 1) == d);
    } else {
        let e = kids[i].entry;
        let at = path.push(e.name);
        lemma_entries(below, kids, i);
        lemma_push_pop(path, e.name);
        let frames = below.push(entries(kids, i + 1));
        let s = WalkState { path: at, frames, depth };
        let m = if e.dir {
            MsgView::DirEntry(e)
        } else {
            MsgView::FileEntry(e)
        };
        let kind = if e.dir {
            Kind::Dir
        } else {
            Kind::File
        };
        assert(c.walk == WalkView::Send(m, kind, s));
        let rest = cost(keep, path, kids, i + 1);
        let onward = Stages {
            walk: advance(path, frames, depth),
            sink: Some(sink),
            noted: before,
        };
        if !keeps(keep, e, at) {
            assert(react(keep, sink, m) == Some(
                Round { answer: Action::Next, noted: Seq::empty(), next: Some(sink) },
            ));
            let d = step(ls, keep, c);
            assert(d.noted =~= before);
            assert(d == onward);
            lemma_directory(ls, keep, path, below, kids, i + 1, depth, before);
            assert(steps(ls, keep, c, (1 + rest) as nat) == steps(ls, keep, d, rest));
            assert(before + noted(keep, path, kids, i) =~= before + noted(keep, path, kids, i + 1));
        } else if !e.dir {
            let v = Seen::Entry(VisitView { dir: false, path: at });
            assert(react(keep, sink, m) == Some(
                Round { answer: Action::Next, noted: seq![v], next: Some(sink) },
            ));
            let d = step(ls, keep, c);
            assert(d == Stages { noted: before + seq![v], ..onward });
            lemma_directory(ls, keep, path, below, kids, i + 1, depth, before + seq![v]);
            assert(steps(ls, keep, c, (1 + rest) as nat) == steps(ls, keep, d, rest));
            assert(before + noted(keep, path, kids, i) =~= before + seq![v] + noted(
                keep,
                path,
                kids,
                i + 1,
            ));
        } else {
            let v = Seen::Entry(VisitView { dir: true, path: at });
            let inner = sink_at(keep, at, depth + 1);
            assert(react(keep, sink, m) == Some(
                Round { answer: Action::Down, noted: seq![v], next: Some(inner) },
            ));
            let d = step(ls, keep, c);
            let listing = WalkState { path: at, frames, depth: depth + 1 };
            assert(d == Stages {
                walk: WalkView::List(listing),
                sink: Some(inner),
                noted: before + seq![v],
            });
            let children = kids[i].children;
            let d2 = step(ls, keep, d);
            assert(d2 == Stages {
                walk: advance(at, frames.push(entries(children, 0)), depth + 1),
                sink: Some(inner),
                noted: before + seq![v],
            });
            let down = cost(keep, at, children, 0);
            lemma_directory(ls, keep, at, frames, children, 0, depth + 1, before + seq![v]);
            let d3 = steps(ls, keep, d2, down);
            let so_far = before + seq![v] + noted(keep, at, children, 0);
            assert(d3 == Stages { noted: so_far, ..onward });
            lemma_directory(ls, keep, path, below, kids, i + 1, depth, so_far);
            lemma_steps_add(ls, keep, d2, down, rest);
            assert(steps(ls, keep, d, (1 + down + rest) as nat) == steps(
                ls,
                keep,
                d2,
                down + rest,
            ));
            assert(steps(ls, keep, c, (2 + down + rest) as nat) == steps(
                ls,
                keep,
                d,
                (1 + down + rest) as nat,
            ));
            assert(before + noted(keep, path, kids, i) =~= so_far + noted(keep, path, kids, i + 1));
        }
    }
}

/// The stages once the root at `root` has been offered and accepted by
/// every stage: the walk is about to list the root directory, and the
/// consuming side stands in it.
pub open spec fn start(keep: Keep, root: Seq<char>) -> Stages {
    let path = PathView { root, names: Seq::empty() };
    Stages {
        walk: walk::answered(
            Kind::Root,
            WalkState { path, frames: Seq::empty(), depth: 0 },
            Action::Down,
        ),
        sink: Some(sink_at(keep, path, 1)),
        noted: Seq::empty(),
    }
}

/// The stages at the end of a stream that has noted `noted`.
pub open spec fn finished(noted: Seq<Seen>) -> Stages {
    Stages { walk: WalkView::Done, sink: None, noted }
}

/// A transducer that is handed the root accepts it upstream and offers it
/// downstream; once the consumer has accepted it too, the transducer stands
/// in the root directory on both sides.
pub proof fn lemma_root_passes(root: Seq<char>)
    ensures
        filter::started(MsgView::Root(root)) == Ok::<TurnView, filter::Fault>(
            TurnView::Push(
                Some(Action::Down),
                MsgView::Root(root),
                Kind::Root,
                FilterState { path: PathView { root, names: Seq::empty() }, up: 1, down: 0 },
            ),
        ),
        filter::answered(
            Kind::Root,
            FilterState { path: PathView { root, names: Seq::empty() }, up: 1, down: 0 },
            Action::Down,
        ) == Ok::<TurnView, filter::Fault>(
            TurnView::Entries(
                None,
                FilterState { path: PathView { root, names: Seq::empty() }, up: 1, down: 1 },
            ),
        ),
{
}

/// A walk that feeds a transducer that feeds the consumer. For every
/// directory tree and every predicate, the stream comes to its end, and the
/// consumer has then noted exactly the entries that the predicate keeps
/// along the whole path from the root: no entry that is not kept, and
/// nothing below a directory that is not kept. Each of them is noted, and
/// noted once where no directory holds a name twice.
pub proof fn lemma_walk_filter_print(
    ls: spec_fn(PathView) -> Seq<EntryView>,
    keep: spec_fn(EntryView, PathView) -> bool,
    root: Seq<char>,
    kids: Seq<Tree>,
)
    requires
        sorted(ls(PathView { root, names: Seq::empty() })) == entries(kids, 0),
        shows(ls, PathView { root, names: Seq::empty() }, kids, 0),
        1 + height(Some(keep), PathView { root, names: Seq::empty() }, kids, 0) <= i32::MAX,
    ensures
        steps(
            ls,
            Some(keep),
            start(Some(keep), root),
            1 + cost(Some(keep), PathView { root, names: Seq::empty() }, kids, 0),
        ) == finished(noted(Some(keep), PathView { root, names: Seq::empty() }, kids, 0)),
        forall|v: VisitView|
            noted(Some(keep), PathView { root, names: Seq::empty() }, kids, 0).contains(
                Seen::Entry(v),
            ) <==> #[trigger] within(
                Some(keep),
                PathView { root, names: Seq::empty() },
                kids,
                0,
                v,
            ),
        unique(kids, 0) ==> once(
            noted(Some(keep), PathView { root, names: Seq::empty() }, kids, 0),
        ),
{
    let path = PathView { root, names: Seq::empty() };
    lemma_run(ls, Some(keep), root, kids);
    assert forall|v: VisitView|
        noted(Some(keep), path, kids, 0).contains(Seen::Entry(v)) <==> #[trigger] within(
            Some(keep),
            path,
            kids,
            0,
            v,
        ) by {
        lemma_noted_are_the_kept(Some(keep), path, kids, 0, v);
    }
    if unique(kids, 0) {
        lemma_noted_once(Some(keep), path, kids, 0);
    }
}

/// A walk that feeds the consumer. For every directory tree the stream comes
/// to its end, and the consumer has then noted every file and directory of
/// the tree, the children of each directory in the order of their names,
/// and all that is below a directory between that directory and its end.
/// What is noted are the files and directories of the tree and nothing else;
/// none is noted twice where no directory holds a name twice; and the
/// children of the root come in strictly increasing order of their names
/// where its listing holds no name twice.
pub proof fn lemma_walk_print(
    ls: spec_fn(PathView) -> Seq<EntryView>,
    root: Seq<char>,
    kids: Seq<Tree>,
)
    requires
        sorted(ls(PathView { root, names: Seq::empty() })) == entries(kids, 0),
        shows(ls, PathView { root, names: Seq::empty() }, kids, 0),
        1 + height(None, PathView { root, names: Seq::empty() }, kids, 0) <= i32::MAX,
    ensures
        steps(
            ls,
            None,
            start(None, root),
            1 + cost(None, PathView { root, names: Seq::empty() }, kids, 0),
        ) == finished(noted(None, PathView { root, names: Seq::empty() }, kids, 0)),
        entries_in(noted(None, PathView { root, names: Seq::empty() }, kids, 0)) == size(
            kids,
            0,
        ),
        forall|v: VisitView|
            noted(None, PathView { root, names: Seq::empty() }, kids, 0).contains(Seen::Entry(v))
                <==> #[trigger] within(None, PathView { root, names: Seq::empty() }, kids, 0, v),
        unique(kids, 0) ==> once(noted(None, PathView { root, names: Seq::empty() }, kids, 0)),
        distinct(ls(PathView { root, names: Seq::empty() })) ==> increasing(entries(kids, 0)),
{
    let path = PathView { root, names: Seq::empty() };
    lemma_run(ls, None, root, kids);
    lemma_noted_all(path, kids, 0);
    assert forall|v: VisitView|
        noted(None, path, kids, 0).contains(Seen::Entry(v)) <==> #[trigger] within(
            None,
            path,
            kids,
            0,
            v,
        ) by {
        lemma_noted_are_the_kept(None, path, kids, 0, v);
    }
    if unique(kids, 0) {
        lemma_noted_once(None, path, kids, 0);
    }
    if distinct(ls(path)) {
        lemma_sorted_increasing(ls(path));
    }
}

/// The children of a directory are offered in strictly increasing order of
/// their names, whenever its listing holds no name twice.
pub proof fn lemma_children_increase(
    ls: spec_fn(PathView) -> Seq<EntryView>,
    path: PathView,
    kids: Seq<Tree>,
)
    requires
        sorted(ls(path)) == entries(kids, 0),
        distinct(ls(path)),
    ensures
        increasing(entries(kids, 0)),
{
    lemma_sorted_increasing(ls(path));
}

proof fn lemma_run(
    ls: spec_fn(PathView) -> Seq<EntryView>,
    keep: Keep,
    root: Seq<char>,
    kids: Seq<Tree>,
)
    requires
        sorted(ls(PathView { root, names: Seq::empty() })) == entries(kids, 0),
        shows(ls, PathView { root, names: Seq::empty() }, kids, 0),
        1 + height(keep, PathView { root, names: Seq::empty() }, kids, 0) <= i32::MAX,
    ensures
        steps(
            ls,
            keep,
            start(keep, root),
            1 + cost(keep, PathView { root, names: Seq::empty() }, kids, 0),
        ) == finished(noted(keep, PathView { root, names: Seq::empty() }, kids, 0)),
{
    let path = PathView { root, names: Seq::empty() };
    let c = start(keep, root);
    let d = step(ls, keep, c);
    let below = Seq::<Seq<EntryView>>::empty();
    assert(d == Stages {
        walk: advance(path, below.push(entries(kids, 0)), 1),
        sink: Some(sink_at(keep, path, 1)),
        noted: Seq::empty(),
    });
    lemma_directory(ls, keep, path, below, kids, 0, 1, Seq::empty());
    let n = cost(keep, path, kids, 0);
    assert(steps(ls, keep, c, 1 + n) == steps(ls, keep, d, n));
    assert(Seq::<Seen>::empty() + noted(keep, path, kids, 0) =~= noted(keep, path, kids, 0));
}

/// The number of files and directories in the children of `kids` from the
/// `i`-th on, with all that is below them.
pub open spec fn size(kids: Seq<Tree>, i: int) -> nat
    decreases kids, kids.len() - i,
{
    if i < 0 || i >= kids.len() {
        0
    } else {
        let below = if kids[i].entry.dir {
            size(kids[i].children, 0)
        } else {
            0
        };
        1 + below + size(kids, i + 1)
    }
}

/// The number of entries among what was noted.
pub open spec fn entries_in(noted: Seq<Seen>) -> nat
    decreases noted.len(),
{
    if noted.len() == 0 {
        0
    } else {
        let this: nat = if noted.last() is Entry {
            1
        } else {
            0
        };
        this + entries_in(noted.drop_last())
    }
}

/// The entries of two runs add up.
pub proof fn lemma_entries_in_add(a: Seq<Seen>, b: Seq<Seen>)
    ensures
        entries_in(a + b) == entries_in(a) + entries_in(b),
    decreases b.len(),
{
    if b.len() == 0 {
        assert(a + b =~= a);
    } else {
        assert((a + b).drop_last() =~= a + b.drop_last());
        lemma_entries_in_add(a, b.drop_last());
    }
}

/// Where every entry is kept, as many entries are noted as the tree has
/// files and directories.
pub proof fn lemma_noted_all(path: PathView, kids: Seq<Tree>, i: int)
    requires
        0 <= i <= kids.len(),
    ensures
        entries_in(noted(None, path, kids, i)) == size(kids, i),
    decreases kids, kids.len() - i,
{
    if i >= kids.len() {
        assert(seq![Seen::End].drop_last() =~= Seq::<Seen>::empty());
        assert(entries_in(seq![Seen::End].drop_last()) == 0);
    } else {
        let e = kids[i].entry;
        let at = path.push(e.name);
        let v = seq![Seen::Entry(VisitView { dir: e.dir, path: at })];
        assert(v.drop_last() =~= Seq::<Seen>::empty());
        assert(entries_in(v.drop_last()) == 0);
        assert(entries_in(v) == 1);
        lemma_noted_all(path, kids, i + 1);
        if e.dir {
            lemma_noted_all(at, kids[i].children, 0);
            lemma_entries_in_add(v, noted(None, at, kids[i].children, 0));
            lemma_entries_in_add(
                v + noted(None, at, kids[i].children, 0),
                noted(None, path, kids, i + 1),
            );
        } else {
            lemma_entries_in_add(v, noted(None, path, kids, i + 1));
        }
    }
}

/// The visit `v` is that of a file or directory that is kept, among the
/// children of `kids` from the `i`-th on in a directory at `path` or below
/// them, with every directory kept that lies between.
pub open spec fn within(keep: Keep, path: PathView, kids: Seq<Tree>, i: int, v: VisitView) -> bool
    decreases kids, kids.len() - i,
{
    if i < 0 || i >= kids.len() {
        false
    } else {
        let e = kids[i].entry;
        let at = path.push(e.name);
        ||| (keeps(keep, e, at) && v == (VisitView { dir: e.dir, path: at }))
        ||| (keeps(keep, e, at) && e.dir && within(keep, at, kids[i].children, 0, v))
        ||| within(keep, path, kids, i + 1, v)
    }
}

/// No two of the children of `kids` from the `i`-th on have one name, nor
/// have two children of any directory below them.
pub open spec fn unique(kids: Seq<Tree>, i: int) -> bool
    decreases kids, kids.len() - i,
{
    if i < 0 || i >= kids.len() {
        true
    } else {
        &&& forall|k: int| i < k < kids.len() ==> (#[trigger] kids[k]).entry.name != kids[i].entry.name
        &&& kids[i].entry.dir ==> unique(kids[i].children, 0)
        &&& unique(kids, i + 1)
    }
}

/// No entry is noted twice.
pub open spec fn once(noted: Seq<Seen>) -> bool {
    forall|a: int, b: int|
        0 <= a < b < noted.len() && #[trigger] noted[a] is Entry && #[trigger] noted[b] is Entry
            ==> noted[a] != noted[b]
}

/// What is noted of a directory's contents are the files and directories in
/// it and below it that are kept along the whole path down to them: none of
/// these is missing, and nothing else is noted.
pub proof fn lemma_noted_are_the_kept(
    keep: Keep,
    path: PathView,
    kids: Seq<Tree>,
    i: int,
    v: VisitView,
)
    requires
        0 <= i <= kids.len(),
    ensures
        noted(keep, path, kids, i).contains(Seen::Entry(v)) <==> within(keep, path, kids, i, v),
    decreases kids, kids.len() - i,
{
    let log = noted(keep, path, kids, i);
    let x = Seen::Entry(v);
    if i >= kids.len() {
        if log.contains(x) {
            let k = choose|k: int| 0 <= k < log.len() && log[k] == x;
            assert(log[k] == Seen::End);
        }
    } else {
        let e = kids[i].entry;
        let at = path.push(e.name);
        let kept = keeps(keep, e, at);
        let head = if kept {
            seq![Seen::Entry(VisitView { dir: e.dir, path: at })]
        } else {
            Seq::<Seen>::empty()
        };
        let sub = if kept && e.dir {
            noted(keep, at, kids[i].children, 0)
        } else {
            Seq::<Seen>::empty()
        };
        let rest = noted(keep, path, kids, i + 1);
        let h = head.len() as int;
        assert(log =~= head + sub + rest);
        lemma_noted_are_the_kept(keep, path, kids, i + 1, v);
        if e.dir {
            lemma_noted_are_the_kept(keep, at, kids[i].children, 0, v);
        }
        if log.contains(x) {
            let k = choose|k: int| 0 <= k < log.len() && log[k] == x;
            if k < h {
                assert(head[k] == x);
            } else if k < h + sub.len() {
                assert(sub[k - h] == x);
                assert(sub.contains(x));
            } else {
                assert(rest[k - h - sub.len()] == x);
                assert(rest.contains(x));
            }
        }
        if within(keep, path, kids, i, v) {
            if kept && v == (VisitView { dir: e.dir, path: at }) {
                assert(log[0] == x);
            } else if kept && e.dir && within(keep, at, kids[i].children, 0, v) {
                let k = choose|k: int| 0 <= k < sub.len() && sub[k] == x;
                assert(log[h + k] == x);
            } else {
                let k = choose|k: int| 0 <= k < rest.len() && rest[k] == x;
                assert(log[h + sub.len() + k] == x);
            }
        }
    }
}

/// The path of a file or directory in or below a directory at `path` goes
/// through that directory: it starts as `path` does, and goes on with the
/// name of one of the directory's children.
pub proof fn lemma_within_below(keep: Keep, path: PathView, kids: Seq<Tree>, i: int, v: VisitView)
    requires
        0 <= i <= kids.len(),
        within(keep, path, kids, i, v),
    ensures
        v.path.root == path.root,
        v.path.names.len() > path.names.len(),
        v.path.names.subrange(0, path.names.len() as int) == path.names,
        exists|k: int|
            i <= k < kids.len() && v.path.names[path.names.len() as int]
                == (#[trigger] kids[k]).entry.name,
        (kids[i].entry.dir && within(
            keep,
            path.push(kids[i].entry.name),
            kids[i].children,
            0,
            v,
        )) || v == (VisitView { dir: kids[i].entry.dir, path: path.push(kids[i].entry.name) })
            ==> v.path.names[path.names.len() as int] == kids[i].entry.name,
    decreases kids, kids.len() - i,
{
    let e = kids[i].entry;
    let at = path.push(e.name);
    let n = path.names.len() as int;
    if v == (VisitView { dir: e.dir, path: at }) {
        assert(at.names.subrange(0, n) =~= path.names);
        assert(kids[i].entry.name == v.path.names[n]);
    } else if e.dir && within(keep, at, kids[i].children, 0, v) {
        lemma_within_below(keep, at, kids[i].children, 0, v);
        assert(v.path.names.subrange(0, n) =~= v.path.names.subrange(0, n + 1).subrange(0, n));
        assert(at.names.subrange(0, n) =~= path.names);
        assert(v.path.names[n] == v.path.names.subrange(0, n + 1)[n]);
        assert(kids[i].entry.name == v.path.names[n]);
    } else {
        lemma_within_below(keep, path, kids, i + 1, v);
        let k = choose|k: int|
            i + 1 <= k < kids.len() && v.path.names[n] == (#[trigger] kids[k]).entry.name;
        assert(i <= k < kids.len() && v.path.names[n] == kids[k].entry.name);
    }
}

/// Where no two children of a directory have one name, no file or directory
/// is noted twice.
pub proof fn lemma_noted_once(keep: Keep, path: PathView, kids: Seq<Tree>, i: int)
    requires
        0 <= i <= kids.len(),
        unique(kids, i),
    ensures
        once(noted(keep, path, kids, i)),
    decreases kids, kids.len() - i,
{
    let log = noted(keep, path, kids, i);
    if i < kids.len() {
        let e = kids[i].entry;
        let at = path.push(e.name);
        let kept = keeps(keep, e, at);
        let first = VisitView { dir: e.dir, path: at };
        let head = if kept {
            seq![Seen::Entry(first)]
        } else {
            Seq::<Seen>::empty()
        };
        let sub = if kept && e.dir {
            noted(keep, at, kids[i].children, 0)
        } else {
            Seq::<Seen>::empty()
        };
        let rest = noted(keep, path, kids, i + 1);
        let h = head.len() as int;
        let n = path.names.len() as int;
        assert(log =~= head + sub + rest);
        lemma_noted_once(keep, path, kids, i + 1);
        if e.dir {
            lemma_noted_once(keep, at, kids[i].children, 0);
        }
        assert forall|a: int, b: int|
            0 <= a < b < log.len() && #[trigger] log[a] is Entry && #[trigger] log[b] is Entry implies log[a]
            != log[b] by {
            let va = log[a]->Entry_0;
            let vb = log[b]->Entry_0;
            if b < h + sub.len() {
                // Both lie in what is noted of the child itself.
                assert(sub[b - h] == log[b]);
                assert(sub.contains(Seen::Entry(vb)));
                lemma_noted_are_the_kept(keep, at, kids[i].children, 0, vb);
                lemma_within_below(keep, at, kids[i].children, 0, vb);
                if a < h {
                    assert(va == first);
                    assert(vb.path.names.len() > at.names.len());
                } else {
                    assert(sub[a - h] == log[a]);
                }
            } else {
                assert(rest[b - h - sub.len()] == log[b]);
                assert(rest.contains(Seen::Entry(vb)));
                lemma_noted_are_the_kept(keep, path, kids, i + 1, vb);
                lemma_within_below(keep, path, kids, i + 1, vb);
                let k = choose|k: int|
                    i + 1 <= k < kids.len() && vb.path.names[n] == (#[trigger] kids[k]).entry.name;
                assert(kids[k].entry.name != kids[i].entry.name);
                if a >= h + sub.len() {
                    assert(rest[a - h - sub.len()] == log[a]);
                } else {
                    // The one lies in or below the child, the other behind it.
                    if a < h {
                        assert(va == first);
                        assert(first.path.names[n] == e.name);
                    } else {
                        assert(sub[a - h] == log[a]);
                        assert(sub.contains(Seen::Entry(va)));
                        lemma_noted_are_the_kept(keep, at, kids[i].children, 0, va);
                        assert(within(keep, path, kids, i, va));
                        lemma_within_below(keep, path, kids, i, va);
                    }
                    assert(va.path.names[n] == e.name);
                }
            }
        }
    } else {
        assert(log.len() == 1);
    }
}

} // verus!
