use fspipe::command::{Command, Error, Outcome, Selector, Task, Tasks, Type, Value};
use fspipe::compile::{can_start, compile, start, Commands};
use fspipe::fstream;
use fspipe::fstream::{DirEntry, Path};
use fspipe::parse::{parse, ASTNode};

fn kinds(tasks: Tasks) -> Vec<String> {
    tasks
        .take()
        .iter()
        .map(|t| match t {
            Task::Walk(path, _) => format!("walk {}", path),
            Task::Filter(..) => "filter".to_string(),
            Task::Print(_) => "print".to_string(),
        })
        .collect()
}

#[test]
fn a_compiled_pipeline_starts_its_stages_arguments_first() {
    let cmds = Commands::new();
    let mut tasks = Tasks::new();
    let node = compile("walk /tmp", &cmds).unwrap();
    let v = start(node, &cmds, &mut tasks).unwrap();
    assert_eq!(v.fs_type(), Type::Void);
    assert_eq!(kinds(tasks), vec!["walk /tmp", "print"]);
}

#[test]
fn a_word_starts_as_a_string() {
    let cmds = Commands::new();
    let mut tasks = Tasks::new();
    let v = start(ASTNode::Word("x".to_string()), &cmds, &mut tasks).unwrap();
    assert!(matches!(v, Value::String(ref s) if s == "x"));
    assert!(kinds(tasks).is_empty());
}

#[test]
fn an_inner_command_without_its_argument_is_refused_and_nothing_is_started() {
    let cmds = Commands::new();
    let mut tasks = Tasks::new();
    let node = compile("print {walk}", &cmds).unwrap();
    assert!(!can_start(&node, &cmds));
    let r = start(node, &cmds, &mut tasks);
    assert!(matches!(r, Err(Error::ErrFstream { source: fstream::Error::ErrUsage { ref msg } })
        if msg == "expression cannot be started"));
    assert!(kinds(tasks).is_empty());
}

#[test]
fn what_cannot_be_started() {
    let cmds = Commands::new();
    for s in ["nosuch", "walk", "walk a b", "print /tmp", "walk {walk /tmp}", "a | b"] {
        let node = parse(s).unwrap();
        assert!(!can_start(&node, &cmds), "{:?} can be started", s);
        assert!(start(node, &cmds, &mut Tasks::new()).is_err());
    }
    assert!(can_start(&parse("walk /tmp").unwrap(), &cmds));
    assert!(can_start(&parse("print {walk /tmp}").unwrap(), &cmds));
}

#[test]
fn the_print_command_asks_for_a_consumer() {
    let (_send, recv) = fstream::new();
    let mut tasks = Tasks::new();
    let cmd = fspipe::print::new_command();
    let v = cmd.start(&mut tasks, vec![], vec![Value::Fs(recv)], vec![]).unwrap();
    assert!(matches!(v, Value::Void));
    assert_eq!(kinds(tasks), vec!["print"]);
}

#[test]
fn the_filter_command_asks_for_a_transducer_and_gives_a_stream() {
    let (_send, recv) = fstream::new();
    let mut tasks = Tasks::new();
    let cmd = fspipe::filter::new_command();
    let args = vec![Value::Fs(recv), Value::Selector(Selector::IsDir)];
    let v = cmd.start(&mut tasks, vec![], args, vec![]).unwrap();
    assert_eq!(v.fs_type(), Type::Fs);
    let started = tasks.take();
    assert_eq!(started.len(), 1);
    assert!(matches!(started[0], Task::Filter(_, _, Selector::IsDir)));
}

#[test]
fn the_mode_command_knows_one_mode() {
    let cmd = fspipe::mode::new_command();
    let mut tasks = Tasks::new();
    let v = cmd.start(&mut tasks, vec![], vec![Value::String("d".to_string())], vec![]);
    assert!(matches!(v, Ok(Value::Selector(Selector::IsDir))));
    let v = cmd.start(&mut tasks, vec![], vec![Value::String("x".to_string())], vec![]);
    assert!(matches!(v, Err(fstream::Error::ErrUsage { ref msg }) if msg == "invalid mode x"));
    let v = cmd.start(&mut tasks, vec![], vec![Value::String("".to_string())], vec![]);
    assert!(matches!(v, Err(fstream::Error::ErrUsage { ref msg }) if msg == "invalid mode "));
    assert!(kinds(tasks).is_empty());
}

#[test]
fn the_or_command_joins_selectors_in_their_order() {
    let cmd = fspipe::or::new_command();
    let mut tasks = Tasks::new();
    let inner = Selector::Any(vec![]);
    let args = vec![Value::Selector(inner), Value::Selector(Selector::IsDir)];
    let v = cmd.start(&mut tasks, vec![], args, vec![]).unwrap();
    match v {
        Value::Selector(Selector::Any(v)) => {
            assert_eq!(v.len(), 2);
            assert!(matches!(v[0], Selector::Any(ref e) if e.is_empty()));
            assert!(matches!(v[1], Selector::IsDir));
        }
        _ => panic!("no selector"),
    }
}

#[test]
fn selectors_hold_as_they_say() {
    let dir = DirEntry::new("a".to_string(), true);
    let file = DirEntry::new("b".to_string(), false);
    let path = Path::new("/t".to_string());
    assert!(Selector::IsDir.matches(&dir, &path));
    assert!(!Selector::IsDir.matches(&file, &path));
    let none = Selector::Any(vec![]);
    assert!(!none.matches(&dir, &path));
    let nested = Selector::Any(vec![Selector::Any(vec![]), Selector::IsDir]);
    assert!(nested.matches(&dir, &path));
    assert!(!nested.matches(&file, &path));
}

#[test]
fn values_know_their_types() {
    let (_send, recv) = fstream::new();
    assert_eq!(Value::Void.fs_type(), Type::Void);
    assert_eq!(Value::Fs(recv).fs_type(), Type::Fs);
    assert_eq!(Value::String("s".to_string()).fs_type(), Type::String);
    assert_eq!(Value::Selector(Selector::IsDir).fs_type(), Type::Selector);
    assert_eq!(Value::Void.type_text(), "Void");
    assert_eq!(Value::Selector(Selector::IsDir).type_text(), "Selector");
    assert_eq!(Value::String("s".to_string()).as_string().unwrap(), "s");
    assert!(matches!(Value::Selector(Selector::IsDir).as_selector(), Ok(Selector::IsDir)));
}

#[test]
fn the_first_failure_of_the_stages_is_the_result() {
    assert!(Tasks::join(vec![]).is_ok());
    let all_well: Vec<Outcome> = vec![Ok(Ok(())), Ok(Ok(()))];
    assert!(Tasks::join(all_well).is_ok());
    let two_fail: Vec<Outcome> = vec![
        Ok(Ok(())),
        Ok(Err(fstream::Error::ErrUnexpectedMessage)),
        Ok(Err(fstream::Error::ErrUnexpectedClosedChannel)),
    ];
    assert!(matches!(
        Tasks::join(two_fail),
        Err(Error::ErrFstream { source: fstream::Error::ErrUnexpectedMessage })
    ));
}

#[test]
fn a_task_that_panicked_is_a_failure_to_join() {
    let rt = tokio::runtime::Builder::new_current_thread().build().unwrap();
    let joined = rt.block_on(async {
        let h: tokio::task::JoinHandle<Result<(), fstream::Error>> =
            tokio::spawn(async { panic!("stage failed") });
        h.await
    });
    assert!(joined.is_err());
    let r = Tasks::join(vec![Ok(Ok(())), joined]);
    assert!(matches!(r, Err(Error::ErrTaskJoin { .. })));
}

#[test]
fn a_command_that_is_not_registered_is_named() {
    let cmds = Commands::new();
    let mut tasks = Tasks::new();
    let r = start(parse("nosuch a").unwrap(), &cmds, &mut tasks);
    assert!(matches!(r, Err(Error::ErrCommandNotFound { ref name }) if name == "nosuch"));
    // The first that stands in the way, in the order of starting.
    let r = start(parse("print {walk {first}} {second}").unwrap(), &cmds, &mut tasks);
    assert!(matches!(r, Err(Error::ErrCommandNotFound { ref name }) if name == "first"));
    let r = start(parse("print {walk} {second}").unwrap(), &cmds, &mut tasks);
    assert!(matches!(r, Err(Error::ErrFstream { source: fstream::Error::ErrUsage { .. } })));
    assert!(kinds(tasks).is_empty());
}
