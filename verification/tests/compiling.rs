use fspipe::command::{Command, CommandType, Error, Type};
use fspipe::compile::{compile, depipe, typecheck, types_for, Builtin, Commands};
use fspipe::parse::{parse, ASTNode};

fn show(node: &ASTNode) -> String {
    match node {
        ASTNode::Word(s) => format!("w({})", s),
        ASTNode::Command(c) => {
            let args: Vec<String> = c.args.iter().map(show).collect();
            format!("c({};{})", c.name, args.join(","))
        }
        ASTNode::Pipe(left, c) => {
            let args: Vec<String> = c.args.iter().map(show).collect();
            format!("p({}|{};{})", show(left), c.name, args.join(","))
        }
    }
}

fn compiled(s: &str) -> String {
    show(&compile(s, &Commands::new()).unwrap())
}

#[test]
fn three_spellings_of_one_pipeline() {
    let want = "c(print;c(walk;w(/tmp)))";
    assert_eq!(compiled("walk /tmp"), want);
    assert_eq!(compiled("walk /tmp | print"), want);
    assert_eq!(compiled("print /tmp"), want);
}

#[test]
fn a_pipe_becomes_the_first_argument() {
    let node = depipe(parse("a x | b y | c").unwrap());
    assert_eq!(show(&node), "c(c;c(b;c(a;w(x)),w(y)))");
    let node = depipe(parse("f {a | b}").unwrap());
    assert_eq!(show(&node), "c(f;c(b;c(a;)))");
}

#[test]
fn arguments_beyond_those_asked_for_are_dropped() {
    assert_eq!(compiled("print a b"), "c(print;c(walk;w(a)))");
}

#[test]
fn a_command_that_is_not_registered() {
    let cmds = Commands::new();
    assert!(matches!(compile("/tmp", &cmds),
        Err(Error::ErrCommandNotFound { ref name }) if name == "/tmp"));
    assert!(matches!(compile("walk {nosuch}", &cmds),
        Err(Error::ErrCommandNotFound { ref name }) if name == "nosuch"));
    assert!(matches!(compile("filter /tmp {mode d}", &cmds),
        Err(Error::ErrCommandNotFound { ref name }) if name == "mode"));
    assert!(matches!(cmds.get(&"or".to_string()), Err(Error::ErrCommandNotFound { .. })));
}

#[test]
fn too_few_arguments() {
    let cmds = Commands::new();
    assert!(matches!(compile("filter /tmp", &cmds),
        Err(Error::ErrTooFewArgs { ref name }) if name == "filter"));
    assert!(matches!(compile("walk /tmp | filter", &cmds),
        Err(Error::ErrTooFewArgs { ref name }) if name == "filter"));
    assert!(matches!(compile("walk", &cmds),
        Err(Error::ErrTooFewArgs { ref name }) if name == "walk"));
}

#[test]
fn no_conversion_from_a_stream_to_a_string() {
    let r = compile("walk {walk /tmp}", &Commands::new());
    assert!(matches!(r, Err(Error::ErrConvert { from: Type::Fs, to: Type::String })));
}

#[test]
fn what_does_not_parse_does_not_compile() {
    assert!(matches!(compile("walk |", &Commands::new()), Err(Error::ErrParse { .. })));
    assert!(matches!(compile("filter {mode +d}", &Commands::new()), Err(Error::ErrParse { .. })));
}

#[test]
fn the_check_looks_at_the_head_only() {
    // The inner command has no argument, and is not looked into.
    assert_eq!(compiled("print {walk}"), "c(print;c(walk;))");
    let cmds = Commands::new();
    let node = typecheck(depipe(parse("print {walk {nosuch}}").unwrap()), &cmds).unwrap();
    assert_eq!(show(&node), "c(print;c(walk;c(nosuch;)))");
}

#[test]
fn a_word_is_left_as_it_is_by_the_check() {
    let node = typecheck(ASTNode::Word("x".to_string()), &Commands::new()).unwrap();
    assert_eq!(show(&node), "w(x)");
}

#[test]
fn the_registered_commands_and_their_signatures() {
    let cmds = Commands::new();
    assert_eq!(cmds.get(&"print".to_string()).unwrap(), Builtin::Print);
    assert_eq!(cmds.get(&"walk".to_string()).unwrap(), Builtin::Walk);
    assert_eq!(cmds.get(&"filter".to_string()).unwrap(), Builtin::Filter);
    let f = cmds.fs_type(Builtin::Filter);
    assert_eq!(f.args, vec![Type::Fs, Type::Selector]);
    assert_eq!(f.var_args, None);
    assert_eq!(f.ret, Type::Fs);
    assert!(f.flags.is_empty());
    assert_eq!(cmds.fs_type(Builtin::Print).ret, Type::Void);
    assert_eq!(cmds.fs_type(Builtin::Walk).args, vec![Type::String]);
}

#[test]
fn the_types_asked_of_arguments() {
    let fixed = CommandType::new(vec![Type::Fs, Type::Selector], None, Type::Fs);
    assert_eq!(types_for(&fixed, 0), vec![]);
    assert_eq!(types_for(&fixed, 1), vec![Type::Fs]);
    assert_eq!(types_for(&fixed, 2), vec![Type::Fs, Type::Selector]);
    assert_eq!(types_for(&fixed, 5), vec![Type::Fs, Type::Selector]);
    let open = CommandType::new(vec![Type::String], Some(Type::Selector), Type::Void);
    assert_eq!(types_for(&open, 0), vec![]);
    assert_eq!(types_for(&open, 1), vec![Type::String]);
    assert_eq!(
        types_for(&open, 4),
        vec![Type::String, Type::Selector, Type::Selector, Type::Selector]
    );
    let any = fspipe::or::new_command();
    assert_eq!(types_for(any.fs_type(), 3), vec![Type::Selector; 3]);
    assert_eq!(fixed.expected(1), Some(Type::Selector));
    assert_eq!(fixed.expected(2), None);
    assert_eq!(open.expected(9), Some(Type::Selector));
}
