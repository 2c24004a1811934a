use herang::{
    eval, init_env, Builtin, CyberFunc, Func, HeEnv, HeError, HeResult, LenFunc, PrintFunc,
    ReadLineFunc, SPrintFunc, SliceFunc, TrimFunc, Value,
};

/// A stand-in for the functions that read and print: it returns its last
/// argument and touches nothing.
#[derive(Debug, Clone, Copy)]
struct Silent;

impl Func for Silent {
    fn call(&self, args: &[Value], _env: &mut HeEnv<Silent>) -> HeResult {
        match args.last() {
            Some(value) => Ok(value.duplicate()),
            None => Ok(Value::default()),
        }
    }

    fn duplicate(&self) -> Silent {
        Silent
    }
}

fn v(items: Vec<u32>) -> Value {
    Value::new(items)
}

fn run(source: &str) -> Vec<u32> {
    let mut env = HeEnv::new();
    init_env(&mut env, Silent, Silent, Silent).unwrap();
    eval(source, &mut env).unwrap().value
}

#[test]
fn cyber_allocates_zeros() {
    assert_eq!(CyberFunc::apply(&[v(vec![5])]).unwrap().value, vec![0, 0, 0, 0, 0]);
    assert_eq!(CyberFunc::apply(&[v(vec![2, 1])]).unwrap().value, vec![0, 0, 0]);
    assert_eq!(CyberFunc::apply(&[v(vec![])]).unwrap().value, Vec::<u32>::new());
    assert_eq!(run("cyber(1 | 1 | 1);"), vec![0, 0, 0]);
    assert_eq!(run("cyber(2 | 3);"), vec![0, 0, 0, 0, 0]);
}

#[test]
fn cyber_sum_wraps() {
    assert_eq!(CyberFunc::apply(&[v(vec![4294967295, 3])]).unwrap().value, vec![0, 0]);
}

#[test]
fn cyber_takes_one_argument() {
    assert!(matches!(
        CyberFunc::apply(&[]),
        Err(HeError::ArityMismatch { expected: 1, got: 0 })
    ));
    assert!(matches!(
        CyberFunc::apply(&[v(vec![1]), v(vec![1])]),
        Err(HeError::ArityMismatch { expected: 1, got: 2 })
    ));
}

#[test]
fn len_counts_elements() {
    assert_eq!(LenFunc::apply(&[v(vec![7, 7, 7])]).unwrap().value, vec![3]);
    assert_eq!(LenFunc::apply(&[v(vec![])]).unwrap().value, vec![0]);
    assert_eq!(run("len(cyber(68));"), vec![68]);
    assert!(matches!(LenFunc::apply(&[]), Err(HeError::ArityMismatch { expected: 1, got: 0 })));
}

#[test]
fn slice_takes_a_range() {
    let whole = v(vec![5, 6, 7, 8]);
    let r = SliceFunc::apply(&[whole.duplicate(), v(vec![1]), v(vec![3])]);
    assert_eq!(r.unwrap().value, vec![6, 7]);
    let r = SliceFunc::apply(&[whole.duplicate(), v(vec![]), v(vec![2, 2])]);
    assert_eq!(r.unwrap().value, vec![5, 6, 7, 8]);
    let r = SliceFunc::apply(&[whole.duplicate(), v(vec![2]), v(vec![2])]);
    assert_eq!(r.unwrap().value, Vec::<u32>::new());
    let r = SliceFunc::apply(&[whole.duplicate(), v(vec![9]), v(vec![2])]);
    assert_eq!(r.unwrap().value, Vec::<u32>::new());
    assert_eq!(run("slice(5 | 6 | 7 | 8, 1 | 1, 3);"), vec![7]);
}

#[test]
fn slice_rejects_a_range_beyond_the_end() {
    let r = SliceFunc::apply(&[v(vec![5, 6]), v(vec![0]), v(vec![3])]);
    match r {
        Err(HeError::Library(text)) => assert_eq!(text, "out of range(got [0, 3])"),
        _ => panic!("a range beyond the end must fail"),
    }
    assert!(matches!(
        SliceFunc::apply(&[v(vec![5])]),
        Err(HeError::ArityMismatch { expected: 3, got: 1 })
    ));
}

#[test]
fn trim_strips_white_space_at_both_ends() {
    let r = TrimFunc::apply(&[v(vec![32, 97, 32, 98, 32, 10])]);
    assert_eq!(r.unwrap().value, vec![97, 32, 98]);
    let r = TrimFunc::apply(&[v(vec![9, 10, 11, 12, 13, 32])]);
    assert_eq!(r.unwrap().value, Vec::<u32>::new());
    let r = TrimFunc::apply(&[v(vec![0xc2, 0xa0, 0x78, 0xe3, 0x80, 0x80])]);
    assert_eq!(r.unwrap().value, vec![0x78]);
    assert_eq!(run("trim(32 | 120 | 10);"), vec![120]);
}

#[test]
fn trim_reads_the_lowest_byte_of_each_element() {
    let r = TrimFunc::apply(&[v(vec![256 + 32, 512 + 97])]);
    assert_eq!(r.unwrap().value, vec![97]);
}

#[test]
fn trim_rejects_what_is_not_text() {
    assert!(matches!(TrimFunc::apply(&[v(vec![255])]), Err(HeError::TypeConversionFailure)));
    assert!(matches!(TrimFunc::apply(&[v(vec![0xc2])]), Err(HeError::TypeConversionFailure)));
    assert!(matches!(TrimFunc::apply(&[]), Err(HeError::ArityMismatch { expected: 1, got: 0 })));
}

#[test]
fn library_functions_leave_the_environment() {
    let mut env: HeEnv<Builtin> = HeEnv::new();
    env.set_var("a".to_string(), v(vec![1])).unwrap();
    let f = Builtin::Len(LenFunc);
    assert_eq!(f.apply(&[v(vec![9])]).unwrap().value, vec![1]);
    assert_eq!(f.call(&[v(vec![4, 4])], &mut env).unwrap().value, vec![2]);
    assert_eq!(f.duplicate().call(&[v(vec![])], &mut env).unwrap().value, vec![0]);
    assert_eq!(env.depth(), 1);
    assert_eq!(env.get_var("a").unwrap().value, vec![1]);
}

#[test]
fn print_line_joins_the_values() {
    assert_eq!(PrintFunc::line(&[v(vec![1, 2])]).unwrap(), "(1 | 2)");
    assert_eq!(PrintFunc::line(&[v(vec![1, 2]), v(vec![]), v(vec![30])]).unwrap(), "(1 | 2) () (30)");
    assert!(matches!(PrintFunc::line(&[]), Err(HeError::ArityMismatch { expected: 1, got: 0 })));
}

#[test]
fn sprint_line_joins_the_texts() {
    assert_eq!(SPrintFunc::sprint(&v(vec![104, 105])).unwrap(), "hi");
    assert_eq!(SPrintFunc::sprint(&v(vec![])).unwrap(), "");
    assert_eq!(SPrintFunc::line(&[v(vec![104, 105]), v(vec![0xe4, 0xbd, 0x95])]).unwrap(), "hi 何");
    assert!(matches!(SPrintFunc::sprint(&v(vec![255])), Err(HeError::TypeConversionFailure)));
    assert!(matches!(
        SPrintFunc::line(&[v(vec![104]), v(vec![255]), v(vec![105])]),
        Err(HeError::TypeConversionFailure)
    ));
    assert!(matches!(SPrintFunc::line(&[]), Err(HeError::ArityMismatch { expected: 1, got: 0 })));
}

#[test]
fn readline_gives_the_bytes_of_the_line() {
    assert_eq!(ReadLineFunc::value("hi\n").value, vec![104, 105, 10]);
    assert_eq!(ReadLineFunc::value("何").value, vec![0xe4, 0xbd, 0x95]);
    assert_eq!(ReadLineFunc::value("").value, Vec::<u32>::new());
    assert!(ReadLineFunc::check(&[]).is_ok());
    assert!(matches!(
        ReadLineFunc::check(&[v(vec![1])]),
        Err(HeError::ArityMismatch { expected: 0, got: 1 })
    ));
}

/// A function that reads: it hands out a line that it was made with.
#[derive(Debug, Clone, Copy)]
enum Console {
    ReadLine(&'static str),
    Print,
    SPrint,
}

impl Func for Console {
    fn call(&self, args: &[Value], _env: &mut HeEnv<Console>) -> HeResult {
        match self {
            Console::ReadLine(line) => {
                ReadLineFunc::check(args)?;
                Ok(ReadLineFunc::value(line))
            }
            Console::Print => {
                PrintFunc::line(args)?;
                herang::last_of(args)
            }
            Console::SPrint => {
                SPrintFunc::line(args)?;
                herang::last_of(args)
            }
        }
    }

    fn duplicate(&self) -> Console {
        *self
    }
}

#[test]
fn init_env_binds_the_callers_functions_too() {
    let mut env = HeEnv::new();
    let r = init_env(&mut env, Console::ReadLine("hi\n"), Console::Print, Console::SPrint);
    assert_eq!(r.unwrap().value, Vec::<u32>::new());
    for name in ["readline", "print", "sprint", "cyber", "trim", "len", "slice"] {
        assert!(env.get_func(name).is_some(), "{}", name);
    }
    assert!(env.get_func("time").is_none());
    assert!(env.get_var("readline").is_none());
    assert_eq!(eval("trim(readline());", &mut env).unwrap().value, vec![104, 105]);
    assert_eq!(eval("a = print(1 | 2, 3);", &mut env).unwrap().value, vec![3]);
    assert_eq!(eval("sprint(104 | 105);", &mut env).unwrap().value, vec![104, 105]);
    assert!(matches!(eval("print();", &mut env), Err(HeError::ArityMismatch { .. })));
    assert!(matches!(eval("readline(1);", &mut env), Err(HeError::ArityMismatch { .. })));
    assert!(matches!(eval("sprint(255);", &mut env), Err(HeError::TypeConversionFailure)));
    match init_env(&mut env, Console::ReadLine(""), Console::Print, Console::SPrint) {
        Err(HeError::DuplicateFunctionDefinition(name)) => assert_eq!(name, "readline"),
        _ => panic!("a second registration in one scope must fail"),
    }
}
