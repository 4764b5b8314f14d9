use sccache::classify::{parse_arguments, CompilerArguments, ParsedArguments};

fn sv(args: &[&str]) -> Vec<String> {
    args.iter().map(|s| s.to_string()).collect()
}

fn parse_ok(args: &[&str]) -> ParsedArguments {
    match parse_arguments(&sv(args)) {
        CompilerArguments::Parsed(p) => p,
        o => panic!("Got unexpected parse result: {:?}", o),
    }
}

#[test]
fn test_parse_arguments_simple() {
    let parsed = parse_ok(&["-c", "foo.c", "-o", "foo.o"]);
    assert_eq!("foo.c", parsed.input);
    assert_eq!("c", parsed.extension);
    assert_eq!(Some(&"foo.o".to_string()), parsed.outputs.get("obj"));
    assert_eq!(1, parsed.outputs.len());
    assert!(parsed.preprocessor_args.is_empty());
    assert!(parsed.common_args.is_empty());
    assert!(!parsed.msvc_show_includes);
}

#[test]
fn test_parse_arguments_split_dwarf() {
    let parsed = parse_ok(&["-gsplit-dwarf", "-c", "foo.cpp", "-o", "foo.o"]);
    assert_eq!("foo.cpp", parsed.input);
    assert_eq!("cpp", parsed.extension);
    assert_eq!(Some(&"foo.o".to_string()), parsed.outputs.get("obj"));
    assert_eq!(Some(&"foo.dwo".to_string()), parsed.outputs.get("dwo"));
    assert_eq!(2, parsed.outputs.len());
    assert!(parsed.preprocessor_args.is_empty());
    assert_eq!(sv(&["-gsplit-dwarf"]), parsed.common_args);
    assert!(!parsed.msvc_show_includes);
}

#[test]
fn test_parse_arguments_extra() {
    let parsed = parse_ok(&["-c", "foo.cc", "-fabc", "-o", "foo.o", "-mxyz"]);
    assert_eq!("foo.cc", parsed.input);
    assert_eq!("cc", parsed.extension);
    assert_eq!(Some(&"foo.o".to_string()), parsed.outputs.get("obj"));
    assert_eq!(1, parsed.outputs.len());
    assert!(parsed.preprocessor_args.is_empty());
    assert_eq!(sv(&["-fabc", "-mxyz"]), parsed.common_args);
    assert!(!parsed.msvc_show_includes);
}

#[test]
fn test_parse_arguments_values() {
    let parsed = parse_ok(&["-c", "foo.cxx", "-fabc", "-I", "include", "-o", "foo.o", "-include",
        "file"]);
    assert_eq!("foo.cxx", parsed.input);
    assert_eq!("cxx", parsed.extension);
    assert_eq!(Some(&"foo.o".to_string()), parsed.outputs.get("obj"));
    assert_eq!(1, parsed.outputs.len());
    assert!(parsed.preprocessor_args.is_empty());
    assert_eq!(sv(&["-fabc", "-I", "include", "-include", "file"]), parsed.common_args);
    assert!(!parsed.msvc_show_includes);
}

#[test]
fn test_parse_arguments_preprocessor_args() {
    let parsed = parse_ok(&["-c", "foo.c", "-fabc", "-MF", "file", "-o", "foo.o", "-MQ", "abc"]);
    assert_eq!("foo.c", parsed.input);
    assert_eq!("c", parsed.extension);
    assert_eq!(Some(&"foo.o".to_string()), parsed.outputs.get("obj"));
    assert_eq!(1, parsed.outputs.len());
    assert_eq!(sv(&["-MF", "file", "-MQ", "abc"]), parsed.preprocessor_args);
    assert_eq!(sv(&["-fabc"]), parsed.common_args);
    assert!(!parsed.msvc_show_includes);
}

#[test]
fn test_parse_arguments_explicit_dep_target() {
    let parsed = parse_ok(&["-c", "foo.c", "-MT", "depfile", "-fabc", "-MF", "file", "-o",
        "foo.o"]);
    assert_eq!("foo.c", parsed.input);
    assert_eq!("c", parsed.extension);
    assert_eq!(Some(&"foo.o".to_string()), parsed.outputs.get("obj"));
    assert_eq!(1, parsed.outputs.len());
    assert_eq!(sv(&["-MF", "file"]), parsed.preprocessor_args);
    assert_eq!(sv(&["-fabc"]), parsed.common_args);
    assert!(!parsed.msvc_show_includes);
}

#[test]
fn test_parse_arguments_explicit_dep_target_needed() {
    let parsed = parse_ok(&["-c", "foo.c", "-MT", "depfile", "-fabc", "-MF", "file", "-o", "foo.o",
        "-MD"]);
    assert_eq!("foo.c", parsed.input);
    assert_eq!("c", parsed.extension);
    assert_eq!(Some(&"foo.o".to_string()), parsed.outputs.get("obj"));
    assert_eq!(1, parsed.outputs.len());
    assert_eq!(sv(&["-MF", "file", "-MD", "-MT", "depfile"]), parsed.preprocessor_args);
    assert_eq!(sv(&["-fabc"]), parsed.common_args);
    assert!(!parsed.msvc_show_includes);
}

#[test]
fn test_parse_arguments_dep_target_needed() {
    let parsed = parse_ok(&["-c", "foo.c", "-fabc", "-MF", "file", "-o", "foo.o", "-MD"]);
    assert_eq!("foo.c", parsed.input);
    assert_eq!("c", parsed.extension);
    assert_eq!(Some(&"foo.o".to_string()), parsed.outputs.get("obj"));
    assert_eq!(1, parsed.outputs.len());
    assert_eq!(sv(&["-MF", "file", "-MD", "-MT", "foo.o"]), parsed.preprocessor_args);
    assert_eq!(sv(&["-fabc"]), parsed.common_args);
    assert!(!parsed.msvc_show_includes);
}

#[test]
fn test_parse_arguments_empty_args() {
    assert_eq!(CompilerArguments::NotCompilation, parse_arguments(&sv(&[])));
}

#[test]
fn test_parse_arguments_not_compile() {
    assert_eq!(CompilerArguments::NotCompilation, parse_arguments(&sv(&["-o", "foo"])));
}

#[test]
fn test_parse_arguments_too_many_inputs() {
    assert_eq!(
        CompilerArguments::CannotCache("multiple input files"),
        parse_arguments(&sv(&["-c", "foo.c", "-o", "foo.o", "bar.c"]))
    );
}

#[test]
fn test_parse_arguments_clangmodules() {
    assert_eq!(
        CompilerArguments::CannotCache("clang modules"),
        parse_arguments(&sv(&["-c", "foo.c", "-fcxx-modules", "-o", "foo.o"]))
    );
    assert_eq!(
        CompilerArguments::CannotCache("clang modules"),
        parse_arguments(&sv(&["-c", "foo.c", "-fmodules", "-o", "foo.o"]))
    );
}

#[test]
fn test_parse_arguments_pgo() {
    assert_eq!(
        CompilerArguments::CannotCache("pgo"),
        parse_arguments(&sv(&["-c", "foo.c", "-fprofile-use", "-o", "foo.o"]))
    );
}

#[test]
fn test_parse_arguments_response_file() {
    assert_eq!(
        CompilerArguments::CannotCache("@file"),
        parse_arguments(&sv(&["-c", "foo.c", "@foo", "-o", "foo.o"]))
    );
}

#[test]
fn test_parse_arguments_no_input() {
    assert_eq!(
        CompilerArguments::CannotCache("no input file"),
        parse_arguments(&sv(&["-c", "-o", "foo.o"]))
    );
}

#[test]
fn test_parse_arguments_no_output() {
    assert_eq!(
        CompilerArguments::CannotCache("no output file"),
        parse_arguments(&sv(&["-c", "foo.c"]))
    );
}

#[test]
fn test_parse_arguments_unknown_extension() {
    assert_eq!(
        CompilerArguments::CannotCache("unknown source extension"),
        parse_arguments(&sv(&["-c", "foo.rs", "-o", "foo.o"]))
    );
}

#[test]
fn test_parse_arguments_stdin_input() {
    assert_eq!(
        CompilerArguments::CannotCache("multiple input files"),
        parse_arguments(&sv(&["-c", "-", "-o", "foo.o"]))
    );
}

#[test]
fn test_parse_arguments_dangling_x() {
    assert_eq!(
        CompilerArguments::CannotCache("malformed -x"),
        parse_arguments(&sv(&["-c", "foo.c", "-o", "foo.o", "-x"]))
    );
}

#[test]
fn test_parse_arguments_forced_language() {
    let parsed = parse_ok(&["-c", "foo.weird", "-x", "c", "-o", "foo.o"]);
    assert_eq!("foo.weird", parsed.input);
    assert_eq!("c", parsed.extension);
    assert_eq!(sv(&["-x", "c"]), parsed.preprocessor_args);
    assert!(parsed.common_args.is_empty());
}

#[test]
fn test_argument_takes_value() {
    assert!(sccache::classify::argument_takes_value("-I"));
    assert!(sccache::classify::argument_takes_value("--param"));
    assert!(sccache::classify::argument_takes_value("-include"));
    assert!(!sccache::classify::argument_takes_value("-c"));
    assert!(!sccache::classify::argument_takes_value("-fabc"));
}
