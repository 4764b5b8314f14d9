use sccache::splitter::SplitArgs;
use sccache::respfile::{response_file_name, split_response_contents, expand_step};
use sccache::classify::{parse_arguments, CompilerArguments};
use sccache::protocol::{frame, deframe};
use sccache::cmdline::{select_command, parse_stats_format, Command, CmdlineError, StatsFormat};

fn split_all(input: &str, allow_escape: bool) -> Vec<String> {
    let mut s = SplitArgs::new(input.as_bytes().to_vec(), allow_escape);
    let mut out = Vec::new();
    while let Some(a) = s.next() {
        out.push(String::from_utf8(a).unwrap());
    }
    out
}

#[test]
fn test_splitter_plain_words() {
    assert_eq!(vec!["a", "bc", "d"], split_all("  a bc\td ", false));
}

#[test]
fn test_splitter_quotes() {
    assert_eq!(vec!["a b", "c'd"], split_all("'a b' \"c'd\"", false));
}

#[test]
fn test_splitter_escapes() {
    assert_eq!(vec!["a b"], split_all("a\\ b", true));
    assert_eq!(vec!["a\\", "b"], split_all("a\\ b", false));
}

#[test]
fn test_splitter_strips_trailing_cr() {
    assert_eq!(vec!["a", "b"], split_all("a\r\nb", false));
}

#[test]
fn test_splitter_empty() {
    assert_eq!(Vec::<String>::new(), split_all("   ", false));
    assert_eq!(Vec::<String>::new(), split_all("", false));
}

#[test]
fn test_response_file_name() {
    assert_eq!(Some("args.rsp".to_string()), response_file_name(&"@args.rsp".to_string()));
    assert_eq!(None, response_file_name(&"-c".to_string()));
    assert_eq!(None, response_file_name(&"".to_string()));
}

#[test]
fn test_split_response_contents() {
    assert_eq!(
        Some(vec!["-c".to_string(), "foo.c".to_string()]),
        split_response_contents(&" -c \n foo.c ".to_string())
    );
    assert_eq!(None, split_response_contents(&"say \"hi\"".to_string()));
    assert_eq!(None, split_response_contents(&"it's".to_string()));
}

#[test]
fn test_response_file_expansion_matches_direct_parse() {
    // Scenario: `gcc @args.rsp -o foo.o` where the response file holds
    // `-c foo.c` classifies exactly like `gcc -c foo.c -o foo.o`.
    let raw = vec!["@args.rsp".to_string(), "-o".to_string(), "foo.o".to_string()];
    let contents = "-c foo.c".to_string();
    let mut stack: Vec<String> = raw.into_iter().rev().collect();
    let mut expanded: Vec<String> = Vec::new();
    while let Some(arg) = stack.pop() {
        let file = response_file_name(&arg);
        let contents_for = match file {
            Some(ref name) if name == "args.rsp" => Some(&contents),
            Some(_) => None,
            None => None,
        };
        if let Some(tok) = expand_step(arg, contents_for, &mut stack) {
            expanded.push(tok);
        }
    }
    assert_eq!(
        vec!["-c".to_string(), "foo.c".to_string(), "-o".to_string(), "foo.o".to_string()],
        expanded
    );
    assert_eq!(
        parse_arguments(&expanded),
        parse_arguments(&vec![
            "-c".to_string(),
            "foo.c".to_string(),
            "-o".to_string(),
            "foo.o".to_string(),
        ])
    );
}

#[test]
fn test_expand_step_unreadable_file_passes_through() {
    let mut stack: Vec<String> = Vec::new();
    let r = expand_step("@missing".to_string(), None, &mut stack);
    assert_eq!(Some("@missing".to_string()), r);
    assert!(stack.is_empty());
    // And an unexpanded `@` token stays non-cacheable.
    assert_eq!(
        CompilerArguments::CannotCache("@file"),
        parse_arguments(&vec![
            "-c".to_string(),
            "foo.c".to_string(),
            "@missing".to_string(),
            "-o".to_string(),
            "foo.o".to_string(),
        ])
    );
}

#[test]
fn test_expand_step_quoted_contents_pass_through() {
    let mut stack: Vec<String> = Vec::new();
    let contents = "-DNAME=\"x\"".to_string();
    let r = expand_step("@args".to_string(), Some(&contents), &mut stack);
    assert_eq!(Some("@args".to_string()), r);
    assert!(stack.is_empty());
}

#[test]
fn test_frame_round_trip() {
    let payload = b"hello frame".to_vec();
    let framed = frame(&payload).unwrap();
    assert_eq!(4 + payload.len(), framed.len());
    let mut buf = framed.clone();
    buf.extend_from_slice(b"rest");
    let (got, next) = deframe(&buf, 0).unwrap();
    assert_eq!(payload, got);
    assert_eq!(4 + payload.len(), next);
}

#[test]
fn test_deframe_partial() {
    let payload = b"abcdef".to_vec();
    let framed = frame(&payload).unwrap();
    let partial = framed[..framed.len() - 1].to_vec();
    assert_eq!(None, deframe(&partial, 0));
    assert_eq!(None, deframe(&vec![1, 2], 0));
}

#[test]
fn test_config_error_messages() {
    assert_eq!(
        "missing redis_url for redis cache",
        sccache::config::ConfigError::MissingRedisUrl.message()
    );
}

#[test]
fn test_select_command_errors() {
    let r = select_command(false, true, StatsFormat::Text, true, false, false, None,
        "/".to_string(), vec![]);
    assert!(matches!(r, Err(CmdlineError::TooManyCommands)));
    let r = select_command(false, false, StatsFormat::Text, false, false, false,
        Some(vec![]), "/".to_string(), vec![]);
    assert!(matches!(r, Err(CmdlineError::NoCompileCommand)));
    let r = select_command(false, false, StatsFormat::Text, false, false, false, None,
        "/".to_string(), vec![]);
    assert!(matches!(r, Err(CmdlineError::NoCommandSpecified)));
    let r = select_command(false, false, StatsFormat::Text, false, false, true, None,
        "/".to_string(), vec![]);
    assert!(matches!(r, Ok(Command::ZeroStats)));
    let r = select_command(false, false, StatsFormat::Text, false, false, false,
        Some(vec!["gcc".to_string(), "-c".to_string(), "x.c".to_string()]),
        "/work".to_string(), vec![("K".to_string(), "V".to_string())]);
    match r {
        Ok(Command::Compile { exe, cmdline, cwd, env_vars }) => {
            assert_eq!("gcc", exe);
            assert_eq!(vec!["-c".to_string(), "x.c".to_string()], cmdline);
            assert_eq!("/work", cwd);
            assert_eq!(vec![("K".to_string(), "V".to_string())], env_vars);
        }
        _ => panic!("expected a compile command"),
    }
}

#[test]
fn test_compile_cmdline_rejects_unknown_language() {
    let args: Vec<String> = ["-c", "foo.weird", "-x", "fortran", "-o", "foo.o"]
        .iter().map(|s| s.to_string()).collect();
    let parsed = match parse_arguments(&args) {
        CompilerArguments::Parsed(p) => p,
        o => panic!("Got unexpected parse result: {:?}", o),
    };
    assert_eq!(Err("Unexpected file extension"), sccache::adapter::compile_cmdline(&parsed));
}

#[test]
fn test_parse_stats_format_rejects_unknown() {
    assert!(parse_stats_format(&"text".to_string()).is_some());
    assert!(parse_stats_format(&"json".to_string()).is_some());
    assert!(parse_stats_format(&"xml".to_string()).is_none());
}
