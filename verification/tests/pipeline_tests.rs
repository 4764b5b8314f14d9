use sccache::adapter::{CCompilerKind, GCC, preprocess_cmdline, compile_cmdline};
use sccache::bundle::{Cache, CacheRead, CacheWrite};
use sccache::classify::{parse_arguments, CompilerArguments};
use sccache::fingerprint::fingerprint;
use sccache::mock_exec::{new_creator, next_command, MockChild};
use sccache::protocol::{Request, Response, CompileResponse};
use sccache::server::{
    ServerAction, handle_request, start_compile, probe_cache, finish_compile, generate_info,
    finished_from_cache_hit, finished_from_output, plan_unpack, note_compile_executed,
};
use sccache::stats::ServerStats;
use sccache::store::LruStore;

fn sv(args: &[&str]) -> Vec<String> {
    args.iter().map(|s| s.to_string()).collect()
}

fn key_for(args: &[&str], preprocessed: &[u8]) -> String {
    let parsed = match parse_arguments(&sv(args)) {
        CompilerArguments::Parsed(p) => p,
        o => panic!("Got unexpected parse result: {:?}", o),
    };
    fingerprint(
        &CCompilerKind::GCC,
        &"/usr/bin/gcc".to_string(),
        &"gcc (GCC) 6.3.0".to_string(),
        &parsed.common_args,
        &parsed.extension,
        &preprocessed.to_vec(),
    )
}

/// One compile request driven through the pipeline against a mock compiler:
/// classification, preprocessing, probe, and on a miss the compile and the
/// store write.
fn run_one_compile(
    stats: &mut ServerStats,
    store: &mut LruStore,
    creator: &mut sccache::mock_exec::MockCommandCreator,
    args: &[&str],
) -> (i32, Vec<u8>) {
    let (resp, parsed) = start_compile(stats, &sv(args));
    let parsed = match (resp, parsed) {
        (CompileResponse::CompileStarted, Some(p)) => p,
        (r, _) => panic!("compile was not started: {:?}", r),
    };
    // Preprocess through the mock substrate.
    let _preprocess_cmd = preprocess_cmdline(&parsed);
    let pre = creator.spawn().expect("no preprocessor planned").expect("spawn failed");
    assert_eq!(0, pre.exit);
    let key = fingerprint(
        &CCompilerKind::GCC,
        &"/usr/bin/gcc".to_string(),
        &"gcc (GCC) 6.3.0".to_string(),
        &parsed.common_args,
        &parsed.extension,
        &pre.stdout,
    );
    match probe_cache(stats, store, &key, false) {
        Cache::Hit(hit) => {
            let plan = plan_unpack(&hit, &parsed).expect("bundle lacks an output");
            assert_eq!(parsed.outputs.obj, plan[0].0);
            let fin = finished_from_cache_hit();
            (fin.retcode.unwrap(), plan[0].1.clone())
        }
        Cache::Miss => {
            let _compile_cmd = compile_cmdline(&parsed).expect("not compilable from stdin");
            note_compile_executed(stats);
            let child = creator.spawn().expect("no compiler planned").expect("spawn failed");
            assert_eq!(0, child.exit);
            // The mock compiler's stdout stands in for the object bytes.
            let mut outputs = CacheWrite::new();
            outputs.put_object("obj", &child.stdout, Some(0o644));
            finish_compile(stats, store, &key, outputs, 5).expect("cache write failed");
            let fin = finished_from_output(child.exit, child.stdout.clone(), child.stderr);
            (fin.retcode.unwrap(), child.stdout)
        }
        Cache::Recache => panic!("unexpected forced recache"),
    }
}

#[test]
fn test_zero_stats_then_two_compiles() {
    // Scenario: zero the statistics, compile the same file twice; the first
    // run misses and the second hits: compile_requests=2, cache_hits=1,
    // cache_misses=1, and the object bytes are identical and non-empty.
    let mut stats = ServerStats::new();
    let mut store = LruStore::new(10 * 1024 * 1024);
    let location = "disk".to_string();
    let (resp, _) = handle_request(&mut stats, &mut store, &location, &Request::ZeroStats);
    assert!(matches!(resp, Response::Stats(_)));

    let mut creator = new_creator();
    next_command(&mut creator, Ok(MockChild { exit: 0, stdout: b"preprocessed bytes".to_vec(), stderr: vec![] }));
    next_command(&mut creator, Ok(MockChild { exit: 0, stdout: b"object bytes".to_vec(), stderr: vec![] }));
    let (code1, obj1) = run_one_compile(&mut stats, &mut store, &mut creator, &["-c", "hello.c", "-o", "hello.o"]);
    assert_eq!(0, code1);
    assert!(!obj1.is_empty());

    next_command(&mut creator, Ok(MockChild { exit: 0, stdout: b"preprocessed bytes".to_vec(), stderr: vec![] }));
    let (code2, obj2) = run_one_compile(&mut stats, &mut store, &mut creator, &["-c", "hello.c", "-o", "hello.o"]);
    assert_eq!(0, code2);
    assert_eq!(obj1, obj2);
    assert_eq!(0, creator.remaining());

    assert_eq!(2, stats.compile_requests);
    assert_eq!(1, stats.cache_hits);
    assert_eq!(1, stats.cache_misses);
    assert_eq!(1, stats.requests_executed);
}

#[test]
fn test_syntax_only_counts_reason() {
    // Scenario: `-fsyntax-only` cannot be cached; the reason histogram
    // records it and the client is told to run the compiler itself.
    let mut stats = ServerStats::new();
    let (resp, parsed) = start_compile(&mut stats, &sv(&["-c", "hello.c", "-fsyntax-only", "-o", "hello.o"]));
    assert_eq!(CompileResponse::UnhandledCompile(Some("-fsyntax-only".to_string())), resp);
    assert!(parsed.is_none());
    assert_eq!(1, stats.compile_requests);
    assert_eq!(
        vec![("-fsyntax-only".to_string(), 1u64)],
        stats.non_cacheable_reasons
    );
}

#[test]
fn test_multiple_inputs_rejected() {
    // Scenario: two input files cannot be cached; the child runs directly.
    let mut stats = ServerStats::new();
    let (resp, parsed) = start_compile(&mut stats, &sv(&["-c", "a.c", "-o", "a.o", "b.c"]));
    assert_eq!(CompileResponse::UnhandledCompile(Some("multiple input files".to_string())), resp);
    assert!(parsed.is_none());
    assert_eq!(vec![("multiple input files".to_string(), 1u64)], stats.non_cacheable_reasons);
}

#[test]
fn test_shutdown_returns_stats_and_stops() {
    let mut stats = ServerStats::new();
    stats.compile_requests = 3;
    let mut store = LruStore::new(1024);
    let location = "disk: /tmp/cache".to_string();
    let (resp, action) = handle_request(&mut stats, &mut store, &location, &Request::Shutdown);
    assert!(matches!(action, ServerAction::ShutDown));
    match resp {
        Response::ShuttingDown(info) => {
            assert_eq!(3, info.stats.compile_requests);
            assert_eq!("disk: /tmp/cache", info.cache_location);
            assert_eq!(Some(0), info.cache_size);
            assert_eq!(Some(1024), info.max_cache_size);
        }
        o => panic!("unexpected response: {:?}", std::mem::discriminant(&o)),
    }
}

#[test]
fn test_get_stats_snapshot() {
    let mut stats = ServerStats::new();
    stats.cache_hits = 7;
    stats.bump_non_cacheable("pgo");
    let store = LruStore::new(64);
    let info = generate_info(&stats, &"disk".to_string(), &store);
    assert_eq!(7, info.stats.cache_hits);
    assert_eq!(vec![("pgo".to_string(), 1u64)], info.stats.non_cacheable_reasons);
}

#[test]
fn test_forced_recache_counts() {
    let mut stats = ServerStats::new();
    let mut store = LruStore::new(1024);
    store.put("k".to_string(), vec![1, 2, 3]);
    let r = probe_cache(&mut stats, &mut store, &"k".to_string(), true);
    assert!(matches!(r, Cache::Recache));
    assert_eq!(1, stats.forced_recaches);
    assert_eq!(0, stats.cache_hits);
}

#[test]
fn test_corrupt_entry_counts_error() {
    // A stored blob that is not an archive behaves as a miss and is counted
    // as a cache error.
    let mut stats = ServerStats::new();
    let mut store = LruStore::new(1024);
    store.put("k".to_string(), vec![1, 2, 3, 4]);
    let r = probe_cache(&mut stats, &mut store, &"k".to_string(), false);
    assert!(matches!(r, Cache::Miss));
    assert_eq!(1, stats.cache_errors);
    assert_eq!(0, stats.cache_hits);
    assert_eq!(0, stats.cache_misses);
}

#[test]
fn test_fingerprint_determinism_and_sensitivity() {
    // Unchanged inputs give the identical fingerprint; changing one byte of
    // the preprocessed stream, or one common flag, changes it.
    let base = key_for(&["-c", "a.c", "-O2", "-o", "a.o"], b"int main() {}");
    let again = key_for(&["-c", "a.c", "-O2", "-o", "a.o"], b"int main() {}");
    assert_eq!(base, again);
    assert_eq!(64, base.len());
    let other_bytes = key_for(&["-c", "a.c", "-O2", "-o", "a.o"], b"int main() { }");
    assert_ne!(base, other_bytes);
    let other_flags = key_for(&["-c", "a.c", "-O3", "-o", "a.o"], b"int main() {}");
    assert_ne!(base, other_flags);
}

#[test]
fn test_adapter_command_lines() {
    let parsed = match parse_arguments(&sv(&["-c", "foo.c", "-MF", "dep", "-O2", "-o", "foo.o"])) {
        CompilerArguments::Parsed(p) => p,
        o => panic!("Got unexpected parse result: {:?}", o),
    };
    assert_eq!(sv(&["-E", "-MF", "dep", "-O2", "foo.c"]), preprocess_cmdline(&parsed));
    assert_eq!(
        sv(&["-c", "-x", "cpp-output", "-", "-o", "foo.o", "-O2"]),
        compile_cmdline(&parsed).unwrap()
    );
    let gcc = GCC;
    assert!(matches!(gcc.kind(), CCompilerKind::GCC));
}

#[test]
fn test_bundle_round_trip() {
    // Packing a bundle and unpacking the blob yields the same entries,
    // modes included.
    let mut w = CacheWrite::new();
    w.put_object("obj", &b"object bytes".to_vec(), Some(0o755));
    w.put_object("dwo", &b"debug bytes".to_vec(), None);
    let blob = w.finish().expect("pack failed");
    let r = CacheRead::from(&blob).expect("unpack failed");
    assert_eq!(2, r.len());
    let (objdata, objmode) = r.get_object("obj").expect("missing obj");
    assert_eq!(b"object bytes".to_vec(), objdata);
    // The archive records permission bits marked as a regular file.
    assert_eq!(Some(0o100755), objmode);
    let (dwodata, dwomode) = r.get_object("dwo").expect("missing dwo");
    assert_eq!(b"debug bytes".to_vec(), dwodata);
    assert_eq!(Some(0o100644), dwomode);
    assert!(r.get_object("depfile").is_none());
}

#[test]
fn test_bundle_rejects_garbage() {
    assert!(CacheRead::from(&vec![0, 1, 2, 3, 4, 5]).is_err());
}
