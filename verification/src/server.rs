use vstd::prelude::*;
use crate::classify::{ClassifiedV, CompilerArguments, ParsedArguments, spec_parse_arguments};
use crate::bundle::{Cache, CacheRead, CacheWrite, bundle_entries_of, spec_find_entry, unique_names, stored_entries};
use crate::store::{LruStore, spec_lookup, spec_touch, spec_put};
use crate::stats::{ServerStats, ServerInfo, inc, spec_inc, spec_bump_reason};
use crate::protocol::{Request, Response, CompileResponse, CompileFinished};

verus! {

/// What the daemon does after answering a request.
pub enum ServerAction {
    KeepRunning,
    ShutDown,
}

/// All counters other than the ones named are carried over unchanged.
pub open spec fn same_cache_counters(a: ServerStats, b: ServerStats) -> bool {
    &&& a.cache_hits == b.cache_hits
    &&& a.cache_misses == b.cache_misses
    &&& a.cache_errors == b.cache_errors
    &&& a.forced_recaches == b.forced_recaches
    &&& a.cache_write_duration_ms == b.cache_write_duration_ms
}

/// A statistics snapshot with the backend's introspection, for a stats or
/// shutdown response.
pub fn generate_info(stats: &ServerStats, location: &String, store: &LruStore) -> (r: ServerInfo)
    requires
        store.wf(),
    ensures
        r.stats.compile_requests == stats.compile_requests,
        r.stats.requests_executed == stats.requests_executed,
        r.stats.cache_hits == stats.cache_hits,
        r.stats.cache_misses == stats.cache_misses,
        r.stats.cache_errors == stats.cache_errors,
        r.stats.forced_recaches == stats.forced_recaches,
        r.stats.cache_write_duration_ms == stats.cache_write_duration_ms,
        r.stats.reasons() == stats.reasons(),
        r.cache_location@ == location@,
        r.cache_size matches Some(s) && s as nat == crate::store::total_size(store@),
        r.max_cache_size == Some(store.spec_max_size() as u64),
{
    let mut reasons: Vec<(String, u64)> = Vec::new();
    let n = stats.non_cacheable_reasons.len();
    let mut i: usize = 0;
    proof {
        assert(crate::stats::reasons_view(reasons@) =~= stats.reasons().take(0));
    }
    while i < n
        invariant
            i <= n,
            n == stats.non_cacheable_reasons@.len(),
            crate::stats::reasons_view(reasons@) == stats.reasons().take(i as int),
        decreases n - i,
    {
        let ghost pre = crate::stats::reasons_view(reasons@);
        let name = stats.non_cacheable_reasons[i].0.clone();
        let count = stats.non_cacheable_reasons[i].1;
        reasons.push((name, count));
        proof {
            assert(crate::stats::reasons_view(reasons@) =~= pre.push(
                stats.reasons()[i as int],
            ));
            assert(pre.push(stats.reasons()[i as int]) =~= stats.reasons().take(i + 1));
        }
        i = i + 1;
    }
    proof {
        assert(stats.reasons().take(n as int) =~= stats.reasons());
    }
    let snapshot = ServerStats {
        compile_requests: stats.compile_requests,
        requests_executed: stats.requests_executed,
        cache_hits: stats.cache_hits,
        cache_misses: stats.cache_misses,
        cache_errors: stats.cache_errors,
        forced_recaches: stats.forced_recaches,
        non_cacheable_reasons: reasons,
        cache_write_duration_ms: stats.cache_write_duration_ms,
    };
    ServerInfo {
        stats: snapshot,
        cache_location: location.clone(),
        cache_size: Some(store.current_size()),
        max_cache_size: Some(store.max_size()),
    }
}

/// Dispatch one non-compile request: zeroing and reading statistics, and
/// the graceful shutdown, which answers with the final statistics and then
/// stops the daemon.
pub fn handle_request(
    stats: &mut ServerStats,
    store: &mut LruStore,
    location: &String,
    req: &Request,
) -> (r: (Response, ServerAction))
    requires
        old(store).wf(),
        !(req is Compile),
    ensures
        *final(store) == *old(store),
        match req {
            Request::ZeroStats => final(stats).is_zeroed() && (r.0 is Stats) && r.1
                is KeepRunning,
            Request::GetStats => *final(stats) == *old(stats) && (r.0 is Stats) && r.1
                is KeepRunning,
            Request::Shutdown => *final(stats) == *old(stats) && (r.0 matches
            Response::ShuttingDown(info) && info.stats.compile_requests == old(stats).compile_requests) && r.1 is ShutDown,
            Request::Compile(_) => false,
        },
{
    match req {
        Request::ZeroStats => {
            stats.zero();
            let info = generate_info(stats, location, store);
            (Response::Stats(info), ServerAction::KeepRunning)
        },
        Request::GetStats => {
            let info = generate_info(stats, location, store);
            (Response::Stats(info), ServerAction::KeepRunning)
        },
        Request::Shutdown => {
            let info = generate_info(stats, location, store);
            (Response::ShuttingDown(info), ServerAction::ShutDown)
        },
        Request::Compile(_) => {
            // Compile requests carry a pipeline of their own and are not
            // dispatched here.
            (
                Response::Compile(CompileResponse::UnhandledCompile(None)),
                ServerAction::KeepRunning,
            )
        },
    }
}

/// Take in one compile request: count it, classify the command line, and
/// decide whether the cache pipeline starts or the client must run the
/// compiler itself.
pub fn start_compile(stats: &mut ServerStats, args: &Vec<String>) -> (r: (
    CompileResponse,
    Option<ParsedArguments>,
))
    ensures
        final(stats).compile_requests == spec_inc(old(stats).compile_requests),
        final(stats).requests_executed == old(stats).requests_executed,
        same_cache_counters(*final(stats), *old(stats)),
        match spec_parse_arguments(args.deep_view()) {
            ClassifiedV::Parsed(p) => (r.0 is CompileStarted) && (r.1 matches Some(pa) && pa@
                == p) && final(stats).reasons() == old(stats).reasons(),
            ClassifiedV::NotCompilation => (r.0 matches CompileResponse::UnhandledCompile(m) && m
                is None) && r.1 is None && final(stats).reasons() == old(stats).reasons(),
            ClassifiedV::CannotCache(reason) => (r.0 matches CompileResponse::UnhandledCompile(m)
                && (m matches Some(ms) && ms@ == reason)) && r.1 is None && final(stats).reasons()
                == spec_bump_reason(old(stats).reasons(), reason),
        },
{
    stats.compile_requests = inc(stats.compile_requests);
    match crate::classify::parse_arguments(args) {
        CompilerArguments::Parsed(p) => (CompileResponse::CompileStarted, Some(p)),
        CompilerArguments::NotCompilation => (
            CompileResponse::UnhandledCompile(None),
            None,
        ),
        CompilerArguments::CannotCache(reason) => {
            stats.bump_non_cacheable(reason);
            (CompileResponse::UnhandledCompile(Some(reason.to_owned())), None)
        },
    }
}

/// Probe the cache for `key`. A forced recache counts separately and probes
/// nothing; a stored blob that no longer decodes counts as an error and
/// behaves as a miss; otherwise the probe hits or misses by the store.
pub fn probe_cache(
    stats: &mut ServerStats,
    store: &mut LruStore,
    key: &String,
    force_recache: bool,
) -> (r: Cache)
    requires
        old(store).wf(),
    ensures
        final(store).wf(),
        final(store).spec_max_size() == old(store).spec_max_size(),
        final(stats).compile_requests == old(stats).compile_requests,
        final(stats).requests_executed == old(stats).requests_executed,
        final(stats).reasons() == old(stats).reasons(),
        final(stats).cache_write_duration_ms == old(stats).cache_write_duration_ms,
        force_recache ==> (r is Recache) && *final(store) == *old(store) && final(stats).forced_recaches == spec_inc(old(stats).forced_recaches) && final(stats).cache_hits == old(stats).cache_hits && final(stats).cache_misses == old(stats).cache_misses && final(stats).cache_errors == old(stats).cache_errors,
        !force_recache ==> final(store)@ == spec_touch(old(store)@, key@) && final(stats).forced_recaches == old(stats).forced_recaches && (match spec_lookup(
            old(store)@,
            key@,
        ) {
            Option::Some(bytes) => {
                match bundle_entries_of(bytes) {
                    Option::Some(es) => (r matches Cache::Hit(c) && c@ == es) && final(stats).cache_hits == spec_inc(old(stats).cache_hits) && final(stats).cache_misses
                        == old(stats).cache_misses && final(stats).cache_errors == old(stats).cache_errors,
                    Option::None => (r is Miss) && final(stats).cache_errors == spec_inc(
                        old(stats).cache_errors,
                    ) && final(stats).cache_hits == old(stats).cache_hits && final(stats).cache_misses == old(stats).cache_misses,
                }
            },
            Option::None => (r is Miss) && final(stats).cache_misses == spec_inc(
                old(stats).cache_misses,
            ) && final(stats).cache_hits == old(stats).cache_hits && final(stats).cache_errors
                == old(stats).cache_errors,
        }),
{
    if force_recache {
        stats.forced_recaches = inc(stats.forced_recaches);
        return Cache::Recache;
    }
    match store.get(key) {
        Option::Some(bytes) => {
            match CacheRead::from(&bytes) {
                Ok(c) => {
                    stats.cache_hits = inc(stats.cache_hits);
                    Cache::Hit(c)
                },
                Err(_) => {
                    stats.cache_errors = inc(stats.cache_errors);
                    Cache::Miss
                },
            }
        },
        Option::None => {
            stats.cache_misses = inc(stats.cache_misses);
            Cache::Miss
        },
    }
}

/// Note that the real compiler had to run for a request.
pub fn note_compile_executed(stats: &mut ServerStats)
    ensures
        final(stats).requests_executed == spec_inc(old(stats).requests_executed),
        final(stats).compile_requests == old(stats).compile_requests,
        final(stats).reasons() == old(stats).reasons(),
        same_cache_counters(*final(stats), *old(stats)),
{
    stats.requests_executed = inc(stats.requests_executed);
}

/// Note that preprocessing failed: the failure is surfaced to the client
/// verbatim, no cache entry is written, and the error is counted.
pub fn note_preprocess_failed(stats: &mut ServerStats)
    ensures
        final(stats).cache_errors == spec_inc(old(stats).cache_errors),
        final(stats).compile_requests == old(stats).compile_requests,
        final(stats).requests_executed == old(stats).requests_executed,
        final(stats).cache_hits == old(stats).cache_hits,
        final(stats).cache_misses == old(stats).cache_misses,
        final(stats).forced_recaches == old(stats).forced_recaches,
        final(stats).cache_write_duration_ms == old(stats).cache_write_duration_ms,
        final(stats).reasons() == old(stats).reasons(),
{
    stats.cache_errors = inc(stats.cache_errors);
}

/// Store a finished compilation's artifacts under its fingerprint: the
/// bundle is packed, the store takes the blob, and the write time joins the
/// accounting. Returns the evicted keys so the disk layer can unlink their
/// files; a packing failure is counted and delivery proceeds without a
/// cache write.
pub fn finish_compile(
    stats: &mut ServerStats,
    store: &mut LruStore,
    key: &String,
    outputs: CacheWrite,
    duration_ms: u64,
) -> (r: Result<Vec<String>, &'static str>)
    requires
        old(store).wf(),
    ensures
        final(store).wf(),
        final(store).spec_max_size() == old(store).spec_max_size(),
        final(stats).compile_requests == old(stats).compile_requests,
        final(stats).requests_executed == old(stats).requests_executed,
        final(stats).cache_hits == old(stats).cache_hits,
        final(stats).cache_misses == old(stats).cache_misses,
        final(stats).forced_recaches == old(stats).forced_recaches,
        final(stats).reasons() == old(stats).reasons(),
        match r {
            Ok(_) => final(stats).cache_errors == old(stats).cache_errors && final(stats).cache_write_duration_ms == spec_inc_by(
                old(stats).cache_write_duration_ms,
                duration_ms,
            ) && (unique_names(outputs@) ==> exists|b: Seq<u8>|
                bundle_entries_of(b) == Some(stored_entries(outputs@)) && final(store)@ == spec_put(
                    old(store)@,
                    old(store).spec_max_size(),
                    key@,
                    b,
                )),
            Err(_) => final(stats).cache_errors == spec_inc(old(stats).cache_errors) && *final(store) == *old(store) && final(stats).cache_write_duration_ms == old(stats).cache_write_duration_ms,
        },
{
    match outputs.finish() {
        Ok(blob) => {
            let evicted = store.put(key.clone(), blob);
            stats.cache_write_duration_ms = inc_by(stats.cache_write_duration_ms, duration_ms);
            Ok(evicted)
        },
        Err(e) => {
            stats.cache_errors = inc(stats.cache_errors);
            Err(e)
        },
    }
}

/// A saturating add for the running write-time sum.
pub open spec fn spec_inc_by(x: u64, d: u64) -> u64 {
    if x + d <= u64::MAX {
        (x + d) as u64
    } else {
        u64::MAX
    }
}

pub fn inc_by(x: u64, d: u64) -> (r: u64)
    ensures
        r == spec_inc_by(x, d),
{
    if x <= u64::MAX - d {
        x + d
    } else {
        u64::MAX
    }
}

/// What the client is told on a cache hit: a compile that finished with
/// exit zero and empty streams.
pub fn finished_from_cache_hit() -> (r: CompileFinished)
    ensures
        r.retcode == Some(0i32),
        r.signal is None,
        r.stdout@ == Seq::<u8>::empty(),
        r.stderr@ == Seq::<u8>::empty(),
{
    let r = CompileFinished { retcode: Some(0), signal: None, stdout: Vec::new(), stderr: Vec::new() };
    proof {
        assert(r.stdout@ =~= Seq::<u8>::empty());
        assert(r.stderr@ =~= Seq::<u8>::empty());
    }
    r
}

/// What the client is told after the real compiler ran: its exit code and
/// its streams, forwarded verbatim.
pub fn finished_from_output(exit: i32, stdout: Vec<u8>, stderr: Vec<u8>) -> (r: CompileFinished)
    ensures
        r.retcode == Some(exit),
        r.signal is None,
        r.stdout@ == stdout@,
        r.stderr@ == stderr@,
{
    CompileFinished { retcode: Some(exit), signal: None, stdout, stderr }
}

/// Plan the unpacking of a cache hit: each declared output path is paired
/// with the artifact stored under its kind tag, mode bits included, in the
/// order obj then dwo. A bundle that lacks a declared output fails.
pub fn plan_unpack(hit: &CacheRead, parsed: &ParsedArguments) -> (r: Result<
    Vec<(String, Vec<u8>, Option<u32>)>,
    &'static str,
>)
    ensures
        match r {
            Ok(v) => {
                &&& spec_find_entry(hit@, "obj"@) matches Some(om) && v@.len() >= 1 && v@[0].0@
                    == parsed.outputs.obj@ && v@[0].1@ == om.0 && v@[0].2 == om.1
                &&& match parsed.outputs.dwo {
                    Option::Some(dp) => spec_find_entry(hit@, "dwo"@) matches Some(dm) && v@.len()
                        == 2 && v@[1].0@ == dp@ && v@[1].1@ == dm.0 && v@[1].2 == dm.1,
                    Option::None => v@.len() == 1,
                }
            },
            Err(_) => spec_find_entry(hit@, "obj"@) is None || (parsed.outputs.dwo is Some
                && spec_find_entry(hit@, "dwo"@) is None),
        },
{
    let mut out: Vec<(String, Vec<u8>, Option<u32>)> = Vec::new();
    match hit.get_object("obj") {
        Option::Some(dm) => {
            out.push((parsed.outputs.obj.clone(), dm.0, dm.1));
        },
        Option::None => {
            return Err("Failed to read object from cache entry");
        },
    }
    match &parsed.outputs.dwo {
        Option::Some(dp) => {
            match hit.get_object("dwo") {
                Option::Some(dm) => {
                    out.push((dp.clone(), dm.0, dm.1));
                },
                Option::None => {
                    return Err("Failed to read object from cache entry");
                },
            }
        },
        Option::None => {},
    }
    Ok(out)
}

} // verus!
