use vstd::prelude::*;
use crate::stats::ServerInfo;

verus! {

/// A client request.
#[derive(Debug)]
pub enum Request {
    /// Zero the server's statistics.
    ZeroStats,
    /// Get server statistics.
    GetStats,
    /// Shut the server down gracefully.
    Shutdown,
    /// Execute a compile or fetch a cached compilation result.
    Compile(Compile),
}

/// The contents of a compile request from a client.
#[derive(Debug)]
pub struct Compile {
    /// The full path to the compiler executable.
    pub exe: String,
    /// The working directory in which to execute the compile.
    pub cwd: String,
    /// The commandline arguments passed to the compiler.
    pub args: Vec<String>,
    /// The environment variables present when the compiler was executed.
    pub env_vars: Vec<(String, String)>,
}

/// A server response.
#[derive(Debug)]
pub enum Response {
    /// Response for a compile request.
    Compile(CompileResponse),
    /// Response for a stats request, containing server statistics.
    Stats(ServerInfo),
    /// Response for a shutdown request, containing server statistics.
    ShuttingDown(ServerInfo),
    /// Second response for a compile request, with the compilation results.
    CompileFinished(CompileFinished),
}

/// Possible first responses from the server for a compile request.
#[derive(Debug, PartialEq)]
pub enum CompileResponse {
    /// The compilation was started.
    CompileStarted,
    /// The server could not handle this compilation request.
    UnhandledCompile(Option<String>),
}

/// Information about a finished compile, from cache or executed locally.
#[derive(Debug, PartialEq, Default)]
pub struct CompileFinished {
    /// The return code of the compile process, if available.
    pub retcode: Option<i32>,
    /// The signal that terminated the compile process, if available.
    pub signal: Option<i32>,
    /// The compiler's stdout.
    pub stdout: Vec<u8>,
    /// The compiler's stderr.
    pub stderr: Vec<u8>,
}

/// A framed message: the payload behind its length.
pub open spec fn spec_frame(p: Seq<u8>) -> Seq<u8> {
    vstd::bytes::spec_u32_to_le_bytes(p.len() as u32) + p
}

/// What reading one frame at `start` yields: the payload and the position
/// after it, or nothing while the frame is still incomplete.
pub open spec fn spec_deframe(b: Seq<u8>, start: int) -> Option<(Seq<u8>, int)> {
    if start + 4 <= b.len() {
        let n = vstd::bytes::spec_u32_from_le_bytes(b.subrange(start, start + 4)) as int;
        if start + 4 + n <= b.len() {
            Some((b.subrange(start + 4, start + 4 + n), start + 4 + n))
        } else {
            None
        }
    } else {
        None
    }
}

/// Wrap a payload in its length prefix. Payloads beyond the length field's
/// range are refused.
pub fn frame(payload: &Vec<u8>) -> (r: Result<Vec<u8>, &'static str>)
    ensures
        match r {
            Ok(b) => payload@.len() <= u32::MAX && b@ == spec_frame(payload@),
            Err(_) => payload@.len() > u32::MAX,
        },
{
    if payload.len() > u32::MAX as usize {
        return Err("message too large to frame");
    }
    let mut out = vstd::bytes::u32_to_le_bytes(payload.len() as u32);
    let ghost prefix = out@;
    let mut i: usize = 0;
    while i < payload.len()
        invariant
            i <= payload@.len(),
            out@ == prefix + payload@.take(i as int),
        decreases payload@.len() - i,
    {
        let ghost pre = out@;
        out.push(payload[i]);
        proof {
            assert(out@ =~= pre.push(payload@[i as int]));
            assert(pre.push(payload@[i as int]) =~= prefix + payload@.take(i + 1));
        }
        i = i + 1;
    }
    proof {
        assert(prefix + payload@.take(payload@.len() as int) =~= prefix + payload@);
    }
    Ok(out)
}

/// Read one frame out of `buf` starting at `start`; a partial frame yields
/// nothing, so the caller reads more bytes and retries.
pub fn deframe(buf: &Vec<u8>, start: usize) -> (r: Option<(Vec<u8>, usize)>)
    requires
        start <= buf@.len(),
    ensures
        match r {
            Option::Some(pn) => spec_deframe(buf@, start as int) matches Some(sp) && pn.0@ == sp.0
                && pn.1 as int == sp.1,
            Option::None => spec_deframe(buf@, start as int) is None,
        },
{
    let total = buf.len();
    if total - start < 4 {
        return None;
    }
    let mut lenbytes: Vec<u8> = Vec::new();
    lenbytes.push(buf[start]);
    lenbytes.push(buf[start + 1]);
    lenbytes.push(buf[start + 2]);
    lenbytes.push(buf[start + 3]);
    proof {
        assert(lenbytes@ =~= buf@.subrange(start as int, start + 4));
    }
    let n64 = vstd::bytes::u32_from_le_bytes(lenbytes.as_slice()) as usize;
    if total - (start + 4) < n64 {
        return None;
    }
    let mut payload: Vec<u8> = Vec::new();
    let mut i: usize = start + 4;
    let end = start + 4 + n64;
    while i < end
        invariant
            start + 4 <= i <= end <= buf@.len(),
            payload@ == buf@.subrange(start + 4, i as int),
        decreases end - i,
    {
        let ghost pre = payload@;
        payload.push(buf[i]);
        proof {
            assert(payload@ =~= pre.push(buf@[i as int]));
            assert(pre.push(buf@[i as int]) =~= buf@.subrange(start + 4, i + 1));
        }
        i = i + 1;
    }
    Some((payload, end))
}

/// Framing round-trips: reading a framed payload, whatever follows it,
/// yields the payload and stops right after it.
pub proof fn lemma_frame_round_trip(p: Seq<u8>, rest: Seq<u8>)
    requires
        p.len() <= u32::MAX,
    ensures
        spec_deframe(spec_frame(p) + rest, 0) == Some((p, 4 + p.len() as int)),
{
    vstd::bytes::lemma_auto_spec_u32_to_from_le_bytes();
    let b = spec_frame(p) + rest;
    assert(vstd::bytes::spec_u32_to_le_bytes(p.len() as u32).len() == 4);
    assert(b.subrange(0, 4) =~= vstd::bytes::spec_u32_to_le_bytes(p.len() as u32));
    assert(vstd::bytes::spec_u32_from_le_bytes(b.subrange(0, 4)) == p.len() as u32);
    assert(b.subrange(4, 4 + p.len() as int) =~= p);
}

} // verus!
