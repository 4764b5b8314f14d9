use vstd::prelude::*;
use crate::strutil::string_is;

verus! {

/// A counter bump that cannot wrap: the counter sticks at its maximum.
pub open spec fn spec_inc(x: u64) -> u64 {
    if x < u64::MAX {
        (x + 1) as u64
    } else {
        x
    }
}

pub fn inc(x: u64) -> (r: u64)
    ensures
        r == spec_inc(x),
{
    if x < u64::MAX {
        x + 1
    } else {
        x
    }
}

/// The histogram after one more occurrence of `reason`: the first matching
/// bucket grows, or a new bucket is appended.
pub open spec fn spec_bump_reason(rs: Seq<(Seq<char>, u64)>, reason: Seq<char>) -> Seq<
    (Seq<char>, u64),
>
    decreases rs.len(),
{
    if rs.len() == 0 {
        seq![(reason, 1u64)]
    } else if rs.first().0 == reason {
        seq![(rs.first().0, spec_inc(rs.first().1))] + rs.drop_first()
    } else {
        seq![rs.first()] + spec_bump_reason(rs.drop_first(), reason)
    }
}

/// The daemon's counters. They persist for the daemon's lifetime and are
/// reset only by a zero-stats request.
#[derive(Debug)]
pub struct ServerStats {
    pub compile_requests: u64,
    pub requests_executed: u64,
    pub cache_hits: u64,
    pub cache_misses: u64,
    pub cache_errors: u64,
    pub forced_recaches: u64,
    pub non_cacheable_reasons: Vec<(String, u64)>,
    pub cache_write_duration_ms: u64,
}

pub open spec fn reasons_view(rs: Seq<(String, u64)>) -> Seq<(Seq<char>, u64)> {
    Seq::new(rs.len(), |i: int| (rs[i].0@, rs[i].1))
}

impl ServerStats {
    pub open spec fn reasons(&self) -> Seq<(Seq<char>, u64)> {
        reasons_view(self.non_cacheable_reasons@)
    }

    pub open spec fn is_zeroed(&self) -> bool {
        &&& self.compile_requests == 0
        &&& self.requests_executed == 0
        &&& self.cache_hits == 0
        &&& self.cache_misses == 0
        &&& self.cache_errors == 0
        &&& self.forced_recaches == 0
        &&& self.reasons() == Seq::<(Seq<char>, u64)>::empty()
        &&& self.cache_write_duration_ms == 0
    }

    /// Fresh statistics, all zero.
    pub fn new() -> (r: ServerStats)
        ensures
            r.is_zeroed(),
    {
        let r = ServerStats {
            compile_requests: 0,
            requests_executed: 0,
            cache_hits: 0,
            cache_misses: 0,
            cache_errors: 0,
            forced_recaches: 0,
            non_cacheable_reasons: Vec::new(),
            cache_write_duration_ms: 0,
        };
        proof {
            assert(r.reasons() =~= Seq::<(Seq<char>, u64)>::empty());
        }
        r
    }

    /// Reset every counter.
    pub fn zero(&mut self)
        ensures
            final(self).is_zeroed(),
    {
        *self = ServerStats::new();
    }

    /// Count one more non-cacheable invocation under `reason`.
    pub fn bump_non_cacheable(&mut self, reason: &str)
        ensures
            final(self).reasons() == spec_bump_reason(old(self).reasons(), reason@),
            final(self).compile_requests == old(self).compile_requests,
            final(self).requests_executed == old(self).requests_executed,
            final(self).cache_hits == old(self).cache_hits,
            final(self).cache_misses == old(self).cache_misses,
            final(self).cache_errors == old(self).cache_errors,
            final(self).forced_recaches == old(self).forced_recaches,
            final(self).cache_write_duration_ms == old(self).cache_write_duration_ms,
    {
        let ghost rs0 = self.reasons();
        match find_reason(&self.non_cacheable_reasons, reason) {
            Option::Some(i) => {
                proof {
                    lemma_bump_at_index(rs0, reason@, i as int);
                }
                let c = self.non_cacheable_reasons[i].1;
                let name = self.non_cacheable_reasons[i].0.clone();
                self.non_cacheable_reasons.set(i, (name, inc(c)));
                proof {
                    assert(self.reasons() =~= rs0.update(
                        i as int,
                        (rs0[i as int].0, spec_inc(rs0[i as int].1)),
                    ));
                }
            },
            Option::None => {
                proof {
                    lemma_bump_absent(rs0, reason@);
                }
                self.non_cacheable_reasons.push((reason.to_owned(), 1));
                proof {
                    assert(self.reasons() =~= rs0.push((reason@, 1u64)));
                }
            },
        }
    }
}

/// First bucket recorded under `reason`, if any.
fn find_reason(rs: &Vec<(String, u64)>, reason: &str) -> (r: Option<usize>)
    ensures
        match r {
            Option::Some(i) => i < rs@.len() && reasons_view(rs@)[i as int].0 == reason@
                && (forall|j: int|
                0 <= j < i ==> (#[trigger] reasons_view(rs@)[j]).0 != reason@),
            Option::None => forall|j: int|
                0 <= j < rs@.len() ==> (#[trigger] reasons_view(rs@)[j]).0 != reason@,
        },
{
    let mut i: usize = 0;
    while i < rs.len()
        invariant
            i <= rs@.len(),
            forall|j: int| 0 <= j < i ==> (#[trigger] reasons_view(rs@)[j]).0 != reason@,
        decreases rs@.len() - i,
    {
        if string_is(&rs[i].0, reason) {
            return Some(i);
        }
        i = i + 1;
    }
    None
}

/// Bumping a reason first recorded at `i` updates exactly that bucket.
proof fn lemma_bump_at_index(rs: Seq<(Seq<char>, u64)>, reason: Seq<char>, i: int)
    requires
        0 <= i < rs.len(),
        rs[i].0 == reason,
        forall|j: int| 0 <= j < i ==> (#[trigger] rs[j]).0 != reason,
    ensures
        spec_bump_reason(rs, reason) == rs.update(i, (rs[i].0, spec_inc(rs[i].1))),
    decreases rs.len(),
{
    if i == 0 {
        assert(spec_bump_reason(rs, reason) == seq![(rs.first().0, spec_inc(rs.first().1))]
            + rs.drop_first());
        assert(seq![(rs.first().0, spec_inc(rs.first().1))] + rs.drop_first() =~= rs.update(
            0,
            (rs[0].0, spec_inc(rs[0].1)),
        ));
    } else {
        assert forall|j: int| 0 <= j < i - 1 implies (#[trigger] rs.drop_first()[j]).0
            != reason by {
            assert(rs.drop_first()[j] == rs[j + 1]);
        }
        assert(rs.drop_first()[i - 1] == rs[i]);
        lemma_bump_at_index(rs.drop_first(), reason, i - 1);
        assert(spec_bump_reason(rs, reason) == seq![rs.first()] + spec_bump_reason(
            rs.drop_first(),
            reason,
        ));
        assert(seq![rs.first()] + rs.drop_first().update(i - 1, (rs[i].0, spec_inc(rs[i].1)))
            =~= rs.update(i, (rs[i].0, spec_inc(rs[i].1))));
    }
}

/// Bumping an unrecorded reason appends a fresh bucket of one.
proof fn lemma_bump_absent(rs: Seq<(Seq<char>, u64)>, reason: Seq<char>)
    requires
        forall|j: int| 0 <= j < rs.len() ==> (#[trigger] rs[j]).0 != reason,
    ensures
        spec_bump_reason(rs, reason) == rs.push((reason, 1u64)),
    decreases rs.len(),
{
    if rs.len() == 0 {
        assert(spec_bump_reason(rs, reason) =~= rs.push((reason, 1u64)));
    } else {
        assert forall|j: int| 0 <= j < rs.drop_first().len() implies (
        #[trigger] rs.drop_first()[j]).0 != reason by {
            assert(rs.drop_first()[j] == rs[j + 1]);
        }
        lemma_bump_absent(rs.drop_first(), reason);
        assert(seq![rs.first()] + rs.drop_first().push((reason, 1u64)) =~= rs.push(
            (reason, 1u64),
        ));
    }
}

/// A statistics snapshot together with the backend's introspection.
#[derive(Debug)]
pub struct ServerInfo {
    pub stats: ServerStats,
    pub cache_location: String,
    pub cache_size: Option<u64>,
    pub max_cache_size: Option<u64>,
}

} // verus!
