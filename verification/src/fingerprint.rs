use vstd::prelude::*;
use crate::adapter::CCompilerKind;

verus! {

broadcast use vstd::string::group_string_axioms;

/// What SHA-256 returns for the given bytes.
pub uninterp spec fn sha256_of(data: Seq<u8>) -> Seq<u8>;

/// Relies on `ring::digest::digest` with `SHA256`: a 32-byte digest that
/// depends on the input bytes alone.
#[verifier::external_body]
fn sha256_digest(data: &Vec<u8>) -> (r: Vec<u8>)
    ensures
        r@ == sha256_of(data@),
        r@.len() == 32,
{
    ring::digest::digest(&ring::digest::SHA256, data.as_slice()).as_ref().to_vec()
}

const HEX_DIGITS: [char; 16] = [
    '0',
    '1',
    '2',
    '3',
    '4',
    '5',
    '6',
    '7',
    '8',
    '9',
    'a',
    'b',
    'c',
    'd',
    'e',
    'f',
];

/// The lower-case hex rendering of the bytes, two digits each.
pub closed spec fn spec_to_hex(data: Seq<u8>) -> Seq<char>
    decreases data.len(),
{
    if data.len() == 0 {
        seq![]
    } else {
        seq![
            HEX_DIGITS@[(data.first() >> 4) as int],
            HEX_DIGITS@[(data.first() & 0x0f) as int],
        ] + spec_to_hex(data.drop_first())
    }
}

/// Render bytes as lower-case hex.
pub fn to_hex(data: &Vec<u8>) -> (r: String)
    ensures
        r@ == spec_to_hex(data@),
{
    let mut r = String::new();
    let mut i: usize = 0;
    proof {
        assert(data@.skip(0) =~= data@);
    }
    while i < data.len()
        invariant
            i <= data@.len(),
            spec_to_hex(data@) =~= r@ + spec_to_hex(data@.skip(i as int)),
        decreases data@.len() - i,
    {
        let b = data[i];
        proof {
            assert((b >> 4) < 16 && (b & 0x0f) < 16) by (bit_vector);
            assert(data@.skip(i as int).first() == b);
            assert(data@.skip(i as int).drop_first() =~= data@.skip(i + 1));
        }
        crate::strutil::string_push(&mut r, HEX_DIGITS[(b >> 4) as usize]);
        crate::strutil::string_push(&mut r, HEX_DIGITS[(b & 0x0f) as usize]);
        i = i + 1;
    }
    proof {
        assert(data@.skip(data@.len() as int) =~= Seq::<u8>::empty());
        assert(r@ =~= spec_to_hex(data@));
    }
    r
}

/// The eight little-endian bytes of `n`.
pub open spec fn enc_u64(n: u64) -> Seq<u8> {
    vstd::bytes::spec_u64_to_le_bytes(n)
}

/// Equal renderings come only from equal numbers.
pub proof fn lemma_enc_u64_injective(m: u64, n: u64)
    requires
        enc_u64(m) == enc_u64(n),
    ensures
        m == n,
{
    vstd::bytes::lemma_auto_spec_u64_to_from_le_bytes();
}

/// A blob rendered with its length in front, so that no rendering is a
/// prefix of another.
pub open spec fn enc_bytes(b: Seq<u8>) -> Seq<u8> {
    enc_u64(b.len() as u64) + b
}

/// The arguments in order, each length-prefixed, behind their count.
pub open spec fn enc_byte_list(l: Seq<Seq<u8>>) -> Seq<u8> {
    enc_u64(l.len() as u64) + enc_byte_list_tail(l)
}

pub open spec fn enc_byte_list_tail(l: Seq<Seq<u8>>) -> Seq<u8>
    decreases l.len(),
{
    if l.len() == 0 {
        Seq::empty()
    } else {
        enc_bytes(l.first()) + enc_byte_list_tail(l.drop_first())
    }
}

/// The adapter tag byte.
pub open spec fn spec_kind_tag(kind: CCompilerKind) -> u8 {
    match kind {
        CCompilerKind::GCC => 1,
    }
}

/// The byte stream the fingerprint hashes: the adapter tag, the compiler's
/// path and identity, the common flags in order, the language tag, and the
/// preprocessed bytes, each length-prefixed.
pub open spec fn spec_hash_input(
    kind: CCompilerKind,
    compiler_path: Seq<u8>,
    compiler_id: Seq<u8>,
    common_args: Seq<Seq<u8>>,
    extension: Seq<u8>,
    preprocessed: Seq<u8>,
) -> Seq<u8> {
    seq![spec_kind_tag(kind)] + enc_bytes(compiler_path) + enc_bytes(compiler_id) + enc_byte_list(
        common_args,
    ) + enc_bytes(extension) + enc_bytes(preprocessed)
}

} // verus!

verus! {

/// Append the little-endian bytes of `n`.
fn push_u64(dst: &mut Vec<u8>, n: u64)
    ensures
        final(dst)@ == old(dst)@ + enc_u64(n),
{
    let ghost base = dst@;
    let bytes = vstd::bytes::u64_to_le_bytes(n);
    push_bytes(dst, bytes.as_slice());
    proof {
        assert(dst@ =~= base + enc_u64(n));
    }
}

/// Append the bytes of `src`.
fn push_bytes(dst: &mut Vec<u8>, src: &[u8])
    ensures
        final(dst)@ == old(dst)@ + src@,
{
    let ghost base = dst@;
    let mut i: usize = 0;
    while i < src.len()
        invariant
            i <= src@.len(),
            dst@ == base + src@.take(i as int),
        decreases src@.len() - i,
    {
        let ghost pre = dst@;
        dst.push(src[i]);
        proof {
            assert(dst@ =~= pre.push(src@[i as int]));
            assert(pre.push(src@[i as int]) =~= base + src@.take(i + 1));
        }
        i = i + 1;
    }
    proof {
        assert(base + src@.take(src@.len() as int) =~= base + src@);
    }
}

/// Append a length-prefixed blob.
fn push_len_prefixed(dst: &mut Vec<u8>, src: &[u8])
    ensures
        final(dst)@ == old(dst)@ + enc_bytes(src@),
{
    let ghost base = dst@;
    push_u64(dst, src.len() as u64);
    push_bytes(dst, src);
    proof {
        assert(dst@ =~= base + enc_bytes(src@));
    }
}

/// The UTF-8 bytes a string contributes to the hash.
pub open spec fn str_bytes(s: Seq<char>) -> Seq<u8> {
    vstd::utf8::encode_utf8(s)
}

/// The views of the common flags as byte strings.
pub open spec fn args_bytes(args: Seq<Seq<char>>) -> Seq<Seq<u8>> {
    Seq::new(args.len(), |i: int| str_bytes(args[i]))
}

/// The textual fingerprint: the hex form of the digest of the combined
/// hash input.
pub open spec fn spec_fingerprint(
    kind: CCompilerKind,
    compiler_path: Seq<char>,
    compiler_id: Seq<char>,
    common_args: Seq<Seq<char>>,
    extension: Seq<char>,
    preprocessed: Seq<u8>,
) -> Seq<char> {
    spec_to_hex(
        sha256_of(
            spec_hash_input(
                kind,
                str_bytes(compiler_path),
                str_bytes(compiler_id),
                args_bytes(common_args),
                str_bytes(extension),
                preprocessed,
            ),
        ),
    )
}

/// Compute the cache key for one compilation: the digest covers the adapter
/// kind, the compiler's resolved path and identity token, the ordered common
/// flags, the language tag, and the full preprocessed byte stream.
pub fn fingerprint(
    kind: &CCompilerKind,
    compiler_path: &String,
    compiler_id: &String,
    common_args: &Vec<String>,
    extension: &String,
    preprocessed: &Vec<u8>,
) -> (r: String)
    ensures
        r@ == spec_fingerprint(
            *kind,
            compiler_path@,
            compiler_id@,
            common_args.deep_view(),
            extension@,
            preprocessed@,
        ),
{
    let mut input: Vec<u8> = Vec::new();
    let tag: u8 = match kind {
        CCompilerKind::GCC => 1,
    };
    input.push(tag);
    proof {
        assert(input@ =~= seq![spec_kind_tag(*kind)]);
    }
    push_len_prefixed(&mut input, compiler_path.as_str().as_bytes());
    push_len_prefixed(&mut input, compiler_id.as_str().as_bytes());
    push_u64(&mut input, common_args.len() as u64);
    let ghost abytes = args_bytes(common_args.deep_view());
    let ghost mid = input@;
    let mut i: usize = 0;
    while i < common_args.len()
        invariant
            i <= common_args@.len(),
            abytes == args_bytes(common_args.deep_view()),
            abytes.len() == common_args@.len(),
            input@ == mid + enc_byte_list_tail(abytes.take(i as int)),
            forall|j: int| 0 <= j < abytes.len() ==> #[trigger] abytes[j] == str_bytes(
                common_args.deep_view()[j],
            ),
        decreases common_args@.len() - i,
    {
        let ghost pre = input@;
        push_len_prefixed(&mut input, common_args[i].as_str().as_bytes());
        proof {
            lemma_enc_tail_snoc(abytes.take(i as int), abytes[i as int]);
            assert(abytes.take(i as int).push(abytes[i as int]) =~= abytes.take(i + 1));
            assert(input@ =~= mid + enc_byte_list_tail(abytes.take(i + 1)));
        }
        i = i + 1;
    }
    proof {
        assert(abytes.take(abytes.len() as int) =~= abytes);
    }
    push_len_prefixed(&mut input, extension.as_str().as_bytes());
    push_len_prefixed(&mut input, preprocessed.as_slice());
    proof {
        assert(input@ =~= spec_hash_input(
            *kind,
            str_bytes(compiler_path@),
            str_bytes(compiler_id@),
            args_bytes(common_args.deep_view()),
            str_bytes(extension@),
            preprocessed@,
        ));
    }
    let digest = sha256_digest(&input);
    to_hex(&digest)
}

/// Appending one more blob extends the tail rendering at its end.
proof fn lemma_enc_tail_snoc(l: Seq<Seq<u8>>, x: Seq<u8>)
    ensures
        enc_byte_list_tail(l.push(x)) == enc_byte_list_tail(l) + enc_bytes(x),
    decreases l.len(),
{
    if l.len() == 0 {
        assert(l.push(x).drop_first() =~= Seq::<Seq<u8>>::empty());
        assert(l.push(x).first() == x);
        assert(enc_byte_list_tail(l.push(x)) == enc_bytes(x) + enc_byte_list_tail(
            l.push(x).drop_first(),
        ));
        assert(enc_byte_list_tail(Seq::<Seq<u8>>::empty()) == Seq::<u8>::empty());
        assert(enc_byte_list_tail(l) == Seq::<u8>::empty());
        assert(enc_bytes(x) + Seq::<u8>::empty() =~= Seq::<u8>::empty() + enc_bytes(x));
    } else {
        assert(l.push(x).drop_first() =~= l.drop_first().push(x));
        assert(l.push(x).first() == l.first());
        lemma_enc_tail_snoc(l.drop_first(), x);
        assert(enc_byte_list_tail(l.push(x)) == enc_bytes(l.first()) + enc_byte_list_tail(
            l.push(x).drop_first(),
        ));
        assert(enc_byte_list_tail(l) == enc_bytes(l.first()) + enc_byte_list_tail(l.drop_first()));
        assert(enc_bytes(l.first()) + (enc_byte_list_tail(l.drop_first()) + enc_bytes(x)) =~= (
        enc_bytes(l.first()) + enc_byte_list_tail(l.drop_first())) + enc_bytes(x));
    }
}

} // verus!

verus! {

/// Equal concatenations with equally long heads have equal parts.
proof fn lemma_concat_parts(a1: Seq<u8>, b1: Seq<u8>, a2: Seq<u8>, b2: Seq<u8>)
    requires
        a1.len() == a2.len(),
        a1 + b1 == a2 + b2,
    ensures
        a1 == a2,
        b1 == b2,
{
    assert forall|i: int| 0 <= i < a1.len() implies a1[i] == a2[i] by {
        assert((a1 + b1)[i] == a1[i]);
        assert((a2 + b2)[i] == a2[i]);
    }
    assert(a1 =~= a2);
    assert((a1 + b1).len() == (a2 + b2).len());
    assert((a1 + b1).len() == a1.len() + b1.len());
    assert((a2 + b2).len() == a2.len() + b2.len());
    assert(b1.len() == b2.len());
    assert forall|i: int| 0 <= i < b1.len() implies b1[i] == b2[i] by {
        assert(0 <= a1.len() + i < (a1 + b1).len());
        assert((a1 + b1)[a1.len() + i] == b1[i]);
        assert((a2 + b2)[a2.len() + i] == b2[i]);
    }
    assert(b1 =~= b2);
}

/// A length-prefixed blob determines itself and whatever follows it.
proof fn lemma_enc_bytes_prefix(x: Seq<u8>, y: Seq<u8>, r1: Seq<u8>, r2: Seq<u8>)
    requires
        x.len() < 0x1_0000_0000_0000_0000,
        y.len() < 0x1_0000_0000_0000_0000,
        enc_bytes(x) + r1 == enc_bytes(y) + r2,
    ensures
        x == y,
        r1 == r2,
{
    vstd::bytes::lemma_auto_spec_u64_to_from_le_bytes();
    assert((enc_u64(x.len() as u64) + x) + r1 =~= enc_u64(x.len() as u64) + (x + r1));
    assert((enc_u64(y.len() as u64) + y) + r2 =~= enc_u64(y.len() as u64) + (y + r2));
    assert(enc_u64(x.len() as u64).len() == 8);
    assert(enc_u64(y.len() as u64).len() == 8);
    lemma_concat_parts(enc_u64(x.len() as u64), x + r1, enc_u64(y.len() as u64), y + r2);
    lemma_enc_u64_injective(x.len() as u64, y.len() as u64);
    lemma_concat_parts(x, r1, y, r2);
}

/// The tail rendering of an argument list determines the list and whatever
/// follows it, once the lists are equally long.
proof fn lemma_enc_tail_prefix(l1: Seq<Seq<u8>>, l2: Seq<Seq<u8>>, r1: Seq<u8>, r2: Seq<u8>)
    requires
        l1.len() == l2.len(),
        forall|i: int| 0 <= i < l1.len() ==> (#[trigger] l1[i]).len() < 0x1_0000_0000_0000_0000,
        forall|i: int| 0 <= i < l2.len() ==> (#[trigger] l2[i]).len() < 0x1_0000_0000_0000_0000,
        enc_byte_list_tail(l1) + r1 == enc_byte_list_tail(l2) + r2,
    ensures
        l1 == l2,
        r1 == r2,
    decreases l1.len(),
{
    if l1.len() == 0 {
        assert(enc_byte_list_tail(l1) == Seq::<u8>::empty());
        assert(enc_byte_list_tail(l2) == Seq::<u8>::empty());
        lemma_concat_parts(enc_byte_list_tail(l1), r1, enc_byte_list_tail(l2), r2);
        assert(l1 =~= l2);
    } else {
        assert(enc_byte_list_tail(l1) == enc_bytes(l1.first()) + enc_byte_list_tail(
            l1.drop_first(),
        ));
        assert(enc_byte_list_tail(l2) == enc_bytes(l2.first()) + enc_byte_list_tail(
            l2.drop_first(),
        ));
        assert((enc_bytes(l1.first()) + enc_byte_list_tail(l1.drop_first())) + r1 =~= enc_bytes(
            l1.first(),
        ) + (enc_byte_list_tail(l1.drop_first()) + r1));
        assert((enc_bytes(l2.first()) + enc_byte_list_tail(l2.drop_first())) + r2 =~= enc_bytes(
            l2.first(),
        ) + (enc_byte_list_tail(l2.drop_first()) + r2));
        assert(l1[0].len() < 0x1_0000_0000_0000_0000);
        assert(l2[0].len() < 0x1_0000_0000_0000_0000);
        lemma_enc_bytes_prefix(
            l1.first(),
            l2.first(),
            enc_byte_list_tail(l1.drop_first()) + r1,
            enc_byte_list_tail(l2.drop_first()) + r2,
        );
        assert(forall|i: int|
            0 <= i < l1.drop_first().len() ==> (#[trigger] l1.drop_first()[i]).len()
                < 0x1_0000_0000_0000_0000) by {
            assert(forall|i: int|
                0 <= i < l1.drop_first().len() ==> l1.drop_first()[i] == l1[i + 1]);
        }
        assert(forall|i: int|
            0 <= i < l2.drop_first().len() ==> (#[trigger] l2.drop_first()[i]).len()
                < 0x1_0000_0000_0000_0000) by {
            assert(forall|i: int|
                0 <= i < l2.drop_first().len() ==> l2.drop_first()[i] == l2[i + 1]);
        }
        lemma_enc_tail_prefix(l1.drop_first(), l2.drop_first(), r1, r2);
        assert forall|i: int| 0 <= i < l1.len() implies l1[i] == l2[i] by {
            if i == 0 {
                assert(l1.first() == l2.first());
            } else {
                assert(l1.drop_first()[i - 1] == l1[i]);
                assert(l2.drop_first()[i - 1] == l2[i]);
            }
        }
        assert(l1 =~= l2);
    }
}

/// All byte lengths a hash input draws on are small enough for their
/// length prefixes to be exact.
pub open spec fn hash_input_lens_ok(
    compiler_path: Seq<u8>,
    compiler_id: Seq<u8>,
    common_args: Seq<Seq<u8>>,
    extension: Seq<u8>,
    preprocessed: Seq<u8>,
) -> bool {
    &&& compiler_path.len() < 0x1_0000_0000_0000_0000
    &&& compiler_id.len() < 0x1_0000_0000_0000_0000
    &&& common_args.len() < 0x1_0000_0000_0000_0000
    &&& (forall|i: int|
        0 <= i < common_args.len() ==> (#[trigger] common_args[i]).len()
            < 0x1_0000_0000_0000_0000)
    &&& extension.len() < 0x1_0000_0000_0000_0000
    &&& preprocessed.len() < 0x1_0000_0000_0000_0000
}

/// The hash input is injective: two invocations produce the same hashed
/// byte stream only when the adapter kind, the compiler's path and
/// identity, every common flag in order, the language tag and the whole
/// preprocessed byte stream agree. Changing any byte of the preprocessed
/// output or any common flag therefore changes the digest's input; that
/// distinct inputs give distinct digests is SHA-256's collision
/// resistance, which this library takes on trust.
pub proof fn lemma_hash_input_injective(
    k1: CCompilerKind,
    p1: Seq<u8>,
    i1: Seq<u8>,
    a1: Seq<Seq<u8>>,
    e1: Seq<u8>,
    pre1: Seq<u8>,
    k2: CCompilerKind,
    p2: Seq<u8>,
    i2: Seq<u8>,
    a2: Seq<Seq<u8>>,
    e2: Seq<u8>,
    pre2: Seq<u8>,
)
    requires
        hash_input_lens_ok(p1, i1, a1, e1, pre1),
        hash_input_lens_ok(p2, i2, a2, e2, pre2),
        spec_hash_input(k1, p1, i1, a1, e1, pre1) == spec_hash_input(k2, p2, i2, a2, e2, pre2),
    ensures
        k1 == k2,
        p1 == p2,
        i1 == i2,
        a1 == a2,
        e1 == e2,
        pre1 == pre2,
{
    vstd::bytes::lemma_auto_spec_u64_to_from_le_bytes();
    let s1 = spec_hash_input(k1, p1, i1, a1, e1, pre1);
    let s2 = spec_hash_input(k2, p2, i2, a2, e2, pre2);
    let t1 = enc_bytes(p1) + enc_bytes(i1) + enc_byte_list(a1) + enc_bytes(e1) + enc_bytes(pre1);
    let t2 = enc_bytes(p2) + enc_bytes(i2) + enc_byte_list(a2) + enc_bytes(e2) + enc_bytes(pre2);
    assert(s1 =~= seq![spec_kind_tag(k1)] + t1);
    assert(s2 =~= seq![spec_kind_tag(k2)] + t2);
    lemma_concat_parts(seq![spec_kind_tag(k1)], t1, seq![spec_kind_tag(k2)], t2);
    assert(spec_kind_tag(k1) == spec_kind_tag(k2));
    assert(t1 =~= enc_bytes(p1) + (enc_bytes(i1) + enc_byte_list(a1) + enc_bytes(e1) + enc_bytes(
        pre1,
    )));
    assert(t2 =~= enc_bytes(p2) + (enc_bytes(i2) + enc_byte_list(a2) + enc_bytes(e2) + enc_bytes(
        pre2,
    )));
    lemma_enc_bytes_prefix(
        p1,
        p2,
        enc_bytes(i1) + enc_byte_list(a1) + enc_bytes(e1) + enc_bytes(pre1),
        enc_bytes(i2) + enc_byte_list(a2) + enc_bytes(e2) + enc_bytes(pre2),
    );
    assert(enc_bytes(i1) + enc_byte_list(a1) + enc_bytes(e1) + enc_bytes(pre1) =~= enc_bytes(i1) + (
    enc_byte_list(a1) + enc_bytes(e1) + enc_bytes(pre1)));
    assert(enc_bytes(i2) + enc_byte_list(a2) + enc_bytes(e2) + enc_bytes(pre2) =~= enc_bytes(i2) + (
    enc_byte_list(a2) + enc_bytes(e2) + enc_bytes(pre2)));
    lemma_enc_bytes_prefix(
        i1,
        i2,
        enc_byte_list(a1) + enc_bytes(e1) + enc_bytes(pre1),
        enc_byte_list(a2) + enc_bytes(e2) + enc_bytes(pre2),
    );
    assert(enc_byte_list(a1) + enc_bytes(e1) + enc_bytes(pre1) =~= enc_u64(a1.len() as u64) + (
    enc_byte_list_tail(a1) + (enc_bytes(e1) + enc_bytes(pre1))));
    assert(enc_byte_list(a2) + enc_bytes(e2) + enc_bytes(pre2) =~= enc_u64(a2.len() as u64) + (
    enc_byte_list_tail(a2) + (enc_bytes(e2) + enc_bytes(pre2))));
    lemma_concat_parts(
        enc_u64(a1.len() as u64),
        enc_byte_list_tail(a1) + (enc_bytes(e1) + enc_bytes(pre1)),
        enc_u64(a2.len() as u64),
        enc_byte_list_tail(a2) + (enc_bytes(e2) + enc_bytes(pre2)),
    );
    lemma_enc_u64_injective(a1.len() as u64, a2.len() as u64);
    lemma_enc_tail_prefix(a1, a2, enc_bytes(e1) + enc_bytes(pre1), enc_bytes(e2) + enc_bytes(pre2));
    lemma_enc_bytes_prefix(e1, e2, enc_bytes(pre1), enc_bytes(pre2));
    assert(enc_bytes(pre1) + Seq::<u8>::empty() =~= enc_bytes(pre1));
    assert(enc_bytes(pre2) + Seq::<u8>::empty() =~= enc_bytes(pre2));
    lemma_enc_bytes_prefix(pre1, pre2, Seq::empty(), Seq::empty());
}

/// Two invocations with the same compiler, the same common flags, the same
/// language and the same preprocessed bytes get the same fingerprint.
pub proof fn lemma_fingerprint_deterministic(
    k1: CCompilerKind,
    p1: Seq<char>,
    i1: Seq<char>,
    a1: Seq<Seq<char>>,
    e1: Seq<char>,
    pre1: Seq<u8>,
    k2: CCompilerKind,
    p2: Seq<char>,
    i2: Seq<char>,
    a2: Seq<Seq<char>>,
    e2: Seq<char>,
    pre2: Seq<u8>,
)
    requires
        k1 == k2,
        p1 == p2,
        i1 == i2,
        a1 == a2,
        e1 == e2,
        pre1 == pre2,
    ensures
        spec_fingerprint(k1, p1, i1, a1, e1, pre1) == spec_fingerprint(k2, p2, i2, a2, e2, pre2),
{
}

} // verus!
