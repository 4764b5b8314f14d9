use vstd::prelude::*;
use crate::strutil::string_is;

verus! {

/// One artifact of a compilation: its kind tag (`obj`, `dwo`), its bytes,
/// and its unix mode bits when the host recorded them.
#[derive(Debug, PartialEq)]
pub struct ArtifactEntry {
    pub name: String,
    pub data: Vec<u8>,
    pub mode: Option<u32>,
}

pub type ArtifactEntryV = (Seq<char>, Seq<u8>, Option<u32>);

impl View for ArtifactEntry {
    type V = ArtifactEntryV;

    open spec fn view(&self) -> ArtifactEntryV {
        (self.name@, self.data@, self.mode)
    }
}

pub open spec fn entries_view(es: Seq<ArtifactEntry>) -> Seq<ArtifactEntryV> {
    Seq::new(es.len(), |i: int| es[i]@)
}

/// No two entries share a name.
pub open spec fn unique_names(es: Seq<ArtifactEntryV>) -> bool {
    forall|i: int, j: int| 0 <= i < j < es.len() ==> (#[trigger] es[i]).0 != (#[trigger] es[j]).0
}

/// What the archive reader decodes from a byte blob: the entries in order,
/// or nothing when the blob is not a well-formed archive. Decoding is a
/// function of the bytes alone.
pub uninterp spec fn bundle_entries_of(b: Seq<u8>) -> Option<Seq<ArtifactEntryV>>;

/// The mode the archive records for an entry: its permission bits, marked
/// as a regular file, with rw-r--r-- for entries that gave none.
pub open spec fn spec_stored_mode(m: Option<u32>) -> Option<u32> {
    match m {
        Option::Some(x) => Some((0o100000u32 | (x & 0o777)) as u32),
        Option::None => Some(0o100644u32),
    }
}

/// The entries as the archive records them: bytes and names untouched,
/// modes normalized to regular-file permission bits.
pub open spec fn stored_entries(es: Seq<ArtifactEntryV>) -> Seq<ArtifactEntryV> {
    Seq::new(es.len(), |i: int| (es[i].0, es[i].1, spec_stored_mode(es[i].2)))
}

/// Relies on zip's `ZipWriter`: each entry becomes one deflate-compressed
/// archive member keeping its permission bits (marked as a regular file,
/// rw-r--r-- when none were given), and reading the finished archive back
/// yields exactly the members that were written, in order, as long as no
/// name repeats.
#[verifier::external_body]
fn zip_pack(entries: &Vec<ArtifactEntry>) -> (r: Result<Vec<u8>, ()>)
    ensures
        match r {
            Ok(b) => unique_names(entries_view(entries@)) ==> bundle_entries_of(b@) == Some(
                stored_entries(entries_view(entries@)),
            ),
            Err(_) => true,
        },
{
    let mut zw = zip::ZipWriter::new(std::io::Cursor::new(Vec::new()));
    for e in entries.iter() {
        let mut o = zip::write::SimpleFileOptions::default().compression_method(
            zip::CompressionMethod::Deflated,
        );
        if let Some(m) = e.mode {
            o = o.unix_permissions(m);
        }
        zw.start_file(e.name.as_str(), o).map_err(|_| ())?;
        std::io::Write::write_all(&mut zw, &e.data).map_err(|_| ())?;
    }
    Ok(zw.finish().map_err(|_| ())?.into_inner())
}

/// Relies on zip's `ZipArchive`: a well-formed archive yields its members
/// in order with their names, bytes and stored unix modes; a malformed
/// blob is rejected.
#[verifier::external_body]
fn zip_unpack(bytes: &Vec<u8>) -> (r: Result<Vec<ArtifactEntry>, ()>)
    ensures
        match r {
            Ok(es) => bundle_entries_of(bytes@) == Some(entries_view(es@)),
            Err(_) => bundle_entries_of(bytes@) is None,
        },
{
    let mut za = zip::ZipArchive::new(std::io::Cursor::new(bytes.clone())).map_err(|_| ())?;
    let mut out: Vec<ArtifactEntry> = Vec::new();
    for i in 0..za.len() {
        let mut f = za.by_index(i).map_err(|_| ())?;
        let name = f.name().to_string();
        let mode = f.unix_mode();
        let mut data: Vec<u8> = Vec::new();
        std::io::Read::read_to_end(&mut f, &mut data).map_err(|_| ())?;
        out.push(ArtifactEntry { name, data, mode });
    }
    Ok(out)
}

/// Data to be stored in the compiler cache: named artifacts gathered one by
/// one, then packed into a single compressed blob.
pub struct CacheWrite {
    entries: Vec<ArtifactEntry>,
}

impl CacheWrite {
    /// The artifacts gathered so far, in order.
    pub closed spec fn view(&self) -> Seq<ArtifactEntryV> {
        entries_view(self.entries@)
    }

    /// An empty cache entry.
    pub fn new() -> (r: CacheWrite)
        ensures
            r@ == Seq::<ArtifactEntryV>::empty(),
    {
        let r = CacheWrite { entries: Vec::new() };
        proof {
            assert(r@ =~= Seq::<ArtifactEntryV>::empty());
        }
        r
    }

    /// Add an artifact under `name`; with a mode, the bits are restored on
    /// unpack.
    pub fn put_object(&mut self, name: &str, data: &Vec<u8>, mode: Option<u32>)
        ensures
            final(self)@ == old(self)@.push((name@, data@, mode)),
    {
        let ghost pre = entries_view(self.entries@);
        self.entries.push(ArtifactEntry { name: name.to_owned(), data: data.clone(), mode });
        proof {
            assert(entries_view(self.entries@) =~= pre.push((name@, data@, mode)));
        }
    }

    /// Pack the gathered artifacts into the archive blob: unpacking the
    /// blob yields exactly the artifacts that were put, names and bytes
    /// alike and modes in the archive's regular-file form, as long as no
    /// name repeats.
    pub fn finish(self) -> (r: Result<Vec<u8>, &'static str>)
        ensures
            match r {
                Ok(b) => unique_names(self@) ==> bundle_entries_of(b@) == Some(
                    stored_entries(self@),
                ),
                Err(e) => e@ == "Failed to finish cache entry zip"@,
            },
    {
        match zip_pack(&self.entries) {
            Ok(b) => Ok(b),
            Err(_) => Err("Failed to finish cache entry zip"),
        }
    }
}

/// Data read back from the compiler cache: the decoded artifacts of one
/// stored blob.
#[derive(Debug)]
pub struct CacheRead {
    entries: Vec<ArtifactEntry>,
}

/// The first entry named `name`, if any: its bytes and mode.
pub open spec fn spec_find_entry(es: Seq<ArtifactEntryV>, name: Seq<char>) -> Option<
    (Seq<u8>, Option<u32>),
>
    decreases es.len(),
{
    if es.len() == 0 {
        None
    } else if es.first().0 == name {
        Some((es.first().1, es.first().2))
    } else {
        spec_find_entry(es.drop_first(), name)
    }
}

impl CacheRead {
    /// The decoded artifacts, in the order they were packed.
    pub closed spec fn view(&self) -> Seq<ArtifactEntryV> {
        entries_view(self.entries@)
    }

    /// Decode a cache entry from the stored blob.
    pub fn from(bytes: &Vec<u8>) -> (r: Result<CacheRead, &'static str>)
        ensures
            match r {
                Ok(c) => bundle_entries_of(bytes@) == Some(c@),
                Err(e) => bundle_entries_of(bytes@) is None && e@
                    == "Failed to parse cache entry"@,
            },
    {
        match zip_unpack(bytes) {
            Ok(es) => Ok(CacheRead { entries: es }),
            Err(_) => Err("Failed to parse cache entry"),
        }
    }

    /// The artifact stored under `name`: its bytes and its mode, when the
    /// bundle holds one.
    pub fn get_object(&self, name: &str) -> (r: Option<(Vec<u8>, Option<u32>)>)
        ensures
            match r {
                Option::Some(dm) => spec_find_entry(self@, name@) == Some((dm.0@, dm.1)),
                Option::None => spec_find_entry(self@, name@) is None,
            },
    {
        let ghost es = self@;
        let mut i: usize = 0;
        proof {
            assert(es.skip(0) =~= es);
        }
        while i < self.entries.len()
            invariant
                i <= self.entries@.len(),
                es == entries_view(self.entries@),
                spec_find_entry(es, name@) == spec_find_entry(es.skip(i as int), name@),
            decreases self.entries@.len() - i,
        {
            proof {
                assert(es.skip(i as int).first() == es[i as int]);
                assert(es.skip(i as int).drop_first() =~= es.skip(i + 1));
            }
            let e = &self.entries[i];
            if string_is(&e.name, name) {
                return Some((e.data.clone(), e.mode));
            }
            i = i + 1;
        }
        proof {
            assert(es.skip(es.len() as int).len() == 0);
        }
        None
    }

    /// How many artifacts the bundle holds.
    pub fn len(&self) -> (r: usize)
        ensures
            r == self@.len(),
    {
        self.entries.len()
    }
}

/// Result of a cache lookup.
#[derive(Debug)]
pub enum Cache {
    /// The entry was found and decoded.
    Hit(CacheRead),
    /// The entry was not in the cache.
    Miss,
    /// The entry must be ignored: compilation is forced.
    Recache,
}

} // verus!
