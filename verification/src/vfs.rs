//! The engine's model of the virtual filesystem and content store.
//!
//! Paths are raw bytes of the OS string, round-tripped byte-exactly. The
//! VFS and the content store are external collaborators: their observable
//! answers (link destinations, directory listings, file contents and the
//! digests the store assigns) are environment data the engine reads.

use vstd::prelude::*;

use crate::values::bytes_clone;

verus! {

/// A directory path.
#[derive(Debug, PartialEq, Eq)]
pub struct Dir(pub Vec<u8>);

/// A file path.
#[derive(Debug, PartialEq, Eq)]
pub struct File(pub Vec<u8>);

/// A symlink path.
#[derive(Debug, PartialEq, Eq)]
pub struct Link(pub Vec<u8>);

impl DeepView for Dir {
    type V = Seq<u8>;

    open spec fn deep_view(&self) -> Seq<u8> {
        self.0@
    }
}

impl DeepView for File {
    type V = Seq<u8>;

    open spec fn deep_view(&self) -> Seq<u8> {
        self.0@
    }
}

impl DeepView for Link {
    type V = Seq<u8>;

    open spec fn deep_view(&self) -> Seq<u8> {
        self.0@
    }
}

impl Clone for Dir {
    fn clone(&self) -> (r: Self)
        ensures
            r.deep_view() == self.deep_view(),
    {
        Dir(bytes_clone(&self.0))
    }
}

impl Clone for File {
    fn clone(&self) -> (r: Self)
        ensures
            r.deep_view() == self.deep_view(),
    {
        File(bytes_clone(&self.0))
    }
}

impl Clone for Link {
    fn clone(&self) -> (r: Self)
        ensures
            r.deep_view() == self.deep_view(),
    {
        Link(bytes_clone(&self.0))
    }
}

/// One directory entry, as a scandir reports it. No symlink is expanded.
#[derive(Debug, PartialEq, Eq)]
pub enum Stat {
    Link(Link),
    Dir(Dir),
    File(File),
}

/// Mathematical view of a `Stat`.
pub enum StatV {
    Link(Seq<u8>),
    Dir(Seq<u8>),
    File(Seq<u8>),
}

impl DeepView for Stat {
    type V = StatV;

    open spec fn deep_view(&self) -> StatV {
        match self {
            Stat::Link(l) => StatV::Link(l.0@),
            Stat::Dir(d) => StatV::Dir(d.0@),
            Stat::File(f) => StatV::File(f.0@),
        }
    }
}

impl Clone for Stat {
    fn clone(&self) -> (r: Self)
        ensures
            r.deep_view() == self.deep_view(),
    {
        match self {
            Stat::Link(l) => Stat::Link(l.clone()),
            Stat::Dir(d) => Stat::Dir(d.clone()),
            Stat::File(f) => Stat::File(f.clone()),
        }
    }
}

/// A canonicalized path paired with the stat found there.
#[derive(Debug, PartialEq, Eq)]
pub enum PathStat {
    Dir { path: Vec<u8>, stat: Dir },
    File { path: Vec<u8>, stat: File },
}

/// Mathematical view of a `PathStat`.
pub enum PathStatV {
    Dir { path: Seq<u8>, stat: Seq<u8> },
    File { path: Seq<u8>, stat: Seq<u8> },
}

impl DeepView for PathStat {
    type V = PathStatV;

    open spec fn deep_view(&self) -> PathStatV {
        match self {
            PathStat::Dir { path, stat } => PathStatV::Dir { path: path@, stat: stat.0@ },
            PathStat::File { path, stat } => PathStatV::File { path: path@, stat: stat.0@ },
        }
    }
}

impl Clone for PathStat {
    fn clone(&self) -> (r: Self)
        ensures
            r.deep_view() == self.deep_view(),
    {
        match self {
            PathStat::Dir { path, stat } => PathStat::Dir {
                path: bytes_clone(path),
                stat: stat.clone(),
            },
            PathStat::File { path, stat } => PathStat::File {
                path: bytes_clone(path),
                stat: stat.clone(),
            },
        }
    }
}

/// The stats of one directory, as one scandir returns them.
#[derive(Debug, PartialEq, Eq)]
pub struct DirectoryListing(pub Vec<Stat>);

impl DeepView for DirectoryListing {
    type V = Seq<StatV>;

    open spec fn deep_view(&self) -> Seq<StatV> {
        self.0.deep_view()
    }
}

impl Clone for DirectoryListing {
    #[verifier::loop_isolation(false)]
    fn clone(&self) -> (r: Self)
        ensures
            r.deep_view() == self.deep_view(),
    {
        let mut out: Vec<Stat> = Vec::new();
        let mut i: usize = 0;
        while i < self.0.len()
            invariant
                i <= self.0.len(),
                out@.len() == i,
                forall|j: int| #![all_triggers] 0 <= j < i
                    ==> out@[j].deep_view() == self.0@[j].deep_view(),
            decreases self.0.len() - i,
        {
            out.push(self.0[i].clone());
            i = i + 1;
        }
        let r = DirectoryListing(out);
        proof {
            assert(r.deep_view() =~= self.deep_view());
        }
        r
    }
}

/// A content-store handle: a fingerprint and the length of the serialized
/// bytes it identifies.
#[derive(Debug, PartialEq, Eq)]
pub struct Digest {
    pub fingerprint: Vec<u8>,
    pub serialized_bytes_length: u64,
}

/// Mathematical view of a `Digest`.
pub struct DigestV {
    pub fingerprint: Seq<u8>,
    pub serialized_bytes_length: u64,
}

impl DeepView for Digest {
    type V = DigestV;

    open spec fn deep_view(&self) -> DigestV {
        DigestV {
            fingerprint: self.fingerprint@,
            serialized_bytes_length: self.serialized_bytes_length,
        }
    }
}

impl Clone for Digest {
    fn clone(&self) -> (r: Self)
        ensures
            r.deep_view() == self.deep_view(),
    {
        Digest {
            fingerprint: bytes_clone(&self.fingerprint),
            serialized_bytes_length: self.serialized_bytes_length,
        }
    }
}

/// A well-formed digest: a 32-byte fingerprint and a length that fits the
/// signed 64-bit encoding of the host boundary.
pub open spec fn wf_digest(d: DigestV) -> bool {
    d.fingerprint.len() == 32 && d.serialized_bytes_length <= i64::MAX as u64
}

/// A byte string's deep view is its view.
pub broadcast proof fn lemma_bytes_deep_view(v: Vec<u8>)
    ensures
        #[trigger] v.deep_view() == v@,
{
    assert(v.deep_view() =~= v@);
}

/// Compares two byte strings; true exactly when their views are equal.
#[verifier::loop_isolation(false)]
pub fn bytes_eq(a: &Vec<u8>, b: &Vec<u8>) -> (r: bool)
    ensures
        r == (a@ == b@),
{
    if a.len() != b.len() {
        return false;
    }
    let mut i: usize = 0;
    while i < a.len()
        invariant
            i <= a.len(),
            a@.len() == b@.len(),
            forall|j: int| 0 <= j < i ==> a@[j] == b@[j],
        decreases a.len() - i,
    {
        if a[i] != b[i] {
            return false;
        }
        i = i + 1;
    }
    proof {
        assert(a@ =~= b@);
    }
    true
}

/// What one file looks like to the engine: its bytes, and the digest the
/// content store assigns to those bytes.
#[derive(Debug, PartialEq, Eq)]
pub struct FileRecord {
    pub content: Vec<u8>,
    pub digest: Digest,
}

/// Mathematical view of a `FileRecord`.
pub struct FileRecordV {
    pub content: Seq<u8>,
    pub digest: DigestV,
}

impl DeepView for FileRecord {
    type V = FileRecordV;

    open spec fn deep_view(&self) -> FileRecordV {
        FileRecordV { content: self.content@, digest: self.digest.deep_view() }
    }
}

/// The filesystem as the engine observes it through the VFS.
#[derive(Debug, PartialEq, Eq)]
pub struct FsModel {
    /// Symlink path to destination.
    pub links: Vec<(Vec<u8>, Vec<u8>)>,
    /// Directory path to listing.
    pub dirs: Vec<(Vec<u8>, DirectoryListing)>,
    /// File path to contents and digest.
    pub files: Vec<(Vec<u8>, FileRecord)>,
}

/// First value associated with a byte-string key, if any.
pub open spec fn spec_assoc_bytes<T>(entries: Seq<(Seq<u8>, T)>, key: Seq<u8>) -> Option<T>
    decreases entries.len(),
{
    if entries.len() == 0 {
        None
    } else if entries[0].0 == key {
        Some(entries[0].1)
    } else {
        spec_assoc_bytes(entries.drop_first(), key)
    }
}

impl FsModel {
    /// The destination of a symlink, if the VFS knows it.
    #[verifier::loop_isolation(false)]
    pub fn read_link(&self, link: &Vec<u8>) -> (r: Option<&Vec<u8>>)
        ensures
            match r {
                Some(d) => spec_assoc_bytes(self.links.deep_view(), link@) == Some(d@),
                None => spec_assoc_bytes(self.links.deep_view(), link@) is None,
            },
    {
        broadcast use lemma_bytes_deep_view;

        let ghost ev = self.links.deep_view();
        let mut i: usize = 0;
        proof {
            assert(ev.skip(0) =~= ev);
        }
        while i < self.links.len()
            invariant
                i <= self.links.len(),
                spec_assoc_bytes(ev, link@) == spec_assoc_bytes(ev.skip(i as int), link@),
            decreases self.links.len() - i,
        {
            proof {
                assert(ev.skip(i as int)[0] == ev[i as int]);
                assert(ev.skip(i as int).drop_first() =~= ev.skip(i as int + 1));
            }
            if bytes_eq(&self.links[i].0, link) {
                return Some(&self.links[i].1);
            }
            i = i + 1;
        }
        proof {
            assert(ev.skip(self.links@.len() as int).len() == 0);
        }
        None
    }

    /// The listing of a directory, if the VFS knows it.
    #[verifier::loop_isolation(false)]
    pub fn scandir(&self, dir: &Vec<u8>) -> (r: Option<&DirectoryListing>)
        ensures
            match r {
                Some(d) => spec_assoc_bytes(self.dirs.deep_view(), dir@) == Some(d.deep_view()),
                None => spec_assoc_bytes(self.dirs.deep_view(), dir@) is None,
            },
    {
        broadcast use lemma_bytes_deep_view;

        let ghost ev = self.dirs.deep_view();
        let mut i: usize = 0;
        proof {
            assert(ev.skip(0) =~= ev);
        }
        while i < self.dirs.len()
            invariant
                i <= self.dirs.len(),
                spec_assoc_bytes(ev, dir@) == spec_assoc_bytes(ev.skip(i as int), dir@),
            decreases self.dirs.len() - i,
        {
            proof {
                assert(ev.skip(i as int)[0] == ev[i as int]);
                assert(ev.skip(i as int).drop_first() =~= ev.skip(i as int + 1));
            }
            if bytes_eq(&self.dirs[i].0, dir) {
                return Some(&self.dirs[i].1);
            }
            i = i + 1;
        }
        proof {
            assert(ev.skip(self.dirs@.len() as int).len() == 0);
        }
        None
    }

    /// The contents and digest of a file, if the VFS knows it.
    #[verifier::loop_isolation(false)]
    pub fn read_file(&self, file: &Vec<u8>) -> (r: Option<&FileRecord>)
        ensures
            match r {
                Some(f) => spec_assoc_bytes(self.files.deep_view(), file@) == Some(f.deep_view()),
                None => spec_assoc_bytes(self.files.deep_view(), file@) is None,
            },
    {
        broadcast use lemma_bytes_deep_view;

        let ghost ev = self.files.deep_view();
        let mut i: usize = 0;
        proof {
            assert(ev.skip(0) =~= ev);
        }
        while i < self.files.len()
            invariant
                i <= self.files.len(),
                spec_assoc_bytes(ev, file@) == spec_assoc_bytes(ev.skip(i as int), file@),
            decreases self.files.len() - i,
        {
            proof {
                assert(ev.skip(i as int)[0] == ev[i as int]);
                assert(ev.skip(i as int).drop_first() =~= ev.skip(i as int + 1));
            }
            if bytes_eq(&self.files[i].0, file) {
                return Some(&self.files[i].1);
            }
            i = i + 1;
        }
        proof {
            assert(ev.skip(self.files@.len() as int).len() == 0);
        }
        None
    }
}

} // verus!
