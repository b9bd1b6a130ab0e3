use vstd::prelude::*;

use crate::error::Error;
use crate::textutil::push_char;

verus! {

broadcast use vstd::string::group_string_axioms;

#[verifier::external_type_specification]
#[verifier::external_body]
pub struct ExAsarWriter(asar::AsarWriter);

/// The files written into an archive writer so far, in write order.
pub uninterp spec fn asar_writes(w: asar::AsarWriter) -> Seq<(Seq<char>, Seq<u8>, bool)>;

/// Whether some write already claimed the path.
pub open spec fn writes_contain(writes: Seq<(Seq<char>, Seq<u8>, bool)>, path: Seq<char>) -> bool {
    exists|i: int| 0 <= i < writes.len() && (#[trigger] writes[i]).0 == path
}

/// Whether a dot or dot-dot path segment starts at position `i`.
pub open spec fn dot_segment_at(p: Seq<char>, i: int) -> bool {
    &&& 0 <= i < p.len()
    &&& p[i] == '.'
    &&& (i == 0 || p[i - 1] == '/')
    &&& (i + 1 == p.len() || p[i + 1] == '/' || (p[i + 1] == '.' && (i + 2 == p.len() || p[i + 2]
        == '/')))
}

/// Whether the path has a `.` or `..` segment.
pub open spec fn has_dot_segment(p: Seq<char>) -> bool {
    exists|i: int| dot_segment_at(p, i)
}

/// An archive destination: non-empty, relative, with no empty, dot or
/// dot-dot segments, so that it names exactly one archive entry.
pub open spec fn dest_ok(p: Seq<char>) -> bool {
    &&& p.len() > 0
    &&& p[0] != '/'
    &&& p[p.len() - 1] != '/'
    &&& (forall|i: int| 0 <= i < p.len() - 1 ==> !(p[i] == '/' && #[trigger] p[i + 1] == '/'))
    &&& !has_dot_segment(p)
}

/// A within-archive path: a leading separator, then a well-formed
/// destination. Such strings name paths one-to-one.
pub open spec fn archive_path_ok(q: Seq<char>) -> bool {
    &&& q.len() >= 2
    &&& q[0] == '/'
    &&& q[q.len() - 1] != '/'
    &&& (forall|i: int| 0 <= i < q.len() - 1 ==> !(q[i] == '/' && #[trigger] q[i + 1] == '/'))
    &&& !has_dot_segment(q)
}

/// Relies on `asar::AsarWriter::new`: a fresh writer holds no files.
#[verifier::external_body]
fn asar_new() -> (w: asar::AsarWriter)
    ensures
        asar_writes(w) == Seq::<(Seq<char>, Seq<u8>, bool)>::empty(),
{
    asar::AsarWriter::new()
}

/// Relies on `asar::AsarWriter::write_file`: appends the bytes under the
/// path and errors exactly when the path was already written.
#[verifier::external_body]
fn asar_write(w: &mut asar::AsarWriter, path: &str, data: &Vec<u8>, executable: bool) -> (r:
    Result<(), Error>)
    requires
        archive_path_ok(path@),
    ensures
        r is Ok <==> !writes_contain(asar_writes(*old(w)), path@),
        r is Ok ==> asar_writes(*final(w)) == asar_writes(*old(w)).push(
            (path@, data@, executable),
        ),
        r is Err ==> asar_writes(*final(w)) == asar_writes(*old(w)),
        r matches Err(e) ==> e matches Error::Archive(_),
{
    match w.write_file(path, data, executable) {
        Ok(()) => Ok(()),
        Err(e) => Err(Error::Archive(e.to_string())),
    }
}

/// Relies on `asar::AsarWriter::finalize`: renders the header and the
/// file bytes. The header is serialized from a hash-keyed directory, so
/// its key order — and with it the rendered bytes — may differ between
/// runs over the same writes; nothing is claimed of the bytes. Paths
/// with dot segments are left out by the requires, as the writer
/// refuses them.
#[verifier::external_body]
fn asar_finalize(w: asar::AsarWriter) -> (r: Result<Vec<u8>, Error>)
    requires
        forall|i: int| 0 <= i < asar_writes(w).len() ==> archive_path_ok(
            (#[trigger] asar_writes(w)[i]).0,
        ),
    ensures
        r matches Err(e) ==> e matches Error::Archive(_),
{
    let mut buf: Vec<u8> = Vec::new();
    match w.finalize(&mut buf) {
        Ok(_) => Ok(buf),
        Err(e) => Err(Error::Archive(e.to_string())),
    }
}

/// Whether the string is a well-formed archive destination.
#[verifier::loop_isolation(false)]
pub fn dest_ok_exec(s: &str) -> (r: bool)
    ensures
        r == dest_ok(s@),
{
    let n = s.unicode_len();
    if n == 0 {
        return false;
    }
    if s.get_char(0) == '/' {
        return false;
    }
    if s.get_char(n - 1) == '/' {
        return false;
    }
    let mut i: usize = 0;
    while i < n
        invariant
            i <= n,
            n == s@.len(),
            forall|j: int| 0 <= j < i && j < n - 1 ==> !(s@[j] == '/' && #[trigger] s@[j + 1]
                == '/'),
            forall|j: int| 0 <= j < i ==> !dot_segment_at(s@, j),
        decreases n - i,
    {
        let c = s.get_char(i);
        if c == '/' && i + 1 < n && s.get_char(i + 1) == '/' {
            return false;
        }
        if c == '.' {
            let at_boundary = i == 0 || s.get_char(i - 1) == '/';
            if at_boundary {
                if i + 1 == n || s.get_char(i + 1) == '/' {
                    proof {
                        assert(dot_segment_at(s@, i as int));
                    }
                    return false;
                }
                if s.get_char(i + 1) == '.' && (i + 2 == n || s.get_char(i + 2) == '/') {
                    proof {
                        assert(dot_segment_at(s@, i as int));
                    }
                    return false;
                }
            }
        }
        proof {
            assert(!dot_segment_at(s@, i as int));
        }
        i += 1;
    }
    proof {
        assert(forall|j: int| dot_segment_at(s@, j) ==> 0 <= j < n);
        assert(!has_dot_segment(s@));
    }
    true
}

/// One file to archive: its destination and its bytes.
pub struct ArchiveFile {
    pub dest: String,
    pub data: Vec<u8>,
}

/// What the files will be written as: each destination under the archive
/// root, with its bytes, marked executable.
pub open spec fn spec_archive_writes(files: Seq<ArchiveFile>) -> Seq<(Seq<char>, Seq<u8>, bool)> {
    Seq::new(files.len(), |i: int| ("/"@ + files[i].dest@, files[i].data@, true))
}

/// Whether the destinations are pairwise distinct.
pub open spec fn unique_dests(files: Seq<ArchiveFile>) -> bool {
    forall|i: int, j: int|
        0 <= i < j < files.len() ==> (#[trigger] files[i].dest@) != (#[trigger] files[j].dest@)
}

proof fn lemma_rooted_path_ok(d: Seq<char>)
    requires
        dest_ok(d),
    ensures
        archive_path_ok("/"@ + d),
{
    reveal_strlit("/");
    assert("/"@.len() == 1);
    let q = "/"@ + d;
    assert(q.len() == 1 + d.len());
    assert(q[0] == '/');
    assert forall|k: int| 0 <= k < d.len() implies #[trigger] q[k + 1] == d[k] by {}
    assert forall|i: int| 0 <= i < q.len() - 1 implies !(q[i] == '/' && #[trigger] q[i + 1]
        == '/') by {
        if i == 0 {
            assert(q[1] == d[0]);
            assert(d[0] != '/');
        } else {
            assert(q[i] == d[i - 1]);
            assert(q[i + 1] == d[i]);
            assert(!(d[i - 1] == '/' && d[(i - 1) + 1] == '/'));
        }
    }
    assert forall|i: int| !dot_segment_at(q, i) by {
        if 0 < i < q.len() {
            if dot_segment_at(q, i) {
                assert(q[i] == d[i - 1]);
                assert(dot_segment_at(d, i - 1));
            }
        }
    }
}

/// The finished archive: every given file is handed to the writer in
/// order, each under its destination at the archive root, exactly the
/// sequence `spec_archive_writes` models. A malformed or repeated
/// destination is an error, as is a failure of the writer itself; the
/// rendered bytes themselves are the writer's and are not pinned here.
#[verifier::loop_isolation(false)]
pub fn pack_asar_archive(files: &Vec<ArchiveFile>) -> (r: Result<Vec<u8>, Error>)
    ensures
        r is Ok ==> {
            &&& forall|i: int| 0 <= i < files@.len() ==> dest_ok((#[trigger] files@[i]).dest@)
            &&& unique_dests(files@)
        },
        (exists|i: int| 0 <= i < files@.len() && !dest_ok((#[trigger] files@[i]).dest@)) ==> r
            is Err,
        !unique_dests(files@) ==> r is Err,
        r matches Err(e) ==> e matches Error::Archive(_),
{
    let ghost wv = spec_archive_writes(files@);
    let mut w = asar_new();
    proof {
        assert(wv.take(0) =~= Seq::<(Seq<char>, Seq<u8>, bool)>::empty());
    }
    let n = files.len();
    let mut i: usize = 0;
    while i < n
        invariant
            i <= n,
            n == files@.len(),
            wv == spec_archive_writes(files@),
            asar_writes(w) == wv.take(i as int),
            forall|j: int| 0 <= j < i ==> dest_ok((#[trigger] files@[j]).dest@),
            forall|j: int| 0 <= j < i ==> archive_path_ok((#[trigger] wv[j]).0),
            forall|j: int| 0 <= j < i ==> !writes_contain(#[trigger] wv.take(j), wv[j].0),
        decreases n - i,
    {
        let f = &files[i];
        if !dest_ok_exec(f.dest.as_str()) {
            return Err(Error::Archive("an archive destination is malformed".to_owned()));
        }
        let mut key = String::new();
        push_char(&mut key, '/');
        key.append(f.dest.as_str());
        proof {
            reveal_strlit("/");
            assert(key@ =~= "/"@ + f.dest@);
            lemma_rooted_path_ok(f.dest@);
            assert(wv[i as int].0 == key@ && wv[i as int].1 == f.data@ && wv[i as int].2 == true);
        }
        match asar_write(&mut w, key.as_str(), &f.data, true) {
            Ok(()) => {},
            Err(e) => {
                return Err(e);
            },
        }
        proof {
            assert(!writes_contain(wv.take(i as int), wv[i as int].0));
            assert(wv.take(i + 1 as int) =~= wv.take(i as int).push(wv[i as int]));
        }
        i += 1;
    }
    proof {
        assert(wv.take(n as int) =~= wv);
        assert forall|a: int, b: int| 0 <= a < b < files@.len() implies (
        #[trigger] files@[a].dest@) != (#[trigger] files@[b].dest@) by {
            if files@[a].dest@ == files@[b].dest@ {
                assert(wv[a].0 == wv[b].0);
                assert(wv.take(b)[a] == wv[a]);
                assert(writes_contain(wv.take(b), wv[b].0));
                assert(!writes_contain(wv.take(b), wv[b].0));
            }
        }
    }
    asar_finalize(w)
}

} // verus!
