//! File paths, kept as the bytes that the kernel sees.
use vstd::prelude::*;
use vstd::utf8::*;

verus! {

/// A path of any bytes; the separator is `/`.
#[derive(Debug, PartialEq, Eq)]
pub struct FilePath {
    pub bytes: Vec<u8>,
}

impl View for FilePath {
    type V = Seq<u8>;

    open spec fn view(&self) -> Seq<u8> {
        self.bytes@
    }
}

/// The path `name` taken from the directory `base`: an absolute `name` stands by itself, any
/// other is appended after one separator.
pub open spec fn joined(base: Seq<u8>, name: Seq<u8>) -> Seq<u8> {
    if name.len() > 0 && name[0] == 47 {
        name
    } else if base.len() == 0 || base.last() == 47 {
        base + name
    } else {
        base.push(47) + name
    }
}

/// The path that a text names.
pub open spec fn path_of(s: Seq<char>) -> Seq<u8> {
    encode_utf8(s)
}

/// The views of a list of paths.
pub open spec fn path_views(v: Seq<FilePath>) -> Seq<Seq<u8>> {
    v.map_values(|p: FilePath| p@)
}

/// The view of a path that may be missing.
pub open spec fn maybe_path(p: Option<FilePath>) -> Option<Seq<u8>> {
    match p {
        Some(p) => Some(p@),
        None => None,
    }
}

fn append_bytes(to: &mut Vec<u8>, from: &[u8])
    ensures
        final(to)@ == old(to)@ + from@,
{
    let ghost before = to@;
    let mut i: usize = 0;
    assert(before + from@.take(0) =~= before);
    while i < from.len()
        invariant
            i <= from.len(),
            to@ == before + from@.take(i as int),
        decreases from.len() - i,
    {
        to.push(from[i]);
        i = i + 1;
        assert(to@ =~= before + from@.take(i as int));
    }
    assert(from@.take(from@.len() as int) =~= from@);
}

impl Clone for FilePath {
    fn clone(&self) -> (r: Self)
        ensures
            r@ == self@,
    {
        let mut bytes: Vec<u8> = Vec::new();
        append_bytes(&mut bytes, self.bytes.as_slice());
        assert(bytes@ =~= self@);
        FilePath { bytes }
    }
}

impl FilePath {
    /// The path that `s` names.
    pub fn of(s: &str) -> (r: FilePath)
        ensures
            r@ == path_of(s@),
    {
        let mut bytes: Vec<u8> = Vec::new();
        append_bytes(&mut bytes, s.as_bytes());
        assert(bytes@ =~= path_of(s@));
        FilePath { bytes }
    }

    /// The path `name` taken from this directory.
    pub fn join(&self, name: &str) -> (r: FilePath)
        ensures
            r@ == joined(self@, path_of(name@)),
    {
        let tail = name.as_bytes();
        if tail.len() > 0 && tail[0] == 47 {
            return FilePath::of(name);
        }
        let mut r = self.clone();
        let n: usize = r.bytes.len();
        if n > 0 && r.bytes[n - 1] != 47 {
            r.bytes.push(47);
        }
        append_bytes(&mut r.bytes, tail);
        r
    }
}

/// A relative name taken from a directory keeps both, with a single separator between them: the
/// directory's own where it ends with one, else one that is added. An absolute name stands by
/// itself.
pub proof fn joined_path_keeps_both_parts(base: Seq<u8>, name: Seq<u8>)
    ensures
        name.len() > 0 && name[0] == '/' as u8 ==> joined(base, name) == name,
        name.len() > 0 && name[0] != '/' as u8 ==> {
            &&& base.is_prefix_of(joined(base, name))
            &&& name.is_suffix_of(joined(base, name))
            &&& base.len() == 0 ==> joined(base, name) == name
            &&& base.len() > 0 ==> joined(base, name)[joined(base, name).len() - name.len() - 1]
                == '/' as u8
            &&& joined(base, name).len() == base.len() + name.len() + (if base.len() > 0
                && base.last() != '/' as u8 {
                1int
            } else {
                0
            })
        },
{
    let j = joined(base, name);
    if name.len() > 0 && name[0] != '/' as u8 {
        assert(j.take(base.len() as int) =~= base);
        assert(j.skip(j.len() - name.len()) =~= name);
        if base.len() == 0 {
            assert(j =~= name);
        }
    }
}

} // verus!
