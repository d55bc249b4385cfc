//! The contents side of the merge, and the names of a download's temporary
//! files.
//!
//! Merging is byte-exact concatenation in index order; the file operations
//! around it belong to the driver. The names of temporary files are a
//! protocol on disk: the part files of a download to `<dir>/<stem>.<ext>` are
//! the files of `<dir>` whose names begin with `<stem>.part`, and the markers
//! are those among them that end in `.done`.

use crate::downloader::types::{tiles, Chunk};
use crate::paths::{file_stem, parent, path_file_stem, path_parent};
use crate::text::{ends_with, has_prefix, has_suffix, starts_with, texts_of};
use vstd::prelude::*;
use vstd::string::*;

verus! {

/// Size in bytes of the read and write buffers that the merge works with.
pub const MERGE_BUFFER_SIZE: usize = 1_048_576;

/// The bytes of `parts`, one part after the other.
pub open spec fn concat(parts: Seq<Seq<u8>>) -> Seq<u8>
    decreases parts.len(),
{
    if parts.len() == 0 {
        Seq::empty()
    } else {
        concat(parts.drop_last()) + parts.last()
    }
}

/// The contents of the part files `parts`, where a part that is missing
/// counts as empty.
pub open spec fn contents_of(parts: Seq<Option<Vec<u8>>>) -> Seq<Seq<u8>> {
    Seq::new(
        parts.len(),
        |i: int|
            match parts[i] {
                Some(bytes) => bytes@,
                None => Seq::empty(),
            },
    )
}

/// Why a merge failed.
#[derive(Debug, Clone, Copy, PartialEq, Eq, Structural)]
pub enum MergeError {
    /// The part file at `index` does not exist.
    MissingPart { index: usize },
}

/// Concatenates the contents of the part files, in the order given.
///
/// `parts[i]` is what the part file of chunk `i` holds, or `None` where the
/// file is missing. With every part present the result is their bytes, one
/// part after the other and nothing else; for no parts at all it is empty.
/// The first missing part aborts the merge.
pub fn merge_chunks(parts: &Vec<Option<Vec<u8>>>) -> (r: Result<Vec<u8>, MergeError>)
    ensures
        match r {
            Ok(merged) => {
                &&& forall|i: int| 0 <= i < parts@.len() ==> parts@[i] is Some
                &&& merged@ == concat(contents_of(parts@))
            },
            Err(MergeError::MissingPart { index }) => {
                &&& index < parts@.len()
                &&& parts@[index as int] is None
                &&& forall|i: int| 0 <= i < index ==> parts@[i] is Some
            },
        },
        parts@.len() == 0 ==> (r matches Ok(merged) && merged@.len() == 0),
{
    let mut merged: Vec<u8> = Vec::new();
    let mut i: usize = 0;
    assert(contents_of(parts@).take(0) =~= Seq::empty());
    while i < parts.len()
        invariant
            i <= parts.len(),
            forall|j: int| 0 <= j < i ==> parts@[j] is Some,
            merged@ == concat(contents_of(parts@).take(i as int)),
        decreases parts.len() - i,
    {
        match &parts[i] {
            Some(bytes) => {
                let ghost before = merged@;
                merged.extend_from_slice(bytes.as_slice());
                proof {
                    let now = contents_of(parts@).take(i + 1);
                    assert(now.drop_last() =~= contents_of(parts@).take(i as int));
                    assert(now.last() == bytes@);
                    assert(merged@ =~= before + bytes@);
                }
            },
            None => {
                return Err(MergeError::MissingPart { index: i });
            },
        }
        i += 1;
    }
    assert(contents_of(parts@).take(parts@.len() as int) =~= contents_of(parts@));
    Ok(merged)
}

/// Concatenation does not depend on where the parts are cut: the parts of
/// one list followed by the parts of another give the bytes of the first
/// followed by the bytes of the second.
pub proof fn lemma_concat_append(a: Seq<Seq<u8>>, b: Seq<Seq<u8>>)
    ensures
        concat(a + b) == concat(a) + concat(b),
    decreases b.len(),
{
    if b.len() == 0 {
        assert(a + b =~= a);
        assert(concat(a) + concat(b) =~= concat(a));
    } else {
        lemma_concat_append(a, b.drop_last());
        assert((a + b).drop_last() =~= a + b.drop_last());
        assert((a + b).last() == b.last());
        assert(concat(a + b) =~= concat(a) + concat(b));
    }
}

/// The bytes of `data` that chunk `i` of `chunks` covers.
pub open spec fn slice_of(data: Seq<u8>, chunks: Seq<Chunk>, i: int) -> Seq<u8> {
    data.subrange(chunks[i].start as int, chunks[i].end + 1)
}

/// The part contents that a complete download of `data` in `chunks` leaves.
pub open spec fn slices_of(data: Seq<u8>, chunks: Seq<Chunk>) -> Seq<Seq<u8>> {
    Seq::new(chunks.len(), |i: int| slice_of(data, chunks, i))
}

/// Merging gives the resource back: for chunks that tile a resource, the
/// concatenation of what each chunk covers is the resource itself, byte for
/// byte, wherever the chunk boundaries lie.
pub proof fn lemma_merge_restores_resource(data: Seq<u8>, chunks: Seq<Chunk>)
    requires
        tiles(chunks, data.len()),
    ensures
        concat(slices_of(data, chunks)) == data,
{
    lemma_merge_prefix(data, chunks, chunks.len() as int);
    assert(slices_of(data, chunks).take(chunks.len() as int) =~= slices_of(data, chunks));
    assert(chunks.last() == chunks[chunks.len() - 1]);
    assert(data.subrange(0, data.len() as int) =~= data);
}

/// The first `n` chunks of a tiling, merged, are the resource up to the end
/// of chunk `n - 1`.
proof fn lemma_merge_prefix(data: Seq<u8>, chunks: Seq<Chunk>, n: int)
    requires
        tiles(chunks, data.len()),
        1 <= n <= chunks.len(),
    ensures
        chunks[n - 1].end < data.len(),
        concat(slices_of(data, chunks).take(n)) == data.subrange(0, chunks[n - 1].end + 1),
    decreases n,
{
    let parts = slices_of(data, chunks).take(n);
    assert(chunks[n - 1].end < data.len()) by {
        if n < chunks.len() {
            crate::downloader::types::lemma_tiles_disjoint(
                chunks,
                data.len(),
                n - 1,
                chunks.len() - 1,
            );
            assert(chunks[chunks.len() - 1].start <= chunks[chunks.len() - 1].end);
        }
        assert(chunks.last() == chunks[chunks.len() - 1]);
    }
    assert(chunks[n - 1].start <= chunks[n - 1].end);
    assert(parts.last() == slice_of(data, chunks, n - 1));
    if n == 1 {
        assert(parts.drop_last() =~= Seq::empty());
        assert(concat(parts.drop_last()) =~= Seq::empty());
        assert(concat(parts) =~= data.subrange(0, chunks[0].end + 1));
    } else {
        lemma_merge_prefix(data, chunks, n - 1);
        assert(parts.drop_last() =~= slices_of(data, chunks).take(n - 1));
        assert(chunks[n - 2].end + 1 == chunks[n - 2 + 1].start);
        assert(concat(parts) =~= data.subrange(0, chunks[n - 1].end + 1));
    }
}

/// What the name of a file in the output directory is to a download.
#[derive(Debug, Clone, Copy, PartialEq, Eq, Structural)]
pub enum TempFile {
    /// A part file of the download.
    Part,
    /// A completion marker of the download.
    Marker,
    /// Not a file of the download.
    Other,
}

/// The text that the names of a download's temporary files begin with, for
/// an output file whose stem is `stem`.
pub open spec fn temp_prefix(stem: Seq<char>) -> Seq<char> {
    stem + ".part"@
}

/// What the file name `name` is to the download whose output has the stem
/// `stem`: a marker if it begins with `<stem>.part` and ends in `.done`, a
/// part file if it only begins so, else neither.
pub open spec fn temp_file_kind(name: Seq<char>, stem: Seq<char>) -> TempFile {
    if !has_prefix(name, temp_prefix(stem)) {
        TempFile::Other
    } else if has_suffix(name, ".done"@) {
        TempFile::Marker
    } else {
        TempFile::Part
    }
}

/// Tells what the file name `name` is to the download whose output has the
/// stem `stem`.
pub fn classify_temp_file(name: &str, stem: &str) -> (kind: TempFile)
    ensures
        kind == temp_file_kind(name@, stem@),
{
    let mut prefix = String::from_str(stem);
    prefix.append(".part");
    if !starts_with(name, prefix.as_str()) {
        TempFile::Other
    } else if ends_with(name, ".done") {
        TempFile::Marker
    } else {
        TempFile::Part
    }
}

/// The stem under which the temporary files of a download to `output` are
/// looked for: that of the output's file name, or `file` if it has none.
pub open spec fn cleanup_stem_of(output: Seq<char>) -> Seq<char> {
    match path_file_stem(output) {
        Some(stem) => stem,
        None => "file"@,
    }
}

/// The directory in which the temporary files of a download to `output` are
/// looked for: the output's parent, or `.` if it has none.
pub open spec fn cleanup_dir_of(output: Seq<char>) -> Seq<char> {
    match path_parent(output) {
        Some(dir) => dir,
        None => "."@,
    }
}

/// The stem under which the temporary files of a download to `output` are
/// looked for.
pub fn cleanup_stem(output: &str) -> (stem: String)
    ensures
        stem@ == cleanup_stem_of(output@),
{
    match file_stem(output) {
        Some(stem) => stem,
        None => String::from_str("file"),
    }
}

/// The directory in which the temporary files of a download to `output` are
/// looked for.
pub fn cleanup_dir(output: &str) -> (dir: String)
    ensures
        dir@ == cleanup_dir_of(output@),
{
    match parent(output) {
        Some(dir) => dir,
        None => String::from_str("."),
    }
}

/// The positions of the first `n` names that are temporary files of the
/// download with the stem `stem`, in ascending order.
pub open spec fn temp_positions(names: Seq<Seq<char>>, stem: Seq<char>, n: nat) -> Seq<usize>
    decreases n,
{
    if n == 0 {
        Seq::empty()
    } else if temp_file_kind(names[n - 1], stem) == TempFile::Other {
        temp_positions(names, stem, (n - 1) as nat)
    } else {
        temp_positions(names, stem, (n - 1) as nat).push((n - 1) as usize)
    }
}

/// Picks, among the file names `names` of the output directory, those to
/// remove when the temporary files of a download are cleaned up: part files
/// and markers alike. The result holds their positions in `names`, ascending.
pub fn temp_files_to_remove(names: &Vec<String>, stem: &str) -> (picked: Vec<usize>)
    ensures
        picked@ == temp_positions(texts_of(names@), stem@, names@.len()),
        forall|k: int| 0 <= k < picked@.len() ==> (#[trigger] picked@[k]) < names@.len(),
{
    let mut picked: Vec<usize> = Vec::new();
    let mut i: usize = 0;
    while i < names.len()
        invariant
            i <= names.len(),
            picked@ == temp_positions(texts_of(names@), stem@, i as nat),
            forall|k: int| 0 <= k < picked@.len() ==> (#[trigger] picked@[k]) < i,
        decreases names.len() - i,
    {
        let kind = classify_temp_file(names[i].as_str(), stem);
        assert(texts_of(names@)[i as int] == names@[i as int]@);
        match kind {
            TempFile::Other => {},
            _ => {
                picked.push(i);
            },
        }
        i += 1;
    }
    picked
}

/// What cleaning up picks: exactly the names that begin with the prefix of
/// the download's temporary files, each once.
pub proof fn lemma_temp_positions(names: Seq<Seq<char>>, stem: Seq<char>, n: nat)
    requires
        n <= names.len(),
        n <= usize::MAX,
    ensures
        forall|k: int|
            0 <= k < temp_positions(names, stem, n).len() ==> (#[trigger] temp_positions(
                names,
                stem,
                n,
            )[k]) < n && has_prefix(
                names[temp_positions(names, stem, n)[k] as int],
                temp_prefix(stem),
            ),
        forall|i: int|
            0 <= i < n && has_prefix(#[trigger] names[i], temp_prefix(stem)) ==> temp_positions(
                names,
                stem,
                n,
            ).contains(i as usize),
        forall|a: int, b: int|
            0 <= a < b < temp_positions(names, stem, n).len() ==> (#[trigger] temp_positions(
                names,
                stem,
                n,
            )[a]) < (#[trigger] temp_positions(names, stem, n)[b]),
    decreases n,
{
    if n > 0 {
        lemma_temp_positions(names, stem, (n - 1) as nat);
        let before = temp_positions(names, stem, (n - 1) as nat);
        let now = temp_positions(names, stem, n);
        assert forall|i: int|
            0 <= i < n && has_prefix(#[trigger] names[i], temp_prefix(stem)) implies now.contains(
            i as usize,
        ) by {
            if i < n - 1 {
                assert(before.contains(i as usize));
                let at = choose|at: int| 0 <= at < before.len() && before[at] == i as usize;
                assert(now[at] == i as usize);
            } else {
                assert(now[now.len() - 1] == i as usize);
            }
        }
    }
}

} // verus!
