//! Gate markers: which content-addressed entries an action result unlocks.
//!
//! A content-addressed entry may be served once an action result has named
//! its hash.  The proxy records that as an empty file `enable_cas__{hash}` in
//! the cache folder.

use vstd::prelude::*;
use vstd::string::*;
use crate::text::{concat2, starts_with, views};

verus! {

/// A content hash, as an action result carries it.
#[derive(Debug, Clone)]
pub struct Digest {
    pub hash: String,
}

/// One output file of an action.
#[derive(Debug, Clone)]
pub struct OutputFile {
    pub digest: Option<Digest>,
}

/// The fields of a decoded action result that gating reads.
#[derive(Debug, Clone)]
pub struct ActionResult {
    pub output_files: Vec<OutputFile>,
    pub stdout_digest: Option<Digest>,
    pub stderr_digest: Option<Digest>,
}

/// Whether `key` names an action-cache entry.
pub open spec fn is_ac_key(key: Seq<char>) -> bool {
    "ac__"@.is_prefix_of(key)
}

/// Whether `key` names a content-addressed entry.
pub open spec fn is_cas_key(key: Seq<char>) -> bool {
    "cas__"@.is_prefix_of(key)
}

/// The cache key of the content-addressed entry with hash `hash`.
pub open spec fn cas_key(hash: Seq<char>) -> Seq<char> {
    "cas__"@ + hash
}

/// The name of the marker that unlocks the entry `key`.
pub open spec fn gate_name(key: Seq<char>) -> Seq<char> {
    "enable_"@ + key
}

/// The name of the marker for the hash `hash`.
pub open spec fn marker_name(hash: Seq<char>) -> Seq<char> {
    "enable_cas__"@ + hash
}

/// The hashes of the output files that carry a digest, in order.
pub open spec fn output_hashes(files: Seq<OutputFile>) -> Seq<Seq<char>>
    decreases files.len(),
{
    if files.len() == 0 {
        Seq::<Seq<char>>::empty()
    } else {
        let before = output_hashes(files.drop_last());
        match files.last().digest {
            Some(d) => before.push(d.hash@),
            None => before,
        }
    }
}

/// The hash of an optional digest, as a list of at most one.
pub open spec fn optional_hash(d: Option<Digest>) -> Seq<Seq<char>> {
    match d {
        Some(d) => seq![d.hash@],
        None => Seq::<Seq<char>>::empty(),
    }
}

/// Every hash that `a` names: those of its output files, then that of its
/// standard output, then that of its standard error.
pub open spec fn referenced_hashes(a: ActionResult) -> Seq<Seq<char>> {
    output_hashes(a.output_files@) + optional_hash(a.stdout_digest) + optional_hash(
        a.stderr_digest,
    )
}

/// The marker names for a list of hashes.
pub open spec fn marker_names(hashes: Seq<Seq<char>>) -> Seq<Seq<char>> {
    Seq::new(hashes.len(), |i: int| marker_name(hashes[i]))
}

/// The markers that processing the entry `key` with decoded content `a`
/// creates: none unless the entry is an action-cache entry.
pub open spec fn markers_for(key: Seq<char>, a: ActionResult) -> Seq<Seq<char>> {
    if is_ac_key(key) {
        marker_names(referenced_hashes(a))
    } else {
        Seq::<Seq<char>>::empty()
    }
}

/// The file names of a cache folder after the markers `markers` were created
/// in it.  Creating a marker that exists changes nothing.
pub open spec fn with_markers(dir: Set<Seq<char>>, markers: Seq<Seq<char>>) -> Set<Seq<char>> {
    dir.union(markers.to_set())
}

/// Whether a GET for the entry `key` is admitted in a cache folder that holds
/// the files `dir`: every entry that is not content-addressed is, and a
/// content-addressed one is when it lies in the folder or its marker does.
pub open spec fn admitted(dir: Set<Seq<char>>, key: Seq<char>) -> bool {
    !is_cas_key(key) || dir.contains(key) || dir.contains(gate_name(key))
}

/// Whether `file_name` names an action-cache entry, whose content is to be
/// decoded and processed.
pub fn is_action_cache_entry(file_name: &str) -> (r: bool)
    ensures
        r == is_ac_key(file_name@),
{
    starts_with(file_name, "ac__")
}

/// Whether `file_name` names a content-addressed entry.
pub fn is_cas_entry(file_name: &str) -> (r: bool)
    ensures
        r == is_cas_key(file_name@),
{
    starts_with(file_name, "cas__")
}

/// The name of the marker file that unlocks the entry `file_name`.
pub fn gate_file_name(file_name: &str) -> (r: String)
    ensures
        r@ == gate_name(file_name@),
{
    concat2("enable_", file_name)
}

/// The name of the marker file for `hash`.
pub fn marker_file_name(hash: &str) -> (r: String)
    ensures
        r@ == marker_name(hash@),
{
    concat2("enable_cas__", hash)
}

fn push_marker(out: &mut Vec<String>, d: &Option<Digest>, Ghost(hashes): Ghost<Seq<Seq<char>>>)
    requires
        views(old(out)@) == marker_names(hashes),
    ensures
        views(final(out)@) == marker_names(hashes + optional_hash(*d)),
{
    match d {
        Some(d) => {
            let ghost before = out@;
            let name = marker_file_name(d.hash.as_str());
            out.push(name);
            proof {
                let after = hashes + optional_hash(Some(*d));
                assert(after =~= hashes.push(d.hash@));
                assert(views(before).len() == before.len());
                assert(marker_names(hashes).len() == hashes.len());
                assert forall|i: int| 0 <= i < after.len() implies views(out@)[i]
                    == marker_names(after)[i] by {
                    if i < hashes.len() {
                        assert(views(before)[i] == before[i]@);
                        assert(marker_names(hashes)[i] == marker_name(hashes[i]));
                    }
                }
                assert(views(out@) =~= marker_names(after));
            }
        },
        None => {
            assert(hashes + optional_hash(None) =~= hashes);
        },
    }
}

/// The names of the marker files that processing the entry `downloaded_file`
/// with decoded content `result` creates, in the order of creation.
pub fn process_action_cache_response(downloaded_file: &str, result: &ActionResult) -> (r: Vec<
    String,
>)
    ensures
        views(r@) == markers_for(downloaded_file@, *result),
{
    let mut out: Vec<String> = Vec::new();
    if !is_action_cache_entry(downloaded_file) {
        assert(views(out@) =~= Seq::<Seq<char>>::empty());
        return out;
    }
    let n: usize = result.output_files.len();
    let mut i: usize = 0;
    assert(views(out@) =~= marker_names(
        output_hashes(result.output_files@.subrange(0, 0)),
    ));
    while i < n
        invariant
            i <= n,
            n == result.output_files@.len(),
            views(out@) == marker_names(
                output_hashes(result.output_files@.subrange(0, i as int)),
            ),
        decreases n - i,
    {
        proof {
            assert(result.output_files@.subrange(0, i as int + 1).drop_last()
                =~= result.output_files@.subrange(0, i as int));
            assert(output_hashes(result.output_files@.subrange(0, i as int + 1))
                =~= output_hashes(result.output_files@.subrange(0, i as int)) + optional_hash(
                result.output_files@[i as int].digest,
            ));
        }
        push_marker(
            &mut out,
            &result.output_files[i].digest,
            Ghost(output_hashes(result.output_files@.subrange(0, i as int))),
        );
        i = i + 1;
    }
    proof {
        assert(result.output_files@.subrange(0, n as int) =~= result.output_files@);
    }
    push_marker(&mut out, &result.stdout_digest, Ghost(output_hashes(result.output_files@)));
    push_marker(
        &mut out,
        &result.stderr_digest,
        Ghost(output_hashes(result.output_files@) + optional_hash(result.stdout_digest)),
    );
    out
}

/// The names among `names` that are keys of action-cache entries, in order.
pub open spec fn ac_entries(names: Seq<Seq<char>>) -> Seq<Seq<char>>
    decreases names.len(),
{
    if names.len() == 0 {
        Seq::<Seq<char>>::empty()
    } else if is_ac_key(names.last()) {
        ac_entries(names.drop_last()).push(names.last())
    } else {
        ac_entries(names.drop_last())
    }
}

/// The files to process when the proxy starts: of the files `file_names`
/// that the cache folder holds, the action-cache entries, in order.
pub fn process_existing_action_caches(file_names: &Vec<String>) -> (r: Vec<String>)
    ensures
        views(r@) == ac_entries(views(file_names@)),
{
    let mut out: Vec<String> = Vec::new();
    let n: usize = file_names.len();
    let mut i: usize = 0;
    let ghost all = views(file_names@);
    assert(views(out@) =~= ac_entries(all.subrange(0, 0)));
    while i < n
        invariant
            i <= n,
            n == file_names@.len(),
            all == views(file_names@),
            views(out@) == ac_entries(all.subrange(0, i as int)),
        decreases n - i,
    {
        proof {
            assert(all.subrange(0, i as int + 1).drop_last() =~= all.subrange(0, i as int));
            assert(all.subrange(0, i as int + 1).last() == file_names@[i as int]@);
        }
        if is_action_cache_entry(file_names[i].as_str()) {
            let ghost before = views(out@);
            out.push(file_names[i].clone());
            assert(views(out@) =~= before.push(file_names@[i as int]@));
        }
        i = i + 1;
    }
    assert(all.subrange(0, n as int) =~= all);
    out
}

/// Whether a GET for `file_name` is admitted, where `already_present` is the
/// size of the entry's file in the cache folder and `gate_file` that of its
/// marker, each `None` when the file is missing.
pub fn is_admitted(file_name: &str, already_present: Option<u64>, gate_file: Option<u64>) -> (r:
    bool)
    ensures
        r == (!is_cas_key(file_name@) || already_present.is_some() || gate_file.is_some()),
{
    if is_cas_entry(file_name) {
        already_present.is_some() || gate_file.is_some()
    } else {
        true
    }
}

/// The marker for a hash is the marker that unlocks the content-addressed
/// entry with that hash.
pub proof fn lemma_marker_unlocks_cas_key(hash: Seq<char>)
    ensures
        marker_name(hash) == gate_name(cas_key(hash)),
        is_cas_key(cas_key(hash)),
{
    reveal_strlit("enable_cas__");
    reveal_strlit("enable_");
    reveal_strlit("cas__");
    assert("enable_cas__"@ =~= "enable_"@ + "cas__"@);
    assert(marker_name(hash) =~= gate_name(cas_key(hash)));
    assert("cas__"@ =~= cas_key(hash).subrange(0, 5));
}

/// Once an action-cache entry whose content names the hash at position `i`
/// has been processed, a GET for the content-addressed entry with that hash
/// is admitted, whatever the cache folder held before.
pub proof fn lemma_processed_hash_is_admitted(
    dir: Set<Seq<char>>,
    key: Seq<char>,
    a: ActionResult,
    i: int,
)
    requires
        is_ac_key(key),
        0 <= i < referenced_hashes(a).len(),
    ensures
        with_markers(dir, markers_for(key, a)).contains(marker_name(referenced_hashes(a)[i])),
        admitted(with_markers(dir, markers_for(key, a)), cas_key(referenced_hashes(a)[i])),
{
    let hashes = referenced_hashes(a);
    let markers = markers_for(key, a);
    lemma_marker_unlocks_cas_key(hashes[i]);
    assert(markers[i] == marker_name(hashes[i]));
    assert(markers.to_set().contains(markers[i]));
}

/// Processing the same content again neither fails nor changes the folder.
pub proof fn lemma_processing_is_idempotent(dir: Set<Seq<char>>, key: Seq<char>, a: ActionResult)
    ensures
        with_markers(with_markers(dir, markers_for(key, a)), markers_for(key, a)) == with_markers(
            dir,
            markers_for(key, a),
        ),
{
    assert(with_markers(with_markers(dir, markers_for(key, a)), markers_for(key, a))
        =~= with_markers(dir, markers_for(key, a)));
}

} // verus!
