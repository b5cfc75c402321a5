//! The identity resolver: choosing, among the target-catalog entries that
//! share a recording code, the one whose metadata best matches the source
//! track's metadata.

use vstd::prelude::*;
use crate::amp::{
    AppleMusicCatalogSong, AppleMusicCatalogSongWithMeta, IsrcWithMeta, Metadata, meta_distance,
};

verus! {

/// One row of a target-catalog lookup response: a catalog entry listed under
/// a recording code.  A response may hold zero, one or many rows per code.
#[derive(Debug, Clone)]
pub struct CatalogEntry {
    pub isrc: String,
    pub entry: AppleMusicCatalogSongWithMeta,
}

/// The index of the best candidate in `cands` for a track with metadata `m`,
/// considering only the first `cands.len()` candidates: the first index with
/// minimal distance, or `-1` when there is no candidate at all.
pub open spec fn best_index(m: Metadata, cands: Seq<AppleMusicCatalogSongWithMeta>) -> int
    decreases cands.len(),
{
    if cands.len() == 0 {
        -1
    } else {
        let prev = best_index(m, cands.drop_last());
        let last = cands.len() - 1;
        if prev == -1 {
            last
        } else if meta_distance(m, cands.last().meta) < meta_distance(m, cands[prev].meta) {
            last
        } else {
            prev
        }
    }
}

/// Best-candidate selection: among a non-empty candidate list the resolver's
/// choice has minimal distance, and on an exact tie the first-listed
/// candidate wins.
pub proof fn lemma_best_index_minimal(m: Metadata, cands: Seq<AppleMusicCatalogSongWithMeta>)
    ensures
        cands.len() == 0 ==> best_index(m, cands) == -1,
        cands.len() > 0 ==> {
            let b = best_index(m, cands);
            &&& 0 <= b < cands.len()
            &&& forall|j: int|
                0 <= j < cands.len() ==> meta_distance(m, cands[j].meta) >= meta_distance(
                    m,
                    cands[b].meta,
                )
            &&& forall|j: int|
                0 <= j < b ==> meta_distance(m, cands[j].meta) > meta_distance(m, cands[b].meta)
        },
    decreases cands.len(),
{
    if cands.len() > 0 {
        lemma_best_index_minimal(m, cands.drop_last());
        assert forall|j: int| 0 <= j < cands.len() - 1 implies cands.drop_last()[j] == cands[j] by {}
    }
}

/// The resolver's choice for one track among the candidates sharing its
/// code: the first candidate with minimal distance, or `None` when the list
/// is empty.
pub fn best_candidate(m: &Metadata, cands: &Vec<AppleMusicCatalogSongWithMeta>) -> (r: Option<
    usize,
>)
    ensures
        r is Some <==> cands@.len() > 0,
        r matches Some(i) ==> i == best_index(*m, cands@),
{
    let mut i: usize = 0;
    let mut best: Option<usize> = None;
    let mut best_dist: u64 = 0;
    while i < cands.len()
        invariant
            i <= cands@.len(),
            best is None <==> best_index(*m, cands@.subrange(0, i as int)) == -1,
            best is None ==> i == 0,
            best matches Some(b) ==> b == best_index(*m, cands@.subrange(0, i as int))
                && best_dist == meta_distance(*m, cands@[b as int].meta) && b < i,
        decreases cands@.len() - i,
    {
        let d = m.distance(&cands[i].meta);
        proof {
            assert(cands@.subrange(0, i + 1).drop_last() =~= cands@.subrange(0, i as int));
            assert(cands@.subrange(0, i + 1).last() == cands@[i as int]);
        }
        match best {
            None => {
                best = Some(i);
                best_dist = d;
            },
            Some(b) => {
                if d < best_dist {
                    best = Some(i);
                    best_dist = d;
                }
            },
        }
        i = i + 1;
    }
    proof {
        assert(cands@.subrange(0, cands@.len() as int) =~= cands@);
    }
    best
}

/// The index in `rows` of the entry the resolver picks for a track with code
/// `code` and metadata `m`: the first row carrying that code whose distance
/// is minimal among all rows carrying it, or `-1` when no row carries it.
pub open spec fn best_row(rows: Seq<CatalogEntry>, code: Seq<char>, m: Metadata) -> int
    decreases rows.len(),
{
    if rows.len() == 0 {
        -1
    } else {
        let prev = best_row(rows.drop_last(), code, m);
        let last = rows.len() - 1;
        if rows.last().isrc@ != code {
            prev
        } else if prev == -1 {
            last
        } else if meta_distance(m, rows.last().entry.meta) < meta_distance(
            m,
            rows[prev].entry.meta,
        ) {
            last
        } else {
            prev
        }
    }
}

/// The choice `best_row` makes is sound: it is `-1` exactly when no row
/// carries the code, and otherwise it names the first row with minimal
/// distance among the rows that carry the code.
pub proof fn lemma_best_row_minimal(rows: Seq<CatalogEntry>, code: Seq<char>, m: Metadata)
    ensures
        best_row(rows, code, m) == -1 <==> (forall|j: int|
            0 <= j < rows.len() ==> rows[j].isrc@ != code),
        best_row(rows, code, m) != -1 ==> {
            let b = best_row(rows, code, m);
            &&& 0 <= b < rows.len()
            &&& rows[b].isrc@ == code
            &&& forall|j: int|
                0 <= j < rows.len() && rows[j].isrc@ == code ==> meta_distance(
                    m,
                    rows[j].entry.meta,
                ) >= meta_distance(m, rows[b].entry.meta)
            &&& forall|j: int|
                0 <= j < b && rows[j].isrc@ == code ==> meta_distance(m, rows[j].entry.meta)
                    > meta_distance(m, rows[b].entry.meta)
        },
    decreases rows.len(),
{
    if rows.len() > 0 {
        lemma_best_row_minimal(rows.drop_last(), code, m);
        assert forall|j: int| 0 <= j < rows.len() - 1 implies rows.drop_last()[j] == rows[j] by {}
    }
}

/// The entries the resolver returns for `inputs` against the lookup rows
/// `rows`: one entry per input whose code resolves, in input order, with
/// unresolved inputs left out.
pub open spec fn resolve_spec(rows: Seq<CatalogEntry>, inputs: Seq<IsrcWithMeta>) -> Seq<
    AppleMusicCatalogSong,
>
    decreases inputs.len(),
{
    if inputs.len() == 0 {
        Seq::empty()
    } else {
        let rest = resolve_spec(rows, inputs.drop_last());
        let b = best_row(rows, inputs.last().isrc@, inputs.last().meta);
        if b == -1 {
            rest
        } else {
            rest.push(rows[b].entry.song)
        }
    }
}

/// The resolver's choice for one code within the full row list.
fn best_for_code(rows: &Vec<CatalogEntry>, code: &String, m: &Metadata) -> (r: Option<usize>)
    ensures
        r is None <==> best_row(rows@, code@, *m) == -1,
        r matches Some(k) ==> k == best_row(rows@, code@, *m),
{
    let mut j: usize = 0;
    let mut best: Option<usize> = None;
    let mut best_dist: u64 = 0;
    while j < rows.len()
        invariant
            j <= rows@.len(),
            best is None <==> best_row(rows@.subrange(0, j as int), code@, *m) == -1,
            best matches Some(b) ==> b == best_row(rows@.subrange(0, j as int), code@, *m)
                && best_dist == meta_distance(*m, rows@[b as int].entry.meta) && b < j,
        decreases rows@.len() - j,
    {
        proof {
            assert(rows@.subrange(0, j + 1).drop_last() =~= rows@.subrange(0, j as int));
            assert(rows@.subrange(0, j + 1).last() == rows@[j as int]);
        }
        if rows[j].isrc == *code {
            let d = m.distance(&rows[j].entry.meta);
            match best {
                None => {
                    best = Some(j);
                    best_dist = d;
                },
                Some(b) => {
                    if d < best_dist {
                        best = Some(j);
                        best_dist = d;
                    }
                },
            }
        }
        j = j + 1;
    }
    proof {
        assert(rows@.subrange(0, rows@.len() as int) =~= rows@);
    }
    best
}

/// Resolve every input track against the lookup rows: tracks whose code
/// matches no row are reported as unresolved by leaving them out, and never
/// stop the rest of the batch from resolving.
pub fn resolve_songs(rows: &Vec<CatalogEntry>, inputs: &Vec<IsrcWithMeta>) -> (out: Vec<
    AppleMusicCatalogSong,
>)
    ensures
        out@ == resolve_spec(rows@, inputs@),
{
    let mut out: Vec<AppleMusicCatalogSong> = Vec::new();
    let mut i: usize = 0;
    while i < inputs.len()
        invariant
            i <= inputs@.len(),
            out@ == resolve_spec(rows@, inputs@.subrange(0, i as int)),
        decreases inputs@.len() - i,
    {
        proof {
            assert(inputs@.subrange(0, i + 1).drop_last() =~= inputs@.subrange(0, i as int));
            assert(inputs@.subrange(0, i + 1).last() == inputs@[i as int]);
        }
        match best_for_code(rows, &inputs[i].isrc, &inputs[i].meta) {
            Some(k) => {
                proof {
                    lemma_best_row_minimal(rows@, inputs@[i as int].isrc@, inputs@[i as int].meta);
                }
                out.push(rows[k].entry.song);
            },
            None => {},
        }
        i = i + 1;
    }
    proof {
        assert(inputs@.subrange(0, inputs@.len() as int) =~= inputs@);
    }
    out
}

/// Unresolvable-code tolerance: an input whose code appears in no lookup row
/// contributes nothing to the result, and the other inputs resolve exactly
/// as they would without it.
pub proof fn lemma_unresolved_code_skipped(
    rows: Seq<CatalogEntry>,
    inputs: Seq<IsrcWithMeta>,
    i: int,
)
    requires
        0 <= i < inputs.len(),
        forall|j: int| 0 <= j < rows.len() ==> rows[j].isrc@ != inputs[i].isrc@,
    ensures
        resolve_spec(rows, inputs) == resolve_spec(rows, inputs.remove(i)),
    decreases inputs.len(),
{
    lemma_best_row_minimal(rows, inputs[i].isrc@, inputs[i].meta);
    if i == inputs.len() - 1 {
        assert(inputs.remove(i) =~= inputs.drop_last());
    } else {
        lemma_unresolved_code_skipped(rows, inputs.drop_last(), i);
        assert(inputs.remove(i).drop_last() =~= inputs.drop_last().remove(i));
        assert(inputs.remove(i).last() == inputs.last());
    }
}

} // verus!
