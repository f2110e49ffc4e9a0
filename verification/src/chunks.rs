//! Ordered reading of semantic chunks: chunks with a reference time come
//! first, most recently referenced first, then the rest, newest row first.

use vstd::prelude::*;
use vstd::relations::sorted_by;
use crate::store::{MemoryStore, SemanticChunk, SemanticChunkV, clone_chunk, spec_id_of};

verus! {

broadcast use vstd::seq_lib::group_to_multiset_ensures;

/// The rank value of an optional reference time; never-referenced sorts last.
pub open spec fn spec_ref_rank(t: Option<u64>) -> int {
    match t {
        Some(v) => v as int + 1,
        None => 0,
    }
}

/// Whether chunk `a` ranks at or before chunk `b`: reference time descending
/// with never-referenced chunks last, then row id descending.
pub open spec fn spec_chunk_le(a: SemanticChunkV, b: SemanticChunkV) -> bool {
    if spec_ref_rank(a.last_ref_ts) != spec_ref_rank(b.last_ref_ts) {
        spec_ref_rank(a.last_ref_ts) > spec_ref_rank(b.last_ref_ts)
    } else {
        spec_id_of(a.id) >= spec_id_of(b.id)
    }
}

/// The chunk ranking as an ordering function.
pub open spec fn chunk_order() -> spec_fn(SemanticChunkV, SemanticChunkV) -> bool {
    |a: SemanticChunkV, b: SemanticChunkV| spec_chunk_le(a, b)
}

/// Whether `a` ranks at or before `b`, per [`spec_chunk_le`].
pub fn chunk_le(a: &SemanticChunk, b: &SemanticChunk) -> (r: bool)
    ensures
        r == spec_chunk_le(a@, b@),
{
    let ra: u128 = match a.last_ref_ts {
        Some(v) => (v as u128) + 1,
        None => 0,
    };
    let rb: u128 = match b.last_ref_ts {
        Some(v) => (v as u128) + 1,
        None => 0,
    };
    if ra != rb {
        ra > rb
    } else {
        let ia: i64 = match a.id {
            Some(v) => v,
            None => 0,
        };
        let ib: i64 = match b.id {
            Some(v) => v,
            None => 0,
        };
        ia >= ib
    }
}

/// Places `x` into the rank-sorted vector `v`.
fn insert_chunk_sorted(v: &mut Vec<SemanticChunk>, x: SemanticChunk)
    requires
        sorted_by(old(v).deep_view(), chunk_order()),
    ensures
        sorted_by(final(v).deep_view(), chunk_order()),
        final(v).deep_view().to_multiset() == old(v).deep_view().to_multiset().insert(x@),
        final(v)@.len() == old(v)@.len() + 1,
{
    let mut pos: usize = 0;
    while pos < v.len() && chunk_le(&v[pos], &x)
        invariant
            pos <= v@.len(),
            *v == *old(v),
            forall|k: int| 0 <= k < pos ==> spec_chunk_le(#[trigger] v.deep_view()[k], x@),
        decreases v@.len() - pos,
    {
        proof {
            assert(v.deep_view()[pos as int] == v@[pos as int]@);
        }
        pos += 1;
    }
    let ghost pre = v.deep_view();
    let ghost pre_vals = v@;
    proof {
        if pos < pre.len() {
            assert(v.deep_view()[pos as int] == v@[pos as int]@);
            assert(!spec_chunk_le(pre[pos as int], x@));
            assert(spec_chunk_le(x@, pre[pos as int]));
        }
    }
    v.insert(pos, x);
    proof {
        pre_vals.insert_ensures(pos as int, x);
        pre.insert_ensures(pos as int, x@);
        assert(v.deep_view() =~= pre.insert(pos as int, x@));
        let dv = v.deep_view();
        assert forall|i: int, j: int| 0 <= i < j < dv.len() implies chunk_order()(dv[i], dv[j]) by {
            if j < pos {
                assert(chunk_order()(pre[i], pre[j]));
            } else if i < pos && j == pos {
                assert(spec_chunk_le(pre[i], x@));
            } else if i < pos && j > pos {
                assert(chunk_order()(pre[i], pre[j - 1]));
            } else if i == pos && j > pos {
                assert(spec_chunk_le(x@, pre[pos as int]));
                if j - 1 > pos {
                    assert(chunk_order()(pre[pos as int], pre[j - 1]));
                }
            } else {
                assert(chunk_order()(pre[i - 1], pre[j - 1]));
            }
        }
        assert(dv.to_multiset() == pre.to_multiset().insert(x@)) by {
            vstd::seq_lib::to_multiset_insert(pre, pos as int, x@);
        }
    }
}

/// Sorts chunks by rank; the result is a permutation of the input.
fn sort_chunks(v: Vec<SemanticChunk>) -> (r: Vec<SemanticChunk>)
    ensures
        sorted_by(r.deep_view(), chunk_order()),
        r.deep_view().to_multiset() == v.deep_view().to_multiset(),
{
    let ghost input = v.deep_view();
    let rest = v;
    let mut out: Vec<SemanticChunk> = Vec::new();
    proof {
        assert(input.subrange(0, 0) =~= Seq::<SemanticChunkV>::empty());
        assert(Seq::<SemanticChunkV>::empty().to_multiset() =~= out.deep_view().to_multiset());
    }
    let n = rest.len();
    let mut i: usize = 0;
    while i < n
        invariant
            n == rest@.len(),
            rest.deep_view() == input,
            i <= n,
            sorted_by(out.deep_view(), chunk_order()),
            out.deep_view().to_multiset() == input.subrange(0, i as int).to_multiset(),
        decreases n - i,
    {
        let ghost pre = input.subrange(0, i as int);
        let x = clone_chunk(&rest[i]);
        proof {
            assert(rest.deep_view()[i as int] == rest@[i as int]@);
        }
        insert_chunk_sorted(&mut out, x);
        proof {
            let post = input.subrange(0, i + 1);
            assert(post.drop_last() =~= pre);
            assert(post =~= pre.push(input[i as int]));
        }
        i += 1;
    }
    proof {
        assert(input.subrange(0, n as int) =~= input);
    }
    out
}

impl MemoryStore {
    /// The chunks in recency order — referenced ones first, most recent
    /// first — at most `limit` of them; a negative or missing limit returns
    /// all.
    pub fn list_semantic_chunks(&self, limit: Option<i32>) -> (r: Vec<SemanticChunk>)
        requires
            self.wf(),
        ensures
            sorted_by(r.deep_view(), chunk_order()),
            r@.len() == (match limit {
                Some(k) => if k >= 0 && (k as int) <= self.chunks@.len() {
                    k as int
                } else {
                    self.chunks@.len() as int
                },
                None => self.chunks@.len() as int,
            }),
            exists|full: Seq<SemanticChunkV>|
                sorted_by(full, chunk_order()) && #[trigger] full.to_multiset()
                    == self.chunks.deep_view().to_multiset() && r.deep_view() == full.take(
                    r@.len() as int,
                ),
    {
        let mut copy: Vec<SemanticChunk> = Vec::new();
        let n = self.chunks.len();
        let mut i: usize = 0;
        while i < n
            invariant
                n == self.chunks@.len(),
                i <= n,
                copy.deep_view() =~= self.chunks.deep_view().subrange(0, i as int),
            decreases n - i,
        {
            let x = clone_chunk(&self.chunks[i]);
            proof {
                assert(self.chunks.deep_view()[i as int] == self.chunks@[i as int]@);
            }
            let ghost dpre = copy.deep_view();
            copy.push(x);
            proof {
                assert(copy.deep_view() =~= dpre.push(x@));
                assert(dpre.push(x@) =~= self.chunks.deep_view().subrange(0, i + 1));
            }
            i += 1;
        }
        proof {
            assert(self.chunks.deep_view().subrange(0, n as int) =~= self.chunks.deep_view());
            assert(copy.deep_view() =~= self.chunks.deep_view());
        }
        let mut sorted = sort_chunks(copy);
        let ghost full = sorted.deep_view();
        proof {
            vstd::seq_lib::to_multiset_len(full);
            vstd::seq_lib::to_multiset_len(self.chunks.deep_view());
        }
        match limit {
            Some(k) => {
                if k >= 0 && (k as usize) < sorted.len() {
                    sorted.truncate(k as usize);
                }
            },
            None => {},
        }
        proof {
            assert(sorted.deep_view() == full.take(sorted@.len() as int)) by {
                assert(sorted.deep_view() =~= full.take(sorted@.len() as int));
            }
            assert forall|a: int, b: int|
                0 <= a < b < sorted.deep_view().len() implies chunk_order()(
                sorted.deep_view()[a],
                sorted.deep_view()[b],
            ) by {
                assert(chunk_order()(full[a], full[b]));
                assert(sorted.deep_view()[a] == full[a]);
                assert(sorted.deep_view()[b] == full[b]);
            }
        }
        sorted
    }
}

} // verus!
