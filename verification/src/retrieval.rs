//! The hybrid retrieval engine: it scores the active session's events and a
//! recency-bounded pool of semantic chunks against a free-text query, ranks
//! them, and assembles a character-budgeted context block, persona facts
//! first.
//!
//! Scores are integers in thousandths. An event or chunk is scored by an
//! embedding similarity when the caller supplies one, and by token overlap
//! with the query otherwise, so retrieval needs no embedding provider.
//! Chunk scores decay exponentially with the time since last reference.

use vstd::prelude::*;
use vstd::relations::sorted_by;
use crate::store::{
    MemoryEvent, MemoryEventV, MemoryStore, PersonaTrait, SemanticChunk, SemanticChunkV,
    spec_active_session_id,
};
use crate::strutil;
use crate::persona::{spec_fact_filter, trait_order};
use crate::chunks::chunk_order;

verus! {

broadcast use vstd::seq_lib::group_to_multiset_ensures;

/// One step of the decay sequence: thousandths multiplied by e^-1.
pub open spec fn spec_exp_unit_step(r: int) -> int {
    r * 368 / 1000
}

/// e^-n in thousandths, by repeated multiplication with 368/1000.
pub open spec fn spec_exp_units(n: nat) -> int
    decreases n,
{
    if n == 0 {
        1000
    } else {
        spec_exp_unit_step(spec_exp_units((n - 1) as nat))
    }
}

/// The decay sequence stays within [0, 1000].
pub proof fn lemma_exp_units_bounds(n: nat)
    ensures
        0 <= spec_exp_units(n) <= 1000,
    decreases n,
{
    if n > 0 {
        lemma_exp_units_bounds((n - 1) as nat);
    }
}

/// Once the decay sequence reaches zero it stays there.
proof fn lemma_exp_units_zero(k: nat, n: nat)
    requires
        spec_exp_units(k) == 0,
        k <= n,
    ensures
        spec_exp_units(n) == 0,
    decreases n - k,
{
    if n > k {
        lemma_exp_units_zero(k, (n - 1) as nat);
    }
}

/// The exponential decay factor in thousandths for a chunk last referenced
/// `delta_min` minutes ago under time-decay constant `tdf` (hours, in
/// thousandths): e^(-hours / tdf), with the fractional exponent approximated
/// by its quadratic expansion.
pub open spec fn spec_decay(delta_min: u64, tdf: u64) -> int {
    let t = if tdf >= 1 {
        tdf as int
    } else {
        1
    };
    let x = delta_min * 1000000 / (60 * t);
    let n = x / 1000;
    let f = x % 1000;
    let frac = 1000 - f + f * f / 2000;
    spec_exp_units(n as nat) * frac / 1000
}

/// The decay factor, per [`spec_decay`].
pub fn decay_milli(delta_min: u64, tdf: u64) -> (r: u64)
    ensures
        r == spec_decay(delta_min, tdf),
        0 <= r <= 1000,
{
    let t: u64 = if tdf >= 1 {
        tdf
    } else {
        1
    };
    proof {
        vstd::arithmetic::mul::lemma_mul_upper_bound(
            delta_min as int,
            u64::MAX as int,
            1000000,
            1000000,
        );
        assert((u64::MAX as int) * 1000000 < u128::MAX as int) by (nonlinear_arith);
    }
    let x: u128 = ((delta_min as u128) * 1000000) / (60u128 * (t as u128));
    let n: u128 = x / 1000;
    let f: u64 = (x % 1000) as u64;
    proof {
        assert(f < 1000);
        assert(f * f <= 998001) by (nonlinear_arith)
            requires f <= 999,
        ;
        assert(f * f <= 999 * f) by (nonlinear_arith)
            requires f <= 999,
        ;
        vstd::arithmetic::div_mod::lemma_div_is_ordered((f * f) as int, (999 * f) as int, 2000);
        vstd::arithmetic::div_mod::lemma_div_is_ordered((999 * f) as int, (1000 * f) as int, 2000);
        assert(1000 * f / 2000 == f / 2) by (nonlinear_arith);
    }
    let frac: u64 = 1000 - f + f * f / 2000;
    assert(frac <= 1000);
    let mut units: u64 = 1000;
    let mut k: u128 = 0;
    while k < n && units > 0
        invariant
            k <= n,
            units == spec_exp_units(k as nat),
            0 <= units <= 1000,
        decreases n - k,
    {
        units = units * 368 / 1000;
        k += 1;
        proof {
            lemma_exp_units_bounds(k as nat);
        }
    }
    proof {
        if units == 0 {
            lemma_exp_units_zero(k as nat, n as nat);
        }
        lemma_exp_units_bounds(n as nat);
        assert(units * frac <= 1000 * 1000) by (nonlinear_arith)
            requires units <= 1000 && frac <= 1000,
        ;
        vstd::arithmetic::div_mod::lemma_div_is_ordered((units * frac) as int, 1000int * 1000, 1000int);
    }
    units * frac / 1000
}

/// How many of the text's tokens occur among the query's tokens, counted with
/// multiplicity on the text side.
pub open spec fn spec_overlap_count(q: Seq<Seq<char>>, t: Seq<Seq<char>>) -> int
    decreases t.len(),
{
    if t.len() == 0 {
        0
    } else {
        spec_overlap_count(q, t.drop_last()) + if q.contains(t.last()) {
            1int
        } else {
            0int
        }
    }
}

/// The overlap count never exceeds the number of text tokens.
pub proof fn lemma_overlap_count_bounds(q: Seq<Seq<char>>, t: Seq<Seq<char>>)
    ensures
        0 <= spec_overlap_count(q, t) <= t.len(),
    decreases t.len(),
{
    if t.len() > 0 {
        lemma_overlap_count_bounds(q, t.drop_last());
    }
}

/// The token-overlap score of `text` against query tokens `q`, in
/// thousandths: matching text tokens over the query's token count, zero when
/// the query has no tokens.
pub open spec fn spec_token_overlap(q: Seq<Seq<char>>, text: Seq<char>) -> int {
    if q.len() == 0 {
        0
    } else {
        spec_overlap_count(q, strutil::spec_tokens(text)) * 1000 / q.len() as int
    }
}

/// The token-overlap score, per [`spec_token_overlap`].
pub fn token_overlap_milli(q_tokens: &Vec<String>, text: &str) -> (r: u128)
    ensures
        r == spec_token_overlap(strutil::views_of(q_tokens@), text@),
        r <= (usize::MAX as u128) * 1000,
{
    let ghost qv = strutil::views_of(q_tokens@);
    let toks = strutil::tokenize(text);
    let ghost tv = strutil::views_of(toks@);
    let mut cnt: usize = 0;
    let mut i: usize = 0;
    proof {
        assert(tv.subrange(0, 0) =~= Seq::<Seq<char>>::empty());
    }
    while i < toks.len()
        invariant
            i <= toks@.len(),
            tv == strutil::views_of(toks@),
            qv == strutil::views_of(q_tokens@),
            cnt == spec_overlap_count(qv, tv.subrange(0, i as int)),
            cnt <= i,
        decreases toks@.len() - i,
    {
        let ghost pre = tv.subrange(0, i as int);
        let hit = strutil::has_str(q_tokens, toks[i].as_str());
        proof {
            assert(strutil::spec_has_str(q_tokens@, toks@[i as int]@) == qv.contains(
                tv[i as int],
            )) by {
                if strutil::spec_has_str(q_tokens@, toks@[i as int]@) {
                    let w = choose|w: int|
                        0 <= w < q_tokens@.len() && q_tokens@[w]@ == toks@[i as int]@;
                    assert(qv[w] == toks@[i as int]@);
                }
                if qv.contains(tv[i as int]) {
                    let w = choose|w: int| 0 <= w < qv.len() && qv[w] == tv[i as int];
                    assert(q_tokens@[w]@ == toks@[i as int]@);
                }
            }
            let post = tv.subrange(0, i + 1);
            assert(post.drop_last() =~= pre);
            assert(post.last() == tv[i as int]);
        }
        if hit {
            cnt += 1;
        }
        i += 1;
    }
    proof {
        assert(tv.subrange(0, toks@.len() as int) =~= tv);
    }
    if q_tokens.len() == 0 {
        return 0;
    }
    let r: u128 = ((cnt as u128) * 1000) / (q_tokens.len() as u128);
    proof {
        lemma_overlap_count_bounds(qv, tv);
        assert(cnt * 1000 / (q_tokens@.len() as int) <= cnt * 1000) by {
            vstd::arithmetic::div_mod::lemma_div_is_ordered_by_denominator(
                cnt as int * 1000,
                1,
                q_tokens@.len() as int,
            );
        }
    }
    r
}

/// A stored fraction in thousandths forced back into [0, 1000]; the data
/// model keeps importances and chunk weights in that range, so scoring clamps
/// rather than fails on out-of-range rows.
pub open spec fn spec_clamp_milli(v: i64) -> int {
    if v < 0 {
        0
    } else if v > 1000 {
        1000
    } else {
        v as int
    }
}

/// The score of one event in thousandths: the supplied similarity, or the
/// token overlap of its text, boosted by `1 + importance_weight * importance`
/// when the event carries an importance.
pub open spec fn spec_event_score(
    q: Seq<Seq<char>>,
    e: MemoryEventV,
    importance_weight: u64,
    sim: Option<u64>,
) -> int {
    let base = match sim {
        Some(s) => s as int,
        None => spec_token_overlap(q, e.text),
    };
    match e.importance {
        Some(imp) => base * (1000 + importance_weight * spec_clamp_milli(imp) / 1000) / 1000,
        None => base,
    }
}

/// The score of one chunk in thousandths: the supplied similarity or the
/// token overlap of its summary, boosted by `1 + weight`, then decayed
/// exponentially by the time since its last reference.
pub open spec fn spec_chunk_score(
    q: Seq<Seq<char>>,
    c: SemanticChunkV,
    time_decay_factor: u64,
    now_ms: u64,
    sim: Option<u64>,
) -> int {
    let base = match sim {
        Some(s) => s as int,
        None => spec_token_overlap(q, c.summary),
    };
    let boosted = base * (1000 + spec_clamp_milli(c.weight)) / 1000;
    match c.last_ref_ts {
        Some(ts) => {
            let delta_min = if now_ms >= ts {
                ((now_ms - ts) / 60000) as u64
            } else {
                0u64
            };
            boosted * spec_decay(delta_min, time_decay_factor) / 1000
        },
        None => boosted,
    }
}

/// One ranked candidate line.
pub struct Candidate {
    /// Score in thousandths.
    pub score: u128,
    /// Position in the unranked pool; ties in score keep pool order.
    pub ord: usize,
    /// The formatted context line, without its newline.
    pub line: String,
}

/// The mathematical value of a [`Candidate`].
#[verifier::ext_equal]
pub ghost struct CandidateV {
    /// Score in thousandths.
    pub score: u128,
    /// Position in the unranked pool.
    pub ord: usize,
    /// The formatted context line.
    pub line: Seq<char>,
}

impl View for Candidate {
    type V = CandidateV;

    open spec fn view(&self) -> CandidateV {
        CandidateV { score: self.score, ord: self.ord, line: self.line@ }
    }
}

impl DeepView for Candidate {
    type V = CandidateV;

    open spec fn deep_view(&self) -> CandidateV {
        self.view()
    }
}

/// Whether candidate `a` ranks at or before `b`: score descending, pool
/// order ascending on ties.
pub open spec fn spec_cand_le(a: CandidateV, b: CandidateV) -> bool {
    if a.score != b.score {
        a.score > b.score
    } else {
        a.ord <= b.ord
    }
}

/// The candidate ranking as an ordering function.
pub open spec fn cand_order() -> spec_fn(CandidateV, CandidateV) -> bool {
    |a: CandidateV, b: CandidateV| spec_cand_le(a, b)
}

fn cand_le(a: &Candidate, b: &Candidate) -> (r: bool)
    ensures
        r == spec_cand_le(a@, b@),
{
    if a.score != b.score {
        a.score > b.score
    } else {
        a.ord <= b.ord
    }
}

/// Places `x` into the rank-sorted vector `v`.
fn insert_cand_sorted(v: &mut Vec<Candidate>, x: Candidate)
    requires
        sorted_by(old(v).deep_view(), cand_order()),
    ensures
        sorted_by(final(v).deep_view(), cand_order()),
        final(v).deep_view().to_multiset() == old(v).deep_view().to_multiset().insert(x@),
        final(v)@.len() == old(v)@.len() + 1,
{
    let mut pos: usize = 0;
    while pos < v.len() && cand_le(&v[pos], &x)
        invariant
            pos <= v@.len(),
            *v == *old(v),
            forall|k: int| 0 <= k < pos ==> spec_cand_le(#[trigger] v.deep_view()[k], x@),
        decreases v@.len() - pos,
    {
        proof {
            assert(v.deep_view()[pos as int] == v@[pos as int]@);
        }
        pos += 1;
    }
    let ghost pre = v.deep_view();
    let ghost pre_vals = v@;
    proof {
        if pos < pre.len() {
            assert(v.deep_view()[pos as int] == v@[pos as int]@);
            assert(!spec_cand_le(pre[pos as int], x@));
            assert(spec_cand_le(x@, pre[pos as int]));
        }
    }
    v.insert(pos, x);
    proof {
        pre_vals.insert_ensures(pos as int, x);
        pre.insert_ensures(pos as int, x@);
        assert(v.deep_view() =~= pre.insert(pos as int, x@));
        let dv = v.deep_view();
        assert forall|i: int, j: int| 0 <= i < j < dv.len() implies cand_order()(dv[i], dv[j]) by {
            if j < pos {
                assert(cand_order()(pre[i], pre[j]));
            } else if i < pos && j == pos {
                assert(spec_cand_le(pre[i], x@));
            } else if i < pos && j > pos {
                assert(cand_order()(pre[i], pre[j - 1]));
            } else if i == pos && j > pos {
                assert(spec_cand_le(x@, pre[pos as int]));
                if j - 1 > pos {
                    assert(cand_order()(pre[pos as int], pre[j - 1]));
                }
            } else {
                assert(cand_order()(pre[i - 1], pre[j - 1]));
            }
        }
        assert(dv.to_multiset() == pre.to_multiset().insert(x@)) by {
            vstd::seq_lib::to_multiset_insert(pre, pos as int, x@);
        }
    }
}

/// Sorts candidates by rank; the result is a permutation of the input.
fn sort_cands(v: Vec<Candidate>) -> (r: Vec<Candidate>)
    ensures
        sorted_by(r.deep_view(), cand_order()),
        r.deep_view().to_multiset() == v.deep_view().to_multiset(),
{
    let ghost input = v.deep_view();
    let mut rest = v;
    let mut out: Vec<Candidate> = Vec::new();
    proof {
        assert(input.subrange(0, 0) =~= Seq::<CandidateV>::empty());
        assert(Seq::<CandidateV>::empty().to_multiset() =~= out.deep_view().to_multiset());
    }
    let n = rest.len();
    let mut i: usize = 0;
    while i < n
        invariant
            n == rest@.len(),
            rest.deep_view() == input,
            i <= n,
            sorted_by(out.deep_view(), cand_order()),
            out.deep_view().to_multiset() == input.subrange(0, i as int).to_multiset(),
        decreases n - i,
    {
        let ghost pre = input.subrange(0, i as int);
        let c = &rest[i];
        let x = Candidate { score: c.score, ord: c.ord, line: c.line.clone() };
        proof {
            assert(rest.deep_view()[i as int] == rest@[i as int]@);
            assert(x@ == input[i as int]);
        }
        insert_cand_sorted(&mut out, x);
        proof {
            let post = input.subrange(0, i + 1);
            assert(post.drop_last() =~= pre);
            assert(post =~= pre.push(input[i as int]));
        }
        i += 1;
    }
    proof {
        assert(input.subrange(0, n as int) =~= input);
    }
    out
}

/// The context line of one event: `[Event] <role>: <text>`.
pub open spec fn spec_event_line(e: MemoryEventV) -> Seq<char> {
    "[Event] "@ + e.role + ": "@ + e.text
}

/// The context line of one chunk: `[Chunk] <title>: <summary>`, with
/// `Semantic Chunk` standing in for a missing title.
pub open spec fn spec_chunk_line(c: SemanticChunkV) -> Seq<char> {
    "[Chunk] "@ + (match c.title {
        Some(t) => t,
        None => "Semantic Chunk"@,
    }) + ": "@ + c.summary
}

/// The context line of one persona fact:
/// `[Persona] <type>::<key> = <value> (conf: <confidence>)` and a newline.
pub open spec fn spec_persona_line(t: PersonaTrait) -> Seq<char> {
    "[Persona] "@ + t.trait_type@ + "::"@ + t.trait_key@ + " = "@ + t.trait_value@ + " (conf: "@
        + strutil::spec_milli_two_places(if t.confidence >= 0 {
        t.confidence as nat
    } else {
        0nat
    }) + ")\n"@
}

/// The candidate pool for scored events: one candidate per event, in event
/// order.
pub open spec fn spec_event_cands(
    q: Seq<Seq<char>>,
    evs: Seq<MemoryEventV>,
    importance_weight: u64,
    sims: Seq<Option<u64>>,
) -> Seq<CandidateV> {
    Seq::new(
        evs.len(),
        |i: int|
            CandidateV {
                score: spec_event_score(q, evs[i], importance_weight, sims[i]) as u128,
                ord: i as usize,
                line: spec_event_line(evs[i]),
            },
    )
}

/// The candidate pool for scored chunks: one candidate per chunk, numbered
/// after the events.
pub open spec fn spec_chunk_cands(
    q: Seq<Seq<char>>,
    cs: Seq<SemanticChunkV>,
    time_decay_factor: u64,
    now_ms: u64,
    sims: Seq<Option<u64>>,
    offset: int,
) -> Seq<CandidateV> {
    Seq::new(
        cs.len(),
        |i: int|
            CandidateV {
                score: spec_chunk_score(q, cs[i], time_decay_factor, now_ms, sims[i]) as u128,
                ord: (offset + i) as usize,
                line: spec_chunk_line(cs[i]),
            },
    )
}

/// Persona lines appended in order while they fit the budget; the first line
/// that does not fit stops the section.
pub open spec fn spec_persona_append(
    facts: Seq<PersonaTrait>,
    k: int,
    cur: Seq<char>,
    max: int,
) -> Seq<char>
    decreases facts.len() - k,
{
    if k < 0 || k >= facts.len() {
        cur
    } else {
        let line = spec_persona_line(facts[k]);
        if cur.len() + line.len() <= max {
            spec_persona_append(facts, k + 1, cur + line, max)
        } else {
            cur
        }
    }
}

/// The persona block: the header, the facts that fit, and a blank separator
/// line when room remains. Empty when there are no facts or the header
/// itself would not fit.
pub open spec fn spec_persona_block(facts: Seq<PersonaTrait>, max: int) -> Seq<char> {
    if facts.len() == 0 || "[Persona Facts]\n"@.len() > max {
        Seq::empty()
    } else {
        let body = spec_persona_append(facts, 0, "[Persona Facts]\n"@, max);
        if body.len() < max {
            body + "\n"@
        } else {
            body
        }
    }
}

/// Ranked candidate lines appended in order, at most `upto` of them, while
/// line plus newline fit the budget; the first that does not fit stops the
/// output.
pub open spec fn spec_cand_append(
    order: Seq<CandidateV>,
    k: int,
    upto: int,
    cur: Seq<char>,
    max: int,
) -> Seq<char>
    decreases order.len() - k,
{
    if k < 0 || k >= order.len() || k >= upto {
        cur
    } else {
        let line = order[k].line;
        if cur.len() + line.len() + 1 <= max {
            spec_cand_append(order, k + 1, upto, cur + line + "\n"@, max)
        } else {
            cur
        }
    }
}


/// Builds the `[Event]` context line of one event.
fn event_line(e: &MemoryEvent) -> (r: String)
    ensures
        r@ == spec_event_line(e@),
{
    let mut s = String::new();
    s.append("[Event] ");
    s.append(e.role.as_str());
    s.append(": ");
    s.append(e.text.as_str());
    assert(s@ =~= spec_event_line(e@));
    s
}

/// Builds the `[Chunk]` context line of one chunk.
fn chunk_line(c: &SemanticChunk) -> (r: String)
    ensures
        r@ == spec_chunk_line(c@),
{
    let mut s = String::new();
    s.append("[Chunk] ");
    match &c.title {
        Some(t) => s.append(t.as_str()),
        None => s.append("Semantic Chunk"),
    }
    s.append(": ");
    s.append(c.summary.as_str());
    assert(s@ =~= spec_chunk_line(c@));
    s
}

/// Builds the `[Persona]` context line of one fact.
fn persona_line(t: &PersonaTrait) -> (r: String)
    ensures
        r@ == spec_persona_line(*t),
{
    let conf: u64 = if t.confidence >= 0 {
        t.confidence as u64
    } else {
        0
    };
    let mut s = String::new();
    s.append("[Persona] ");
    s.append(t.trait_type.as_str());
    s.append("::");
    s.append(t.trait_key.as_str());
    s.append(" = ");
    s.append(t.trait_value.as_str());
    s.append(" (conf: ");
    let rendered = strutil::milli_to_two_places(conf);
    s.append(rendered.as_str());
    s.append(")\n");
    assert(s@ =~= spec_persona_line(*t));
    s
}

/// Scores the given events and chunks against `query`, ranks them, and
/// assembles the context block: persona facts first, then the top `top_k`
/// candidate lines, stopping before any line that would push the text past
/// `max_chars` characters.
///
/// `event_sims` and `chunk_sims` carry one optional embedding similarity in
/// thousandths per event and chunk (negative cosines clamp to zero on the
/// caller's side); a missing similarity falls back to token overlap.
pub fn score_and_format(
    events: &Vec<MemoryEvent>,
    chunks: &Vec<SemanticChunk>,
    facts: &Vec<PersonaTrait>,
    event_sims: &Vec<Option<u64>>,
    chunk_sims: &Vec<Option<u64>>,
    query: &str,
    top_k: usize,
    time_decay_factor: u64,
    importance_weight: u64,
    max_chars: usize,
    now_ms: u64,
) -> (r: String)
    requires
        event_sims@.len() == events@.len(),
        chunk_sims@.len() == chunks@.len(),
        events@.len() + chunks@.len() <= usize::MAX,
        importance_weight <= 1000000000,
    ensures
        r@.len() <= max_chars,
        exists|order: Seq<CandidateV>|
            {
                let q = strutil::spec_tokens(query@);
                let cands = spec_event_cands(q, events.deep_view(), importance_weight, event_sims@)
                    + spec_chunk_cands(
                    q,
                    chunks.deep_view(),
                    time_decay_factor,
                    now_ms,
                    chunk_sims@,
                    events@.len() as int,
                );
                &&& sorted_by(order, cand_order())
                &&& #[trigger] order.to_multiset() == cands.to_multiset()
                &&& r@ == spec_cand_append(
                    order,
                    0,
                    top_k as int,
                    spec_persona_block(facts@, max_chars as int),
                    max_chars as int,
                )
            },
        events@.len() == 0 && chunks@.len() == 0 && facts@.len() == 0 ==> r@ == Seq::<
            char,
        >::empty(),
{
    let ghost q = strutil::spec_tokens(query@);
    let q_tokens = strutil::tokenize(query);
    let ghost ecands = spec_event_cands(q, events.deep_view(), importance_weight, event_sims@);
    let ghost ccands = spec_chunk_cands(
        q,
        chunks.deep_view(),
        time_decay_factor,
        now_ms,
        chunk_sims@,
        events@.len() as int,
    );
    let mut cands: Vec<Candidate> = Vec::new();
    let ne = events.len();
    let mut i: usize = 0;
    while i < ne
        invariant
            ne == events@.len(),
            i <= ne,
            strutil::views_of(q_tokens@) == q,
            q == strutil::spec_tokens(query@),
            event_sims@.len() == events@.len(),
            importance_weight <= 1000000000,
            ecands == spec_event_cands(q, events.deep_view(), importance_weight, event_sims@),
            cands.deep_view() =~= ecands.take(i as int),
        decreases ne - i,
    {
        let e = &events[i];
        let base: u128 = match event_sims[i] {
            Some(s) => s as u128,
            None => token_overlap_milli(&q_tokens, e.text.as_str()),
        };
        proof {
            assert(base <= (u64::MAX as u128) * 1000 + (u64::MAX as u128));
        }
        proof {
            assert(events@[i as int]@.importance == e.importance);
        }
        let score: u128 = match e.importance {
            Some(imp) => {
                let imp_c: u64 = if imp < 0 {
                    0
                } else if imp > 1000 {
                    1000
                } else {
                    imp as u64
                };
                proof {
                    assert(imp_c == spec_clamp_milli(imp));
                    assert((importance_weight as u128) * (imp_c as u128) <= 1000000000 * 1000)
                        by (nonlinear_arith)
                        requires
                            importance_weight <= 1000000000,
                            imp_c <= 1000,
                    ;
                }
                let factor: u128 = 1000 + ((importance_weight as u128) * (imp_c as u128)) / 1000;
                proof {
                    assert(factor <= 1000000000 + 1000);
                    assert(base * factor <= ((u64::MAX as u128) * 1000 + (u64::MAX as u128)) * (
                    1000000000 + 1000)) by (nonlinear_arith)
                        requires
                            base <= (u64::MAX as u128) * 1000 + (u64::MAX as u128),
                            factor <= 1000000000 + 1000,
                    ;
                }
                (base * factor) / 1000
            },
            None => base,
        };
        let line = event_line(e);
        let cand = Candidate { score, ord: i, line };
        proof {
            assert(events.deep_view()[i as int] == events@[i as int]@);
            assert(cand@ =~= ecands[i as int]);
        }
        let ghost dpre = cands.deep_view();
        cands.push(cand);
        proof {
            assert(cands.deep_view() =~= dpre.push(ecands[i as int]));
            assert(cands.deep_view() =~= ecands.take(i + 1));
        }
        i += 1;
    }
    proof {
        assert(cands.deep_view() =~= ecands);
    }
    let nc = chunks.len();
    let mut j: usize = 0;
    while j < nc
        invariant
            nc == chunks@.len(),
            ne == events@.len(),
            ne + nc <= usize::MAX,
            j <= nc,
            strutil::views_of(q_tokens@) == q,
            q == strutil::spec_tokens(query@),
            chunk_sims@.len() == chunks@.len(),
            ccands == spec_chunk_cands(
                q,
                chunks.deep_view(),
                time_decay_factor,
                now_ms,
                chunk_sims@,
                ne as int,
            ),
            ecands.len() == ne,
            cands.deep_view() =~= ecands + ccands.take(j as int),
        decreases nc - j,
    {
        let c = &chunks[j];
        let base: u128 = match chunk_sims[j] {
            Some(s) => s as u128,
            None => token_overlap_milli(&q_tokens, c.summary.as_str()),
        };
        proof {
            assert(base <= (u64::MAX as u128) * 1000 + (u64::MAX as u128));
        }
        let w: u64 = if c.weight < 0 {
            0
        } else if c.weight > 1000 {
            1000
        } else {
            c.weight as u64
        };
        proof {
            assert(w == spec_clamp_milli(c.weight));
            assert(chunks@[j as int]@.weight == c.weight);
        }
        let boosted: u128 = {
            proof {
                assert(base * (1000 + (w as u128)) <= ((u64::MAX as u128) * 1000 + (
                u64::MAX as u128)) * 2000) by (nonlinear_arith)
                    requires
                        base <= (u64::MAX as u128) * 1000 + (u64::MAX as u128),
                        w <= 1000,
                ;
            }
            (base * (1000 + (w as u128))) / 1000
        };
        let score: u128 = match c.last_ref_ts {
            Some(ts) => {
                let delta_min: u64 = if now_ms >= ts {
                    (now_ms - ts) / 60000
                } else {
                    0
                };
                let d = decay_milli(delta_min, time_decay_factor);
                proof {
                    assert(boosted * (d as u128) <= (((u64::MAX as u128) * 1000 + (
                    u64::MAX as u128)) * 2000) * 1000) by (nonlinear_arith)
                        requires
                            boosted <= ((u64::MAX as u128) * 1000 + (u64::MAX as u128)) * 2000,
                            d <= 1000,
                    ;
                }
                (boosted * (d as u128)) / 1000
            },
            None => boosted,
        };
        let line = chunk_line(c);
        let cand = Candidate { score, ord: ne + j, line };
        proof {
            assert(chunks.deep_view()[j as int] == chunks@[j as int]@);
            assert(cand@ =~= ccands[j as int]);
        }
        let ghost dpre = cands.deep_view();
        cands.push(cand);
        proof {
            assert(cands.deep_view() =~= dpre.push(ccands[j as int]));
            assert(cands.deep_view() =~= ecands + ccands.take(j + 1));
        }
        j += 1;
    }
    proof {
        assert(cands.deep_view() =~= ecands + ccands);
    }
    let sorted = sort_cands(cands);
    let ghost order = sorted.deep_view();

    // Persona block.
    let mut out = String::new();
    let mut out_chars: usize = 0;
    if facts.len() > 0 {
        let header = "[Persona Facts]\n";
        proof {
            reveal_strlit("[Persona Facts]\n");
        }
        let header_len = header.unicode_len();
        if header_len <= max_chars {
            out.append(header);
            out_chars = header_len;
            let mut k: usize = 0;
            let mut stopped = false;
            while k < facts.len() && !stopped
                invariant
                    k <= facts@.len(),
                    out_chars == out@.len(),
                    out_chars <= max_chars,
                    !stopped ==> spec_persona_append(
                        facts@,
                        0,
                        "[Persona Facts]\n"@,
                        max_chars as int,
                    ) == spec_persona_append(facts@, k as int, out@, max_chars as int),
                    stopped ==> spec_persona_append(
                        facts@,
                        0,
                        "[Persona Facts]\n"@,
                        max_chars as int,
                    ) == out@,
                decreases facts@.len() - k + (if stopped { 0int } else { 1int }),
            {
                let line = persona_line(&facts[k]);
                let line_len = line.as_str().unicode_len();
                if line_len <= max_chars - out_chars {
                    out.append(line.as_str());
                    out_chars += line_len;
                    k += 1;
                } else {
                    stopped = true;
                }
            }
            let ghost body = out@;
            if out_chars < max_chars {
                out.push('\n');
                out_chars += 1;
                proof {
                    reveal_strlit("\n");
                    assert(out@ =~= body + "\n"@);
                }
            }
            proof {
                assert(out@ == spec_persona_block(facts@, max_chars as int));
            }
        } else {
            proof {
                assert(out@ =~= spec_persona_block(facts@, max_chars as int));
            }
        }
    } else {
        proof {
            assert(out@ =~= spec_persona_block(facts@, max_chars as int));
        }
    }
    let ghost block = spec_persona_block(facts@, max_chars as int);

    // Ranked candidate lines under the budget.
    let mut k: usize = 0;
    let mut stopped = false;
    while k < sorted.len() && k < top_k && !stopped
        invariant
            out_chars == out@.len(),
            out_chars <= max_chars,
            k <= sorted@.len(),
            order == sorted.deep_view(),
            !stopped ==> spec_cand_append(order, 0, top_k as int, block, max_chars as int)
                == spec_cand_append(order, k as int, top_k as int, out@, max_chars as int),
            stopped ==> spec_cand_append(order, 0, top_k as int, block, max_chars as int) == out@,
        decreases sorted@.len() - k + (if stopped { 0int } else { 1int }),
    {
        let line = &sorted[k].line;
        let line_len = line.as_str().unicode_len();
        proof {
            assert(order[k as int].line == sorted@[k as int]@.line);
        }
        if out_chars < max_chars && line_len < max_chars - out_chars {
            let ghost opre = out@;
            out.append(line.as_str());
            out.push('\n');
            proof {
                reveal_strlit("\n");
                assert(out@ =~= opre + order[k as int].line + "\n"@);
            }
            out_chars += line_len + 1;
            k += 1;
        } else {
            proof {
                assert(out@.len() + order[k as int].line.len() + 1 > max_chars);
                assert(spec_cand_append(order, k as int, top_k as int, out@, max_chars as int)
                    == out@);
            }
            stopped = true;
        }
    }
    proof {
        if !stopped && !(k < sorted@.len() && k < top_k) {
            assert(spec_cand_append(order, k as int, top_k as int, out@, max_chars as int)
                == out@);
        }
        assert(out@ == spec_cand_append(order, 0, top_k as int, block, max_chars as int));
        if events@.len() == 0 && chunks@.len() == 0 && facts@.len() == 0 {
            assert(ecands.len() == 0 && ccands.len() == 0);
            vstd::seq_lib::to_multiset_len(order);
            vstd::seq_lib::to_multiset_len(ecands + ccands);
            assert(order.len() == 0);
        }
    }
    out
}


/// The event pool retrieval draws from: the active session's events, or none
/// when no session is active.
pub open spec fn spec_retrieval_events(store: MemoryStore) -> Seq<MemoryEventV> {
    match spec_active_session_id(store.sessions@) {
        Some(sid) => store.events.deep_view().filter(|e: MemoryEventV| e.session_id == sid),
        None => Seq::empty(),
    }
}

impl MemoryStore {
    /// Retrieves the most relevant context for `query` as one formatted
    /// block: persona facts matching the query first, then the `top_k`
    /// best-scoring `[Event]` and `[Chunk]` lines, never exceeding
    /// `max_chars` characters. Events come from the active session; chunks
    /// from the hundred most recently referenced. Everything is scored by
    /// token overlap, so no embedding provider is needed; an empty store
    /// yields an empty string.
    pub fn retrieve_memories(
        &self,
        agent_name: &str,
        query: &str,
        top_k: usize,
        time_decay_factor: u64,
        importance_weight: u64,
        max_chars: usize,
        now_ms: u64,
    ) -> (r: String)
        requires
            self.wf(),
            importance_weight <= 1000000000,
            self.events@.len() + 100 <= usize::MAX,
        ensures
            r@.len() <= max_chars,
            spec_retrieval_events(*self).len() == 0 && self.chunks@.len() == 0 && self.traits@.filter(
                spec_fact_filter(agent_name@, query@),
            ).len() == 0 ==> r@ == Seq::<char>::empty(),
            exists|pool: Seq<SemanticChunkV>, ffull: Seq<PersonaTrait>, order: Seq<CandidateV>|
                {
                    let q = strutil::spec_tokens(query@);
                    let evs = spec_retrieval_events(*self);
                    let kept = self.traits@.filter(spec_fact_filter(agent_name@, query@));
                    let nfacts: int = {
                        let cap: int = if 5 <= top_k {
                            5
                        } else {
                            top_k as int
                        };
                        if cap <= kept.len() {
                            cap
                        } else {
                            kept.len() as int
                        }
                    };
                    let npool: int = if 100 <= pool.len() {
                        100
                    } else {
                        pool.len() as int
                    };
                    let cands = spec_event_cands(
                        q,
                        evs,
                        importance_weight,
                        Seq::new(evs.len(), |i: int| None::<u64>),
                    ) + spec_chunk_cands(
                        q,
                        pool.take(npool),
                        time_decay_factor,
                        now_ms,
                        Seq::new(npool as nat, |i: int| None::<u64>),
                        evs.len() as int,
                    );
                    &&& sorted_by(pool, chunk_order())
                    &&& #[trigger] pool.to_multiset() == self.chunks.deep_view().to_multiset()
                    &&& sorted_by(ffull, trait_order())
                    &&& #[trigger] ffull.to_multiset() == kept.to_multiset()
                    &&& sorted_by(order, cand_order())
                    &&& #[trigger] order.to_multiset() == cands.to_multiset()
                    &&& r@ == spec_cand_append(
                        order,
                        0,
                        top_k as int,
                        spec_persona_block(ffull.take(nfacts), max_chars as int),
                        max_chars as int,
                    )
                },
    {
        let events = match self.get_active_session() {
            Some(sid) => self.list_memory_events(sid),
            None => Vec::new(),
        };
        proof {
            assert(events.deep_view() =~= spec_retrieval_events(*self));
        }
        let chunk_pool = self.list_semantic_chunks(Some(100));
        let fact_cap: usize = if 5 <= top_k {
            5
        } else {
            top_k
        };
        let facts = self.get_relevant_persona_facts(agent_name, query, fact_cap);
        let mut event_sims: Vec<Option<u64>> = Vec::new();
        let mut i: usize = 0;
        while i < events.len()
            invariant
                i <= events@.len(),
                event_sims@.len() == i,
                forall|k: int| 0 <= k < i ==> event_sims@[k] is None,
            decreases events@.len() - i,
        {
            event_sims.push(None);
            i += 1;
        }
        let mut chunk_sims: Vec<Option<u64>> = Vec::new();
        let mut j: usize = 0;
        while j < chunk_pool.len()
            invariant
                j <= chunk_pool@.len(),
                chunk_sims@.len() == j,
                forall|k: int| 0 <= k < j ==> chunk_sims@[k] is None,
            decreases chunk_pool@.len() - j,
        {
            chunk_sims.push(None);
            j += 1;
        }
        proof {
            match spec_active_session_id(self.sessions@) {
                Some(sid) => {
                    vstd::seq_lib::to_multiset_len(events.deep_view());
                    self.events.deep_view().lemma_filter_len(
                        |e: MemoryEventV| e.session_id == sid,
                    );
                },
                None => {},
            }
            assert(events@.len() <= self.events@.len());
        }
        let out = score_and_format(
            &events,
            &chunk_pool,
            &facts,
            &event_sims,
            &chunk_sims,
            query,
            top_k,
            time_decay_factor,
            importance_weight,
            max_chars,
            now_ms,
        );
        proof {
            let q = strutil::spec_tokens(query@);
            let evs = spec_retrieval_events(*self);
            let kept = self.traits@.filter(spec_fact_filter(agent_name@, query@));
            let pool_w = choose|full: Seq<SemanticChunkV>|
                sorted_by(full, chunk_order()) && #[trigger] full.to_multiset()
                    == self.chunks.deep_view().to_multiset() && chunk_pool.deep_view()
                    == full.take(chunk_pool@.len() as int);
            vstd::seq_lib::to_multiset_len(pool_w);
            vstd::seq_lib::to_multiset_len(self.chunks.deep_view());
            let npool: int = if 100 <= pool_w.len() {
                100
            } else {
                pool_w.len() as int
            };
            assert(chunk_pool@.len() == npool);
            let ffull_w = choose|full: Seq<PersonaTrait>|
                sorted_by(full, trait_order()) && #[trigger] full.to_multiset()
                    == kept.to_multiset() && facts@ == full.take(facts@.len() as int);
            let ecands_actual = spec_event_cands(
                q,
                events.deep_view(),
                importance_weight,
                event_sims@,
            );
            let ccands_actual = spec_chunk_cands(
                q,
                chunk_pool.deep_view(),
                time_decay_factor,
                now_ms,
                chunk_sims@,
                events@.len() as int,
            );
            let order_w = choose|order: Seq<CandidateV>|
                sorted_by(order, cand_order()) && #[trigger] order.to_multiset() == (ecands_actual
                    + ccands_actual).to_multiset() && out@ == spec_cand_append(
                    order,
                    0,
                    top_k as int,
                    spec_persona_block(facts@, max_chars as int),
                    max_chars as int,
                );
            assert(events.deep_view() =~= evs);
            assert(events.deep_view().len() == events@.len());
            assert(event_sims@ =~= Seq::new(evs.len(), |i: int| None::<u64>));
            assert(chunk_sims@ =~= Seq::new(npool as nat, |i: int| None::<u64>));
            assert(chunk_pool.deep_view() == pool_w.take(npool));
            assert(ecands_actual =~= spec_event_cands(
                q,
                evs,
                importance_weight,
                Seq::new(evs.len(), |i: int| None::<u64>),
            ));
            assert(ccands_actual =~= spec_chunk_cands(
                q,
                pool_w.take(npool),
                time_decay_factor,
                now_ms,
                Seq::new(npool as nat, |i: int| None::<u64>),
                evs.len() as int,
            ));
            let nfacts: int = {
                let cap: int = if 5 <= top_k {
                    5
                } else {
                    top_k as int
                };
                if cap <= kept.len() {
                    cap
                } else {
                    kept.len() as int
                }
            };
            assert(facts@.len() == nfacts);
            assert(facts@ == ffull_w.take(nfacts));
            assert(pool_w.to_multiset() == self.chunks.deep_view().to_multiset());
            assert(ffull_w.to_multiset() == kept.to_multiset());
            assert(order_w.to_multiset() == (spec_event_cands(
                q,
                evs,
                importance_weight,
                Seq::new(evs.len(), |i: int| None::<u64>),
            ) + spec_chunk_cands(
                q,
                pool_w.take(npool),
                time_decay_factor,
                now_ms,
                Seq::new(npool as nat, |i: int| None::<u64>),
                evs.len() as int,
            )).to_multiset());
            assert(out@ == spec_cand_append(
                order_w,
                0,
                top_k as int,
                spec_persona_block(ffull_w.take(nfacts), max_chars as int),
                max_chars as int,
            ));
        }
        out
    }
}

} // verus!
