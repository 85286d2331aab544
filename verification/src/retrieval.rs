use vstd::prelude::*;
use vstd::string::StringExecFns;

use crate::elasticsearch::{ESQueryResult, ESQueryResultV};
use crate::schema::{ChunkQueryResult, ChunkQueryResultV, QueryResult};

verus! {

/// Weight of the dense (semantic) component in hybrid fusion, in
/// hundredths; the keyword component gets the rest.
pub const FUSION_ALPHA_PERCENT: i64 = 65;

/// A raw keyword score at or above this cap normalizes to one (an
/// empirical cap; the clip is implicit). In millionths.
pub const KEYWORD_SCORE_CAP: i64 = 10000000;

pub open spec fn clamp(x: int, lo: int, hi: int) -> int {
    if x < lo {
        lo
    } else if x > hi {
        hi
    } else {
        x
    }
}

/// A cosine score in `[-1, 1]` (in millionths) mapped to `[0, 1]` via
/// `(s + 1) / 2`; scores outside the range are clipped first.
pub open spec fn dense_norm(s: int) -> int {
    (clamp(s, -1000000, 1000000) + 1000000) / 2
}

/// A keyword score normalized by the empirical cap of ten.
pub open spec fn keyword_norm(s: int) -> int {
    clamp(s, 0, KEYWORD_SCORE_CAP as int) / 10
}

/// Index of the first dense hit with the given text.
pub open spec fn d_first(ds: Seq<ChunkQueryResultV>, t: Seq<char>) -> int
    decreases ds.len(),
{
    if ds.len() == 0 {
        0
    } else if ds[0].text == t {
        0
    } else {
        1 + d_first(ds.drop_first(), t)
    }
}

pub open spec fn d_contains(ds: Seq<ChunkQueryResultV>, t: Seq<char>) -> bool {
    exists|i: int| 0 <= i < ds.len() && (#[trigger] ds[i]).text == t
}

/// Index of the first keyword hit with the given text.
pub open spec fn k_first(ks: Seq<ESQueryResultV>, t: Seq<char>) -> int
    decreases ks.len(),
{
    if ks.len() == 0 {
        0
    } else if ks[0].text == t {
        0
    } else {
        1 + k_first(ks.drop_first(), t)
    }
}

pub open spec fn k_contains(ks: Seq<ESQueryResultV>, t: Seq<char>) -> bool {
    exists|i: int| 0 <= i < ks.len() && (#[trigger] ks[i]).text == t
}

pub proof fn lemma_d_first_unique(ds: Seq<ChunkQueryResultV>, t: Seq<char>, idx: int)
    requires
        0 <= idx < ds.len(),
        ds[idx].text == t,
        forall|j: int| 0 <= j < idx ==> (#[trigger] ds[j]).text != t,
    ensures
        d_first(ds, t) == idx,
    decreases ds.len(),
{
    if idx == 0 {
    } else {
        assert(ds[0].text != t);
        assert(ds.drop_first()[idx - 1].text == t);
        assert forall|j: int| 0 <= j < idx - 1 implies (#[trigger] ds.drop_first()[j]).text != t by {
            assert(ds[j + 1].text != t);
        }
        lemma_d_first_unique(ds.drop_first(), t, idx - 1);
    }
}

pub proof fn lemma_k_first(ks: Seq<ESQueryResultV>, t: Seq<char>)
    requires
        k_contains(ks, t),
    ensures
        0 <= k_first(ks, t) < ks.len(),
        ks[k_first(ks, t)].text == t,
        forall|j: int| 0 <= j < k_first(ks, t) ==> (#[trigger] ks[j]).text != t,
    decreases ks.len(),
{
    if ks.len() == 0 {
    } else if ks[0].text == t {
    } else {
        assert(k_contains(ks.drop_first(), t)) by {
            let i = choose|i: int| 0 <= i < ks.len() && (#[trigger] ks[i]).text == t;
            assert(ks.drop_first()[i - 1].text == t);
        }
        lemma_k_first(ks.drop_first(), t);
        assert forall|j: int| 0 <= j < k_first(ks, t) implies (#[trigger] ks[j]).text != t by {
            if j > 0 {
                assert(ks.drop_first()[j - 1].text != t);
            }
        }
    }
}

pub proof fn lemma_k_first_unique(ks: Seq<ESQueryResultV>, t: Seq<char>, idx: int)
    requires
        0 <= idx < ks.len(),
        ks[idx].text == t,
        forall|j: int| 0 <= j < idx ==> (#[trigger] ks[j]).text != t,
    ensures
        k_first(ks, t) == idx,
    decreases ks.len(),
{
    if idx == 0 {
    } else {
        assert(ks[0].text != t);
        assert(ks.drop_first()[idx - 1].text == t);
        assert forall|j: int| 0 <= j < idx - 1 implies (#[trigger] ks.drop_first()[j]).text != t by {
            assert(ks[j + 1].text != t);
        }
        lemma_k_first_unique(ks.drop_first(), t, idx - 1);
    }
}

/// The dense contribution for a text: the normalized score of its first
/// dense hit, or zero when no dense hit carries the text.
pub open spec fn dense_component(ds: Seq<ChunkQueryResultV>, t: Seq<char>) -> int {
    if d_contains(ds, t) {
        dense_norm(ds[d_first(ds, t)].score as int)
    } else {
        0
    }
}

/// The keyword contribution for a text, likewise.
pub open spec fn keyword_component(ks: Seq<ESQueryResultV>, t: Seq<char>) -> int {
    if k_contains(ks, t) {
        keyword_norm(ks[k_first(ks, t)].score as int)
    } else {
        0
    }
}

/// The hybrid score of a text: the weighted sum of its normalized dense and
/// keyword contributions, `alpha = 0.65`.
pub open spec fn fused_score(
    ds: Seq<ChunkQueryResultV>,
    ks: Seq<ESQueryResultV>,
    t: Seq<char>,
) -> int {
    (FUSION_ALPHA_PERCENT * dense_component(ds, t) + (100 - FUSION_ALPHA_PERCENT)
        * keyword_component(ks, t)) / 100
}

/// The record a dense hit contributes: chunk hits carry no channel, and the
/// first author stands for the authors.
pub open spec fn spec_dense_payload(d: ChunkQueryResultV, score: int) -> ESQueryResultV {
    ESQueryResultV {
        text: d.text,
        author_id: if d.authors.len() > 0 {
            d.authors[0]
        } else {
            "unknown"@
        },
        channel_id: "unknown"@,
        timestamp: d.first_timestamp,
        guild_id: None,
        score: score as i64,
    }
}

/// The record a keyword hit contributes.
pub open spec fn spec_keyword_payload(k: ESQueryResultV, score: int) -> ESQueryResultV {
    ESQueryResultV {
        text: k.text,
        author_id: k.author_id,
        channel_id: k.channel_id,
        timestamp: k.timestamp,
        guild_id: k.guild_id,
        score: score as i64,
    }
}

/// The one fused record a text yields: its score is the weighted sum, and
/// the carried fields come from whichever side contributed more weight (the
/// dense side on a tie, and whichever side is present when only one is).
pub open spec fn expected_entry(
    ds: Seq<ChunkQueryResultV>,
    ks: Seq<ESQueryResultV>,
    t: Seq<char>,
) -> ESQueryResultV {
    let dcomp = dense_component(ds, t);
    let kcomp = keyword_component(ks, t);
    let score = fused_score(ds, ks, t);
    if d_contains(ds, t) && (!k_contains(ks, t) || FUSION_ALPHA_PERCENT * dcomp >= (100
        - FUSION_ALPHA_PERCENT) * kcomp) {
        spec_dense_payload(ds[d_first(ds, t)], score)
    } else {
        spec_keyword_payload(ks[k_first(ks, t)], score)
    }
}

/// Normalizes a dense (cosine) score from millionths in `[-1, 1]` to
/// millionths in `[0, 1]`.
pub fn dense_norm_exec(s: i64) -> (r: i64)
    ensures
        r == dense_norm(s as int),
        0 <= r <= 1000000,
{
    let c: i64 = if s < -1000000 {
        -1000000
    } else if s > 1000000 {
        1000000
    } else {
        s
    };
    (c + 1000000) / 2
}

/// Normalizes a keyword score by the empirical cap of ten.
pub fn keyword_norm_exec(s: i64) -> (r: i64)
    ensures
        r == keyword_norm(s as int),
        0 <= r <= 1000000,
{
    let c: i64 = if s < 0 {
        0
    } else if s > KEYWORD_SCORE_CAP {
        KEYWORD_SCORE_CAP
    } else {
        s
    };
    c / 10
}

/// Equality of fused records up to the score field.
pub open spec fn same_but_score(a: ESQueryResultV, b: ESQueryResultV) -> bool {
    &&& a.text == b.text
    &&& a.author_id == b.author_id
    &&& a.channel_id == b.channel_id
    &&& a.timestamp == b.timestamp
    &&& a.guild_id == b.guild_id
}

/// Working record of the fusion: the payload chosen so far, with the two
/// normalized contributions and which sides have been seen.
struct FusionEntry {
    res: ESQueryResult,
    dn: i64,
    kn: i64,
    has_d: bool,
    has_k: bool,
}

pub ghost struct FusionEntryV {
    pub res: ESQueryResultV,
    pub dn: i64,
    pub kn: i64,
    pub has_d: bool,
    pub has_k: bool,
}

impl View for FusionEntry {
    type V = FusionEntryV;

    closed spec fn view(&self) -> FusionEntryV {
        FusionEntryV {
            res: self.res@,
            dn: self.dn,
            kn: self.kn,
            has_d: self.has_d,
            has_k: self.has_k,
        }
    }
}

impl DeepView for FusionEntry {
    type V = FusionEntryV;

    closed spec fn deep_view(&self) -> FusionEntryV {
        self.view()
    }
}

/// A working record is faithful to the dense hits and the keyword hits seen
/// so far.
spec fn fe_ok(e: FusionEntryV, ds: Seq<ChunkQueryResultV>, kp: Seq<ESQueryResultV>) -> bool {
    &&& e.has_d == d_contains(ds, e.res.text)
    &&& e.has_k == k_contains(kp, e.res.text)
    &&& e.dn == dense_component(ds, e.res.text)
    &&& e.kn == keyword_component(kp, e.res.text)
    &&& 0 <= e.dn <= 1000000
    &&& 0 <= e.kn <= 1000000
    &&& e.has_d || e.has_k
    &&& same_but_score(
        e.res,
        if e.has_d && (!e.has_k || FUSION_ALPHA_PERCENT * e.dn >= (100 - FUSION_ALPHA_PERCENT)
            * e.kn) {
            spec_dense_payload(ds[d_first(ds, e.res.text)], 0)
        } else {
            spec_keyword_payload(kp[k_first(kp, e.res.text)], 0)
        },
    )
}

fn dense_payload_exec(d: &ChunkQueryResult) -> (r: ESQueryResult)
    ensures
        r@.text == d@.text,
        r@.author_id == (if d@.authors.len() > 0 {
            d@.authors[0]
        } else {
            "unknown"@
        }),
        r@.channel_id == "unknown"@,
        r@.timestamp == d@.first_timestamp,
        r@.guild_id is None,
        r@.score == 0,
{
    let author_id = if d.authors.len() > 0 {
        d.authors[0].clone()
    } else {
        String::from_str("unknown")
    };
    ESQueryResult {
        text: d.text.clone(),
        author_id,
        channel_id: String::from_str("unknown"),
        timestamp: d.first_timestamp.clone(),
        guild_id: None,
        score: 0,
    }
}

fn keyword_payload_exec(k: &ESQueryResult) -> (r: ESQueryResult)
    ensures
        same_but_score(r@, k@),
        r@.score == 0,
{
    ESQueryResult {
        text: k.text.clone(),
        author_id: k.author_id.clone(),
        channel_id: k.channel_id.clone(),
        timestamp: k.timestamp.clone(),
        guild_id: crate::schema::clone_opt_string(&k.guild_id),
        score: 0,
    }
}

/// The position of the first working record carrying this text.
fn find_entry(entries: &Vec<FusionEntry>, t: &String) -> (r: Option<usize>)
    ensures
        match r {
            Some(p) => p < entries@.len() && entries.deep_view()[p as int].res.text == t@,
            None => forall|x: int|
                0 <= x < entries@.len() ==> (#[trigger] entries.deep_view()[x]).res.text != t@,
        },
{
    let mut x: usize = 0;
    while x < entries.len()
        invariant
            0 <= x <= entries@.len(),
            forall|y: int| 0 <= y < x ==> (#[trigger] entries.deep_view()[y]).res.text != t@,
        decreases entries@.len() - x,
    {
        if entries[x].res.text == *t {
            return Some(x);
        }
        x = x + 1;
    }
    None
}

/// The position at which a record with this score belongs in a list sorted
/// by descending score.
fn desc_position(out: &Vec<ESQueryResult>, score: i64) -> (p: usize)
    ensures
        0 <= p <= out@.len(),
        forall|a: int| 0 <= a < p ==> (#[trigger] out.deep_view()[a]).score >= score,
        p < out@.len() ==> out.deep_view()[p as int].score < score,
    decreases out@.len(),
{
    let mut p: usize = 0;
    while p < out.len()
        invariant
            0 <= p <= out@.len(),
            forall|a: int| 0 <= a < p ==> (#[trigger] out.deep_view()[a]).score >= score,
        decreases out@.len() - p,
    {
        if out[p].score < score {
            return p;
        }
        p = p + 1;
    }
    p
}

/// Sorted in descending score order.
pub open spec fn sorted_desc(s: Seq<ESQueryResultV>) -> bool {
    forall|a: int, b: int| 0 <= a < b < s.len() ==> (#[trigger] s[a]).score >= (#[trigger] s[b]).score
}

/// Inserts a record into a descending list, keeping the order; returns the
/// position used.
fn insert_result_desc(out: &mut Vec<ESQueryResult>, rec: ESQueryResult) -> (p: usize)
    requires
        sorted_desc(old(out).deep_view()),
    ensures
        0 <= p <= old(out)@.len(),
        final(out)@.len() == old(out)@.len() + 1,
        sorted_desc(final(out).deep_view()),
        forall|a: int|
            0 <= a < final(out)@.len() ==> #[trigger] final(out).deep_view()[a] == (if a < p {
                old(out).deep_view()[a]
            } else if a == p {
                rec@
            } else {
                old(out).deep_view()[a - 1]
            }),
{
    let ghost dv0 = out.deep_view();
    let ghost g0 = out@;
    let p = desc_position(out, rec.score);
    let ghost recv = rec@;
    v_insert_helper(out, p, rec);
    proof {
        let g1 = out@;
        let dv1 = out.deep_view();
        assert forall|a: int| 0 <= a < dv1.len() implies dv1[a] == (if a < p {
            dv0[a]
        } else if a == p {
            recv
        } else {
            dv0[a - 1]
        }) by {
            if a < p {
                assert(g1[a] == g0[a]);
            } else if a > p {
                assert(g1[a] == g0[a - 1]);
            }
        }
        assert forall|a: int, b: int|
            0 <= a < b < dv1.len() implies (#[trigger] dv1[a]).score >= (#[trigger] dv1[b]).score by {
            if a < p && b == p {
            } else if a == p && b > p {
                if b - 1 > p {
                }
            }
        }
    }
    p
}

/// Some working record carries this text.
pub open spec fn entries_contain(es: Seq<FusionEntryV>, t: Seq<char>) -> bool {
    exists|x: int| 0 <= x < es.len() && (#[trigger] es[x]).res.text == t
}

/// Extending a dense prefix by one hit extends the texts it contains by
/// that hit's text.
proof fn lemma_d_take_extend(ds: Seq<ChunkQueryResultV>, i: int, t: Seq<char>)
    requires
        0 <= i < ds.len(),
    ensures
        d_contains(ds.take(i + 1), t) == (d_contains(ds.take(i), t) || ds[i].text == t),
{
    if d_contains(ds.take(i + 1), t) {
        let a = choose|a: int| 0 <= a < ds.take(i + 1).len() && (#[trigger] ds.take(i + 1)[a]).text == t;
        if a < i {
            assert(ds.take(i)[a].text == t);
        } else {
            assert(ds[i].text == t);
        }
    }
    if d_contains(ds.take(i), t) {
        let a = choose|a: int| 0 <= a < ds.take(i).len() && (#[trigger] ds.take(i)[a]).text == t;
        assert(ds.take(i + 1)[a].text == t);
    }
    if ds[i].text == t {
        assert(ds.take(i + 1)[i].text == t);
    }
}

/// How the keyword component over a prefix behaves when the prefix grows by
/// one hit.
proof fn lemma_k_take_extend(ks: Seq<ESQueryResultV>, j: int, t: Seq<char>)
    requires
        0 <= j < ks.len(),
    ensures
        k_contains(ks.take(j + 1), t) == (k_contains(ks.take(j), t) || ks[j].text == t),
        k_contains(ks.take(j), t) ==> keyword_component(ks.take(j + 1), t) == keyword_component(
            ks.take(j),
            t,
        ),
        (!k_contains(ks.take(j), t) && ks[j].text == t) ==> keyword_component(ks.take(j + 1), t)
            == keyword_norm(ks[j].score as int),
        k_contains(ks.take(j), t) ==> (k_first(ks.take(j + 1), t) == k_first(ks.take(j), t)
            && ks.take(j + 1)[k_first(ks.take(j), t)] == ks.take(j)[k_first(ks.take(j), t)]),
        (!k_contains(ks.take(j), t) && ks[j].text == t) ==> (k_first(ks.take(j + 1), t) == j
            && ks.take(j + 1)[j] == ks[j]),
{
    if k_contains(ks.take(j + 1), t) {
        let a = choose|a: int| 0 <= a < ks.take(j + 1).len() && (#[trigger] ks.take(j + 1)[a]).text == t;
        if a < j {
            assert(ks.take(j)[a].text == t);
        } else {
            assert(ks[j].text == t);
        }
    }
    if k_contains(ks.take(j), t) {
        let a = choose|a: int| 0 <= a < ks.take(j).len() && (#[trigger] ks.take(j)[a]).text == t;
        assert(ks.take(j + 1)[a].text == t);
        let idx = k_first(ks.take(j), t);
        lemma_k_first(ks.take(j), t);
        assert(ks.take(j + 1)[idx].text == t);
        assert forall|b: int| 0 <= b < idx implies (#[trigger] ks.take(j + 1)[b]).text != t by {
            assert(ks.take(j)[b].text != t);
        }
        lemma_k_first_unique(ks.take(j + 1), t, idx);
        assert(ks.take(j + 1)[idx] == ks.take(j)[idx]);
    } else if ks[j].text == t {
        assert(ks.take(j + 1)[j].text == t);
        assert forall|b: int| 0 <= b < j implies (#[trigger] ks.take(j + 1)[b]).text != t by {
            assert(ks.take(j)[b] == ks.take(j + 1)[b]);
            if ks.take(j)[b].text == t {
                assert(k_contains(ks.take(j), t));
            }
        }
        lemma_k_first_unique(ks.take(j + 1), t, j);
        assert(ks.take(j + 1)[j] == ks[j]);
    }
}

/// First pass: one working record per distinct dense text, in order of
/// first appearance, with the dense contribution computed.
fn fuse_dense(dense: &Vec<ChunkQueryResult>) -> (entries: Vec<FusionEntry>)
    ensures
        ({
            let es = entries.deep_view();
            let ds = dense.deep_view();
            &&& forall|x: int, y: int|
                0 <= x < y < es.len() ==> (#[trigger] es[x]).res.text != (#[trigger] es[y]).res.text
            &&& forall|x: int|
                0 <= x < es.len() ==> fe_ok(#[trigger] es[x], ds, Seq::<ESQueryResultV>::empty())
            &&& forall|t: Seq<char>|
                #[trigger] entries_contain(es, t) <==> d_contains(ds, t)
        }),
{
    let ghost ds = dense.deep_view();
    let mut entries: Vec<FusionEntry> = Vec::new();
    let mut i: usize = 0;
    while i < dense.len()
        invariant
            0 <= i <= ds.len(),
            ds == dense.deep_view(),
            ds.len() == dense@.len(),
            forall|x: int, y: int|
                0 <= x < y < entries.deep_view().len() ==> (#[trigger] entries.deep_view()[x]).res.text
                    != (#[trigger] entries.deep_view()[y]).res.text,
            forall|x: int|
                0 <= x < entries.deep_view().len() ==> fe_ok(
                    #[trigger] entries.deep_view()[x],
                    ds,
                    Seq::<ESQueryResultV>::empty(),
                ),
            forall|t: Seq<char>|
                #[trigger] entries_contain(entries.deep_view(), t) <==> d_contains(
                    ds.take(i as int),
                    t,
                ),
        decreases ds.len() - i,
    {
        let ghost es0 = entries.deep_view();
        let d = &dense[i];
        proof {
            assert(ds[i as int] == dense@[i as int].deep_view());
        }
        let ghost t = ds[i as int].text;
        match find_entry(&entries, &d.text) {
            Some(_) => {
                proof {
                    assert(entries_contain(es0, t));
                    assert forall|t2: Seq<char>| #[trigger]
                        entries_contain(es0, t2) <==> d_contains(ds.take(i + 1), t2) by {
                        lemma_d_take_extend(ds, i as int, t2);
                    }
                }
            },
            None => {
                let dn = dense_norm_exec(d.score);
                let res = dense_payload_exec(d);
                entries.push(FusionEntry { res, dn, kn: 0, has_d: true, has_k: false });
                proof {
                    let es1 = entries.deep_view();
                    assert(es1 =~= es0.push(es1.last()));
                    assert(!entries_contain(es0, t));
                    assert(!d_contains(ds.take(i as int), t));
                    assert forall|j: int| 0 <= j < i implies (#[trigger] ds[j]).text != t by {
                        if ds[j].text == t {
                            assert(ds.take(i as int)[j].text == t);
                        }
                    }
                    lemma_d_first_unique(ds, t, i as int);
                    assert(d_contains(ds, t)) by {
                        assert(ds[i as int].text == t);
                    }
                    assert(fe_ok(es1.last(), ds, Seq::<ESQueryResultV>::empty()));
                    assert forall|t2: Seq<char>| #[trigger]
                        entries_contain(es1, t2) <==> d_contains(ds.take(i + 1), t2) by {
                        lemma_d_take_extend(ds, i as int, t2);
                        if entries_contain(es1, t2) {
                            let x = choose|x: int|
                                0 <= x < es1.len() && (#[trigger] es1[x]).res.text == t2;
                            if x < es0.len() {
                                assert(entries_contain(es0, t2));
                            }
                        }
                        if entries_contain(es0, t2) {
                            let x = choose|x: int|
                                0 <= x < es0.len() && (#[trigger] es0[x]).res.text == t2;
                            assert(es1[x].res.text == t2);
                        }
                        if ds[i as int].text == t2 {
                            assert(es1[es1.len() - 1].res.text == t2);
                        }
                    }
                }
            },
        }
        i = i + 1;
    }
    proof {
        assert(ds.take(ds.len() as int) =~= ds);
    }
    entries
}

/// Second pass: keyword hits join the working records; content already seen
/// keeps one record, whose payload switches to the keyword side only when
/// that side carries more weight.
fn fuse_keyword(
    entries: &mut Vec<FusionEntry>,
    keyword: &Vec<ESQueryResult>,
    Ghost(ds): Ghost<Seq<ChunkQueryResultV>>,
)
    requires
        ({
            let es = old(entries).deep_view();
            &&& forall|x: int, y: int|
                0 <= x < y < es.len() ==> (#[trigger] es[x]).res.text != (#[trigger] es[y]).res.text
            &&& forall|x: int|
                0 <= x < es.len() ==> fe_ok(#[trigger] es[x], ds, Seq::<ESQueryResultV>::empty())
            &&& forall|t: Seq<char>| #[trigger] entries_contain(es, t) <==> d_contains(ds, t)
        }),
    ensures
        ({
            let es = final(entries).deep_view();
            let ks = keyword.deep_view();
            &&& forall|x: int, y: int|
                0 <= x < y < es.len() ==> (#[trigger] es[x]).res.text != (#[trigger] es[y]).res.text
            &&& forall|x: int| 0 <= x < es.len() ==> fe_ok(#[trigger] es[x], ds, ks)
            &&& forall|t: Seq<char>|
                #[trigger] entries_contain(es, t) <==> (d_contains(ds, t) || k_contains(ks, t))
        }),
{
    let ghost ks = keyword.deep_view();
    proof {
        assert forall|t: Seq<char>| !k_contains(Seq::<ESQueryResultV>::empty(), t) by {}
        assert(ks.take(0) =~= Seq::<ESQueryResultV>::empty());
    }
    let mut j: usize = 0;
    while j < keyword.len()
        invariant
            0 <= j <= ks.len(),
            ks == keyword.deep_view(),
            ks.len() == keyword@.len(),
            forall|x: int, y: int|
                0 <= x < y < entries.deep_view().len() ==> (#[trigger] entries.deep_view()[x]).res.text
                    != (#[trigger] entries.deep_view()[y]).res.text,
            forall|x: int|
                0 <= x < entries.deep_view().len() ==> fe_ok(
                    #[trigger] entries.deep_view()[x],
                    ds,
                    ks.take(j as int),
                ),
            forall|t: Seq<char>|
                #[trigger] entries_contain(entries.deep_view(), t) <==> (d_contains(ds, t)
                    || k_contains(ks.take(j as int), t)),
        decreases ks.len() - j,
    {
        let ghost es0 = entries.deep_view();
        let ghost g0 = entries@;
        let h = &keyword[j];
        proof {
            assert(ks[j as int] == keyword@[j as int].deep_view());
        }
        let ghost t = ks[j as int].text;
        let kn = keyword_norm_exec(h.score);
        match find_entry(entries, &h.text) {
            Some(p) => {
                let switch_payload: bool;
                if !entries[p].has_k {
                    let e = &mut entries[p];
                    e.kn = kn;
                    e.has_k = true;
                    switch_payload = (100 - FUSION_ALPHA_PERCENT) * kn > FUSION_ALPHA_PERCENT
                        * e.dn;
                    if switch_payload {
                        e.res = keyword_payload_exec(h);
                    }
                    proof {
                        let es1 = entries.deep_view();
                        assert(es1.len() == es0.len());
                        assert forall|x: int| 0 <= x < es1.len() && x != p implies es1[x]
                            == es0[x] by {
                            assert(entries@[x] == g0[x]);
                        }
                        assert(es1[p as int].res.text == t);
                    }
                } else {
                    switch_payload = false;
                }
                proof {
                    let es1 = entries.deep_view();
                    assert(es0[p as int].res.text == t);
                    assert(!k_contains(ks.take(j as int), t) == !es0[p as int].has_k);
                    assert forall|x: int| 0 <= x < es1.len() implies fe_ok(
                        #[trigger] es1[x],
                        ds,
                        ks.take(j + 1),
                    ) by {
                        lemma_k_take_extend(ks, j as int, es1[x].res.text);
                        if x != p {
                            assert(es1[x] == es0[x]);
                            assert(es1[x].res.text != t);
                        }
                    }
                    assert forall|x: int, y: int|
                        0 <= x < y < es1.len() implies (#[trigger] es1[x]).res.text
                        != (#[trigger] es1[y]).res.text by {
                        if x != p && y != p {
                            assert(es1[x] == es0[x]);
                            assert(es1[y] == es0[y]);
                        } else if x == p {
                            assert(es1[y] == es0[y]);
                            assert(es1[p as int].res.text == es0[p as int].res.text);
                        } else {
                            assert(es1[x] == es0[x]);
                            assert(es1[p as int].res.text == es0[p as int].res.text);
                        }
                    }
                    assert forall|t2: Seq<char>| #[trigger]
                        entries_contain(es1, t2) <==> (d_contains(ds, t2) || k_contains(
                        ks.take(j + 1),
                        t2,
                    )) by {
                        lemma_k_take_extend(ks, j as int, t2);
                        if entries_contain(es1, t2) {
                            let x = choose|x: int|
                                0 <= x < es1.len() && (#[trigger] es1[x]).res.text == t2;
                            assert(es0[x].res.text == t2);
                            assert(entries_contain(es0, t2));
                        }
                        if entries_contain(es0, t2) {
                            let x = choose|x: int|
                                0 <= x < es0.len() && (#[trigger] es0[x]).res.text == t2;
                            assert(es1[x].res.text == t2);
                        }
                        if ks[j as int].text == t2 {
                            assert(es1[p as int].res.text == t2);
                        }
                    }
                }
            },
            None => {
                let res = keyword_payload_exec(h);
                entries.push(FusionEntry { res, dn: 0, kn, has_d: false, has_k: true });
                proof {
                    let es1 = entries.deep_view();
                    assert(es1 =~= es0.push(es1.last()));
                    assert(!entries_contain(es0, t));
                    assert(!d_contains(ds, t));
                    assert(!k_contains(ks.take(j as int), t));
                    lemma_k_take_extend(ks, j as int, t);
                    assert(k_contains(ks.take(j + 1), t)) by {
                        assert(ks.take(j + 1)[j as int].text == t);
                    }
                    assert(fe_ok(es1.last(), ds, ks.take(j + 1)));
                    assert forall|x: int| 0 <= x < es1.len() implies fe_ok(
                        #[trigger] es1[x],
                        ds,
                        ks.take(j + 1),
                    ) by {
                        lemma_k_take_extend(ks, j as int, es1[x].res.text);
                        if x < es0.len() {
                            assert(es1[x] == es0[x]);
                            assert(es1[x].res.text != t) by {
                                if es1[x].res.text == t {
                                    assert(entries_contain(es0, t));
                                }
                            }
                        }
                    }
                    assert forall|t2: Seq<char>| #[trigger]
                        entries_contain(es1, t2) <==> (d_contains(ds, t2) || k_contains(
                        ks.take(j + 1),
                        t2,
                    )) by {
                        lemma_k_take_extend(ks, j as int, t2);
                        if entries_contain(es1, t2) {
                            let x = choose|x: int|
                                0 <= x < es1.len() && (#[trigger] es1[x]).res.text == t2;
                            if x < es0.len() {
                                assert(entries_contain(es0, t2));
                            }
                        }
                        if entries_contain(es0, t2) {
                            let x = choose|x: int|
                                0 <= x < es0.len() && (#[trigger] es0[x]).res.text == t2;
                            assert(es1[x].res.text == t2);
                        }
                        if ks[j as int].text == t2 {
                            assert(es1[es1.len() - 1].res.text == t2);
                        }
                    }
                }
            },
        }
        j = j + 1;
    }
    proof {
        assert(ks.take(ks.len() as int) =~= ks);
    }
}

/// Performs the insert itself, exposing the sequence relation.
fn v_insert_helper(out: &mut Vec<ESQueryResult>, p: usize, rec: ESQueryResult)
    requires
        p <= old(out)@.len(),
    ensures
        final(out)@ == old(out)@.insert(p as int, rec),
        forall|a: int| 0 <= a < p ==> #[trigger] final(out)@[a] == old(out)@[a],
        final(out)@[p as int] == rec,
        forall|a: int|
            p < a < final(out)@.len() ==> #[trigger] final(out)@[a] == old(out)@[a - 1],
{
    let ghost g0 = out@;
    out.insert(p, rec);
    proof {
        g0.insert_ensures(p as int, rec);
    }
}


/// Hybrid fusion: normalizes a chunk's cosine score to `[0, 1]`, a keyword
/// score by its empirical cap, weights them `0.65 / 0.35`, keeps content
/// returned by both back-ends once with the summed weighted score, and
/// sorts descending by fused score.
pub fn merge_search_results(
    dense: &Vec<ChunkQueryResult>,
    keyword: &Vec<ESQueryResult>,
) -> (r: Vec<ESQueryResult>)
    ensures
        sorted_desc(r.deep_view()),
        forall|a: int, b: int|
            0 <= a < b < r.deep_view().len() ==> (#[trigger] r.deep_view()[a]).text
                != (#[trigger] r.deep_view()[b]).text,
        forall|a: int|
            0 <= a < r.deep_view().len() ==> #[trigger] r.deep_view()[a] == expected_entry(
                dense.deep_view(),
                keyword.deep_view(),
                r.deep_view()[a].text,
            ),
        forall|t: Seq<char>|
            #[trigger] k_contains(r.deep_view(), t) <==> (d_contains(dense.deep_view(), t)
                || k_contains(keyword.deep_view(), t)),
{
    let ghost ds = dense.deep_view();
    let ghost ks = keyword.deep_view();
    let mut entries = fuse_dense(dense);
    fuse_keyword(&mut entries, keyword, Ghost(ds));
    let ghost es = entries.deep_view();
    let mut out: Vec<ESQueryResult> = Vec::new();
    let mut x: usize = 0;
    while x < entries.len()
        invariant
            ds == dense.deep_view(),
            ks == keyword.deep_view(),
            es == entries.deep_view(),
            es.len() == entries@.len(),
            0 <= x <= es.len(),
            forall|a: int, b: int|
                0 <= a < b < es.len() ==> (#[trigger] es[a]).res.text != (#[trigger] es[b]).res.text,
            forall|a: int| 0 <= a < es.len() ==> fe_ok(#[trigger] es[a], ds, ks),
            forall|t: Seq<char>|
                #[trigger] entries_contain(es, t) <==> (d_contains(ds, t) || k_contains(ks, t)),
            sorted_desc(out.deep_view()),
            forall|a: int|
                0 <= a < out.deep_view().len() ==> #[trigger] out.deep_view()[a] == expected_entry(
                    ds,
                    ks,
                    out.deep_view()[a].text,
                ),
            forall|a: int, b: int|
                0 <= a < b < out.deep_view().len() ==> (#[trigger] out.deep_view()[a]).text
                    != (#[trigger] out.deep_view()[b]).text,
            forall|t: Seq<char>|
                #[trigger] k_contains(out.deep_view(), t) <==> entries_contain(
                    es.take(x as int),
                    t,
                ),
        decreases es.len() - x,
    {
        let e = &entries[x];
        proof {
            assert(es[x as int] == entries@[x as int].deep_view());
        }
        let score = (FUSION_ALPHA_PERCENT * e.dn + (100 - FUSION_ALPHA_PERCENT) * e.kn) / 100;
        let rec = ESQueryResult {
            text: e.res.text.clone(),
            author_id: e.res.author_id.clone(),
            channel_id: e.res.channel_id.clone(),
            timestamp: e.res.timestamp.clone(),
            guild_id: crate::schema::clone_opt_string(&e.res.guild_id),
            score,
        };
        let ghost ev = es[x as int];
        let ghost t = ev.res.text;
        proof {
            assert(fe_ok(ev, ds, ks));
            assert(0 <= fused_score(ds, ks, t) <= 1000000);
            assert(rec@ == expected_entry(ds, ks, t));
            assert(!k_contains(out.deep_view(), t)) by {
                if k_contains(out.deep_view(), t) {
                    assert(entries_contain(es.take(x as int), t));
                    let y = choose|y: int|
                        0 <= y < es.take(x as int).len() && (#[trigger] es.take(x as int)[y]).res.text
                            == t;
                    assert(es[y].res.text == t);
                    assert(es[y].res.text != es[x as int].res.text);
                }
            }
        }
        let ghost out0 = out.deep_view();
        let p = insert_result_desc(&mut out, rec);
        proof {
            let out1 = out.deep_view();
            assert forall|a: int| 0 <= a < out1.len() implies #[trigger] out1[a] == expected_entry(
                ds,
                ks,
                out1[a].text,
            ) by {
                if a != p {
                }
            }
            assert forall|a: int, b: int|
                0 <= a < b < out1.len() implies (#[trigger] out1[a]).text
                != (#[trigger] out1[b]).text by {
                let ta = out1[a].text;
                let tb = out1[b].text;
                if a == p {
                    if tb == t {
                        assert(k_contains(out0, t)) by {
                            assert(out0[b - 1].text == t);
                        }
                    }
                } else if b == p {
                    if ta == t {
                        assert(k_contains(out0, t)) by {
                            assert(out0[a].text == t);
                        }
                    }
                }
            }
            assert forall|t2: Seq<char>| #[trigger]
                k_contains(out1, t2) <==> entries_contain(es.take(x + 1), t2) by {
                if k_contains(out1, t2) {
                    let a = choose|a: int| 0 <= a < out1.len() && (#[trigger] out1[a]).text == t2;
                    if a == p {
                        assert(es.take(x + 1)[x as int].res.text == t2);
                    } else {
                        let a0 = if a < p {
                            a
                        } else {
                            a - 1
                        };
                        assert(out0[a0].text == t2);
                        assert(k_contains(out0, t2));
                        let y = choose|y: int|
                            0 <= y < es.take(x as int).len() && (#[trigger] es.take(
                                x as int,
                            )[y]).res.text == t2;
                        assert(es.take(x + 1)[y].res.text == t2);
                    }
                }
                if entries_contain(es.take(x + 1), t2) {
                    let y = choose|y: int|
                        0 <= y < es.take(x + 1).len() && (#[trigger] es.take(x + 1)[y]).res.text
                            == t2;
                    if y < x {
                        assert(es.take(x as int)[y].res.text == t2);
                        assert(k_contains(out0, t2));
                        let a = choose|a: int|
                            0 <= a < out0.len() && (#[trigger] out0[a]).text == t2;
                        if a < p {
                            assert(out1[a].text == t2);
                        } else {
                            assert(out1[a + 1].text == t2);
                        }
                    } else {
                        assert(t2 == t);
                        assert(out1[p as int].text == t2);
                    }
                }
            }
        }
        x = x + 1;
    }
    proof {
        assert(es.take(es.len() as int) =~= es);
    }
    out
}


/// Dense chunk search asks for this many nearest chunks.
pub const CHUNK_TOP_K: usize = 3;

/// The per-message fallback search asks for this many nearest messages.
pub const MESSAGE_TOP_K: usize = 5;

/// Hybrid mode asks each back-end for this many hits.
pub const HYBRID_TOP_K: usize = 5;

/// How a question is answered: with the keyword index fused in, or from the
/// vector store alone when no keyword index is available.
#[derive(Debug, PartialEq, Eq, Structural)]
pub enum SearchMode {
    Hybrid,
    DenseOnly,
}

/// Degraded-mode selection: hybrid search runs exactly when a keyword index
/// client exists.
pub fn select_search_mode(has_keyword_index: bool) -> (r: SearchMode)
    ensures
        r == (if has_keyword_index {
            SearchMode::Hybrid
        } else {
            SearchMode::DenseOnly
        }),
{
    if has_keyword_index {
        SearchMode::Hybrid
    } else {
        SearchMode::DenseOnly
    }
}

/// What follows the chunk search on the dense-only path.
#[derive(Debug, PartialEq, Eq, Structural)]
pub enum ChunkSearchOutcome {
    GenerateFromChunks,
    QueryMessages,
}

/// Empty chunk results fall back to the per-message search; anything else
/// goes straight to generation.
pub fn chunk_search_next(chunks: &Vec<ChunkQueryResult>) -> (r: ChunkSearchOutcome)
    ensures
        r == (if chunks@.len() == 0 {
            ChunkSearchOutcome::QueryMessages
        } else {
            ChunkSearchOutcome::GenerateFromChunks
        }),
{
    if chunks.len() == 0 {
        ChunkSearchOutcome::QueryMessages
    } else {
        ChunkSearchOutcome::GenerateFromChunks
    }
}

/// What follows the per-message fallback search.
#[derive(Debug, PartialEq, Eq, Structural)]
pub enum MessageSearchOutcome {
    Generate,
    FixedResponse,
}

/// Empty per-message results end in the fixed no-results reply.
pub fn message_search_next(messages: &Vec<QueryResult>) -> (r: MessageSearchOutcome)
    ensures
        r == (if messages@.len() == 0 {
            MessageSearchOutcome::FixedResponse
        } else {
            MessageSearchOutcome::Generate
        }),
{
    if messages.len() == 0 {
        MessageSearchOutcome::FixedResponse
    } else {
        MessageSearchOutcome::Generate
    }
}

/// The verbatim reply when neither chunk nor per-message search found
/// anything.
pub fn no_results_text() -> (r: String)
    ensures
        r@ == "I couldn't find any relevant messages in the history to answer your question."@,
{
    String::from_str("I couldn't find any relevant messages in the history to answer your question.")
}

/// The verbatim reply when hybrid fusion produced no results.
pub fn no_relevant_info_text() -> (r: String)
    ensures
        r@ == "I couldn't find any relevant information about that topic."@,
{
    String::from_str("I couldn't find any relevant information about that topic.")
}

/// The chunk-shaped context record a fused hit stands for: a
/// single-message context whose text doubles as its identifier.
pub open spec fn spec_fused_chunk(e: ESQueryResultV) -> ChunkQueryResultV {
    ChunkQueryResultV {
        chunk_id: e.text,
        text: e.text,
        summary: None,
        authors: seq![e.author_id],
        message_count: 1,
        first_timestamp: e.timestamp,
        last_timestamp: e.timestamp,
        score: e.score,
    }
}

/// Presents fused hits as chunk-shaped context records for generation.
pub fn fused_to_chunks(results: &Vec<ESQueryResult>) -> (r: Vec<ChunkQueryResult>)
    ensures
        r.deep_view().len() == results.deep_view().len(),
        forall|i: int|
            0 <= i < r.deep_view().len() ==> #[trigger] r.deep_view()[i] == spec_fused_chunk(
                results.deep_view()[i],
            ),
{
    let ghost kv = results.deep_view();
    let mut r: Vec<ChunkQueryResult> = Vec::new();
    let mut i: usize = 0;
    while i < results.len()
        invariant
            0 <= i <= kv.len(),
            kv == results.deep_view(),
            kv.len() == results@.len(),
            r.deep_view().len() == i,
            forall|a: int|
                0 <= a < i ==> #[trigger] r.deep_view()[a] == spec_fused_chunk(kv[a]),
        decreases kv.len() - i,
    {
        let e = &results[i];
        proof {
            assert(kv[i as int] == results@[i as int].deep_view());
        }
        let mut authors: Vec<String> = Vec::new();
        authors.push(e.author_id.clone());
        proof {
            assert(authors.deep_view() =~= seq![kv[i as int].author_id]);
        }
        let ghost r_before = r.deep_view();
        r.push(
            ChunkQueryResult {
                chunk_id: e.text.clone(),
                text: e.text.clone(),
                summary: None,
                authors,
                message_count: 1,
                first_timestamp: e.timestamp.clone(),
                last_timestamp: e.timestamp.clone(),
                score: e.score,
            },
        );
        proof {
            assert(r.deep_view() =~= r_before.push(spec_fused_chunk(kv[i as int])));
        }
        i = i + 1;
    }
    r
}

} // verus!
