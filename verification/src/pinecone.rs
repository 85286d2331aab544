use vstd::prelude::*;
use vstd::string::StringExecFns;

use crate::schema::{clone_opt_string, opt_str_view, ChunkQueryResult, ChunkQueryResultV,
    MessageChunk, MessageEvent, QueryResult, QueryResultV};

verus! {

/// A vector record upserted for a single message, keyed by the message id.
/// Embedding values travel in millionths.
#[derive(Debug)]
pub struct MessageVectorRecord {
    pub id: String,
    pub values: Vec<i64>,
    pub guild_id: Option<String>,
    pub channel_id: String,
    pub author_id: String,
    pub timestamp: String,
    pub text: String,
}

/// Builds the per-message vector record: the id is the message's own id and
/// the metadata carries the message's routing fields and text.
pub fn message_upsert_record(msg: &MessageEvent, embedding: Vec<i64>) -> (r: MessageVectorRecord)
    ensures
        r.id@ == msg@.id,
        r.values@ == embedding@,
        opt_str_view(r.guild_id) == msg@.guild_id,
        r.channel_id@ == msg@.channel_id,
        r.author_id@ == msg@.author_id,
        r.timestamp@ == msg@.timestamp,
        r.text@ == msg@.text,
{
    MessageVectorRecord {
        id: msg.id.clone(),
        values: embedding,
        guild_id: clone_opt_string(&msg.guild_id),
        channel_id: msg.channel_id.clone(),
        author_id: msg.author_id.clone(),
        timestamp: msg.timestamp.clone(),
        text: msg.text.clone(),
    }
}

/// A vector record upserted for a chunk, keyed by `chunk_` plus the chunk
/// id; the `summary` field is present exactly when the chunk has one.
#[derive(Debug)]
pub struct ChunkVectorRecord {
    pub id: String,
    pub values: Vec<i64>,
    pub chunk_id: String,
    pub guild_id: Option<String>,
    pub channel_id: String,
    pub first_msg_id: String,
    pub last_msg_id: String,
    pub first_timestamp: String,
    pub last_timestamp: String,
    pub message_count: usize,
    pub authors: Vec<String>,
    pub full_text: String,
    pub has_summary: bool,
    pub summary: Option<String>,
}

/// The vector-store key of a chunk: the `chunk_` prefix keeps chunk keys
/// apart from per-message keys.
pub fn chunk_vector_id(chunk_id: &String) -> (r: String)
    ensures
        r@ == "chunk_"@ + chunk_id@,
{
    let mut s = String::from_str("chunk_");
    s.append(chunk_id.as_str());
    s
}

/// Two chunk keys collide only when the chunk ids themselves do.
pub proof fn lemma_chunk_key_injective(a: Seq<char>, b: Seq<char>)
    requires
        "chunk_"@ + a == "chunk_"@ + b,
    ensures
        a == b,
{
    assert(a =~= ("chunk_"@ + a).skip("chunk_"@.len() as int));
    assert(b =~= ("chunk_"@ + b).skip("chunk_"@.len() as int));
}

/// Builds the chunk vector record: key `chunk_` plus the chunk id, with the
/// full metadata projection; the summary is included exactly when present.
pub fn chunk_upsert_record(chunk: &MessageChunk, embedding: Vec<i64>) -> (r: ChunkVectorRecord)
    ensures
        r.id@ == "chunk_"@ + chunk@.chunk_id,
        r.values@ == embedding@,
        r.chunk_id@ == chunk@.chunk_id,
        opt_str_view(r.guild_id) == chunk@.guild_id,
        r.channel_id@ == chunk@.channel_id,
        r.first_msg_id@ == chunk@.first_msg_id,
        r.last_msg_id@ == chunk@.last_msg_id,
        r.first_timestamp@ == chunk@.first_timestamp,
        r.last_timestamp@ == chunk@.last_timestamp,
        r.message_count == chunk@.message_count,
        r.authors.deep_view() == chunk@.authors,
        r.full_text@ == chunk@.full_text,
        r.has_summary == chunk@.has_summary,
        opt_str_view(r.summary) == chunk@.summary,
{
    let mut authors: Vec<String> = Vec::new();
    let mut i: usize = 0;
    while i < chunk.authors.len()
        invariant
            0 <= i <= chunk.authors@.len(),
            authors.deep_view() =~= chunk.authors.deep_view().take(i as int),
        decreases chunk.authors@.len() - i,
    {
        let ghost before = authors.deep_view();
        authors.push(chunk.authors[i].clone());
        proof {
            assert(authors.deep_view() =~= before.push(chunk.authors.deep_view()[i as int]));
            assert(chunk.authors.deep_view().take(i + 1) =~= chunk.authors.deep_view().take(
                i as int,
            ).push(chunk.authors.deep_view()[i as int]));
        }
        i = i + 1;
    }
    proof {
        assert(chunk.authors.deep_view().take(chunk.authors@.len() as int)
            =~= chunk.authors.deep_view());
    }
    ChunkVectorRecord {
        id: chunk_vector_id(&chunk.chunk_id),
        values: embedding,
        chunk_id: chunk.chunk_id.clone(),
        guild_id: clone_opt_string(&chunk.guild_id),
        channel_id: chunk.channel_id.clone(),
        first_msg_id: chunk.first_msg_id.clone(),
        last_msg_id: chunk.last_msg_id.clone(),
        first_timestamp: chunk.first_timestamp.clone(),
        last_timestamp: chunk.last_timestamp.clone(),
        message_count: chunk.message_count,
        authors,
        full_text: chunk.full_text.clone(),
        has_summary: chunk.has_summary,
        summary: clone_opt_string(&chunk.summary),
    }
}

/// A nearest-neighbor query against the vector store. `chunks_only` stands
/// for the `type = "chunk"` metadata filter; `guild_filter` is an equality
/// filter when present and an absent-field filter for direct messages.
#[derive(Debug)]
pub struct VectorQuery {
    pub vector: Vec<i64>,
    pub top_k: usize,
    pub include_metadata: bool,
    pub include_values: bool,
    pub chunks_only: bool,
    pub guild_filter: Option<String>,
}

/// Builds the per-message nearest-neighbor query.
pub fn build_message_query(embedding: Vec<i64>, top_k: usize, guild_id: Option<String>) -> (r:
    VectorQuery)
    ensures
        r.vector@ == embedding@,
        r.top_k == top_k,
        r.include_metadata == true,
        r.include_values == false,
        r.chunks_only == false,
        opt_str_view(r.guild_filter) == opt_str_view(guild_id),
{
    VectorQuery {
        vector: embedding,
        top_k,
        include_metadata: true,
        include_values: false,
        chunks_only: false,
        guild_filter: guild_id,
    }
}

/// Builds the chunk nearest-neighbor query, restricted to chunk records.
pub fn build_chunk_query(embedding: Vec<i64>, top_k: usize, guild_id: Option<String>) -> (r:
    VectorQuery)
    ensures
        r.vector@ == embedding@,
        r.top_k == top_k,
        r.include_metadata == true,
        r.include_values == false,
        r.chunks_only == true,
        opt_str_view(r.guild_filter) == opt_str_view(guild_id),
{
    VectorQuery {
        vector: embedding,
        top_k,
        include_metadata: true,
        include_values: false,
        chunks_only: true,
        guild_filter: guild_id,
    }
}

/// One per-message hit as the store returned it, before the required
/// metadata fields are checked. A score the response did not carry is zero.
#[derive(Debug)]
pub struct RawMessageHit {
    pub text: Option<String>,
    pub author_id: Option<String>,
    pub timestamp: Option<String>,
    pub score: i64,
}

pub ghost struct RawMessageHitV {
    pub text: Option<Seq<char>>,
    pub author_id: Option<Seq<char>>,
    pub timestamp: Option<Seq<char>>,
    pub score: i64,
}

impl View for RawMessageHit {
    type V = RawMessageHitV;

    open spec fn view(&self) -> RawMessageHitV {
        RawMessageHitV {
            text: opt_str_view(self.text),
            author_id: opt_str_view(self.author_id),
            timestamp: opt_str_view(self.timestamp),
            score: self.score,
        }
    }
}

impl DeepView for RawMessageHit {
    type V = RawMessageHitV;

    open spec fn deep_view(&self) -> RawMessageHitV {
        self.view()
    }
}

pub open spec fn message_hit_usable(h: RawMessageHitV) -> bool {
    &&& h.text is Some
    &&& h.author_id is Some
    &&& h.timestamp is Some
}

pub open spec fn message_hit_value(h: RawMessageHitV) -> QueryResultV {
    QueryResultV { text: h.text->0, author_id: h.author_id->0, timestamp: h.timestamp->0, score: h.score }
}

/// The usable per-message hits of a raw response, in response order.
pub open spec fn spec_collect_message_hits(s: Seq<RawMessageHitV>) -> Seq<QueryResultV>
    decreases s.len(),
{
    if s.len() == 0 {
        Seq::empty()
    } else {
        spec_collect_message_hits(s.drop_last()) + (if message_hit_usable(s.last()) {
            seq![message_hit_value(s.last())]
        } else {
            Seq::<QueryResultV>::empty()
        })
    }
}

/// Keeps the per-message hits whose required fields are present.
pub fn collect_message_hits(raw: &Vec<RawMessageHit>) -> (r: Vec<QueryResult>)
    ensures
        r.deep_view() == spec_collect_message_hits(raw.deep_view()),
{
    let ghost dv = raw.deep_view();
    let mut r: Vec<QueryResult> = Vec::new();
    let mut i: usize = 0;
    while i < raw.len()
        invariant
            0 <= i <= raw@.len(),
            dv == raw.deep_view(),
            dv.len() == raw@.len(),
            r.deep_view() == spec_collect_message_hits(dv.take(i as int)),
        decreases raw@.len() - i,
    {
        let ghost r_before = r.deep_view();
        let h = &raw[i];
        proof {
            assert(dv[i as int] == raw@[i as int].deep_view());
            assert(dv.take(i + 1).drop_last() =~= dv.take(i as int));
            assert(dv.take(i + 1).last() == dv[i as int]);
        }
        match (&h.text, &h.author_id, &h.timestamp) {
            (Some(t), Some(a), Some(ts)) => {
                r.push(
                    QueryResult {
                        text: t.clone(),
                        author_id: a.clone(),
                        timestamp: ts.clone(),
                        score: h.score,
                    },
                );
                proof {
                    assert(r.deep_view() =~= r_before + seq![message_hit_value(dv[i as int])]);
                    assert(r.deep_view() =~= spec_collect_message_hits(dv.take(i + 1)));
                }
            },
            _ => {
                proof {
                    assert(!message_hit_usable(dv[i as int]));
                    assert(spec_collect_message_hits(dv.take(i + 1)) =~= spec_collect_message_hits(
                        dv.take(i as int),
                    ));
                }
            },
        }
        i = i + 1;
    }
    proof {
        assert(dv.take(dv.len() as int) =~= dv);
    }
    r
}


/// One chunk hit as the store returned it, before the required metadata
/// fields are checked.
#[derive(Debug)]
pub struct RawChunkHit {
    pub chunk_id: Option<String>,
    pub full_text: Option<String>,
    pub first_timestamp: Option<String>,
    pub last_timestamp: Option<String>,
    pub message_count: Option<usize>,
    pub summary: Option<String>,
    pub authors: Vec<String>,
    pub score: i64,
}

pub ghost struct RawChunkHitV {
    pub chunk_id: Option<Seq<char>>,
    pub full_text: Option<Seq<char>>,
    pub first_timestamp: Option<Seq<char>>,
    pub last_timestamp: Option<Seq<char>>,
    pub message_count: Option<usize>,
    pub summary: Option<Seq<char>>,
    pub authors: Seq<Seq<char>>,
    pub score: i64,
}

impl View for RawChunkHit {
    type V = RawChunkHitV;

    open spec fn view(&self) -> RawChunkHitV {
        RawChunkHitV {
            chunk_id: opt_str_view(self.chunk_id),
            full_text: opt_str_view(self.full_text),
            first_timestamp: opt_str_view(self.first_timestamp),
            last_timestamp: opt_str_view(self.last_timestamp),
            message_count: self.message_count,
            summary: opt_str_view(self.summary),
            authors: self.authors.deep_view(),
            score: self.score,
        }
    }
}

impl DeepView for RawChunkHit {
    type V = RawChunkHitV;

    open spec fn deep_view(&self) -> RawChunkHitV {
        self.view()
    }
}

/// How many characters of a chunk's text are shown when it has no summary.
pub const DISPLAY_TEXT_LIMIT: usize = 500;

/// The text shown for a chunk hit: its summary when it has one, else its
/// text, shortened to the display limit with an ellipsis when longer.
pub open spec fn spec_display_text(full_text: Seq<char>, summary: Option<Seq<char>>) -> Seq<
    char,
> {
    match summary {
        Some(s) => s,
        None => if full_text.len() > DISPLAY_TEXT_LIMIT {
            full_text.take(DISPLAY_TEXT_LIMIT as int) + "..."@
        } else {
            full_text
        },
    }
}

/// Builds the display text of a chunk hit.
fn display_text(full_text: &String, summary: &Option<String>) -> (r: String)
    ensures
        r@ == spec_display_text(full_text@, opt_str_view(*summary)),
{
    match summary {
        Some(s) => s.clone(),
        None => {
            let n = full_text.as_str().unicode_len();
            if n > DISPLAY_TEXT_LIMIT {
                let head = full_text.as_str().substring_char(0, DISPLAY_TEXT_LIMIT);
                let mut r = String::from_str(head);
                r.append("...");
                proof {
                    assert(full_text@.subrange(0, DISPLAY_TEXT_LIMIT as int) =~= full_text@.take(
                        DISPLAY_TEXT_LIMIT as int,
                    ));
                }
                r
            } else {
                full_text.clone()
            }
        },
    }
}

pub open spec fn chunk_hit_usable(h: RawChunkHitV) -> bool {
    &&& h.chunk_id is Some
    &&& h.full_text is Some
    &&& h.first_timestamp is Some
    &&& h.last_timestamp is Some
    &&& h.message_count is Some
}

pub open spec fn chunk_hit_value(h: RawChunkHitV) -> ChunkQueryResultV {
    ChunkQueryResultV {
        chunk_id: h.chunk_id->0,
        text: spec_display_text(h.full_text->0, h.summary),
        summary: h.summary,
        authors: h.authors,
        message_count: h.message_count->0,
        first_timestamp: h.first_timestamp->0,
        last_timestamp: h.last_timestamp->0,
        score: h.score,
    }
}

/// The usable chunk hits of a raw response, in response order.
pub open spec fn spec_collect_chunk_hits(s: Seq<RawChunkHitV>) -> Seq<ChunkQueryResultV>
    decreases s.len(),
{
    if s.len() == 0 {
        Seq::empty()
    } else {
        spec_collect_chunk_hits(s.drop_last()) + (if chunk_hit_usable(s.last()) {
            seq![chunk_hit_value(s.last())]
        } else {
            Seq::<ChunkQueryResultV>::empty()
        })
    }
}

/// Keeps the chunk hits whose required fields are present, choosing each
/// hit's display text.
pub fn collect_chunk_hits(raw: &Vec<RawChunkHit>) -> (r: Vec<ChunkQueryResult>)
    ensures
        r.deep_view() == spec_collect_chunk_hits(raw.deep_view()),
{
    let ghost dv = raw.deep_view();
    let mut r: Vec<ChunkQueryResult> = Vec::new();
    let mut i: usize = 0;
    while i < raw.len()
        invariant
            0 <= i <= raw@.len(),
            dv == raw.deep_view(),
            dv.len() == raw@.len(),
            r.deep_view() == spec_collect_chunk_hits(dv.take(i as int)),
        decreases raw@.len() - i,
    {
        let ghost r_before = r.deep_view();
        let h = &raw[i];
        proof {
            assert(dv[i as int] == raw@[i as int].deep_view());
            assert(dv.take(i + 1).drop_last() =~= dv.take(i as int));
            assert(dv.take(i + 1).last() == dv[i as int]);
        }
        match (&h.chunk_id, &h.full_text, &h.first_timestamp, &h.last_timestamp, &h.message_count) {
            (Some(cid), Some(ft), Some(fts), Some(lts), Some(mc)) => {
                let text = display_text(ft, &h.summary);
                let mut authors: Vec<String> = Vec::new();
                let mut a: usize = 0;
                while a < h.authors.len()
                    invariant
                        0 <= a <= h.authors@.len(),
                        authors.deep_view() =~= h.authors.deep_view().take(a as int),
                    decreases h.authors@.len() - a,
                {
                    let ghost before = authors.deep_view();
                    authors.push(h.authors[a].clone());
                    proof {
                        assert(authors.deep_view() =~= before.push(
                            h.authors.deep_view()[a as int],
                        ));
                        assert(h.authors.deep_view().take(a + 1) =~= h.authors.deep_view().take(
                            a as int,
                        ).push(h.authors.deep_view()[a as int]));
                    }
                    a = a + 1;
                }
                proof {
                    assert(h.authors.deep_view().take(h.authors@.len() as int)
                        =~= h.authors.deep_view());
                }
                r.push(
                    ChunkQueryResult {
                        chunk_id: cid.clone(),
                        text,
                        summary: clone_opt_string(&h.summary),
                        authors,
                        message_count: *mc,
                        first_timestamp: fts.clone(),
                        last_timestamp: lts.clone(),
                        score: h.score,
                    },
                );
                proof {
                    assert(r.deep_view() =~= r_before + seq![chunk_hit_value(dv[i as int])]);
                    assert(r.deep_view() =~= spec_collect_chunk_hits(dv.take(i + 1)));
                }
            },
            _ => {
                proof {
                    assert(!chunk_hit_usable(dv[i as int]));
                    assert(spec_collect_chunk_hits(dv.take(i + 1)) =~= spec_collect_chunk_hits(
                        dv.take(i as int),
                    ));
                }
            },
        }
        i = i + 1;
    }
    proof {
        assert(dv.take(dv.len() as int) =~= dv);
    }
    r
}

/// Distinct ids in a store table.
pub open spec fn distinct_ids(s: Seq<(String, Vec<i64>)>) -> bool {
    forall|i: int, j: int| 0 <= i < j < s.len() ==> (#[trigger] s[i]).0@ != (#[trigger] s[j]).0@
}

/// The finite map a store table denotes.
pub open spec fn id_map_of(s: Seq<(String, Vec<i64>)>) -> Map<Seq<char>, Seq<i64>>
    decreases s.len(),
{
    if s.len() == 0 {
        Map::empty()
    } else {
        id_map_of(s.drop_last()).insert(s.last().0@, s.last().1@)
    }
}

proof fn lemma_id_map_domain(s: Seq<(String, Vec<i64>)>)
    ensures
        forall|k: Seq<char>|
            #[trigger] id_map_of(s).contains_key(k) <==> exists|i: int|
                0 <= i < s.len() && (#[trigger] s[i]).0@ == k,
    decreases s.len(),
{
    if s.len() > 0 {
        lemma_id_map_domain(s.drop_last());
        assert forall|k: Seq<char>| #[trigger]
            id_map_of(s).contains_key(k) implies exists|i: int|
            0 <= i < s.len() && (#[trigger] s[i]).0@ == k by {
            if k == s.last().0@ {
                assert(s[s.len() - 1].0@ == k);
            } else {
                assert(id_map_of(s.drop_last()).contains_key(k));
                let i = choose|i: int|
                    0 <= i < s.drop_last().len() && (#[trigger] s.drop_last()[i]).0@ == k;
                assert(s.drop_last()[i] == s[i]);
                assert(s[i].0@ == k);
            }
        }
        assert forall|k: Seq<char>|
            (exists|i: int| 0 <= i < s.len() && (#[trigger] s[i]).0@ == k) implies #[trigger]
            id_map_of(s).contains_key(k) by {
            let i = choose|i: int| 0 <= i < s.len() && (#[trigger] s[i]).0@ == k;
            if i < s.len() - 1 {
                assert(s.drop_last()[i] == s[i]);
                assert((#[trigger] s.drop_last()[i]).0@ == k);
                assert(id_map_of(s.drop_last()).contains_key(k));
            }
        }
    }
}

proof fn lemma_id_map_update(s: Seq<(String, Vec<i64>)>, i: int, e: (String, Vec<i64>))
    requires
        distinct_ids(s),
        0 <= i < s.len(),
        e.0@ == s[i].0@,
    ensures
        id_map_of(s.update(i, e)) == id_map_of(s).insert(e.0@, e.1@),
    decreases s.len(),
{
    let s2 = s.update(i, e);
    if i == s.len() - 1 {
        assert(s2.drop_last() =~= s.drop_last());
        assert(s2.last() == e);
        assert(id_map_of(s.drop_last()).insert(s.last().0@, s.last().1@).insert(e.0@, e.1@)
            =~= id_map_of(s.drop_last()).insert(e.0@, e.1@));
    } else {
        assert(distinct_ids(s.drop_last())) by {
            assert forall|a: int, b: int|
                0 <= a < b < s.drop_last().len() implies (#[trigger] s.drop_last()[a]).0@
                != (#[trigger] s.drop_last()[b]).0@ by {
                assert(s[a].0@ != s[b].0@);
            }
        }
        assert(s.drop_last()[i] == s[i]);
        lemma_id_map_update(s.drop_last(), i, e);
        assert(s2.drop_last() =~= s.drop_last().update(i, e));
        assert(s2.last() == s.last());
        assert(s[i].0@ != s.last().0@);
        assert(id_map_of(s2) == id_map_of(s.drop_last()).insert(e.0@, e.1@).insert(
            s.last().0@,
            s.last().1@,
        ));
        assert(id_map_of(s.drop_last()).insert(e.0@, e.1@).insert(s.last().0@, s.last().1@)
            =~= id_map_of(s.drop_last()).insert(s.last().0@, s.last().1@).insert(e.0@, e.1@));
    }
}

proof fn lemma_id_map_push(s: Seq<(String, Vec<i64>)>, e: (String, Vec<i64>))
    ensures
        id_map_of(s.push(e)) == id_map_of(s).insert(e.0@, e.1@),
{
    assert(s.push(e).drop_last() =~= s);
    assert(s.push(e).last() == e);
}

/// In-memory model of one namespace of the vector store: the vector each
/// key currently maps to. Upserting replaces the record under its key, so
/// re-delivering a message leaves one record with the latest values.
#[derive(Debug)]
pub struct VectorStoreModel {
    pub entries: Vec<(String, Vec<i64>)>,
}

impl VectorStoreModel {
    pub open spec fn wf(self) -> bool {
        distinct_ids(self.entries@)
    }

    pub open spec fn as_map(self) -> Map<Seq<char>, Seq<i64>> {
        id_map_of(self.entries@)
    }

    pub fn new() -> (r: VectorStoreModel)
        ensures
            r.wf(),
            r.as_map() == Map::<Seq<char>, Seq<i64>>::empty(),
            r.entries@.len() == 0,
    {
        VectorStoreModel { entries: Vec::new() }
    }

    fn find(&self, id: &String) -> (r: Option<usize>)
        ensures
            match r {
                Some(i) => i < self.entries@.len() && self.entries@[i as int].0@ == id@,
                None => forall|i: int|
                    0 <= i < self.entries@.len() ==> (#[trigger] self.entries@[i]).0@ != id@,
            },
    {
        let mut i: usize = 0;
        while i < self.entries.len()
            invariant
                0 <= i <= self.entries@.len(),
                forall|j: int| 0 <= j < i ==> (#[trigger] self.entries@[j]).0@ != id@,
            decreases self.entries@.len() - i,
        {
            if self.entries[i].0 == *id {
                return Some(i);
            }
            i = i + 1;
        }
        None
    }

    /// Inserts or replaces the record under `id`: afterwards the store maps
    /// `id` to exactly the given values, and no other key changed.
    pub fn upsert(&mut self, id: String, values: Vec<i64>)
        requires
            old(self).wf(),
        ensures
            final(self).wf(),
            final(self).as_map() == old(self).as_map().insert(id@, values@),
    {
        let ghost m0 = self.as_map();
        let ghost idv = id@;
        let ghost valv = values@;
        match self.find(&id) {
            Some(i) => {
                let ghost pre = self.entries@;
                let e = &mut self.entries[i];
                e.1 = values;
                proof {
                    assert(self.entries@ =~= pre.update(i as int, self.entries@[i as int]));
                    assert(self.entries@[i as int].0 == pre[i as int].0);
                    assert(self.entries@[i as int].1@ == valv);
                    lemma_id_map_update(pre, i as int, self.entries@[i as int]);
                    assert(self.as_map() =~= m0.insert(idv, valv));
                    assert(self.wf()) by {
                        assert forall|a: int, b: int|
                            0 <= a < b < self.entries@.len() implies (#[trigger] self.entries@[a]).0@
                            != (#[trigger] self.entries@[b]).0@ by {
                            assert(self.entries@[a].0 == pre[a].0);
                            assert(self.entries@[b].0 == pre[b].0);
                        }
                    }
                }
            },
            None => {
                let ghost pre = self.entries@;
                self.entries.push((id, values));
                proof {
                    let e = self.entries@.last();
                    assert(e.0@ == idv);
                    assert(e.1@ == valv);
                    lemma_id_map_push(pre, e);
                    assert(self.as_map() =~= m0.insert(idv, valv));
                    assert(self.wf()) by {
                        assert forall|a: int, b: int|
                            0 <= a < b < self.entries@.len() implies (#[trigger] self.entries@[a]).0@
                            != (#[trigger] self.entries@[b]).0@ by {
                            assert(self.entries@[a] == pre[a]);
                            if b < self.entries@.len() - 1 {
                                assert(self.entries@[b] == pre[b]);
                            } else {
                                assert(pre[a].0@ != idv);
                            }
                        }
                    }
                }
            },
        }
    }

    /// The number of records held.
    pub fn record_count(&self) -> (r: usize)
        ensures
            r == self.entries@.len(),
    {
        self.entries.len()
    }

    /// The values stored under `id`, if any.
    pub fn get<'a>(&'a self, id: &String) -> (r: Option<&'a Vec<i64>>)
        requires
            self.wf(),
        ensures
            match r {
                Some(v) => self.as_map().contains_key(id@) && self.as_map()[id@] == v@,
                None => !self.as_map().contains_key(id@),
            },
    {
        proof {
            lemma_id_map_domain(self.entries@);
        }
        match self.find(id) {
            Some(i) => {
                proof {
                    lemma_id_map_index(self.entries@, i as int);
                }
                Some(&self.entries[i].1)
            },
            None => None,
        }
    }
}

proof fn lemma_id_map_index(s: Seq<(String, Vec<i64>)>, i: int)
    requires
        distinct_ids(s),
        0 <= i < s.len(),
    ensures
        id_map_of(s).contains_key(s[i].0@),
        id_map_of(s)[s[i].0@] == s[i].1@,
    decreases s.len(),
{
    if i == s.len() - 1 {
    } else {
        assert(s[i].0@ != s.last().0@);
        assert(distinct_ids(s.drop_last())) by {
            assert forall|a: int, b: int|
                0 <= a < b < s.drop_last().len() implies (#[trigger] s.drop_last()[a]).0@
                != (#[trigger] s.drop_last()[b]).0@ by {
                assert(s[a].0@ != s[b].0@);
            }
        }
        assert(s.drop_last()[i] == s[i]);
        lemma_id_map_index(s.drop_last(), i);
    }
}

/// Upserting under one key twice leaves one record, holding the latest
/// values: the later upsert supersedes the earlier entirely.
pub proof fn lemma_upsert_idempotent(
    m: Map<Seq<char>, Seq<i64>>,
    id: Seq<char>,
    v1: Seq<i64>,
    v2: Seq<i64>,
)
    ensures
        m.insert(id, v1).insert(id, v2) == m.insert(id, v2),
        m.insert(id, v1).insert(id, v2)[id] == v2,
        m.insert(id, v1).insert(id, v2).dom() == m.insert(id, v2).dom(),
{
    assert(m.insert(id, v1).insert(id, v2) =~= m.insert(id, v2));
}

} // verus!
