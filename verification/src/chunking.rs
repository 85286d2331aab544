use vstd::prelude::*;
use vstd::string::StringExecFns;

use crate::ids::new_uuid_string;
use crate::schema::{clone_opt_string, MessageChunk, MessageChunkV, MessageEvent, MessageEventV};
use crate::text::{
    contains_newline, join_lines, lemma_join_push, lemma_nl_view, lemma_split_join_round_trip,
    seq_contains_str, split_lines, strictly_sorted_strings, insert_string_sorted,
    vec_contains_string,
};
use crate::time::{parse_rfc3339_millis, rfc3339_epoch_millis};

verus! {

/// A buffer never grows beyond this many messages, and a chunk never holds
/// more.
pub const MAX_CHUNK_SIZE: usize = 12;

/// A chunk emitted by the ordinary flush policy holds at least this many
/// messages; only an explicit drain may emit fewer.
pub const MIN_CHUNK_SIZE: usize = 3;

/// A silence longer than this between consecutive messages ends the
/// conversation window.
pub const TIME_GAP_MILLIS: i64 = 15 * 60 * 1000;

/// A chunk whose joined text is longer than this is routed through
/// summarization before embedding.
pub const SUMMARY_THRESHOLD_CHARS: usize = 2000;

/// Ordered messages of one channel that have not yet been emitted as a
/// chunk, together with the parsed timestamp of the latest addition.
/// `last_message_time` is zero (the epoch) until a message with a parseable
/// timestamp arrives.
#[derive(Debug)]
pub struct MessageBuffer {
    pub messages: Vec<MessageEvent>,
    pub last_message_time: i64,
}

pub ghost struct MessageBufferV {
    pub messages: Seq<MessageEventV>,
    pub last_message_time: i64,
}

impl View for MessageBuffer {
    type V = MessageBufferV;

    open spec fn view(&self) -> MessageBufferV {
        MessageBufferV { messages: self.messages.deep_view(), last_message_time: self.last_message_time }
    }
}

/// The line a message contributes to a chunk's `full_text`.
pub open spec fn spec_line(m: MessageEventV) -> Seq<char> {
    m.author_id + ": "@ + m.text
}

/// The lines of the given messages, in order.
pub open spec fn lines_of(ms: Seq<MessageEventV>) -> Seq<Seq<char>> {
    ms.map_values(|m: MessageEventV| spec_line(m))
}

/// The text of a chunk built from the given messages: one line per message,
/// in insertion order, joined with single newlines.
pub open spec fn spec_full_text(ms: Seq<MessageEventV>) -> Seq<char> {
    join_lines(lines_of(ms))
}

/// Some message among `ms` was written by `a`.
pub open spec fn spec_has_author(ms: Seq<MessageEventV>, a: Seq<char>) -> bool {
    exists|k: int| 0 <= k < ms.len() && ms[k].author_id == a
}

/// What an emitted chunk says about the messages it was built from. The
/// chunk id is a fresh UUID, so only its length is determined.
pub open spec fn chunk_matches(c: MessageChunkV, ms: Seq<MessageEventV>) -> bool {
    &&& ms.len() >= 1
    &&& c.guild_id == ms[0].guild_id
    &&& c.channel_id == ms[0].channel_id
    &&& c.first_msg_id == ms[0].id
    &&& c.last_msg_id == ms[ms.len() - 1].id
    &&& c.first_timestamp == ms[0].timestamp
    &&& c.last_timestamp == ms[ms.len() - 1].timestamp
    &&& c.message_count == ms.len()
    &&& strictly_sorted_strings(c.authors)
    &&& forall|a: Seq<char>| seq_contains_str(c.authors, a) <==> spec_has_author(ms, a)
    &&& c.full_text == spec_full_text(ms)
    &&& c.summary is None
    &&& c.has_summary == false
    &&& c.chunk_id.len() == 36
}

/// The distinct authors of the given messages, in strictly increasing
/// lexicographic order.
fn collect_sorted_authors(messages: &Vec<MessageEvent>) -> (r: Vec<String>)
    ensures
        strictly_sorted_strings(r.deep_view()),
        forall|a: Seq<char>|
            seq_contains_str(r.deep_view(), a) <==> spec_has_author(messages.deep_view(), a),
{
    let ghost dv = messages.deep_view();
    let mut r: Vec<String> = Vec::new();
    let mut i: usize = 0;
    while i < messages.len()
        invariant
            0 <= i <= messages@.len(),
            dv == messages.deep_view(),
            dv.len() == messages@.len(),
            strictly_sorted_strings(r.deep_view()),
            forall|a: Seq<char>|
                seq_contains_str(r.deep_view(), a) <==> spec_has_author(dv.take(i as int), a),
        decreases messages@.len() - i,
    {
        let ghost r_before = r.deep_view();
        let author = &messages[i].author_id;
        proof {
            assert(dv[i as int] == messages@[i as int].deep_view());
        }
        if !vec_contains_string(&r, author) {
            insert_string_sorted(&mut r, author.clone());
        }
        proof {
            assert forall|a: Seq<char>|
                spec_has_author(dv.take(i + 1), a) <==> (spec_has_author(dv.take(i as int), a)
                    || dv[i as int].author_id == a) by {
                if spec_has_author(dv.take(i + 1), a) {
                    let k = choose|k: int|
                        0 <= k < dv.take(i + 1).len() && (#[trigger] dv.take(i + 1)[k]).author_id
                            == a;
                    if k < i {
                        assert(dv.take(i as int)[k].author_id == a);
                    }
                }
                if spec_has_author(dv.take(i as int), a) {
                    let k = choose|k: int|
                        0 <= k < dv.take(i as int).len() && (#[trigger] dv.take(
                            i as int,
                        )[k]).author_id == a;
                    assert(dv.take(i + 1)[k].author_id == a);
                }
                if dv[i as int].author_id == a {
                    assert(dv.take(i + 1)[i as int].author_id == a);
                }
            }
        }
        i = i + 1;
    }
    proof {
        assert(dv.take(dv.len() as int) =~= dv);
    }
    r
}

/// Builds the `full_text` of a chunk: `"{author_id}: {text}"` per message,
/// joined with newlines, in insertion order.
fn build_full_text(messages: &Vec<MessageEvent>) -> (r: String)
    ensures
        r@ == spec_full_text(messages.deep_view()),
{
    let ghost dv = messages.deep_view();
    let mut s = String::new();
    let mut i: usize = 0;
    while i < messages.len()
        invariant
            0 <= i <= messages@.len(),
            dv == messages.deep_view(),
            dv.len() == messages@.len(),
            s@ == spec_full_text(dv.take(i as int)),
        decreases messages@.len() - i,
    {
        let ghost s_before = s@;
        if i > 0 {
            s.append("\n");
        }
        s.append(messages[i].author_id.as_str());
        s.append(": ");
        s.append(messages[i].text.as_str());
        proof {
            lemma_nl_view();
            assert(dv[i as int] == messages@[i as int].deep_view());
            assert(lines_of(dv.take(i + 1)) =~= lines_of(dv.take(i as int)).push(
                spec_line(dv[i as int]),
            ));
            lemma_join_push(lines_of(dv.take(i as int)), spec_line(dv[i as int]));
            if i == 0 {
                assert(s@ =~= spec_line(dv[0int]));
            } else {
                assert(s@ =~= s_before + seq!['\n'] + spec_line(dv[i as int]));
            }
            assert(s@ =~= spec_full_text(dv.take(i + 1)));
        }
        i = i + 1;
    }
    proof {
        assert(dv.take(dv.len() as int) =~= dv);
    }
    s
}

/// Key of a per-channel buffer: the guild (absent for direct messages) and
/// the channel. Guild and direct-message keyspaces are disjoint by
/// construction.
#[derive(Debug)]
pub struct BufferKey {
    pub guild_id: Option<String>,
    pub channel_id: String,
}

pub ghost struct BufferKeyV {
    pub guild_id: Option<Seq<char>>,
    pub channel_id: Seq<char>,
}

impl View for BufferKey {
    type V = BufferKeyV;

    open spec fn view(&self) -> BufferKeyV {
        BufferKeyV {
            guild_id: crate::schema::opt_str_view(self.guild_id),
            channel_id: self.channel_id@,
        }
    }
}

/// The buffer a message is routed to.
pub open spec fn spec_buffer_key(m: MessageEventV) -> BufferKeyV {
    BufferKeyV { guild_id: m.guild_id, channel_id: m.channel_id }
}

pub fn buffer_key_of(message: &MessageEvent) -> (k: BufferKey)
    ensures
        k@ == spec_buffer_key(message@),
{
    BufferKey {
        guild_id: clone_opt_string(&message.guild_id),
        channel_id: message.channel_id.clone(),
    }
}

fn key_eq(a: &BufferKey, b: &BufferKey) -> (r: bool)
    ensures
        r == (a@ == b@),
{
    let g_eq = match (&a.guild_id, &b.guild_id) {
        (Some(x), Some(y)) => *x == *y,
        (None, None) => true,
        _ => false,
    };
    if !g_eq {
        return false;
    }
    a.channel_id == b.channel_id
}

/// The arriving message lies more than `TIME_GAP_MILLIS` after the latest
/// buffered one.
pub open spec fn gap_exceeded(last_message_time: i64, new_message_time: i64) -> bool {
    new_message_time - last_message_time > TIME_GAP_MILLIS
}

/// The flush decision taken before an arriving message with parsed time
/// `new_message_time` is appended: an empty buffer never flushes, a full one
/// always does, and otherwise a long silence does.
pub open spec fn spec_should_flush(buf: MessageBufferV, new_message_time: i64) -> bool {
    &&& buf.messages.len() > 0
    &&& {
        ||| buf.messages.len() >= MAX_CHUNK_SIZE
        ||| gap_exceeded(buf.last_message_time, new_message_time)
    }
}

impl MessageBuffer {
    pub fn new() -> (r: MessageBuffer)
        ensures
            r@.messages == Seq::<MessageEventV>::empty(),
            r@.last_message_time == 0,
    {
        MessageBuffer { messages: Vec::new(), last_message_time: 0 }
    }

    pub fn is_empty(&self) -> (r: bool)
        ensures
            r == (self@.messages.len() == 0),
    {
        self.messages.len() == 0
    }

    pub fn len(&self) -> (r: usize)
        ensures
            r == self@.messages.len(),
    {
        self.messages.len()
    }

    pub fn should_flush(&self, new_message_time: i64) -> (r: bool)
        ensures
            r == spec_should_flush(self@, new_message_time),
    {
        if self.messages.len() == 0 {
            return false;
        }
        if self.messages.len() >= MAX_CHUNK_SIZE {
            return true;
        }
        (new_message_time as i128) - (self.last_message_time as i128) > TIME_GAP_MILLIS as i128
    }

    /// Emits the buffered messages as a chunk unconditionally and clears the
    /// buffer; the buffer clock is left as it was. This is the explicit
    /// drain path, which ignores `MIN_CHUNK_SIZE`.
    pub fn build_chunk(&mut self) -> (r: MessageChunk)
        requires
            old(self)@.messages.len() >= 1,
        ensures
            chunk_matches(r@, old(self)@.messages),
            final(self)@.messages == Seq::<MessageEventV>::empty(),
            final(self)@.last_message_time == old(self)@.last_message_time,
    {
        let ghost dv = self@.messages;
        let chunk_id = new_uuid_string();
        let guild_id = clone_opt_string(&self.messages[0].guild_id);
        let channel_id = self.messages[0].channel_id.clone();
        let first_msg_id = self.messages[0].id.clone();
        let last_idx = self.messages.len() - 1;
        let last_msg_id = self.messages[last_idx].id.clone();
        let first_timestamp = self.messages[0].timestamp.clone();
        let last_timestamp = self.messages[last_idx].timestamp.clone();
        let message_count = self.messages.len();
        let authors = collect_sorted_authors(&self.messages);
        let full_text = build_full_text(&self.messages);
        self.messages.clear();
        let chunk = MessageChunk {
            chunk_id,
            guild_id,
            channel_id,
            first_msg_id,
            last_msg_id,
            first_timestamp,
            last_timestamp,
            message_count,
            authors,
            full_text,
            summary: None,
            has_summary: false,
        };
        proof {
            assert(self@.messages =~= Seq::<MessageEventV>::empty());
        }
        chunk
    }

    /// Emits a chunk by the ordinary flush policy: only a buffer holding at
    /// least `MIN_CHUNK_SIZE` messages emits; a smaller one is left intact.
    pub fn create_chunk(&mut self) -> (r: Option<MessageChunk>)
        ensures
            (r is Some) == (old(self)@.messages.len() >= MIN_CHUNK_SIZE),
            r is None ==> final(self)@ == old(self)@,
            r matches Some(c) ==> {
                &&& chunk_matches(c@, old(self)@.messages)
                &&& final(self)@.messages == Seq::<MessageEventV>::empty()
                &&& final(self)@.last_message_time == old(self)@.last_message_time
            },
    {
        if self.messages.len() < MIN_CHUNK_SIZE {
            return None;
        }
        Some(self.build_chunk())
    }

    /// Appends the message; the buffer clock advances only when the
    /// message's timestamp parsed.
    pub fn add_message(&mut self, message: MessageEvent, parsed_time: Option<i64>)
        requires
            parsed_time == rfc3339_epoch_millis(message.timestamp@),
        ensures
            final(self)@.messages == old(self)@.messages.push(message@),
            final(self)@.last_message_time == (match parsed_time {
                Some(t) => t,
                None => old(self)@.last_message_time,
            }),
    {
        if let Some(t) = parsed_time {
            self.last_message_time = t;
        }
        self.messages.push(message);
    }
}

/// The empty buffer a key starts from.
pub open spec fn empty_buffer_v() -> MessageBufferV {
    MessageBufferV { messages: Seq::empty(), last_message_time: 0 }
}

/// The flush decision taken before the arriving message is appended, with
/// `t` its parsed timestamp where it has one: an unparseable timestamp
/// cannot witness a gap, but a full buffer still flushes.
pub open spec fn flush_before_fires(b: MessageBufferV, t: Option<i64>) -> bool {
    &&& b.messages.len() > 0
    &&& {
        ||| b.messages.len() >= MAX_CHUNK_SIZE
        ||| match t {
            Some(tv) => gap_exceeded(b.last_message_time, tv),
            None => false,
        }
    }
}

/// The flush before the append emits a chunk: the policy fired and the
/// buffer reaches the minimum size.
pub open spec fn emits_before(b: MessageBufferV, t: Option<i64>) -> bool {
    flush_before_fires(b, t) && b.messages.len() >= MIN_CHUNK_SIZE
}

/// The append itself fills the buffer to the maximum, emitting right away.
pub open spec fn emits_after(b: MessageBufferV, t: Option<i64>) -> bool {
    !emits_before(b, t) && b.messages.len() + 1 >= MAX_CHUNK_SIZE
}

/// The buffer's clock after the append.
pub open spec fn clock_after(b: MessageBufferV, t: Option<i64>) -> i64 {
    match t {
        Some(tv) => tv,
        None => b.last_message_time,
    }
}

/// The buffer left behind once one message has been processed against it.
pub open spec fn spec_buffer_after(b: MessageBufferV, m: MessageEventV, t: Option<i64>) -> MessageBufferV {
    if emits_before(b, t) {
        MessageBufferV { messages: seq![m], last_message_time: clock_after(b, t) }
    } else if emits_after(b, t) {
        MessageBufferV { messages: Seq::empty(), last_message_time: clock_after(b, t) }
    } else {
        MessageBufferV { messages: b.messages.push(m), last_message_time: clock_after(b, t) }
    }
}

/// What an emitted chunk and the member messages it stands for satisfy: the
/// chunk describes exactly those members, and every member carries the
/// chunk's own channel and guild.
pub open spec fn chunk_emitted_ok(c: MessageChunkV, ms: Seq<MessageEventV>) -> bool {
    &&& chunk_matches(c, ms)
    &&& forall|j: int|
        0 <= j < ms.len() ==> (#[trigger] ms[j]).guild_id == c.guild_id && ms[j].channel_id
            == c.channel_id
}

/// A buffer entry is consistent with its key and bounded in size.
pub open spec fn entry_ok(k: BufferKeyV, b: MessageBufferV) -> bool {
    &&& b.messages.len() <= MAX_CHUNK_SIZE
    &&& forall|j: int|
        0 <= j < b.messages.len() ==> (#[trigger] b.messages[j]).guild_id == k.guild_id
            && b.messages[j].channel_id == k.channel_id
}

/// Pairwise distinct buffer keys.
pub open spec fn distinct_keys(s: Seq<(BufferKey, MessageBuffer)>) -> bool {
    forall|i: int, j: int|
        0 <= i < j < s.len() ==> (#[trigger] s[i]).0@ != (#[trigger] s[j]).0@
}

/// The finite map a buffer table denotes.
pub open spec fn kv_map_of(s: Seq<(BufferKey, MessageBuffer)>) -> Map<BufferKeyV, MessageBufferV>
    decreases s.len(),
{
    if s.len() == 0 {
        Map::empty()
    } else {
        kv_map_of(s.drop_last()).insert(s.last().0@, s.last().1@)
    }
}

pub proof fn lemma_kv_map_domain(s: Seq<(BufferKey, MessageBuffer)>)
    ensures
        forall|k: BufferKeyV|
            #[trigger] kv_map_of(s).contains_key(k) <==> exists|i: int|
                0 <= i < s.len() && (#[trigger] s[i]).0@ == k,
    decreases s.len(),
{
    if s.len() > 0 {
        lemma_kv_map_domain(s.drop_last());
        assert forall|k: BufferKeyV| #[trigger]
            kv_map_of(s).contains_key(k) implies exists|i: int|
            0 <= i < s.len() && (#[trigger] s[i]).0@ == k by {
            if k == s.last().0@ {
                assert(s[s.len() - 1].0@ == k);
            } else {
                assert(kv_map_of(s.drop_last()).contains_key(k));
                let i = choose|i: int| 0 <= i < s.drop_last().len() && (#[trigger] s.drop_last()[i]).0@ == k;
                assert(s.drop_last()[i] == s[i]);
                assert(s[i].0@ == k);
            }
        }
        assert forall|k: BufferKeyV|
            (exists|i: int| 0 <= i < s.len() && (#[trigger] s[i]).0@ == k) implies #[trigger]
            kv_map_of(s).contains_key(k) by {
            let i = choose|i: int| 0 <= i < s.len() && (#[trigger] s[i]).0@ == k;
            if i < s.len() - 1 {
                assert(s.drop_last()[i] == s[i]);
                assert((#[trigger] s.drop_last()[i]).0@ == k);
                assert(kv_map_of(s.drop_last()).contains_key(k));
            }
        }
    }
}

pub proof fn lemma_kv_map_index(s: Seq<(BufferKey, MessageBuffer)>, i: int)
    requires
        distinct_keys(s),
        0 <= i < s.len(),
    ensures
        kv_map_of(s).contains_key(s[i].0@),
        kv_map_of(s)[s[i].0@] == s[i].1@,
    decreases s.len(),
{
    if i == s.len() - 1 {
    } else {
        assert(s[i].0@ != s.last().0@);
        assert(distinct_keys(s.drop_last())) by {
            assert forall|a: int, b: int|
                0 <= a < b < s.drop_last().len() implies (#[trigger] s.drop_last()[a]).0@
                != (#[trigger] s.drop_last()[b]).0@ by {
                assert(s[a].0@ != s[b].0@);
            }
        }
        assert(s.drop_last()[i] == s[i]);
        lemma_kv_map_index(s.drop_last(), i);
    }
}

pub proof fn lemma_kv_map_update(s: Seq<(BufferKey, MessageBuffer)>, i: int, e: (BufferKey, MessageBuffer))
    requires
        distinct_keys(s),
        0 <= i < s.len(),
        e.0@ == s[i].0@,
    ensures
        kv_map_of(s.update(i, e)) == kv_map_of(s).insert(e.0@, e.1@),
    decreases s.len(),
{
    let s2 = s.update(i, e);
    if i == s.len() - 1 {
        assert(s2.drop_last() =~= s.drop_last());
        assert(s2.last() == e);
        assert(kv_map_of(s2) == kv_map_of(s.drop_last()).insert(e.0@, e.1@));
        assert(kv_map_of(s.drop_last()).insert(s.last().0@, s.last().1@).insert(e.0@, e.1@)
            =~= kv_map_of(s.drop_last()).insert(e.0@, e.1@));
    } else {
        assert(distinct_keys(s.drop_last())) by {
            assert forall|a: int, b: int|
                0 <= a < b < s.drop_last().len() implies (#[trigger] s.drop_last()[a]).0@
                != (#[trigger] s.drop_last()[b]).0@ by {
                assert(s[a].0@ != s[b].0@);
            }
        }
        assert(s.drop_last()[i] == s[i]);
        lemma_kv_map_update(s.drop_last(), i, e);
        assert(s2.drop_last() =~= s.drop_last().update(i, e));
        assert(s2.last() == s.last());
        assert(s[i].0@ != s.last().0@);
        assert(kv_map_of(s2) == kv_map_of(s.drop_last()).insert(e.0@, e.1@).insert(
            s.last().0@,
            s.last().1@,
        ));
        assert(kv_map_of(s.drop_last()).insert(e.0@, e.1@).insert(s.last().0@, s.last().1@)
            =~= kv_map_of(s.drop_last()).insert(s.last().0@, s.last().1@).insert(e.0@, e.1@));
    }
}

pub proof fn lemma_kv_map_push(s: Seq<(BufferKey, MessageBuffer)>, e: (BufferKey, MessageBuffer))
    ensures
        kv_map_of(s.push(e)) == kv_map_of(s).insert(e.0@, e.1@),
{
    assert(s.push(e).drop_last() =~= s);
    assert(s.push(e).last() == e);
}

/// The per-channel buffer table. Buffers are created lazily on first
/// message and cleared, never removed, on emission.
pub struct ChunkManager {
    pub buffers: Vec<(BufferKey, MessageBuffer)>,
}

impl ChunkManager {
    /// The table is well formed: keys are pairwise distinct, every buffered
    /// message carries its buffer's guild and channel, and no buffer exceeds
    /// `MAX_CHUNK_SIZE`.
    pub open spec fn wf(self) -> bool {
        &&& distinct_keys(self.buffers@)
        &&& forall|i: int|
            0 <= i < self.buffers@.len() ==> entry_ok(
                (#[trigger] self.buffers@[i]).0@,
                self.buffers@[i].1@,
            )
    }

    /// The buffer table as a map from key to buffer contents.
    pub open spec fn as_map(self) -> Map<BufferKeyV, MessageBufferV> {
        kv_map_of(self.buffers@)
    }

    /// The buffer a key holds, or the empty buffer before its first message.
    pub open spec fn buffer_at(self, k: BufferKeyV) -> MessageBufferV {
        if self.as_map().contains_key(k) {
            self.as_map()[k]
        } else {
            empty_buffer_v()
        }
    }

    pub fn new() -> (r: ChunkManager)
        ensures
            r.wf(),
            r.as_map() == Map::<BufferKeyV, MessageBufferV>::empty(),
            r.buffers@.len() == 0,
    {
        ChunkManager { buffers: Vec::new() }
    }

    /// The index of the buffer for `k`, if one exists.
    fn find_buffer(&self, k: &BufferKey) -> (r: Option<usize>)
        ensures
            match r {
                Some(i) => i < self.buffers@.len() && self.buffers@[i as int].0@ == k@,
                None => forall|i: int|
                    0 <= i < self.buffers@.len() ==> (#[trigger] self.buffers@[i]).0@ != k@,
            },
    {
        let mut i: usize = 0;
        while i < self.buffers.len()
            invariant
                0 <= i <= self.buffers@.len(),
                forall|j: int| 0 <= j < i ==> (#[trigger] self.buffers@[j]).0@ != k@,
            decreases self.buffers@.len() - i,
        {
            if key_eq(&self.buffers[i].0, k) {
                return Some(i);
            }
            i = i + 1;
        }
        None
    }

    /// Processes one arriving message: decides a flush before appending,
    /// appends the message, then flushes again if the append filled the
    /// buffer. Returns the chunks emitted, oldest first. Only the arriving
    /// message's own buffer is touched; every other buffer is untouched.
    pub fn process_message(&mut self, message: MessageEvent) -> (r: Vec<MessageChunk>)
        requires
            old(self).wf(),
        ensures
            final(self).wf(),
            final(self).as_map() == old(self).as_map().insert(
                spec_buffer_key(message@),
                spec_buffer_after(
                    old(self).buffer_at(spec_buffer_key(message@)),
                    message@,
                    rfc3339_epoch_millis(message.timestamp@),
                ),
            ),
            forall|k2: BufferKeyV|
                k2 != spec_buffer_key(message@) ==> #[trigger] final(self).buffer_at(k2) == old(
                    self,
                ).buffer_at(k2),
            ({
                let b0 = old(self).buffer_at(spec_buffer_key(message@));
                let t = rfc3339_epoch_millis(message.timestamp@);
                if emits_before(b0, t) {
                    r@.len() == 1 && chunk_emitted_ok(r@[0]@, b0.messages)
                } else if emits_after(b0, t) {
                    r@.len() == 1 && chunk_emitted_ok(r@[0]@, b0.messages.push(message@))
                } else {
                    r@.len() == 0
                }
            }),
            forall|i: int|
                0 <= i < r@.len() ==> MIN_CHUNK_SIZE <= (#[trigger] r@[i])@.message_count
                    <= MAX_CHUNK_SIZE,
    {
        let ghost k = spec_buffer_key(message@);
        let ghost m0 = self.as_map();
        let t = parse_rfc3339_millis(message.timestamp.as_str());
        let key = buffer_key_of(&message);
        let ghost keyv = key@;
        let mut r: Vec<MessageChunk> = Vec::new();

        let idx: usize;
        match self.find_buffer(&key) {
            Some(i) => {
                idx = i;
                proof {
                    lemma_kv_map_index(self.buffers@, i as int);
                }
            },
            None => {
                idx = self.buffers.len();
                proof {
                    lemma_kv_map_domain(self.buffers@);
                }
                let ghost pre0 = self.buffers@;
                self.buffers.push((key, MessageBuffer::new()));
                proof {
                    let e = self.buffers@.last();
                    assert(e.0@ == k);
                    assert(e.1@ == empty_buffer_v());
                    lemma_kv_map_push(pre0, e);
                    assert(self.wf()) by {
                        assert forall|a: int, b: int|
                            0 <= a < b < self.buffers@.len() implies (#[trigger] self.buffers@[a]).0@
                            != (#[trigger] self.buffers@[b]).0@ by {
                            assert(self.buffers@[a] == pre0[a]);
                            if b < self.buffers@.len() - 1 {
                                assert(self.buffers@[b] == pre0[b]);
                            } else {
                                assert(pre0[a].0@ != k);
                            }
                        }
                        assert forall|a: int| 0 <= a < self.buffers@.len() implies entry_ok(
                            (#[trigger] self.buffers@[a]).0@,
                            self.buffers@[a].1@,
                        ) by {
                            if a < self.buffers@.len() - 1 {
                                assert(self.buffers@[a] == pre0[a]);
                            } else {
                                assert(self.buffers@[a].1@ == empty_buffer_v());
                            }
                        }
                    }
                }
            },
        }
        let ghost b0 = old(self).buffer_at(k);
        let ghost pre1 = self.buffers@;
        proof {
            assert(pre1[idx as int].0@ == k);
            assert(pre1[idx as int].1@ == b0);
            assert(self.wf());
            assert(self.as_map() =~= m0.insert(k, b0));
        }
        let buf = &mut self.buffers[idx].1;
        let flush_now = match t {
            Some(tv) => buf.should_flush(tv),
            None => buf.len() >= MAX_CHUNK_SIZE,
        };
        proof {
            assert(flush_now == flush_before_fires(b0, rfc3339_epoch_millis(message.timestamp@)));
        }
        if flush_now {
            if let Some(c) = buf.create_chunk() {
                r.push(c);
            }
        }
        buf.add_message(message, t);
        if buf.len() >= MAX_CHUNK_SIZE {
            if let Some(c) = buf.create_chunk() {
                r.push(c);
            }
        }
        proof {
            let tg = rfc3339_epoch_millis(message.timestamp@);
            let after = spec_buffer_after(b0, message@, tg);
            assert(message@.guild_id == k.guild_id && message@.channel_id == k.channel_id);
            if emits_before(b0, tg) {
                assert(Seq::<MessageEventV>::empty().push(message@) =~= seq![message@]);
                assert(self.buffers@[idx as int].1@ == after);
                assert(r@.len() == 1 && chunk_matches(r@[0]@, b0.messages));
                assert forall|j: int| 0 <= j < b0.messages.len() implies (#[trigger] b0.messages[j]).guild_id
                    == r@[0]@.guild_id && b0.messages[j].channel_id == r@[0]@.channel_id by {
                    assert(b0.messages[j].guild_id == k.guild_id);
                    assert(b0.messages[0].guild_id == k.guild_id);
                }
            } else if emits_after(b0, tg) {
                assert(b0.messages.len() < MAX_CHUNK_SIZE);
                assert(self.buffers@[idx as int].1@ == after);
                assert(r@.len() == 1 && chunk_matches(r@[0]@, b0.messages.push(message@)));
                let ms = b0.messages.push(message@);
                assert forall|j: int| 0 <= j < ms.len() implies (#[trigger] ms[j]).guild_id
                    == r@[0]@.guild_id && ms[j].channel_id == r@[0]@.channel_id by {
                    if j < b0.messages.len() {
                        assert(b0.messages[j].guild_id == k.guild_id);
                    }
                    assert(ms[0].guild_id == k.guild_id);
                }
            } else {
                assert(self.buffers@[idx as int].1@ == after);
                assert(r@.len() == 0);
            }
            assert(self.buffers@ =~= pre1.update(idx as int, self.buffers@[idx as int]));
            lemma_kv_map_update(pre1, idx as int, self.buffers@[idx as int]);
            assert(self.as_map() =~= m0.insert(k, after));
            assert(entry_ok(k, after)) by {
                if emits_before(b0, tg) {
                } else if emits_after(b0, tg) {
                } else {
                    assert forall|j: int| 0 <= j < after.messages.len() implies (#[trigger] after.messages[j]).guild_id
                        == k.guild_id && after.messages[j].channel_id == k.channel_id by {
                        if j < b0.messages.len() {
                            assert(b0.messages[j].guild_id == k.guild_id);
                        }
                    }
                }
            }
            assert(self.wf()) by {
                assert forall|i: int| 0 <= i < self.buffers@.len() implies entry_ok(
                    (#[trigger] self.buffers@[i]).0@,
                    self.buffers@[i].1@,
                ) by {
                    if i != idx {
                        assert(self.buffers@[i] == pre1[i]);
                    } else {
                        assert(self.buffers@[i].0@ == k);
                    }
                }
                assert forall|i: int, j: int|
                    0 <= i < j < self.buffers@.len() implies (#[trigger] self.buffers@[i]).0@
                    != (#[trigger] self.buffers@[j]).0@ by {
                    assert(self.buffers@[i].0 == pre1[i].0);
                    assert(self.buffers@[j].0 == pre1[j].0);
                }
            }
        }
        r
    }

    /// Drains every buffer: each non-empty buffer emits a chunk regardless
    /// of `MIN_CHUNK_SIZE` (used on graceful shutdown). Chunks come out in
    /// table order; every buffer is left empty with its clock intact.
    pub fn flush_all_buffers(&mut self) -> (r: Vec<MessageChunk>)
        requires
            old(self).wf(),
        ensures
            final(self).wf(),
            final(self).buffers@.len() == old(self).buffers@.len(),
            forall|i: int|
                0 <= i < old(self).buffers@.len() ==> {
                    &&& (#[trigger] final(self).buffers@[i]).0 == old(self).buffers@[i].0
                    &&& final(self).buffers@[i].1@.messages.len() == 0
                    &&& final(self).buffers@[i].1@.last_message_time
                        == old(self).buffers@[i].1@.last_message_time
                },
            r@.len() == drained_sources(old(self).buffers@).len(),
            forall|j: int|
                0 <= j < r@.len() ==> chunk_emitted_ok(
                    (#[trigger] r@[j])@,
                    drained_sources(old(self).buffers@)[j],
                ) && 1 <= r@[j]@.message_count <= MAX_CHUNK_SIZE,
    {
        let ghost s0 = old(self).buffers@;
        let mut r: Vec<MessageChunk> = Vec::new();
        let mut i: usize = 0;
        while i < self.buffers.len()
            invariant
                0 <= i <= s0.len(),
                s0 == old(self).buffers@,
                self.buffers@.len() == s0.len(),
                old(self).wf(),
                forall|j: int| i <= j < s0.len() ==> #[trigger] self.buffers@[j] == s0[j],
                forall|j: int|
                    0 <= j < i ==> (#[trigger] self.buffers@[j]).0 == s0[j].0
                        && self.buffers@[j].1@.messages.len() == 0
                        && self.buffers@[j].1@.last_message_time == s0[j].1@.last_message_time,
                r@.len() == drained_sources(s0.take(i as int)).len(),
                forall|j: int|
                    0 <= j < r@.len() ==> chunk_emitted_ok(
                        (#[trigger] r@[j])@,
                        drained_sources(s0.take(i as int))[j],
                    ) && 1 <= r@[j]@.message_count <= MAX_CHUNK_SIZE,
            decreases s0.len() - i,
        {
            proof {
                assert(s0.take(i + 1).drop_last() =~= s0.take(i as int));
                assert(s0.take(i + 1).last() == s0[i as int]);
                assert(s0[i as int] == (#[trigger] old(self).buffers@[i as int]));
                assert(entry_ok(s0[i as int].0@, s0[i as int].1@));
            }
            if self.buffers[i].1.len() > 0 {
                let c = {
                    let buf = &mut self.buffers[i].1;
                    buf.build_chunk()
                };
                proof {
                    let ms = s0[i as int].1@.messages;
                    let kv = s0[i as int].0@;
                    assert(chunk_matches(c@, ms));
                    assert forall|j: int| 0 <= j < ms.len() implies (#[trigger] ms[j]).guild_id
                        == c@.guild_id && ms[j].channel_id == c@.channel_id by {
                        assert(ms[j].guild_id == kv.guild_id);
                        assert(ms[0].guild_id == kv.guild_id);
                    }
                    assert(drained_sources(s0.take(i + 1)) =~= drained_sources(s0.take(i as int))
                        + seq![ms]);
                }
                r.push(c);
            } else {
                proof {
                    assert(drained_sources(s0.take(i + 1)) =~= drained_sources(s0.take(i as int)));
                }
            }
            i = i + 1;
        }
        proof {
            assert(s0.take(s0.len() as int) =~= s0);
            assert(self.wf()) by {
                assert forall|a: int, b: int|
                    0 <= a < b < self.buffers@.len() implies (#[trigger] self.buffers@[a]).0@
                    != (#[trigger] self.buffers@[b]).0@ by {
                    assert(self.buffers@[a].0 == s0[a].0);
                    assert(self.buffers@[b].0 == s0[b].0);
                }
            }
        }
        r
    }
}

/// The fixed `": "` separator holds no newline.
proof fn lemma_sep_no_newline()
    ensures
        !contains_newline(": "@),
{
    reveal_strlit(": ");
    assert forall|i: int| 0 <= i < ": "@.len() implies ": "@[i] != '\n' by {
        if i == 0 {
            assert(": "@[0] == ':');
        } else {
            assert(": "@[1] == ' ');
        }
    }
}

/// Splitting a chunk's text on newlines yields exactly one line per member,
/// in insertion order, whenever no member's author id or text holds a
/// newline itself. (A member text with a newline adds extra lines; such
/// members are the one family of inputs this statement leaves out.)
pub proof fn lemma_full_text_round_trip(ms: Seq<MessageEventV>)
    requires
        ms.len() >= 1,
        forall|i: int|
            0 <= i < ms.len() ==> !contains_newline((#[trigger] ms[i]).author_id)
                && !contains_newline(ms[i].text),
    ensures
        split_lines(spec_full_text(ms)) =~= lines_of(ms),
        split_lines(spec_full_text(ms)).len() == ms.len(),
{
    lemma_sep_no_newline();
    assert forall|i: int| 0 <= i < lines_of(ms).len() implies !contains_newline(
        #[trigger] lines_of(ms)[i],
    ) by {
        crate::text::lemma_concat_no_newline(ms[i].author_id, ": "@);
        crate::text::lemma_concat_no_newline(ms[i].author_id + ": "@, ms[i].text);
        assert(lines_of(ms)[i] == spec_line(ms[i]));
    }
    lemma_split_join_round_trip(lines_of(ms));
}

/// An emitted chunk's `full_text` splits back into exactly
/// `message_count` lines, one per member and in insertion order, whenever
/// no member's author id or text holds a newline.
pub proof fn lemma_chunk_line_count(c: MessageChunkV, ms: Seq<MessageEventV>)
    requires
        chunk_matches(c, ms),
        forall|i: int|
            0 <= i < ms.len() ==> !contains_newline((#[trigger] ms[i]).author_id)
                && !contains_newline(ms[i].text),
    ensures
        split_lines(c.full_text).len() == c.message_count,
        split_lines(c.full_text) =~= lines_of(ms),
{
    lemma_full_text_round_trip(ms);
}


/// Whether an emitted chunk is routed through summarization: its joined
/// text is longer than the threshold.
pub fn needs_summary(chunk: &MessageChunk) -> (r: bool)
    ensures
        r == (chunk@.full_text.len() > SUMMARY_THRESHOLD_CHARS),
{
    chunk.full_text.as_str().unicode_len() > SUMMARY_THRESHOLD_CHARS
}

/// Records the outcome of the summary request on the chunk: a summary makes
/// `has_summary` true; a failed or skipped request leaves the chunk as it
/// was. Nothing else about the chunk changes.
pub fn attach_summary(chunk: &mut MessageChunk, summary: Option<String>)
    ensures
        final(chunk)@.summary == crate::schema::opt_str_view(summary),
        final(chunk)@.has_summary == (summary is Some),
        final(chunk)@.chunk_id == old(chunk)@.chunk_id,
        final(chunk)@.guild_id == old(chunk)@.guild_id,
        final(chunk)@.channel_id == old(chunk)@.channel_id,
        final(chunk)@.first_msg_id == old(chunk)@.first_msg_id,
        final(chunk)@.last_msg_id == old(chunk)@.last_msg_id,
        final(chunk)@.first_timestamp == old(chunk)@.first_timestamp,
        final(chunk)@.last_timestamp == old(chunk)@.last_timestamp,
        final(chunk)@.message_count == old(chunk)@.message_count,
        final(chunk)@.authors == old(chunk)@.authors,
        final(chunk)@.full_text == old(chunk)@.full_text,
{
    chunk.has_summary = summary.is_some();
    chunk.summary = summary;
}

/// The text a chunk is embedded from: its summary when it has one, else its
/// full text.
pub fn embedding_input<'a>(chunk: &'a MessageChunk) -> (r: &'a String)
    ensures
        r@ == (if chunk@.has_summary && chunk@.summary is Some {
            chunk@.summary->0
        } else {
            chunk@.full_text
        }),
{
    if chunk.has_summary {
        match &chunk.summary {
            Some(s) => s,
            None => &chunk.full_text,
        }
    } else {
        &chunk.full_text
    }
}

/// The member lists of the non-empty buffers of a table, in table order:
/// the sources of the chunks an explicit drain emits.
pub open spec fn drained_sources(s: Seq<(BufferKey, MessageBuffer)>) -> Seq<Seq<MessageEventV>>
    decreases s.len(),
{
    if s.len() == 0 {
        Seq::empty()
    } else {
        drained_sources(s.drop_last()) + (if s.last().1@.messages.len() > 0 {
            seq![s.last().1@.messages]
        } else {
            Seq::<Seq<MessageEventV>>::empty()
        })
    }
}

} // verus!
