use vstd::prelude::*;

verus! {

/// Mathematical image of an `Option<String>`.
pub open spec fn opt_str_view(o: Option<String>) -> Option<Seq<char>> {
    match o {
        Some(s) => Some(s@),
        None => None,
    }
}

/// Clones an optional string field.
pub fn clone_opt_string(o: &Option<String>) -> (r: Option<String>)
    ensures
        opt_str_view(r) == opt_str_view(*o),
{
    match o {
        Some(s) => Some(s.clone()),
        None => None,
    }
}

/// A single posted message, as delivered by the chat source.
#[derive(Debug, Clone)]
pub struct MessageEvent {
    pub id: String,
    pub guild_id: Option<String>,
    pub channel_id: String,
    pub author_id: String,
    pub timestamp: String,
    pub text: String,
}

pub ghost struct MessageEventV {
    pub id: Seq<char>,
    pub guild_id: Option<Seq<char>>,
    pub channel_id: Seq<char>,
    pub author_id: Seq<char>,
    pub timestamp: Seq<char>,
    pub text: Seq<char>,
}

impl View for MessageEvent {
    type V = MessageEventV;

    open spec fn view(&self) -> MessageEventV {
        MessageEventV {
            id: self.id@,
            guild_id: opt_str_view(self.guild_id),
            channel_id: self.channel_id@,
            author_id: self.author_id@,
            timestamp: self.timestamp@,
            text: self.text@,
        }
    }
}

impl DeepView for MessageEvent {
    type V = MessageEventV;

    open spec fn deep_view(&self) -> MessageEventV {
        self.view()
    }
}

/// A finalized window of contiguous messages from one channel: the atomic
/// unit of dense retrieval.
#[derive(Debug, Clone)]
pub struct MessageChunk {
    pub chunk_id: String,
    pub guild_id: Option<String>,
    pub channel_id: String,
    pub first_msg_id: String,
    pub last_msg_id: String,
    pub first_timestamp: String,
    pub last_timestamp: String,
    pub message_count: usize,
    pub authors: Vec<String>,
    pub full_text: String,
    pub summary: Option<String>,
    pub has_summary: bool,
}

pub ghost struct MessageChunkV {
    pub chunk_id: Seq<char>,
    pub guild_id: Option<Seq<char>>,
    pub channel_id: Seq<char>,
    pub first_msg_id: Seq<char>,
    pub last_msg_id: Seq<char>,
    pub first_timestamp: Seq<char>,
    pub last_timestamp: Seq<char>,
    pub message_count: usize,
    pub authors: Seq<Seq<char>>,
    pub full_text: Seq<char>,
    pub summary: Option<Seq<char>>,
    pub has_summary: bool,
}

impl View for MessageChunk {
    type V = MessageChunkV;

    open spec fn view(&self) -> MessageChunkV {
        MessageChunkV {
            chunk_id: self.chunk_id@,
            guild_id: opt_str_view(self.guild_id),
            channel_id: self.channel_id@,
            first_msg_id: self.first_msg_id@,
            last_msg_id: self.last_msg_id@,
            first_timestamp: self.first_timestamp@,
            last_timestamp: self.last_timestamp@,
            message_count: self.message_count,
            authors: self.authors.deep_view(),
            full_text: self.full_text@,
            summary: opt_str_view(self.summary),
            has_summary: self.has_summary,
        }
    }
}

impl DeepView for MessageChunk {
    type V = MessageChunkV;

    open spec fn deep_view(&self) -> MessageChunkV {
        self.view()
    }
}

/// One hit from per-message vector search. The score is a similarity in
/// millionths, so that `1_000_000` stands for a cosine similarity of one.
#[derive(Debug, Clone)]
pub struct QueryResult {
    pub text: String,
    pub author_id: String,
    pub timestamp: String,
    pub score: i64,
}

pub ghost struct QueryResultV {
    pub text: Seq<char>,
    pub author_id: Seq<char>,
    pub timestamp: Seq<char>,
    pub score: i64,
}

impl View for QueryResult {
    type V = QueryResultV;

    open spec fn view(&self) -> QueryResultV {
        QueryResultV {
            text: self.text@,
            author_id: self.author_id@,
            timestamp: self.timestamp@,
            score: self.score,
        }
    }
}

impl DeepView for QueryResult {
    type V = QueryResultV;

    open spec fn deep_view(&self) -> QueryResultV {
        self.view()
    }
}

/// One hit from chunk vector search, with the same millionth-scaled score.
#[derive(Debug, Clone)]
pub struct ChunkQueryResult {
    pub chunk_id: String,
    pub text: String,
    pub summary: Option<String>,
    pub authors: Vec<String>,
    pub message_count: usize,
    pub first_timestamp: String,
    pub last_timestamp: String,
    pub score: i64,
}

pub ghost struct ChunkQueryResultV {
    pub chunk_id: Seq<char>,
    pub text: Seq<char>,
    pub summary: Option<Seq<char>>,
    pub authors: Seq<Seq<char>>,
    pub message_count: usize,
    pub first_timestamp: Seq<char>,
    pub last_timestamp: Seq<char>,
    pub score: i64,
}

impl View for ChunkQueryResult {
    type V = ChunkQueryResultV;

    open spec fn view(&self) -> ChunkQueryResultV {
        ChunkQueryResultV {
            chunk_id: self.chunk_id@,
            text: self.text@,
            summary: opt_str_view(self.summary),
            authors: self.authors.deep_view(),
            message_count: self.message_count,
            first_timestamp: self.first_timestamp@,
            last_timestamp: self.last_timestamp@,
            score: self.score,
        }
    }
}

impl DeepView for ChunkQueryResult {
    type V = ChunkQueryResultV;

    open spec fn deep_view(&self) -> ChunkQueryResultV {
        self.view()
    }
}

} // verus!
