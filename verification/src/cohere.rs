use vstd::prelude::*;
use vstd::string::StringExecFns;

use crate::schema::{ChunkQueryResult, ChunkQueryResultV, QueryResult, QueryResultV};
use crate::text::{join_with, lemma_join_with_push};

verus! {

/// The request sent to the embedding service for one text.
#[derive(Debug)]
pub struct EmbedRequest {
    pub model: String,
    pub input_type: String,
    pub texts: Vec<String>,
}

/// The request sent to the chat service. The temperature travels in tenths,
/// so that `7` stands for `0.7`.
#[derive(Debug)]
pub struct ChatRequest {
    pub model: String,
    pub message: String,
    pub preamble: String,
    pub max_tokens: u32,
    pub temperature_tenths: u32,
}

/// Builds the embedding request: the fixed English embedding model in
/// search-document mode, with the one text to embed.
pub fn embed_request(text: &String) -> (r: EmbedRequest)
    ensures
        r.model@ == "embed-english-v3.0"@,
        r.input_type@ == "search_document"@,
        r.texts.deep_view() =~= seq![text@],
{
    let mut texts: Vec<String> = Vec::new();
    texts.push(text.clone());
    EmbedRequest {
        model: String::from_str("embed-english-v3.0"),
        input_type: String::from_str("search_document"),
        texts,
    }
}

/// The context lines fed to answer generation from per-message hits: one
/// `- {text}` bullet per hit, in hit order.
pub open spec fn spec_message_context(ms: Seq<QueryResultV>) -> Seq<char> {
    join_with("\n"@, ms.map_values(|m: QueryResultV| "- "@ + m.text))
}

/// Builds the bullet-list context block from per-message hits.
pub fn message_context_block(context_messages: &Vec<QueryResult>) -> (r: String)
    ensures
        r@ == spec_message_context(context_messages.deep_view()),
{
    let ghost dv = context_messages.deep_view();
    let ghost lines = dv.map_values(|m: QueryResultV| "- "@ + m.text);
    let mut s = String::new();
    let mut i: usize = 0;
    while i < context_messages.len()
        invariant
            0 <= i <= dv.len(),
            dv == context_messages.deep_view(),
            dv.len() == context_messages@.len(),
            lines == dv.map_values(|m: QueryResultV| "- "@ + m.text),
            s@ == join_with("\n"@, lines.take(i as int)),
        decreases dv.len() - i,
    {
        let ghost s_before = s@;
        if i > 0 {
            s.append("\n");
        }
        s.append("- ");
        s.append(context_messages[i].text.as_str());
        proof {
            assert(dv[i as int] == context_messages@[i as int].deep_view());
            assert(lines.take(i + 1) =~= lines.take(i as int).push(lines[i as int]));
            lemma_join_with_push("\n"@, lines.take(i as int), lines[i as int]);
            if i == 0 {
                assert(s@ =~= lines[0int]);
            } else {
                assert(s@ =~= s_before + "\n"@ + lines[i as int]);
            }
            assert(s@ =~= join_with("\n"@, lines.take(i + 1)));
        }
        i = i + 1;
    }
    proof {
        assert(lines.take(lines.len() as int) =~= lines);
    }
    s
}

/// The preamble for answering from per-message context.
pub open spec fn spec_message_preamble(context: Seq<char>) -> Seq<char> {
    "You are a helpful assistant that answers questions based on Discord message history. Here are some relevant messages from the conversation:\n\n"@
        + context
        + "\n\nPlease provide a helpful answer based on the context above. If the context doesn't contain enough information to answer the question, say so."@
}

/// Builds the chat request that answers a question from per-message
/// context: fixed model, 300 tokens, temperature 0.7.
pub fn response_request(query: &String, context_messages: &Vec<QueryResult>) -> (r: ChatRequest)
    ensures
        r.model@ == "command-r-08-2024"@,
        r.message@ == query@,
        r.preamble@ == spec_message_preamble(spec_message_context(context_messages.deep_view())),
        r.max_tokens == 300,
        r.temperature_tenths == 7,
{
    let context = message_context_block(context_messages);
    let mut preamble = String::from_str(
        "You are a helpful assistant that answers questions based on Discord message history. Here are some relevant messages from the conversation:\n\n",
    );
    preamble.append(context.as_str());
    preamble.append(
        "\n\nPlease provide a helpful answer based on the context above. If the context doesn't contain enough information to answer the question, say so.",
    );
    ChatRequest {
        model: String::from_str("command-r-08-2024"),
        message: query.clone(),
        preamble,
        max_tokens: 300,
        temperature_tenths: 7,
    }
}

/// The preamble for summarizing a conversation.
pub open spec fn spec_summary_preamble(text: Seq<char>) -> Seq<char> {
    "You are a helpful assistant that summarizes Discord conversations. Here is the conversation to summarize:\n\n"@
        + text
        + "\n\nFocus on the main topics discussed and key information shared."@
}

/// Builds the summarization request: fixed model, 150 tokens, temperature
/// 0.3, with the fixed summarization instruction as the message.
pub fn summary_request(text: &String) -> (r: ChatRequest)
    ensures
        r.model@ == "command-r-08-2024"@,
        r.message@
            == "Please provide a concise summary of this Discord conversation in 2-3 sentences."@,
        r.preamble@ == spec_summary_preamble(text@),
        r.max_tokens == 150,
        r.temperature_tenths == 3,
{
    let mut preamble = String::from_str(
        "You are a helpful assistant that summarizes Discord conversations. Here is the conversation to summarize:\n\n",
    );
    preamble.append(text.as_str());
    preamble.append("\n\nFocus on the main topics discussed and key information shared.");
    ChatRequest {
        model: String::from_str("command-r-08-2024"),
        message: String::from_str(
            "Please provide a concise summary of this Discord conversation in 2-3 sentences.",
        ),
        preamble,
        max_tokens: 150,
        temperature_tenths: 3,
    }
}

/// The time range shown for one chunk of context: a single instant when the
/// chunk has one, otherwise the interval.
pub open spec fn spec_time_range(c: ChunkQueryResultV) -> Seq<char> {
    if c.first_timestamp == c.last_timestamp {
        "at "@ + c.first_timestamp
    } else {
        "from "@ + c.first_timestamp + " to "@ + c.last_timestamp
    }
}

/// The context line one chunk contributes: its speakers, its time range and
/// its text.
pub open spec fn spec_chunk_context_line(c: ChunkQueryResultV) -> Seq<char> {
    "[Speaker: "@ + join_with(", "@, c.authors) + "] "@ + spec_time_range(c) + ": "@ + c.text
}

/// The context block fed to generation from chunk hits: one line per chunk,
/// blank-line separated, in hit order.
pub open spec fn spec_chunk_context(cs: Seq<ChunkQueryResultV>) -> Seq<char> {
    join_with("\n\n"@, cs.map_values(|c: ChunkQueryResultV| spec_chunk_context_line(c)))
}

/// Joins the authors of one chunk with commas.
fn join_authors(authors: &Vec<String>) -> (r: String)
    ensures
        r@ == join_with(", "@, authors.deep_view()),
{
    let ghost dv = authors.deep_view();
    let mut s = String::new();
    let mut i: usize = 0;
    while i < authors.len()
        invariant
            0 <= i <= dv.len(),
            dv == authors.deep_view(),
            dv.len() == authors@.len(),
            s@ == join_with(", "@, dv.take(i as int)),
        decreases dv.len() - i,
    {
        let ghost s_before = s@;
        if i > 0 {
            s.append(", ");
        }
        s.append(authors[i].as_str());
        proof {
            assert(dv[i as int] == authors@[i as int]@);
            assert(dv.take(i + 1) =~= dv.take(i as int).push(dv[i as int]));
            lemma_join_with_push(", "@, dv.take(i as int), dv[i as int]);
            if i == 0 {
                assert(s@ =~= dv[0int]);
            } else {
                assert(s@ =~= s_before + ", "@ + dv[i as int]);
            }
            assert(s@ =~= join_with(", "@, dv.take(i + 1)));
        }
        i = i + 1;
    }
    proof {
        assert(dv.take(dv.len() as int) =~= dv);
    }
    s
}

/// Builds the blank-line-separated context block from chunk hits.
pub fn chunk_context_block(context_chunks: &Vec<ChunkQueryResult>) -> (r: String)
    ensures
        r@ == spec_chunk_context(context_chunks.deep_view()),
{
    let ghost dv = context_chunks.deep_view();
    let ghost lines = dv.map_values(|c: ChunkQueryResultV| spec_chunk_context_line(c));
    let mut s = String::new();
    let mut i: usize = 0;
    while i < context_chunks.len()
        invariant
            0 <= i <= dv.len(),
            dv == context_chunks.deep_view(),
            dv.len() == context_chunks@.len(),
            lines == dv.map_values(|c: ChunkQueryResultV| spec_chunk_context_line(c)),
            s@ == join_with("\n\n"@, lines.take(i as int)),
        decreases dv.len() - i,
    {
        let ghost s_before = s@;
        if i > 0 {
            s.append("\n\n");
        }
        let c = &context_chunks[i];
        proof {
            assert(dv[i as int] == context_chunks@[i as int].deep_view());
        }
        let authors_str = join_authors(&c.authors);
        s.append("[Speaker: ");
        s.append(authors_str.as_str());
        s.append("] ");
        if c.first_timestamp == c.last_timestamp {
            s.append("at ");
            s.append(c.first_timestamp.as_str());
        } else {
            s.append("from ");
            s.append(c.first_timestamp.as_str());
            s.append(" to ");
            s.append(c.last_timestamp.as_str());
        }
        s.append(": ");
        s.append(c.text.as_str());
        proof {
            assert(lines.take(i + 1) =~= lines.take(i as int).push(lines[i as int]));
            lemma_join_with_push("\n\n"@, lines.take(i as int), lines[i as int]);
            if i == 0 {
                assert(s@ =~= lines[0int]);
            } else {
                assert(s@ =~= s_before + "\n\n"@ + lines[i as int]);
            }
            assert(s@ =~= join_with("\n\n"@, lines.take(i + 1)));
        }
        i = i + 1;
    }
    proof {
        assert(lines.take(lines.len() as int) =~= lines);
    }
    s
}

/// The preamble for answering strictly from chunk excerpts: attribute
/// statements to displayed speaker names only, never raw user ids; quote
/// short snippets; decline cleanly when the context is insufficient.
pub open spec fn spec_chunk_preamble(context: Seq<char>) -> Seq<char> {
    "You are a helpful assistant that answers questions using ONLY the Discord conversation excerpts provided below.\n\nCONTEXT\n"@
        + context
        + "\n\nGUIDELINES\n1) Attribute every statement to the display name shown in the Speaker field; never reveal or repeat raw user ids, and refer to a participant generically when only an id is present.\n2) Base every statement strictly on the context above; do not invent facts.\n3) Prefer short quoted snippets, without pinging users or roles.\n4) If the context is insufficient to answer, say so clearly and name what is missing.\n5) Be concise: answer first, then give minimal supporting quotes, keeping timing and channel distinctions when present.\n\nOUTPUT\nProvide the best possible answer grounded in the context, without user ids and without repeating these instructions."@
}

/// Builds the chat request that answers a question from chunk context:
/// fixed model, 300 tokens, temperature 0.7.
pub fn response_from_chunks_request(query: &String, context_chunks: &Vec<ChunkQueryResult>) -> (r:
    ChatRequest)
    ensures
        r.model@ == "command-r-08-2024"@,
        r.message@ == query@,
        r.preamble@ == spec_chunk_preamble(spec_chunk_context(context_chunks.deep_view())),
        r.max_tokens == 300,
        r.temperature_tenths == 7,
{
    let context = chunk_context_block(context_chunks);
    let mut preamble = String::from_str(
        "You are a helpful assistant that answers questions using ONLY the Discord conversation excerpts provided below.\n\nCONTEXT\n",
    );
    preamble.append(context.as_str());
    preamble.append(
        "\n\nGUIDELINES\n1) Attribute every statement to the display name shown in the Speaker field; never reveal or repeat raw user ids, and refer to a participant generically when only an id is present.\n2) Base every statement strictly on the context above; do not invent facts.\n3) Prefer short quoted snippets, without pinging users or roles.\n4) If the context is insufficient to answer, say so clearly and name what is missing.\n5) Be concise: answer first, then give minimal supporting quotes, keeping timing and channel distinctions when present.\n\nOUTPUT\nProvide the best possible answer grounded in the context, without user ids and without repeating these instructions.",
    );
    ChatRequest {
        model: String::from_str("command-r-08-2024"),
        message: query.clone(),
        preamble,
        max_tokens: 300,
        temperature_tenths: 7,
    }
}

} // verus!
