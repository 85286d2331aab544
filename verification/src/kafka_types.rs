use vstd::prelude::*;
use vstd::string::StringExecFns;

use crate::schema::{clone_opt_string, opt_str_view, MessageChunk, MessageChunkV, MessageEvent,
    MessageEventV};

verus! {

/// Event types carried on the durable log.
#[derive(Debug, Clone, PartialEq, Eq, Structural)]
pub enum KafkaEventType {
    DiscordMessage,
    MessageChunk,
    EmbeddingRequest,
    PineconeUpsert,
    QueryRequest,
}

/// The typed payload of a log envelope. Embedding values travel in
/// millionths, so that `1_000_000` stands for a component of one.
#[derive(Debug)]
pub enum KafkaPayload {
    DiscordMessage(MessageEvent),
    MessageChunk(MessageChunk),
    EmbeddingRequest { text: String, message_id: String, is_chunk: bool },
    PineconeUpsert { message_id: String, embedding: Vec<i64>, is_chunk: bool },
    QueryRequest { question: String, user_id: String, guild_id: Option<String> },
}

pub ghost enum KafkaPayloadV {
    DiscordMessage(MessageEventV),
    MessageChunk(MessageChunkV),
    EmbeddingRequest { text: Seq<char>, message_id: Seq<char>, is_chunk: bool },
    PineconeUpsert { message_id: Seq<char>, embedding: Seq<i64>, is_chunk: bool },
    QueryRequest { question: Seq<char>, user_id: Seq<char>, guild_id: Option<Seq<char>> },
}

impl View for KafkaPayload {
    type V = KafkaPayloadV;

    open spec fn view(&self) -> KafkaPayloadV {
        match self {
            KafkaPayload::DiscordMessage(m) => KafkaPayloadV::DiscordMessage(m@),
            KafkaPayload::MessageChunk(c) => KafkaPayloadV::MessageChunk(c@),
            KafkaPayload::EmbeddingRequest { text, message_id, is_chunk } => {
                KafkaPayloadV::EmbeddingRequest {
                    text: text@,
                    message_id: message_id@,
                    is_chunk: *is_chunk,
                }
            },
            KafkaPayload::PineconeUpsert { message_id, embedding, is_chunk } => {
                KafkaPayloadV::PineconeUpsert {
                    message_id: message_id@,
                    embedding: embedding@,
                    is_chunk: *is_chunk,
                }
            },
            KafkaPayload::QueryRequest { question, user_id, guild_id } => {
                KafkaPayloadV::QueryRequest {
                    question: question@,
                    user_id: user_id@,
                    guild_id: opt_str_view(*guild_id),
                }
            },
        }
    }
}

/// Wire record on the durable log: denormalized routing headers plus the
/// typed payload.
#[derive(Debug)]
pub struct KafkaMessage {
    pub event_type: KafkaEventType,
    pub message_id: String,
    pub guild_id: Option<String>,
    pub channel_id: String,
    pub timestamp: String,
    pub payload: KafkaPayload,
}

pub ghost struct KafkaMessageV {
    pub event_type: KafkaEventType,
    pub message_id: Seq<char>,
    pub guild_id: Option<Seq<char>>,
    pub channel_id: Seq<char>,
    pub timestamp: Seq<char>,
    pub payload: KafkaPayloadV,
}

impl View for KafkaMessage {
    type V = KafkaMessageV;

    open spec fn view(&self) -> KafkaMessageV {
        KafkaMessageV {
            event_type: self.event_type,
            message_id: self.message_id@,
            guild_id: opt_str_view(self.guild_id),
            channel_id: self.channel_id@,
            timestamp: self.timestamp@,
            payload: self.payload@,
        }
    }
}

/// The topic that carries message envelopes.
pub fn discord_messages_topic() -> (r: &'static str)
    ensures
        r@ == "discord-messages"@,
{
    "discord-messages"
}

/// The partition key an envelope is routed by: the guild id when present,
/// else the channel id under the `dm:` prefix, so that one channel's events
/// stay strictly ordered.
pub open spec fn spec_partition_key(guild_id: Option<Seq<char>>, channel_id: Seq<char>) -> Seq<
    char,
> {
    match guild_id {
        Some(g) => g,
        None => "dm:"@ + channel_id,
    }
}

/// The partition key is a function of guild and channel alone: two keys
/// computed for the same inputs are the same string.
pub proof fn lemma_partition_key_stable(
    guild_id: Option<Seq<char>>,
    channel_id: Seq<char>,
    r1: Seq<char>,
    r2: Seq<char>,
)
    requires
        r1 == spec_partition_key(guild_id, channel_id),
        r2 == spec_partition_key(guild_id, channel_id),
    ensures
        r1 == r2,
{
}

impl KafkaMessage {
    /// Wraps a posted message in an envelope, copying the routing headers
    /// from the message itself.
    pub fn new_discord_message(message: MessageEvent) -> (r: KafkaMessage)
        ensures
            r@.event_type == KafkaEventType::DiscordMessage,
            r@.message_id == message@.id,
            r@.guild_id == message@.guild_id,
            r@.channel_id == message@.channel_id,
            r@.timestamp == message@.timestamp,
            r@.payload == KafkaPayloadV::DiscordMessage(message@),
    {
        let message_id = message.id.clone();
        let guild_id = clone_opt_string(&message.guild_id);
        let channel_id = message.channel_id.clone();
        let timestamp = message.timestamp.clone();
        KafkaMessage {
            event_type: KafkaEventType::DiscordMessage,
            message_id,
            guild_id,
            channel_id,
            timestamp,
            payload: KafkaPayload::DiscordMessage(message),
        }
    }

    /// The key this envelope is partitioned by on the log.
    pub fn get_partition_key(&self) -> (r: String)
        ensures
            r@ == spec_partition_key(self@.guild_id, self@.channel_id),
    {
        match &self.guild_id {
            Some(g) => g.clone(),
            None => {
                let mut s = String::from_str("dm:");
                s.append(self.channel_id.as_str());
                s
            },
        }
    }

    /// The posted message carried by a `DiscordMessage` envelope, if that is
    /// what this envelope is.
    pub fn into_discord_message(self) -> (r: Option<MessageEvent>)
        ensures
            (r is Some) == (self@.payload is DiscordMessage),
            r matches Some(m) ==> self@.payload == KafkaPayloadV::DiscordMessage(m@),
    {
        match self.payload {
            KafkaPayload::DiscordMessage(m) => Some(m),
            _ => None,
        }
    }
}

/// What a log consumer does with an envelope: messages feed the pipeline,
/// query requests feed the retriever, and unknown types are dropped.
#[derive(Debug, PartialEq, Eq, Structural)]
pub enum DispatchAction {
    HandleDiscordMessage,
    HandleQueryRequest,
    Ignore,
}

/// The dispatch switch of the log consumer.
pub fn dispatch_action(event_type: &KafkaEventType) -> (r: DispatchAction)
    ensures
        r == (match event_type {
            KafkaEventType::DiscordMessage => DispatchAction::HandleDiscordMessage,
            KafkaEventType::QueryRequest => DispatchAction::HandleQueryRequest,
            _ => DispatchAction::Ignore,
        }),
{
    match event_type {
        KafkaEventType::DiscordMessage => DispatchAction::HandleDiscordMessage,
        KafkaEventType::QueryRequest => DispatchAction::HandleQueryRequest,
        _ => DispatchAction::Ignore,
    }
}

} // verus!
