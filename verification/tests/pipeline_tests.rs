use quiry::cohere::{
    chunk_context_block, embed_request, message_context_block, response_from_chunks_request,
    response_request, summary_request,
};
use quiry::config::{Config, ConfigError};
use quiry::elasticsearch::{build_keyword_query, collect_keyword_hits, RawKeywordHit};
use quiry::health::{HealthStatus, ServiceHealth};
use quiry::kafka_types::{
    discord_messages_topic, dispatch_action, DispatchAction, KafkaEventType, KafkaMessage,
    KafkaPayload,
};
use quiry::pinecone::{
    build_chunk_query, build_message_query, chunk_upsert_record, chunk_vector_id,
    collect_chunk_hits, collect_message_hits, message_upsert_record, RawChunkHit, RawMessageHit,
    VectorStoreModel,
};
use quiry::schema::{ChunkQueryResult, MessageChunk, MessageEvent, QueryResult};

fn sample_message() -> MessageEvent {
    MessageEvent {
        id: "msg-1".to_string(),
        guild_id: Some("g1".to_string()),
        channel_id: "general".to_string(),
        author_id: "alice".to_string(),
        timestamp: "2024-01-01T10:00:00Z".to_string(),
        text: "hello there".to_string(),
    }
}

fn sample_chunk() -> MessageChunk {
    MessageChunk {
        chunk_id: "0f8b7c6a-1111-2222-3333-444455556666".to_string(),
        guild_id: Some("g1".to_string()),
        channel_id: "general".to_string(),
        first_msg_id: "m0".to_string(),
        last_msg_id: "m2".to_string(),
        first_timestamp: "2024-01-01T10:00:00Z".to_string(),
        last_timestamp: "2024-01-01T10:02:00Z".to_string(),
        message_count: 3,
        authors: vec!["alice".to_string(), "bob".to_string()],
        full_text: "alice: one\nbob: two\nalice: three".to_string(),
        summary: None,
        has_summary: false,
    }
}

#[test]
fn envelope_wraps_message() {
    let m = sample_message();
    let env = KafkaMessage::new_discord_message(m);
    assert!(matches!(env.event_type, KafkaEventType::DiscordMessage));
    assert_eq!(env.message_id, "msg-1");
    assert_eq!(env.guild_id.as_deref(), Some("g1"));
    assert_eq!(env.channel_id, "general");
    assert_eq!(env.timestamp, "2024-01-01T10:00:00Z");
    match &env.payload {
        KafkaPayload::DiscordMessage(inner) => assert_eq!(inner.id, "msg-1"),
        _ => panic!("wrong payload variant"),
    }
    let inner = env.into_discord_message().expect("discord payload");
    assert_eq!(inner.text, "hello there");
}

#[test]
fn partition_key_uses_guild_or_dm_prefix() {
    let with_guild = KafkaMessage::new_discord_message(sample_message());
    assert_eq!(with_guild.get_partition_key(), "g1");
    let mut dm = sample_message();
    dm.guild_id = None;
    let dm_env = KafkaMessage::new_discord_message(dm);
    assert_eq!(dm_env.get_partition_key(), "dm:general");
}

#[test]
fn partition_key_is_stable() {
    let env1 = KafkaMessage::new_discord_message(sample_message());
    let env2 = KafkaMessage::new_discord_message(sample_message());
    assert_eq!(env1.get_partition_key(), env2.get_partition_key());
    assert_eq!(env1.get_partition_key(), env1.get_partition_key());
}

#[test]
fn dispatch_switch() {
    assert_eq!(
        dispatch_action(&KafkaEventType::DiscordMessage),
        DispatchAction::HandleDiscordMessage
    );
    assert_eq!(
        dispatch_action(&KafkaEventType::QueryRequest),
        DispatchAction::HandleQueryRequest
    );
    assert_eq!(dispatch_action(&KafkaEventType::MessageChunk), DispatchAction::Ignore);
    assert_eq!(dispatch_action(&KafkaEventType::EmbeddingRequest), DispatchAction::Ignore);
    assert_eq!(dispatch_action(&KafkaEventType::PineconeUpsert), DispatchAction::Ignore);
    assert_eq!(discord_messages_topic(), "discord-messages");
}

#[test]
fn keyword_hits_require_all_fields() {
    let raw = vec![
        RawKeywordHit {
            text: Some("good".to_string()),
            author_id: Some("a".to_string()),
            channel_id: Some("c".to_string()),
            timestamp: Some("t".to_string()),
            guild_id: None,
            score: 3_000_000,
        },
        RawKeywordHit {
            text: None,
            author_id: Some("a".to_string()),
            channel_id: Some("c".to_string()),
            timestamp: Some("t".to_string()),
            guild_id: None,
            score: 9_000_000,
        },
        RawKeywordHit {
            text: Some("also good".to_string()),
            author_id: Some("b".to_string()),
            channel_id: Some("c2".to_string()),
            timestamp: Some("t2".to_string()),
            guild_id: Some("g".to_string()),
            score: 1_000_000,
        },
    ];
    let hits = collect_keyword_hits(&raw);
    assert_eq!(hits.len(), 2);
    assert_eq!(hits[0].text, "good");
    assert_eq!(hits[1].text, "also good");
    assert_eq!(hits[1].guild_id.as_deref(), Some("g"));
}

#[test]
fn message_hits_require_all_fields() {
    let raw = vec![
        RawMessageHit {
            text: Some("kept".to_string()),
            author_id: Some("a".to_string()),
            timestamp: Some("t".to_string()),
            score: 42,
        },
        RawMessageHit { text: Some("dropped".to_string()), author_id: None, timestamp: Some("t".to_string()), score: 43 },
    ];
    let hits = collect_message_hits(&raw);
    assert_eq!(hits.len(), 1);
    assert_eq!(hits[0].text, "kept");
    assert_eq!(hits[0].score, 42);
}

#[test]
fn chunk_hit_display_text_truncates() {
    let long = "y".repeat(600);
    let raw = vec![
        RawChunkHit {
            chunk_id: Some("c1".to_string()),
            full_text: Some(long.clone()),
            first_timestamp: Some("t1".to_string()),
            last_timestamp: Some("t2".to_string()),
            message_count: Some(4),
            summary: None,
            authors: vec!["alice".to_string()],
            score: 7,
        },
        RawChunkHit {
            chunk_id: Some("c2".to_string()),
            full_text: Some(long.clone()),
            first_timestamp: Some("t1".to_string()),
            last_timestamp: Some("t2".to_string()),
            message_count: Some(4),
            summary: Some("the summary".to_string()),
            authors: vec![],
            score: 8,
        },
        RawChunkHit {
            chunk_id: None,
            full_text: Some("x".to_string()),
            first_timestamp: Some("t1".to_string()),
            last_timestamp: Some("t2".to_string()),
            message_count: Some(1),
            summary: None,
            authors: vec![],
            score: 9,
        },
    ];
    let hits = collect_chunk_hits(&raw);
    assert_eq!(hits.len(), 2);
    let expected = format!("{}...", "y".repeat(500));
    assert_eq!(hits[0].text, expected);
    assert_eq!(hits[0].text.len(), 503);
    assert_eq!(hits[1].text, "the summary");
    assert_eq!(hits[1].summary.as_deref(), Some("the summary"));
}

#[test]
fn upsert_records_project_metadata() {
    let m = sample_message();
    let rec = message_upsert_record(&m, vec![100, -200, 300]);
    assert_eq!(rec.id, "msg-1");
    assert_eq!(rec.values, vec![100, -200, 300]);
    assert_eq!(rec.guild_id.as_deref(), Some("g1"));
    assert_eq!(rec.author_id, "alice");
    assert_eq!(rec.text, "hello there");

    let c = sample_chunk();
    let crec = chunk_upsert_record(&c, vec![5]);
    assert_eq!(crec.id, format!("chunk_{}", c.chunk_id));
    assert_eq!(crec.chunk_id, c.chunk_id);
    assert_eq!(crec.message_count, 3);
    assert_eq!(crec.authors, vec!["alice".to_string(), "bob".to_string()]);
    assert!(!crec.has_summary);
    assert!(crec.summary.is_none());
    assert_eq!(chunk_vector_id(&"abc".to_string()), "chunk_abc");
}

#[test]
fn vector_queries_carry_filters() {
    let q = build_chunk_query(vec![1, 2], 3, Some("g1".to_string()));
    assert!(q.chunks_only);
    assert!(q.include_metadata);
    assert!(!q.include_values);
    assert_eq!(q.top_k, 3);
    assert_eq!(q.guild_filter.as_deref(), Some("g1"));
    let mq = build_message_query(vec![1, 2], 5, None);
    assert!(!mq.chunks_only);
    assert_eq!(mq.top_k, 5);
    assert_eq!(mq.guild_filter, None);
}

#[test]
fn keyword_query_carries_supplied_filters() {
    let q = build_keyword_query(
        &"what happened".to_string(),
        &Some("g1".to_string()),
        &None,
        &Some("alice".to_string()),
        5,
    );
    assert_eq!(q.query, "what happened");
    assert_eq!(q.guild_id.as_deref(), Some("g1"));
    assert_eq!(q.channel_id, None);
    assert_eq!(q.author_id.as_deref(), Some("alice"));
    assert_eq!(q.size, 5);
}

#[test]
fn vector_upsert_is_idempotent_on_id() {
    let mut store = VectorStoreModel::new();
    store.upsert("msg-1".to_string(), vec![1, 2, 3]);
    store.upsert("msg-1".to_string(), vec![4, 5, 6]);
    assert_eq!(store.record_count(), 1);
    assert_eq!(store.get(&"msg-1".to_string()), Some(&vec![4, 5, 6]));
    store.upsert("msg-2".to_string(), vec![7]);
    assert_eq!(store.record_count(), 2);
    assert_eq!(store.get(&"msg-2".to_string()), Some(&vec![7]));
    assert_eq!(store.get(&"absent".to_string()), None);
}

#[test]
fn config_defaults_and_required() {
    let ok = Config::from_values(
        Some("SECRET-REDACTED".to_string()),
        Some("cohere-key".to_string()),
        Some("pinecone-key".to_string()),
        Some("https://pinecone.example".to_string()),
        Some("idx".to_string()),
        None,
        None,
        None,
        Some("http://es.example".to_string()),
        Some("messages".to_string()),
    )
    .expect("all required present");
    assert_eq!(ok.namespace, "default");
    assert_eq!(ok.kafka_brokers, "localhost:9092");
    assert_eq!(ok.kafka_group_id, "quiry-bot");
    assert_eq!(ok.elasticsearch_index, "messages");
}

#[test]
fn config_reports_first_missing() {
    let err = Config::from_values(
        None,
        None,
        None,
        None,
        None,
        None,
        None,
        None,
        None,
        None,
    )
    .unwrap_err();
    assert_eq!(err, ConfigError::MissingDiscordToken);
    assert_eq!(err.message(), "Expected DISCORD_TOKEN in env");
    let err2 = Config::from_values(
        Some("t".to_string()),
        Some("c".to_string()),
        Some("p".to_string()),
        Some("h".to_string()),
        Some("i".to_string()),
        None,
        None,
        None,
        None,
        Some("idx".to_string()),
    )
    .unwrap_err();
    assert_eq!(err2, ConfigError::MissingElasticsearchUrl);
}

#[test]
fn health_aggregation() {
    let all_ok = vec![
        ("discord".to_string(), ServiceHealth::healthy("ok".to_string(), 3)),
        ("kafka".to_string(), ServiceHealth::healthy("ok".to_string(), 5)),
    ];
    let status = HealthStatus::from_services("2024-01-01T10:00:00Z".to_string(), all_ok);
    assert_eq!(status.status, "healthy");
    assert_eq!(status.timestamp, "2024-01-01T10:00:00Z");

    let degraded = vec![
        ("discord".to_string(), ServiceHealth::healthy("ok".to_string(), 3)),
        (
            "elasticsearch".to_string(),
            ServiceHealth::unhealthy("connection refused".to_string(), 30),
        ),
    ];
    let status = HealthStatus::from_services("2024-01-01T10:00:00Z".to_string(), degraded);
    assert_eq!(status.status, "degraded");
    assert_eq!(status.services.len(), 2);
    assert_eq!(status.services[1].1.status, "unhealthy");
}

#[test]
fn embed_request_shape() {
    let r = embed_request(&"some text".to_string());
    assert_eq!(r.model, "embed-english-v3.0");
    assert_eq!(r.input_type, "search_document");
    assert_eq!(r.texts, vec!["some text".to_string()]);
}

#[test]
fn chat_request_shapes() {
    let messages = vec![
        QueryResult {
            text: "first".to_string(),
            author_id: "a".to_string(),
            timestamp: "t".to_string(),
            score: 1,
        },
        QueryResult {
            text: "second".to_string(),
            author_id: "b".to_string(),
            timestamp: "t".to_string(),
            score: 2,
        },
    ];
    assert_eq!(message_context_block(&messages), "- first\n- second");
    let r = response_request(&"why?".to_string(), &messages);
    assert_eq!(r.model, "command-r-08-2024");
    assert_eq!(r.message, "why?");
    assert_eq!(r.max_tokens, 300);
    assert_eq!(r.temperature_tenths, 7);
    assert!(r.preamble.contains("- first\n- second"));

    let s = summary_request(&"a long conversation".to_string());
    assert_eq!(s.max_tokens, 150);
    assert_eq!(s.temperature_tenths, 3);
    assert_eq!(
        s.message,
        "Please provide a concise summary of this Discord conversation in 2-3 sentences."
    );
    assert!(s.preamble.contains("a long conversation"));
}

#[test]
fn chunk_context_shows_speakers_and_time() {
    let single_instant = ChunkQueryResult {
        chunk_id: "c1".to_string(),
        text: "the text".to_string(),
        summary: None,
        authors: vec!["alice".to_string(), "bob".to_string()],
        message_count: 2,
        first_timestamp: "2024-01-01T10:00:00Z".to_string(),
        last_timestamp: "2024-01-01T10:00:00Z".to_string(),
        score: 1,
    };
    assert_eq!(
        chunk_context_block(&vec![single_instant.clone()]),
        "[Speaker: alice, bob] at 2024-01-01T10:00:00Z: the text"
    );
    let mut ranged = single_instant;
    ranged.last_timestamp = "2024-01-01T10:05:00Z".to_string();
    let block = chunk_context_block(&vec![ranged.clone(), ranged.clone()]);
    let line = "[Speaker: alice, bob] from 2024-01-01T10:00:00Z to 2024-01-01T10:05:00Z: the text";
    assert_eq!(block, format!("{}\n\n{}", line, line));
    let r = response_from_chunks_request(&"who said it?".to_string(), &vec![ranged]);
    assert_eq!(r.model, "command-r-08-2024");
    assert_eq!(r.max_tokens, 300);
    assert_eq!(r.temperature_tenths, 7);
    assert!(r.preamble.contains(line));
}
