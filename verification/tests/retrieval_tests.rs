use quiry::elasticsearch::ESQueryResult;
use quiry::retrieval::{
    chunk_search_next, dense_norm_exec, fused_to_chunks, keyword_norm_exec, merge_search_results,
    message_search_next, no_relevant_info_text, no_results_text, select_search_mode,
    ChunkSearchOutcome, MessageSearchOutcome, SearchMode, CHUNK_TOP_K, HYBRID_TOP_K,
    MESSAGE_TOP_K,
};
use quiry::schema::{ChunkQueryResult, QueryResult};

fn dense_hit(text: &str, score: i64) -> ChunkQueryResult {
    ChunkQueryResult {
        chunk_id: format!("chunk-of-{}", text),
        text: text.to_string(),
        summary: None,
        authors: vec!["alice".to_string()],
        message_count: 3,
        first_timestamp: "2024-01-01T10:00:00Z".to_string(),
        last_timestamp: "2024-01-01T10:05:00Z".to_string(),
        score,
    }
}

fn keyword_hit(text: &str, score: i64) -> ESQueryResult {
    ESQueryResult {
        text: text.to_string(),
        author_id: "bob".to_string(),
        channel_id: "general".to_string(),
        timestamp: "2024-01-01T10:02:00Z".to_string(),
        guild_id: Some("g1".to_string()),
        score,
    }
}

#[test]
fn hybrid_fusion_overlapping_item() {
    // dense cosine 0.8 and keyword score 6.0 for the same text:
    // 0.65 * 0.9 + 0.35 * 0.6 = 0.795
    let dense = vec![dense_hit("shared content", 800_000)];
    let keyword = vec![keyword_hit("shared content", 6_000_000)];
    let merged = merge_search_results(&dense, &keyword);
    assert_eq!(merged.len(), 1);
    assert_eq!(merged[0].score, 795_000);
    assert_eq!(merged[0].text, "shared content");
}

#[test]
fn fusion_dense_only_score() {
    let dense = vec![dense_hit("only dense", 800_000)];
    let merged = merge_search_results(&dense, &vec![]);
    assert_eq!(merged.len(), 1);
    // 0.65 * 0.9 = 0.585
    assert_eq!(merged[0].score, 585_000);
    assert_eq!(merged[0].author_id, "alice");
    assert_eq!(merged[0].channel_id, "unknown");
    assert_eq!(merged[0].guild_id, None);
    assert_eq!(merged[0].timestamp, "2024-01-01T10:00:00Z");
}

#[test]
fn fusion_keyword_only_score() {
    let keyword = vec![keyword_hit("only keyword", 6_000_000)];
    let merged = merge_search_results(&vec![], &keyword);
    assert_eq!(merged.len(), 1);
    // 0.35 * 0.6 = 0.21
    assert_eq!(merged[0].score, 210_000);
    assert_eq!(merged[0].author_id, "bob");
    assert_eq!(merged[0].channel_id, "general");
    assert_eq!(merged[0].guild_id.as_deref(), Some("g1"));
}

#[test]
fn fusion_deduplicates_and_sorts() {
    let dense = vec![dense_hit("alpha", 1_000_000), dense_hit("beta", 0)];
    let keyword = vec![
        keyword_hit("alpha", 1_000_000),
        keyword_hit("alpha", 9_000_000), // duplicate text: first occurrence wins
        keyword_hit("gamma", 10_000_000),
    ];
    let merged = merge_search_results(&dense, &keyword);
    assert_eq!(merged.len(), 3);
    // each text appears exactly once
    let mut texts: Vec<&str> = merged.iter().map(|m| m.text.as_str()).collect();
    texts.sort();
    assert_eq!(texts, vec!["alpha", "beta", "gamma"]);
    // descending by fused score
    for w in merged.windows(2) {
        assert!(w[0].score >= w[1].score);
    }
    // alpha: 0.65 * 1.0 + 0.35 * 0.1 = 0.685 (first alpha keyword hit, 1.0/10)
    let alpha = merged.iter().find(|m| m.text == "alpha").unwrap();
    assert_eq!(alpha.score, 685_000);
    // beta: 0.65 * 0.5 = 0.325
    let beta = merged.iter().find(|m| m.text == "beta").unwrap();
    assert_eq!(beta.score, 325_000);
    // gamma: 0.35 * 1.0 = 0.35
    let gamma = merged.iter().find(|m| m.text == "gamma").unwrap();
    assert_eq!(gamma.score, 350_000);
    assert_eq!(merged[0].text, "alpha");
}

#[test]
fn fusion_payload_follows_heavier_side() {
    // dense cosine -1.0 normalizes to 0, so the keyword side carries more
    // weight and its record fields are kept
    let dense = vec![dense_hit("tilted", -1_000_000)];
    let keyword = vec![keyword_hit("tilted", 6_000_000)];
    let merged = merge_search_results(&dense, &keyword);
    assert_eq!(merged.len(), 1);
    assert_eq!(merged[0].channel_id, "general");
    assert_eq!(merged[0].author_id, "bob");
    // 0.65 * 0 + 0.35 * 0.6 = 0.21
    assert_eq!(merged[0].score, 210_000);
}

#[test]
fn score_normalization_clips() {
    assert_eq!(dense_norm_exec(800_000), 900_000);
    assert_eq!(dense_norm_exec(-1_000_000), 0);
    assert_eq!(dense_norm_exec(2_000_000), 1_000_000);
    assert_eq!(keyword_norm_exec(6_000_000), 600_000);
    assert_eq!(keyword_norm_exec(-5), 0);
    assert_eq!(keyword_norm_exec(25_000_000), 1_000_000);
}

#[test]
fn dense_empty_falls_back_to_messages() {
    let no_chunks: Vec<ChunkQueryResult> = vec![];
    assert_eq!(chunk_search_next(&no_chunks), ChunkSearchOutcome::QueryMessages);
    assert_eq!(MESSAGE_TOP_K, 5);
    assert_eq!(CHUNK_TOP_K, 3);
    assert_eq!(HYBRID_TOP_K, 5);
    let no_messages: Vec<QueryResult> = vec![];
    assert_eq!(message_search_next(&no_messages), MessageSearchOutcome::FixedResponse);
    assert_eq!(
        no_results_text(),
        "I couldn't find any relevant messages in the history to answer your question."
    );
}

#[test]
fn nonempty_results_generate() {
    let chunks = vec![dense_hit("found", 500_000)];
    assert_eq!(chunk_search_next(&chunks), ChunkSearchOutcome::GenerateFromChunks);
    let messages = vec![QueryResult {
        text: "t".to_string(),
        author_id: "a".to_string(),
        timestamp: "2024-01-01T00:00:00Z".to_string(),
        score: 1,
    }];
    assert_eq!(message_search_next(&messages), MessageSearchOutcome::Generate);
}

#[test]
fn search_mode_selection() {
    assert_eq!(select_search_mode(true), SearchMode::Hybrid);
    assert_eq!(select_search_mode(false), SearchMode::DenseOnly);
    assert_eq!(
        no_relevant_info_text(),
        "I couldn't find any relevant information about that topic."
    );
}

#[test]
fn fused_results_presented_as_chunks() {
    let fused = vec![keyword_hit("some text", 421)];
    let chunks = fused_to_chunks(&fused);
    assert_eq!(chunks.len(), 1);
    assert_eq!(chunks[0].chunk_id, "some text");
    assert_eq!(chunks[0].text, "some text");
    assert_eq!(chunks[0].summary, None);
    assert_eq!(chunks[0].authors, vec!["bob".to_string()]);
    assert_eq!(chunks[0].message_count, 1);
    assert_eq!(chunks[0].first_timestamp, "2024-01-01T10:02:00Z");
    assert_eq!(chunks[0].last_timestamp, "2024-01-01T10:02:00Z");
    assert_eq!(chunks[0].score, 421);
}
