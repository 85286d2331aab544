use quiry::chunking::{
    attach_summary, embedding_input, needs_summary, ChunkManager, MessageBuffer, MAX_CHUNK_SIZE,
    MIN_CHUNK_SIZE,
};
use quiry::schema::MessageEvent;

fn msg(
    id: &str,
    guild: Option<&str>,
    channel: &str,
    author: &str,
    ts: &str,
    text: &str,
) -> MessageEvent {
    MessageEvent {
        id: id.to_string(),
        guild_id: guild.map(|g| g.to_string()),
        channel_id: channel.to_string(),
        author_id: author.to_string(),
        timestamp: ts.to_string(),
        text: text.to_string(),
    }
}

fn ts_minute(minute: usize) -> String {
    format!("2024-01-01T10:{:02}:00Z", minute)
}

#[test]
fn chunk_close_by_size() {
    let mut mgr = ChunkManager::new();
    let mut emitted = Vec::new();
    for i in 0..12 {
        let author = if i % 2 == 0 { "alice" } else { "bob" };
        let m = msg(
            &format!("m{}", i),
            Some("g1"),
            "C1",
            author,
            &ts_minute(i),
            &format!("text {}", i),
        );
        let mut out = mgr.process_message(m);
        emitted.append(&mut out);
    }
    assert_eq!(emitted.len(), 1);
    let c = &emitted[0];
    assert_eq!(c.message_count, 12);
    assert_eq!(c.message_count, MAX_CHUNK_SIZE);
    assert_eq!(c.authors, vec!["alice".to_string(), "bob".to_string()]);
    assert_eq!(c.guild_id.as_deref(), Some("g1"));
    assert_eq!(c.channel_id, "C1");
    assert_eq!(c.first_msg_id, "m0");
    assert_eq!(c.last_msg_id, "m11");
    assert_eq!(c.first_timestamp, ts_minute(0));
    assert_eq!(c.last_timestamp, ts_minute(11));
    assert!(c.summary.is_none());
    assert!(!c.has_summary);
    assert_eq!(c.chunk_id.len(), 36);
    assert_eq!(mgr.buffers.len(), 1);
    assert_eq!(mgr.buffers[0].1.len(), 0);
}

#[test]
fn chunk_close_by_gap() {
    let mut mgr = ChunkManager::new();
    for i in 0..5 {
        let out = mgr.process_message(msg(
            &format!("m{}", i),
            Some("g1"),
            "C1",
            "alice",
            &ts_minute(i),
            "hello",
        ));
        assert!(out.is_empty());
    }
    // 20 minutes after the fifth message (minute 4): gap exceeded
    let out = mgr.process_message(msg(
        "m5",
        Some("g1"),
        "C1",
        "bob",
        "2024-01-01T10:24:00Z",
        "late",
    ));
    assert_eq!(out.len(), 1);
    assert_eq!(out[0].message_count, 5);
    assert_eq!(out[0].last_msg_id, "m4");
    // the sixth message starts a fresh buffer
    assert_eq!(mgr.buffers[0].1.len(), 1);
}

#[test]
fn below_minimum_on_gap() {
    let mut mgr = ChunkManager::new();
    for i in 0..2 {
        let out = mgr.process_message(msg(
            &format!("m{}", i),
            None,
            "C1",
            "alice",
            &ts_minute(i),
            "hi",
        ));
        assert!(out.is_empty());
    }
    assert!(2 < MIN_CHUNK_SIZE);
    let out = mgr.process_message(msg("m2", None, "C1", "bob", "2024-01-01T10:21:00Z", "late"));
    assert!(out.is_empty());
    // nothing was emitted; the late message joined the same buffer
    assert_eq!(mgr.buffers.len(), 1);
    assert_eq!(mgr.buffers[0].1.len(), 3);
}

#[test]
fn unparseable_timestamp_still_appended() {
    let mut mgr = ChunkManager::new();
    let out = mgr.process_message(msg(
        "m0",
        Some("g"),
        "c",
        "alice",
        "2024-01-01T00:00:00Z",
        "first",
    ));
    assert!(out.is_empty());
    let t_after_first = mgr.buffers[0].1.last_message_time;
    assert_eq!(t_after_first, 1_704_067_200_000i64);
    let out = mgr.process_message(msg("m1", Some("g"), "c", "bob", "not a timestamp", "second"));
    assert!(out.is_empty());
    assert_eq!(mgr.buffers[0].1.len(), 2);
    assert_eq!(mgr.buffers[0].1.last_message_time, t_after_first);
}

#[test]
fn authors_sorted_and_distinct() {
    let mut mgr = ChunkManager::new();
    for (i, author) in ["bob", "alice", "bob"].iter().enumerate() {
        mgr.process_message(msg(
            &format!("m{}", i),
            Some("g"),
            "c",
            author,
            &ts_minute(i),
            "x",
        ));
    }
    let chunks = mgr.flush_all_buffers();
    assert_eq!(chunks.len(), 1);
    assert_eq!(chunks[0].authors, vec!["alice".to_string(), "bob".to_string()]);
}

#[test]
fn full_text_keeps_insertion_order() {
    let mut mgr = ChunkManager::new();
    mgr.process_message(msg("m0", None, "c", "a", &ts_minute(0), "one"));
    mgr.process_message(msg("m1", None, "c", "b", &ts_minute(1), "two"));
    mgr.process_message(msg("m2", None, "c", "a", &ts_minute(2), "three"));
    let chunks = mgr.flush_all_buffers();
    assert_eq!(chunks.len(), 1);
    assert_eq!(chunks[0].full_text, "a: one\nb: two\na: three");
}

#[test]
fn full_text_splits_into_message_count_lines() {
    let mut mgr = ChunkManager::new();
    for i in 0..5 {
        mgr.process_message(msg(
            &format!("m{}", i),
            Some("g"),
            "c",
            "alice",
            &ts_minute(i),
            &format!("line number {}", i),
        ));
    }
    let chunks = mgr.flush_all_buffers();
    assert_eq!(chunks.len(), 1);
    let lines: Vec<&str> = chunks[0].full_text.split('\n').collect();
    assert_eq!(lines.len(), chunks[0].message_count);
    assert_eq!(lines[3], "alice: line number 3");
}

#[test]
fn buffers_are_isolated_across_channels() {
    let mut mgr = ChunkManager::new();
    // two messages for channel B first
    mgr.process_message(msg("b0", Some("g"), "B", "bob", &ts_minute(0), "b text"));
    mgr.process_message(msg("b1", Some("g"), "B", "bob", &ts_minute(1), "b text 2"));
    // twelve messages for channel A force an emission there
    let mut emitted = Vec::new();
    for i in 0..12 {
        let mut out = mgr.process_message(msg(
            &format!("a{}", i),
            Some("g"),
            "A",
            "alice",
            &ts_minute(i),
            "a text",
        ));
        emitted.append(&mut out);
    }
    assert_eq!(emitted.len(), 1);
    assert_eq!(emitted[0].channel_id, "A");
    // channel B's buffer is untouched by A's emission
    let b_entry = mgr
        .buffers
        .iter()
        .find(|(k, _)| k.channel_id == "B")
        .expect("buffer for B");
    assert_eq!(b_entry.1.len(), 2);
}

#[test]
fn drain_emits_below_minimum() {
    let mut mgr = ChunkManager::new();
    mgr.process_message(msg("s0", None, "solo", "alice", &ts_minute(0), "only"));
    for i in 0..4 {
        mgr.process_message(msg(
            &format!("q{}", i),
            None,
            "quad",
            "bob",
            &ts_minute(i),
            "q",
        ));
    }
    let chunks = mgr.flush_all_buffers();
    assert_eq!(chunks.len(), 2);
    assert_eq!(chunks[0].message_count, 1);
    assert_eq!(chunks[0].channel_id, "solo");
    assert_eq!(chunks[1].message_count, 4);
    assert_eq!(chunks[1].channel_id, "quad");
    for (_, buf) in &mgr.buffers {
        assert!(buf.is_empty());
    }
}

#[test]
fn summary_path_over_threshold() {
    let mut mgr = ChunkManager::new();
    let long_text = "x".repeat(500);
    for i in 0..5 {
        mgr.process_message(msg(
            &format!("m{}", i),
            Some("g"),
            "c",
            "alice",
            &ts_minute(i),
            &long_text,
        ));
    }
    let mut chunks = mgr.flush_all_buffers();
    assert_eq!(chunks.len(), 1);
    let mut c = chunks.remove(0);
    assert!(c.full_text.len() > 2000);
    assert!(needs_summary(&c));
    attach_summary(&mut c, Some("a short summary".to_string()));
    assert!(c.has_summary);
    assert_eq!(c.summary.as_deref(), Some("a short summary"));
    assert_eq!(embedding_input(&c), "a short summary");
}

#[test]
fn summary_skipped_under_threshold() {
    let mut mgr = ChunkManager::new();
    for i in 0..3 {
        mgr.process_message(msg(
            &format!("m{}", i),
            Some("g"),
            "c",
            "alice",
            &ts_minute(i),
            "short",
        ));
    }
    let mut chunks = mgr.flush_all_buffers();
    let mut c = chunks.remove(0);
    assert!(!needs_summary(&c));
    attach_summary(&mut c, None);
    assert!(!c.has_summary);
    assert!(c.summary.is_none());
    assert_eq!(embedding_input(&c), &c.full_text);
}

#[test]
fn member_newlines_add_extra_lines() {
    // a newline inside a member's text adds lines beyond message_count;
    // the one-line-per-member correspondence holds only for newline-free
    // members
    let mut mgr = ChunkManager::new();
    mgr.process_message(msg("m0", None, "c", "a", &ts_minute(0), "first\nsecond"));
    mgr.process_message(msg("m1", None, "c", "b", &ts_minute(1), "third"));
    let chunks = mgr.flush_all_buffers();
    assert_eq!(chunks[0].message_count, 2);
    assert_eq!(chunks[0].full_text.split('\n').count(), 3);
}

#[test]
fn buffer_should_flush_rules() {
    let mut buf = MessageBuffer::new();
    // empty buffer never flushes
    assert!(!buf.should_flush(10_000_000_000));
    buf.add_message(
        msg("m0", None, "c", "a", "2024-01-01T00:00:00Z", "x"),
        Some(1_704_067_200_000),
    );
    // within the gap: no flush
    assert!(!buf.should_flush(1_704_067_200_000 + 15 * 60 * 1000));
    // one millisecond beyond the gap: flush
    assert!(buf.should_flush(1_704_067_200_000 + 15 * 60 * 1000 + 1));
    // an earlier arrival does not look like a gap
    assert!(!buf.should_flush(1_704_067_100_000));
}

#[test]
fn create_chunk_below_minimum_keeps_buffer() {
    // 10:00 on 2024-01-01 is 1_704_103_200 seconds after the epoch
    let base = 1_704_103_200_000i64;
    let mut buf = MessageBuffer::new();
    buf.add_message(msg("m0", None, "c", "a", &ts_minute(0), "x"), Some(base));
    buf.add_message(msg("m1", None, "c", "a", &ts_minute(1), "y"), Some(base + 60_000));
    assert!(buf.create_chunk().is_none());
    assert_eq!(buf.len(), 2);
    buf.add_message(msg("m2", None, "c", "b", &ts_minute(2), "z"), Some(base + 120_000));
    let c = buf.create_chunk().expect("minimum reached");
    assert_eq!(c.message_count, 3);
    assert!(buf.is_empty());
}
