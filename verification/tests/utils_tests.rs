//! Utility behaviour: text, hashing, ids, batching, compression, caching.

use rwkv_agent_kit::utils::{
    BatchUtils, CacheUtils, HashUtils, IdGenerator, SerializationUtils, TextUtils, TimeUtils,
};
use rwkv_agent_kit::version_info;

#[test]
fn test_version_info() {
    let info = version_info();
    assert!(info.contains("RWKV-Agent-Kit"));
    assert!(info.contains("0.1.1"));
}

#[test]
fn test_keyword_extraction() {
    let text = "机器学习是人工智能的一个重要分支。深度学习是机器学习的子领域。";
    let keywords = TextUtils::extract_keywords(text, 3);

    assert!(!keywords.is_empty());
    assert!(keywords.len() > 0);
}

#[test]
fn test_keyword_extraction_english() {
    let text = "Memory memory memory graph graph retrieval the the the";
    let keywords = TextUtils::extract_keywords(text, 2);
    assert_eq!(keywords, vec!["memory".to_string(), "graph".to_string()]);
    // Stop words never surface.
    assert!(!keywords.contains(&"the".to_string()));
}

#[test]
fn test_summarize() {
    let text = "First point. Second point. Third point. Fourth point.";
    let s = TextUtils::summarize(text, 2);
    assert_eq!(s, "First point. Second point.");
    // A text with no more sentences than asked for is returned whole.
    let short = "Only one sentence.";
    assert_eq!(TextUtils::summarize(short, 3), short);
}

#[test]
fn test_syllables_and_language() {
    assert_eq!(TextUtils::estimate_syllables("hello world"), 3);
    // A word with no vowels still counts one syllable.
    assert_eq!(TextUtils::estimate_syllables("hmm"), 1);

    assert_eq!(TextUtils::detect_language("这是一个测试文本"), Some("zh".to_string()));
    assert_eq!(TextUtils::detect_language("plain english text"), Some("en".to_string()));
    assert_eq!(TextUtils::detect_language("12345 !!!"), None);
    // Non-ASCII alphabetic characters count as letters.
    assert_eq!(TextUtils::detect_language("café état"), Some("en".to_string()));
    assert_eq!(TextUtils::detect_language("Ελληνικά"), Some("en".to_string()));
}

#[test]
fn test_hash_generation() {
    let input = "测试字符串";
    let hash1 = HashUtils::hash_string(input);
    let hash2 = HashUtils::hash_string(input);

    assert_eq!(hash1, hash2);
    assert_eq!(hash1.len(), 64);
    // The digest is not the input handed back.
    assert_ne!(hash1, input);
    assert_ne!(hash1, HashUtils::hash_string("another string"));

    let short_hash = HashUtils::short_hash(input, 8);
    assert_eq!(short_hash.chars().count(), 8);
    assert!(hash1.starts_with(&short_hash));

    assert!(HashUtils::verify_hash(input, &hash1));
    assert!(!HashUtils::verify_hash("something else", &hash1));
}

#[test]
fn test_cache_key_and_cleanup_cadence() {
    let a = CacheUtils::generate_cache_key(&vec!["SELECT 1".to_string(), "x".to_string()]);
    let b = CacheUtils::generate_cache_key(&vec!["SELECT 1".to_string(), "x".to_string()]);
    let c = CacheUtils::generate_cache_key(&vec!["SELECT 1".to_string(), "y".to_string()]);
    assert_eq!(a, b);
    assert_ne!(a, c);
    assert_eq!(a.len(), 64);

    assert!(CacheUtils::should_cleanup(None, 1000, 0));
    assert!(!CacheUtils::should_cleanup(Some(500), 1000, 1200));
    assert!(CacheUtils::should_cleanup(Some(500), 1000, 1501));
}

#[test]
fn test_memory_estimate() {
    let items: [u32; 4] = [1, 2, 3, 4];
    assert_eq!(CacheUtils::estimate_memory_usage(&items), 16);
}

#[test]
fn test_id_generation() {
    let memory_id = IdGenerator::generate_memory_id();
    let connection_id = IdGenerator::generate_connection_id();

    assert!(memory_id.starts_with("mem_"));
    assert!(connection_id.starts_with("conn_"));

    let id1 = IdGenerator::generate_memory_id();
    let id2 = IdGenerator::generate_memory_id();
    assert_ne!(id1, id2);

    assert!(IdGenerator::generate_session_id().starts_with("session_"));
    assert!(IdGenerator::generate_query_id().starts_with("query_"));
    assert!(IdGenerator::generate_interaction_id().starts_with("interaction_"));
    let timed = IdGenerator::generate_time_based_id("job", 255);
    assert!(timed.starts_with("job_255_"));
    assert_eq!(IdGenerator::generate_short_id(6).chars().count(), 6);
}

#[test]
fn test_batch_chunking() {
    let data: Vec<i32> = (1..=10).collect();
    let chunks = BatchUtils::chunk(data, 3);

    assert_eq!(chunks.len(), 4);
    assert_eq!(chunks[0], vec![1, 2, 3]);
    assert_eq!(chunks[3], vec![10]);

    let whole = BatchUtils::chunk(vec![7, 8], 0);
    assert_eq!(whole, vec![vec![7, 8]]);
    let empty: Vec<Vec<i32>> = BatchUtils::chunk(Vec::new(), 3);
    assert_eq!(empty.len(), 0);
}

#[test]
fn test_compression() {
    let data = "这是一些测试数据，应该可以被压缩。重复的内容重复的内容重复的内容重复的内容重复的内容重复的内容重复的内容重复的内容重复的内容重复的内容重复的内容重复的内容重复的内容重复的内容重复的内容重复的内容重复的内容重复的内容重复的内容重复的内容。"
        .as_bytes()
        .to_vec();
    let result = SerializationUtils::compress(&data);

    assert!(result.compressed_size <= result.original_size);
    assert!(result.compression_ratio <= 1000);
    // The compressed bytes are not the input handed back.
    assert_ne!(result.compressed_data, data);

    let decompressed = SerializationUtils::decompress(&result.compressed_data).unwrap();
    assert_eq!(data, decompressed);

    // Bytes that are not gzip decode to nothing.
    assert!(SerializationUtils::decompress(&vec![1, 2, 3]).is_none());
}

#[test]
fn test_time_ranges() {
    let range = TimeUtils::create_range(100, 200).unwrap();
    assert!(TimeUtils::is_in_range(100, &range));
    assert!(TimeUtils::is_in_range(200, &range));
    assert!(!TimeUtils::is_in_range(201, &range));
    assert!(TimeUtils::create_range(200, 100).is_none());
}
