use log_inspector::chunk_strategy::{ChunkConfig, ChunkStrategy};
use log_inspector::log_reader::LogReader;

#[test]
fn test_large_file_multiple_chunks() {
    // Create a larger log file content (>10KB to trigger chunking)
    let mut content = String::new();
    for i in 0..200 {
        content.push_str(&format!(
            "2024-01-10 10:15:{:02} INFO: Log entry {}\n\
             2024-01-10 10:15:{:02} ERROR: Error message {}\n\
             2024-01-10 10:15:{:02} WARNING: Warning message {}\n",
            i, i, i, i, i, i
        ));
    }

    let reader = LogReader::new("test.log", content.len());
    let chunks = reader.read_chunks(content.as_bytes());

    assert!(chunks.len() > 1);
    assert!(chunks.iter().all(|chunk| !chunk.is_empty()));
}

#[test]
fn empty_file_gives_no_chunks() {
    let reader = LogReader::new("empty.log", 0);
    assert_eq!(reader.optimal_chunk_size(), 0);
    let chunks = reader.read_chunks(&[]);
    assert!(chunks.is_empty());
}

#[test]
fn small_file_is_one_chunk() {
    let content = "x".repeat(5_000);
    let reader = LogReader::new("small.log", content.len());
    assert_eq!(reader.optimal_chunk_size(), 5_000);
    let chunks = reader.read_chunks(content.as_bytes());
    assert_eq!(chunks.len(), 1);
    assert_eq!(chunks[0], content.as_bytes());
}

#[test]
fn reader_keeps_its_path() {
    let reader = LogReader::new("/var/log/app.log", 12);
    assert_eq!(reader.file_path(), "/var/log/app.log");
}

#[test]
fn large_file_is_cut_under_the_cap() {
    let content = "y".repeat(1_000_000);
    let reader = LogReader::new("large.log", content.len());
    assert_eq!(reader.optimal_chunk_size(), 20_000);
    let chunks = reader.read_chunks(content.as_bytes());
    assert!(chunks.len() >= 48);
    for chunk in chunks[..chunks.len() - 1].iter() {
        assert!(chunk.len() <= 20_000);
    }
    // without markers every cut is a full window; the rest fits the chunk size
    assert_eq!(chunks.len(), 981);
    assert!(chunks[..980].iter().all(|chunk| chunk.len() == 1_000));
    assert_eq!(chunks[980].len(), 20_000);
}

#[test]
fn chunks_cover_the_content_without_gap() {
    let mut content = String::new();
    for i in 0..900 {
        content.push_str(&format!("entry {} of the run\nERROR: code {}\nWARNING: slow {}\n", i, i, i));
    }
    let reader = LogReader::new("cover.log", content.len());
    let chunks = reader.read_chunks(content.as_bytes());
    assert!(chunks.len() > 1);
    let joined: Vec<u8> = chunks.concat();
    assert_eq!(joined, content.as_bytes());
    assert!(chunks.iter().all(|chunk| !chunk.is_empty()));
}

#[test]
fn chunks_end_after_error_markers() {
    let mut content = String::new();
    for i in 0..400 {
        content.push_str(&format!("step {:04} finished in good order\nERROR: step {:04} failed\n", i, i));
    }
    let reader = LogReader::new("markers.log", content.len());
    let chunks = reader.read_chunks(content.as_bytes());
    assert!(chunks.len() > 2);
    // each cut lies five bytes into a marker: the chunk ends with "\nERRO"
    for chunk in chunks[..chunks.len() - 1].iter() {
        assert!(chunk.ends_with(b"\nERRO"));
        assert!(chunk.len() <= 1_000);
    }
    assert_eq!(chunks.concat(), content.as_bytes());
}

#[test]
fn chunking_twice_gives_the_same_chunks() {
    let mut content = String::new();
    for i in 0..700 {
        content.push_str(&format!("{} some text\nWARNING: again {}\n", i, i));
    }
    let first = LogReader::new("same.log", content.len()).read_chunks(content.as_bytes());
    let second = LogReader::new("same.log", content.len()).read_chunks(content.as_bytes());
    assert_eq!(first, second);
    let reader = LogReader::new("same.log", content.len());
    assert_eq!(reader.read_chunks(content.as_bytes()), first);
    assert_eq!(reader.read_chunks(content.as_bytes()), first);
}

#[test]
fn content_at_the_chunk_size_is_one_chunk() {
    // 10,000 bytes: split regime, chunk size 1,000
    let reader = LogReader::new("edge.log", 10_000);
    assert_eq!(reader.optimal_chunk_size(), 1_000);
    let exactly = "z".repeat(1_000);
    assert_eq!(reader.read_chunks(exactly.as_bytes()), vec![exactly.as_bytes().to_vec()]);
    let one_more = "z".repeat(1_001);
    let chunks = reader.read_chunks(one_more.as_bytes());
    assert_eq!(chunks.len(), 2);
    assert_eq!(chunks[0].len(), 1_000);
    assert_eq!(chunks[1].len(), 1);
}

#[test]
fn reader_with_a_custom_strategy_falls_back_to_the_minimum() {
    let config = ChunkConfig {
        max_tokens_per_chunk: 2500,
        overlap_lines: 5,
        context_window: 64,
        estimated_line_size: 100,
        max_lines_per_chunk: 200,
        min_chunk_size: 500,
    };
    let strategy = ChunkStrategy::with_config(config).unwrap();
    let reader = LogReader::with_strategy("custom.log", 600, strategy);
    assert_eq!(reader.optimal_chunk_size(), 500);
    let content = "k".repeat(600);
    let chunks = reader.read_chunks(content.as_bytes());
    // cuts of one window until at most 500 bytes are left
    assert_eq!(chunks.len(), 3);
    assert_eq!(chunks[0].len(), 64);
    assert_eq!(chunks[1].len(), 64);
    assert_eq!(chunks[2].len(), 472);
    assert_eq!(chunks.concat(), content.as_bytes());
}
