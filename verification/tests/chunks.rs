use scrapes::downloader::manager::{DownloadFailure, DownloadManager};
use scrapes::downloader::types::{Chunk, DownloadTask};
use scrapes::downloader::{task_for, DEFAULT_CHUNK_SIZE};

fn task(output: &str, total_size: u64, chunk_size: u64) -> DownloadTask {
    DownloadTask {
        url: "https://example.com/file.bin".to_string(),
        output: output.to_string(),
        total_size,
        chunk_size,
        num_chunks: 0,
    }
}

fn assert_tiles(chunks: &[Chunk], total_size: u64, chunk_size: u64) {
    assert!(!chunks.is_empty());
    assert_eq!(chunks[0].start, 0);
    assert_eq!(chunks[chunks.len() - 1].end, total_size - 1);
    for (i, chunk) in chunks.iter().enumerate() {
        assert_eq!(chunk.index, i);
        assert!(chunk.start <= chunk.end);
        assert_eq!(chunk.downloaded, 0);
        if i + 1 < chunks.len() {
            assert_eq!(chunk.end + 1, chunks[i + 1].start);
            assert_eq!(chunk.end - chunk.start + 1, chunk_size);
        } else {
            assert!(chunk.end - chunk.start + 1 <= chunk_size);
        }
    }
}

#[test]
fn test_create_chunks_exact_division() {
    let task = DownloadTask {
        url: "https://example.com/file.bin".to_string(),
        output: "file.bin".to_string(),
        total_size: 4000,
        chunk_size: 1000,
        num_chunks: 0,
    };

    let chunks = task.create_chunks();
    assert_eq!(chunks.len(), 4);

    assert_eq!(chunks[0].start, 0);
    assert_eq!(chunks[0].end, 999);
    assert_eq!(chunks[3].start, 3000);
    assert_eq!(chunks[3].end, 3999);

    assert_eq!(chunks[0].path, "file.part0".to_string());
    assert_eq!(chunks[3].path, "file.part3".to_string());
}

#[test]
fn test_create_chunks_non_divisible() {
    let task = DownloadTask {
        url: "https://example.com/file.bin".to_string(),
        output: "video.mp4".to_string(),
        total_size: 4500,
        chunk_size: 1000,
        num_chunks: 0,
    };

    let chunks = task.create_chunks();
    assert_eq!(chunks.len(), 5);

    let last = chunks.last().unwrap();
    assert_eq!(last.end, 4499);
    assert_eq!(last.start, 4000);

    for w in chunks.windows(2) {
        assert_eq!(w[0].end + 1, w[1].start);
    }
}

#[test]
fn test_create_chunks_single_chunk() {
    let task = DownloadTask {
        url: "https://example.com/small.txt".to_string(),
        output: "small.txt".to_string(),
        total_size: 512,
        chunk_size: 1024,
        num_chunks: 0,
    };

    let chunks = task.create_chunks();
    assert_eq!(chunks.len(), 1);
    assert_eq!(chunks[0].start, 0);
    assert_eq!(chunks[0].end, 511);
}

#[test]
fn test_create_chunks_zero_total_size() {
    let task = DownloadTask {
        url: "https://example.com/empty.txt".to_string(),
        output: "empty.txt".to_string(),
        total_size: 0,
        chunk_size: 1000,
        num_chunks: 0,
    };

    let chunks = task.create_chunks();
    assert!(chunks.is_empty());
}

#[test]
fn test_create_chunks_zero_chunk_size() {
    let chunks = task("file.bin", 4000, 0).create_chunks();
    assert!(chunks.is_empty());
    let chunks = task("file.bin", 0, 0).create_chunks();
    assert!(chunks.is_empty());
}

#[test]
fn test_create_chunks_all_four_ranges() {
    let chunks = task("file.bin", 4000, 1000).create_chunks();
    let ranges: Vec<(u64, u64)> = chunks.iter().map(|c| (c.start, c.end)).collect();
    assert_eq!(ranges, vec![(0, 999), (1000, 1999), (2000, 2999), (3000, 3999)]);
}

#[test]
fn test_create_chunks_last_chunk_is_short() {
    let chunks = task("file.bin", 4500, 1000).create_chunks();
    let last = chunks.last().unwrap();
    assert_eq!((last.start, last.end), (4000, 4499));
    assert_eq!(last.end - last.start + 1, 500);
}

#[test]
fn test_create_chunks_tile_the_resource() {
    for (total_size, chunk_size) in [
        (1u64, 1u64),
        (1, 1000),
        (999, 1000),
        (1000, 1000),
        (1001, 1000),
        (4096, 7),
        (16 * 1024, 4096),
        (10_000, 3),
    ] {
        let chunks = task("out.bin", total_size, chunk_size).create_chunks();
        let expected = (total_size + chunk_size - 1) / chunk_size;
        assert_eq!(chunks.len() as u64, expected);
        assert_tiles(&chunks, total_size, chunk_size);
    }
}

#[test]
fn test_create_chunks_at_the_top_of_the_range() {
    let chunks = task("out.bin", u64::MAX, u64::MAX).create_chunks();
    assert_eq!(chunks.len(), 1);
    assert_eq!((chunks[0].start, chunks[0].end), (0, u64::MAX - 1));

    let chunks = task("out.bin", u64::MAX, u64::MAX - 1).create_chunks();
    assert_eq!(chunks.len(), 2);
    assert_eq!((chunks[0].start, chunks[0].end), (0, u64::MAX - 2));
    assert_eq!((chunks[1].start, chunks[1].end), (u64::MAX - 1, u64::MAX - 1));
}

#[test]
fn test_part_paths_replace_the_extension() {
    let chunks = task("downloads/video.mp4", 30, 10).create_chunks();
    let paths: Vec<&str> = chunks.iter().map(|c| c.path.as_str()).collect();
    assert_eq!(
        paths,
        vec!["downloads/video.part0", "downloads/video.part1", "downloads/video.part2"]
    );

    let chunks = task("archive.tar.gz", 12, 1).create_chunks();
    assert_eq!(chunks[11].path, "archive.tar.part11");

    let chunks = task("noext", 1, 1).create_chunks();
    assert_eq!(chunks[0].path, "noext.part0");
}

#[test]
fn test_plan_fits() {
    assert!(task("out.bin", 4000, 1000).plan_fits());
    assert!(task("out.bin", 0, 0).plan_fits());
    assert!(task("out.bin", u64::MAX, 1 << 20).plan_fits());
}

#[test]
fn test_prepare_zero_total_size() {
    let task = DownloadTask {
        url: "https://example.com/file".to_string(),
        output: "file.bin".to_string(),
        total_size: 0,
        chunk_size: 1_000,
        num_chunks: 0,
    };

    let manager = DownloadManager::new();
    let chunks = manager.prepare(&task).unwrap();

    assert!(chunks.is_empty());
}

#[test]
fn test_prepare_never_reports_too_many_chunks_on_64_bits() {
    let manager = DownloadManager::new();
    let result = manager.prepare(&task("out.bin", 1 << 20, 1 << 10));
    assert!(!matches!(result, Err(DownloadFailure::TooManyChunks)));
    assert_eq!(result.unwrap().len(), 1024);
}

#[test]
fn test_chunk_clone_keeps_every_field() {
    let chunks = task("file.bin", 2500, 1000).create_chunks();
    let copy = chunks[2].clone();
    assert_eq!(copy.index, 2);
    assert_eq!(copy.start, 2000);
    assert_eq!(copy.end, 2499);
    assert_eq!(copy.downloaded, 0);
    assert_eq!(copy.path, "file.part2");
}

#[test]
fn test_task_for_uses_the_default_chunk_size() {
    let task = task_for("https://example.com/a".to_string(), "a.bin".to_string(), None);
    assert_eq!(DEFAULT_CHUNK_SIZE, 8 * 1024 * 1024);
    assert_eq!(task.chunk_size, 8_388_608);
    assert_eq!(task.total_size, 0);
    assert_eq!(task.url, "https://example.com/a");
    assert_eq!(task.output, "a.bin");

    let task = task_for("u".to_string(), "o".to_string(), Some(4096));
    assert_eq!(task.chunk_size, 4096);
    let copy = task.clone();
    assert_eq!(copy.chunk_size, 4096);
    assert_eq!(copy.output, "o");
}
