use scrapes::downloader::types::DownloadTask;
use scrapes::downloader::utils::{
    classify_temp_file, cleanup_dir, cleanup_stem, merge_chunks, temp_files_to_remove,
    MergeError, TempFile, MERGE_BUFFER_SIZE,
};
use scrapes::paths::{done_marker_path, part_file_path, temp_output_path};

#[test]
fn test_merge_two_chunks() {
    let parts = vec![Some(b"Hello ".to_vec()), Some(b"World!".to_vec())];
    let merged = merge_chunks(&parts).unwrap();
    assert_eq!(String::from_utf8(merged).unwrap(), "Hello World!");
}

#[test]
fn test_merge_large_chunks() {
    let mut parts = vec![];
    for i in 0..3 {
        let data = vec![i as u8; 1024 * 1024];
        parts.push(Some(data));
    }

    let buf = merge_chunks(&parts).unwrap();
    assert_eq!(buf.len(), 3 * 1024 * 1024);

    assert_eq!(buf[..1024 * 1024], vec![0; 1024 * 1024]);
    assert_eq!(buf[1024 * 1024..2 * 1024 * 1024], vec![1; 1024 * 1024]);
    assert_eq!(buf[2 * 1024 * 1024..], vec![2; 1024 * 1024]);
}

#[test]
fn test_merge_empty_input_list() {
    let result = merge_chunks(&vec![]);
    assert!(result.is_ok(), "Merging empty list should succeed");
    assert_eq!(result.unwrap().len(), 0);
}

#[test]
fn test_merge_with_missing_chunk() {
    let result = merge_chunks(&vec![None]);
    assert!(result.is_err(), "Should error when chunk is missing");
}

#[test]
fn test_merge_reports_the_first_missing_part() {
    let parts = vec![Some(vec![1u8]), None, Some(vec![2u8]), None];
    assert_eq!(merge_chunks(&parts), Err(MergeError::MissingPart { index: 1 }));
}

#[test]
fn test_merge_does_not_depend_on_chunk_boundaries() {
    let text = b"Hello World!".to_vec();
    for cut in 0..=text.len() {
        let parts = vec![Some(text[..cut].to_vec()), Some(text[cut..].to_vec())];
        assert_eq!(merge_chunks(&parts).unwrap(), text);
    }
    let parts: Vec<Option<Vec<u8>>> = text.iter().map(|b| Some(vec![*b])).collect();
    assert_eq!(merge_chunks(&parts).unwrap(), text);
}

#[test]
fn test_merge_restores_a_planned_resource() {
    let data: Vec<u8> = (0u8..=255).cycle().take(10_000).collect();
    let task = DownloadTask {
        url: "https://example.com/data".to_string(),
        output: "data.bin".to_string(),
        total_size: data.len() as u64,
        chunk_size: 777,
        num_chunks: 0,
    };
    let parts: Vec<Option<Vec<u8>>> = task
        .create_chunks()
        .iter()
        .map(|c| Some(data[c.start as usize..=c.end as usize].to_vec()))
        .collect();
    assert_eq!(merge_chunks(&parts).unwrap(), data);
}

#[test]
fn test_merge_buffer_is_one_mebibyte() {
    assert_eq!(MERGE_BUFFER_SIZE, 1 << 20);
}

#[test]
fn test_done_marker_sits_beside_the_part_file() {
    assert_eq!(done_marker_path("file.part0"), "file.part0.done");
    assert_eq!(done_marker_path("downloads/video.part12"), "downloads/video.part12.done");
    assert_eq!(done_marker_path("/tmp/x/out.part3"), "/tmp/x/out.part3.done");
}

#[test]
fn test_done_marker_of_a_path_without_file_name() {
    assert_eq!(done_marker_path(".."), "../part.done");
}

#[test]
fn test_part_file_path_by_index() {
    assert_eq!(part_file_path("file.bin", 0), "file.part0");
    assert_eq!(part_file_path("file.bin", 10), "file.part10");
    assert_eq!(part_file_path("dir/file.bin", 123456), "dir/file.part123456");
}

#[test]
fn test_temp_output_path_has_part_extension() {
    assert_eq!(temp_output_path("movie.mp4"), "movie.part");
    assert_eq!(temp_output_path("out/movie.mp4"), "out/movie.part");
    assert_eq!(temp_output_path("movie"), "movie.part");
}

#[test]
fn test_classify_temp_file() {
    assert_eq!(classify_temp_file("video.part0", "video"), TempFile::Part);
    assert_eq!(classify_temp_file("video.part17", "video"), TempFile::Part);
    assert_eq!(classify_temp_file("video.part0.done", "video"), TempFile::Marker);
    assert_eq!(classify_temp_file("video.mp4", "video"), TempFile::Other);
    assert_eq!(classify_temp_file("other.part0", "video"), TempFile::Other);
    assert_eq!(classify_temp_file("video.par", "video"), TempFile::Other);
    assert_eq!(classify_temp_file("video.part", "video"), TempFile::Part);
    assert_eq!(classify_temp_file("", "video"), TempFile::Other);
}

#[test]
fn test_cleanup_stem_and_dir() {
    assert_eq!(cleanup_stem("a/b/video.mp4"), "video");
    assert_eq!(cleanup_dir("a/b/video.mp4"), "a/b");
    assert_eq!(cleanup_stem("video.mp4"), "video");
    assert_eq!(cleanup_dir("video.mp4"), "");
    assert_eq!(cleanup_stem(".."), "file");
    assert_eq!(cleanup_dir("/"), ".");
}

#[test]
fn test_temp_files_to_remove_picks_parts_and_markers() {
    let names: Vec<String> = [
        "video.mp4",
        "video.part0",
        "video.part0.done",
        "notes.txt",
        "video.part1",
        "videos.part0",
        "video.part",
    ]
    .iter()
    .map(|s| s.to_string())
    .collect();
    assert_eq!(temp_files_to_remove(&names, "video"), vec![1, 2, 4, 6]);
    assert_eq!(temp_files_to_remove(&names, "videos"), vec![5]);
    assert_eq!(temp_files_to_remove(&names, "audio"), Vec::<usize>::new());
    assert_eq!(temp_files_to_remove(&vec![], "video"), Vec::<usize>::new());
}
