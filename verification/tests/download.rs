use kokoro_reader::commands::{DownloadProgress as ModelProgress, ModelStatus, MODEL_SIZE_BYTES};
use kokoro_reader::download::{
    DownloadError, DownloadProgress, DownloadStatus, ModelDownloader, ModelFiles,
};

#[test]
fn nine_files_are_required() {
    let files = ModelFiles::get_required_files();
    let paths: Vec<&str> = files.iter().map(|f| f.path).collect();
    assert_eq!(
        paths,
        vec![
            "onnx/model_q8f16.onnx",
            "tokenizer.json",
            "config.json",
            "voices/af.bin",
            "voices/af_bella.bin",
            "voices/af_heart.bin",
            "voices/am_adam.bin",
            "voices/bf_emma.bin",
            "voices/bm_george.bin"
        ]
    );
    let sizes: Vec<u64> = files.iter().map(|f| f.size).collect();
    assert_eq!(
        sizes,
        vec![86_000_000, 3_500, 44, 1_200_000, 1_200_000, 1_200_000, 1_200_000, 1_200_000, 1_200_000]
    );
    assert_eq!(files[0].name, "Kokoro Model (86MB)");
    assert_eq!(files[1].name, "Tokenizer");
    assert_eq!(files[2].name, "Config");
    assert_eq!(files[3].name, "Voice: American Female (default)");
    assert_eq!(files[8].name, "Voice: George (British)");
}

#[test]
fn with_all_files_found_nothing_is_missing() {
    let files = ModelFiles::new("/models".to_string());
    let found = vec![true; 9];
    assert!(files.is_complete(&found));
    assert!(files.get_missing_files(&found).is_empty());
    assert_eq!(files.get_download_size(&found), 0);
}

#[test]
fn with_no_file_found_everything_is_missing() {
    let files = ModelFiles::new("/models".to_string());
    let found = vec![false; 9];
    assert!(!files.is_complete(&found));
    assert_eq!(files.get_missing_files(&found).len(), 9);
    assert_eq!(files.get_download_size(&found), 93_203_544);
    assert_eq!(files.get_download_size(&vec![]), 93_203_544);
}

#[test]
fn the_missing_files_keep_their_order() {
    let files = ModelFiles::new("/models".to_string());
    let found = vec![true, false, true, true, false, true, true, true, false];
    let missing: Vec<&str> = files.get_missing_files(&found).iter().map(|f| f.path).collect();
    assert_eq!(missing, vec!["tokenizer.json", "voices/af_bella.bin", "voices/bm_george.bin"]);
    assert_eq!(files.get_download_size(&found), 3_500 + 1_200_000 + 1_200_000);
    assert!(!files.is_complete(&found));
}

#[test]
fn a_short_list_of_findings_leaves_the_rest_missing() {
    let files = ModelFiles::new("/models".to_string());
    let found = vec![true, true];
    assert_eq!(files.get_missing_files(&found).len(), 7);
    assert_eq!(files.get_download_size(&found), 44 + 6 * 1_200_000);
}

fn below(base: &str, rest: &str) -> String {
    std::path::Path::new(base).join(rest).to_string_lossy().into_owned()
}

#[test]
fn paths_lie_below_the_model_directory() {
    let files = ModelFiles::new("/m".to_string());
    assert_eq!(files.base_dir, "/m");
    assert_eq!(files.model_path(), below("/m", "onnx/model_q8f16.onnx"));
    assert_eq!(files.tokenizer_path(), below("/m", "tokenizer.json"));
    assert_eq!(files.voice_path("af_bella"), below("/m", "voices/af_bella.bin"));
    assert_eq!(files.voice_path(""), below("/m", "voices/.bin"));
    assert_eq!(files.base_dir, "/m");
    assert_ne!(files.voice_path("af_bella"), "voices/af_bella.bin");
    assert!(files.voice_path("af_bella").starts_with("/m"));
    assert!(files.voice_path("af_bella").ends_with("af_bella.bin"));
}

#[test]
fn a_directory_that_ends_in_a_separator_gets_no_second_one() {
    let files = ModelFiles::new(below("models", ""));
    assert_eq!(files.tokenizer_path(), below("models", "tokenizer.json"));
    let nowhere = ModelFiles::new(String::new());
    assert_eq!(nowhere.tokenizer_path(), "tokenizer.json");
}

#[test]
fn the_required_paths_follow_the_list() {
    let files = ModelFiles::new("/m".to_string());
    let paths = files.required_paths();
    let expected: Vec<String> =
        ModelFiles::get_required_files().iter().map(|f| below("/m", f.path)).collect();
    assert_eq!(paths, expected);
    assert_eq!(paths.len(), 9);
    assert_eq!(paths[0], files.model_path());
    assert_eq!(paths[1], files.tokenizer_path());
    assert_eq!(paths[4], files.voice_path("af_bella"));
}

#[test]
fn the_plan_names_each_missing_file_once() {
    let downloader = ModelDownloader::new("/models".to_string());
    assert_eq!(downloader.model_files().base_dir, "/models");
    let found = vec![true, false, true, true, true, true, true, false, true];
    let plan = downloader.plan(&found);
    assert_eq!(plan.len(), 2);
    assert_eq!(
        plan[0].url,
        "https://huggingface.co/onnx-community/Kokoro-82M-v1.0-ONNX/resolve/main/tokenizer.json"
    );
    assert_eq!(plan[0].path, "tokenizer.json");
    assert_eq!(plan[0].dest, below("/models", "tokenizer.json"));
    assert_eq!(plan[0].name, "Tokenizer");
    assert_eq!(plan[0].current_file, 1);
    assert_eq!(plan[0].total_files, 2);
    assert_eq!(
        plan[1].url,
        "https://huggingface.co/onnx-community/Kokoro-82M-v1.0-ONNX/resolve/main/voices/bf_emma.bin"
    );
    assert_eq!(plan[1].name, "Voice: Emma (British)");
    assert_eq!(plan[1].dest, below("/models", "voices/bf_emma.bin"));
    assert_eq!(plan[1].current_file, 2);
    assert_eq!(plan[1].total_files, 2);
    assert!(downloader.plan(&vec![true; 9]).is_empty());
}

#[test]
fn progress_reports_speak_of_steps() {
    let step = DownloadProgress::step("Tokenizer", 2, 3, DownloadStatus::Starting);
    assert_eq!(step.file_name, "Tokenizer");
    assert_eq!(step.bytes_downloaded, 0);
    assert_eq!(step.total_bytes, None);
    assert_eq!(step.current_file, 2);
    assert_eq!(step.total_files, 3);
    assert_eq!(step.status, DownloadStatus::Starting);
    let nothing = DownloadProgress::nothing_to_do();
    assert_eq!(nothing.file_name, "All files");
    assert_eq!(nothing.current_file, 0);
    assert_eq!(nothing.total_files, 0);
    assert_eq!(nothing.status, DownloadStatus::AlreadyExists);
    let done = DownloadProgress::all_done(4);
    assert_eq!(done.file_name, "All files");
    assert_eq!(done.current_file, 4);
    assert_eq!(done.total_files, 4);
    assert_eq!(done.status, DownloadStatus::Completed);
}

#[test]
fn statuses_are_reported_in_snake_case() {
    assert_eq!(DownloadStatus::Starting.name(), "starting");
    assert_eq!(DownloadStatus::Downloading.name(), "downloading");
    assert_eq!(DownloadStatus::Completed.name(), "completed");
    assert_eq!(DownloadStatus::Failed.name(), "failed");
    assert_eq!(DownloadStatus::AlreadyExists.name(), "already_exists");
}

#[test]
fn download_errors_say_what_failed() {
    assert_eq!(DownloadError::NetworkError("a".to_string()).message(), "Network error: a");
    assert_eq!(DownloadError::IoError("b".to_string()).message(), "IO error: b");
    assert_eq!(
        DownloadError::DirectoryError("c".to_string()).message(),
        "Failed to create directory: c"
    );
    assert_eq!(DownloadError::Interrupted.message(), "Download interrupted");
}

#[test]
fn a_model_that_is_there_misses_nothing() {
    let status = ModelStatus::of(true, "/cache".to_string());
    assert!(status.is_ready);
    assert!(!status.is_downloading);
    assert!(status.missing_files.is_empty());
    assert_eq!(status.download_size_bytes, 0);
    assert_eq!(status.model_dir, "/cache");
}

#[test]
fn a_model_that_is_not_there_is_missing_whole() {
    let status = ModelStatus::of(false, "/cache".to_string());
    assert!(!status.is_ready);
    assert!(!status.is_downloading);
    assert_eq!(status.missing_files, vec!["sesame/csm-1b".to_string()]);
    assert_eq!(status.download_size_bytes, 4_000_000_000);
    assert_eq!(MODEL_SIZE_BYTES, 4_000_000_000);
}

#[test]
fn the_fetching_of_the_model_is_reported_in_three_ways() {
    let started = ModelProgress::started();
    assert_eq!(started.file_name, "sesame/csm-1b");
    assert_eq!(started.bytes_downloaded, 0);
    assert_eq!(started.total_bytes, Some(4_000_000_000));
    assert_eq!((started.current_file, started.total_files), (1, 1));
    assert_eq!(started.status, "downloading");
    let completed = ModelProgress::completed();
    assert_eq!(completed.bytes_downloaded, 4_000_000_000);
    assert_eq!(completed.total_bytes, Some(4_000_000_000));
    assert_eq!(completed.status, "complete");
    let failed = ModelProgress::failed("timed out");
    assert_eq!(failed.bytes_downloaded, 0);
    assert_eq!(failed.total_bytes, None);
    assert_eq!(failed.status, "error: timed out");
    assert_eq!(failed.file_name, "sesame/csm-1b");
}
