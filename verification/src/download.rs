//! Which model files are needed, which are missing, and what has to be
//! fetched.
//!
//! Looking at the disk and fetching are outside this library. The caller
//! says which of the required files it found; the library says what is
//! missing, how much there is to fetch, and in which steps.

use crate::text::{glue, glue3, join_path, path_joined};
use vstd::prelude::*;
use vstd::string::*;

verus! {

/// What can go wrong with a download.
#[derive(Debug)]
pub enum DownloadError {
    NetworkError(String),
    IoError(String),
    DirectoryError(String),
    Interrupted,
}

impl DownloadError {
    /// The message of the error.
    pub open spec fn text(&self) -> Seq<char> {
        match self {
            DownloadError::NetworkError(detail) => "Network error: "@ + detail@,
            DownloadError::IoError(detail) => "IO error: "@ + detail@,
            DownloadError::DirectoryError(detail) => "Failed to create directory: "@ + detail@,
            DownloadError::Interrupted => "Download interrupted"@,
        }
    }

    /// The message of the error.
    pub fn message(&self) -> (message: String)
        ensures
            message@ == self.text(),
    {
        match self {
            DownloadError::NetworkError(detail) => glue("Network error: ", detail.as_str()),
            DownloadError::IoError(detail) => glue("IO error: ", detail.as_str()),
            DownloadError::DirectoryError(detail) => glue(
                "Failed to create directory: ",
                detail.as_str(),
            ),
            DownloadError::Interrupted => "Download interrupted".to_string(),
        }
    }
}

/// How far a download is.
#[derive(Debug, Clone, Copy, PartialEq, Eq, Structural)]
pub enum DownloadStatus {
    Starting,
    Downloading,
    Completed,
    Failed,
    AlreadyExists,
}

/// The name under which a status is reported.
pub open spec fn status_name(status: DownloadStatus) -> Seq<char> {
    match status {
        DownloadStatus::Starting => "starting"@,
        DownloadStatus::Downloading => "downloading"@,
        DownloadStatus::Completed => "completed"@,
        DownloadStatus::Failed => "failed"@,
        DownloadStatus::AlreadyExists => "already_exists"@,
    }
}

impl DownloadStatus {
    /// The name under which the status is reported.
    pub fn name(&self) -> (name: &'static str)
        ensures
            name@ == status_name(*self),
    {
        match self {
            DownloadStatus::Starting => "starting",
            DownloadStatus::Downloading => "downloading",
            DownloadStatus::Completed => "completed",
            DownloadStatus::Failed => "failed",
            DownloadStatus::AlreadyExists => "already_exists",
        }
    }
}

/// One report on the progress of a download.
#[derive(Debug, Clone)]
pub struct DownloadProgress {
    pub file_name: String,
    pub bytes_downloaded: u64,
    pub total_bytes: Option<u64>,
    pub current_file: usize,
    pub total_files: usize,
    pub status: DownloadStatus,
}

/// A report as plain values.
pub struct ProgressView {
    pub file_name: Seq<char>,
    pub bytes_downloaded: u64,
    pub total_bytes: Option<u64>,
    pub current_file: usize,
    pub total_files: usize,
    pub status: DownloadStatus,
}

impl View for DownloadProgress {
    type V = ProgressView;

    open spec fn view(&self) -> ProgressView {
        ProgressView {
            file_name: self.file_name@,
            bytes_downloaded: self.bytes_downloaded,
            total_bytes: self.total_bytes,
            current_file: self.current_file,
            total_files: self.total_files,
            status: self.status,
        }
    }
}

/// A report that speaks of a step and not of bytes.
pub open spec fn step_report(
    file_name: Seq<char>,
    current_file: usize,
    total_files: usize,
    status: DownloadStatus,
) -> ProgressView {
    ProgressView {
        file_name,
        bytes_downloaded: 0,
        total_bytes: None,
        current_file,
        total_files,
        status,
    }
}

impl DownloadProgress {
    /// A report that speaks of a step and not of bytes.
    pub fn step(file_name: &str, current_file: usize, total_files: usize, status: DownloadStatus)
        -> (report: Self)
        ensures
            report@ == step_report(file_name@, current_file, total_files, status),
    {
        DownloadProgress {
            file_name: String::from_str(file_name),
            bytes_downloaded: 0,
            total_bytes: None,
            current_file,
            total_files,
            status,
        }
    }

    /// The report that nothing had to be fetched.
    pub fn nothing_to_do() -> (report: Self)
        ensures
            report@ == step_report("All files"@, 0, 0, DownloadStatus::AlreadyExists),
    {
        Self::step("All files", 0, 0, DownloadStatus::AlreadyExists)
    }

    /// The report that all `total_files` files were fetched.
    pub fn all_done(total_files: usize) -> (report: Self)
        ensures
            report@ == step_report(
                "All files"@,
                total_files,
                total_files,
                DownloadStatus::Completed,
            ),
    {
        Self::step("All files", total_files, total_files, DownloadStatus::Completed)
    }
}

/// A file the model needs: where it lies below the model directory, the
/// name it is shown under, and about how large it is.
#[derive(Clone, Copy, Debug)]
pub struct RequiredFile {
    pub path: &'static str,
    pub name: &'static str,
    pub size: u64,
}

/// A required file as plain values.
pub struct FileView {
    pub path: Seq<char>,
    pub name: Seq<char>,
    pub size: u64,
}

impl View for RequiredFile {
    type V = FileView;

    open spec fn view(&self) -> FileView {
        FileView { path: self.path@, name: self.name@, size: self.size }
    }
}

impl DeepView for RequiredFile {
    type V = FileView;

    open spec fn deep_view(&self) -> FileView {
        self@
    }
}

/// The size of a voice file, about.
pub const VOICE_FILE_SIZE: u64 = 1_200_000;

/// The files the model needs.
pub open spec fn required_files() -> Seq<FileView> {
    seq![
        FileView { path: "onnx/model_q8f16.onnx"@, name: "Kokoro Model (86MB)"@, size: 86_000_000 },
        FileView { path: "tokenizer.json"@, name: "Tokenizer"@, size: 3_500 },
        FileView { path: "config.json"@, name: "Config"@, size: 44 },
        FileView {
            path: "voices/af.bin"@,
            name: "Voice: American Female (default)"@,
            size: VOICE_FILE_SIZE,
        },
        FileView { path: "voices/af_bella.bin"@, name: "Voice: Bella"@, size: VOICE_FILE_SIZE },
        FileView { path: "voices/af_heart.bin"@, name: "Voice: Heart"@, size: VOICE_FILE_SIZE },
        FileView { path: "voices/am_adam.bin"@, name: "Voice: Adam"@, size: VOICE_FILE_SIZE },
        FileView {
            path: "voices/bf_emma.bin"@,
            name: "Voice: Emma (British)"@,
            size: VOICE_FILE_SIZE,
        },
        FileView {
            path: "voices/bm_george.bin"@,
            name: "Voice: George (British)"@,
            size: VOICE_FILE_SIZE,
        },
    ]
}

/// Whether file `i` of `files` was found; a file of which `found` says
/// nothing counts as missing.
pub open spec fn is_found(found: Seq<bool>, i: int) -> bool {
    0 <= i < found.len() && found[i]
}

/// Those of the first `n` files of `files` that were not found, in order.
pub open spec fn missing_among(files: Seq<FileView>, found: Seq<bool>, n: int) -> Seq<FileView>
    decreases n,
{
    if n <= 0 {
        Seq::empty()
    } else if is_found(found, n - 1) {
        missing_among(files, found, n - 1)
    } else {
        missing_among(files, found, n - 1).push(files[n - 1])
    }
}

/// The sizes of `files` added up.
pub open spec fn total_size(files: Seq<FileView>) -> nat
    decreases files.len(),
{
    if files.len() == 0 {
        0
    } else {
        total_size(files.drop_last()) + files.last().size as nat
    }
}

/// The paths of `files` below the directory `base_dir`.
pub open spec fn paths_below(base_dir: Seq<char>, files: Seq<FileView>) -> Seq<Seq<char>> {
    Seq::new(files.len(), |i: int| path_joined(base_dir, files[i].path))
}

/// The model files below one directory.
pub struct ModelFiles {
    pub base_dir: String,
}

impl ModelFiles {
    /// The model files below `base_dir`.
    pub fn new(base_dir: String) -> (files: Self)
        ensures
            files.base_dir@ == base_dir@,
    {
        ModelFiles { base_dir }
    }

    /// The files the model needs.
    pub fn get_required_files() -> (files: Vec<RequiredFile>)
        ensures
            files.deep_view() == required_files(),
    {
        let mut files: Vec<RequiredFile> = Vec::new();
        files.push(
            RequiredFile { path: "onnx/model_q8f16.onnx", name: "Kokoro Model (86MB)", size: 86_000_000 },
        );
        files.push(RequiredFile { path: "tokenizer.json", name: "Tokenizer", size: 3_500 });
        files.push(RequiredFile { path: "config.json", name: "Config", size: 44 });
        files.push(
            RequiredFile {
                path: "voices/af.bin",
                name: "Voice: American Female (default)",
                size: VOICE_FILE_SIZE,
            },
        );
        files.push(
            RequiredFile { path: "voices/af_bella.bin", name: "Voice: Bella", size: VOICE_FILE_SIZE },
        );
        files.push(
            RequiredFile { path: "voices/af_heart.bin", name: "Voice: Heart", size: VOICE_FILE_SIZE },
        );
        files.push(
            RequiredFile { path: "voices/am_adam.bin", name: "Voice: Adam", size: VOICE_FILE_SIZE },
        );
        files.push(
            RequiredFile {
                path: "voices/bf_emma.bin",
                name: "Voice: Emma (British)",
                size: VOICE_FILE_SIZE,
            },
        );
        files.push(
            RequiredFile {
                path: "voices/bm_george.bin",
                name: "Voice: George (British)",
                size: VOICE_FILE_SIZE,
            },
        );
        assert(files.deep_view() =~= required_files());
        files
    }

    /// Whether every required file was found. `found[i]` says whether the
    /// `i`-th required file is on disk.
    pub fn is_complete(&self, found: &Vec<bool>) -> (complete: bool)
        ensures
            complete == (missing_among(required_files(), found@, 9).len() == 0),
    {
        self.get_missing_files(found).len() == 0
    }

    /// The path of the model file.
    pub fn model_path(&self) -> (path: String)
        ensures
            path@ == path_joined(self.base_dir@, "onnx/model_q8f16.onnx"@),
    {
        join_path(self.base_dir.as_str(), "onnx/model_q8f16.onnx")
    }

    /// The path of the tokenizer file.
    pub fn tokenizer_path(&self) -> (path: String)
        ensures
            path@ == path_joined(self.base_dir@, "tokenizer.json"@),
    {
        join_path(self.base_dir.as_str(), "tokenizer.json")
    }

    /// The path of the file of voice `voice_id`.
    pub fn voice_path(&self, voice_id: &str) -> (path: String)
        ensures
            path@ == path_joined(self.base_dir@, "voices/"@ + voice_id@ + ".bin"@),
    {
        let name = glue3("voices/", voice_id, ".bin");
        join_path(self.base_dir.as_str(), name.as_str())
    }

    /// The paths of the required files, in the order of the list. The
    /// caller looks which of them are on disk.
    pub fn required_paths(&self) -> (paths: Vec<String>)
        ensures
            paths.deep_view() == paths_below(self.base_dir@, required_files()),
    {
        let files = Self::get_required_files();
        let mut paths: Vec<String> = Vec::new();
        let mut i: usize = 0;
        assert(files.deep_view().len() == files.len());
        while i < files.len()
            invariant
                i <= files.len(),
                files.deep_view() == required_files(),
                paths.len() == i,
                forall|k: int|
                    0 <= k < i ==> (#[trigger] paths[k])@ == path_joined(
                        self.base_dir@,
                        required_files()[k].path,
                    ),
            decreases files.len() - i,
        {
            assert(files.deep_view()[i as int] == files[i as int]@);
            paths.push(join_path(self.base_dir.as_str(), files[i].path));
            i = i + 1;
        }
        assert(paths.deep_view() =~= paths_below(self.base_dir@, required_files()));
        paths
    }

    /// The required files that were not found, in the order of the list.
    pub fn get_missing_files(&self, found: &Vec<bool>) -> (missing: Vec<RequiredFile>)
        ensures
            missing.deep_view() == missing_among(required_files(), found@, 9),
    {
        let files = Self::get_required_files();
        let mut missing: Vec<RequiredFile> = Vec::new();
        let mut i: usize = 0;
        assert(missing.deep_view() =~= missing_among(required_files(), found@, 0));
        assert(required_files().len() == 9);
        assert(files.deep_view().len() == files.len());
        while i < files.len()
            invariant
                i <= files.len(),
                files.len() == 9,
                files.deep_view() == required_files(),
                missing.deep_view() == missing_among(required_files(), found@, i as int),
            decreases files.len() - i,
        {
            let there = i < found.len() && found[i];
            if !there {
                missing.push(files[i]);
                assert(files.deep_view()[i as int] == files[i as int]@);
                assert(missing.deep_view() =~= missing_among(required_files(), found@, i + 1));
            }
            i = i + 1;
        }
        missing
    }

    /// How many bytes have to be fetched: the sizes of the missing files
    /// added up.
    pub fn get_download_size(&self, found: &Vec<bool>) -> (size: u64)
        ensures
            size == total_size(missing_among(required_files(), found@, 9)),
    {
        let missing = self.get_missing_files(found);
        proof {
            lemma_missing_is_small(required_files(), found@, 9);
        }
        let mut size: u64 = 0;
        let mut i: usize = 0;
        assert(missing.deep_view().take(0) =~= Seq::<FileView>::empty());
        while i < missing.len()
            invariant
                i <= missing.len(),
                missing.len() <= 9,
                forall|k: int| 0 <= k < missing.len() ==> (#[trigger] missing.deep_view()[k]).size
                    <= 86_000_000,
                size == total_size(missing.deep_view().take(i as int)),
                size <= 86_000_000 * i,
            decreases missing.len() - i,
        {
            proof {
                let next = missing.deep_view().take(i + 1);
                assert(next.drop_last() =~= missing.deep_view().take(i as int));
                assert(next.last() == missing.deep_view()[i as int]);
                assert(missing.deep_view()[i as int] == missing[i as int]@);
            }
            size = size + missing[i].size;
            i = i + 1;
        }
        assert(missing.deep_view().take(missing.len() as int) =~= missing.deep_view());
        size
    }
}

proof fn lemma_missing_is_small(files: Seq<FileView>, found: Seq<bool>, n: int)
    requires
        0 <= n <= files.len(),
        forall|k: int| 0 <= k < files.len() ==> (#[trigger] files[k]).size <= 86_000_000,
    ensures
        missing_among(files, found, n).len() <= n,
        forall|k: int|
            0 <= k < missing_among(files, found, n).len() ==> (#[trigger] missing_among(
                files,
                found,
                n,
            )[k]).size <= 86_000_000,
    decreases n,
{
    if n > 0 {
        lemma_missing_is_small(files, found, n - 1);
    }
}

/// Where the model files are fetched from.
pub open spec fn model_base_url() -> Seq<char> {
    "https://huggingface.co/onnx-community/Kokoro-82M-v1.0-ONNX/resolve/main"@
}

/// One file to fetch: from where, to where below the model directory, and
/// which step of how many it is.
pub struct DownloadTask {
    pub url: String,
    /// Where the file goes on disk.
    pub dest: String,
    pub path: &'static str,
    pub name: &'static str,
    pub current_file: usize,
    pub total_files: usize,
}

/// A task as plain values.
pub struct TaskView {
    pub url: Seq<char>,
    pub dest: Seq<char>,
    pub path: Seq<char>,
    pub name: Seq<char>,
    pub current_file: usize,
    pub total_files: usize,
}

impl View for DownloadTask {
    type V = TaskView;

    open spec fn view(&self) -> TaskView {
        TaskView {
            url: self.url@,
            dest: self.dest@,
            path: self.path@,
            name: self.name@,
            current_file: self.current_file,
            total_files: self.total_files,
        }
    }
}

impl DeepView for DownloadTask {
    type V = TaskView;

    open spec fn deep_view(&self) -> TaskView {
        self@
    }
}

/// The tasks for the files `missing` of the model in `base_dir`: one
/// each, in order, counted from one.
pub open spec fn tasks_for(base_dir: Seq<char>, missing: Seq<FileView>) -> Seq<TaskView> {
    Seq::new(
        missing.len(),
        |i: int|
            TaskView {
                url: model_base_url() + "/"@ + missing[i].path,
                dest: path_joined(base_dir, missing[i].path),
                path: missing[i].path,
                name: missing[i].name,
                current_file: (i + 1) as usize,
                total_files: missing.len() as usize,
            },
    )
}

/// Fetches what is missing of the model.
pub struct ModelDownloader {
    model_files: ModelFiles,
}

impl ModelDownloader {
    /// The model directory.
    pub closed spec fn base_dir(&self) -> Seq<char> {
        self.model_files.base_dir@
    }

    /// A downloader for the model files below `base_dir`.
    pub fn new(base_dir: String) -> (downloader: Self)
        ensures
            downloader.base_dir() == base_dir@,
    {
        ModelDownloader { model_files: ModelFiles::new(base_dir) }
    }

    /// The model files.
    pub fn model_files(&self) -> (files: &ModelFiles)
        ensures
            files.base_dir@ == self.base_dir(),
    {
        &self.model_files
    }

    /// What has to be fetched, file by file. `found[i]` says whether the
    /// `i`-th required file is on disk. No task means that all is there.
    pub fn plan(&self, found: &Vec<bool>) -> (tasks: Vec<DownloadTask>)
        ensures
            tasks.deep_view() == tasks_for(
                self.base_dir(),
                missing_among(required_files(), found@, 9),
            ),
    {
        let missing = self.model_files.get_missing_files(found);
        let total = missing.len();
        let mut tasks: Vec<DownloadTask> = Vec::new();
        let mut i: usize = 0;
        while i < total
            invariant
                i <= total,
                total == missing.len(),
                tasks.len() == i,
                forall|k: int|
                    0 <= k < i ==> (#[trigger] tasks[k])@ == tasks_for(
                        self.base_dir(),
                        missing.deep_view(),
                    )[k],
            decreases total - i,
        {
            let file = missing[i];
            proof {
                assert(missing.deep_view()[i as int] == missing[i as int]@);
            }
            tasks.push(
                DownloadTask {
                    url: glue3(
                        "https://huggingface.co/onnx-community/Kokoro-82M-v1.0-ONNX/resolve/main",
                        "/",
                        file.path,
                    ),
                    dest: join_path(self.model_files.base_dir.as_str(), file.path),
                    path: file.path,
                    name: file.name,
                    current_file: i + 1,
                    total_files: total,
                },
            );
            i = i + 1;
        }
        assert(tasks.deep_view() =~= tasks_for(self.base_dir(), missing.deep_view()));
        tasks
    }
}

} // verus!
