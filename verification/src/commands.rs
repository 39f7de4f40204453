//! What the commands of the application report about the speech model.

use vstd::prelude::*;
use vstd::string::*;

verus! {

/// The model that the engine fetches on first use.
pub open spec fn model_name() -> Seq<char> {
    "sesame/csm-1b"@
}

/// The size of the model, about.
pub const MODEL_SIZE_BYTES: u64 = 4_000_000_000;

/// Whether the model is there, and what is missing if not.
#[derive(Debug, Clone)]
pub struct ModelStatus {
    pub is_ready: bool,
    pub is_downloading: bool,
    pub missing_files: Vec<String>,
    pub download_size_bytes: u64,
    pub model_dir: String,
}

/// The status as plain values.
pub struct StatusView {
    pub is_ready: bool,
    pub is_downloading: bool,
    pub missing_files: Seq<Seq<char>>,
    pub download_size_bytes: u64,
    pub model_dir: Seq<char>,
}

impl View for ModelStatus {
    type V = StatusView;

    open spec fn view(&self) -> StatusView {
        StatusView {
            is_ready: self.is_ready,
            is_downloading: self.is_downloading,
            missing_files: self.missing_files.deep_view(),
            download_size_bytes: self.download_size_bytes,
            model_dir: self.model_dir@,
        }
    }
}

/// The status of a model in `model_dir` that is there (`is_ready`) or is
/// not: a model that is there misses nothing; one that is not misses the
/// whole model.
pub open spec fn status_of(is_ready: bool, model_dir: Seq<char>) -> StatusView {
    StatusView {
        is_ready,
        is_downloading: false,
        missing_files: if is_ready {
            Seq::empty()
        } else {
            seq![model_name()]
        },
        download_size_bytes: if is_ready {
            0
        } else {
            MODEL_SIZE_BYTES
        },
        model_dir,
    }
}

impl ModelStatus {
    /// The status of the model in `model_dir`; `is_ready` says whether the
    /// caller found it there.
    pub fn of(is_ready: bool, model_dir: String) -> (status: Self)
        ensures
            status@ == status_of(is_ready, model_dir@),
    {
        let mut missing_files: Vec<String> = Vec::new();
        if !is_ready {
            missing_files.push(String::from_str("sesame/csm-1b"));
        }
        assert(missing_files.deep_view() =~= status_of(is_ready, model_dir@).missing_files);
        ModelStatus {
            is_ready,
            is_downloading: false,
            missing_files,
            download_size_bytes: if is_ready {
                0
            } else {
                MODEL_SIZE_BYTES
            },
            model_dir,
        }
    }
}

/// One report on the fetching of the model.
#[derive(Debug, Clone)]
pub struct DownloadProgress {
    pub file_name: String,
    pub bytes_downloaded: u64,
    pub total_bytes: Option<u64>,
    pub current_file: usize,
    pub total_files: usize,
    pub status: String,
}

/// A report as plain values.
pub struct ProgressView {
    pub file_name: Seq<char>,
    pub bytes_downloaded: u64,
    pub total_bytes: Option<u64>,
    pub current_file: usize,
    pub total_files: usize,
    pub status: Seq<char>,
}

impl View for DownloadProgress {
    type V = ProgressView;

    open spec fn view(&self) -> ProgressView {
        ProgressView {
            file_name: self.file_name@,
            bytes_downloaded: self.bytes_downloaded,
            total_bytes: self.total_bytes,
            current_file: self.current_file,
            total_files: self.total_files,
            status: self.status@,
        }
    }
}

/// A report on the one model with `status`.
pub open spec fn model_report(bytes_downloaded: u64, total_bytes: Option<u64>, status: Seq<char>)
    -> ProgressView {
    ProgressView {
        file_name: model_name(),
        bytes_downloaded,
        total_bytes,
        current_file: 1,
        total_files: 1,
        status,
    }
}

impl DownloadProgress {
    fn model(bytes_downloaded: u64, total_bytes: Option<u64>, status: String) -> (report: Self)
        ensures
            report@ == model_report(bytes_downloaded, total_bytes, status@),
    {
        DownloadProgress {
            file_name: String::from_str("sesame/csm-1b"),
            bytes_downloaded,
            total_bytes,
            current_file: 1,
            total_files: 1,
            status,
        }
    }

    /// The report that fetching begins.
    pub fn started() -> (report: Self)
        ensures
            report@ == model_report(0, Some(MODEL_SIZE_BYTES), "downloading"@),
    {
        Self::model(0, Some(MODEL_SIZE_BYTES), String::from_str("downloading"))
    }

    /// The report that the model is there.
    pub fn completed() -> (report: Self)
        ensures
            report@ == model_report(MODEL_SIZE_BYTES, Some(MODEL_SIZE_BYTES), "complete"@),
    {
        Self::model(MODEL_SIZE_BYTES, Some(MODEL_SIZE_BYTES), String::from_str("complete"))
    }

    /// The report that fetching failed with `detail`.
    pub fn failed(detail: &str) -> (report: Self)
        ensures
            report@ == model_report(0, None, "error: "@ + detail@),
    {
        let mut status = String::from_str("error: ");
        status.append(detail);
        Self::model(0, None, status)
    }
}

} // verus!
