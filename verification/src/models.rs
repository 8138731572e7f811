//! The model catalog and download bookkeeping: which models exist, how
//! their sizes and download progress are displayed, and which of them are
//! present locally.
//!
//! Listing a directory and downloading are the storage layer's work; the
//! manager here is handed the file names that exist under the models
//! directory and answers every catalog question from them.

use crate::CoreError;
use vstd::prelude::*;

verus! {

/// The decimal digit characters of a nonnegative number, most significant
/// first.
pub open spec fn spec_decimal(n: int) -> Seq<char>
    decreases n,
{
    if n < 10 {
        seq![spec_digit_char(n)]
    } else {
        spec_decimal(n / 10).push(spec_digit_char(n % 10))
    }
}

/// The character of one decimal digit.
pub open spec fn spec_digit_char(d: int) -> char {
    if d == 0 {
        '0'
    } else if d == 1 {
        '1'
    } else if d == 2 {
        '2'
    } else if d == 3 {
        '3'
    } else if d == 4 {
        '4'
    } else if d == 5 {
        '5'
    } else if d == 6 {
        '6'
    } else if d == 7 {
        '7'
    } else if d == 8 {
        '8'
    } else {
        '9'
    }
}

fn digit_str(d: u64) -> (r: &'static str)
    requires
        d < 10,
    ensures
        r@ =~= seq![spec_digit_char(d as int)],
{
    proof {
        reveal_strlit("0");
        reveal_strlit("1");
        reveal_strlit("2");
        reveal_strlit("3");
        reveal_strlit("4");
        reveal_strlit("5");
        reveal_strlit("6");
        reveal_strlit("7");
        reveal_strlit("8");
        reveal_strlit("9");
    }
    match d {
        0 => "0",
        1 => "1",
        2 => "2",
        3 => "3",
        4 => "4",
        5 => "5",
        6 => "6",
        7 => "7",
        8 => "8",
        _ => "9",
    }
}

/// Render a number in decimal.
pub fn u64_to_decimal(n: u64) -> (r: String)
    ensures
        r@ == spec_decimal(n as int),
    decreases n,
{
    if n < 10 {
        String::from_str(digit_str(n))
    } else {
        let mut s = u64_to_decimal(n / 10);
        s.append(digit_str(n % 10));
        proof {
            assert(spec_decimal(n as int / 10) + seq![spec_digit_char(n as int % 10)]
                =~= spec_decimal(n as int / 10).push(spec_digit_char(n as int % 10)));
        }
        s
    }
}

/// What the human-readable size string holds: whole gigabytes with one
/// decimal place (rounded down) from a gigabyte up, else whole megabytes
/// from a megabyte up, else whole kilobytes.
pub open spec fn spec_size_display(bytes: int) -> Seq<char> {
    if bytes >= 1_000_000_000 {
        spec_decimal(bytes / 1_000_000_000) + seq!['.'] + seq![
            spec_digit_char((bytes % 1_000_000_000) / 100_000_000),
        ] + seq![' ', 'G', 'B']
    } else if bytes >= 1_000_000 {
        spec_decimal(bytes / 1_000_000) + seq![' ', 'M', 'B']
    } else {
        spec_decimal(bytes / 1_000) + seq![' ', 'K', 'B']
    }
}

/// Information about a model.
#[derive(Debug, Clone)]
pub struct ModelInfo {
    /// Model identifier.
    pub id: String,
    /// Display name.
    pub name: String,
    /// Size in bytes.
    pub size_bytes: u64,
    /// Download URL.
    pub url: String,
    /// Whether the model is downloaded.
    pub is_downloaded: bool,
    /// Local file name under the models directory, if downloaded.
    pub local_file: Option<String>,
}

impl ModelInfo {
    /// Get a human-readable size string.
    pub fn size_display(&self) -> (r: String)
        ensures
            r@ == spec_size_display(self.size_bytes as int),
    {
        proof {
            reveal_strlit(" GB");
            reveal_strlit(" MB");
            reveal_strlit(" KB");
            reveal_strlit(".");
            assert(" GB"@ =~= seq![' ', 'G', 'B']);
            assert(" MB"@ =~= seq![' ', 'M', 'B']);
            assert(" KB"@ =~= seq![' ', 'K', 'B']);
            assert("."@ =~= seq!['.']);
        }
        if self.size_bytes >= 1_000_000_000 {
            let mut s = u64_to_decimal(self.size_bytes / 1_000_000_000);
            s.append(".");
            s.append(digit_str((self.size_bytes % 1_000_000_000) / 100_000_000));
            s.append(" GB");
            proof {
                assert(s@ =~= spec_size_display(self.size_bytes as int));
            }
            s
        } else if self.size_bytes >= 1_000_000 {
            let mut s = u64_to_decimal(self.size_bytes / 1_000_000);
            s.append(" MB");
            proof {
                assert(s@ =~= spec_size_display(self.size_bytes as int));
            }
            s
        } else {
            let mut s = u64_to_decimal(self.size_bytes / 1_000);
            s.append(" KB");
            proof {
                assert(s@ =~= spec_size_display(self.size_bytes as int));
            }
            s
        }
    }
}

/// Download status.
#[derive(Debug, Clone, PartialEq, Eq)]
pub enum DownloadStatus {
    /// Download not started.
    Pending,
    /// Currently downloading.
    Downloading,
    /// Download paused.
    Paused,
    /// Download completed.
    Completed,
    /// Download failed, with an error message.
    Failed(String),
}

/// Download progress information.
#[derive(Debug, Clone)]
pub struct DownloadProgress {
    /// Model being downloaded.
    pub model_id: String,
    /// Bytes downloaded so far.
    pub downloaded_bytes: u64,
    /// Total bytes to download.
    pub total_bytes: u64,
    /// Current status.
    pub status: DownloadStatus,
}

/// What the percentage string holds: the progress ratio in whole percents
/// and one decimal place (rounded down), with a percent sign; 0.0% when
/// the total is unknown.
pub open spec fn spec_progress_percent(downloaded: int, total: int) -> Seq<char> {
    let permille = if total == 0 {
        0int
    } else {
        downloaded * 1000 / total
    };
    spec_decimal(permille / 10) + seq!['.'] + seq![spec_digit_char(permille % 10)] + seq!['%']
}

impl DownloadProgress {
    /// Get the progress as a percentage string with one decimal place.
    pub fn progress_percent(&self) -> (r: String)
        requires
            self.downloaded_bytes as int * 1000 / (if self.total_bytes == 0 {
                1int
            } else {
                self.total_bytes as int
            }) <= u64::MAX,
        ensures
            r@ == spec_progress_percent(self.downloaded_bytes as int, self.total_bytes as int),
    {
        proof {
            reveal_strlit(".");
            reveal_strlit("%");
            assert("."@ =~= seq!['.']);
            assert("%"@ =~= seq!['%']);
        }
        let permille: u64 = if self.total_bytes == 0 {
            0
        } else {
            ((self.downloaded_bytes as u128) * 1000 / (self.total_bytes as u128)) as u64
        };
        let mut s = u64_to_decimal(permille / 10);
        s.append(".");
        s.append(digit_str(permille % 10));
        s.append("%");
        proof {
            assert(s@ =~= spec_progress_percent(
                self.downloaded_bytes as int,
                self.total_bytes as int,
            ));
        }
        s
    }
}

/// The file name a model is stored under: its identifier with a `.bin`
/// extension.
pub open spec fn spec_model_file(id: Seq<char>) -> Seq<char> {
    id + seq!['.', 'b', 'i', 'n']
}

/// The first download-progress entry for an identifier, if any.
pub open spec fn spec_find_progress(s: Seq<DownloadProgress>, id: Seq<char>) -> Option<
    DownloadProgress,
>
    decreases s.len(),
{
    if s.len() == 0 {
        None
    } else if s[0].model_id@ == id {
        Some(s[0])
    } else {
        spec_find_progress(s.drop_first(), id)
    }
}

/// One catalog entry as `list_available_models` describes it: the given
/// identity and size, and download facts that agree with the manager's
/// file list.
pub open spec fn spec_entry_ok(
    m: ModelManager,
    e: ModelInfo,
    id: Seq<char>,
    size: int,
) -> bool {
    &&& e.id@ == id
    &&& e.size_bytes == size
    &&& e.is_downloaded <==> m.spec_has_file(spec_model_file(id))
    &&& e.is_downloaded <==> (e.local_file matches Some(f) && f@ == spec_model_file(id))
    &&& !e.is_downloaded ==> e.local_file is None
}

/// The identifiers of the bundled models that are downloaded, in catalog
/// order.
pub open spec fn spec_downloaded_ids(m: ModelManager) -> Seq<Seq<char>> {
    let t: Seq<Seq<char>> = if m.spec_has_file(spec_model_file("whisper-tiny"@)) {
        seq!["whisper-tiny"@]
    } else {
        Seq::empty()
    };
    let b: Seq<Seq<char>> = if m.spec_has_file(spec_model_file("whisper-base"@)) {
        seq!["whisper-base"@]
    } else {
        Seq::empty()
    };
    let sm: Seq<Seq<char>> = if m.spec_has_file(spec_model_file("whisper-small"@)) {
        seq!["whisper-small"@]
    } else {
        Seq::empty()
    };
    let md: Seq<Seq<char>> = if m.spec_has_file(spec_model_file("whisper-medium"@)) {
        seq!["whisper-medium"@]
    } else {
        Seq::empty()
    };
    t + b + sm + md
}

/// Whether a file list holds a name.
pub open spec fn spec_file_list_has(files: Seq<String>, name: Seq<char>) -> bool {
    exists|i: int| 0 <= i < files.len() && (#[trigger] files[i])@ == name
}

/// Model manager: answers catalog and download-state questions from the
/// models directory's path and its file listing, both supplied by the
/// storage layer.
#[derive(Debug, Clone)]
pub struct ModelManager {
    /// Directory where models are stored.
    models_dir: String,
    /// File names present in the models directory.
    downloaded_files: Vec<String>,
    /// Download progress records, at most one per model identifier.
    downloads: Vec<DownloadProgress>,
}

impl ModelManager {
    /// The models directory path.
    pub closed spec fn spec_models_dir(self) -> Seq<char> {
        self.models_dir@
    }

    /// Whether a file of this name is present in the models directory.
    pub closed spec fn spec_has_file(self, name: Seq<char>) -> bool {
        spec_file_list_has(self.downloaded_files@, name)
    }

    /// The download progress records.
    pub closed spec fn spec_downloads(self) -> Seq<DownloadProgress> {
        self.downloads@
    }

    /// Create a model manager over a models directory and the file names
    /// found in it.
    pub fn new(models_dir: String, downloaded_files: Vec<String>) -> (r: Result<Self, CoreError>)
        ensures
            r is Ok,
            r matches Ok(m) ==> m.spec_models_dir() == models_dir@ && m.spec_downloads()
                =~= Seq::<DownloadProgress>::empty() && forall|name: Seq<char>|
                #[trigger] m.spec_has_file(name) == spec_file_list_has(downloaded_files@, name),
    {
        Ok(ModelManager { models_dir, downloaded_files, downloads: Vec::new() })
    }

    /// The models directory.
    pub fn models_dir(&self) -> (r: &String)
        ensures
            r@ == self.spec_models_dir(),
    {
        &self.models_dir
    }

    fn has_file(&self, name: &String) -> (r: bool)
        ensures
            r == self.spec_has_file(name@),
    {
        let n = self.downloaded_files.len();
        for i in 0..n
            invariant
                n == self.downloaded_files@.len(),
                forall|k: int| 0 <= k < i ==> (#[trigger] self.downloaded_files@[k])@ != name@,
        {
            if self.downloaded_files[i].eq(name) {
                proof {
                    assert(self.downloaded_files@[i as int]@ == name@);
                }
                return true;
            }
        }
        false
    }

    fn model_file_name(model_id: &str) -> (r: String)
        ensures
            r@ == spec_model_file(model_id@),
    {
        let mut f = String::from_str(model_id);
        f.append(".bin");
        proof {
            reveal_strlit(".bin");
            assert(f@ =~= spec_model_file(model_id@));
        }
        f
    }

    fn entry(&self, id: &str, name: &str, size_bytes: u64, url: &str) -> (r: ModelInfo)
        ensures
            r.id@ == id@,
            r.name@ == name@,
            r.url@ == url@,
            spec_entry_ok(*self, r, id@, size_bytes as int),
    {
        let file = Self::model_file_name(id);
        let is_downloaded = self.has_file(&file);
        ModelInfo {
            id: String::from_str(id),
            name: String::from_str(name),
            size_bytes,
            url: String::from_str(url),
            is_downloaded,
            local_file: if is_downloaded {
                Some(file)
            } else {
                None
            },
        }
    }

    /// List all available models: the four bundled transcription models,
    /// each marked downloaded exactly when its file is present.
    pub fn list_available_models(&self) -> (r: Vec<ModelInfo>)
        ensures
            r@.len() == 4,
            spec_entry_ok(*self, r@[0], "whisper-tiny"@, 75_000_000),
            spec_entry_ok(*self, r@[1], "whisper-base"@, 142_000_000),
            spec_entry_ok(*self, r@[2], "whisper-small"@, 466_000_000),
            spec_entry_ok(*self, r@[3], "whisper-medium"@, 1_500_000_000),
    {
        let mut r: Vec<ModelInfo> = Vec::new();
        r.push(
            self.entry(
                "whisper-tiny",
                "Whisper Tiny (75 MB)",
                75_000_000,
                "https://huggingface.co/ggerganov/whisper.cpp/resolve/main/ggml-tiny.bin",
            ),
        );
        r.push(
            self.entry(
                "whisper-base",
                "Whisper Base (142 MB)",
                142_000_000,
                "https://huggingface.co/ggerganov/whisper.cpp/resolve/main/ggml-base.bin",
            ),
        );
        r.push(
            self.entry(
                "whisper-small",
                "Whisper Small (466 MB)",
                466_000_000,
                "https://huggingface.co/ggerganov/whisper.cpp/resolve/main/ggml-small.bin",
            ),
        );
        r.push(
            self.entry(
                "whisper-medium",
                "Whisper Medium (1.5 GB)",
                1_500_000_000,
                "https://huggingface.co/ggerganov/whisper.cpp/resolve/main/ggml-medium.bin",
            ),
        );
        r
    }

    /// List the downloaded models: the downloaded entries of
    /// `list_available_models`, in catalog order.
    pub fn list_downloaded_models(&self) -> (r: Vec<ModelInfo>)
        ensures
            r@.len() == spec_downloaded_ids(*self).len(),
            forall|k: int|
                0 <= k < r@.len() ==> (#[trigger] r@[k]).id@ == spec_downloaded_ids(*self)[k],
            forall|k: int| 0 <= k < r@.len() ==> (#[trigger] r@[k]).is_downloaded,
            forall|k: int|
                0 <= k < r@.len() ==> self.spec_has_file(spec_model_file(
                    (#[trigger] r@[k]).id@,
                )),
    {
        let available = self.list_available_models();
        let mut r: Vec<ModelInfo> = Vec::new();
        if available[0].is_downloaded {
            r.push(clone_model_info(&available[0]));
        }
        if available[1].is_downloaded {
            r.push(clone_model_info(&available[1]));
        }
        if available[2].is_downloaded {
            r.push(clone_model_info(&available[2]));
        }
        if available[3].is_downloaded {
            r.push(clone_model_info(&available[3]));
        }
        proof {
            assert forall|k: int|
                0 <= k < r@.len() implies (#[trigger] r@[k]).id@ == spec_downloaded_ids(*self)[k]
                && r@[k].is_downloaded && self.spec_has_file(spec_model_file(r@[k].id@)) by {
                assert(spec_downloaded_ids(*self).len() == r@.len());
            }
        }
        r
    }

    /// The path of a downloaded model: the models directory, a slash, and
    /// the model's file name; nothing when the file is absent.
    pub fn get_model_path(&self, model_id: &str) -> (r: Option<String>)
        ensures
            r is Some <==> self.spec_has_file(spec_model_file(model_id@)),
            r matches Some(p) ==> p@ == self.spec_models_dir() + seq!['/'] + spec_model_file(
                model_id@,
            ),
    {
        let file = Self::model_file_name(model_id);
        if self.has_file(&file) {
            let mut p = self.models_dir.clone();
            p.append("/");
            p.append(file.as_str());
            proof {
                reveal_strlit("/");
                assert(p@ =~= self.spec_models_dir() + seq!['/'] + spec_model_file(model_id@));
            }
            Some(p)
        } else {
            None
        }
    }

    /// The path of the voice-activity model, nothing when its file is
    /// absent.
    pub fn get_vad_model_path(&self) -> (r: Option<String>)
        ensures
            r is Some <==> self.spec_has_file("silero_vad.onnx"@),
            r matches Some(p) ==> p@ == self.spec_models_dir() + seq!['/'] + "silero_vad.onnx"@,
    {
        let file = String::from_str("silero_vad.onnx");
        if self.has_file(&file) {
            let mut p = self.models_dir.clone();
            p.append("/");
            p.append(file.as_str());
            proof {
                reveal_strlit("/");
                assert(p@ =~= self.spec_models_dir() + seq!['/'] + "silero_vad.onnx"@);
            }
            Some(p)
        } else {
            None
        }
    }

    /// Whether the voice-activity model is downloaded.
    pub fn is_vad_downloaded(&self) -> (r: bool)
        ensures
            r == self.spec_has_file("silero_vad.onnx"@),
    {
        let file = String::from_str("silero_vad.onnx");
        self.has_file(&file)
    }

    /// Catalog information about the voice-activity model.
    pub fn get_vad_model_info(&self) -> (r: ModelInfo)
        ensures
            r.id@ == "silero-vad"@,
            r.name@ == "Silero VAD"@,
            r.url@
                == "https://github.com/snakers4/silero-vad/raw/master/src/silero_vad/data/silero_vad.onnx"@,
            r.size_bytes == 2_000_000,
            r.is_downloaded <==> self.spec_has_file("silero_vad.onnx"@),
            r.is_downloaded <==> (r.local_file matches Some(f) && f@ == "silero_vad.onnx"@),
            !r.is_downloaded ==> r.local_file is None,
    {
        let file = String::from_str("silero_vad.onnx");
        let is_downloaded = self.has_file(&file);
        ModelInfo {
            id: String::from_str("silero-vad"),
            name: String::from_str("Silero VAD"),
            size_bytes: 2_000_000,
            url: String::from_str(
                "https://github.com/snakers4/silero-vad/raw/master/src/silero_vad/data/silero_vad.onnx",
            ),
            is_downloaded,
            local_file: if is_downloaded {
                Some(file)
            } else {
                None
            },
        }
    }

    /// Record the progress of a download, replacing any earlier record of
    /// the same model.
    pub fn record_progress(&mut self, progress: DownloadProgress)
        requires
            old(self).wf_downloads(),
        ensures
            final(self).wf_downloads(),
            final(self).spec_models_dir() == old(self).spec_models_dir(),
            forall|name: Seq<char>|
                #[trigger] final(self).spec_has_file(name) == old(self).spec_has_file(name),
            spec_find_progress(final(self).spec_downloads(), progress.model_id@) == Some(progress),
            forall|id: Seq<char>|
                id != progress.model_id@ ==> #[trigger] spec_find_progress(
                    final(self).spec_downloads(),
                    id,
                ) == spec_find_progress(old(self).spec_downloads(), id),
    {
        let n = self.downloads.len();
        let ghost old_downloads = self.downloads@;
        for i in 0..n
            invariant
                n == self.downloads@.len(),
                self.downloads@ == old_downloads,
                *self == *old(self),
                old(self).wf_downloads(),
                forall|k: int|
                    0 <= k < i ==> (#[trigger] old_downloads[k]).model_id@ != progress.model_id@,
        {
            if string_views_equal(&self.downloads[i].model_id, &progress.model_id) {
                self.downloads.set(i, progress);
                proof {
                    lemma_find_progress_set(old_downloads, i as int, progress);
                    assert forall|id: Seq<char>| id != progress.model_id@ implies #[trigger] spec_find_progress(
                        self.downloads@,
                        id,
                    ) == spec_find_progress(old_downloads, id) by {
                        lemma_find_progress_other(old_downloads, i as int, progress, id);
                    }
                }
                return ;
            }
        }
        self.downloads.push(progress);
        proof {
            lemma_find_progress_push(old_downloads, progress);
            assert forall|id: Seq<char>| id != progress.model_id@ implies #[trigger] spec_find_progress(
                self.downloads@,
                id,
            ) == spec_find_progress(old_downloads, id) by {
                lemma_find_progress_push_other(old_downloads, progress, id);
            }
        }
    }

    /// At most one progress record per model identifier.
    pub closed spec fn wf_downloads(self) -> bool {
        forall|i: int, j: int|
            0 <= i < j < self.downloads@.len() ==> (#[trigger] self.downloads@[i]).model_id@ != (
            #[trigger] self.downloads@[j]).model_id@
    }

    /// The progress of a download, if one was recorded for this model:
    /// a copy of the first matching record.
    pub fn get_download_progress(&self, model_id: &str) -> (r: Option<DownloadProgress>)
        ensures
            r is Some <==> spec_find_progress(self.spec_downloads(), model_id@) is Some,
            r matches Some(p) ==> (spec_find_progress(self.spec_downloads(), model_id@) matches Some(
                q,
            ) && progress_matches(p, q)),
    {
        let n = self.downloads.len();
        let ghost all = self.downloads@;
        assert(all.skip(0) =~= all);
        for i in 0..n
            invariant
                n == self.downloads@.len(),
                all == self.downloads@,
                spec_find_progress(all.skip(i as int), model_id@) == spec_find_progress(
                    all,
                    model_id@,
                ),
        {
            proof {
                assert(all.skip(i as int)[0] == all[i as int]);
                assert(all.skip(i as int).drop_first() =~= all.skip(i + 1 as int));
            }
            let id = String::from_str(model_id);
            if string_views_equal(&self.downloads[i].model_id, &id) {
                return Some(clone_progress(&self.downloads[i]));
            }
        }
        proof {
            assert(all.skip(n as int) =~= Seq::<DownloadProgress>::empty());
        }
        None
    }
}

/// Whether two download statuses say the same thing.
pub open spec fn status_matches(a: DownloadStatus, b: DownloadStatus) -> bool {
    match (a, b) {
        (DownloadStatus::Pending, DownloadStatus::Pending) => true,
        (DownloadStatus::Downloading, DownloadStatus::Downloading) => true,
        (DownloadStatus::Paused, DownloadStatus::Paused) => true,
        (DownloadStatus::Completed, DownloadStatus::Completed) => true,
        (DownloadStatus::Failed(x), DownloadStatus::Failed(y)) => x@ == y@,
        _ => false,
    }
}

/// Whether two progress records say the same thing.
pub open spec fn progress_matches(a: DownloadProgress, b: DownloadProgress) -> bool {
    &&& a.model_id@ == b.model_id@
    &&& a.downloaded_bytes == b.downloaded_bytes
    &&& a.total_bytes == b.total_bytes
    &&& status_matches(a.status, b.status)
}

fn clone_status(s: &DownloadStatus) -> (r: DownloadStatus)
    ensures
        status_matches(r, *s),
{
    match s {
        DownloadStatus::Pending => DownloadStatus::Pending,
        DownloadStatus::Downloading => DownloadStatus::Downloading,
        DownloadStatus::Paused => DownloadStatus::Paused,
        DownloadStatus::Completed => DownloadStatus::Completed,
        DownloadStatus::Failed(m) => DownloadStatus::Failed(m.clone()),
    }
}

fn clone_progress(p: &DownloadProgress) -> (r: DownloadProgress)
    ensures
        progress_matches(r, *p),
{
    DownloadProgress {
        model_id: p.model_id.clone(),
        downloaded_bytes: p.downloaded_bytes,
        total_bytes: p.total_bytes,
        status: clone_status(&p.status),
    }
}

/// Whether two catalog entries say the same thing.
pub open spec fn model_info_matches(a: ModelInfo, b: ModelInfo) -> bool {
    &&& a.id@ == b.id@
    &&& a.name@ == b.name@
    &&& a.size_bytes == b.size_bytes
    &&& a.url@ == b.url@
    &&& a.is_downloaded == b.is_downloaded
    &&& (a.local_file is Some <==> b.local_file is Some)
    &&& (a.local_file matches Some(f) ==> (b.local_file matches Some(g) && f@ == g@))
}

fn clone_model_info(p: &ModelInfo) -> (r: ModelInfo)
    ensures
        model_info_matches(r, *p),
{
    ModelInfo {
        id: p.id.clone(),
        name: p.name.clone(),
        size_bytes: p.size_bytes,
        url: p.url.clone(),
        is_downloaded: p.is_downloaded,
        local_file: match &p.local_file {
            Some(f) => Some(f.clone()),
            None => None,
        },
    }
}

fn string_views_equal(a: &String, b: &String) -> (r: bool)
    ensures
        r == (a@ == b@),
{
    a.eq(b)
}

proof fn lemma_find_progress_set(s: Seq<DownloadProgress>, i: int, p: DownloadProgress)
    requires
        0 <= i < s.len(),
        s[i].model_id@ == p.model_id@,
        forall|k: int| 0 <= k < i ==> (#[trigger] s[k]).model_id@ != p.model_id@,
    ensures
        spec_find_progress(s.update(i, p), p.model_id@) == Some(p),
    decreases i,
{
    if i == 0 {
        assert(s.update(0, p)[0] == p);
    } else {
        assert(s.update(i, p)[0] == s[0]);
        assert(s.update(i, p).drop_first() =~= s.drop_first().update(i - 1, p));
        lemma_find_progress_set(s.drop_first(), i - 1, p);
    }
}

proof fn lemma_find_progress_other(
    s: Seq<DownloadProgress>,
    i: int,
    p: DownloadProgress,
    id: Seq<char>,
)
    requires
        0 <= i < s.len(),
        s[i].model_id@ == p.model_id@,
        id != p.model_id@,
    ensures
        spec_find_progress(s.update(i, p), id) == spec_find_progress(s, id),
    decreases i,
{
    if i == 0 {
        assert(s.update(0, p)[0] == p);
        assert(s.update(0, p).drop_first() =~= s.drop_first());
    } else {
        assert(s.update(i, p)[0] == s[0]);
        assert(s.update(i, p).drop_first() =~= s.drop_first().update(i - 1, p));
        lemma_find_progress_other(s.drop_first(), i - 1, p, id);
    }
}

proof fn lemma_find_progress_push(s: Seq<DownloadProgress>, p: DownloadProgress)
    requires
        forall|k: int| 0 <= k < s.len() ==> (#[trigger] s[k]).model_id@ != p.model_id@,
    ensures
        spec_find_progress(s.push(p), p.model_id@) == Some(p),
    decreases s.len(),
{
    if s.len() == 0 {
        assert(s.push(p)[0] == p);
    } else {
        assert(s.push(p)[0] == s[0]);
        assert(s.push(p).drop_first() =~= s.drop_first().push(p));
        lemma_find_progress_push(s.drop_first(), p);
    }
}

proof fn lemma_find_progress_push_other(s: Seq<DownloadProgress>, p: DownloadProgress, id: Seq<
    char,
>)
    requires
        id != p.model_id@,
    ensures
        spec_find_progress(s.push(p), id) == spec_find_progress(s, id),
    decreases s.len(),
{
    if s.len() == 0 {
        reveal_with_fuel(spec_find_progress, 2);
        assert(s.push(p)[0] == p);
        assert(s.push(p).drop_first() =~= Seq::<DownloadProgress>::empty());
    } else {
        assert(s.push(p)[0] == s[0]);
        assert(s.push(p).drop_first() =~= s.drop_first().push(p));
        lemma_find_progress_push_other(s.drop_first(), p, id);
    }
}

} // verus!
