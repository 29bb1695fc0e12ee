//! Downloading a model from the HuggingFace Hub and loading it, as a state
//! machine that reports progress events.
//!
//! The runner lists the repository, looks at the models directory, streams
//! the file and loads the model; after each of these it hands back what came
//! of it, and this machine answers with the events to report and the next
//! step.
use vstd::prelude::*;

use crate::model_manager::{expand_tilde, file_views};
use crate::tools::opt_view;
use crate::text::{
    append_chars, chars_of, concat3, ends_with, ends_with_exec, last_index_of, string_of,
};

verus! {

/// The repository downloaded when none is named.
pub const DEFAULT_REPO_ID: &'static str = "litert-community/gemma-4-E2B-it-litert-lm";

/// Where downloaded models are kept.
pub const DEFAULT_MODELS_DIR: &'static str = "~/.local/share/lite-llm/models";

/// Progress is reported about every this many bytes.
pub const PROGRESS_INTERVAL: u64 = 5 * 1024 * 1024;

/// What to download. Every field may be left out.
pub struct DownloadRequest {
    pub repo_id: Option<String>,
    pub filename: Option<String>,
    /// The id to register the model under; the file name's stem by default.
    pub model_id: Option<String>,
}

impl Default for DownloadRequest {
    fn default() -> (r: Self)
        ensures
            r.repo_id is None,
            r.filename is None,
            r.model_id is None,
    {
        DownloadRequest { repo_id: None, filename: None, model_id: None }
    }
}

/// A progress event, sent to the client as JSON tagged by `status`.
pub enum DownloadEvent {
    Resolving { message: String },
    Downloading { filename: String, downloaded: u64, total: Option<u64> },
    Loading { message: String },
    Complete { model_id: String, path: String },
    Error { message: String },
}

/// An event over character sequences.
pub ghost enum EventSpec {
    Resolving(Seq<char>),
    Downloading(Seq<char>, u64, Option<u64>),
    Loading(Seq<char>),
    Complete(Seq<char>, Seq<char>),
    Error(Seq<char>),
}

impl View for DownloadEvent {
    type V = EventSpec;

    open spec fn view(&self) -> EventSpec {
        match self {
            DownloadEvent::Resolving { message } => EventSpec::Resolving(message@),
            DownloadEvent::Downloading { filename, downloaded, total } => EventSpec::Downloading(
                filename@,
                *downloaded,
                *total,
            ),
            DownloadEvent::Loading { message } => EventSpec::Loading(message@),
            DownloadEvent::Complete { model_id, path } => EventSpec::Complete(model_id@, path@),
            DownloadEvent::Error { message } => EventSpec::Error(message@),
        }
    }
}

pub open spec fn events_view(v: Seq<DownloadEvent>) -> Seq<EventSpec> {
    v.map_values(|e: DownloadEvent| e@)
}

/// What the runner does next.
pub enum DownloadStep {
    /// List the repository's files, then call `on_listing`.
    ListFiles { repo_id: String },
    /// Make sure the models directory exists and see whether it holds the
    /// file already, then call `on_destination`.
    CheckDestination { models_dir: String, filename: String },
    /// Fetch the URL (with this `Authorization` header, if any), then call
    /// `on_response`.
    Fetch { url: String, authorization: Option<String> },
    /// Stream the response body to the file, calling `on_chunk` for each
    /// chunk written and `on_finished` at the end.
    Stream,
    /// Load the model file under the id, then call `on_loaded`.
    Load { model_id: String, path: String },
    /// Nothing more: the download is over.
    Finish,
}

/// A step over character sequences.
pub ghost enum StepSpec {
    ListFiles(Seq<char>),
    CheckDestination(Seq<char>, Seq<char>),
    Fetch(Seq<char>, Option<Seq<char>>),
    Stream,
    Load(Seq<char>, Seq<char>),
    Finish,
}

impl View for DownloadStep {
    type V = StepSpec;

    open spec fn view(&self) -> StepSpec {
        match self {
            DownloadStep::ListFiles { repo_id } => StepSpec::ListFiles(repo_id@),
            DownloadStep::CheckDestination { models_dir, filename } => StepSpec::CheckDestination(
                models_dir@,
                filename@,
            ),
            DownloadStep::Fetch { url, authorization } => StepSpec::Fetch(
                url@,
                opt_view(*authorization),
            ),
            DownloadStep::Stream => StepSpec::Stream,
            DownloadStep::Load { model_id, path } => StepSpec::Load(model_id@, path@),
            DownloadStep::Finish => StepSpec::Finish,
        }
    }
}

/// The events to report and the step to take.
pub struct Transition {
    pub events: Vec<DownloadEvent>,
    pub next: DownloadStep,
}

// ── File names ───────────────────────────────────────────────────────────────

/// A file name on its own: not empty, without `/`, neither `.` nor `..`.
pub open spec fn plain_file_name(p: Seq<char>) -> bool {
    &&& p.len() > 0
    &&& forall|i: int| 0 <= i < p.len() ==> p[i] != '/'
    &&& p != "."@
    &&& p != ".."@
}

/// The stem of a file name: what precedes its last `.`, unless that `.` is
/// the first character or there is none, when it is the whole name.
pub open spec fn name_stem(p: Seq<char>) -> Seq<char> {
    match last_index_of(p, '.') {
        Some(k) => if k > 0 {
            p.take(k)
        } else {
            p
        },
        None => p,
    }
}

/// What `Path::file_stem` gives for a path (the empty string when it gives
/// nothing).
pub uninterp spec fn path_file_stem(path: Seq<char>) -> Seq<char>;

/// `Path::new(path).file_stem()`, empty when there is none, converted
/// lossily to a `String`. For a plain file name std documents the stem as the
/// whole name without an embedded `.` or with only a leading one, else the
/// part before the last `.`.
#[verifier::external_body]
fn file_stem_of(path: &str) -> (r: String)
    ensures
        r@ == path_file_stem(path@),
        plain_file_name(path@) ==> r@ == name_stem(path@),
{
    std::path::Path::new(path).file_stem().unwrap_or_default().to_string_lossy().into_owned()
}

/// The first file that ends in `.litertlm`.
pub open spec fn first_litertlm(files: Seq<Seq<char>>) -> Option<Seq<char>>
    decreases files.len(),
{
    if files.len() == 0 {
        None
    } else if ends_with(files[0], ".litertlm"@) {
        Some(files[0])
    } else {
        first_litertlm(files.drop_first())
    }
}

/// The first `.litertlm` file of a repository listing.
pub fn first_litertlm_exec(files: &Vec<String>) -> (r: Option<String>)
    ensures
        opt_view(r) == first_litertlm(file_views(files@)),
{
    let ext = chars_of(".litertlm");
    let mut i: usize = 0;
    assert(file_views(files@).subrange(0, files.len() as int) =~= file_views(files@));
    while i < files.len()
        invariant
            i <= files.len(),
            ext@ == ".litertlm"@,
            first_litertlm(file_views(files@)) == first_litertlm(
                file_views(files@).subrange(i as int, files.len() as int),
            ),
        decreases files.len() - i,
    {
        let ghost rest = file_views(files@).subrange(i as int, files.len() as int);
        assert(rest[0] == files@[i as int]@);
        assert(rest.drop_first() =~= file_views(files@).subrange(i + 1, files.len() as int));
        let f = chars_of(files[i].as_str());
        if ends_with_exec(&f, &ext) {
            return Some(files[i].clone());
        }
        i += 1;
    }
    None
}

// ── Messages ─────────────────────────────────────────────────────────────────

/// Where a repository file is fetched from.
pub open spec fn download_url(repo_id: Seq<char>, filename: Seq<char>) -> Seq<char> {
    "https://huggingface.co/"@ + repo_id + "/resolve/main/"@ + filename
}

/// The `Authorization` header value for a token.
pub open spec fn bearer(token: Seq<char>) -> Seq<char> {
    "Bearer "@ + token
}

pub open spec fn listing_message(repo_id: Seq<char>) -> Seq<char> {
    "Listing files in "@ + repo_id + "..."@
}

pub open spec fn no_file_message(repo_id: Seq<char>) -> Seq<char> {
    "No .litertlm file found in "@ + repo_id
}

pub open spec fn cached_message(filename: Seq<char>) -> Seq<char> {
    filename + " already downloaded, loading..."@
}

pub open spec fn fetching_message(filename: Seq<char>, repo_id: Seq<char>) -> Seq<char> {
    "Downloading "@ + filename + " from "@ + repo_id + "..."@
}

pub open spec fn loading_message(model_id: Seq<char>) -> Seq<char> {
    "Loading "@ + model_id + "..."@
}

/// Why listing a repository failed.
pub enum ListingError {
    /// The HuggingFace client could not be set up; its message.
    Setup(String),
    /// The listing request failed; its message.
    Request(String),
}

pub open spec fn listing_error_message(e: ListingError) -> Seq<char> {
    match e {
        ListingError::Setup(m) => m@,
        ListingError::Request(m) => "Failed to list repo files: "@ + m@,
    }
}

// ── The machine ──────────────────────────────────────────────────────────────

/// A download in progress.
pub struct Download {
    pub repo_id: String,
    /// The file being downloaded, once known.
    pub filename: String,
    /// The id asked for, if any.
    pub requested_model_id: Option<String>,
    /// The token to authenticate with, if any.
    pub token: Option<String>,
    /// Where the file goes, once known.
    pub dest: String,
    /// Bytes written so far.
    pub downloaded: u64,
    /// The size announced by the server, if any.
    pub total: Option<u64>,
}

/// The id a model is registered under: the one asked for, else the stem of
/// its file name (for a plain file name, what precedes its last `.`, as
/// `name_stem` says).
pub open spec fn model_id_for(requested: Option<Seq<char>>, filename: Seq<char>) -> Seq<char> {
    match requested {
        Some(id) => id,
        None => if plain_file_name(filename) {
            name_stem(filename)
        } else {
            path_file_stem(filename)
        },
    }
}

/// Progress is reported when the running count crosses a multiple of
/// `PROGRESS_INTERVAL` with this chunk.
pub open spec fn reports_progress(downloaded: u64, chunk_len: u64) -> bool {
    downloaded % PROGRESS_INTERVAL < chunk_len
}

fn one_event(e: DownloadEvent) -> (r: Vec<DownloadEvent>)
    ensures
        events_view(r@) == seq![e@],
{
    let mut v: Vec<DownloadEvent> = Vec::new();
    v.push(e);
    assert(events_view(v@) =~= seq![e@]);
    v
}

fn clone_opt(s: &Option<String>) -> (r: Option<String>)
    ensures
        opt_view(r) == opt_view(*s),
{
    match s {
        Some(x) => Some(x.clone()),
        None => None,
    }
}

impl Download {
    /// The id the model is registered under.
    pub open spec fn model_id(&self) -> Seq<char> {
        model_id_for(opt_view(self.requested_model_id), self.filename@)
    }

    fn model_id_exec(&self) -> (r: String)
        ensures
            r@ == self.model_id(),
    {
        match &self.requested_model_id {
            Some(id) => id.clone(),
            None => file_stem_of(self.filename.as_str()),
        }
    }

    fn destination_step(&self) -> (r: DownloadStep)
        ensures
            r@ matches StepSpec::CheckDestination(dir, f) && f == self.filename@ && (dir
                == DEFAULT_MODELS_DIR@ || ends_with(dir, DEFAULT_MODELS_DIR@.drop_first())),
    {
        proof {
            reveal_strlit("~/.local/share/lite-llm/models");
        }
        let dir = expand_tilde(DEFAULT_MODELS_DIR);
        DownloadStep::CheckDestination { models_dir: dir, filename: self.filename.clone() }
    }

    fn failure(message: String) -> (t: Transition)
        ensures
            events_view(t.events@) == seq![EventSpec::Error(message@)],
            t.next@ == StepSpec::Finish,
    {
        Transition { events: one_event(DownloadEvent::Error { message }), next: DownloadStep::Finish }
    }

    /// Starts a download: the default repository when none is named; when
    /// no file is named, the repository is listed first.
    pub fn start(req: DownloadRequest, token: Option<String>) -> (r: (Download, Transition))
        ensures
            r.0.repo_id@ == (match req.repo_id {
                Some(id) => id@,
                None => DEFAULT_REPO_ID@,
            }),
            opt_view(r.0.requested_model_id) == opt_view(req.model_id),
            opt_view(r.0.token) == opt_view(token),
            r.0.downloaded == 0,
            r.0.total is None,
            match req.filename {
                Some(f) => {
                    &&& r.0.filename@ == f@
                    &&& events_view(r.1.events@) == Seq::<EventSpec>::empty()
                    &&& r.1.next@ matches StepSpec::CheckDestination(_, file) && file == f@
                },
                None => {
                    &&& events_view(r.1.events@) == seq![
                        EventSpec::Resolving(listing_message(r.0.repo_id@)),
                    ]
                    &&& r.1.next@ == StepSpec::ListFiles(r.0.repo_id@)
                },
            },
    {
        let repo_id = match req.repo_id {
            Some(id) => id,
            None => DEFAULT_REPO_ID.to_owned(),
        };
        let d = Download {
            repo_id,
            filename: String::new(),
            requested_model_id: req.model_id,
            token,
            dest: String::new(),
            downloaded: 0,
            total: None,
        };
        match req.filename {
            Some(f) => {
                let d = Download { filename: f, ..d };
                let next = d.destination_step();
                let t = Transition { events: Vec::new(), next };
                assert(events_view(t.events@) =~= Seq::<EventSpec>::empty());
                (d, t)
            },
            None => {
                let msg = concat3("Listing files in ", d.repo_id.as_str(), "...");
                let t = Transition {
                    events: one_event(DownloadEvent::Resolving { message: msg }),
                    next: DownloadStep::ListFiles { repo_id: d.repo_id.clone() },
                };
                (d, t)
            },
        }
    }

    /// The repository listing: the first `.litertlm` file is downloaded.
    pub fn on_listing(&mut self, listing: Result<Vec<String>, ListingError>) -> (t: Transition)
        ensures
            final(self).repo_id@ == old(self).repo_id@,
            opt_view(final(self).requested_model_id) == opt_view(old(self).requested_model_id),
            final(self).downloaded == old(self).downloaded,
            match listing {
                Err(e) => {
                    &&& events_view(t.events@) == seq![EventSpec::Error(listing_error_message(e))]
                    &&& t.next@ == StepSpec::Finish
                },
                Ok(files) => match first_litertlm(file_views(files@)) {
                    Some(f) => {
                        &&& final(self).filename@ == f
                        &&& events_view(t.events@) == Seq::<EventSpec>::empty()
                        &&& t.next@ matches StepSpec::CheckDestination(_, file) && file == f
                    },
                    None => {
                        &&& events_view(t.events@) == seq![
                            EventSpec::Error(no_file_message(old(self).repo_id@)),
                        ]
                        &&& t.next@ == StepSpec::Finish
                    },
                },
            },
    {
        match listing {
            Err(ListingError::Setup(m)) => Self::failure(m),
            Err(ListingError::Request(m)) => {
                let mut msg = chars_of("Failed to list repo files: ");
                let mc = chars_of(m.as_str());
                append_chars(&mut msg, &mc);
                Self::failure(string_of(&msg))
            },
            Ok(files) => match first_litertlm_exec(&files) {
                Some(f) => {
                    self.filename = f;
                    let next = self.destination_step();
                    let t = Transition { events: Vec::new(), next };
                    assert(events_view(t.events@) =~= Seq::<EventSpec>::empty());
                    t
                },
                None => {
                    let mut msg = chars_of("No .litertlm file found in ");
                    let r = chars_of(self.repo_id.as_str());
                    append_chars(&mut msg, &r);
                    Self::failure(string_of(&msg))
                },
            },
        }
    }

    /// What the models directory holds: a file already there is loaded;
    /// otherwise it is fetched, with the token as a bearer token.
    pub fn on_destination(&mut self, dest: String, exists: bool) -> (t: Transition)
        ensures
            final(self).dest@ == dest@,
            final(self).filename@ == old(self).filename@,
            final(self).repo_id@ == old(self).repo_id@,
            opt_view(final(self).requested_model_id) == opt_view(old(self).requested_model_id),
            final(self).downloaded == old(self).downloaded,
            final(self).total == old(self).total,
            exists ==> {
                &&& events_view(t.events@) == seq![
                    EventSpec::Resolving(cached_message(old(self).filename@)),
                    EventSpec::Loading(loading_message(old(self).model_id())),
                ]
                &&& t.next@ == StepSpec::Load(old(self).model_id(), dest@)
            },
            !exists ==> {
                &&& events_view(t.events@) == seq![
                    EventSpec::Resolving(
                        fetching_message(old(self).filename@, old(self).repo_id@),
                    ),
                ]
                &&& t.next@ == StepSpec::Fetch(
                    download_url(old(self).repo_id@, old(self).filename@),
                    match opt_view(old(self).token) {
                        Some(tok) => Some(bearer(tok)),
                        None => None,
                    },
                )
            },
    {
        self.dest = dest;
        if exists {
            let m1 = concat3(self.filename.as_str(), " already downloaded, loading...", "");
            let id = self.model_id_exec();
            let m2 = concat3("Loading ", id.as_str(), "...");
            let mut events: Vec<DownloadEvent> = Vec::new();
            events.push(DownloadEvent::Resolving { message: m1 });
            events.push(DownloadEvent::Loading { message: m2 });
            proof {
                reveal_strlit("");
                assert(events_view(events@) =~= seq![
                    EventSpec::Resolving(cached_message(self.filename@)),
                    EventSpec::Loading(loading_message(self.model_id())),
                ]);
            }
            Transition { events, next: DownloadStep::Load { model_id: id, path: self.dest.clone() } }
        } else {
            let mut m = chars_of("Downloading ");
            let f = chars_of(self.filename.as_str());
            append_chars(&mut m, &f);
            let from = chars_of(" from ");
            append_chars(&mut m, &from);
            let r = chars_of(self.repo_id.as_str());
            append_chars(&mut m, &r);
            let dots = chars_of("...");
            append_chars(&mut m, &dots);
            let mut u = chars_of("https://huggingface.co/");
            append_chars(&mut u, &r);
            let mid = chars_of("/resolve/main/");
            append_chars(&mut u, &mid);
            append_chars(&mut u, &f);
            let authorization = match &self.token {
                Some(tok) => Some(concat3("Bearer ", tok.as_str(), "")),
                None => None,
            };
            proof {
                reveal_strlit("");
            }
            Transition {
                events: one_event(DownloadEvent::Resolving { message: string_of(&m) }),
                next: DownloadStep::Fetch { url: string_of(&u), authorization },
            }
        }
    }

    /// The server's answer to the fetch: a success status (200–299) starts
    /// streaming, with the size it announces; any other status ends the
    /// download with an error naming the status (as shown) and the URL.
    pub fn on_response(&mut self, status: u16, status_text: String, content_length: Option<u64>) -> (t:
        Transition)
        ensures
            final(self).filename@ == old(self).filename@,
            final(self).repo_id@ == old(self).repo_id@,
            final(self).dest@ == old(self).dest@,
            opt_view(final(self).requested_model_id) == opt_view(old(self).requested_model_id),
            final(self).downloaded == old(self).downloaded,
            200 <= status <= 299 ==> {
                &&& final(self).total == content_length
                &&& events_view(t.events@) == Seq::<EventSpec>::empty()
                &&& t.next@ == StepSpec::Stream
            },
            !(200 <= status <= 299) ==> {
                &&& final(self).total == old(self).total
                &&& events_view(t.events@) == seq![
                    EventSpec::Error(
                        "HTTP "@ + status_text@ + ": "@ + download_url(
                            old(self).repo_id@,
                            old(self).filename@,
                        ),
                    ),
                ]
                &&& t.next@ == StepSpec::Finish
            },
    {
        if 200 <= status && status <= 299 {
            self.total = content_length;
            let t = Transition { events: Vec::new(), next: DownloadStep::Stream };
            assert(events_view(t.events@) =~= Seq::<EventSpec>::empty());
            t
        } else {
            let mut m = chars_of("HTTP ");
            let s = chars_of(status_text.as_str());
            append_chars(&mut m, &s);
            let sep = chars_of(": ");
            append_chars(&mut m, &sep);
            let mut u = chars_of("https://huggingface.co/");
            let r = chars_of(self.repo_id.as_str());
            append_chars(&mut u, &r);
            let mid = chars_of("/resolve/main/");
            append_chars(&mut u, &mid);
            let f = chars_of(self.filename.as_str());
            append_chars(&mut u, &f);
            append_chars(&mut m, &u);
            proof {
                assert(m@ =~= "HTTP "@ + status_text@ + ": "@ + download_url(
                    self.repo_id@,
                    self.filename@,
                ));
            }
            Self::failure(string_of(&m))
        }
    }

    /// A chunk of `len` bytes was written: progress is reported about every
    /// `PROGRESS_INTERVAL` bytes.
    pub fn on_chunk(&mut self, len: u64) -> (events: Vec<DownloadEvent>)
        requires
            old(self).downloaded + len <= u64::MAX,
        ensures
            final(self).downloaded == old(self).downloaded + len,
            final(self).filename@ == old(self).filename@,
            final(self).repo_id@ == old(self).repo_id@,
            final(self).dest@ == old(self).dest@,
            final(self).total == old(self).total,
            opt_view(final(self).requested_model_id) == opt_view(old(self).requested_model_id),
            reports_progress(final(self).downloaded, len) ==> events_view(events@) == seq![
                EventSpec::Downloading(old(self).filename@, final(self).downloaded, old(self).total),
            ],
            !reports_progress(final(self).downloaded, len) ==> events@.len() == 0,
    {
        self.downloaded = self.downloaded + len;
        if self.downloaded % PROGRESS_INTERVAL < len {
            one_event(
                DownloadEvent::Downloading {
                    filename: self.filename.clone(),
                    downloaded: self.downloaded,
                    total: self.total,
                },
            )
        } else {
            Vec::new()
        }
    }

    /// The file is complete: a last progress event shows it whole, and the
    /// model is loaded.
    pub fn on_finished(&self) -> (t: Transition)
        ensures
            events_view(t.events@) == seq![
                EventSpec::Downloading(self.filename@, self.downloaded, Some(self.downloaded)),
                EventSpec::Loading(loading_message(self.model_id())),
            ],
            t.next@ == StepSpec::Load(self.model_id(), self.dest@),
    {
        let id = self.model_id_exec();
        let m = concat3("Loading ", id.as_str(), "...");
        let mut events: Vec<DownloadEvent> = Vec::new();
        events.push(
            DownloadEvent::Downloading {
                filename: self.filename.clone(),
                downloaded: self.downloaded,
                total: Some(self.downloaded),
            },
        );
        events.push(DownloadEvent::Loading { message: m });
        assert(events_view(events@) =~= seq![
            EventSpec::Downloading(self.filename@, self.downloaded, Some(self.downloaded)),
            EventSpec::Loading(loading_message(self.model_id())),
        ]);
        Transition { events, next: DownloadStep::Load { model_id: id, path: self.dest.clone() } }
    }

    /// The model was loaded (or not): the download completes with the id and
    /// path, or ends with the loader's error.
    pub fn on_loaded(&self, model_id: &String, path: &String, outcome: Result<(), String>) -> (t:
        Transition)
        ensures
            t.next@ == StepSpec::Finish,
            match outcome {
                Ok(()) => events_view(t.events@) == seq![EventSpec::Complete(model_id@, path@)],
                Err(m) => events_view(t.events@) == seq![EventSpec::Error(m@)],
            },
    {
        match outcome {
            Ok(()) => Transition {
                events: one_event(
                    DownloadEvent::Complete { model_id: model_id.clone(), path: path.clone() },
                ),
                next: DownloadStep::Finish,
            },
            Err(m) => Self::failure(m),
        }
    }

    /// A step failed with this message (a file or network error): the
    /// download ends with it.
    pub fn on_failure(&self, message: String) -> (t: Transition)
        ensures
            events_view(t.events@) == seq![EventSpec::Error(message@)],
            t.next@ == StepSpec::Finish,
    {
        Self::failure(message)
    }
}

} // verus!
