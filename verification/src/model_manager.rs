//! Loaded models, which one is active, and where a model's file comes from.
use vstd::prelude::*;

use crate::tools::opt_view;
use crate::text::{
    append_chars, chars_of, concat3, ends_with, ends_with_exec, find, find_exec, lemma_find_from_result, contains,
    contains_exec, slice_chars, starts_with, starts_with_exec, string_of,
};

verus! {

// ── The set of loaded models ─────────────────────────────────────────────────

/// The models loaded under their ids, and the id of the active one.
///
/// Each id occurs once. Loading under an id already in use replaces that
/// model; the model loaded last becomes the active one.
pub struct ModelManager<B> {
    models: Vec<(String, B)>,
    active: Option<String>,
}

pub open spec fn ids_of<B>(models: Seq<(String, B)>) -> Seq<Seq<char>> {
    models.map_values(|e: (String, B)| e.0@)
}

/// The model loaded under `id`.
pub open spec fn model_under<B>(models: Seq<(Seq<char>, B)>, id: Seq<char>) -> Option<B>
    decreases models.len(),
{
    if models.len() == 0 {
        None
    } else if models[0].0 == id {
        Some(models[0].1)
    } else {
        model_under(models.drop_first(), id)
    }
}

/// What a manager holds: the (id, model) pairs and the active id.
pub ghost struct ManagerState<B> {
    pub models: Seq<(Seq<char>, B)>,
    pub active: Option<Seq<char>>,
}

pub open spec fn string_views(v: Seq<String>) -> Seq<Seq<char>> {
    v.map_values(|s: String| s@)
}

pub open spec fn model_ids<B>(models: Seq<(Seq<char>, B)>) -> Seq<Seq<char>> {
    models.map_values(|e: (Seq<char>, B)| e.0)
}

pub open spec fn entries_of<B>(models: Seq<(String, B)>) -> Seq<(Seq<char>, B)> {
    models.map_values(|e: (String, B)| (e.0@, e.1))
}

pub open spec fn unique_ids<B>(models: Seq<(Seq<char>, B)>) -> bool {
    forall|i: int, j: int|
        0 <= i < models.len() && 0 <= j < models.len() && i != j ==> #[trigger] models[i].0
            != #[trigger] models[j].0
}

/// The model `resolve` picks: the one under the requested id; with no id,
/// the only loaded model, or else the active one.
pub open spec fn resolved<B>(s: ManagerState<B>, model_id: Option<Seq<char>>) -> Option<B> {
    match model_id {
        Some(id) => model_under(s.models, id),
        None => if s.models.len() == 1 {
            Some(s.models[0].1)
        } else {
            match s.active {
                Some(id) => model_under(s.models, id),
                None => None,
            }
        },
    }
}

/// The pairs after loading `b` under `id`: replacing the model already
/// under `id`, or added last.
pub open spec fn loaded<B>(models: Seq<(Seq<char>, B)>, id: Seq<char>, b: B) -> Seq<
    (Seq<char>, B),
> {
    match index_of_id(models, id) {
        Some(i) => models.update(i, (id, b)),
        None => models.push((id, b)),
    }
}

/// Position of `id` among the pairs.
pub open spec fn index_of_id<B>(models: Seq<(Seq<char>, B)>, id: Seq<char>) -> Option<int> {
    if exists|i: int| 0 <= i < models.len() && models[i].0 == id {
        Some(choose|i: int| 0 <= i < models.len() && models[i].0 == id)
    } else {
        None
    }
}

impl<B> View for ModelManager<B> {
    type V = ManagerState<B>;

    closed spec fn view(&self) -> ManagerState<B> {
        ManagerState {
            models: entries_of(self.models@),
            active: match self.active {
                Some(a) => Some(a@),
                None => None,
            },
        }
    }
}

pub proof fn lemma_model_under<B>(models: Seq<(Seq<char>, B)>, id: Seq<char>, i: int)
    requires
        unique_ids(models),
        0 <= i < models.len(),
        models[i].0 == id,
    ensures
        model_under(models, id) == Some(models[i].1),
    decreases models.len(),
{
    if i > 0 {
        assert(models[0].0 != id);
        let rest = models.drop_first();
        assert forall|a: int, b: int|
            0 <= a < rest.len() && 0 <= b < rest.len() && a != b implies #[trigger] rest[a].0
            != #[trigger] rest[b].0 by {
            assert(rest[a] == models[a + 1]);
            assert(rest[b] == models[b + 1]);
        }
        lemma_model_under(rest, id, i - 1);
    }
}

pub proof fn lemma_model_under_absent<B>(models: Seq<(Seq<char>, B)>, id: Seq<char>)
    requires
        forall|i: int| 0 <= i < models.len() ==> (#[trigger] models[i]).0 != id,
    ensures
        model_under(models, id) is None,
    decreases models.len(),
{
    if models.len() > 0 {
        let rest = models.drop_first();
        assert forall|i: int| 0 <= i < rest.len() implies (#[trigger] rest[i]).0 != id by {
            assert(rest[i] == models[i + 1]);
        }
        lemma_model_under_absent(rest, id);
    }
}

/// The model under `id`, where `id` is among the pairs or not.
pub proof fn lemma_model_under_index<B>(models: Seq<(Seq<char>, B)>, id: Seq<char>)
    requires
        unique_ids(models),
    ensures
        model_under(models, id) == match index_of_id(models, id) {
            Some(i) => Some(models[i].1),
            None => None,
        },
{
    match index_of_id(models, id) {
        Some(i) => lemma_model_under(models, id, i),
        None => lemma_model_under_absent(models, id),
    }
}

impl<B> ModelManager<B> {
    #[verifier::type_invariant]
    closed spec fn ids_unique(self) -> bool {
        unique_ids(entries_of(self.models@))
    }

    /// A manager with no model loaded.
    pub fn new() -> (r: Self)
        ensures
            r@.models == Seq::<(Seq<char>, B)>::empty(),
            r@.active is None,
            unique_ids(r@.models),
    {
        let r = ModelManager { models: Vec::new(), active: None };
        assert(entries_of(r.models@) =~= Seq::<(Seq<char>, B)>::empty());
        r
    }

    fn position(&self, id: &String) -> (r: Option<usize>)
        ensures
            r matches Some(i) ==> i < self@.models.len() && self@.models[i as int].0 == id@,
            r is None ==> forall|i: int|
                0 <= i < self@.models.len() ==> (#[trigger] self@.models[i]).0 != id@,
    {
        let mut i: usize = 0;
        while i < self.models.len()
            invariant
                i <= self.models.len(),
                forall|k: int| 0 <= k < i ==> (#[trigger] entries_of(self.models@)[k]).0 != id@,
            decreases self.models.len() - i,
        {
            if self.models[i].0 == *id {
                return Some(i);
            }
            i += 1;
        }
        None
    }

    /// Registers `backend` under `model_id` and makes it the active model.
    pub fn load(&mut self, model_id: String, backend: B)
        ensures
            unique_ids(old(self)@.models),
            final(self)@.models == loaded(old(self)@.models, model_id@, backend),
            final(self)@.active == Some(model_id@),
            unique_ids(final(self)@.models),
    {
        proof {
            use_type_invariant(&*self);
        }
        let ghost old_models = self@.models;
        match self.position(&model_id) {
            Some(i) => {
                proof {
                    let id = model_id@;
                    assert(exists|k: int| 0 <= k < old_models.len() && old_models[k].0 == id);
                    let c = choose|k: int| 0 <= k < old_models.len() && old_models[k].0 == id;
                    if c != i {
                        assert(old_models[c].0 == old_models[i as int].0);
                    }
                }
                let mut models = Vec::new();
                std::mem::swap(&mut models, &mut self.models);
                models.set(i, (model_id.clone(), backend));
                proof {
                    assert(entries_of(models@) =~= old_models.update(i as int, (model_id@, backend)));
                    let m = entries_of(models@);
                    assert forall|a: int, b: int|
                        0 <= a < m.len() && 0 <= b < m.len() && a != b implies #[trigger] m[a].0
                        != #[trigger] m[b].0 by {
                        if a != i && b != i {
                            assert(m[a] == old_models[a]);
                            assert(m[b] == old_models[b]);
                        } else if a == i {
                            assert(m[b] == old_models[b]);
                        } else {
                            assert(m[a] == old_models[a]);
                        }
                    }
                }
                self.models = models;
            },
            None => {
                proof {
                    let id = model_id@;
                    assert(!exists|k: int| 0 <= k < old_models.len() && old_models[k].0 == id);
                }
                let mut models = Vec::new();
                std::mem::swap(&mut models, &mut self.models);
                models.push((model_id.clone(), backend));
                proof {
                    assert(entries_of(models@) =~= old_models.push((model_id@, backend)));
                    let m = entries_of(models@);
                    assert forall|a: int, b: int|
                        0 <= a < m.len() && 0 <= b < m.len() && a != b implies #[trigger] m[a].0
                        != #[trigger] m[b].0 by {
                        if a < old_models.len() && b < old_models.len() {
                            assert(m[a] == old_models[a]);
                            assert(m[b] == old_models[b]);
                        } else if a < old_models.len() {
                            assert(m[a] == old_models[a]);
                        } else {
                            assert(m[b] == old_models[b]);
                        }
                    }
                }
                self.models = models;
            },
        }
        self.active = Some(model_id);
        proof {
            use_type_invariant(&*self);
        }
    }

    /// The model loaded under `model_id`.
    pub fn get(&self, model_id: &str) -> (r: Option<&B>)
        ensures
            match r {
                Some(b) => model_under(self@.models, model_id@) == Some(*b),
                None => model_under(self@.models, model_id@) is None,
            },
            unique_ids(self@.models),
    {
        proof {
            use_type_invariant(&*self);
        }
        let id = model_id.to_owned();
        match self.position(&id) {
            Some(i) => {
                proof {
                    lemma_model_under(self@.models, model_id@, i as int);
                }
                Some(&self.models[i].1)
            },
            None => {
                proof {
                    lemma_model_under_absent(self@.models, model_id@);
                }
                None
            },
        }
    }

    /// The requested model, or with no request the only loaded model, or
    /// else the active one.
    pub fn resolve(&self, model_id: Option<&str>) -> (r: Option<&B>)
        ensures
            match r {
                Some(b) => resolved(
                    self@,
                    match model_id {
                        Some(id) => Some(id@),
                        None => None,
                    },
                ) == Some(*b),
                None => resolved(
                    self@,
                    match model_id {
                        Some(id) => Some(id@),
                        None => None,
                    },
                ) is None,
            },
            unique_ids(self@.models),
    {
        proof {
            use_type_invariant(&*self);
        }
        if let Some(id) = model_id {
            return self.get(id);
        }
        if self.models.len() == 1 {
            return Some(&self.models[0].1);
        }
        match &self.active {
            Some(a) => self.get(a.as_str()),
            None => None,
        }
    }

    /// The ids of the loaded models.
    pub fn loaded_ids(&self) -> (r: Vec<String>)
        ensures
            string_views(r@) == model_ids(self@.models),
    {
        let mut r: Vec<String> = Vec::new();
        let mut i: usize = 0;
        while i < self.models.len()
            invariant
                i <= self.models.len(),
                string_views(r@) == model_ids(self@.models).take(i as int),
            decreases self.models.len() - i,
        {
            let ghost before = string_views(r@);
            r.push(self.models[i].0.clone());
            assert(string_views(r@) =~= before.push(self.models@[i as int].0@));
            assert(model_ids(self@.models).take(i + 1) =~= model_ids(self@.models).take(
                i as int,
            ).push(self.models@[i as int].0@));
            i += 1;
        }
        assert(model_ids(self@.models).take(self.models.len() as int) =~= model_ids(
            self@.models,
        ));
        r
    }

    /// The id of the active model.
    pub fn active_id(&self) -> (r: Option<String>)
        ensures
            match r {
                Some(s) => self@.active == Some(s@),
                None => self@.active is None,
            },
    {
        match &self.active {
            Some(a) => Some(a.clone()),
            None => None,
        }
    }
}

/// After `load`, the model is found under its id, it is active, and a
/// request that names no model resolves to it.
pub proof fn law_load_then_resolve<B>(s: ManagerState<B>, id: Seq<char>, b: B)
    requires
        unique_ids(s.models),
    ensures
        ({
            let t = ManagerState { models: loaded(s.models, id, b), active: Some(id) };
            &&& model_under(t.models, id) == Some(b)
            &&& resolved(t, None) == Some(b)
            &&& resolved(t, Some(id)) == Some(b)
        }),
{
    let m = loaded(s.models, id, b);
    match index_of_id(s.models, id) {
        Some(i) => {
            assert(m[i].0 == id);
            assert forall|x: int, y: int|
                0 <= x < m.len() && 0 <= y < m.len() && x != y implies #[trigger] m[x].0
                != #[trigger] m[y].0 by {
                if x != i && y != i {
                } else if x == i {
                    assert(s.models[y].0 != s.models[i].0);
                } else {
                    assert(s.models[x].0 != s.models[i].0);
                }
            }
            lemma_model_under(m, id, i);
            if m.len() == 1 {
                assert(m[0].0 == id);
            }
        },
        None => {
            let n = s.models.len() as int;
            assert(m[n].0 == id);
            assert forall|x: int, y: int|
                0 <= x < m.len() && 0 <= y < m.len() && x != y implies #[trigger] m[x].0
                != #[trigger] m[y].0 by {
                if x < n && y < n {
                } else if x < n {
                    assert(s.models[x].0 != id);
                } else {
                    assert(s.models[y].0 != id);
                }
            }
            lemma_model_under(m, id, n);
        },
    }
}

/// After `load`, the loaded ids are the ids loaded before, and `id`; each
/// once.
pub proof fn law_load_ids<B>(s: ManagerState<B>, id: Seq<char>, b: B)
    requires
        unique_ids(s.models),
    ensures
        unique_ids(loaded(s.models, id, b)),
        forall|x: Seq<char>|
            #[trigger] model_ids(loaded(s.models, id, b)).contains(x) <==> (x == id || model_ids(
                s.models,
            ).contains(x)),
{
    let m = loaded(s.models, id, b);
    let old_ids = model_ids(s.models);
    let new_ids = model_ids(m);
    match index_of_id(s.models, id) {
        Some(i) => {
            assert forall|x: int, y: int|
                0 <= x < m.len() && 0 <= y < m.len() && x != y implies #[trigger] m[x].0
                != #[trigger] m[y].0 by {
                if x != i && y != i {
                } else if x == i {
                    assert(s.models[y].0 != s.models[i].0);
                } else {
                    assert(s.models[x].0 != s.models[i].0);
                }
            }
            assert forall|x: Seq<char>| new_ids.contains(x) <==> (x == id || old_ids.contains(x)) by {
                if new_ids.contains(x) {
                    let k = choose|k: int| 0 <= k < new_ids.len() && new_ids[k] == x;
                    if k != i {
                        assert(old_ids[k] == x);
                    }
                }
                if x == id {
                    assert(new_ids[i] == x);
                } else if old_ids.contains(x) {
                    let k = choose|k: int| 0 <= k < old_ids.len() && old_ids[k] == x;
                    assert(k != i);
                    assert(new_ids[k] == x);
                }
            }
        },
        None => {
            let n = s.models.len() as int;
            assert forall|x: int, y: int|
                0 <= x < m.len() && 0 <= y < m.len() && x != y implies #[trigger] m[x].0
                != #[trigger] m[y].0 by {
                if x < n && y < n {
                } else if x < n {
                    assert(s.models[x].0 != id);
                } else {
                    assert(s.models[y].0 != id);
                }
            }
            assert forall|x: Seq<char>| new_ids.contains(x) <==> (x == id || old_ids.contains(x)) by {
                if new_ids.contains(x) {
                    let k = choose|k: int| 0 <= k < new_ids.len() && new_ids[k] == x;
                    if k < n {
                        assert(old_ids[k] == x);
                    }
                }
                if x == id {
                    assert(new_ids[n] == x);
                } else if old_ids.contains(x) {
                    let k = choose|k: int| 0 <= k < old_ids.len() && old_ids[k] == x;
                    assert(new_ids[k] == x);
                }
            }
        },
    }
}

/// Loading under a new id keeps every model loaded before under its id;
/// loading under an id in use replaces only that model.
pub proof fn law_load_keeps_others<B>(s: ManagerState<B>, id: Seq<char>, b: B, other: Seq<char>)
    requires
        unique_ids(s.models),
        other != id,
    ensures
        model_under(loaded(s.models, id, b), other) == model_under(s.models, other),
{
    let m = loaded(s.models, id, b);
    lemma_model_under_index(s.models, other);
    match index_of_id(s.models, id) {
        Some(i) => {
            assert forall|x: int, y: int|
                0 <= x < m.len() && 0 <= y < m.len() && x != y implies #[trigger] m[x].0
                != #[trigger] m[y].0 by {
                if x != i && y != i {
                } else if x == i {
                    assert(s.models[y].0 != s.models[i].0);
                } else {
                    assert(s.models[x].0 != s.models[i].0);
                }
            }
            match index_of_id(s.models, other) {
                Some(j) => {
                    assert(j != i);
                    lemma_model_under(m, other, j);
                },
                None => {
                    assert forall|k: int| 0 <= k < m.len() implies (#[trigger] m[k]).0 != other by {
                        if k != i {
                            assert(m[k] == s.models[k]);
                        }
                    }
                    lemma_model_under_absent(m, other);
                },
            }
        },
        None => {
            let n = s.models.len() as int;
            assert forall|x: int, y: int|
                0 <= x < m.len() && 0 <= y < m.len() && x != y implies #[trigger] m[x].0
                != #[trigger] m[y].0 by {
                if x < n && y < n {
                } else if x < n {
                    assert(s.models[x].0 != id);
                } else {
                    assert(s.models[y].0 != id);
                }
            }
            match index_of_id(s.models, other) {
                Some(j) => {
                    lemma_model_under(m, other, j);
                },
                None => {
                    assert forall|k: int| 0 <= k < m.len() implies (#[trigger] m[k]).0 != other by {
                        if k < n {
                            assert(m[k] == s.models[k]);
                        }
                    }
                    lemma_model_under_absent(m, other);
                },
            }
        },
    }
}


// ── Where a model's file comes from ──────────────────────────────────────────


/// Why a model file could not be had.
pub enum ModelError {
    /// The HuggingFace client could not be set up.
    HubSetup(String),
    /// Listing a repository's files failed.
    HubList { repo_id: String, message: String },
    /// Downloading a file failed.
    HubDownload { repo_id: String, filename: String, message: String },
    /// A repository holds no `.gguf`, `.litertlm` or `.task` file.
    NoModelFile { repo_id: String },
}

impl ModelError {
    pub open spec fn text(&self) -> Seq<char> {
        match self {
            ModelError::HubSetup(m) => m@,
            ModelError::HubList { repo_id, message } => "Failed to list "@ + repo_id@ + ": "@
                + message@,
            ModelError::HubDownload { repo_id, filename, message } =>
                "HuggingFace download failed ("@ + repo_id@ + "/"@ + filename@ + "): "@ + message@,
            ModelError::NoModelFile { repo_id } =>
                "No recognised model file (.gguf, .litertlm, .task) found in "@ + repo_id@,
        }
    }

    /// The error's message.
    pub fn message(&self) -> (r: String)
        ensures
            r@ == self.text(),
    {
        match self {
            ModelError::HubSetup(m) => m.clone(),
            ModelError::HubList { repo_id, message } => {
                let mut v = chars_of("Failed to list ");
                let a = chars_of(repo_id.as_str());
                append_chars(&mut v, &a);
                let b = chars_of(": ");
                append_chars(&mut v, &b);
                let c = chars_of(message.as_str());
                append_chars(&mut v, &c);
                string_of(&v)
            },
            ModelError::HubDownload { repo_id, filename, message } => {
                let mut v = chars_of("HuggingFace download failed (");
                let a = chars_of(repo_id.as_str());
                append_chars(&mut v, &a);
                let b = chars_of("/");
                append_chars(&mut v, &b);
                let c = chars_of(filename.as_str());
                append_chars(&mut v, &c);
                let d = chars_of("): ");
                append_chars(&mut v, &d);
                let e = chars_of(message.as_str());
                append_chars(&mut v, &e);
                string_of(&v)
            },
            ModelError::NoModelFile { repo_id } => {
                proof {
                    reveal_strlit("");
                }
                concat3(
                    "No recognised model file (.gguf, .litertlm, .task) found in ",
                    repo_id.as_str(),
                    "",
                )
            },
        }
    }
}

/// Where a model path points.
pub enum ModelSource {
    /// A local file: an absolute or relative path, one starting with `~`,
    /// or a bare name.
    Local,
    /// `owner/repo/filename`: a file of a HuggingFace repository.
    HubFile { repo_id: String, filename: String },
    /// `owner/repo`: a HuggingFace repository whose best file is picked.
    HubRepo,
}

pub ghost enum SourceSpec {
    Local,
    HubFile(Seq<char>, Seq<char>),
    HubRepo,
}

impl View for ModelSource {
    type V = SourceSpec;

    open spec fn view(&self) -> SourceSpec {
        match self {
            ModelSource::Local => SourceSpec::Local,
            ModelSource::HubFile { repo_id, filename } => SourceSpec::HubFile(repo_id@, filename@),
            ModelSource::HubRepo => SourceSpec::HubRepo,
        }
    }
}

/// Where `p` points: paths starting with `/`, `.` or `~` are local; else
/// the path is split at its first two `/` (`str::splitn(3, '/')`), three
/// pieces naming a repository file, two a repository, one a local file.
pub open spec fn model_source(p: Seq<char>) -> SourceSpec {
    if starts_with(p, "/"@) || starts_with(p, "."@) || starts_with(p, "~"@) {
        SourceSpec::Local
    } else {
        match find(p, "/"@) {
            None => SourceSpec::Local,
            Some(i) => {
                let rest = p.subrange(i + 1, p.len() as int);
                match find(rest, "/"@) {
                    None => SourceSpec::HubRepo,
                    Some(j) => SourceSpec::HubFile(
                        p.subrange(0, i) + "/"@ + rest.subrange(0, j),
                        rest.subrange(j + 1, rest.len() as int),
                    ),
                }
            },
        }
    }
}

/// Classifies a model path.
pub fn classify_model_path(path: &str) -> (r: ModelSource)
    ensures
        r@ == model_source(path@),
{
    let p = chars_of(path);
    let slash = chars_of("/");
    let dot = chars_of(".");
    let tilde = chars_of("~");
    proof {
        reveal_strlit("/");
    }
    if starts_with_exec(&p, &slash) || starts_with_exec(&p, &dot) || starts_with_exec(&p, &tilde) {
        return ModelSource::Local;
    }
    match find_exec(&p, &slash) {
        None => ModelSource::Local,
        Some(i) => {
            let rest = slice_chars(&p, i + 1, p.len());
            match find_exec(&rest, &slash) {
                None => ModelSource::HubRepo,
                Some(j) => {
                    let owner = slice_chars(&p, 0, i);
                    let repo = slice_chars(&rest, 0, j);
                    let mut id = owner;
                    crate::text::append_chars(&mut id, &slash);
                    crate::text::append_chars(&mut id, &repo);
                    let file = slice_chars(&rest, j + 1, rest.len());
                    ModelSource::HubFile { repo_id: string_of(&id), filename: string_of(&file) }
                },
            }
        },
    }
}

/// Files in GGUF format are run by llama.cpp; any other by LiteRT-LM.
pub fn is_gguf(path: &str) -> (b: bool)
    ensures
        b == ends_with(path@, ".gguf"@),
{
    let p = chars_of(path);
    let ext = chars_of(".gguf");
    ends_with_exec(&p, &ext)
}

pub open spec fn file_views(files: Seq<String>) -> Seq<Seq<char>> {
    files.map_values(|f: String| f@)
}

/// The files whose name ends in `.gguf`, in order.
pub open spec fn gguf_files(files: Seq<Seq<char>>) -> Seq<Seq<char>>
    decreases files.len(),
{
    if files.len() == 0 {
        Seq::empty()
    } else if ends_with(files.last(), ".gguf"@) {
        gguf_files(files.drop_last()).push(files.last())
    } else {
        gguf_files(files.drop_last())
    }
}

/// The first file whose name contains `q`.
pub open spec fn first_containing(files: Seq<Seq<char>>, q: Seq<char>) -> Option<Seq<char>>
    decreases files.len(),
{
    if files.len() == 0 {
        None
    } else if contains(files[0], q) {
        Some(files[0])
    } else {
        first_containing(files.drop_first(), q)
    }
}

/// Quantisations in order of preference.
pub open spec fn quant_preferences() -> Seq<Seq<char>> {
    seq!["Q4_K_M"@, "Q4_K_S"@, "Q4_0"@, "Q4"@, "Q8_0"@]
}

/// The first preference some file matches, that preference's first file.
pub open spec fn by_preference(files: Seq<Seq<char>>, prefs: Seq<Seq<char>>) -> Option<Seq<char>>
    decreases prefs.len(),
{
    if prefs.len() == 0 {
        None
    } else {
        match first_containing(files, prefs[0]) {
            Some(f) => Some(f),
            None => by_preference(files, prefs.drop_first()),
        }
    }
}

/// The first LiteRT-LM file (`.litertlm` or `.task`).
pub open spec fn first_litert(files: Seq<Seq<char>>) -> Option<Seq<char>>
    decreases files.len(),
{
    if files.len() == 0 {
        None
    } else if ends_with(files[0], ".litertlm"@) || ends_with(files[0], ".task"@) {
        Some(files[0])
    } else {
        first_litert(files.drop_first())
    }
}

/// The best model file of a repository: a GGUF file by quantisation
/// preference (Q4_K_M, Q4_K_S, Q4_0, any Q4, Q8_0), else the first GGUF
/// file; without GGUF files, the first LiteRT-LM file.
pub open spec fn picked_file(files: Seq<Seq<char>>) -> Option<Seq<char>> {
    let g = gguf_files(files);
    if g.len() > 0 {
        match by_preference(g, quant_preferences()) {
            Some(f) => Some(f),
            None => Some(g[0]),
        }
    } else {
        first_litert(files)
    }
}

fn gguf_files_exec(files: &Vec<String>) -> (r: Vec<Vec<char>>)
    ensures
        crate::text::views(r@) == gguf_files(file_views(files@)),
{
    let ext = chars_of(".gguf");
    let mut r: Vec<Vec<char>> = Vec::new();
    let mut i: usize = 0;
    while i < files.len()
        invariant
            i <= files.len(),
            ext@ == ".gguf"@,
            crate::text::views(r@) == gguf_files(file_views(files@).take(i as int)),
        decreases files.len() - i,
    {
        let ghost t = file_views(files@).take(i + 1);
        assert(t.drop_last() =~= file_views(files@).take(i as int));
        assert(t.last() == files@[i as int]@);
        let f = chars_of(files[i].as_str());
        if ends_with_exec(&f, &ext) {
            let ghost before = crate::text::views(r@);
            r.push(f);
            assert(crate::text::views(r@) =~= before.push(files@[i as int]@));
        }
        i += 1;
    }
    assert(file_views(files@).take(files.len() as int) =~= file_views(files@));
    r
}

fn first_containing_exec(files: &Vec<Vec<char>>, q: &Vec<char>) -> (r: Option<usize>)
    ensures
        match r {
            Some(i) => i < files.len() && first_containing(crate::text::views(files@), q@) == Some(
                files@[i as int]@,
            ),
            None => first_containing(crate::text::views(files@), q@) is None,
        },
{
    let mut i: usize = 0;
    assert(crate::text::views(files@).subrange(0, files.len() as int) =~= crate::text::views(
        files@,
    ));
    while i < files.len()
        invariant
            i <= files.len(),
            first_containing(crate::text::views(files@), q@) == first_containing(
                crate::text::views(files@).subrange(i as int, files.len() as int),
                q@,
            ),
        decreases files.len() - i,
    {
        let ghost rest = crate::text::views(files@).subrange(i as int, files.len() as int);
        assert(rest[0] == files@[i as int]@);
        assert(rest.drop_first() =~= crate::text::views(files@).subrange(
            i + 1,
            files.len() as int,
        ));
        if contains_exec(&files[i], q) {
            return Some(i);
        }
        i += 1;
    }
    None
}

fn first_litert_exec(files: &Vec<String>) -> (r: Option<String>)
    ensures
        match r {
            Some(f) => first_litert(file_views(files@)) == Some(f@),
            None => first_litert(file_views(files@)) is None,
        },
{
    let e1 = chars_of(".litertlm");
    let e2 = chars_of(".task");
    let mut i: usize = 0;
    assert(file_views(files@).subrange(0, files.len() as int) =~= file_views(files@));
    while i < files.len()
        invariant
            i <= files.len(),
            e1@ == ".litertlm"@,
            e2@ == ".task"@,
            first_litert(file_views(files@)) == first_litert(
                file_views(files@).subrange(i as int, files.len() as int),
            ),
        decreases files.len() - i,
    {
        let ghost rest = file_views(files@).subrange(i as int, files.len() as int);
        assert(rest[0] == files@[i as int]@);
        assert(rest.drop_first() =~= file_views(files@).subrange(i + 1, files.len() as int));
        let f = chars_of(files[i].as_str());
        if ends_with_exec(&f, &e1) || ends_with_exec(&f, &e2) {
            return Some(files[i].clone());
        }
        i += 1;
    }
    None
}

/// Picks the best model file among a repository's files.
pub fn pick_model_file(files: &Vec<String>) -> (r: Option<String>)
    ensures
        match r {
            Some(f) => picked_file(file_views(files@)) == Some(f@),
            None => picked_file(file_views(files@)) is None,
        },
{
    let g = gguf_files_exec(files);
    if g.len() > 0 {
        let mut prefs: Vec<Vec<char>> = Vec::new();
        prefs.push(chars_of("Q4_K_M"));
        prefs.push(chars_of("Q4_K_S"));
        prefs.push(chars_of("Q4_0"));
        prefs.push(chars_of("Q4"));
        prefs.push(chars_of("Q8_0"));
        assert(crate::text::views(prefs@) =~= quant_preferences());
        let mut k: usize = 0;
        assert(quant_preferences().subrange(0, 5) =~= quant_preferences());
        while k < prefs.len()
            invariant
                k <= prefs.len(),
                prefs.len() == 5,
                crate::text::views(g@) == gguf_files(file_views(files@)),
                crate::text::views(prefs@) == quant_preferences(),
                by_preference(crate::text::views(g@), quant_preferences()) == by_preference(
                    crate::text::views(g@),
                    quant_preferences().subrange(k as int, 5),
                ),
            decreases prefs.len() - k,
        {
            let ghost rest = quant_preferences().subrange(k as int, 5);
            assert(rest[0] == prefs@[k as int]@);
            assert(rest.drop_first() =~= quant_preferences().subrange(k + 1, 5));
            if let Some(i) = first_containing_exec(&g, &prefs[k]) {
                assert(first_containing(crate::text::views(g@), rest[0]) == Some(g@[i as int]@));
                assert(by_preference(crate::text::views(g@), rest) == Some(g@[i as int]@));
                assert(crate::text::views(g@).len() > 0);
                assert(by_preference(crate::text::views(g@), quant_preferences()) == Some(g@[i as int]@));
                assert(picked_file(file_views(files@)) == Some(g@[i as int]@));
                let out = string_of(&g[i]);
                return Some(out);
            }
            k += 1;
        }
        assert(quant_preferences().subrange(5, 5) =~= Seq::<Seq<char>>::empty());
        assert(crate::text::views(g@)[0] == g@[0]@);
        return Some(string_of(&g[0]));
    }
    first_litert_exec(files)
}

/// Some file of the list has `q` in its name.
pub open spec fn some_file_has(files: Seq<Seq<char>>, q: Seq<char>) -> bool {
    exists|i: int| 0 <= i < files.len() && contains(#[trigger] files[i], q)
}

/// The search for a file containing `q` finds one exactly when some file
/// contains it, and then finds the first: a file of the list that contains
/// `q`, with no file before it that does.
pub proof fn law_first_containing(files: Seq<Seq<char>>, q: Seq<char>)
    ensures
        match first_containing(files, q) {
            Some(f) => exists|i: int|
                0 <= i < files.len() && #[trigger] files[i] == f && contains(f, q) && forall|j: int|
                    0 <= j < i ==> !contains(#[trigger] files[j], q),
            None => !some_file_has(files, q),
        },
    decreases files.len(),
{
    if files.len() > 0 && !contains(files[0], q) {
        let rest = files.drop_first();
        law_first_containing(rest, q);
        match first_containing(rest, q) {
            Some(f) => {
                let i = choose|i: int|
                    0 <= i < rest.len() && #[trigger] rest[i] == f && contains(f, q) && forall|j: int|
                        0 <= j < i ==> !contains(#[trigger] rest[j], q);
                assert(files[i + 1] == f);
                assert forall|j: int| 0 <= j < i + 1 implies !contains(#[trigger] files[j], q) by {
                    if j > 0 {
                        assert(files[j] == rest[j - 1]);
                    }
                }
            },
            None => {
                assert forall|i: int| 0 <= i < files.len() implies !contains(
                    #[trigger] files[i],
                    q,
                ) by {
                    if i > 0 {
                        assert(files[i] == rest[i - 1]);
                    }
                }
            },
        }
    }
}

/// The GGUF files of a listing are exactly those whose name ends in
/// `.gguf`, in the listing's order.
pub proof fn law_gguf_files_in_order(files: Seq<Seq<char>>)
    ensures
        gguf_files(files) == files.filter(|f: Seq<char>| ends_with(f, ".gguf"@)),
    decreases files.len(),
{
    reveal(Seq::filter);
    if files.len() > 0 {
        law_gguf_files_in_order(files.drop_last());
    }
}

/// The LiteRT-LM file picked from a listing is its first file ending in
/// `.litertlm` or `.task`; there is none when no file does.
pub proof fn law_first_litert(files: Seq<Seq<char>>)
    ensures
        match first_litert(files) {
            Some(f) => exists|i: int|
                0 <= i < files.len() && #[trigger] files[i] == f && (ends_with(f, ".litertlm"@)
                    || ends_with(f, ".task"@)) && forall|j: int|
                    0 <= j < i ==> !(ends_with(#[trigger] files[j], ".litertlm"@) || ends_with(
                        files[j],
                        ".task"@,
                    )),
            None => forall|i: int|
                0 <= i < files.len() ==> !(ends_with(#[trigger] files[i], ".litertlm"@)
                    || ends_with(files[i], ".task"@)),
        },
    decreases files.len(),
{
    if files.len() > 0 && !(ends_with(files[0], ".litertlm"@) || ends_with(files[0], ".task"@)) {
        let rest = files.drop_first();
        law_first_litert(rest);
        match first_litert(rest) {
            Some(f) => {
                let i = choose|i: int|
                    0 <= i < rest.len() && #[trigger] rest[i] == f && (ends_with(f, ".litertlm"@)
                        || ends_with(f, ".task"@)) && forall|j: int|
                        0 <= j < i ==> !(ends_with(#[trigger] rest[j], ".litertlm"@) || ends_with(
                            rest[j],
                            ".task"@,
                        ));
                assert(files[i + 1] == f);
                assert forall|j: int| 0 <= j < i + 1 implies !(ends_with(
                    #[trigger] files[j],
                    ".litertlm"@,
                ) || ends_with(files[j], ".task"@)) by {
                    if j > 0 {
                        assert(files[j] == rest[j - 1]);
                    }
                }
            },
            None => {
                assert forall|i: int| 0 <= i < files.len() implies !(ends_with(
                    #[trigger] files[i],
                    ".litertlm"@,
                ) || ends_with(files[i], ".task"@)) by {
                    if i > 0 {
                        assert(files[i] == rest[i - 1]);
                    }
                }
            },
        }
    }
}

/// Quantisation preference among a repository's GGUF files: a file with
/// Q4_K_M when there is one; else one with Q4_K_S; else Q4_0; else any Q4;
/// else Q8_0 (each time the first such GGUF file); else the first GGUF
/// file. Without GGUF files, the first LiteRT-LM file.
pub proof fn law_quantisation_preference(files: Seq<Seq<char>>)
    ensures
        ({
            let g = gguf_files(files);
            let m = some_file_has(g, "Q4_K_M"@);
            let ks = some_file_has(g, "Q4_K_S"@);
            let z = some_file_has(g, "Q4_0"@);
            let q4 = some_file_has(g, "Q4"@);
            let e = some_file_has(g, "Q8_0"@);
            &&& m ==> picked_file(files) == first_containing(g, "Q4_K_M"@)
            &&& !m && ks ==> picked_file(files) == first_containing(g, "Q4_K_S"@)
            &&& !m && !ks && z ==> picked_file(files) == first_containing(g, "Q4_0"@)
            &&& !m && !ks && !z && q4 ==> picked_file(files) == first_containing(g, "Q4"@)
            &&& !m && !ks && !z && !q4 && e ==> picked_file(files) == first_containing(
                g,
                "Q8_0"@,
            )
            &&& g.len() > 0 && !m && !ks && !z && !q4 && !e ==> picked_file(files) == Some(g[0])
            &&& g.len() == 0 ==> picked_file(files) == first_litert(files)
        }),
{
    let g = gguf_files(files);
    let p0 = quant_preferences();
    let p1 = p0.drop_first();
    let p2 = p1.drop_first();
    let p3 = p2.drop_first();
    let p4 = p3.drop_first();
    let p5 = p4.drop_first();
    assert(p0[0] == "Q4_K_M"@);
    assert(p1 =~= seq!["Q4_K_S"@, "Q4_0"@, "Q4"@, "Q8_0"@]);
    assert(p2 =~= seq!["Q4_0"@, "Q4"@, "Q8_0"@]);
    assert(p3 =~= seq!["Q4"@, "Q8_0"@]);
    assert(p4 =~= seq!["Q8_0"@]);
    assert(p5.len() == 0);
    law_first_containing(g, "Q4_K_M"@);
    law_first_containing(g, "Q4_K_S"@);
    law_first_containing(g, "Q4_0"@);
    law_first_containing(g, "Q4"@);
    law_first_containing(g, "Q8_0"@);
    assert(by_preference(g, p5) is None);
    assert(by_preference(g, p4) == match first_containing(g, "Q8_0"@) {
        Some(f) => Some(f),
        None => by_preference(g, p5),
    });
    assert(by_preference(g, p3) == match first_containing(g, "Q4"@) {
        Some(f) => Some(f),
        None => by_preference(g, p4),
    });
    assert(by_preference(g, p2) == match first_containing(g, "Q4_0"@) {
        Some(f) => Some(f),
        None => by_preference(g, p3),
    });
    assert(by_preference(g, p1) == match first_containing(g, "Q4_K_S"@) {
        Some(f) => Some(f),
        None => by_preference(g, p2),
    });
    assert(by_preference(g, p0) == match first_containing(g, "Q4_K_M"@) {
        Some(f) => Some(f),
        None => by_preference(g, p1),
    });
}

// ── HuggingFace Hub ──────────────────────────────────────────────────────────

/// What a HuggingFace call came to.
pub enum HubOutcome<T> {
    /// The client could not be set up; its message.
    Setup(String),
    /// The request failed; its message.
    Failed(String),
    /// The request gave this.
    Done(T),
}

/// Where a model file is to be had, step by step.
pub enum HubStep {
    /// The file is local, at this path.
    Ready(String),
    /// List this repository's files (authenticating with the token, if any),
    /// then hand the listing to `hf_auto_pick`.
    List { repo_id: String, token: Option<String> },
    /// Download this file of this repository (authenticating with the token,
    /// if any), then hand the outcome to `hf_get`.
    Download { repo_id: String, filename: String, token: Option<String> },
    /// No model file can be had.
    Failed(ModelError),
}

/// The local path of a downloaded (or cached) repository file, or why it
/// could not be had.
pub fn hf_get(repo_id: &str, filename: &str, outcome: HubOutcome<String>) -> (r: Result<
    String,
    ModelError,
>)
    ensures
        match outcome {
            HubOutcome::Setup(m) => r matches Err(ModelError::HubSetup(e)) && e@ == m@,
            HubOutcome::Failed(m) => r matches Err(
                ModelError::HubDownload { repo_id: rid, filename: f, message },
            ) && rid@ == repo_id@ && f@ == filename@ && message@ == m@,
            HubOutcome::Done(p) => r matches Ok(x) && x@ == p@,
        },
{
    match outcome {
        HubOutcome::Setup(m) => Err(ModelError::HubSetup(m)),
        HubOutcome::Failed(message) => Err(
            ModelError::HubDownload {
                repo_id: repo_id.to_owned(),
                filename: filename.to_owned(),
                message,
            },
        ),
        HubOutcome::Done(p) => Ok(p),
    }
}

/// The file to download from a repository, given what listing its files
/// came to: the best model file (`picked_file`), or why there is none.
pub fn hf_auto_pick(repo_id: &str, token: Option<String>, listing: HubOutcome<Vec<String>>) -> (r:
    HubStep)
    ensures
        match listing {
            HubOutcome::Setup(m) => r matches HubStep::Failed(ModelError::HubSetup(e)) && e@
                == m@,
            HubOutcome::Failed(m) => r matches HubStep::Failed(
                ModelError::HubList { repo_id: rid, message },
            ) && rid@ == repo_id@ && message@ == m@,
            HubOutcome::Done(files) => match picked_file(file_views(files@)) {
                Some(f) => r matches HubStep::Download { repo_id: rid, filename, token: t }
                    && rid@ == repo_id@ && filename@ == f && opt_view(t) == opt_view(token),
                None => r matches HubStep::Failed(ModelError::NoModelFile { repo_id: rid })
                    && rid@ == repo_id@,
            },
        },
{
    match listing {
        HubOutcome::Setup(m) => HubStep::Failed(ModelError::HubSetup(m)),
        HubOutcome::Failed(message) => HubStep::Failed(
            ModelError::HubList { repo_id: repo_id.to_owned(), message },
        ),
        HubOutcome::Done(files) => match pick_model_file(&files) {
            Some(f) => HubStep::Download { repo_id: repo_id.to_owned(), filename: f, token },
            None => HubStep::Failed(ModelError::NoModelFile { repo_id: repo_id.to_owned() }),
        },
    }
}

/// `shellexpand::tilde`: a leading `~` alone or before `/` becomes the home
/// directory when there is one; any other path is kept.
#[verifier::external_body]
pub(crate) fn expand_tilde(path: &str) -> (r: String)
    ensures
        !starts_with(path@, "~"@) ==> r@ == path@,
        starts_with(path@, "~"@) ==> r@ == path@ || crate::text::ends_with(
            r@,
            path@.subrange(1, path@.len() as int),
        ),
{
    shellexpand::tilde(path).into_owned()
}

/// Where a model path leads: a local file (with `~` expanded), a file of a
/// HuggingFace repository to download, or a repository whose files are
/// listed to pick the best one; the token goes with the HuggingFace steps.
pub fn resolve_path(path: &str, token: Option<String>) -> (r: HubStep)
    ensures
        match model_source(path@) {
            SourceSpec::Local => r matches HubStep::Ready(p) && (!starts_with(path@, "~"@)
                ==> p@ == path@) && (starts_with(path@, "~"@) ==> (p@ == path@
                || crate::text::ends_with(p@, path@.subrange(1, path@.len() as int)))),
            SourceSpec::HubFile(repo, file) => r matches HubStep::Download {
                repo_id,
                filename,
                token: t,
            } && repo_id@ == repo && filename@ == file && opt_view(t) == opt_view(token),
            SourceSpec::HubRepo => r matches HubStep::List { repo_id, token: t } && repo_id@
                == path@ && opt_view(t) == opt_view(token),
        },
{
    match classify_model_path(path) {
        ModelSource::Local => HubStep::Ready(expand_tilde(path)),
        ModelSource::HubFile { repo_id, filename } => HubStep::Download { repo_id, filename, token },
        ModelSource::HubRepo => HubStep::List { repo_id: path.to_owned(), token },
    }
}

} // verus!
