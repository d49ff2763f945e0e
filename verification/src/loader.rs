//! The model loader: finds the source file of a qualified class name on the
//! library paths, parses it, and caches each class it has loaded, the inner
//! classes of a loaded package included, under its qualified name.
//!
//! The loader reads no file itself. It is told what each path holds with
//! [`ModelLoader::provide_file`]; when a load needs a path it has not been
//! told about, it stops with [`LoadError::SourceUnknown`], and the caller reads
//! that path, provides it, and asks again. Since every step depends only on
//! what was provided, the second request goes further than the first.
//!
//! What each load gives and leaves is stated, as functions of the loader's
//! state, in [`crate::resolve`].

use vstd::prelude::*;
use std::sync::Arc;
use crate::compat::{Compat, SCompat, early_compat, late_compat, spec_early_compat, spec_late_compat};
use crate::model::{Model, SClassItem, SModel, class_item_model, clone_model, clone_model_without_inner_classes, models_view, pairs_view, shallow_view, spec_model_from_function};
use crate::parse_class::{contains_str, has_sub};
use crate::text::{lemma_first_index_is, lemma_first_index_none, lemma_last_index_of, strings_view};
use crate::parser::{ParseError, parse, spec_parse_all};
use crate::resolve::{
    LoaderState, SLoadError, alias_state, reg_list, reg_one, spec_body, spec_early, spec_file, spec_finish,
    spec_from_source, spec_inner, spec_late, spec_load, spec_store, spec_targets, spec_templates, spec_tmpl, with_class,
    path_or_name,
};
use crate::text::{
    chars_of, concat, first_index_of, lemma_first_index_of, push_char, replace_all, replace_str,
    rsplit_once, str_eq, string_of_range, find_last,
};

verus! {

/// How deep loads may nest before a load is taken for a cycle. Every level of
/// nesting is a call on the stack, so no load that the stack could carry out
/// reaches this count: it only gives the recursion a measure.
pub const MAX_LOAD_DEPTH: usize = usize::MAX;

/// What the caller found at a path.
pub enum FileEntry {
    /// Nothing is there.
    Missing,
    /// A file with this text.
    Text(String),
    /// A file that could not be read, with the reason.
    Unreadable(String),
}

/// A source file that does not parse.
pub struct ParseErrorInfo {
    pub path: String,
    pub source: String,
    pub error: ParseError,
}

/// Why a class could not be loaded.
pub enum LoadError {
    NotFound(String),
    RecursiveLoad(String),
    ParseFailedAt(ParseErrorInfo),
    /// The class name and the reason the file could not be read.
    Io(String, String),
    /// The load needs to know what this path holds.
    SourceUnknown(String),
}

impl LoadError {
    pub open spec fn view(&self) -> SLoadError {
        match self {
            LoadError::NotFound(n) => SLoadError::NotFound(n@),
            LoadError::RecursiveLoad(n) => SLoadError::RecursiveLoad(n@),
            LoadError::ParseFailedAt(info) => SLoadError::ParseFailedAt(info.path@, info.source@, info.error),
            LoadError::Io(n, m) => SLoadError::Io(n@, m@),
            LoadError::SourceUnknown(p) => SLoadError::SourceUnknown(p@),
        }
    }
}

/// Mathematical value of the result of a load.
pub open spec fn load_view(r: Result<Arc<Model>, LoadError>) -> Result<SModel, SLoadError> {
    match r {
        Ok(m) => Ok((*m).view()),
        Err(e) => Err(e@),
    }
}

/// Mathematical value of a result that a step of a load may give.
pub open spec fn opt_load_view(o: Option<Result<Arc<Model>, LoadError>>) -> Option<Result<SModel, SLoadError>> {
    match o {
        Some(r) => Some(load_view(r)),
        None => None,
    }
}

/// Mathematical value of an optional error.
pub open spec fn opt_err_view(o: Option<LoadError>) -> Option<SLoadError> {
    match o {
        Some(e) => Some(e@),
        None => None,
    }
}

/// The map that an association list stands for: a later entry for a key
/// replaces an earlier one.
pub open spec fn assoc<V>(s: Seq<(String, V)>) -> Map<Seq<char>, V>
    decreases s.len(),
{
    if s.len() == 0 {
        Map::empty()
    } else {
        assoc(s.drop_last()).insert(s.last().0@, s.last().1)
    }
}

proof fn lemma_assoc_push<V>(s: Seq<(String, V)>, x: (String, V))
    ensures
        assoc(s.push(x)) == assoc(s).insert(x.0@, x.1),
{
    assert(s.push(x).drop_last() =~= s);
}

proof fn lemma_assoc_tail<V>(s: Seq<(String, V)>, j: int, k: Seq<char>)
    requires
        0 <= j <= s.len(),
        forall|i: int| j <= i < s.len() ==> (#[trigger] s[i]).0@ != k,
    ensures
        assoc(s).contains_key(k) == assoc(s.take(j)).contains_key(k),
        assoc(s).contains_key(k) ==> assoc(s)[k] == assoc(s.take(j))[k],
    decreases s.len(),
{
    if s.len() > j {
        assert forall|i: int| j <= i < s.drop_last().len() implies (#[trigger] s.drop_last()[i]).0@ != k by {
            assert(s.drop_last()[i] == s[i]);
        }
        lemma_assoc_tail(s.drop_last(), j, k);
        assert(s.drop_last().take(j) =~= s.take(j));
        assert(s[s.len() - 1].0@ != k);
    } else {
        assert(s.take(j) =~= s);
    }
}

/// The last position of key `k` in an association list.
pub fn find_key<V>(s: &Vec<(String, V)>, k: &str) -> (r: Option<usize>)
    ensures
        match r {
            Some(i) => i < s@.len() && s@[i as int].0@ == k@ && assoc(s@).contains_key(k@)
                && assoc(s@)[k@] == s@[i as int].1,
            None => !assoc(s@).contains_key(k@),
        },
{
    let mut j = s.len();
    while j > 0
        invariant
            j <= s@.len(),
            forall|i: int| j <= i < s@.len() ==> (#[trigger] s@[i]).0@ != k@,
        decreases j,
    {
        if str_eq(s[j - 1].0.as_str(), k) {
            proof {
                lemma_assoc_tail(s@, j as int, k@);
                assert(s@.take(j as int).drop_last() =~= s@.take(j - 1));
                assert(s@.take(j as int).last() == s@[j - 1]);
            }
            return Some(j - 1);
        }
        j -= 1;
    }
    proof {
        lemma_assoc_tail(s@, 0, k@);
        assert(s@.take(0) =~= Seq::<(String, V)>::empty());
    }
    None
}

/// Another handle on the same loaded class (`Arc::clone`).
#[verifier::external_body]
fn share(a: &Arc<Model>) -> (r: Arc<Model>)
    ensures
        r == *a,
{
    Arc::clone(a)
}

/// `lib` joined with the relative path `rel`, as `Path::join` does.
pub open spec fn join_path(lib: Seq<char>, rel: Seq<char>) -> Seq<char> {
    if rel.len() > 0 && rel[0] == '/' {
        rel
    } else if lib.len() == 0 {
        rel
    } else if lib.last() == '/' {
        lib + rel
    } else {
        lib.push('/') + rel
    }
}

fn join_path_exec(lib: &str, rel: &str) -> (r: String)
    ensures
        r@ == join_path(lib@, rel@),
{
    let lv = chars_of(lib);
    let rv = chars_of(rel);
    if rv.len() > 0 && rv[0] == '/' {
        return rel.to_owned();
    }
    if lv.len() == 0 {
        return rel.to_owned();
    }
    if lv[lv.len() - 1] == '/' {
        return concat(lib, rel);
    }
    let mut s = lib.to_owned();
    push_char(&mut s, '/');
    s.append(rel);
    s
}

/// The file that may hold class `name`, relative to a library path: the
/// package file of its directory first, then its own file.
pub open spec fn candidate(name: Seq<char>, k: int) -> Seq<char> {
    let rel = replace_all(name, "."@, "/"@);
    if k == 0 {
        rel + "/package.mo"@
    } else {
        rel + ".mo"@
    }
}

/// Where the search for the source of a class ends.
pub enum Located {
    /// A path that the loader was not told about.
    Unknown(String),
    /// No candidate path holds a file.
    Missing,
    /// The first file found, with its text.
    Found(String, String),
    /// The first file found could not be read.
    Unreadable(String, String),
}

/// The candidates, for each library path in order and from the `k`-th on, up to
/// the first that holds anything or is not known.
pub open spec fn locate_from(files: Map<Seq<char>, FileEntry>, libs: Seq<Seq<char>>, name: Seq<char>, k: int) -> (Seq<char>, int)
    decreases 2 * libs.len() - k,
{
    if k < 0 || k >= 2 * libs.len() {
        (Seq::empty(), 0)
    } else {
        let path = join_path(libs[k / 2], candidate(name, k % 2));
        if !files.contains_key(path) {
            (path, 1)
        } else {
            match files[path] {
                FileEntry::Missing => locate_from(files, libs, name, k + 1),
                FileEntry::Text(_) => (path, 2),
                FileEntry::Unreadable(_) => (path, 3),
            }
        }
    }
}

proof fn lemma_locate_from(files: Map<Seq<char>, FileEntry>, libs: Seq<Seq<char>>, name: Seq<char>, k: int)
    ensures
        ({
            let (path, kind) = locate_from(files, libs, name, k);
            &&& 0 <= kind <= 3
            &&& kind == 1 ==> !files.contains_key(path)
            &&& kind == 2 ==> files.contains_key(path) && files[path] is Text
            &&& kind == 3 ==> files.contains_key(path) && files[path] is Unreadable
        }),
    decreases 2 * libs.len() - k,
{
    if 0 <= k < 2 * libs.len() {
        lemma_locate_from(files, libs, name, k + 1);
    }
}

/// The views of a sequence of strings.
pub open spec fn paths_view(s: Seq<String>) -> Seq<Seq<char>> {
    s.map_values(|x: String| x@)
}

/// Loads classes by qualified name from library paths, and caches them.
pub struct ModelLoader {
    pub library_paths: Vec<String>,
    loaded_models: Vec<(String, Arc<Model>)>,
    loaded_paths: Vec<(String, String)>,
    currently_loading: Vec<String>,
    pub quiet: bool,
    files: Vec<(String, FileEntry)>,
}

/// The views of the cached classes.
pub open spec fn cache_view(m: Map<Seq<char>, Arc<Model>>) -> Map<Seq<char>, SModel> {
    m.map_values(|a: Arc<Model>| (*a).view())
}

/// The views of the recorded paths.
pub open spec fn path_view(m: Map<Seq<char>, String>) -> Map<Seq<char>, Seq<char>> {
    m.map_values(|p: String| p@)
}

/// Imports of a package added, in order, to those of a class, each one only if
/// it is not there yet.
pub open spec fn merge_imports(own: Seq<(Seq<char>, Seq<char>)>, parent: Seq<(Seq<char>, Seq<char>)>) -> Seq<(Seq<char>, Seq<char>)>
    decreases parent.len(),
{
    if parent.len() == 0 {
        own
    } else {
        let acc = merge_imports(own, parent.drop_last());
        if acc.contains(parent.last()) {
            acc
        } else {
            acc.push(parent.last())
        }
    }
}

/// `prefix.name`.
pub open spec fn qualify(prefix: Seq<char>, name: Seq<char>) -> Seq<char> {
    prefix.push('.') + name
}

fn qualify_exec(prefix: &str, name: &str) -> (r: String)
    ensures
        r@ == qualify(prefix@, name@),
{
    let mut s = prefix.to_owned();
    push_char(&mut s, '.');
    s.append(name);
    s
}

/// The class of a parsed file with the imports of its package added.
pub fn with_parent_imports(model: Model, parent: &Vec<(String, String)>) -> (r: Model)
    ensures
        r@ == (SModel { imports: merge_imports(model@.imports, pairs_view(parent@)), ..model@ }),
{
    let mut m = model;
    let ghost pv = pairs_view(parent@);
    let mut i: usize = 0;
    while i < parent.len()
        invariant
            i <= parent@.len(),
            pv == pairs_view(parent@),
            pairs_view(m.imports@) == merge_imports(model@.imports, pv.take(i as int)),
            m@ == (SModel { imports: pairs_view(m.imports@), ..model@ }),
        decreases parent@.len() - i,
    {
        let a = &parent[i].0;
        let q = &parent[i].1;
        let mut present = false;
        let mut j: usize = 0;
        while j < m.imports.len()
            invariant
                j <= m.imports@.len(),
                present == (exists|t: int| 0 <= t < j && (#[trigger] m.imports@[t]).0@ == a@ && m.imports@[t].1@ == q@),
            decreases m.imports@.len() - j,
        {
            if str_eq(m.imports[j].0.as_str(), a.as_str()) && str_eq(m.imports[j].1.as_str(), q.as_str()) {
                present = true;
            }
            j += 1;
        }
        proof {
            let acc = pairs_view(m.imports@);
            assert(pv.take(i + 1).drop_last() =~= pv.take(i as int));
            assert(pv.take(i + 1).last() == (a@, q@));
            if present {
                let t = choose|t: int| 0 <= t < m.imports@.len() && (#[trigger] m.imports@[t]).0@ == a@ && m.imports@[t].1@ == q@;
                assert(acc[t] == (a@, q@));
                assert(acc.contains((a@, q@)));
            } else {
                assert forall|t: int| 0 <= t < acc.len() implies acc[t] != (a@, q@) by {
                    assert(acc[t] == (m.imports@[t].0@, m.imports@[t].1@));
                }
                assert(!acc.contains((a@, q@)));
            }
        }
        if !present {
            let pair = (a.clone(), q.clone());
            proof {
                assert(pairs_view(m.imports@.push(pair)) =~= pairs_view(m.imports@).push((a@, q@)));
            }
            m.imports.push(pair);
        }
        i += 1;
    }
    proof {
        assert(pv.take(parent@.len() as int) =~= pv);
    }
    m
}

impl ModelLoader {
    /// The classes loaded so far, by qualified name.
    pub closed spec fn cache(&self) -> Map<Seq<char>, SModel> {
        cache_view(assoc(self.loaded_models@))
    }

    /// The file each class was loaded from, by qualified name.
    pub closed spec fn paths(&self) -> Map<Seq<char>, Seq<char>> {
        path_view(assoc(self.loaded_paths@))
    }

    /// The directories searched for classes, in order.
    pub closed spec fn libs(&self) -> Seq<Seq<char>> {
        paths_view(self.library_paths@)
    }

    /// Whether the loader was asked to be quiet.
    pub closed spec fn is_quiet(&self) -> bool {
        self.quiet
    }

    /// The names whose loads are under way.
    pub closed spec fn loading(&self) -> Seq<Seq<char>> {
        paths_view(self.currently_loading@)
    }

    /// What the loader was told each path holds.
    pub closed spec fn known_files(&self) -> Map<Seq<char>, FileEntry> {
        assoc(self.files@)
    }

    /// All that a load reads and changes.
    pub open spec fn state(&self) -> LoaderState {
        LoaderState {
            cache: self.cache(),
            paths: self.paths(),
            loading: self.loading(),
            files: self.known_files(),
            libs: self.libs(),
        }
    }

    /// What a load leaves as it was: the library paths, the quiet flag, what is
    /// known of the files and the loads under way; and every cached name stays
    /// cached.
    pub closed spec fn keeps(self, after: Self) -> bool {
        &&& after.libs() == self.libs()
        &&& after.is_quiet() == self.is_quiet()
        &&& after.known_files() == self.known_files()
        &&& after.loading() == self.loading()
        &&& forall|k: Seq<char>| #[trigger] self.cache().contains_key(k) ==> after.cache().contains_key(k)
    }

    /// A path recorded for a class is the one that a lookup then finds.
    pub proof fn law_registered_path_is_found(before: Self, after: Self, name: Seq<char>, path: Seq<char>)
        requires
            after.paths() == before.paths().insert(name, path),
        ensures
            after.paths().contains_key(name),
            after.paths()[name] == path,
    {
    }

    /// An empty loader: no library path, nothing loaded, nothing known.
    pub fn new() -> (r: Self)
        ensures
            r.libs().len() == 0,
            r.cache() == Map::<Seq<char>, SModel>::empty(),
            r.paths() == Map::<Seq<char>, Seq<char>>::empty(),
            r.loading().len() == 0,
            r.known_files() == Map::<Seq<char>, FileEntry>::empty(),
            !r.is_quiet(),
    {
        let r = ModelLoader {
            library_paths: Vec::new(),
            loaded_models: Vec::new(),
            loaded_paths: Vec::new(),
            currently_loading: Vec::new(),
            quiet: false,
            files: Vec::new(),
        };
        proof {
            assert(r.cache() =~= Map::<Seq<char>, SModel>::empty());
            assert(r.paths() =~= Map::<Seq<char>, Seq<char>>::empty());
            assert(r.loading() =~= Seq::<Seq<char>>::empty());
        }
        r
    }

    pub fn set_quiet(&mut self, q: bool)
        ensures
            final(self).is_quiet() == q,
            final(self).libs() == old(self).libs(),
            final(self).cache() == old(self).cache(),
            final(self).paths() == old(self).paths(),
            final(self).loading() == old(self).loading(),
            final(self).known_files() == old(self).known_files(),
    {
        self.quiet = q;
    }

    /// The path that the class `name` was loaded from, if it is known.
    pub fn get_path_for_model(&self, name: &str) -> (r: Option<String>)
        ensures
            match r {
                Some(p) => self.paths().contains_key(name@) && self.paths()[name@] == p@,
                None => !self.paths().contains_key(name@),
            },
    {
        match find_key(&self.loaded_paths, name) {
            Some(i) => Some(self.loaded_paths[i].1.clone()),
            None => None,
        }
    }

    fn insert_path(&mut self, name: &str, path: String)
        ensures
            final(self).paths() == old(self).paths().insert(name@, path@),
            final(self).libs() == old(self).libs(),
            final(self).is_quiet() == old(self).is_quiet(),
            final(self).cache() == old(self).cache(),
            final(self).loading() == old(self).loading(),
            final(self).known_files() == old(self).known_files(),
    {
        let ghost before = self.loaded_paths@;
        let entry = (name.to_owned(), path);
        proof {
            lemma_assoc_push(before, entry);
        }
        self.loaded_paths.push(entry);
        proof {
            assert(path_view(assoc(self.loaded_paths@)) =~= path_view(assoc(before)).insert(name@, entry.1@));
        }
    }

    /// Records `path` as the file of the class `name`.
    pub fn register_path(&mut self, name: &str, path: String)
        ensures
            final(self).paths() == old(self).paths().insert(name@, path@),
            final(self).libs() == old(self).libs(),
            final(self).is_quiet() == old(self).is_quiet(),
            final(self).cache() == old(self).cache(),
            final(self).loading() == old(self).loading(),
            final(self).known_files() == old(self).known_files(),
    {
        self.insert_path(name, path);
    }

    /// Adds a directory to search for classes, after those already there.
    pub fn add_path(&mut self, path: String)
        ensures
            final(self).libs() == old(self).libs().push(path@),
            final(self).is_quiet() == old(self).is_quiet(),
            final(self).cache() == old(self).cache(),
            final(self).paths() == old(self).paths(),
            final(self).loading() == old(self).loading(),
            final(self).known_files() == old(self).known_files(),
    {
        self.library_paths.push(path);
    }

    /// Tells the loader what `path` holds.
    pub fn provide_file(&mut self, path: String, entry: FileEntry)
        ensures
            final(self).known_files() == old(self).known_files().insert(path@, entry),
            final(self).libs() == old(self).libs(),
            final(self).is_quiet() == old(self).is_quiet(),
            final(self).cache() == old(self).cache(),
            final(self).paths() == old(self).paths(),
            final(self).loading() == old(self).loading(),
    {
        let ghost before = self.files@;
        let item = (path, entry);
        proof {
            lemma_assoc_push(before, item);
        }
        self.files.push(item);
    }

    fn cached(&self, name: &str) -> (r: Option<Arc<Model>>)
        ensures
            match r {
                Some(a) => self.cache().contains_key(name@) && self.cache()[name@] == (*a).view(),
                None => !self.cache().contains_key(name@),
            },
    {
        match find_key(&self.loaded_models, name) {
            Some(i) => Some(share(&self.loaded_models[i].1)),
            None => None,
        }
    }

    fn insert_model(&mut self, name: &str, a: Arc<Model>)
        ensures
            final(self).cache() == old(self).cache().insert(name@, (*a).view()),
            final(self).paths() == old(self).paths(),
            final(self).libs() == old(self).libs(),
            final(self).is_quiet() == old(self).is_quiet(),
            final(self).loading() == old(self).loading(),
            final(self).known_files() == old(self).known_files(),
    {
        let ghost before = self.loaded_models@;
        let ghost v = (*a).view();
        let entry = (name.to_owned(), a);
        proof {
            lemma_assoc_push(before, entry);
        }
        self.loaded_models.push(entry);
        proof {
            assert(cache_view(assoc(self.loaded_models@)) =~= cache_view(assoc(before)).insert(name@, v));
        }
    }

    /// Caches under `requested` the class loaded as `loaded_as`, with its path.
    fn cache_compat_alias(&mut self, requested: &str, loaded_as: &str, a: &Arc<Model>)
        ensures
            final(self).cache() == old(self).cache().insert(requested@, (**a).view()),
            final(self).state() == alias_state(old(self).state(), requested@, loaded_as@, (**a).view()),
            final(self).libs() == old(self).libs(),
            final(self).is_quiet() == old(self).is_quiet(),
            final(self).loading() == old(self).loading(),
            final(self).known_files() == old(self).known_files(),
    {
        self.insert_model(requested, share(a));
        match self.get_path_for_model(loaded_as) {
            Some(p) => self.insert_path(requested, p),
            None => {},
        }
    }

    /// Caches each class of `children` under `prefix.name` with its path, and
    /// then its own inner classes under that name, unless the name is cached
    /// already. The last class is taken first.
    fn register_children(&mut self, prefix: &str, children: &Vec<Model>)
        ensures
            final(self).libs() == old(self).libs(),
            final(self).is_quiet() == old(self).is_quiet(),
            final(self).loading() == old(self).loading(),
            final(self).known_files() == old(self).known_files(),
            forall|k: Seq<char>| #[trigger] old(self).cache().contains_key(k) ==>
                final(self).cache().contains_key(k) && final(self).cache()[k] == old(self).cache()[k],
            forall|i: int| 0 <= i < children@.len() ==>
                #[trigger] final(self).cache().contains_key(qualify(prefix@, children@[i].name@)),
            forall|k: Seq<char>| #[trigger] old(self).paths().contains_key(k) && k.len() <= prefix@.len() ==>
                final(self).paths().contains_key(k) && final(self).paths()[k] == old(self).paths()[k],
            final(self).state() == reg_list(old(self).state(), prefix@, models_view(children@)),
        decreases children,
    {
        let ghost cs = models_view(children@);
        proof {
            crate::model::lemma_models_view(children@);
            assert(cs.take(cs.len() as int) =~= cs);
        }
        let mut i = children.len();
        while i > 0
            invariant
                i <= children@.len(),
                cs == models_view(children@),
                cs.len() == children@.len(),
                forall|j: int| 0 <= j < children@.len() ==> #[trigger] cs[j] == children@[j]@,
                reg_list(old(self).state(), prefix@, cs) == reg_list(self.state(), prefix@, cs.take(i as int)),
                self.libs() == old(self).libs(),
                self.quiet == old(self).quiet,
                self.loading() == old(self).loading(),
                self.known_files() == old(self).known_files(),
                forall|k: Seq<char>| #[trigger] old(self).cache().contains_key(k) ==>
                    self.cache().contains_key(k) && self.cache()[k] == old(self).cache()[k],
                forall|j: int| i <= j < children@.len() ==>
                    #[trigger] self.cache().contains_key(qualify(prefix@, children@[j].name@)),
                forall|k: Seq<char>| #[trigger] old(self).paths().contains_key(k) && k.len() <= prefix@.len() ==>
                    self.paths().contains_key(k) && self.paths()[k] == old(self).paths()[k],
            decreases i,
        {
            i -= 1;
            let ic = &children[i];
            let full = qualify_exec(prefix, ic.name.as_str());
            let ghost s_pre = self.state();
            proof {
                let t = cs.take(i + 1);
                assert(t[i as int] == cs[i as int]);
                assert(t.subrange(0, i as int) =~= cs.take(i as int));
                assert(cs[i as int] == ic@);
                assert(reg_list(s_pre, prefix@, t) == reg_list(reg_one(s_pre, prefix@, ic@), prefix@, cs.take(i as int)));
            }
            if self.cached(full.as_str()).is_some() {
                assert(reg_one(s_pre, prefix@, ic@) == s_pre);
                continue;
            }
            let ghost mid = self.cache();
            let a = Arc::new(clone_model_without_inner_classes(ic));
            self.insert_model(full.as_str(), a);
            let path = match self.get_path_for_model(prefix) {
                Some(p) => p,
                None => prefix.to_owned(),
            };
            self.insert_path(full.as_str(), path);
            proof {
                assert(decreases_to!(children => children@[i as int]));
                assert(decreases_to!(children@[i as int] => children@[i as int].inner_classes));
            }
            let ghost before_rec = self.cache();
            let ghost paths_rec = self.paths();
            assert(self.state() == with_class(s_pre, full@, shallow_view(ic@), path_or_name(s_pre, prefix@)));
            self.register_children(full.as_str(), &ic.inner_classes);
            proof {
                assert(ic@.inner_classes == models_view(ic.inner_classes@));
                assert(self.state() == reg_one(s_pre, prefix@, ic@));
                assert forall|k: Seq<char>| #[trigger] old(self).paths().contains_key(k) && k.len() <= prefix@.len() implies
                    self.paths().contains_key(k) && self.paths()[k] == old(self).paths()[k] by {
                    assert(k != full@);
                    assert(paths_rec.contains_key(k));
                }
                assert(before_rec.contains_key(full@));
                assert(self.cache().contains_key(full@));
                assert(full@ == qualify(prefix@, children@[i as int].name@));
                assert forall|k: Seq<char>| #[trigger] old(self).cache().contains_key(k) implies
                    self.cache().contains_key(k) && self.cache()[k] == old(self).cache()[k] by {
                    assert(mid.contains_key(k));
                    assert(k != full@);
                    assert(before_rec[k] == mid[k]);
                }
                assert forall|j: int| i <= j < children@.len() implies
                    #[trigger] self.cache().contains_key(qualify(prefix@, children@[j].name@)) by {
                    if j > i {
                        assert(mid.contains_key(qualify(prefix@, children@[j].name@)));
                        assert(before_rec.contains_key(qualify(prefix@, children@[j].name@)));
                    } else {
                        assert(full@ == qualify(prefix@, children@[j].name@));
                    }
                }
            }
        }
    }

    /// What the loader knows of `lib` joined with `file`: `None` where nothing is there.
    fn probe(&self, lib: &str, file: &str) -> (r: Option<Located>)
        ensures
            ({
                let path = join_path(lib@, file@);
                match r {
                    None => self.known_files().contains_key(path) && self.known_files()[path] is Missing,
                    Some(Located::Unknown(p)) => !self.known_files().contains_key(path) && p@ == path,
                    Some(Located::Found(p, text)) => self.known_files().contains_key(path) && p@ == path
                        && (self.known_files()[path] matches FileEntry::Text(t) && t@ == text@),
                    Some(Located::Unreadable(p, msg)) => self.known_files().contains_key(path) && p@ == path
                        && (self.known_files()[path] matches FileEntry::Unreadable(m) && m@ == msg@),
                    Some(Located::Missing) => false,
                }
            }),
    {
        let path = join_path_exec(lib, file);
        match find_key(&self.files, path.as_str()) {
            None => Some(Located::Unknown(path)),
            Some(j) => match &self.files[j].1 {
                FileEntry::Missing => None,
                FileEntry::Text(t) => Some(Located::Found(path, t.clone())),
                FileEntry::Unreadable(m) => Some(Located::Unreadable(path, m.clone())),
            },
        }
    }

    /// Where the source of class `name` is, after the library paths in order.
    pub fn locate_source(&self, name: &str) -> (r: Located)
        ensures
            ({
                let (path, kind) = locate_from(self.known_files(), self.libs(), name@, 0);
                match r {
                    Located::Unknown(p) => kind == 1 && p@ == path,
                    Located::Missing => kind == 0,
                    Located::Found(p, text) => kind == 2 && p@ == path
                        && (self.known_files()[path] matches FileEntry::Text(t) && t@ == text@),
                    Located::Unreadable(p, msg) => kind == 3 && p@ == path
                        && (self.known_files()[path] matches FileEntry::Unreadable(m) && m@ == msg@),
                }
            }),
    {
        let ghost files = self.known_files();
        let ghost libs = paths_view(self.library_paths@);
        proof {
            reveal_strlit(".");
        }
        let rel = replace_str(name, ".", "/");
        let n = self.library_paths.len();
        let mut i: usize = 0;
        while i < n
            invariant
                n == self.library_paths@.len(),
                libs == paths_view(self.library_paths@),
                files == self.known_files(),
                rel@ == replace_all(name@, "."@, "/"@),
                i <= n,
                locate_from(files, libs, name@, 0) == locate_from(files, libs, name@, 2 * i),
            decreases n - i,
        {
            let lib = &self.library_paths[i];
            assert(libs[i as int] == lib@);
            let package = concat(rel.as_str(), "/package.mo");
            match self.probe(lib.as_str(), package.as_str()) {
                Some(r) => {
                    assert(libs.len() == n);
                    assert(package@ == candidate(name@, 0));
                    assert((2 * i) / 2 == i && (2 * i) % 2 == 0) by (nonlinear_arith);
                    return r;
                },
                None => {},
            }
            proof {
                assert(package@ == candidate(name@, 0));
                assert((2 * i) / 2 == i && (2 * i) % 2 == 0) by (nonlinear_arith);
                assert(libs.len() == n);
                assert(locate_from(files, libs, name@, 2 * i) == locate_from(files, libs, name@, 2 * i + 1));
            }
            let own = concat(rel.as_str(), ".mo");
            match self.probe(lib.as_str(), own.as_str()) {
                Some(r) => {
                    assert(libs.len() == n);
                    assert(locate_from(files, libs, name@, 2 * i) == locate_from(files, libs, name@, 2 * i + 1));
                    assert(own@ == candidate(name@, 1));
                    assert((2 * i + 1) / 2 == i && (2 * i + 1) % 2 == 1) by (nonlinear_arith);
                    return r;
                },
                None => {},
            }
            proof {
                assert(own@ == candidate(name@, 1));
                assert((2 * i + 1) / 2 == i && (2 * i + 1) % 2 == 1) by (nonlinear_arith);
                assert(locate_from(files, libs, name@, 2 * i + 1) == locate_from(files, libs, name@, 2 * i + 2));
            }
            i += 1;
        }
        Located::Missing
    }
}


/// The parts of a qualified name between its dots.
pub open spec fn segments(s: Seq<char>) -> Seq<Seq<char>>
    decreases s.len(),
{
    let k = first_index_of(s, '.');
    if k < 0 || k >= s.len() {
        seq![s]
    } else {
        seq![s.take(k)] + segments(s.skip(k + 1))
    }
}

/// Parts joined with dots.
pub open spec fn join_dots(parts: Seq<Seq<char>>) -> Seq<char>
    decreases parts.len(),
{
    if parts.len() == 0 {
        Seq::empty()
    } else if parts.len() == 1 {
        parts[0]
    } else {
        join_dots(parts.drop_last()).push('.') + parts.last()
    }
}

/// The position of the first part equal to `t`, or -1.
pub open spec fn first_part(parts: Seq<Seq<char>>, t: Seq<char>) -> int
    decreases parts.len(),
{
    if parts.len() == 0 {
        -1
    } else if parts[0] == t {
        0
    } else {
        let r = first_part(parts.drop_first(), t);
        if r < 0 { -1 } else { r + 1 }
    }
}

/// The name with the part before its first `ExampleTemplates` part taken out,
/// where there is such a part.
pub open spec fn templates_step(name: Seq<char>) -> Option<Seq<char>> {
    let parts = segments(name);
    let idx = first_part(parts, "ExampleTemplates"@);
    if idx < 1 {
        None
    } else {
        Some(join_dots(parts.remove(idx - 1)))
    }
}

proof fn lemma_segments_dot(cur: Seq<char>, rest: Seq<char>)
    requires
        forall|j: int| 0 <= j < cur.len() ==> cur[j] != '.',
        rest.len() > 0,
        rest[0] == '.',
    ensures
        segments(cur + rest) == seq![cur] + segments(rest.skip(1)),
{
    let s = cur + rest;
    assert(s[cur.len() as int] == '.');
    assert forall|j: int| 0 <= j < cur.len() implies s[j] != '.' by {
        assert(s[j] == cur[j]);
    }
    lemma_first_index_is(s, '.', cur.len() as int);
    assert(s.take(cur.len() as int) =~= cur);
    assert(s.skip(cur.len() as int + 1) =~= rest.skip(1));
}

proof fn lemma_segments_plain(cur: Seq<char>)
    requires
        forall|j: int| 0 <= j < cur.len() ==> cur[j] != '.',
    ensures
        segments(cur) == seq![cur],
{
    lemma_first_index_none(cur, '.');
}

/// The parts of `name` between its dots.
fn split_dots(name: &str) -> (r: Vec<String>)
    ensures
        strings_view(r@) == segments(name@),
{
    let cs = chars_of(name);
    let n = cs.len();
    let mut out: Vec<String> = Vec::new();
    let mut cur = String::new();
    let mut i: usize = 0;
    assert(cs@.skip(0) =~= cs@);
    assert(cur@ + cs@.skip(0) =~= cs@);
    while i < n
        invariant
            n == cs@.len(),
            cs@ == name@,
            i <= n,
            forall|j: int| 0 <= j < cur@.len() ==> cur@[j] != '.',
            strings_view(out@) + segments(cur@ + cs@.skip(i as int)) == segments(cs@),
        decreases n - i,
    {
        let c = cs[i];
        let ghost rest = cs@.skip(i as int);
        assert(rest[0] == c);
        assert(rest.skip(1) =~= cs@.skip(i + 1));
        if c == '.' {
            proof {
                lemma_segments_dot(cur@, rest);
                assert(strings_view(out@.push(cur)) =~= strings_view(out@).push(cur@));
                assert(Seq::<char>::empty() + cs@.skip(i + 1) =~= cs@.skip(i + 1));
                assert(strings_view(out@).push(cur@) + segments(cs@.skip(i + 1)) =~= strings_view(out@) + (seq![cur@] + segments(cs@.skip(i + 1))));
            }
            out.push(cur);
            cur = String::new();
        } else {
            proof {
                assert(cur@ + rest =~= cur@.push(c) + cs@.skip(i + 1));
            }
            push_char(&mut cur, c);
        }
        i += 1;
    }
    proof {
        assert(cs@.skip(n as int) =~= Seq::<char>::empty());
        assert(cur@ + cs@.skip(n as int) =~= cur@);
        lemma_segments_plain(cur@);
        assert(strings_view(out@.push(cur)) =~= strings_view(out@) + seq![cur@]);
    }
    out.push(cur);
    out
}

/// Parts joined with dots.
fn join_parts(parts: &Vec<String>) -> (r: String)
    ensures
        r@ == join_dots(strings_view(parts@)),
{
    let ghost sv = strings_view(parts@);
    if parts.len() == 0 {
        return String::new();
    }
    let mut out = parts[0].clone();
    let mut k: usize = 1;
    assert(sv.take(1).drop_last().len() == 0);
    assert(sv.take(1)[0] == sv[0]);
    while k < parts.len()
        invariant
            1 <= k <= parts@.len(),
            sv == strings_view(parts@),
            out@ == join_dots(sv.take(k as int)),
        decreases parts@.len() - k,
    {
        proof {
            assert(sv.take(k + 1).drop_last() =~= sv.take(k as int));
            assert(sv.take(k + 1).last() == parts@[k as int]@);
        }
        push_char(&mut out, '.');
        out.append(parts[k].as_str());
        k += 1;
    }
    assert(sv.take(parts@.len() as int) =~= sv);
    out
}

/// The next name to try for a class under `ExampleTemplates`.
fn templates_step_exec(name: &str) -> (r: Option<String>)
    ensures
        match r {
            Some(x) => templates_step(name@) == Some(x@),
            None => templates_step(name@) is None,
        },
{
    let mut parts = split_dots(name);
    let ghost sv = strings_view(parts@);
    let mut idx: usize = 0;
    assert(sv.skip(0) =~= sv);
    while idx < parts.len()
        invariant
            idx <= parts@.len(),
            sv == strings_view(parts@),
            sv == segments(name@),
            first_part(sv, "ExampleTemplates"@) == (if first_part(sv.skip(idx as int), "ExampleTemplates"@) < 0 { -1 } else { first_part(sv.skip(idx as int), "ExampleTemplates"@) + idx }),
        decreases parts@.len() - idx,
    {
        proof {
            assert(sv.skip(idx as int).drop_first() =~= sv.skip(idx + 1));
            assert(sv.skip(idx as int)[0] == parts@[idx as int]@);
        }
        if str_eq(parts[idx].as_str(), "ExampleTemplates") {
            assert(sv.skip(idx as int)[0] == "ExampleTemplates"@);
            assert(first_part(sv.skip(idx as int), "ExampleTemplates"@) == 0);
            assert(first_part(sv, "ExampleTemplates"@) == idx);
            assert(sv == segments(name@));
            if idx < 1 {
                return None;
            }
            parts.remove(idx - 1);
            proof {
                assert(strings_view(parts@) =~= sv.remove(idx - 1));
            }
            return Some(join_parts(&parts));
        }
        idx += 1;
    }
    assert(sv.skip(idx as int).len() == 0);
    None
}

/// `name` split at its last dot.
fn rsplit_dot(name: &str) -> (r: Option<(String, String)>)
    ensures
        match r {
            Some((a, b)) => rsplit_once(name@, '.') == Some((a@, b@)),
            None => rsplit_once(name@, '.') is None,
        },
{
    let cs = chars_of(name);
    proof {
        lemma_last_index_of(cs@, '.');
    }
    match find_last(&cs, '.') {
        Some(k) => {
            let a = string_of_range(&cs, 0, k);
            let b = string_of_range(&cs, k + 1, cs.len());
            assert(cs@.subrange(0, k as int) =~= cs@.take(k as int));
            assert(cs@.subrange(k + 1, cs@.len() as int) =~= cs@.skip(k + 1));
            Some((a, b))
        },
        None => None,
    }
}


/// The class that a parsed top-level class stands for.
pub open spec fn item_model(c: SClassItem) -> SModel {
    match c {
        SClassItem::Model(x) => x,
        SClassItem::Function(f) => spec_model_from_function(f),
    }
}

/// The path recorded for a class loaded from text in memory: `<name>`.
pub open spec fn virtual_path(name: Seq<char>) -> Seq<char> {
    seq!['<'] + name + seq!['>']
}

fn virtual_path_exec(name: &str) -> (r: String)
    ensures
        r@ == virtual_path(name@),
{
    let mut s = String::new();
    push_char(&mut s, '<');
    s.append(name);
    push_char(&mut s, '>');
    assert(s@ =~= virtual_path(name@));
    s
}

/// What a load gives for the text `text` of the file `path` of a class: a
/// parse error with the path and the text; else the parsed class, whose
/// imports may have gained those of its package; or a question about a file.
pub open spec fn file_load_result(path: Seq<char>, text: Seq<char>, r: Result<Arc<Model>, LoadError>) -> bool {
    match spec_parse_all(text) {
        Err(e) => r matches Err(LoadError::ParseFailedAt(info)) && info.path@ == path && info.source@ == text && info.error == e,
        Ok(items) => if items.len() > 0 {
            (r matches Ok(m) && (*m).view() == (SModel { imports: (*m).view().imports, ..item_model(items[0]) }))
                || (r matches Err(LoadError::SourceUnknown(_)))
        } else {
            r matches Err(LoadError::ParseFailedAt(info)) && info.path@ == path && info.source@ == text
                && info.error == ParseError::Empty
        },
    }
}

/// What a load gives when the class is looked up in the files: the first
/// candidate path that holds anything decides (see [`locate_from`]).
pub open spec fn file_outcome(files: Map<Seq<char>, FileEntry>, libs: Seq<Seq<char>>, name: Seq<char>, r: Result<Arc<Model>, LoadError>) -> bool {
    let (path, kind) = locate_from(files, libs, name, 0);
    &&& kind == 1 ==> (r matches Err(LoadError::SourceUnknown(p)) && p@ == path)
    &&& kind == 3 ==> (files[path] matches FileEntry::Unreadable(m) && r matches Err(LoadError::Io(n, mm)) && n@ == name && mm@ == m@)
    &&& kind == 2 ==> (files[path] matches FileEntry::Text(t) && file_load_result(path, t@, r))
}

impl ModelLoader {
    fn is_loading(&self, name: &str) -> (r: bool)
        ensures
            r == self.loading().contains(name@),
    {
        let mut i: usize = 0;
        while i < self.currently_loading.len()
            invariant
                i <= self.currently_loading@.len(),
                forall|j: int| 0 <= j < i ==> (#[trigger] self.currently_loading@[j])@ != name@,
            decreases self.currently_loading@.len() - i,
        {
            if str_eq(self.currently_loading[i].as_str(), name) {
                assert(self.loading()[i as int] == name@);
                return true;
            }
            i += 1;
        }
        proof {
            if self.loading().contains(name@) {
                let j = choose|j: int| 0 <= j < self.loading().len() && self.loading()[j] == name@;
                assert(self.loading()[j] == self.currently_loading@[j]@);
            }
        }
        false
    }

    /// Tries the names that drop the class before an `ExampleTemplates` part,
    /// up to eight times.
    fn try_templates(&mut self, name: &str, fuel: usize) -> (r: Option<Result<Arc<Model>, LoadError>>)
        ensures
            old(self).keeps(*final(self)),
            r matches Some(Ok(m)) ==> final(self).cache().contains_key(name@) && final(self).cache()[name@] == (*m).view(),
            r matches Some(Err(e)) ==> (e matches LoadError::SourceUnknown(p) && !final(self).known_files().contains_key(p@)),
            !has_sub(name@, ".ExampleTemplates"@) ==> r is None && *final(self) == *old(self),
            (opt_load_view(r), final(self).state()) == spec_templates(old(self).state(), name@, fuel as nat),
        decreases fuel, 1int,
    {
        let ghost st0 = self.state();
        let cs = chars_of(name);
        if !contains_str(&cs, ".ExampleTemplates") {
            return None;
        }
        let mut candidate = name.to_owned();
        let mut round: usize = 0;
        while round < 8
            invariant
                old(self).keeps(*self),
                has_sub(name@, ".ExampleTemplates"@),
                round <= 8,
                st0 == old(self).state(),
                spec_templates(st0, name@, fuel as nat) == spec_tmpl(self.state(), name@, candidate@, round as nat, fuel as nat),
            decreases 8 - round,
        {
            let ghost s = self.state();
            match templates_step_exec(candidate.as_str()) {
                None => {
                    return None;
                },
                Some(next) => {
                    if str_eq(next.as_str(), candidate.as_str()) {
                        return None;
                    }
                    candidate = next;
                    let r = self.load_impl(candidate.as_str(), true, fuel);
                    assert((load_view(r), self.state()) == spec_load(s, candidate@, fuel as nat));
                    match r {
                        Ok(a) => {
                            self.cache_compat_alias(name, candidate.as_str(), &a);
                            return Some(Ok(a));
                        },
                        Err(LoadError::SourceUnknown(p)) => {
                            return Some(Err(LoadError::SourceUnknown(p)));
                        },
                        Err(e) => {
                            assert(!(e@ is SourceUnknown));
                        },
                    }
                },
            }
            round += 1;
        }
        None
    }

    /// Tries the names of a list in order: the first that loads is cached under
    /// `name` too. Gives the class, or the error of the last name when `hard`.
    fn try_targets(&mut self, name: &str, targets: &Vec<String>, hard: bool, fuel: usize) -> (r: Option<Result<Arc<Model>, LoadError>>)
        ensures
            old(self).keeps(*final(self)),
            r matches Some(Ok(m)) ==> final(self).cache().contains_key(name@) && final(self).cache()[name@] == (*m).view(),
            r matches Some(Err(LoadError::SourceUnknown(p))) ==> !final(self).known_files().contains_key(p@),
            !hard ==> (r matches Some(Err(e)) ==> e is SourceUnknown),
            targets@.len() == 0 ==> r is None,
            (opt_load_view(r), final(self).state())
                == spec_targets(old(self).state(), name@, strings_view(targets@), 0, hard, None, fuel as nat),
        decreases fuel, 1int,
    {
        let ghost st0 = self.state();
        let ghost ts = strings_view(targets@);
        let mut last: Option<LoadError> = None;
        let mut t: usize = 0;
        while t < targets.len()
            invariant
                t <= targets@.len(),
                ts == strings_view(targets@),
                st0 == old(self).state(),
                spec_targets(st0, name@, ts, 0, hard, None, fuel as nat)
                    == spec_targets(self.state(), name@, ts, t as nat, hard, opt_err_view(last), fuel as nat),
                old(self).keeps(*self),
                !hard ==> last is None,
                t == 0 ==> last is None,
                last matches Some(e) ==> !(e is SourceUnknown),
            decreases targets@.len() - t,
        {
            let ghost s = self.state();
            assert(ts[t as int] == targets@[t as int]@);
            let r = self.load_impl(targets[t].as_str(), true, fuel);
            match r {
                Ok(a) => {
                    self.cache_compat_alias(name, targets[t].as_str(), &a);
                    return Some(Ok(a));
                },
                Err(LoadError::SourceUnknown(p)) => {
                    return Some(Err(LoadError::SourceUnknown(p)));
                },
                Err(e) => {
                    assert(!(e@ is SourceUnknown));
                    if hard {
                        last = Some(e);
                    }
                },
            }
            t += 1;
        }
        match last {
            Some(e) => Some(Err(e)),
            None => None,
        }
    }

    /// Loads class `name` (see [`ModelLoader::load_model`]), with at most
    /// `fuel` nested loads.
    fn load_impl(&mut self, name: &str, silent: bool, fuel: usize) -> (r: Result<Arc<Model>, LoadError>)
        ensures
            old(self).keeps(*final(self)),
            r matches Ok(m) ==> final(self).cache().contains_key(name@) && final(self).cache()[name@] == (*m).view(),
            r matches Err(LoadError::SourceUnknown(p)) ==> !final(self).known_files().contains_key(p@),
            fuel > 0 && !has_sub(name@, ".ExampleTemplates"@) && spec_early_compat(name@) == SCompat::Plain
                && old(self).cache().contains_key(name@) ==> (r matches Ok(m) && (*m).view() == old(self).cache()[name@]
                && *final(self) == *old(self)),
            fuel > 0 && !has_sub(name@, ".ExampleTemplates"@) && spec_early_compat(name@) == SCompat::Plain
                && !old(self).cache().contains_key(name@) && old(self).loading().contains(name@)
                ==> (r matches Err(LoadError::RecursiveLoad(n)) && n@ == name@ && *final(self) == *old(self)),
            fuel > 0 && !has_sub(name@, ".ExampleTemplates"@) && spec_early_compat(name@) == SCompat::Plain
                && !old(self).cache().contains_key(name@) && !old(self).loading().contains(name@)
                && locate_from(old(self).known_files(), old(self).libs(), name@, 0).1 != 0
                ==> file_outcome(old(self).known_files(), old(self).libs(), name@, r),
            fuel > 0 && !has_sub(name@, ".ExampleTemplates"@) && spec_early_compat(name@) == SCompat::Plain
                && !old(self).cache().contains_key(name@) && !old(self).loading().contains(name@)
                && locate_from(old(self).known_files(), old(self).libs(), name@, 0).1 == 0
                && rsplit_once(name@, '.') is None && spec_late_compat(name@) == SCompat::Plain
                ==> (r matches Err(LoadError::NotFound(n)) && n@ == name@),
            (load_view(r), final(self).state()) == spec_load(old(self).state(), name@, fuel as nat),
        decreases fuel, 0int,
    {
        if fuel == 0 {
            return Err(LoadError::RecursiveLoad(name.to_owned()));
        }
        let ghost st0 = self.state();
        match self.try_templates(name, fuel - 1) {
            Some(r) => {
                return r;
            },
            None => {},
        }
        let ghost st1 = self.state();
        match early_compat(name) {
            Compat::Plain => {},
            Compat::Hard(targets) => {
                match self.try_targets(name, &targets, true, fuel - 1) {
                    Some(r) => {
                        return r;
                    },
                    None => {},
                }
            },
            Compat::Soft(targets) => {
                match self.try_targets(name, &targets, false, fuel - 1) {
                    Some(r) => {
                        return r;
                    },
                    None => {},
                }
            },
        }
        let ghost st2 = self.state();
        assert(spec_early(st1, name@, (fuel - 1) as nat) == (None::<Result<SModel, SLoadError>>, st2));
        match self.cached(name) {
            Some(a) => {
                return Ok(a);
            },
            None => {},
        }
        if self.is_loading(name) {
            return Err(LoadError::RecursiveLoad(name.to_owned()));
        }
        let ghost before = *self;
        assert(old(self).keeps(before));
        self.currently_loading.push(name.to_owned());
        let ghost mid = self.loading();
        assert(mid =~= before.loading().push(name@));
        assert(self.cache() == before.cache());
        assert(self.known_files() == old(self).known_files());
        assert(self.libs() == old(self).libs());
        assert(self.state() == LoaderState { loading: st2.loading.push(name@), ..st2 });
        let r = self.load_body(name, silent, fuel - 1);
        let ghost st3 = self.state();
        let ghost cl1 = self.currently_loading@;
        let ghost after_body = self.cache();
        assert(paths_view(cl1).len() == cl1.len());
        let _ = self.currently_loading.pop();
        proof {
            assert(paths_view(cl1.drop_last()) =~= paths_view(cl1).drop_last());
            assert(self.loading() =~= before.loading());
            assert(self.cache() == after_body);
            assert(self.libs() == before.libs());
            assert(self.is_quiet() == before.is_quiet());
            assert(self.known_files() == before.known_files());
            assert(forall|k: Seq<char>| #[trigger] before.cache().contains_key(k) ==> self.cache().contains_key(k));
            assert(before.keeps(*self));
            assert(self.state() == LoaderState { loading: st2.loading, ..st3 });
        }
        r
    }

    /// Loads class `name` from its file on the library paths, or as an inner
    /// class of its parent, or under the late alias names.
    fn load_body(&mut self, name: &str, silent: bool, fuel: usize) -> (r: Result<Arc<Model>, LoadError>)
        ensures
            locate_from(old(self).known_files(), old(self).libs(), name@, 0).1 != 0
                ==> file_outcome(old(self).known_files(), old(self).libs(), name@, r),
            locate_from(old(self).known_files(), old(self).libs(), name@, 0).1 == 0
                && rsplit_once(name@, '.') is None && spec_late_compat(name@) == SCompat::Plain
                ==> (r matches Err(LoadError::NotFound(n)) && n@ == name@),
            old(self).keeps(*final(self)),
            r matches Ok(m) ==> final(self).cache().contains_key(name@) && final(self).cache()[name@] == (*m).view(),
            r matches Err(LoadError::SourceUnknown(p)) ==> !final(self).known_files().contains_key(p@),
            (load_view(r), final(self).state()) == spec_body(old(self).state(), name@, fuel as nat),
        decreases fuel, 4int,
    {
        let ghost st0 = self.state();
        proof {
            lemma_locate_from(self.known_files(), self.libs(), name@, 0);
        }
        match self.locate_source(name) {
            Located::Unknown(p) => {
                return Err(LoadError::SourceUnknown(p));
            },
            Located::Unreadable(_, msg) => {
                return Err(LoadError::Io(name.to_owned(), msg));
            },
            Located::Found(path, text) => {
                return self.load_from_file(name, path, text, fuel);
            },
            Located::Missing => {},
        }
        match rsplit_dot(name) {
            Some((prefix, suffix)) => self.load_inner(name, prefix, suffix, silent, fuel),
            None => self.load_late(name, fuel),
        }
    }

    /// Loads class `name`, which is `prefix.suffix`, as an inner class of
    /// `prefix`, or else under the late aliases of `name`.
    fn load_inner(&mut self, name: &str, prefix: String, suffix: String, silent: bool, fuel: usize) -> (r: Result<Arc<Model>, LoadError>)
        ensures
            old(self).keeps(*final(self)),
            r matches Ok(m) ==> final(self).cache().contains_key(name@) && final(self).cache()[name@] == (*m).view(),
            r matches Err(LoadError::SourceUnknown(p)) ==> !final(self).known_files().contains_key(p@),
            (load_view(r), final(self).state()) == spec_inner(old(self).state(), name@, prefix@, suffix@, fuel as nat),
        decreases fuel, 3int,
    {
        let rb = self.load_impl(prefix.as_str(), silent, fuel);
        let ghost st1 = self.state();
        let base = match rb {
            Ok(b) => b,
            Err(e) => {
                return Err(e);
            },
        };
        match self.cached(name) {
            Some(a) => {
                return Ok(a);
            },
            None => {},
        }
        proof {
            crate::model::lemma_models_view(base.inner_classes@);
        }
        match base.find_inner_class(suffix.as_str()) {
            Some(m) => {
                let inner = with_parent_imports(clone_model(m), &base.imports);
                let a = Arc::new(inner);
                let ghost s0 = *self;
                self.insert_model(name, share(&a));
                let path = match self.get_path_for_model(prefix.as_str()) {
                    Some(p) => p,
                    None => prefix.clone(),
                };
                self.insert_path(name, path);
                let ghost s1 = *self;
                assert(s1.cache().contains_key(name@) && s1.cache()[name@] == (*a).view());
                assert(s0.keeps(s1));
                assert(s1.state() == with_class(st1, name@, (*a).view(), path_or_name(st1, prefix@)));
                self.register_children(name, &a.inner_classes);
                assert(s1.keeps(*self));
                assert(self.cache()[name@] == s1.cache()[name@]);
                Ok(a)
            },
            None => self.load_late(name, fuel),
        }
    }

    /// Loads class `name` under its late aliases; without them, it is not found.
    fn load_late(&mut self, name: &str, fuel: usize) -> (r: Result<Arc<Model>, LoadError>)
        ensures
            old(self).keeps(*final(self)),
            r matches Ok(m) ==> final(self).cache().contains_key(name@) && final(self).cache()[name@] == (*m).view(),
            r matches Err(LoadError::SourceUnknown(p)) ==> !final(self).known_files().contains_key(p@),
            spec_late_compat(name@) == SCompat::Plain ==> (r matches Err(LoadError::NotFound(n)) && n@ == name@),
            (load_view(r), final(self).state()) == spec_late(old(self).state(), name@, fuel as nat),
        decreases fuel, 2int,
    {
        match late_compat(name) {
            Compat::Soft(targets) => {
                match self.try_targets(name, &targets, false, fuel) {
                    Some(r) => {
                        return r;
                    },
                    None => {},
                }
            },
            _ => {},
        }
        Err(LoadError::NotFound(name.to_owned()))
    }

    /// Parses the text of the file found for `name` and caches the class, with
    /// the imports of its parent package added.
    fn load_from_file(&mut self, name: &str, path: String, text: String, fuel: usize) -> (r: Result<Arc<Model>, LoadError>)
        ensures
            file_load_result(path@, text@, r),
            (load_view(r), final(self).state()) == spec_file(old(self).state(), name@, path@, text@, fuel as nat),
            old(self).keeps(*final(self)),
            r matches Ok(m) ==> final(self).cache().contains_key(name@) && final(self).cache()[name@] == (*m).view(),
            r matches Err(LoadError::SourceUnknown(p)) ==> !final(self).known_files().contains_key(p@),
        decreases fuel, 2int,
    {
        match parse(text.as_str()) {
            Err(e) => Err(LoadError::ParseFailedAt(ParseErrorInfo { path, source: text, error: e })),
            Ok(item) => self.finish_file_load(name, path, class_item_model(item), fuel),
        }
    }

    /// Caches the class parsed from the file of `name`, with the imports of its
    /// parent package added.
    #[verifier::rlimit(40)]
    fn finish_file_load(&mut self, name: &str, path: String, model: Model, fuel: usize) -> (r: Result<Arc<Model>, LoadError>)
        ensures
            (r matches Ok(m) && (*m).view() == (SModel { imports: (*m).view().imports, ..model@ }))
                || (r matches Err(LoadError::SourceUnknown(_))),
            old(self).keeps(*final(self)),
            r matches Ok(m) ==> final(self).cache().contains_key(name@) && final(self).cache()[name@] == (*m).view(),
            r matches Err(LoadError::SourceUnknown(p)) ==> !final(self).known_files().contains_key(p@),
            (load_view(r), final(self).state()) == spec_finish(old(self).state(), name@, path@, model@, fuel as nat),
        decreases fuel, 1int,
    {
        let ghost st0 = self.state();
        let ghost m0 = model@;
        let mut model = model;
        match rsplit_dot(name) {
            Some((prefix, _)) => {
                let rp = self.load_impl(prefix.as_str(), true, fuel);
                match rp {
                    Ok(parent) => {
                        model = with_parent_imports(model, &parent.imports);
                    },
                    Err(LoadError::SourceUnknown(p)) => {
                        return Err(LoadError::SourceUnknown(p));
                    },
                    Err(_) => {},
                }
            },
            None => {},
        }
        let a = Arc::new(model);
        let ghost s0 = *self;
        let ghost path_v = path@;
        self.insert_model(name, share(&a));
        self.insert_path(name, path);
        let ghost s1 = *self;
        assert(s1.state() == with_class(s0.state(), name@, (*a).view(), path_v));
        assert(s1.cache().contains_key(name@) && s1.cache()[name@] == (*a).view());
        assert(s0.keeps(s1));
        self.register_children(name, &a.inner_classes);
        assert(s1.keeps(*self));
        assert(self.cache()[name@] == s1.cache()[name@]);
        assert(self.state() == spec_store(s0.state(), name@, path_v, (*a).view()).1);
        Ok(a)
    }
}

impl ModelLoader {
    /// Loads the class with qualified name `name`, and every class it needs,
    /// from the library paths; see [`ModelLoader::load_model_silent`].
    pub fn load_model(&mut self, name: &str) -> (r: Result<Arc<Model>, LoadError>)
        ensures
            final(self).libs() == old(self).libs(),
            final(self).is_quiet() == old(self).is_quiet(),
            final(self).known_files() == old(self).known_files(),
            final(self).loading() == old(self).loading(),
            forall|k: Seq<char>| #[trigger] old(self).cache().contains_key(k) ==> final(self).cache().contains_key(k),
            r matches Ok(m) ==> final(self).cache().contains_key(name@) && final(self).cache()[name@] == (*m).view(),
            r matches Err(LoadError::SourceUnknown(p)) ==> !old(self).known_files().contains_key(p@),
            !has_sub(name@, ".ExampleTemplates"@) && spec_early_compat(name@) == SCompat::Plain
                && old(self).cache().contains_key(name@) ==> (r matches Ok(m) && (*m).view() == old(self).cache()[name@]
                && *final(self) == *old(self)),
            !has_sub(name@, ".ExampleTemplates"@) && spec_early_compat(name@) == SCompat::Plain
                && !old(self).cache().contains_key(name@) && old(self).loading().contains(name@)
                ==> (r matches Err(LoadError::RecursiveLoad(n)) && n@ == name@ && *final(self) == *old(self)),
            !has_sub(name@, ".ExampleTemplates"@) && spec_early_compat(name@) == SCompat::Plain
                && !old(self).cache().contains_key(name@) && !old(self).loading().contains(name@)
                && locate_from(old(self).known_files(), old(self).libs(), name@, 0).1 != 0
                ==> file_outcome(old(self).known_files(), old(self).libs(), name@, r),
            !has_sub(name@, ".ExampleTemplates"@) && spec_early_compat(name@) == SCompat::Plain
                && !old(self).cache().contains_key(name@) && !old(self).loading().contains(name@)
                && locate_from(old(self).known_files(), old(self).libs(), name@, 0).1 == 0
                && rsplit_once(name@, '.') is None && spec_late_compat(name@) == SCompat::Plain
                ==> (r matches Err(LoadError::NotFound(n)) && n@ == name@),
            (load_view(r), final(self).state()) == spec_load(old(self).state(), name@, MAX_LOAD_DEPTH as nat),
    {
        self.load_impl(name, false, MAX_LOAD_DEPTH)
    }

    /// Loads the class with qualified name `name`. In order: a name under
    /// `ExampleTemplates` is tried without the part before it; the early
    /// aliases of the name are tried; a cached class is returned; a name whose
    /// load is under way is a recursive load; the first file for it on the
    /// library paths is parsed (the package file of its directory before its own
    /// file), taking the imports of its parent package; else the class is looked
    /// up among the inner classes of its parent; else the late aliases are
    /// tried. A class loaded under an alias is cached under `name` too, and the
    /// inner classes of a loaded class are cached under their qualified names.
    /// What the load gives and leaves is [`spec_load`] of the state before it,
    /// with [`MAX_LOAD_DEPTH`] as the bound on nested loads.
    pub fn load_model_silent(&mut self, name: &str, silent: bool) -> (r: Result<Arc<Model>, LoadError>)
        ensures
            final(self).libs() == old(self).libs(),
            final(self).is_quiet() == old(self).is_quiet(),
            final(self).known_files() == old(self).known_files(),
            final(self).loading() == old(self).loading(),
            forall|k: Seq<char>| #[trigger] old(self).cache().contains_key(k) ==> final(self).cache().contains_key(k),
            r matches Ok(m) ==> final(self).cache().contains_key(name@) && final(self).cache()[name@] == (*m).view(),
            r matches Err(LoadError::SourceUnknown(p)) ==> !old(self).known_files().contains_key(p@),
            !has_sub(name@, ".ExampleTemplates"@) && spec_early_compat(name@) == SCompat::Plain
                && old(self).cache().contains_key(name@) ==> (r matches Ok(m) && (*m).view() == old(self).cache()[name@]
                && *final(self) == *old(self)),
            !has_sub(name@, ".ExampleTemplates"@) && spec_early_compat(name@) == SCompat::Plain
                && !old(self).cache().contains_key(name@) && old(self).loading().contains(name@)
                ==> (r matches Err(LoadError::RecursiveLoad(n)) && n@ == name@ && *final(self) == *old(self)),
            !has_sub(name@, ".ExampleTemplates"@) && spec_early_compat(name@) == SCompat::Plain
                && !old(self).cache().contains_key(name@) && !old(self).loading().contains(name@)
                && locate_from(old(self).known_files(), old(self).libs(), name@, 0).1 != 0
                ==> file_outcome(old(self).known_files(), old(self).libs(), name@, r),
            !has_sub(name@, ".ExampleTemplates"@) && spec_early_compat(name@) == SCompat::Plain
                && !old(self).cache().contains_key(name@) && !old(self).loading().contains(name@)
                && locate_from(old(self).known_files(), old(self).libs(), name@, 0).1 == 0
                && rsplit_once(name@, '.') is None && spec_late_compat(name@) == SCompat::Plain
                ==> (r matches Err(LoadError::NotFound(n)) && n@ == name@),
            (load_view(r), final(self).state()) == spec_load(old(self).state(), name@, MAX_LOAD_DEPTH as nat),
    {
        self.load_impl(name, silent, MAX_LOAD_DEPTH)
    }

    /// Parses `code` as the source of class `model_name` and caches it under
    /// that name with the path `<model_name>`, its inner classes under their
    /// qualified names; a class cached under that name already is returned as
    /// it is. A parse error leaves the loader as it was. What the load gives and
    /// leaves is [`spec_from_source`] of the state before it.
    pub fn load_model_from_source(&mut self, model_name: &str, code: &str) -> (r: Result<Arc<Model>, LoadError>)
        ensures
            final(self).libs() == old(self).libs(),
            final(self).is_quiet() == old(self).is_quiet(),
            final(self).known_files() == old(self).known_files(),
            final(self).loading() == old(self).loading(),
            forall|k: Seq<char>| #[trigger] old(self).cache().contains_key(k) ==> final(self).cache().contains_key(k),
            old(self).cache().contains_key(model_name@) ==> (r matches Ok(m) && (*m).view() == old(self).cache()[model_name@]
                && *final(self) == *old(self)),
            !old(self).cache().contains_key(model_name@) ==> match spec_parse_all(code@) {
                Ok(items) => if items.len() > 0 {
                    r matches Ok(m) && (*m).view() == item_model(items[0])
                        && final(self).cache().contains_key(model_name@) && final(self).cache()[model_name@] == (*m).view()
                        && final(self).paths().contains_key(model_name@)
                        && final(self).paths()[model_name@] == virtual_path(model_name@)
                        && forall|i: int| 0 <= i < item_model(items[0]).inner_classes.len() ==>
                            #[trigger] final(self).cache().contains_key(qualify(model_name@, item_model(items[0]).inner_classes[i].name))
                } else {
                    r matches Err(LoadError::ParseFailedAt(info)) && info.error == ParseError::Empty
                        && info.path@ == virtual_path(model_name@) && info.source@ == code@
                },
                Err(e) => r matches Err(LoadError::ParseFailedAt(info)) && info.error == e
                    && info.path@ == virtual_path(model_name@) && info.source@ == code@,
            },
            (load_view(r), final(self).state()) == spec_from_source(old(self).state(), model_name@, code@),
    {
        match self.cached(model_name) {
            Some(a) => {
                return Ok(a);
            },
            None => {},
        }
        match parse(code) {
            Err(e) => Err(LoadError::ParseFailedAt(ParseErrorInfo {
                path: virtual_path_exec(model_name),
                source: code.to_owned(),
                error: e,
            })),
            Ok(item) => {
                let a = Arc::new(class_item_model(item));
                let ghost s0 = *self;
                self.insert_model(model_name, share(&a));
                self.insert_path(model_name, virtual_path_exec(model_name));
                let ghost s1 = *self;
                assert(s1.state() == with_class(s0.state(), model_name@, (*a).view(), virtual_path(model_name@)));
                assert(s0.keeps(s1));
                assert(s1.cache().contains_key(model_name@));
                assert(s1.paths().contains_key(model_name@));
                self.register_children(model_name, &a.inner_classes);
                assert(s1.keeps(*self));
                assert(self.cache()[model_name@] == s1.cache()[model_name@]);
                assert(self.paths()[model_name@] == s1.paths()[model_name@]);
                proof {
                    crate::model::lemma_models_view(a.inner_classes@);
                }
                Ok(a)
            },
        }
    }
}

} // verus!
