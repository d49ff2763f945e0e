//! What a load means, as functions of the loader's state: the class or the error
//! that it gives, and the state that it leaves. The loader in
//! [`crate::loader`] is proved to follow these functions step by step.

use vstd::prelude::*;
use crate::compat::{SCompat, spec_early_compat, spec_late_compat};
use crate::loader::{FileEntry, item_model, locate_from, merge_imports, qualify, templates_step, virtual_path};
use crate::model::{SModel, first_named, shallow_view};
use crate::parse_class::has_sub;
use crate::parser::{ParseError, spec_parse_all};
use crate::text::rsplit_once;

verus! {

/// What a load reads and changes.
#[verifier::ext_equal]
pub struct LoaderState {
    /// The cached classes, by qualified name.
    pub cache: Map<Seq<char>, SModel>,
    /// The file recorded for each class.
    pub paths: Map<Seq<char>, Seq<char>>,
    /// The names whose loads are under way, the outermost first.
    pub loading: Seq<Seq<char>>,
    /// What each path is known to hold.
    pub files: Map<Seq<char>, FileEntry>,
    /// The library paths, in order.
    pub libs: Seq<Seq<char>>,
}

/// Mathematical value of a load error.
pub enum SLoadError {
    NotFound(Seq<char>),
    RecursiveLoad(Seq<char>),
    /// The path, the text, and what went wrong.
    ParseFailedAt(Seq<char>, Seq<char>, ParseError),
    /// The class name and the reason.
    Io(Seq<char>, Seq<char>),
    SourceUnknown(Seq<char>),
}

/// `st` with class `m` cached under `name` and `path` recorded for it.
pub open spec fn with_class(st: LoaderState, name: Seq<char>, m: SModel, path: Seq<char>) -> LoaderState {
    LoaderState { cache: st.cache.insert(name, m), paths: st.paths.insert(name, path), ..st }
}

/// The path recorded for `name`, or `name` itself where none is.
pub open spec fn path_or_name(st: LoaderState, name: Seq<char>) -> Seq<char> {
    if st.paths.contains_key(name) {
        st.paths[name]
    } else {
        name
    }
}

/// `st` with the class loaded as `loaded_as` cached under `requested` too, with
/// the path of `loaded_as` where one is recorded.
pub open spec fn alias_state(st: LoaderState, requested: Seq<char>, loaded_as: Seq<char>, m: SModel) -> LoaderState {
    LoaderState {
        cache: st.cache.insert(requested, m),
        paths: if st.paths.contains_key(loaded_as) {
            st.paths.insert(requested, st.paths[loaded_as])
        } else {
            st.paths
        },
        ..st
    }
}

/// `st` after the classes of `cs` are registered under `prefix`, the last first
/// (see [`reg_one`]).
pub open spec fn reg_list(st: LoaderState, prefix: Seq<char>, cs: Seq<SModel>) -> LoaderState
    decreases cs,
{
    if cs.len() == 0 {
        st
    } else {
        reg_list(reg_one(st, prefix, cs[cs.len() - 1]), prefix, cs.subrange(0, cs.len() - 1))
    }
}

/// `st` after class `c` is registered under `prefix`: unless `prefix.c` is
/// cached already, it is cached with only those inner classes that rename
/// another class, with the path of `prefix`, and its own inner classes follow
/// under its name.
pub open spec fn reg_one(st: LoaderState, prefix: Seq<char>, c: SModel) -> LoaderState
    decreases c,
{
    let full = qualify(prefix, c.name);
    if st.cache.contains_key(full) {
        st
    } else {
        reg_list(with_class(st, full, shallow_view(c), path_or_name(st, prefix)), full, c.inner_classes)
    }
}

/// Class `m` cached under `name` with `path`, its inner classes registered.
pub open spec fn spec_store(st: LoaderState, name: Seq<char>, path: Seq<char>, m: SModel) -> (Result<SModel, SLoadError>, LoaderState) {
    (Ok(m), reg_list(with_class(st, name, m, path), name, m.inner_classes))
}

/// Loading `name` from state `st`, with at most `fuel` loads nested: a name
/// under `ExampleTemplates` is tried without the part before it; its early
/// aliases are tried; a cached class is the answer; a name whose load is under
/// way is a recursive load; else [`spec_body`], with the name marked as under
/// way meanwhile.
pub open spec fn spec_load(st: LoaderState, name: Seq<char>, fuel: nat) -> (Result<SModel, SLoadError>, LoaderState)
    decreases fuel, 0int, 0int,
{
    if fuel == 0 {
        (Err(SLoadError::RecursiveLoad(name)), st)
    } else {
        let f = (fuel - 1) as nat;
        let (t, st1) = spec_templates(st, name, f);
        match t {
            Some(r) => (r, st1),
            None => {
                let (c, st2) = spec_early(st1, name, f);
                match c {
                    Some(r) => (r, st2),
                    None => if st2.cache.contains_key(name) {
                        (Ok(st2.cache[name]), st2)
                    } else if st2.loading.contains(name) {
                        (Err(SLoadError::RecursiveLoad(name)), st2)
                    } else {
                        let (r, st3) = spec_body(LoaderState { loading: st2.loading.push(name), ..st2 }, name, f);
                        (r, LoaderState { loading: st2.loading, ..st3 })
                    },
                }
            },
        }
    }
}

/// The names under `ExampleTemplates` tried for `name`, if it has such a part.
pub open spec fn spec_templates(st: LoaderState, name: Seq<char>, fuel: nat) -> (Option<Result<SModel, SLoadError>>, LoaderState)
    decreases fuel, 2int, 0int,
{
    if !has_sub(name, ".ExampleTemplates"@) {
        (None, st)
    } else {
        spec_tmpl(st, name, name, 0, fuel)
    }
}

/// From candidate `cand`, in round `round` of eight: the next candidate drops
/// the part before `ExampleTemplates`; the first that loads is the answer, cached
/// under `name` too; a question about a file stops the search.
pub open spec fn spec_tmpl(st: LoaderState, name: Seq<char>, cand: Seq<char>, round: nat, fuel: nat) -> (Option<Result<SModel, SLoadError>>, LoaderState)
    decreases fuel, 1int, 8 - round,
{
    if round >= 8 {
        (None, st)
    } else {
        match templates_step(cand) {
            None => (None, st),
            Some(next) => if next == cand {
                (None, st)
            } else {
                let (r, st1) = spec_load(st, next, fuel);
                match r {
                    Ok(m) => (Some(Ok(m)), alias_state(st1, name, next, m)),
                    Err(SLoadError::SourceUnknown(p)) => (Some(Err(SLoadError::SourceUnknown(p))), st1),
                    Err(_) => spec_tmpl(st1, name, next, round + 1, fuel),
                }
            },
        }
    }
}

/// The early aliases of `name`.
pub open spec fn spec_early(st: LoaderState, name: Seq<char>, fuel: nat) -> (Option<Result<SModel, SLoadError>>, LoaderState)
    decreases fuel, 2int, 0int,
{
    match spec_early_compat(name) {
        SCompat::Plain => (None, st),
        SCompat::Hard(ts) => spec_targets(st, name, ts, 0, true, None, fuel),
        SCompat::Soft(ts) => spec_targets(st, name, ts, 0, false, None, fuel),
    }
}

/// The names `ts` tried from the `i`-th on: the first that loads is the answer,
/// cached under `name` too; a question about a file stops the search; when none
/// loads, the error of the last one is the answer if `hard`, else there is none.
pub open spec fn spec_targets(
    st: LoaderState,
    name: Seq<char>,
    ts: Seq<Seq<char>>,
    i: nat,
    hard: bool,
    last: Option<SLoadError>,
    fuel: nat,
) -> (Option<Result<SModel, SLoadError>>, LoaderState)
    decreases fuel, 1int, ts.len() - i,
{
    if i >= ts.len() {
        (
            match last {
                Some(e) => Some(Err(e)),
                None => None,
            },
            st,
        )
    } else {
        let (r, st1) = spec_load(st, ts[i as int], fuel);
        match r {
            Ok(m) => (Some(Ok(m)), alias_state(st1, name, ts[i as int], m)),
            Err(SLoadError::SourceUnknown(p)) => (Some(Err(SLoadError::SourceUnknown(p))), st1),
            Err(e) => spec_targets(st1, name, ts, i + 1, hard, if hard { Some(e) } else { last }, fuel),
        }
    }
}

/// Loading `name` once it is neither cached nor under way: from the first file
/// found for it on the library paths (see [`locate_from`]); else as the inner
/// class of its parent, which is loaded first, with the imports of the parent
/// added and the path of the parent; else under its late aliases.
pub open spec fn spec_body(st: LoaderState, name: Seq<char>, fuel: nat) -> (Result<SModel, SLoadError>, LoaderState)
    decreases fuel, 4int, 0int,
{
    let (path, kind) = locate_from(st.files, st.libs, name, 0);
    if kind == 1 {
        (Err(SLoadError::SourceUnknown(path)), st)
    } else if kind != 0 {
        match st.files[path] {
            FileEntry::Text(t) => spec_file(st, name, path, t@, fuel),
            FileEntry::Unreadable(m) => (Err(SLoadError::Io(name, m@)), st),
            FileEntry::Missing => (Err(SLoadError::NotFound(name)), st),
        }
    } else {
        match rsplit_once(name, '.') {
            None => spec_late(st, name, fuel),
            Some((p, s)) => spec_inner(st, name, p, s, fuel),
        }
    }
}

/// Loading `name`, which is `p.s`, as an inner class: the parent `p` is loaded
/// first and its error passed on; a class cached meanwhile under `name` is the
/// answer; else the first inner class of the parent named `s`, with the imports
/// of the parent added, cached with the path of the parent; else the late
/// aliases of `name`.
pub open spec fn spec_inner(st: LoaderState, name: Seq<char>, p: Seq<char>, s: Seq<char>, fuel: nat) -> (Result<SModel, SLoadError>, LoaderState)
    decreases fuel, 3int, 0int,
{
    let (rb, st1) = spec_load(st, p, fuel);
    match rb {
        Err(e) => (Err(e), st1),
        Ok(base) => if st1.cache.contains_key(name) {
            (Ok(st1.cache[name]), st1)
        } else {
            let k = first_named(base.inner_classes, s);
            if k < 0 {
                spec_late(st1, name, fuel)
            } else {
                let inner = base.inner_classes[k];
                spec_store(st1, name, path_or_name(st1, p),
                    SModel { imports: merge_imports(inner.imports, base.imports), ..inner })
            }
        },
    }
}

/// The late aliases of `name`; without a class from them, `name` is not found.
pub open spec fn spec_late(st: LoaderState, name: Seq<char>, fuel: nat) -> (Result<SModel, SLoadError>, LoaderState)
    decreases fuel, 2int, 0int,
{
    match spec_late_compat(name) {
        SCompat::Soft(ts) => {
            let (c, st1) = spec_targets(st, name, ts, 0, false, None, fuel);
            match c {
                Some(r) => (r, st1),
                None => (Err(SLoadError::NotFound(name)), st1),
            }
        },
        _ => (Err(SLoadError::NotFound(name)), st),
    }
}

/// Loading `name` from the text `text` of the file `path`.
pub open spec fn spec_file(st: LoaderState, name: Seq<char>, path: Seq<char>, text: Seq<char>, fuel: nat) -> (Result<SModel, SLoadError>, LoaderState)
    decreases fuel, 2int, 0int,
{
    match spec_parse_all(text) {
        Err(e) => (Err(SLoadError::ParseFailedAt(path, text, e)), st),
        Ok(items) => if items.len() == 0 {
            (Err(SLoadError::ParseFailedAt(path, text, ParseError::Empty)), st)
        } else {
            spec_finish(st, name, path, item_model(items[0]), fuel)
        },
    }
}

/// Caching class `model` parsed from the file `path` of `name`: its parent is
/// loaded first, and its imports are added where it loads.
pub open spec fn spec_finish(st: LoaderState, name: Seq<char>, path: Seq<char>, model: SModel, fuel: nat) -> (Result<SModel, SLoadError>, LoaderState)
    decreases fuel, 1int, 0int,
{
    match rsplit_once(name, '.') {
        None => spec_store(st, name, path, model),
        Some((p, _)) => {
            let (rp, st1) = spec_load(st, p, fuel);
            match rp {
                Ok(parent) => spec_store(st1, name, path, SModel { imports: merge_imports(model.imports, parent.imports), ..model }),
                Err(SLoadError::SourceUnknown(q)) => (Err(SLoadError::SourceUnknown(q)), st1),
                Err(_) => spec_store(st1, name, path, model),
            }
        },
    }
}

/// Loading `name` from the text `code` in memory: a cached class is the answer;
/// else the class parsed from `code`, with the path `<name>`.
pub open spec fn spec_from_source(st: LoaderState, name: Seq<char>, code: Seq<char>) -> (Result<SModel, SLoadError>, LoaderState) {
    if st.cache.contains_key(name) {
        (Ok(st.cache[name]), st)
    } else {
        match spec_parse_all(code) {
            Err(e) => (Err(SLoadError::ParseFailedAt(virtual_path(name), code, e)), st),
            Ok(items) => if items.len() == 0 {
                (Err(SLoadError::ParseFailedAt(virtual_path(name), code, ParseError::Empty)), st)
            } else {
                spec_store(st, name, virtual_path(name), item_model(items[0]))
            },
        }
    }
}

/// Registering classes keeps every cached class as it was, and leaves the
/// loads under way, the files and the library paths alone.
pub proof fn lemma_reg_list_keeps(st: LoaderState, prefix: Seq<char>, cs: Seq<SModel>)
    ensures
        forall|k: Seq<char>| #[trigger] st.cache.contains_key(k) ==> reg_list(st, prefix, cs).cache.contains_key(k)
            && reg_list(st, prefix, cs).cache[k] == st.cache[k],
        reg_list(st, prefix, cs).loading == st.loading,
        reg_list(st, prefix, cs).files == st.files,
        reg_list(st, prefix, cs).libs == st.libs,
    decreases cs,
{
    if cs.len() > 0 {
        let c = cs[cs.len() - 1];
        lemma_reg_one_keeps(st, prefix, c);
        lemma_reg_list_keeps(reg_one(st, prefix, c), prefix, cs.subrange(0, cs.len() - 1));
    }
}

/// [`lemma_reg_list_keeps`] for one class.
pub proof fn lemma_reg_one_keeps(st: LoaderState, prefix: Seq<char>, c: SModel)
    ensures
        forall|k: Seq<char>| #[trigger] st.cache.contains_key(k) ==> reg_one(st, prefix, c).cache.contains_key(k)
            && reg_one(st, prefix, c).cache[k] == st.cache[k],
        reg_one(st, prefix, c).loading == st.loading,
        reg_one(st, prefix, c).files == st.files,
        reg_one(st, prefix, c).libs == st.libs,
    decreases c,
{
    let full = qualify(prefix, c.name);
    if !st.cache.contains_key(full) {
        let st2 = with_class(st, full, shallow_view(c), path_or_name(st, prefix));
        lemma_reg_list_keeps(st2, full, c.inner_classes);
        assert forall|k: Seq<char>| #[trigger] st.cache.contains_key(k) implies st2.cache.contains_key(k)
            && st2.cache[k] == st.cache[k] by {
            assert(k != full);
        }
    }
}

/// A class loaded from text in memory is what a later load of its name gives,
/// and that load changes nothing, where the name has no early alias and no
/// `ExampleTemplates` part.
pub proof fn law_source_then_load(st: LoaderState, name: Seq<char>, code: Seq<char>, fuel: nat)
    requires
        fuel > 0,
        spec_from_source(st, name, code).0 is Ok,
        !has_sub(name, ".ExampleTemplates"@),
        spec_early_compat(name) == SCompat::Plain,
    ensures
        spec_load(spec_from_source(st, name, code).1, name, fuel)
            == (spec_from_source(st, name, code).0, spec_from_source(st, name, code).1),
{
    let (r, st1) = spec_from_source(st, name, code);
    if !st.cache.contains_key(name) {
        let items = spec_parse_all(code)->Ok_0;
        let m = item_model(items[0]);
        let st0 = with_class(st, name, m, virtual_path(name));
        lemma_reg_list_keeps(st0, name, m.inner_classes);
        assert(st0.cache.contains_key(name));
        assert(st1.cache[name] == m);
    }
    let f = (fuel - 1) as nat;
    assert(spec_templates(st1, name, f) == (None::<Result<SModel, SLoadError>>, st1));
    assert(spec_early(st1, name, f) == (None::<Result<SModel, SLoadError>>, st1));
}

} // verus!
