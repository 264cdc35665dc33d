//! The item resolver: walks a content directory tree, validates each
//! directory against the schema of its content kind, and compiles every
//! item into the content index.
//!
//! A directory holding `article.md` is an article; one holding
//! `config.toml` is an exercise; any other directory is a course and must
//! hold at least one child item directory. A child that fails validation
//! is excluded together with its whole subtree, and its siblings continue;
//! this is the safer policy where the alternative would abort the pass.

use vstd::prelude::*;

use crate::article::Article;
use crate::article::compile_article;
use crate::error::CompileError;
use crate::exercise::DirContents;
use crate::exercise::DirEntry;
use crate::exercise::Exercise;
use crate::registry::Registry;
use crate::state::Course;
use crate::state::CourseChild;
use crate::state::ParseState;
use crate::text::valid_id;

verus! {

broadcast use vstd::std_specs::vec::axiom_vec_index_decreases;

/// One file of the content tree: its name and its text.
#[derive(Debug)]
pub struct FsFile {
    /// The file's name, extension included.
    pub name: String,
    /// The file's text.
    pub contents: String,
}

/// One directory of the content tree, with everything under it.
#[derive(Debug)]
pub struct FsDir {
    /// The directory's name; for item directories it is the id segment.
    pub name: String,
    /// The files directly inside.
    pub files: Vec<FsFile>,
    /// The subdirectories directly inside.
    pub dirs: Vec<FsDir>,
}

/// What kind of item a directory resolved to.
#[derive(Debug, Clone, Copy, PartialEq, Eq, Structural)]
pub enum ItemKind {
    /// An article directory.
    Article,
    /// An exercise directory.
    Exercise,
    /// A course directory.
    Course,
}

impl ItemKind {
    /// What `label` says of each kind.
    pub open spec fn spec_label(k: ItemKind) -> Seq<char> {
        match k {
            ItemKind::Article => "article"@,
            ItemKind::Exercise => "exercise"@,
            ItemKind::Course => "course"@,
        }
    }

    /// The kind's label, as stored in a course structure.
    pub fn label(&self) -> (r: &'static str)
        ensures
            r@ == ItemKind::spec_label(*self),
    {
        match self {
            ItemKind::Article => "article",
            ItemKind::Exercise => "exercise",
            ItemKind::Course => "course",
        }
    }
}

/// One rendered output artifact: where it goes and what it holds.
#[derive(Debug)]
pub struct RenderedFile {
    /// The output location.
    pub path: String,
    /// The rendered HTML.
    pub html: String,
}

/// One item that failed to resolve: its id and what went wrong. Its whole
/// subtree was excluded; its siblings continued.
#[derive(Debug)]
pub struct CompileFailure {
    /// The failing item's hierarchical id.
    pub id: String,
    /// The error that excluded it.
    pub error: CompileError,
}

/// Everything one compilation pass produces.
#[derive(Debug)]
pub struct ParseOutput {
    /// The content index.
    pub state: ParseState,
    /// The resolved exercises, keyed by hierarchical id.
    pub exercises: Vec<(String, Exercise)>,
    /// The rendered artifacts for the output directory.
    pub rendered: Vec<RenderedFile>,
    /// The items that were excluded, with their errors.
    pub failures: Vec<CompileFailure>,
}

/// Whether the directory holds a file of this name.
fn dir_has_file(d: &FsDir, name: &str) -> (r: bool)
    ensures
        r == exists|k: int| 0 <= k < d.files@.len() && d.files@[k].name@ == name@,
{
    let n = d.files.len();
    let mut i: usize = 0;
    while i < n
        invariant
            i <= n,
            n == d.files@.len(),
            forall|k: int| 0 <= k < i ==> d.files@[k].name@ != name@,
        decreases n - i,
    {
        if crate::text::str_eq(d.files[i].name.as_str(), name) {
            return true;
        }
        i = i + 1;
    }
    false
}

/// The contents of the file of this name, if the directory holds one.
fn dir_file<'a>(d: &'a FsDir, name: &str) -> (r: Option<&'a String>)
    ensures
        r is Some ==> exists|k: int| 0 <= k < d.files@.len() && d.files@[k].name@ == name@,
        r is None ==> forall|k: int| 0 <= k < d.files@.len() ==> d.files@[k].name@ != name@,
{
    let n = d.files.len();
    let mut i: usize = 0;
    while i < n
        invariant
            i <= n,
            n == d.files@.len(),
            forall|k: int| 0 <= k < i ==> d.files@[k].name@ != name@,
        decreases n - i,
    {
        if crate::text::str_eq(d.files[i].name.as_str(), name) {
            return Some(&d.files[i].contents);
        }
        i = i + 1;
    }
    None
}

/// Lists an exercise directory as flat entries: its files, each
/// subdirectory, and the files of `src/` under `src/` paths.
fn list_exercise_dir(d: &FsDir) -> (r: DirContents) {
    let mut entries: Vec<DirEntry> = Vec::new();
    let nf = d.files.len();
    let mut i: usize = 0;
    while i < nf
        invariant
            i <= nf,
            nf == d.files@.len(),
        decreases nf - i,
    {
        entries.push(
            DirEntry {
                name: d.files[i].name.clone(),
                is_dir: false,
                contents: d.files[i].contents.clone(),
            },
        );
        i = i + 1;
    }
    let nd = d.dirs.len();
    let mut j: usize = 0;
    while j < nd
        invariant
            j <= nd,
            nd == d.dirs@.len(),
        decreases nd - j,
    {
        entries.push(
            DirEntry { name: d.dirs[j].name.clone(), is_dir: true, contents: String::new() },
        );
        if crate::text::str_eq(d.dirs[j].name.as_str(), "src") {
            let src = &d.dirs[j];
            let ns = src.files.len();
            let mut k: usize = 0;
            while k < ns
                invariant
                    k <= ns,
                    ns == src.files@.len(),
                decreases ns - k,
            {
                entries.push(
                    DirEntry {
                        name: String::from_str("src/").concat(src.files[k].name.as_str()),
                        is_dir: false,
                        contents: src.files[k].contents.clone(),
                    },
                );
                k = k + 1;
            }
        }
        j = j + 1;
    }
    DirContents { entries }
}

/// Resolves one item directory under its hierarchical id, recursing into
/// courses. On success the item's data stands in the index and the outputs;
/// on failure nothing of the item is recorded by this call's caller.
fn resolve_item(
    d: &FsDir,
    id: &str,
    reg: &Registry,
    out_dir: &str,
    state: &mut ParseState,
    rendered: &mut Vec<RenderedFile>,
    exercises: &mut Vec<(String, Exercise)>,
    failures: &mut Vec<CompileFailure>,
) -> (r: Result<ItemKind, CompileError>)
    requires
        old(state).wf(),
    ensures
        final(state).wf(),
        forall|k: Seq<char>|
            old(state).configs_map().contains_key(k) ==> final(state).configs_map().contains_key(
                k,
            ),
        forall|k: Seq<char>|
            old(state).courses_map().contains_key(k) ==> final(state).courses_map().contains_key(
                k,
            ),
        forall|k: (Seq<char>, Seq<char>)|
            old(state).quizzes_map().contains_key(k) ==> final(state).quizzes_map().contains_key(
                k,
            ),
        final(exercises)@.len() >= old(exercises)@.len(),
        forall|j: int|
            0 <= j < old(exercises)@.len() ==> final(exercises)@[j] == old(exercises)@[j],
        final(failures)@.len() >= old(failures)@.len(),
        forall|j: int| 0 <= j < old(failures)@.len() ==> final(failures)@[j] == old(failures)@[j],
        r matches Ok(kind) ==> ((kind is Article ==> final(state).configs_map().contains_key(id@))
            && (kind is Course ==> final(state).courses_map().contains_key(id@)) && (
        kind is Exercise ==> final(exercises)@.len() == old(exercises)@.len() + 1
            && (final(exercises)@).last().0@ == id@)),
    decreases *d,
{
    let ghost state_in = *state;
    let ghost ex_in = exercises@;
    let ghost fail_in = failures@;
    if dir_has_file(d, "article.md") {
        // An article directory holds exactly `article.md`.
        if d.files.len() != 1 {
            let mut i: usize = 0;
            let n = d.files.len();
            while i < n
                invariant
                    n == d.files@.len(),
                    state.wf(),
                    *state == *old(state),
                    exercises@ == old(exercises)@,
                    failures@ == old(failures)@,
                decreases n - i,
            {
                if !crate::text::str_eq(d.files[i].name.as_str(), "article.md") {
                    return Err(CompileError::SchemaViolation(d.files[i].name.clone()));
                }
                i = i + 1;
            }
        }
        if d.dirs.len() > 0 {
            return Err(CompileError::SchemaViolation(d.dirs[0].name.clone()));
        }
        let contents = match dir_file(d, "article.md") {
            Some(c) => c,
            None => {
                return Err(CompileError::SchemaViolation(String::from_str("article.md")));
            },
        };
        let out_path = String::from_str(out_dir).concat("/").concat(id).concat(".html");
        match compile_article(id, contents.as_str(), out_path, reg, state) {
            Ok(article) => {
                proof {
                    assert forall|k: Seq<char>|
                        old(state).configs_map().contains_key(k) implies state
                        .configs_map().contains_key(k) by {}
                    assert forall|k: Seq<char>|
                        old(state).courses_map().contains_key(k) implies state
                        .courses_map().contains_key(k) by {}
                }
                let Article { title: _, body, inject_data: _ } = article;
                let path = String::from_str(out_dir).concat("/").concat(id).concat(".html");
                rendered.push(RenderedFile { path, html: body });
                Ok(ItemKind::Article)
            },
            Err(e) => Err(e),
        }
    } else if dir_has_file(d, "config.toml") {
        let contents = list_exercise_dir(d);
        match Exercise::parse_from_dir(&contents, id, d.name.as_str(), reg, state) {
            Ok(ex) => {
                exercises.push((id.to_owned(), ex));
                Ok(ItemKind::Exercise)
            },
            Err(e) => Err(e),
        }
    } else {
        // A course: one or more child item directories, and nothing else.
        if d.files.len() > 0 {
            return Err(CompileError::SchemaViolation(d.files[0].name.clone()));
        }
        if d.dirs.len() == 0 {
            return Err(
                CompileError::SchemaViolation(String::from_str("course has no child items")),
            );
        }
        let mut children: Vec<CourseChild> = Vec::new();
        let n = d.dirs.len();
        let mut i: usize = 0;
        while i < n
            invariant
                n == d.dirs@.len(),
                state.wf(),
                forall|k: Seq<char>|
                    state_in.configs_map().contains_key(k) ==> state.configs_map().contains_key(
                        k,
                    ),
                forall|k: Seq<char>|
                    state_in.courses_map().contains_key(k) ==> state.courses_map().contains_key(
                        k,
                    ),
                forall|k: (Seq<char>, Seq<char>)|
                    state_in.quizzes_map().contains_key(k) ==> state.quizzes_map().contains_key(
                        k,
                    ),
                exercises@.len() >= ex_in.len(),
                forall|j: int| 0 <= j < ex_in.len() ==> exercises@[j] == ex_in[j],
                failures@.len() >= fail_in.len(),
                forall|j: int| 0 <= j < fail_in.len() ==> failures@[j] == fail_in[j],
            decreases n - i,
        {
            let child = &d.dirs[i];
            let child_id = String::from_str(id).concat("/").concat(child.name.as_str());
            if !valid_id(child.name.as_str()) {
                failures.push(
                    CompileFailure {
                        id: child_id,
                        error: CompileError::IdValidationError(child.name.clone()),
                    },
                );
            } else {
                proof {
                    assert(decreases_to!(*d => d.dirs));
                    assert(decreases_to!(d.dirs => d.dirs[i as int]));
                }
                match resolve_item(
                    child,
                    child_id.as_str(),
                    reg,
                    out_dir,
                    state,
                    rendered,
                    exercises,
                    failures,
                ) {
                    Ok(kind) => {
                        children.push(CourseChild { id: child_id, kind: kind.label().to_owned() });
                    },
                    Err(e) => {
                        failures.push(CompileFailure { id: child_id, error: e });
                    },
                }
            }
            i = i + 1;
        }
        state.insert_course(
            id.to_owned(),
            Course { title: d.name.clone(), children },
        );
        proof {
            assert forall|k: Seq<char>|
                old(state).configs_map().contains_key(k) implies state.configs_map().contains_key(
                k,
            ) by {}
            assert forall|k: Seq<char>|
                old(state).courses_map().contains_key(k) implies state.courses_map().contains_key(
                k,
            ) by {}
        }
        Ok(ItemKind::Course)
    }
}

/// A top-level child is accounted for: its id stands in the index as an
/// article configuration or a course, among the resolved exercises, or
/// among the recorded failures.
pub open spec fn child_accounted(
    name: Seq<char>,
    state: ParseState,
    exercises: Seq<(String, Exercise)>,
    failures: Seq<CompileFailure>,
) -> bool {
    ||| state.configs_map().contains_key(name)
    ||| state.courses_map().contains_key(name)
    ||| exists|e: int| 0 <= e < exercises.len() && (#[trigger] exercises[e]).0@ == name
    ||| exists|f: int| 0 <= f < failures.len() && (#[trigger] failures[f]).id@ == name
}

/// Compiles a whole content root: every child directory is resolved as one
/// top-level item. A child that fails is recorded and excluded, subtree and
/// all, while its siblings continue; a root with no item directories at
/// all fails the pass. Stray files at the root are ignored.
///
/// The pass fails exactly when the root holds no item directory, and on
/// success every top-level child is accounted for: in the index, among the
/// exercises, or among the failures.
pub fn parse_dir(root: &FsDir, reg: &Registry, out_dir: &str) -> (r: Result<
    ParseOutput,
    CompileError,
>)
    ensures
        r matches Ok(out) ==> out.state.wf(),
        r is Err <==> root.dirs@.len() == 0,
        r is Err ==> r->Err_0 is SchemaViolation,
        r matches Ok(out) ==> forall|k: int|
            0 <= k < root.dirs@.len() ==> child_accounted(
                (#[trigger] root.dirs@[k]).name@,
                out.state,
                out.exercises@,
                out.failures@,
            ),
{
    if root.dirs.len() == 0 {
        return Err(CompileError::SchemaViolation(String::from_str("no content item directories")));
    }
    let mut state = ParseState::new();
    let mut rendered: Vec<RenderedFile> = Vec::new();
    let mut exercises: Vec<(String, Exercise)> = Vec::new();
    let mut failures: Vec<CompileFailure> = Vec::new();
    let n = root.dirs.len();
    let mut i: usize = 0;
    while i < n
        invariant
            i <= n,
            n == root.dirs@.len(),
            state.wf(),
            forall|k: int|
                0 <= k < i ==> child_accounted(
                    (#[trigger] root.dirs@[k]).name@,
                    state,
                    exercises@,
                    failures@,
                ),
        decreases n - i,
    {
        let child = &root.dirs[i];
        let child_id = child.name.clone();
        let ghost state0 = state;
        let ghost ex0 = exercises@;
        let ghost fail0 = failures@;
        if !valid_id(child.name.as_str()) {
            failures.push(
                CompileFailure {
                    id: child_id,
                    error: CompileError::IdValidationError(child.name.clone()),
                },
            );
            proof {
                assert(failures@[fail0.len() as int].id@ == root.dirs@[i as int].name@);
            }
        } else {
            let kind = match resolve_item(
                child,
                child_id.as_str(),
                reg,
                out_dir,
                &mut state,
                &mut rendered,
                &mut exercises,
                &mut failures,
            ) {
                Ok(kind) => {
                    proof {
                        match kind {
                            ItemKind::Article => {
                                assert(state.configs_map().contains_key(
                                    root.dirs@[i as int].name@,
                                ));
                            },
                            ItemKind::Course => {
                                assert(state.courses_map().contains_key(
                                    root.dirs@[i as int].name@,
                                ));
                            },
                            ItemKind::Exercise => {
                                assert(exercises@[ex0.len() as int].0@ == root.dirs@[i
                                    as int].name@);
                            },
                        }
                    }
                    Some(kind)
                },
                Err(e) => {
                    let ghost fail1 = failures@;
                    failures.push(CompileFailure { id: child.name.clone(), error: e });
                    proof {
                        assert(failures@[fail1.len() as int].id@ == root.dirs@[i as int].name@);
                    }
                    None
                },
            };
            let _ = kind;
        }
        proof {
            assert forall|k: int| 0 <= k < i + 1 implies child_accounted(
                (#[trigger] root.dirs@[k]).name@,
                state,
                exercises@,
                failures@,
            ) by {
                let nm = root.dirs@[k].name@;
                if k < i {
                    if state0.configs_map().contains_key(nm) || state0.courses_map().contains_key(
                        nm,
                    ) {
                    } else if exists|e: int| 0 <= e < ex0.len() && (#[trigger] ex0[e]).0@ == nm {
                        let ew = choose|e: int|
                            0 <= e < ex0.len() && (#[trigger] ex0[e]).0@ == nm;
                        assert(exercises@[ew] == ex0[ew]);
                    } else {
                        let fw = choose|f: int|
                            0 <= f < fail0.len() && (#[trigger] fail0[f]).id@ == nm;
                        assert(failures@[fw] == fail0[fw]);
                    }
                }
            }
        }
        i = i + 1;
    }
    proof {
        assert(i == n);
    }
    Ok(ParseOutput { state, exercises, rendered, failures })
}

} // verus!
