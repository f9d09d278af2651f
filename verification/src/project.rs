//! Project model: a directory of `.rhai` scripts plus a manifest.
//!
//! A project is opened, edited and saved as a unit. Evaluating it
//! concatenates every script (in manifest order) into one source.
//! Reading and writing files happens in the host; this module owns the
//! in-memory model and every decision about it.

use vstd::prelude::*;

use crate::externals::{invalid_input_error, io_error_text};
use crate::text::push_char;

verus! {

/// Persisted form of a project (`project.ron` in the project directory).
#[derive(Debug, Clone)]
pub struct Manifest {
    pub name: String,
    /// Script paths relative to the project directory, evaluated in
    /// list order.
    pub scripts: Vec<String>,
}

impl Default for Manifest {
    fn default() -> (m: Manifest)
        ensures
            m.name@ == "untitled"@,
            m.scripts@.len() == 1,
            m.scripts@[0]@ == "patches.rhai"@,
    {
        let mut scripts: Vec<String> = Vec::new();
        scripts.push(String::from_str("patches.rhai"));
        Manifest { name: String::from_str("untitled"), scripts }
    }
}

/// A script loaded into memory for editing.
#[derive(Debug, Clone)]
pub struct Script {
    pub relative_path: String,
    pub buffer: String,
    /// `true` if the in-memory buffer differs from what is on disk (or,
    /// for unsaved projects, from its construction-time value).
    pub dirty: bool,
}

/// An in-memory project: every loaded script, the index of the script
/// shown in the editor, and the project directory (`None` until the
/// project has been opened from or saved to disk).
#[derive(Debug, Clone)]
pub struct Project {
    pub manifest: Manifest,
    pub root: Option<std::path::PathBuf>,
    pub scripts: Vec<Script>,
    pub active: usize,
}

#[derive(Debug)]
pub enum ProjectError {
    Io(std::io::Error),
    Ron(String),
    EmptyManifest,
    MissingScript(String),
}

/// Opening line of the separator comment placed before each script.
pub open spec fn header_open() -> Seq<char> {
    "// ─── "@
}

/// Closing part of the separator comment, including its newline.
pub open spec fn header_close() -> Seq<char> {
    " ───\n"@
}

/// `true` when `s` ends with a newline.
pub open spec fn ends_with_newline(s: Seq<char>) -> bool {
    s.len() > 0 && s.last() == '\n'
}

/// One script's contribution to the concatenated source: a separator
/// comment naming the script, its buffer, and a newline if the buffer
/// does not already end with one.
pub open spec fn section(path: Seq<char>, buffer: Seq<char>) -> Seq<char> {
    header_open() + path + header_close() + buffer + if ends_with_newline(buffer) {
        Seq::<char>::empty()
    } else {
        seq!['\n']
    }
}

/// Concatenation of the sections of `scripts`, in order.
pub open spec fn concat_sections(scripts: Seq<Script>) -> Seq<char>
    decreases scripts.len(),
{
    if scripts.len() == 0 {
        Seq::<char>::empty()
    } else {
        concat_sections(scripts.drop_last()) + section(
            scripts.last().relative_path@,
            scripts.last().buffer@,
        )
    }
}

/// `true` when some script has unsaved changes.
pub open spec fn any_dirty(scripts: Seq<Script>) -> bool {
    exists|i: int| 0 <= i < scripts.len() && #[trigger] scripts[i].dirty
}

/// `scripts` after replacing the buffer of script `i` with `content`:
/// unchanged when the content is the same, otherwise the new buffer
/// marked dirty.
pub open spec fn set_buffer_in(scripts: Seq<Script>, i: int, content: String) -> Seq<Script> {
    if scripts[i].buffer@ == content@ {
        scripts
    } else {
        scripts.update(
            i,
            Script { relative_path: scripts[i].relative_path, buffer: content, dirty: true },
        )
    }
}

/// Law (read after write): after the active buffer is set, reading it
/// gives the new content, and the project is dirty exactly when it was
/// already dirty or the content changed.
pub proof fn law_set_buffer_read_back(scripts: Seq<Script>, i: int, content: String)
    requires
        0 <= i < scripts.len(),
    ensures
        set_buffer_in(scripts, i, content).len() == scripts.len(),
        set_buffer_in(scripts, i, content)[i].buffer@ == content@,
        any_dirty(set_buffer_in(scripts, i, content)) == (any_dirty(scripts) || scripts[i].buffer@
            != content@),
        forall|j: int|
            0 <= j < scripts.len() && j != i ==> #[trigger] set_buffer_in(scripts, i, content)[j]
                == scripts[j],
{
    let r = set_buffer_in(scripts, i, content);
    if scripts[i].buffer@ != content@ {
        assert(r[i].dirty);
        if any_dirty(scripts) {
            let k = choose|k: int| 0 <= k < scripts.len() && #[trigger] scripts[k].dirty;
            if k != i {
                assert(r[k].dirty);
            }
        }
    }
}

/// Law (idempotence): setting the same content twice is the same as
/// setting it once.
pub proof fn law_set_buffer_idempotent(scripts: Seq<Script>, i: int, content: String)
    requires
        0 <= i < scripts.len(),
    ensures
        set_buffer_in(set_buffer_in(scripts, i, content), i, content) == set_buffer_in(
            scripts,
            i,
            content,
        ),
{
}

/// The text of the error raised by `save` on a project without a root.
pub open spec fn unsaved_message() -> Seq<char> {
    "unsaved project — pick a directory with Save As first"@
}

pub(crate) fn ends_with_newline_exec(s: &str) -> (b: bool)
    ensures
        b == ends_with_newline(s@),
{
    let n = s.unicode_len();
    n > 0 && s.get_char(n - 1) == '\n'
}

impl ProjectError {
    /// Human-readable description of the error.
    pub fn message(&self) -> (m: String)
        ensures
            self matches ProjectError::Io(_) ==> m@.take(4) == "io: "@,
            self matches ProjectError::Ron(r) ==> m@ == "ron: "@ + r@,
            self matches ProjectError::EmptyManifest ==> m@ == "no scripts in project manifest"@,
            self matches ProjectError::MissingScript(p) ==> m@ == "script '"@ + p@
                + "' not found relative to project"@,
    {
        match self {
            ProjectError::Io(e) => {
                let mut m = String::from_str("io: ");
                let detail = io_error_text(e);
                proof {
                    reveal_strlit("io: ");
                }
                let ghost before = m@;
                m.append(detail.as_str());
                assert(m@.take(4) =~= before);
                m
            },
            ProjectError::Ron(r) => {
                let mut m = String::from_str("ron: ");
                m.append(r.as_str());
                m
            },
            ProjectError::EmptyManifest => String::from_str("no scripts in project manifest"),
            ProjectError::MissingScript(p) => {
                let mut m = String::from_str("script '");
                m.append(p.as_str());
                m.append("' not found relative to project");
                m
            },
        }
    }
}

impl Project {
    /// The active index names a script.
    pub open spec fn wf(&self) -> bool {
        self.active < self.scripts@.len()
    }

    /// Build an unsaved, in-memory project from a single seed script
    /// named `patches.rhai`.
    pub fn unsaved(name: String, seed: String) -> (p: Project)
        ensures
            p.wf(),
            p.manifest.name == name,
            p.manifest.scripts@.len() == 1,
            p.manifest.scripts@[0]@ == "patches.rhai"@,
            p.root is None,
            p.scripts@.len() == 1,
            p.scripts@[0].relative_path@ == "patches.rhai"@,
            p.scripts@[0].buffer == seed,
            !p.scripts@[0].dirty,
            p.active == 0,
    {
        let mut manifest_scripts: Vec<String> = Vec::new();
        manifest_scripts.push(String::from_str("patches.rhai"));
        let manifest = Manifest { name, scripts: manifest_scripts };
        let mut scripts: Vec<Script> = Vec::new();
        scripts.push(
            Script { relative_path: String::from_str("patches.rhai"), buffer: seed, dirty: false },
        );
        Project { manifest, root: None, scripts, active: 0 }
    }

    /// A project opened from `root`: one clean script per manifest entry,
    /// holding the text read for it, the first one active. Fails when
    /// the manifest lists no scripts.
    pub fn from_loaded(root: std::path::PathBuf, manifest: Manifest, buffers: Vec<String>) -> (r: Result<Project, ProjectError>)
        requires
            buffers@.len() == manifest.scripts@.len(),
        ensures
            manifest.scripts@.len() == 0 ==> (r matches Err(e) && e is EmptyManifest),
            manifest.scripts@.len() > 0 ==> (r matches Ok(p) && p.wf() && p.active == 0
                && p.root == Some(root) && p.manifest == manifest && p.scripts@.len()
                == manifest.scripts@.len() && forall|i: int|
                0 <= i < p.scripts@.len() ==> (#[trigger] p.scripts@[i]).relative_path
                == manifest.scripts@[i] && p.scripts@[i].buffer == buffers@[i] && !p.scripts@[i].dirty),
    {
        if manifest.scripts.len() == 0 {
            return Err(ProjectError::EmptyManifest);
        }
        let mut scripts: Vec<Script> = Vec::new();
        let ghost original = buffers@;
        let mut rest = buffers;
        let n = manifest.scripts.len();
        for i in 0..n
            invariant
                n == manifest.scripts@.len(),
                n == original.len(),
                rest@ == original.skip(i as int),
                scripts@.len() == i,
                forall|k: int|
                    0 <= k < i ==> (#[trigger] scripts@[k]).relative_path == manifest.scripts@[k]
                        && scripts@[k].buffer == original[k] && !scripts@[k].dirty,
        {
            let buffer = rest.remove(0);
            assert(buffer == original[i as int]);
            assert(rest@ =~= original.skip(i + 1));
            scripts.push(
                Script { relative_path: manifest.scripts[i].clone(), buffer, dirty: false },
            );
        }
        Ok(Project { manifest, root: Some(root), scripts, active: 0 })
    }

    /// Every script's buffer, each preceded by a separator comment naming
    /// it and terminated by a newline. This is what gets evaluated.
    pub fn concatenated_source(&self) -> (out: String)
        ensures
            out@ == concat_sections(self.scripts@),
    {
        let mut out = String::new();
        let n = self.scripts.len();
        for i in 0..n
            invariant
                n == self.scripts@.len(),
                out@ == concat_sections(self.scripts@.take(i as int)),
        {
            let s = &self.scripts[i];
            assert(self.scripts@.take(i + 1).drop_last() =~= self.scripts@.take(i as int));
            out.append("// ─── ");
            out.append(s.relative_path.as_str());
            out.append(" ───\n");
            out.append(s.buffer.as_str());
            if !ends_with_newline_exec(s.buffer.as_str()) {
                push_char(&mut out, '\n');
            }
        }
        assert(self.scripts@.take(n as int) =~= self.scripts@);
        out
    }

    /// Where a save goes: the project directory. Fails for a project
    /// that has never been opened from or saved to disk; the caller then
    /// picks a directory (Save As) and writes there instead.
    pub fn save(&self) -> (r: Result<&std::path::PathBuf, ProjectError>)
        ensures
            r is Ok <==> self.root is Some,
            r matches Ok(p) ==> self.root == Some(*p),
            r is Err ==> r->Err_0 is Io,
    {
        match &self.root {
            Some(p) => Ok(p),
            None => Err(
                ProjectError::Io(
                    invalid_input_error("unsaved project — pick a directory with Save As first"),
                ),
            ),
        }
    }

    /// Record that script `i` has just been written to disk.
    pub fn mark_clean(&mut self, i: usize)
        requires
            i < old(self).scripts@.len(),
        ensures
            final(self).manifest == old(self).manifest,
            final(self).root == old(self).root,
            final(self).active == old(self).active,
            final(self).scripts@ == old(self).scripts@.update(
                i as int,
                Script { dirty: false, ..old(self).scripts@[i as int] },
            ),
    {
        self.scripts[i].dirty = false;
    }

    /// Record a completed save to `root`: every script now matches what
    /// is on disk, and `root` becomes the project directory so later
    /// saves go to the same place.
    pub fn mark_saved(&mut self, root: std::path::PathBuf)
        ensures
            final(self).manifest == old(self).manifest,
            final(self).active == old(self).active,
            final(self).root == Some(root),
            final(self).scripts@.len() == old(self).scripts@.len(),
            forall|i: int|
                0 <= i < old(self).scripts@.len() ==> (#[trigger] final(self).scripts@[i])
                    == (Script { dirty: false, ..old(self).scripts@[i] }),
            !any_dirty(final(self).scripts@),
    {
        let n = self.scripts.len();
        for i in 0..n
            invariant
                n == old(self).scripts@.len(),
                self.scripts@.len() == n,
                self.manifest == old(self).manifest,
                self.active == old(self).active,
                self.root == old(self).root,
                forall|k: int|
                    0 <= k < i ==> (#[trigger] self.scripts@[k]) == (Script {
                        dirty: false,
                        ..old(self).scripts@[k]
                    }),
                forall|k: int| i <= k < n ==> (#[trigger] self.scripts@[k]) == old(self).scripts@[k],
        {
            self.scripts[i].dirty = false;
        }
        self.root = Some(root);
    }

    /// `true` if any script's in-memory buffer differs from disk.
    pub fn is_dirty(&self) -> (b: bool)
        ensures
            b == any_dirty(self.scripts@),
    {
        let n = self.scripts.len();
        for i in 0..n
            invariant
                n == self.scripts@.len(),
                forall|j: int| 0 <= j < i ==> !(#[trigger] self.scripts@[j]).dirty,
        {
            if self.scripts[i].dirty {
                return true;
            }
        }
        false
    }

    /// The active script's buffer.
    pub fn active_buffer(&self) -> (b: &str)
        requires
            self.wf(),
        ensures
            b@ == self.scripts@[self.active as int].buffer@,
    {
        self.scripts[self.active].buffer.as_str()
    }

    /// Mutable access to the active script's buffer. Does not mark the
    /// script dirty: the caller does that when it really changes it.
    pub fn active_buffer_mut(&mut self) -> (b: &mut String)
        requires
            old(self).wf(),
        ensures
            *b == old(self).scripts@[old(self).active as int].buffer,
            final(self).manifest == old(self).manifest,
            final(self).root == old(self).root,
            final(self).active == old(self).active,
            final(self).scripts@ == old(self).scripts@.update(
                old(self).active as int,
                Script { buffer: *final(b), ..old(self).scripts@[old(self).active as int] },
            ),
    {
        &mut self.scripts[self.active].buffer
    }

    /// Mark the active script as having unsaved changes.
    pub fn mark_active_dirty(&mut self)
        requires
            old(self).wf(),
        ensures
            final(self).manifest == old(self).manifest,
            final(self).root == old(self).root,
            final(self).active == old(self).active,
            final(self).scripts@ == old(self).scripts@.update(
                old(self).active as int,
                Script { dirty: true, ..old(self).scripts@[old(self).active as int] },
            ),
    {
        let i = self.active;
        self.scripts[i].dirty = true;
    }

    /// Replace the active script's buffer wholesale. Marks it dirty only
    /// when the content actually changes.
    pub fn set_active_buffer(&mut self, content: String)
        requires
            old(self).wf(),
        ensures
            final(self).manifest == old(self).manifest,
            final(self).root == old(self).root,
            final(self).active == old(self).active,
            final(self).scripts@ == set_buffer_in(old(self).scripts@, old(self).active as int, content),
    {
        let i = self.active;
        if self.scripts[i].buffer != content {
            self.scripts[i].buffer = content;
            self.scripts[i].dirty = true;
        }
    }
}

} // verus!
