//! Diffs and the changeset: the files whose rewritten content differs from
//! what is on disk, and a verified human-readable summary of them.

use vstd::prelude::*;
use crate::text;

verus! {

/// One file whose content changed: the resolved path, the content the
/// caller read, and the rewritten text.
#[derive(Debug)]
pub struct Diff {
    pub file: String,
    pub content: String,
    pub replaced: String,
}

/// The files whose rewritten content differs, with the manifest root for
/// display-relative paths.
#[derive(Debug)]
pub struct Changeset {
    pub diffs: Vec<Diff>,
    pub manifest_dir: String,
}

/// Whether `path` lies under the directory `dir`: it begins with `dir`
/// followed by a path separator.
pub open spec fn under_dir(path: Seq<char>, dir: Seq<char>) -> bool {
    &&& path.len() >= dir.len() + 1
    &&& path.take((dir.len() + 1) as int) == dir + seq!['/']
}

/// `path` with the leading `dir` and separator stripped.
pub open spec fn rel_of(path: Seq<char>, dir: Seq<char>) -> Seq<char> {
    path.skip((dir.len() + 1) as int)
}

/// The summary's opening line.
pub open spec fn render_header() -> Seq<char> {
    "The version number(s) are not synced in the following files:\n\n"@
}

/// One bullet line per diff, each holding the file's path relative to the
/// manifest root.
pub open spec fn render_bullets(ds: Seq<Diff>, dir: Seq<char>) -> Seq<char>
    decreases ds.len(),
{
    if ds.len() == 0 {
        Seq::empty()
    } else {
        "  - "@ + rel_of(ds[0].file@, dir) + "\n"@ + render_bullets(ds.skip(1), dir)
    }
}

/// The whole summary: nothing for an empty changeset, else the header, the
/// bullets and a blank trailer line.
pub open spec fn render_spec(cs: Changeset) -> Seq<char> {
    if cs.diffs@.len() == 0 {
        Seq::empty()
    } else {
        render_header() + render_bullets(cs.diffs@, cs.manifest_dir@) + "\n"@
    }
}

impl Changeset {
    /// What the engine guarantees of every changeset it builds: each diff's
    /// path lies under the manifest root, and no diff is trivial.
    pub open spec fn wf(&self) -> bool {
        forall|i: int|
            0 <= i < self.diffs@.len() ==> under_dir(
                (#[trigger] self.diffs@[i]).file@,
                self.manifest_dir@,
            ) && self.diffs@[i].content@ != self.diffs@[i].replaced@
    }

    /// Whether the changeset holds no diff.
    pub fn is_empty(&self) -> (r: bool)
        ensures
            r == (self.diffs@.len() == 0),
    {
        self.diffs.len() == 0
    }

    /// The human-readable summary: empty for an empty changeset, else a
    /// header line followed by one bullet per file with its path relative
    /// to the manifest root, and a blank trailer line.
    pub fn render(&self) -> (r: String)
        requires
            self.wf(),
        ensures
            r@ == render_spec(*self),
    {
        if self.diffs.len() == 0 {
            return String::new();
        }
        let dirv = text::str_to_chars(self.manifest_dir.as_str());
        let mut s = String::from_str(
            "The version number(s) are not synced in the following files:\n\n",
        );
        let n: usize = self.diffs.len();
        let mut i: usize = 0;
        assert(self.diffs@.skip(0) =~= self.diffs@);
        while i < n
            invariant
                n == self.diffs@.len(),
                i <= n,
                self.wf(),
                dirv@ == self.manifest_dir@,
                s@ + render_bullets(self.diffs@.skip(i as int), self.manifest_dir@)
                    == render_header() + render_bullets(self.diffs@, self.manifest_dir@),
            decreases n - i,
        {
            let ghost s0 = s@;
            let ghost suffix = self.diffs@.skip(i as int);
            assert(suffix[0] == self.diffs@[i as int]);
            let filev = text::str_to_chars(self.diffs[i].file.as_str());
            assert(under_dir(filev@, dirv@));
            let fl: usize = filev.len();
            let dl: usize = dirv.len();
            assert(fl >= dl + 1);
            let relv = text::tail_chars(&filev, dl + 1);
            let rel = text::chars_to_string(&relv);
            s.append("  - ");
            s.append(rel.as_str());
            s.append("\n");
            proof {
                assert(rel@ == rel_of(self.diffs@[i as int].file@, self.manifest_dir@));
                assert(render_bullets(suffix, self.manifest_dir@) == "  - "@ + rel@ + "\n"@
                    + render_bullets(suffix.skip(1), self.manifest_dir@));
                assert(suffix.skip(1) =~= self.diffs@.skip(i + 1));
                assert(s@ =~= s0 + "  - "@ + rel@ + "\n"@);
                assert(s@ + render_bullets(self.diffs@.skip(i + 1), self.manifest_dir@) =~= s0
                    + render_bullets(suffix, self.manifest_dir@));
            }
            i += 1;
        }
        assert(self.diffs@.skip(n as int) =~= Seq::<Diff>::empty());
        assert(render_bullets(Seq::<Diff>::empty(), self.manifest_dir@) == Seq::<char>::empty());
        assert(s@ + Seq::<char>::empty() =~= s@);
        s.append("\n");
        s
    }
}

} // verus!
