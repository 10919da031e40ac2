//! The engine: resolves the mapping from target file to replacer sequence
//! out of the manifest (declared replacements, or the fixed preset), and
//! computes the changeset over file contents the caller hands in. All file
//! reading stays with the caller; the engine works on plain values.

use vstd::prelude::*;
use crate::changeset::{self, Changeset, Diff};
use crate::date::{self, Date};
use crate::error::Error;
use crate::manifest::{Config, Manifest};
use crate::replacer::{
    apply_all, apply_seq, apply_seq_res, effective_pattern, lemma_apply_seq_fixed, models,
    BuiltinReplacer, BuiltinTarget, Replacer, ReplacerContext, ReplacerModel,
};
use crate::rex;
use crate::text;

verus! {

/// One target file's content, as read by the caller. A mapped file for
/// which the caller supplies no entry counts as missing and is skipped.
#[derive(Debug)]
pub struct FileInput {
    pub path: String,
    pub content: String,
}

/// The mathematical content of one mapping entry: the resolved path and
/// the models of its replacers.
pub open spec fn entry_model(e: (String, Vec<Replacer>)) -> (Seq<char>, Seq<ReplacerModel>) {
    (e.0@, models(e.1@))
}

/// The mathematical content of the whole mapping, in order.
pub open spec fn map_model(es: Seq<(String, Vec<Replacer>)>) -> Seq<
    (Seq<char>, Seq<ReplacerModel>),
> {
    es.map_values(|e: (String, Vec<Replacer>)| entry_model(e))
}

/// Whether some entry of the mapping owns the key `k`.
pub open spec fn has_key(m: Seq<(Seq<char>, Seq<ReplacerModel>)>, k: Seq<char>) -> bool {
    exists|i: int| 0 <= i < m.len() && m[i].0 == k
}

/// Whether no two entries share a key.
pub open spec fn unique_keys(m: Seq<(Seq<char>, Seq<ReplacerModel>)>) -> bool {
    forall|i: int, j: int| 0 <= i < j < m.len() ==> m[i].0 != m[j].0
}

/// A file path joined under the manifest root.
pub open spec fn join(dir: Seq<char>, rel: Seq<char>) -> Seq<char> {
    dir + seq!['/'] + rel
}

/// One declared entry merged into the mapping: a known key has the new
/// replacers appended to its sequence, in order; a new key is added at the
/// end.
pub open spec fn merge_one(
    acc: Seq<(Seq<char>, Seq<ReplacerModel>)>,
    file: Seq<char>,
    reps: Seq<ReplacerModel>,
) -> Seq<(Seq<char>, Seq<ReplacerModel>)> {
    if has_key(acc, file) {
        let i = choose|i: int| 0 <= i < acc.len() && acc[i].0 == file;
        acc.update(i, (file, acc[i].1 + reps))
    } else {
        acc.push((file, reps))
    }
}

/// Every declared entry merged into the accumulator, in declaration order.
pub open spec fn merge_all(
    entries: Seq<(Seq<char>, Seq<ReplacerModel>)>,
    acc: Seq<(Seq<char>, Seq<ReplacerModel>)>,
) -> Seq<(Seq<char>, Seq<ReplacerModel>)>
    decreases entries.len(),
{
    if entries.len() == 0 {
        acc
    } else {
        merge_all(entries.skip(1), merge_one(acc, entries[0].0, entries[0].1))
    }
}

/// Merging keeps keys unique, and introduces no key beyond the merged one.
pub proof fn lemma_merge_one_props(
    acc: Seq<(Seq<char>, Seq<ReplacerModel>)>,
    file: Seq<char>,
    reps: Seq<ReplacerModel>,
)
    requires
        unique_keys(acc),
    ensures
        unique_keys(merge_one(acc, file, reps)),
        forall|k: Seq<char>| #[trigger]
            has_key(merge_one(acc, file, reps), k) ==> has_key(acc, k) || k == file,
{
    let m = merge_one(acc, file, reps);
    if has_key(acc, file) {
        let i = choose|i: int| 0 <= i < acc.len() && acc[i].0 == file;
        assert(forall|j: int| 0 <= j < m.len() ==> m[j].0 == acc[j].0);
        assert forall|k: Seq<char>| #[trigger] has_key(m, k) implies has_key(acc, k) || k
            == file by {
            let j = choose|j: int| 0 <= j < m.len() && m[j].0 == k;
            assert(acc[j].0 == k);
        }
    } else {
        assert forall|k: Seq<char>| #[trigger] has_key(m, k) implies has_key(acc, k) || k
            == file by {
            let j = choose|j: int| 0 <= j < m.len() && m[j].0 == k;
            if j < acc.len() {
                assert(acc[j].0 == k);
            }
        }
    }
}

/// The declared entries, before merging: each configured replacement with
/// its path joined under the manifest root. The preset replaces them when
/// the configuration asks for it; without a configuration there are none.
pub open spec fn raw_entries(m: Manifest, dir: Seq<char>) -> Seq<
    (Seq<char>, Seq<ReplacerModel>),
> {
    if spec_use_preset(m) {
        preset_raw(dir)
    } else {
        match spec_config(m) {
            Some(c) => c.replacements@.map_values(
                |rep: crate::manifest::Replacement|
                    (join(dir, rep.file@), models(rep.replacers@)),
            ),
            None => Seq::empty(),
        }
    }
}

/// The embedded configuration, if the manifest carries one.
pub open spec fn spec_config(m: Manifest) -> Option<Config> {
    match m.package.metadata {
        Some(meta) => meta.version_sync,
        None => None,
    }
}

/// Whether the configuration asks for the fixed preset.
pub open spec fn spec_use_preset(m: Manifest) -> bool {
    match spec_config(m) {
        Some(c) => c.use_preset,
        None => false,
    }
}

/// The fixed preset: the README gets the markdown builtin and a
/// dependency-badge URL substitution; the library root file gets the
/// doc-root URL builtin.
pub open spec fn preset_raw(dir: Seq<char>) -> Seq<(Seq<char>, Seq<ReplacerModel>)> {
    seq![
        (
            join(dir, "README.md"@),
            seq![
                ReplacerModel::Builtin { target: BuiltinTarget::Markdown },
                ReplacerModel::Rx {
                    search: "https://deps.rs/crate/{{name}}/[0-9a-z\\.-]+"@,
                    replace: "https://deps.rs/crate/{{name}}/{{version}}"@,
                },
            ],
        ),
        (join(dir, "src/lib.rs"@), seq![ReplacerModel::Builtin { target: BuiltinTarget::HtmlRootUrl }]),
    ]
}

/// The resolved mapping of the whole manifest: all declared (or preset)
/// entries merged in order.
pub open spec fn resolved_map(m: Manifest, dir: Seq<char>) -> Seq<
    (Seq<char>, Seq<ReplacerModel>),
> {
    merge_all(raw_entries(m, dir), Seq::empty())
}

/// `dir` and `rel` joined with a path separator.
fn join_path(dir: &str, rel: &str) -> (r: String)
    ensures
        r@ == join(dir@, rel@),
{
    let mut s = String::from_str(dir);
    s.append("/");
    s.append(rel);
    proof {
        reveal_strlit("/");
        assert("/"@ =~= seq!['/']);
        assert(s@ =~= join(dir@, rel@));
    }
    s
}

/// A copy of a replacer vector with the same models.
fn clone_replacers(rs: &Vec<Replacer>) -> (r: Vec<Replacer>)
    ensures
        models(r@) == models(rs@),
{
    let n: usize = rs.len();
    let mut out: Vec<Replacer> = Vec::new();
    let mut i: usize = 0;
    while i < n
        invariant
            n == rs@.len(),
            i <= n,
            models(out@) == models(rs@.take(i as int)),
        decreases n - i,
    {
        let ghost out0 = out@;
        out.push(rs[i].clone());
        proof {
            assert(models(out0).len() == out0.len());
            assert(rs@.take(i as int).len() == i);
            assert(out0.len() == i);
            assert(out@.len() == i + 1);
            assert(rs@.take(i + 1).len() == i + 1);
            assert forall|k: int| 0 <= k < out@.len() implies models(out@)[k] == models(
                rs@.take(i + 1),
            )[k] by {
                assert(models(out@)[k] == out@[k].model());
                assert(models(rs@.take(i + 1))[k] == rs@.take(i + 1)[k].model());
                if k < i {
                    assert(out@[k] == out0[k]);
                    assert(models(out0)[k] == out0[k].model());
                    assert(models(rs@.take(i as int))[k] == rs@.take(i as int)[k].model());
                }
            }
            assert(models(out@) =~= models(rs@.take(i + 1)));
        }
        i += 1;
    }
    assert(rs@.take(n as int) =~= rs@);
    out
}

/// The position of the entry owning `file`, if the mapping has one.
fn find_key(map: &Vec<(String, Vec<Replacer>)>, file: &str) -> (r: Option<usize>)
    ensures
        match r {
            Some(j) => j < map@.len() && map@[j as int].0@ == file@,
            None => !has_key(map_model(map@), file@),
        },
{
    let n: usize = map.len();
    let mut j: usize = 0;
    while j < n
        invariant
            n == map@.len(),
            j <= n,
            forall|i: int| 0 <= i < j ==> map@[i].0@ != file@,
        decreases n - j,
    {
        if text::str_eq(map[j].0.as_str(), file) {
            return Some(j);
        }
        j += 1;
    }
    proof {
        assert forall|i: int| 0 <= i < map_model(map@).len() implies #[trigger] map_model(map@)[i].0
            != file@ by {
            assert(map_model(map@)[i].0 == map@[i].0@);
        }
    }
    None
}

/// Merges one declared entry into the mapping, exactly as [`merge_one`]
/// describes.
fn insert_entry(map: &mut Vec<(String, Vec<Replacer>)>, file: String, reps: Vec<Replacer>)
    requires
        unique_keys(map_model(old(map)@)),
    ensures
        map_model(final(map)@) == merge_one(map_model(old(map)@), file@, models(reps@)),
{
    let ghost m0 = map_model(old(map)@);
    match find_key(map, file.as_str()) {
        Some(j) => {
            proof {
                assert(m0[j as int].0 == map@[j as int].0@);
                assert(has_key(m0, file@));
                let i = choose|i: int| 0 <= i < m0.len() && m0[i].0 == file@;
                if i != j {
                    assert(m0[i].0 == m0[j as int].0);
                    assert(false);
                }
            }
            let (key, mut existing) = map.remove(j);
            let mut incoming = reps;
            existing.append(&mut incoming);
            map.insert(j, (key, existing));
            proof {
                let merged = merge_one(m0, file@, models(reps@));
                assert(models(existing@) =~= m0[j as int].1 + models(reps@));
                assert forall|k: int| 0 <= k < map@.len() implies #[trigger] map_model(map@)[k]
                    == merged[k] by {
                    assert(map_model(map@)[k] == entry_model(map@[k]));
                    if k < j as int {
                        assert(map@[k] == old(map)@[k]);
                    } else if k == j as int {
                        assert(map@[k] == (key, existing));
                    } else {
                        assert(map@[k] == old(map)@[k]);
                    }
                }
                assert(map_model(map@) =~= merged);
            }
        },
        None => {
            map.push((file, reps));
            proof {
                let merged = merge_one(m0, file@, models(reps@));
                assert(map_model(map@) =~= merged);
            }
        },
    }
}

/// The engine for one run: the manifest, its root directory, and the
/// resolved mapping from target file to its replacer sequence.
#[derive(Debug)]
pub struct Runner {
    pub manifest: Manifest,
    pub manifest_dir: String,
    pub replacements: Vec<(String, Vec<Replacer>)>,
}

impl Runner {
    /// The invariant the constructor establishes: no two mapping entries
    /// share a path, and every path lies under the manifest root.
    pub open spec fn wf(&self) -> bool {
        &&& unique_keys(map_model(self.replacements@))
        &&& forall|i: int|
            0 <= i < self.replacements@.len() ==> changeset::under_dir(
                #[trigger] map_model(self.replacements@)[i].0,
                self.manifest_dir@,
            )
    }

    /// Builds the engine: resolves the mapping from the manifest's
    /// configuration (or the preset), merging replacer lists of entries
    /// that share a resolved path, in declaration order.
    pub fn new(manifest: Manifest, manifest_dir: String) -> (r: Runner)
        ensures
            r.manifest == manifest,
            r.manifest_dir == manifest_dir,
            r.wf(),
            map_model(r.replacements@) == resolved_map(manifest, manifest_dir@),
    {
        let use_preset: bool = match &manifest.package.metadata {
            Some(meta) => match &meta.version_sync {
                Some(c) => c.use_preset,
                None => false,
            },
            None => false,
        };
        assert(use_preset == spec_use_preset(manifest));
        let mut map: Vec<(String, Vec<Replacer>)> = Vec::new();
        let ghost raw = raw_entries(manifest, manifest_dir@);
        if use_preset {
            assert(map_model(map@) =~= Seq::<(Seq<char>, Seq<ReplacerModel>)>::empty());
            let readme = join_path(manifest_dir.as_str(), "README.md");
            let mut readme_reps: Vec<Replacer> = Vec::new();
            readme_reps.push(Replacer::Builtin(BuiltinReplacer { target: BuiltinTarget::Markdown }));
            readme_reps.push(
                Replacer::regex(
                    "https://deps.rs/crate/{{name}}/[0-9a-z\\.-]+",
                    "https://deps.rs/crate/{{name}}/{{version}}",
                ),
            );
            assert(raw == preset_raw(manifest_dir@));
            assert(models(readme_reps@) =~= raw[0].1);
            assert(readme@ == raw[0].0);
            insert_entry(&mut map, readme, readme_reps);
            let ghost acc1 = merge_one(Seq::empty(), raw[0].0, raw[0].1);
            assert(map_model(map@) == acc1);
            let libroot = join_path(manifest_dir.as_str(), "src/lib.rs");
            let mut libroot_reps: Vec<Replacer> = Vec::new();
            libroot_reps.push(
                Replacer::Builtin(BuiltinReplacer { target: BuiltinTarget::HtmlRootUrl }),
            );
            assert(models(libroot_reps@) =~= raw[1].1);
            assert(libroot@ == raw[1].0);
            proof {
                lemma_merge_one_props(Seq::empty(), raw[0].0, raw[0].1);
            }
            insert_entry(&mut map, libroot, libroot_reps);
            let ghost acc2 = merge_one(acc1, raw[1].0, raw[1].1);
            assert(map_model(map@) == acc2);
            proof {
                assert(raw.len() == 2);
                assert(raw.skip(1)[0] == raw[1]);
                assert(raw.skip(1).skip(1) =~= Seq::<(Seq<char>, Seq<ReplacerModel>)>::empty());
                assert(merge_all(raw, Seq::empty()) == merge_all(raw.skip(1), acc1));
                assert(merge_all(raw.skip(1), acc1) == merge_all(raw.skip(1).skip(1), acc2));
                assert(merge_all(raw.skip(1).skip(1), acc2) == acc2);
                assert(map_model(map@) == merge_all(raw, Seq::empty()));
                lemma_merge_one_props(acc1, raw[1].0, raw[1].1);
                assert forall|i: int| 0 <= i < map@.len() implies changeset::under_dir(
                    #[trigger] map_model(map@)[i].0,
                    manifest_dir@,
                ) by {
                    assert(has_key(map_model(map@), map_model(map@)[i].0));
                    lemma_join_under_dir(manifest_dir@, "README.md"@);
                    lemma_join_under_dir(manifest_dir@, "src/lib.rs"@);
                }
            }
        } else {
            match &manifest.package.metadata {
                Some(meta) => match &meta.version_sync {
                    Some(config) => {
                        let n: usize = config.replacements.len();
                        let mut i: usize = 0;
                        assert(raw.skip(0) =~= raw);
                        assert(map_model(map@) =~= Seq::<(Seq<char>, Seq<ReplacerModel>)>::empty());
                        while i < n
                            invariant
                                n == config.replacements@.len(),
                                i <= n,
                                raw == raw_entries(manifest, manifest_dir@),
                                raw == config.replacements@.map_values(
                                    |rep: crate::manifest::Replacement|
                                        (
                                            join(manifest_dir@, rep.file@),
                                            models(rep.replacers@),
                                        ),
                                ),
                                merge_all(raw, Seq::empty()) == merge_all(
                                    raw.skip(i as int),
                                    map_model(map@),
                                ),
                                unique_keys(map_model(map@)),
                                forall|k: int|
                                    0 <= k < map@.len() ==> changeset::under_dir(
                                        #[trigger] map_model(map@)[k].0,
                                        manifest_dir@,
                                    ),
                            decreases n - i,
                        {
                            let ghost m0 = map_model(map@);
                            let rep = &config.replacements[i];
                            let file = join_path(manifest_dir.as_str(), rep.file.as_str());
                            let reps = clone_replacers(&rep.replacers);
                            proof {
                                assert(raw[i as int] == (
                                    join(manifest_dir@, config.replacements@[i as int].file@),
                                    models(config.replacements@[i as int].replacers@),
                                ));
                                lemma_merge_one_props(m0, file@, models(reps@));
                            }
                            insert_entry(&mut map, file, reps);
                            proof {
                                assert(raw.skip(i as int)[0] == raw[i as int]);
                                assert(raw.skip(i as int).skip(1) =~= raw.skip(i + 1));
                                assert(merge_all(raw.skip(i as int), m0) == merge_all(
                                    raw.skip(i + 1),
                                    map_model(map@),
                                ));
                                assert forall|k: int| 0 <= k < map@.len() implies
                                    changeset::under_dir(
                                    #[trigger] map_model(map@)[k].0,
                                    manifest_dir@,
                                ) by {
                                    assert(has_key(map_model(map@), map_model(map@)[k].0));
                                    lemma_join_under_dir(
                                        manifest_dir@,
                                        config.replacements@[i as int].file@,
                                    );
                                }
                            }
                            i += 1;
                        }
                        assert(raw.skip(n as int) =~= Seq::<
                            (Seq<char>, Seq<ReplacerModel>),
                        >::empty());
                    },
                    None => {
                        assert(raw =~= Seq::<(Seq<char>, Seq<ReplacerModel>)>::empty());
                        assert(map_model(map@) =~= Seq::<(Seq<char>, Seq<ReplacerModel>)>::empty());
                    },
                },
                None => {
                    assert(raw =~= Seq::<(Seq<char>, Seq<ReplacerModel>)>::empty());
                    assert(map_model(map@) =~= Seq::<(Seq<char>, Seq<ReplacerModel>)>::empty());
                },
            }
        }
        Runner { manifest, manifest_dir, replacements: map }
    }

    /// The manifest root directory.
    pub fn manifest_dir(&self) -> (r: &str)
        ensures
            r@ == self.manifest_dir@,
    {
        self.manifest_dir.as_str()
    }

    /// The embedded configuration, if the manifest carries one.
    pub fn config(&self) -> (r: Option<&Config>)
        ensures
            match r {
                Some(c) => spec_config(self.manifest) == Some(*c),
                None => spec_config(self.manifest) is None,
            },
    {
        match &self.manifest.package.metadata {
            Some(meta) => match &meta.version_sync {
                Some(c) => Some(c),
                None => None,
            },
            None => None,
        }
    }
}

/// A joined path lies under its directory.
pub proof fn lemma_join_under_dir(dir: Seq<char>, rel: Seq<char>)
    ensures
        changeset::under_dir(join(dir, rel), dir),
{
    assert(join(dir, rel).take((dir.len() + 1) as int) =~= dir + seq!['/']);
}

/// The mathematical content of the supplied file list: each file's path
/// and content.
pub open spec fn files_model(fs: Seq<FileInput>) -> Seq<(Seq<char>, Seq<char>)> {
    fs.map_values(|f: FileInput| (f.path@, f.content@))
}

/// The content supplied for `path`: that of the first matching entry, or
/// nothing when the caller supplied none (the file counts as missing).
pub open spec fn lookup(files: Seq<(Seq<char>, Seq<char>)>, path: Seq<char>) -> Option<Seq<char>>
    decreases files.len(),
{
    if files.len() == 0 {
        None
    } else if files[0].0 == path {
        Some(files[0].1)
    } else {
        lookup(files.skip(1), path)
    }
}

/// The mathematical content of one diff: path, original content, rewritten
/// text.
pub open spec fn diff_model(d: Diff) -> (Seq<char>, Seq<char>, Seq<char>) {
    (d.file@, d.content@, d.replaced@)
}

/// The mathematical content of a diff list, in order.
pub open spec fn diffs_model(ds: Seq<Diff>) -> Seq<(Seq<char>, Seq<char>, Seq<char>)> {
    ds.map_values(|d: Diff| diff_model(d))
}

proof fn lemma_diffs_model_push(ds: Seq<Diff>, d: Diff)
    ensures
        diffs_model(ds.push(d)) == diffs_model(ds) + seq![diff_model(d)],
{
    assert(diffs_model(ds.push(d)) =~= diffs_model(ds) + seq![diff_model(d)]);
}

/// Whether one file's replacer sequence rewrites the given content into
/// something different, so that a run over it emits a diff.
pub open spec fn diff_emitted(
    ms: Seq<ReplacerModel>,
    name: Seq<char>,
    version: Seq<char>,
    date: Seq<char>,
    content: Seq<char>,
) -> bool {
    apply_seq(ms, name, version, date, content) != content
}

/// What a whole run computes: for each mapping entry in order, the file's
/// supplied content rewritten by its replacer sequence, collecting a diff
/// wherever the text changed; a file without supplied content is skipped;
/// the first replacer whose pattern does not compile aborts the run with
/// that pattern.
pub open spec fn collect_spec(
    entries: Seq<(Seq<char>, Seq<ReplacerModel>)>,
    files: Seq<(Seq<char>, Seq<char>)>,
    name: Seq<char>,
    version: Seq<char>,
    date: Seq<char>,
) -> Result<Seq<(Seq<char>, Seq<char>, Seq<char>)>, Seq<char>>
    decreases entries.len(),
{
    if entries.len() == 0 {
        Ok(Seq::empty())
    } else {
        match lookup(files, entries[0].0) {
            None => collect_spec(entries.skip(1), files, name, version, date),
            Some(content) => match apply_seq_res(entries[0].1, name, version, date, content) {
                Err(p) => Err(p),
                Ok(replaced) => {
                    let rest = collect_spec(entries.skip(1), files, name, version, date);
                    if replaced != content {
                        match rest {
                            Err(p) => Err(p),
                            Ok(ds) => Ok(seq![(entries[0].0, content, replaced)] + ds),
                        }
                    } else {
                        rest
                    }
                },
            },
        }
    }
}

/// A successful run emits a diff only for a mapped file whose content was
/// supplied and actually changed; and a run fails only on account of a
/// file whose content was supplied. A mapped file without supplied content
/// therefore yields no diff and no error.
pub proof fn lemma_collect_spec_props(
    entries: Seq<(Seq<char>, Seq<ReplacerModel>)>,
    files: Seq<(Seq<char>, Seq<char>)>,
    name: Seq<char>,
    version: Seq<char>,
    date: Seq<char>,
)
    ensures
        collect_spec(entries, files, name, version, date) is Ok ==> (forall|j: int|
            0 <= j < collect_spec(entries, files, name, version, date)->Ok_0.len() ==> {
                let dm = #[trigger] collect_spec(entries, files, name, version, date)->Ok_0[j];
                &&& has_key(entries, dm.0)
                &&& lookup(files, dm.0) is Some
                &&& dm.1 != dm.2
            }),
        collect_spec(entries, files, name, version, date) is Err ==> (exists|i: int|
            0 <= i < entries.len() && lookup(files, (#[trigger] entries[i]).0) is Some
                && apply_seq_res(entries[i].1, name, version, date, lookup(files, entries[i].0)->0)
                is Err),
    decreases entries.len(),
{
    if entries.len() == 0 {
    } else {
        lemma_collect_spec_props(entries.skip(1), files, name, version, date);
        let full = collect_spec(entries, files, name, version, date);
        let rest = collect_spec(entries.skip(1), files, name, version, date);
        assert(forall|i: int| 0 <= i < entries.skip(1).len() ==> #[trigger] entries.skip(1)[i]
            == entries[i + 1]);
        if full is Ok {
            let ds = full->Ok_0;
            assert forall|j: int| 0 <= j < ds.len() implies {
                let dm = #[trigger] ds[j];
                &&& has_key(entries, dm.0)
                &&& lookup(files, dm.0) is Some
                &&& dm.1 != dm.2
            } by {
                match lookup(files, entries[0].0) {
                    None => {
                        assert(ds[j] == rest->Ok_0[j]);
                        let k = choose|k: int|
                            0 <= k < entries.skip(1).len() && entries.skip(1)[k].0 == ds[j].0;
                        assert(entries[k + 1].0 == ds[j].0);
                    },
                    Some(content) => {
                        let replaced = apply_seq_res(entries[0].1, name, version, date, content)->Ok_0;
                        if replaced != content {
                            if j == 0 {
                                assert(ds[0] == (entries[0].0, content, replaced));
                                assert(entries[0].0 == ds[0].0);
                            } else {
                                assert(ds[j] == rest->Ok_0[j - 1]);
                                let k = choose|k: int|
                                    0 <= k < entries.skip(1).len() && entries.skip(1)[k].0
                                        == ds[j].0;
                                assert(entries[k + 1].0 == ds[j].0);
                            }
                        } else {
                            assert(ds[j] == rest->Ok_0[j]);
                            let k = choose|k: int|
                                0 <= k < entries.skip(1).len() && entries.skip(1)[k].0 == ds[j].0;
                            assert(entries[k + 1].0 == ds[j].0);
                        }
                    },
                }
            }
        } else {
            match lookup(files, entries[0].0) {
                None => {
                    let i = choose|i: int|
                        0 <= i < entries.skip(1).len() && lookup(
                            files,
                            (#[trigger] entries.skip(1)[i]).0,
                        ) is Some && apply_seq_res(
                            entries.skip(1)[i].1,
                            name,
                            version,
                            date,
                            lookup(files, entries.skip(1)[i].0)->0,
                        ) is Err;
                    assert(entries[i + 1] == entries.skip(1)[i]);
                },
                Some(content) => {
                    if apply_seq_res(entries[0].1, name, version, date, content) is Err {
                        assert(entries[0] == entries[0]);
                    } else {
                        let i = choose|i: int|
                            0 <= i < entries.skip(1).len() && lookup(
                                files,
                                (#[trigger] entries.skip(1)[i]).0,
                            ) is Some && apply_seq_res(
                                entries.skip(1)[i].1,
                                name,
                                version,
                                date,
                                lookup(files, entries.skip(1)[i].0)->0,
                            ) is Err;
                        assert(entries[i + 1] == entries.skip(1)[i]);
                    }
                },
            }
        }
    }
}

/// With unique mapping keys, a successful run names each file at most
/// once.
pub proof fn lemma_collect_spec_unique(
    entries: Seq<(Seq<char>, Seq<ReplacerModel>)>,
    files: Seq<(Seq<char>, Seq<char>)>,
    name: Seq<char>,
    version: Seq<char>,
    date: Seq<char>,
)
    requires
        unique_keys(entries),
    ensures
        collect_spec(entries, files, name, version, date) is Ok ==> (forall|i: int, j: int|
            0 <= i < j < collect_spec(entries, files, name, version, date)->Ok_0.len()
                ==> #[trigger] collect_spec(entries, files, name, version, date)->Ok_0[i].0
                != #[trigger] collect_spec(entries, files, name, version, date)->Ok_0[j].0),
    decreases entries.len(),
{
    if entries.len() == 0 {
    } else {
        assert(forall|i: int| 0 <= i < entries.skip(1).len() ==> #[trigger] entries.skip(1)[i]
            == entries[i + 1]);
        lemma_collect_spec_unique(entries.skip(1), files, name, version, date);
        lemma_collect_spec_props(entries.skip(1), files, name, version, date);
        let full = collect_spec(entries, files, name, version, date);
        let rest = collect_spec(entries.skip(1), files, name, version, date);
        if full is Ok {
            let ds = full->Ok_0;
            assert forall|i: int, j: int| 0 <= i < j < ds.len() implies #[trigger] ds[i].0
                != #[trigger] ds[j].0 by {
                match lookup(files, entries[0].0) {
                    None => {},
                    Some(content) => {
                        let replaced = apply_seq_res(
                            entries[0].1,
                            name,
                            version,
                            date,
                            content,
                        )->Ok_0;
                        if replaced != content {
                            if i == 0 {
                                assert(ds[0].0 == entries[0].0);
                                assert(ds[j] == rest->Ok_0[j - 1]);
                                assert(has_key(entries.skip(1), ds[j].0));
                                let k = choose|k: int|
                                    0 <= k < entries.skip(1).len() && entries.skip(1)[k].0
                                        == ds[j].0;
                                assert(entries[k + 1].0 == ds[j].0);
                                assert(entries[0].0 != entries[k + 1].0);
                            } else {
                                assert(ds[i] == rest->Ok_0[i - 1]);
                                assert(ds[j] == rest->Ok_0[j - 1]);
                            }
                        }
                    },
                }
            }
        }
    }
}

/// Convergence of a run: once a file holds the rewritten text of a
/// previous run, and no replacer's pattern matches that text any more, a
/// rerun emits no further diff for the file.
pub proof fn lemma_round_trip(
    ms: Seq<ReplacerModel>,
    name: Seq<char>,
    version: Seq<char>,
    date: Seq<char>,
    content: Seq<char>,
)
    requires
        forall|i: int|
            0 <= i < ms.len() ==> !rex::has_match(
                effective_pattern(#[trigger] ms[i], name),
                apply_seq(ms, name, version, date, content),
            ),
    ensures
        !diff_emitted(ms, name, version, date, apply_seq(ms, name, version, date, content)),
{
    lemma_apply_seq_fixed(ms, name, version, date, apply_seq(ms, name, version, date, content));
}

/// The position of the first supplied file whose path is `path`, if any.
fn find_file(files: &Vec<FileInput>, path: &str) -> (r: Option<usize>)
    ensures
        match r {
            Some(j) => j < files@.len() && files@[j as int].path@ == path@ && lookup(
                files_model(files@),
                path@,
            ) == Some(files@[j as int].content@),
            None => lookup(files_model(files@), path@) is None,
        },
{
    let ghost fm = files_model(files@);
    let n: usize = files.len();
    let mut j: usize = 0;
    assert(fm.skip(0) =~= fm);
    while j < n
        invariant
            n == files@.len(),
            fm == files_model(files@),
            fm.len() == n,
            j <= n,
            lookup(fm, path@) == lookup(fm.skip(j as int), path@),
        decreases n - j,
    {
        let ghost suffix = fm.skip(j as int);
        assert(suffix[0] == fm[j as int]);
        assert(fm[j as int] == (files@[j as int].path@, files@[j as int].content@));
        if text::str_eq(files[j].path.as_str(), path) {
            assert(lookup(suffix, path@) == Some(files@[j as int].content@));
            return Some(j);
        }
        proof {
            assert(suffix.skip(1) =~= fm.skip(j + 1));
        }
        j += 1;
    }
    assert(fm.skip(n as int) =~= Seq::<(Seq<char>, Seq<char>)>::empty());
    None
}

impl Runner {
    /// Runs every mapping entry over the supplied file contents, in
    /// mapping order, and collects a diff for each file whose text
    /// changed, exactly as [`collect_spec`] describes. A mapped file whose
    /// content was not supplied is skipped. The first replacer whose
    /// effective pattern does not compile aborts the run with that
    /// pattern.
    pub fn collect_diffs(&self, files: &Vec<FileInput>, date: &Date) -> (r: Result<Vec<Diff>, Error>)
        requires
            date.wf(),
        ensures
            match collect_spec(
                map_model(self.replacements@),
                files_model(files@),
                self.manifest.package.name@,
                self.manifest.package.version@,
                date::yyyy_mm_dd(*date),
            ) {
                Ok(ds) => r is Ok && diffs_model(r->Ok_0@) == ds,
                Err(p) => r is Err && r->Err_0 is RegexCompile && r->Err_0->RegexCompile_0@ == p,
            },
    {
        let ghost entries = map_model(self.replacements@);
        let ghost fm = files_model(files@);
        let ghost nm = self.manifest.package.name@;
        let ghost vm = self.manifest.package.version@;
        let ghost dm = date::yyyy_mm_dd(*date);
        let mut out: Vec<Diff> = Vec::new();
        let n: usize = self.replacements.len();
        let mut i: usize = 0;
        proof {
            assert(entries.skip(0) =~= entries);
            assert(diffs_model(out@) =~= Seq::<(Seq<char>, Seq<char>, Seq<char>)>::empty());
            if collect_spec(entries, fm, nm, vm, dm) is Ok {
                assert(Seq::<(Seq<char>, Seq<char>, Seq<char>)>::empty() + collect_spec(
                    entries,
                    fm,
                    nm,
                    vm,
                    dm,
                )->Ok_0 =~= collect_spec(entries, fm, nm, vm, dm)->Ok_0);
            }
        }
        while i < n
            invariant
                n == self.replacements@.len(),
                i <= n,
                date.wf(),
                entries == map_model(self.replacements@),
                fm == files_model(files@),
                nm == self.manifest.package.name@,
                vm == self.manifest.package.version@,
                dm == date::yyyy_mm_dd(*date),
                entries.len() == n,
                ({
                    let full = collect_spec(entries, fm, nm, vm, dm);
                    match collect_spec(entries.skip(i as int), fm, nm, vm, dm) {
                        Ok(ds) => full == Ok::<Seq<(Seq<char>, Seq<char>, Seq<char>)>, Seq<char>>(
                            diffs_model(out@) + ds,
                        ),
                        Err(p) => full == Err::<Seq<(Seq<char>, Seq<char>, Seq<char>)>, Seq<char>>(
                            p,
                        ),
                    }
                }),
            decreases n - i,
        {
            let ghost suffix = entries.skip(i as int);
            proof {
                assert(suffix[0] == entries[i as int]);
                assert(entries[i as int] == entry_model(self.replacements@[i as int]));
                assert(suffix.skip(1) =~= entries.skip(i + 1));
            }
            match find_file(files, self.replacements[i].0.as_str()) {
                None => {
                    assert(collect_spec(suffix, fm, nm, vm, dm) == collect_spec(
                        entries.skip(i + 1),
                        fm,
                        nm,
                        vm,
                        dm,
                    ));
                },
                Some(j) => {
                    let mut cx = ReplacerContext::new(
                        files[j].content.as_str(),
                        &self.manifest,
                        *date,
                    );
                    let res = apply_all(&self.replacements[i].1, &mut cx);
                    match res {
                        Err(e) => {
                            proof {
                                assert(lookup(fm, suffix[0].0) == Some(files@[j as int].content@));
                                assert(apply_seq_res(
                                    suffix[0].1,
                                    nm,
                                    vm,
                                    dm,
                                    files@[j as int].content@,
                                ) is Err);
                                assert(collect_spec(suffix, fm, nm, vm, dm) == Err::<
                                    Seq<(Seq<char>, Seq<char>, Seq<char>)>,
                                    Seq<char>,
                                >(apply_seq_res(
                                    suffix[0].1,
                                    nm,
                                    vm,
                                    dm,
                                    files@[j as int].content@,
                                )->Err_0));
                            }
                            return Err(e);
                        },
                        Ok(()) => {
                            let replaced = cx.finish();
                            let ghost rep_m = replaced@;
                            proof {
                                assert(lookup(fm, suffix[0].0) == Some(files@[j as int].content@));
                                assert(apply_seq_res(
                                    suffix[0].1,
                                    nm,
                                    vm,
                                    dm,
                                    files@[j as int].content@,
                                ) == Ok::<Seq<char>, Seq<char>>(rep_m));
                            }
                            if !text::str_eq(files[j].content.as_str(), replaced.as_str()) {
                                let d = Diff {
                                    file: self.replacements[i].0.clone(),
                                    content: files[j].content.clone(),
                                    replaced,
                                };
                                let ghost out0 = out@;
                                out.push(d);
                                proof {
                                    lemma_diffs_model_push(out0, d);
                                    assert(diff_model(d) == (
                                        suffix[0].0,
                                        files@[j as int].content@,
                                        rep_m,
                                    ));
                                    let rest2 = collect_spec(entries.skip(i + 1), fm, nm, vm, dm);
                                    if rest2 is Ok {
                                        assert(collect_spec(suffix, fm, nm, vm, dm) == Ok::<
                                            Seq<(Seq<char>, Seq<char>, Seq<char>)>,
                                            Seq<char>,
                                        >(seq![diff_model(d)] + rest2->Ok_0));
                                        assert((diffs_model(out0) + seq![diff_model(d)])
                                            + rest2->Ok_0 =~= diffs_model(out0) + (
                                        seq![diff_model(d)] + rest2->Ok_0));
                                    }
                                }
                            } else {
                                assert(collect_spec(suffix, fm, nm, vm, dm) == collect_spec(
                                    entries.skip(i + 1),
                                    fm,
                                    nm,
                                    vm,
                                    dm,
                                ));
                            }
                        },
                    }
                },
            }
            i += 1;
        }
        proof {
            assert(entries.skip(n as int) =~= Seq::<(Seq<char>, Seq<ReplacerModel>)>::empty());
            if collect_spec(entries, fm, nm, vm, dm) is Ok {
                assert(diffs_model(out@) + Seq::<(Seq<char>, Seq<char>, Seq<char>)>::empty()
                    =~= diffs_model(out@));
            }
        }
        Ok(out)
    }

    /// As [`Runner::collect_diffs`], with the diffs wrapped together with
    /// the manifest root into a well-formed changeset.
    pub fn collect_changeset(&self, files: &Vec<FileInput>, date: &Date) -> (r: Result<
        Changeset,
        Error,
    >)
        requires
            date.wf(),
            self.wf(),
        ensures
            match collect_spec(
                map_model(self.replacements@),
                files_model(files@),
                self.manifest.package.name@,
                self.manifest.package.version@,
                date::yyyy_mm_dd(*date),
            ) {
                Ok(ds) => r is Ok && diffs_model(r->Ok_0.diffs@) == ds && r->Ok_0.manifest_dir@
                    == self.manifest_dir@ && r->Ok_0.wf(),
                Err(p) => r is Err && r->Err_0 is RegexCompile && r->Err_0->RegexCompile_0@ == p,
            },
    {
        let ghost entries = map_model(self.replacements@);
        let ghost fm = files_model(files@);
        let ghost nm = self.manifest.package.name@;
        let ghost vm = self.manifest.package.version@;
        let ghost dm = date::yyyy_mm_dd(*date);
        match self.collect_diffs(files, date) {
            Err(e) => Err(e),
            Ok(diffs) => {
                let cs = Changeset { diffs, manifest_dir: self.manifest_dir.clone() };
                proof {
                    lemma_collect_spec_props(entries, fm, nm, vm, dm);
                    let ds = collect_spec(entries, fm, nm, vm, dm)->Ok_0;
                    assert(diffs_model(cs.diffs@) == ds);
                    assert forall|k: int| 0 <= k < cs.diffs@.len() implies changeset::under_dir(
                        (#[trigger] cs.diffs@[k]).file@,
                        cs.manifest_dir@,
                    ) && cs.diffs@[k].content@ != cs.diffs@[k].replaced@ by {
                        assert(diffs_model(cs.diffs@)[k] == diff_model(cs.diffs@[k]));
                        assert(ds[k] == (cs.diffs@[k].file@, cs.diffs@[k].content@, cs.diffs@[k].replaced@));
                        assert(has_key(entries, ds[k].0));
                        let e = choose|e: int| 0 <= e < entries.len() && entries[e].0 == ds[k].0;
                        assert(entries.len() == self.replacements@.len());
                        assert(changeset::under_dir(entries[e].0, self.manifest_dir@));
                    }
                }
                Ok(cs)
            },
        }
    }

    /// A diff's path relative to the manifest root: the root prefix
    /// stripped. A path not under the root cannot come from this engine's
    /// changesets; it is rejected rather than trusted.
    pub fn relative_file_path(&self, diff: &Diff) -> (r: Result<String, Error>)
        ensures
            changeset::under_dir(diff.file@, self.manifest_dir@) ==> r is Ok && r->Ok_0@
                == changeset::rel_of(diff.file@, self.manifest_dir@),
            !changeset::under_dir(diff.file@, self.manifest_dir@) ==> r is Err && r->Err_0 is
                PathNotFound && r->Err_0->PathNotFound_0@ == diff.file@,
    {
        let filev = text::str_to_chars(diff.file.as_str());
        let mut prefixv = text::str_to_chars(self.manifest_dir.as_str());
        prefixv.push('/');
        assert(prefixv@ =~= self.manifest_dir@ + seq!['/']);
        if text::starts_with_chars(&filev, &prefixv) {
            let k: usize = prefixv.len();
            let fl: usize = filev.len();
            assert(k <= fl);
            let relv = text::tail_chars(&filev, k);
            Ok(text::chars_to_string(&relv))
        } else {
            Err(Error::PathNotFound(diff.file.clone()))
        }
    }
}

} // verus!
