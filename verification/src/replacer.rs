//! Replacers: the units of text transformation. A replacer is either a
//! user-declared regular-expression substitution or a named builtin that
//! expands to a fixed substitution using the package name and version.

use vstd::prelude::*;
use crate::date::{self, Date};
use crate::error::Error;
use crate::manifest::Manifest;
use crate::rex;
use crate::template;

verus! {

/// The per-run values a replacer sees, together with the text buffer it
/// rewrites in place. Each target file gets a fresh context; the replacers
/// of that file run on it in order, each seeing the previous one's output.
pub struct ReplacerContext {
    /// The package name, for `{{name}}`.
    pub name: String,
    /// The package version, for `{{version}}`.
    pub version: String,
    /// The date the caller captured for the run, for `{{date}}`.
    pub date: Date,
    /// The text being rewritten.
    pub text: String,
}

impl ReplacerContext {
    /// A context over `text` with the manifest's package name and version
    /// and the given date.
    pub fn new(text: &str, manifest: &Manifest, date: Date) -> (r: Self)
        requires
            date.wf(),
        ensures
            r.name@ == manifest.package.name@,
            r.version@ == manifest.package.version@,
            r.date == date,
            r.date.wf(),
            r.text@ == text@,
    {
        ReplacerContext {
            name: manifest.package.name.clone(),
            version: manifest.package.version.clone(),
            date,
            text: String::from_str(text),
        }
    }

    /// The package name.
    pub fn package_name(&self) -> (r: &str)
        ensures
            r@ == self.name@,
    {
        self.name.as_str()
    }

    /// The package version.
    pub fn package_version(&self) -> (r: &str)
        ensures
            r@ == self.version@,
    {
        self.version.as_str()
    }

    /// The date captured for the run.
    pub fn date(&self) -> (r: Date)
        ensures
            r == self.date,
    {
        self.date
    }

    /// The text as rewritten so far.
    pub fn text(&self) -> (r: &str)
        ensures
            r@ == self.text@,
    {
        self.text.as_str()
    }

    /// Gives up the context and hands back the rewritten text.
    pub fn finish(self) -> (r: String)
        ensures
            r@ == self.text@,
    {
        self.text
    }
}

/// The fixed set of builtin transformation names.
#[derive(Clone, Copy, Debug, PartialEq, Eq, Structural)]
pub enum BuiltinTarget {
    /// Rewrites a quoted `name = "version"` dependency line, as found in
    /// embedded markdown code blocks.
    Markdown,
    /// Rewrites a `https://docs.rs/<name>/<version>` documentation URL.
    HtmlRootUrl,
}

/// A named builtin transformation.
#[derive(Clone, Copy, Debug)]
pub struct BuiltinReplacer {
    pub target: BuiltinTarget,
}

/// A regular-expression substitution: both fields are templates.
#[derive(Debug)]
pub struct RegexReplacer {
    pub search: String,
    pub replace: String,
}

impl Clone for RegexReplacer {
    /// The clone holds the same search and replacement templates.
    fn clone(&self) -> (r: Self)
        ensures
            r.search@ == self.search@,
            r.replace@ == self.replace@,
    {
        RegexReplacer { search: self.search.clone(), replace: self.replace.clone() }
    }
}

/// A single unit of text transformation.
#[derive(Debug)]
pub enum Replacer {
    Regex(RegexReplacer),
    Builtin(BuiltinReplacer),
}

/// What a replacer means, stripped to its mathematical content: the
/// templates of a regex substitution, or a builtin's target.
pub enum ReplacerModel {
    Rx { search: Seq<char>, replace: Seq<char> },
    Builtin { target: BuiltinTarget },
}

/// The search template a builtin expands to.
pub open spec fn builtin_search(t: BuiltinTarget) -> Seq<char> {
    match t {
        BuiltinTarget::Markdown => "{{name}} = \"[0-9a-z\\.-]+\""@,
        BuiltinTarget::HtmlRootUrl => "https://docs.rs/{{name}}/[0-9a-z\\.-]+"@,
    }
}

/// The replacement template a builtin expands to.
pub open spec fn builtin_replace(t: BuiltinTarget) -> Seq<char> {
    match t {
        BuiltinTarget::Markdown => "{{name}} = \"{{version}}\""@,
        BuiltinTarget::HtmlRootUrl => "https://docs.rs/{{name}}/{{version}}"@,
    }
}

impl Replacer {
    /// The mathematical content of this replacer.
    pub open spec fn model(&self) -> ReplacerModel {
        match self {
            Replacer::Regex(rr) => ReplacerModel::Rx { search: rr.search@, replace: rr.replace@ },
            Replacer::Builtin(b) => ReplacerModel::Builtin { target: b.target },
        }
    }
}

impl Clone for Replacer {
    /// The clone has the same mathematical content.
    fn clone(&self) -> (r: Self)
        ensures
            r.model() == self.model(),
    {
        match self {
            Replacer::Regex(rr) => Replacer::Regex(rr.clone()),
            Replacer::Builtin(b) => Replacer::Builtin(*b),
        }
    }
}

/// The search template of a replacer, builtins expanded.
pub open spec fn search_template(m: ReplacerModel) -> Seq<char> {
    match m {
        ReplacerModel::Rx { search, .. } => search,
        ReplacerModel::Builtin { target } => builtin_search(target),
    }
}

/// The replacement template of a replacer, builtins expanded.
pub open spec fn replace_template(m: ReplacerModel) -> Seq<char> {
    match m {
        ReplacerModel::Rx { replace, .. } => replace,
        ReplacerModel::Builtin { target } => builtin_replace(target),
    }
}

/// The effective search pattern of a replacer: its search template with
/// `{{name}}` expanded.
pub open spec fn effective_pattern(m: ReplacerModel, name: Seq<char>) -> Seq<char> {
    template::expand_name(search_template(m), name)
}

/// Whether the replacer's effective search pattern compiles.
pub open spec fn apply_ok(m: ReplacerModel, name: Seq<char>) -> bool {
    rex::regex_ok(effective_pattern(m, name))
}

/// The text after one replacer ran: every match of the effective search
/// pattern replaced by the fully expanded replacement template.
pub open spec fn apply_one(
    m: ReplacerModel,
    name: Seq<char>,
    version: Seq<char>,
    date: Seq<char>,
    t: Seq<char>,
) -> Seq<char> {
    rex::regex_replace_all(
        effective_pattern(m, name),
        t,
        template::expand_all(replace_template(m), name, version, date),
    )
}

impl Replacer {
    /// A builtin replacer by name; fails with `InvalidBuiltinTarget` on any
    /// name outside the fixed set.
    pub fn builtin(target: &str) -> (r: Result<Replacer, Error>)
        ensures
            target@ == "markdown"@ ==> r is Ok && r->Ok_0.model() == (ReplacerModel::Builtin {
                target: BuiltinTarget::Markdown,
            }),
            target@ == "html-root-url"@ ==> r is Ok && r->Ok_0.model() == (ReplacerModel::Builtin {
                target: BuiltinTarget::HtmlRootUrl,
            }),
            target@ != "markdown"@ && target@ != "html-root-url"@ ==> r is Err && r->Err_0 is
                InvalidBuiltinTarget && r->Err_0->InvalidBuiltinTarget_0@ == target@,
    {
        proof {
            reveal_strlit("markdown");
            reveal_strlit("html-root-url");
            assert(("markdown"@).len() == 8);
            assert(("html-root-url"@).len() == 13);
            assert("markdown"@ != "html-root-url"@);
        }
        if crate::text::str_eq(target, "markdown") {
            Ok(Replacer::Builtin(BuiltinReplacer { target: BuiltinTarget::Markdown }))
        } else if crate::text::str_eq(target, "html-root-url") {
            Ok(Replacer::Builtin(BuiltinReplacer { target: BuiltinTarget::HtmlRootUrl }))
        } else {
            Err(Error::InvalidBuiltinTarget(String::from_str(target)))
        }
    }

    /// A regex replacer from its two templates.
    pub fn regex(search: &str, replace: &str) -> (r: Replacer)
        ensures
            r.model() == (ReplacerModel::Rx { search: search@, replace: replace@ }),
    {
        Replacer::Regex(
            RegexReplacer { search: String::from_str(search), replace: String::from_str(replace) },
        )
    }

    /// Runs this replacer on the context's text. On success the text holds
    /// every match of the effective pattern replaced; a text without a
    /// match stays exactly as it was. Fails if and only if the effective
    /// pattern does not compile, and then leaves the text untouched.
    pub fn replace(&self, cx: &mut ReplacerContext) -> (r: Result<(), Error>)
        requires
            old(cx).date.wf(),
        ensures
            final(cx).name == old(cx).name,
            final(cx).version == old(cx).version,
            final(cx).date == old(cx).date,
            r is Ok <==> apply_ok(self.model(), old(cx).name@),
            r is Ok ==> final(cx).text@ == apply_one(
                self.model(),
                old(cx).name@,
                old(cx).version@,
                date::yyyy_mm_dd(old(cx).date),
                old(cx).text@,
            ),
            r is Ok && !rex::has_match(effective_pattern(self.model(), old(cx).name@), old(cx).text@)
                ==> final(cx).text@ == old(cx).text@,
            r is Err ==> final(cx).text@ == old(cx).text@ && r->Err_0 is RegexCompile
                && r->Err_0->RegexCompile_0@ == effective_pattern(self.model(), old(cx).name@),
    {
        match self {
            Replacer::Regex(rr) => rr.replace(cx),
            Replacer::Builtin(b) => b.replace(cx),
        }
    }
}

impl RegexReplacer {
    /// Runs this substitution on the context's text; see
    /// [`Replacer::replace`] for the contract it refines.
    fn replace(&self, cx: &mut ReplacerContext) -> (r: Result<(), Error>)
        requires
            old(cx).date.wf(),
        ensures
            final(cx).name == old(cx).name,
            final(cx).version == old(cx).version,
            final(cx).date == old(cx).date,
            r is Ok <==> rex::regex_ok(template::expand_name(self.search@, old(cx).name@)),
            r is Ok ==> final(cx).text@ == rex::regex_replace_all(
                template::expand_name(self.search@, old(cx).name@),
                old(cx).text@,
                template::expand_all(
                    self.replace@,
                    old(cx).name@,
                    old(cx).version@,
                    date::yyyy_mm_dd(old(cx).date),
                ),
            ),
            r is Err ==> final(cx).text@ == old(cx).text@ && r->Err_0 is RegexCompile
                && r->Err_0->RegexCompile_0@ == template::expand_name(self.search@, old(cx).name@),
    {
        let pattern = template::expand_name_exec(self.search.as_str(), cx.name.as_str());
        match rex::compile(pattern.as_str()) {
            None => Err(Error::RegexCompile(pattern)),
            Some(re) => {
                let datestr = cx.date.format_yyyy_mm_dd();
                let rep = template::expand_all_exec(
                    self.replace.as_str(),
                    cx.name.as_str(),
                    cx.version.as_str(),
                    datestr.as_str(),
                );
                let replaced = rex::replace_all(&re, cx.text.as_str(), rep.as_str());
                cx.text = replaced;
                Ok(())
            },
        }
    }
}

impl BuiltinReplacer {
    /// The fixed substitution this builtin stands for.
    fn to_regex(&self) -> (r: RegexReplacer)
        ensures
            r.search@ == builtin_search(self.target),
            r.replace@ == builtin_replace(self.target),
    {
        match self.target {
            BuiltinTarget::Markdown => RegexReplacer {
                search: String::from_str("{{name}} = \"[0-9a-z\\.-]+\""),
                replace: String::from_str("{{name}} = \"{{version}}\""),
            },
            BuiltinTarget::HtmlRootUrl => RegexReplacer {
                search: String::from_str("https://docs.rs/{{name}}/[0-9a-z\\.-]+"),
                replace: String::from_str("https://docs.rs/{{name}}/{{version}}"),
            },
        }
    }

    /// Expands to the fixed substitution and runs it; see
    /// [`Replacer::replace`] for the contract it refines.
    fn replace(&self, cx: &mut ReplacerContext) -> (r: Result<(), Error>)
        requires
            old(cx).date.wf(),
        ensures
            final(cx).name == old(cx).name,
            final(cx).version == old(cx).version,
            final(cx).date == old(cx).date,
            r is Ok <==> rex::regex_ok(template::expand_name(builtin_search(self.target), old(cx).name@)),
            r is Ok ==> final(cx).text@ == rex::regex_replace_all(
                template::expand_name(builtin_search(self.target), old(cx).name@),
                old(cx).text@,
                template::expand_all(
                    builtin_replace(self.target),
                    old(cx).name@,
                    old(cx).version@,
                    date::yyyy_mm_dd(old(cx).date),
                ),
            ),
            r is Err ==> final(cx).text@ == old(cx).text@ && r->Err_0 is RegexCompile
                && r->Err_0->RegexCompile_0@ == template::expand_name(
                builtin_search(self.target),
                old(cx).name@,
            ),
    {
        let rr = self.to_regex();
        rr.replace(cx)
    }
}

/// The mathematical content of each replacer in a sequence, in order.
pub open spec fn models(rs: Seq<Replacer>) -> Seq<ReplacerModel> {
    rs.map_values(|r: Replacer| r.model())
}

/// The text after a whole replacer sequence ran, in order, each replacer on
/// the previous one's output. Compilation failures are ignored here; see
/// [`apply_seq_res`] for the run that stops at the first one.
pub open spec fn apply_seq(
    ms: Seq<ReplacerModel>,
    name: Seq<char>,
    version: Seq<char>,
    date: Seq<char>,
    t: Seq<char>,
) -> Seq<char>
    decreases ms.len(),
{
    if ms.len() == 0 {
        t
    } else {
        apply_seq(ms.skip(1), name, version, date, apply_one(ms[0], name, version, date, t))
    }
}

/// A whole replacer sequence run in order, stopping at the first replacer
/// whose effective pattern does not compile; the error carries that
/// pattern.
pub open spec fn apply_seq_res(
    ms: Seq<ReplacerModel>,
    name: Seq<char>,
    version: Seq<char>,
    date: Seq<char>,
    t: Seq<char>,
) -> Result<Seq<char>, Seq<char>>
    decreases ms.len(),
{
    if ms.len() == 0 {
        Ok(t)
    } else if !apply_ok(ms[0], name) {
        Err(effective_pattern(ms[0], name))
    } else {
        apply_seq_res(ms.skip(1), name, version, date, apply_one(ms[0], name, version, date, t))
    }
}

/// When every pattern in the sequence compiles, the stopping run succeeds
/// and agrees with [`apply_seq`].
pub proof fn lemma_apply_seq_res_ok(
    ms: Seq<ReplacerModel>,
    name: Seq<char>,
    version: Seq<char>,
    date: Seq<char>,
    t: Seq<char>,
)
    requires
        forall|i: int| 0 <= i < ms.len() ==> apply_ok(#[trigger] ms[i], name),
    ensures
        apply_seq_res(ms, name, version, date, t) == Ok::<Seq<char>, Seq<char>>(
            apply_seq(ms, name, version, date, t),
        ),
    decreases ms.len(),
{
    if ms.len() == 0 {
    } else {
        assert(apply_ok(ms[0], name));
        lemma_apply_seq_res_ok(
            ms.skip(1),
            name,
            version,
            date,
            apply_one(ms[0], name, version, date, t),
        );
    }
}

/// A text in which no replacer of the sequence finds a match is a fixed
/// point: the whole sequence leaves it unchanged.
pub proof fn lemma_apply_seq_fixed(
    ms: Seq<ReplacerModel>,
    name: Seq<char>,
    version: Seq<char>,
    date: Seq<char>,
    t: Seq<char>,
)
    requires
        forall|i: int|
            0 <= i < ms.len() ==> !rex::has_match(effective_pattern(#[trigger] ms[i], name), t),
    ensures
        apply_seq(ms, name, version, date, t) == t,
    decreases ms.len(),
{
    if ms.len() == 0 {
    } else {
        assert(!rex::has_match(effective_pattern(ms[0], name), t));
        assert(apply_one(ms[0], name, version, date, t) == t);
        lemma_apply_seq_fixed(ms.skip(1), name, version, date, t);
    }
}

/// Idempotence: when no replacer's pattern still matches in the text the
/// sequence produced, running the sequence a second time yields the same
/// text as running it once. (A replacement that re-introduces its own
/// search pattern falls outside this hypothesis.)
pub proof fn lemma_apply_seq_idempotent(
    ms: Seq<ReplacerModel>,
    name: Seq<char>,
    version: Seq<char>,
    date: Seq<char>,
    t: Seq<char>,
)
    requires
        forall|i: int|
            0 <= i < ms.len() ==> !rex::has_match(
                effective_pattern(#[trigger] ms[i], name),
                apply_seq(ms, name, version, date, t),
            ),
    ensures
        apply_seq(ms, name, version, date, apply_seq(ms, name, version, date, t)) == apply_seq(
            ms,
            name,
            version,
            date,
            t,
        ),
{
    lemma_apply_seq_fixed(ms, name, version, date, apply_seq(ms, name, version, date, t));
}

/// Runs every replacer in order on the context's text, stopping at the
/// first failure, exactly as [`apply_seq_res`] describes.
pub fn apply_all(replacers: &Vec<Replacer>, cx: &mut ReplacerContext) -> (r: Result<(), Error>)
    requires
        old(cx).date.wf(),
    ensures
        final(cx).name == old(cx).name,
        final(cx).version == old(cx).version,
        final(cx).date == old(cx).date,
        match apply_seq_res(
            models(replacers@),
            old(cx).name@,
            old(cx).version@,
            date::yyyy_mm_dd(old(cx).date),
            old(cx).text@,
        ) {
            Ok(t) => r is Ok && final(cx).text@ == t,
            Err(p) => r is Err && r->Err_0 is RegexCompile && r->Err_0->RegexCompile_0@ == p,
        },
{
    let ghost name0 = cx.name@;
    let ghost version0 = cx.version@;
    let ghost date0 = date::yyyy_mm_dd(cx.date);
    let ghost t0 = cx.text@;
    let n: usize = replacers.len();
    let mut i: usize = 0;
    assert(models(replacers@).skip(0) =~= models(replacers@));
    while i < n
        invariant
            n == replacers@.len(),
            i <= n,
            cx.date.wf(),
            cx.name == old(cx).name,
            cx.version == old(cx).version,
            cx.date == old(cx).date,
            name0 == old(cx).name@,
            version0 == old(cx).version@,
            date0 == date::yyyy_mm_dd(old(cx).date),
            t0 == old(cx).text@,
            apply_seq_res(models(replacers@), name0, version0, date0, t0) == apply_seq_res(
                models(replacers@).skip(i as int),
                name0,
                version0,
                date0,
                cx.text@,
            ),
        decreases n - i,
    {
        let ghost before = cx.text@;
        let res = replacers[i].replace(cx);
        match res {
            Ok(()) => {
                proof {
                    assert(models(replacers@).skip(i as int)[0] == models(replacers@)[i as int]);
                    assert(models(replacers@)[i as int] == replacers@[i as int].model());
                    assert(apply_ok(replacers@[i as int].model(), name0));
                    assert(cx.text@ == apply_one(
                        replacers@[i as int].model(),
                        name0,
                        version0,
                        date0,
                        before,
                    ));
                    assert(models(replacers@).skip(i as int).skip(1) =~= models(replacers@).skip(
                        i + 1,
                    ));
                    assert(apply_seq_res(
                        models(replacers@).skip(i as int),
                        name0,
                        version0,
                        date0,
                        before,
                    ) == apply_seq_res(
                        models(replacers@).skip(i + 1),
                        name0,
                        version0,
                        date0,
                        cx.text@,
                    ));
                }
                i += 1;
            },
            Err(e) => {
                proof {
                    assert(models(replacers@).skip(i as int)[0] == models(replacers@)[i as int]);
                    assert(models(replacers@)[i as int] == replacers@[i as int].model());
                    assert(!apply_ok(replacers@[i as int].model(), name0));
                    assert(apply_seq_res(
                        models(replacers@).skip(i as int),
                        name0,
                        version0,
                        date0,
                        before,
                    ) == Err::<Seq<char>, Seq<char>>(
                        effective_pattern(replacers@[i as int].model(), name0),
                    ));
                }
                return Err(e);
            },
        }
    }
    assert(models(replacers@).skip(n as int) =~= Seq::<ReplacerModel>::empty());
    Ok(())
}

} // verus!
