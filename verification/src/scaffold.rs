//! The project materializer.
//!
//! A run is planned as a sequence of filesystem actions, computed from the
//! project name, what is already on disk, and the user's two answers. The
//! plan pins the whole run: which directories are created, which files are
//! written with which bytes, and in which order. Executing the actions (and
//! asking the questions) is left to the thin shell around the library.

use vstd::prelude::*;
use vstd::string::StrSliceExecFns;
use crate::json::{
    JVal, json_plain_char, set_key, spec_render, spec_with_strict, lemma_lookup_set_same,
    lemma_lookup_set_other, lookup, compiler_options_key, strict_opts,
};
use crate::templates::TemplateStore;

verus! {

broadcast use vstd::seq::group_seq_axioms, vstd::std_specs::vec::group_vec_axioms;

/// What the run was asked to build: the target directory, whose name is also
/// written verbatim into the package manifest.
pub struct ProjectRequest {
    pub name: String,
}

/// A project name must be usable as a single path segment and must embed
/// unescaped into the generated JSON.
pub open spec fn valid_project_name(s: Seq<char>) -> bool {
    &&& 0 < s.len()
    &&& s != "."@
    &&& s != ".."@
    &&& forall|i: int| 0 <= i < s.len() ==> (json_plain_char(#[trigger] s[i]) && s[i] != '/')
}

/// What is already on disk before the run.
#[derive(Clone, Copy, PartialEq, Eq, Structural)]
pub struct DirProbe {
    pub root_exists: bool,
    pub git_dir_exists: bool,
    pub src_dir_exists: bool,
}

/// The user's two decisions.
#[derive(Clone, Copy, PartialEq, Eq, Structural)]
pub struct Answers {
    pub init_vcs: bool,
    pub strict: bool,
}

/// One filesystem step of a run, to be executed in plan order.
pub enum Action {
    CreateRootDir { path: String },
    VcsInit { workdir: String },
    WriteFile { path: String, content: String },
    CreateSrcDir { path: String },
}

/// The mathematical value of an action.
pub ghost enum ActionV {
    CreateRootDir { path: Seq<char> },
    VcsInit { workdir: Seq<char> },
    WriteFile { path: Seq<char>, content: Seq<char> },
    CreateSrcDir { path: Seq<char> },
}

impl View for Action {
    type V = ActionV;

    open spec fn view(&self) -> ActionV {
        match self {
            Action::CreateRootDir { path } => ActionV::CreateRootDir { path: path@ },
            Action::VcsInit { workdir } => ActionV::VcsInit { workdir: workdir@ },
            Action::WriteFile { path, content } => ActionV::WriteFile {
                path: path@,
                content: content@,
            },
            Action::CreateSrcDir { path } => ActionV::CreateSrcDir { path: path@ },
        }
    }
}

pub open spec fn view_actions(acts: Seq<Action>) -> Seq<ActionV>
    decreases acts,
{
    if acts.len() == 0 {
        Seq::empty()
    } else {
        view_actions(acts.subrange(0, acts.len() - 1)).push(acts[acts.len() - 1]@)
    }
}

pub proof fn lemma_view_actions_index(acts: Seq<Action>)
    ensures
        view_actions(acts).len() == acts.len(),
        forall|i: int| 0 <= i < acts.len() ==> view_actions(acts)[i] == acts[i]@,
    decreases acts,
{
    if acts.len() > 0 {
        let prefix = acts.subrange(0, acts.len() - 1);
        lemma_view_actions_index(prefix);
        assert(view_actions(acts) == view_actions(prefix).push(acts[acts.len() - 1]@));
        assert forall|i: int| 0 <= i < acts.len() implies view_actions(acts)[i] == acts[i]@ by {
            if i < acts.len() - 1 {
                assert(prefix[i] == acts[i]);
                assert(view_actions(acts)[i] == view_actions(prefix)[i]);
            }
        }
    }
}

/// An ordered run: the actions are executed front to back.
pub struct Plan {
    pub actions: Vec<Action>,
}

impl View for Plan {
    type V = Seq<ActionV>;

    open spec fn view(&self) -> Seq<ActionV> {
        view_actions(self.actions@)
    }
}

/// The exact sequence of filesystem actions a run performs, in order: the
/// root directory if absent; version-control init and the ignore list, only
/// when no repository exists yet and the user confirmed; the compiler config
/// with the strict decision applied; the package manifest renamed to the
/// project; and the source directory with the entry file, only when the
/// source directory is not already there.
pub open spec fn spec_plan(
    name: Seq<char>,
    probe: DirProbe,
    ans: Answers,
    ts: Seq<(Seq<char>, JVal)>,
    pkg: Seq<(Seq<char>, JVal)>,
    ignore_text: Seq<char>,
    entry_text: Seq<char>,
) -> Seq<ActionV> {
    let root: Seq<ActionV> = if !probe.root_exists {
        seq![ActionV::CreateRootDir { path: name }]
    } else {
        Seq::empty()
    };
    let vcs: Seq<ActionV> = if !probe.git_dir_exists && ans.init_vcs {
        seq![
            ActionV::VcsInit { workdir: name },
            ActionV::WriteFile { path: name + "/.gitignore"@, content: ignore_text },
        ]
    } else {
        Seq::empty()
    };
    let cfg = seq![
        ActionV::WriteFile {
            path: name + "/tsconfig.json"@,
            content: spec_render(JVal::Obj(spec_with_strict(ts, ans.strict)), Seq::empty()),
        },
    ];
    let man = seq![
        ActionV::WriteFile {
            path: name + "/package.json"@,
            content: spec_render(JVal::Obj(set_key(pkg, "name"@, JVal::Str(name))), Seq::empty()),
        },
    ];
    let src: Seq<ActionV> = if !probe.src_dir_exists {
        seq![
            ActionV::CreateSrcDir { path: name + "/src"@ },
            ActionV::WriteFile { path: name + "/src/main.ts"@, content: entry_text },
        ]
    } else {
        Seq::empty()
    };
    root + vcs + cfg + man + src
}

/// Decides whether a string can serve as a project name: non-empty, a single
/// path segment, neither `.` nor `..`, and embeddable in JSON unescaped.
#[verifier::loop_isolation(false)]
pub fn is_valid_project_name(name: &String) -> (r: bool)
    ensures
        r == valid_project_name(name@),
{
    let s = name.as_str();
    let n = s.unicode_len();
    if n == 0 {
        return false;
    }
    proof {
        reveal_strlit(".");
        reveal_strlit("..");
    }
    if n == 1 && s.get_char(0) == '.' {
        proof {
            assert(name@ =~= "."@);
        }
        return false;
    }
    if n == 2 && s.get_char(0) == '.' && s.get_char(1) == '.' {
        proof {
            assert(name@ =~= ".."@);
        }
        return false;
    }
    proof {
        assert(name@ != "."@);
        assert(name@ != ".."@);
    }
    let mut i: usize = 0;
    while i < n
        invariant
            n == name@.len(),
            i <= n,
            forall|j: int| 0 <= j < i ==> (json_plain_char(#[trigger] name@[j]) && name@[j] != '/'),
        decreases n - i,
    {
        let c = s.get_char(i);
        if c == '"' || c == '\\' || (c as u32) < 0x20 || c == '/' {
            return false;
        }
        i = i + 1;
    }
    true
}

fn join_path(name: &String, suffix: &str) -> (r: String)
    ensures
        r@ == name@ + suffix@,
{
    let mut r = name.clone();
    r.append(suffix);
    r
}

/// Whether the run asks the version-control question at all: a project that
/// already holds a repository is treated as set up, and the question (and the
/// ignore list) is skipped entirely.
pub fn vcs_prompt_needed(probe: &DirProbe) -> (r: bool)
    ensures
        r == !probe.git_dir_exists,
{
    !probe.git_dir_exists
}

/// Plans a whole run. The returned actions are exactly `spec_plan` of the
/// inputs, so everything the run will do — order, paths and file bytes — is
/// fixed by the name, the probe, the two answers and the templates.
pub fn build_plan(req: &ProjectRequest, probe: &DirProbe, ans: &Answers, store: TemplateStore) -> (p:
    Plan)
    requires
        valid_project_name(req.name@),
    ensures
        p@ == spec_plan(
            req.name@,
            *probe,
            *ans,
            store.tsconfig@,
            store.package_manifest@,
            store.gitignore@,
            store.entry_source@,
        ),
{
    let mut actions: Vec<Action> = Vec::new();
    if !probe.root_exists {
        actions.push(Action::CreateRootDir { path: req.name.clone() });
    }
    if !probe.git_dir_exists && ans.init_vcs {
        actions.push(Action::VcsInit { workdir: req.name.clone() });
        actions.push(
            Action::WriteFile {
                path: join_path(&req.name, "/.gitignore"),
                content: store.gitignore,
            },
        );
    }
    let cfg = crate::templates::compiler_config_content(store.tsconfig, ans.strict);
    actions.push(Action::WriteFile { path: join_path(&req.name, "/tsconfig.json"), content: cfg });
    let man = crate::templates::package_manifest_content(store.package_manifest, &req.name);
    actions.push(Action::WriteFile { path: join_path(&req.name, "/package.json"), content: man });
    if !probe.src_dir_exists {
        actions.push(Action::CreateSrcDir { path: join_path(&req.name, "/src") });
        actions.push(
            Action::WriteFile {
                path: join_path(&req.name, "/src/main.ts"),
                content: store.entry_source,
            },
        );
    }
    proof {
        lemma_view_actions_index(actions@);
        assert(view_actions(actions@) =~= spec_plan(
            req.name@,
            *probe,
            *ans,
            store.tsconfig@,
            store.package_manifest@,
            store.gitignore@,
            store.entry_source@,
        ));
    }
    Plan { actions }
}

/// What is on disk after a planned run: the root and the source directory
/// exist, and a repository exists where one existed before or init ran.
pub open spec fn spec_post_probe(probe: DirProbe, ans: Answers) -> DirProbe {
    DirProbe {
        root_exists: true,
        git_dir_exists: probe.git_dir_exists || ans.init_vcs,
        src_dir_exists: true,
    }
}

/// Running the materializer twice with the same name and the same answers
/// never re-initializes version control, never re-creates the source
/// directory, and never writes the entry-source file again.
pub proof fn lemma_scaffold_idempotent(
    name: Seq<char>,
    probe: DirProbe,
    ans: Answers,
    ts: Seq<(Seq<char>, JVal)>,
    pkg: Seq<(Seq<char>, JVal)>,
    ignore_text: Seq<char>,
    entry_text: Seq<char>,
)
    ensures
        ({
            let second = spec_plan(
                name,
                spec_post_probe(probe, ans),
                ans,
                ts,
                pkg,
                ignore_text,
                entry_text,
            );
            &&& forall|i: int| 0 <= i < second.len() ==> !(second[i] is VcsInit)
            &&& forall|i: int| 0 <= i < second.len() ==> !(second[i] is CreateSrcDir)
            &&& forall|i: int|
                0 <= i < second.len() ==> !(#[trigger] second[i] matches ActionV::WriteFile {
                    path,
                    ..
                } && path == name + "/src/main.ts"@)
        }),
{
    let post = spec_post_probe(probe, ans);
    let second = spec_plan(name, post, ans, ts, pkg, ignore_text, entry_text);
    let cfgv = ActionV::WriteFile {
        path: name + "/tsconfig.json"@,
        content: spec_render(JVal::Obj(spec_with_strict(ts, ans.strict)), Seq::empty()),
    };
    let manv = ActionV::WriteFile {
        path: name + "/package.json"@,
        content: spec_render(JVal::Obj(set_key(pkg, "name"@, JVal::Str(name))), Seq::empty()),
    };
    assert(second =~= seq![cfgv, manv]);
    reveal_strlit("/tsconfig.json");
    reveal_strlit("/package.json");
    reveal_strlit("/src/main.ts");
    assert((name + "/tsconfig.json"@).len() == name.len() + 14);
    assert((name + "/package.json"@).len() == name.len() + 13);
    assert((name + "/src/main.ts"@).len() == name.len() + 12);
    assert forall|i: int| 0 <= i < second.len() implies second[i] == cfgv || second[i]
        == manv by {}
}

/// With a repository already in place, the run neither initializes version
/// control nor writes an ignore list, and the version-control question is
/// not asked.
pub proof fn lemma_vcs_short_circuit(
    name: Seq<char>,
    probe: DirProbe,
    ans: Answers,
    ts: Seq<(Seq<char>, JVal)>,
    pkg: Seq<(Seq<char>, JVal)>,
    ignore_text: Seq<char>,
    entry_text: Seq<char>,
)
    requires
        probe.git_dir_exists,
    ensures
        ({
            let p = spec_plan(name, probe, ans, ts, pkg, ignore_text, entry_text);
            &&& forall|i: int| 0 <= i < p.len() ==> !(p[i] is VcsInit)
            &&& forall|i: int|
                0 <= i < p.len() ==> !(#[trigger] p[i] matches ActionV::WriteFile { path, .. }
                    && path == name + "/.gitignore"@)
        }),
{
    assert(!(!probe.git_dir_exists && ans.init_vcs));
    let p = spec_plan(name, probe, ans, ts, pkg, ignore_text, entry_text);
    let rootv = ActionV::CreateRootDir { path: name };
    let cfgv = ActionV::WriteFile {
        path: name + "/tsconfig.json"@,
        content: spec_render(JVal::Obj(spec_with_strict(ts, ans.strict)), Seq::empty()),
    };
    let manv = ActionV::WriteFile {
        path: name + "/package.json"@,
        content: spec_render(JVal::Obj(set_key(pkg, "name"@, JVal::Str(name))), Seq::empty()),
    };
    let srcv = ActionV::CreateSrcDir { path: name + "/src"@ };
    let entryv = ActionV::WriteFile { path: name + "/src/main.ts"@, content: entry_text };
    reveal_strlit("/tsconfig.json");
    reveal_strlit("/package.json");
    reveal_strlit("/src/main.ts");
    reveal_strlit("/.gitignore");
    assert((name + "/tsconfig.json"@).len() == name.len() + 14);
    assert((name + "/package.json"@).len() == name.len() + 13);
    assert((name + "/src/main.ts"@).len() == name.len() + 12);
    assert((name + "/.gitignore"@).len() == name.len() + 11);
    if !probe.root_exists {
        if !probe.src_dir_exists {
            assert(p =~= seq![rootv, cfgv, manv, srcv, entryv]);
        } else {
            assert(p =~= seq![rootv, cfgv, manv]);
        }
    } else {
        if !probe.src_dir_exists {
            assert(p =~= seq![cfgv, manv, srcv, entryv]);
        } else {
            assert(p =~= seq![cfgv, manv]);
        }
    }
    assert forall|i: int| 0 <= i < p.len() implies p[i] == rootv || p[i] == cfgv || p[i] == manv
        || p[i] == srcv || p[i] == entryv by {}
}

/// The package manifest written for project name `n` carries `name == n`
/// exactly, whatever default name the template held, and every other key of
/// the template keeps its value.
pub proof fn lemma_manifest_name(pkg: Seq<(Seq<char>, JVal)>, name: Seq<char>)
    ensures
        lookup(set_key(pkg, "name"@, JVal::Str(name)), "name"@) == Some(JVal::Str(name)),
        forall|k: Seq<char>| k != "name"@ ==> lookup(set_key(pkg, "name"@, JVal::Str(name)), k)
            == lookup(pkg, k),
{
    lemma_lookup_set_same(pkg, "name"@, JVal::Str(name));
    assert forall|k: Seq<char>| k != "name"@ implies lookup(
        set_key(pkg, "name"@, JVal::Str(name)),
        k,
    ) == lookup(pkg, k) by {
        lemma_lookup_set_other(pkg, "name"@, JVal::Str(name), k);
    }
}

/// Declining strict mode leaves the compiler config byte-for-byte what the
/// template rendered to: the document, and so its rendering, is untouched.
pub proof fn lemma_strict_declined(ts: Seq<(Seq<char>, JVal)>)
    ensures
        spec_with_strict(ts, false) == ts,
        spec_render(JVal::Obj(spec_with_strict(ts, false)), Seq::empty()) == spec_render(
            JVal::Obj(ts),
            Seq::empty(),
        ),
{
}

/// Confirming strict mode sets the three strict flags to `true` inside the
/// compiler-options object, keeps every other key of that object unchanged,
/// and keeps every other top-level key of the config unchanged.
pub proof fn lemma_strict_confirmed(ts: Seq<(Seq<char>, JVal)>, co: Seq<(Seq<char>, JVal)>)
    requires
        lookup(ts, compiler_options_key()) == Some(JVal::Obj(co)),
    ensures
        lookup(spec_with_strict(ts, true), compiler_options_key()) == Some(
            JVal::Obj(strict_opts(co)),
        ),
        lookup(strict_opts(co), "strict"@) == Some(JVal::Bool(true)),
        lookup(strict_opts(co), "noUncheckedIndexedAccess"@) == Some(JVal::Bool(true)),
        lookup(strict_opts(co), "noImplicitOverride"@) == Some(JVal::Bool(true)),
        forall|k: Seq<char>|
            k != "strict"@ && k != "noUncheckedIndexedAccess"@ && k != "noImplicitOverride"@
                ==> lookup(strict_opts(co), k) == lookup(co, k),
        forall|k: Seq<char>| k != compiler_options_key() ==> lookup(spec_with_strict(ts, true), k)
            == lookup(ts, k),
{
    reveal_strlit("strict");
    reveal_strlit("noUncheckedIndexedAccess");
    reveal_strlit("noImplicitOverride");
    reveal_strlit("compilerOptions");
    let s1 = set_key(co, "strict"@, JVal::Bool(true));
    let s2 = set_key(s1, "noUncheckedIndexedAccess"@, JVal::Bool(true));
    let s3 = set_key(s2, "noImplicitOverride"@, JVal::Bool(true));
    assert("strict"@.len() == 6 && "noUncheckedIndexedAccess"@.len() == 24
        && "noImplicitOverride"@.len() == 18);
    lemma_lookup_set_same(co, "strict"@, JVal::Bool(true));
    lemma_lookup_set_other(s1, "noUncheckedIndexedAccess"@, JVal::Bool(true), "strict"@);
    lemma_lookup_set_other(s2, "noImplicitOverride"@, JVal::Bool(true), "strict"@);
    lemma_lookup_set_same(s1, "noUncheckedIndexedAccess"@, JVal::Bool(true));
    lemma_lookup_set_other(s2, "noImplicitOverride"@, JVal::Bool(true), "noUncheckedIndexedAccess"@);
    lemma_lookup_set_same(s2, "noImplicitOverride"@, JVal::Bool(true));
    lemma_lookup_set_same(ts, compiler_options_key(), JVal::Obj(strict_opts(co)));
    assert forall|k: Seq<char>|
        k != "strict"@ && k != "noUncheckedIndexedAccess"@ && k != "noImplicitOverride"@ implies
        lookup(strict_opts(co), k) == lookup(co, k) by {
        lemma_lookup_set_other(s2, "noImplicitOverride"@, JVal::Bool(true), k);
        lemma_lookup_set_other(s1, "noUncheckedIndexedAccess"@, JVal::Bool(true), k);
        lemma_lookup_set_other(co, "strict"@, JVal::Bool(true), k);
    }
    assert forall|k: Seq<char>| k != compiler_options_key() implies lookup(
        spec_with_strict(ts, true),
        k,
    ) == lookup(ts, k) by {
        lemma_lookup_set_other(ts, compiler_options_key(), JVal::Obj(strict_opts(co)), k);
    }
}

} // verus!
