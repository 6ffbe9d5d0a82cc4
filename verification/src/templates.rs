//! The template store: the bundled default content of the four generated
//! files, and the functions that turn a template plus a decision into the
//! final file content.
//!
//! The two structured templates (compiler config, package manifest) are held
//! as documents; the ignore list and the entry source are opaque text written
//! verbatim.

use vstd::prelude::*;
use crate::json::{
    Document, Entry, JVal, Json, set_key, spec_render, spec_with_strict, view_entries,
    lemma_view_entries_index,
};

verus! {

/// The compiler-config template: a `compilerOptions` object of the usual
/// defaults, none of them the strict flags.
pub open spec fn spec_tsconfig_options() -> Seq<(Seq<char>, JVal)> {
    seq![
        ("target"@, JVal::Str("ES2022"@)),
        ("module"@, JVal::Str("ES2022"@)),
        ("moduleResolution"@, JVal::Str("node"@)),
        ("outDir"@, JVal::Str("dist"@)),
        ("rootDir"@, JVal::Str("src"@)),
        ("esModuleInterop"@, JVal::Bool(true)),
        ("skipLibCheck"@, JVal::Bool(true)),
    ]
}

pub open spec fn spec_tsconfig_template() -> Seq<(Seq<char>, JVal)> {
    seq![("compilerOptions"@, JVal::Obj(spec_tsconfig_options()))]
}

/// The package-manifest template: its `name` is a placeholder that every run
/// overwrites with the requested project name.
pub open spec fn spec_package_scripts() -> Seq<(Seq<char>, JVal)> {
    seq![("build"@, JVal::Str("tsc"@)), ("start"@, JVal::Str("node dist/main.js"@))]
}

pub open spec fn spec_package_template() -> Seq<(Seq<char>, JVal)> {
    seq![
        ("name"@, JVal::Str("my-app"@)),
        ("version"@, JVal::Str("0.1.0"@)),
        ("main"@, JVal::Str("src/main.ts"@)),
        ("scripts"@, JVal::Obj(spec_package_scripts())),
    ]
}

/// The ignore-list template, written verbatim.
pub open spec fn spec_gitignore_template() -> Seq<char> {
    "node_modules\ndist\n"@
}

/// The entry-source template, written verbatim.
pub open spec fn spec_entry_source_template() -> Seq<char> {
    "function main(): void {\n  console.log(\"Hello, world!\");\n}\n\nmain();\n"@
}

/// Holds the static default content of the four generated files.
pub struct TemplateStore {
    pub tsconfig: Document,
    pub package_manifest: Document,
    pub gitignore: String,
    pub entry_source: String,
}

impl TemplateStore {
    pub open spec fn wf(&self) -> bool {
        &&& self.tsconfig@ == spec_tsconfig_template()
        &&& self.package_manifest@ == spec_package_template()
        &&& self.gitignore@ == spec_gitignore_template()
        &&& self.entry_source@ == spec_entry_source_template()
    }

    /// The bundled templates, constructed once at startup.
    pub fn bundled() -> (r: TemplateStore)
        ensures
            r.wf(),
    {
        let mut co: Vec<Entry> = Vec::new();
        co.push(Entry { key: "target".to_owned(), val: Json::Str("ES2022".to_owned()) });
        co.push(Entry { key: "module".to_owned(), val: Json::Str("ES2022".to_owned()) });
        co.push(Entry { key: "moduleResolution".to_owned(), val: Json::Str("node".to_owned()) });
        co.push(Entry { key: "outDir".to_owned(), val: Json::Str("dist".to_owned()) });
        co.push(Entry { key: "rootDir".to_owned(), val: Json::Str("src".to_owned()) });
        co.push(Entry { key: "esModuleInterop".to_owned(), val: Json::Bool(true) });
        co.push(Entry { key: "skipLibCheck".to_owned(), val: Json::Bool(true) });
        proof {
            lemma_view_entries_index(co@);
            assert(view_entries(co@) =~= spec_tsconfig_options());
        }
        let ghost co_view = view_entries(co@);
        let mut ts: Vec<Entry> = Vec::new();
        ts.push(Entry { key: "compilerOptions".to_owned(), val: Json::Obj(co) });
        proof {
            lemma_view_entries_index(ts@);
            assert(view_entries(ts@) =~= spec_tsconfig_template());
        }

        let mut scripts: Vec<Entry> = Vec::new();
        scripts.push(Entry { key: "build".to_owned(), val: Json::Str("tsc".to_owned()) });
        scripts.push(
            Entry { key: "start".to_owned(), val: Json::Str("node dist/main.js".to_owned()) },
        );
        proof {
            lemma_view_entries_index(scripts@);
            assert(view_entries(scripts@) =~= spec_package_scripts());
        }
        let ghost scripts_view = view_entries(scripts@);
        let mut pkg: Vec<Entry> = Vec::new();
        pkg.push(Entry { key: "name".to_owned(), val: Json::Str("my-app".to_owned()) });
        pkg.push(Entry { key: "version".to_owned(), val: Json::Str("0.1.0".to_owned()) });
        pkg.push(Entry { key: "main".to_owned(), val: Json::Str("src/main.ts".to_owned()) });
        pkg.push(Entry { key: "scripts".to_owned(), val: Json::Obj(scripts) });
        proof {
            lemma_view_entries_index(pkg@);
            assert(view_entries(pkg@) =~= spec_package_template());
        }

        TemplateStore {
            tsconfig: Document { entries: ts },
            package_manifest: Document { entries: pkg },
            gitignore: "node_modules\ndist\n".to_owned(),
            entry_source: "function main(): void {\n  console.log(\"Hello, world!\");\n}\n\nmain();\n".to_owned(),
        }
    }
}

/// The final text of the compiler-config file: the template with the
/// strict-mode decision applied, rendered.
pub fn compiler_config_content(template: Document, strict: bool) -> (r: String)
    ensures
        r@ == spec_render(JVal::Obj(spec_with_strict(template@, strict)), Seq::empty()),
{
    let mut doc = template;
    doc.apply_strict(strict);
    doc.render()
}

/// The final text of the package-manifest file: the template with its `name`
/// set to the project name, rendered.
pub fn package_manifest_content(template: Document, name: &String) -> (r: String)
    ensures
        r@ == spec_render(JVal::Obj(set_key(template@, "name"@, JVal::Str(name@))), Seq::empty()),
{
    let mut doc = template;
    doc.set("name".to_owned(), Json::Str(name.clone()));
    doc.render()
}

} // verus!
