//! The VS Code settings texe manages for a project: LaTeX Workshop builds
//! with texe and shows the project-root PDF, and texe's private tree stays
//! out of search and file watching.
use vstd::prelude::*;
use crate::engine::file_stem;
use crate::integrations::{slash_path, slash_text};
use crate::setup::strings_view;

verus! {

/// A setting's value as texe writes it.
#[derive(Debug, Clone)]
pub enum SettingLeaf {
    Flag(bool),
    Text(String),
    List(Vec<String>),
}

/// The value of a setting, as text.
pub enum LeafView {
    Flag(bool),
    Text(Seq<char>),
    List(Seq<Seq<char>>),
}

pub open spec fn leaf_view(l: SettingLeaf) -> LeafView {
    match l {
        SettingLeaf::Flag(b) => LeafView::Flag(b),
        SettingLeaf::Text(t) => LeafView::Text(t@),
        SettingLeaf::List(v) => LeafView::List(strings_view(v@)),
    }
}

pub open spec fn settings_view(v: Seq<(Vec<String>, SettingLeaf)>) -> Seq<(Seq<Seq<char>>, LeafView)> {
    v.map_values(|e: (Vec<String>, SettingLeaf)| (strings_view(e.0@), leaf_view(e.1)))
}

/// The job name the editor builds: the entry's file stem, or `main`.
pub open spec fn job_name(entry: Seq<char>) -> Seq<char> {
    match file_stem(entry) {
        Some(s) => s,
        None => "main"@,
    }
}

/// Every setting texe owns, one leaf per path and in key order, for the
/// project entry and the texe executable VS Code should run.
pub open spec fn desired_settings_of(entry: Seq<char>, executable: Seq<char>) -> Seq<(Seq<Seq<char>>, LeafView)> {
    let stem = job_name(entry);
    let source = slash_text(entry);
    seq![
        (seq!["files.associations"@, "*.tikz"@], LeafView::Text("latex"@)),
        (seq!["files.watcherExclude"@, "**/.texe/**"@], LeafView::Flag(true)),
        (seq!["latex-workshop.latex.autoBuild.onSave.files.ignore"@], LeafView::List(Seq::empty())),
        (seq!["latex-workshop.latex.autoBuild.run"@], LeafView::Text("never"@)),
        (seq!["latex-workshop.latex.build.enableMagicComments"@], LeafView::Flag(false)),
        (
            seq!["latex-workshop.latex.external.build.args"@],
            LeafView::List(seq!["editor-build"@, "--project"@, "%WORKSPACE_FOLDER%"@]),
        ),
        (seq!["latex-workshop.latex.external.build.command"@], LeafView::Text(executable)),
        (seq!["latex-workshop.latex.extraExts"@], LeafView::List(seq![".tikz"@])),
        (seq!["latex-workshop.latex.jobname"@], LeafView::Text(stem)),
        (seq!["latex-workshop.latex.outDir"@], LeafView::Text("%WORKSPACE_FOLDER%"@)),
        (seq!["latex-workshop.latex.rootFile.doNotPrompt"@], LeafView::Flag(true)),
        (seq!["latex-workshop.latex.rootFile.useSubFile"@], LeafView::Flag(false)),
        (seq!["latex-workshop.latex.search.rootFiles.exclude"@], LeafView::List(seq!["**/.texe/**"@])),
        (seq!["latex-workshop.latex.search.rootFiles.include"@], LeafView::List(seq![source])),
        (seq!["latex-workshop.message.error.show"@], LeafView::Flag(false)),
        (seq!["latex-workshop.view.pdf.tab.editorGroup"@], LeafView::Text("right"@)),
        (seq!["latex-workshop.view.pdf.viewer"@], LeafView::Text("tab"@)),
        (seq!["search.exclude"@, "**/.texe"@], LeafView::Flag(true)),
        (seq!["texe.editor.enabled"@], LeafView::Flag(true)),
        (seq!["texe.editor.openPaper"@, "pdf"@], LeafView::Text(stem + ".pdf"@)),
        (seq!["texe.editor.openPaper"@, "request"@], LeafView::Text(source)),
        (seq!["texe.editor.openPaper"@, "source"@], LeafView::Text(source)),
        (seq!["texe.executablePath"@], LeafView::Text(executable)),
    ]
}

fn key1(a: &str) -> (r: Vec<String>)
    ensures
        strings_view(r@) == seq![a@],
{
    let mut r: Vec<String> = Vec::new();
    r.push(String::from_str(a));
    assert(strings_view(r@) =~= seq![a@]);
    r
}

fn key2(a: &str, b: &str) -> (r: Vec<String>)
    ensures
        strings_view(r@) == seq![a@, b@],
{
    let mut r: Vec<String> = Vec::new();
    r.push(String::from_str(a));
    r.push(String::from_str(b));
    assert(strings_view(r@) =~= seq![a@, b@]);
    r
}

fn key3(a: &str, b: &str, c: &str) -> (r: Vec<String>)
    ensures
        strings_view(r@) == seq![a@, b@, c@],
{
    let mut r: Vec<String> = Vec::new();
    r.push(String::from_str(a));
    r.push(String::from_str(b));
    r.push(String::from_str(c));
    assert(strings_view(r@) =~= seq![a@, b@, c@]);
    r
}

fn push_setting(v: &mut Vec<(Vec<String>, SettingLeaf)>, path: Vec<String>, leaf: SettingLeaf)
    ensures
        settings_view(final(v)@) == settings_view(old(v)@).push((strings_view(path@), leaf_view(leaf))),
{
    let ghost before = settings_view(v@);
    let ghost entry = (strings_view(path@), leaf_view(leaf));
    v.push((path, leaf));
    assert(settings_view(v@) =~= before.push(entry));
}

/// See [`desired_settings_of`].
pub fn desired_settings(entry: &str, executable: &str) -> (r: Vec<(Vec<String>, SettingLeaf)>)
    ensures
        settings_view(r@) == desired_settings_of(entry@, executable@),
{
    let stem = match crate::setup::file_name_of(entry) {
        Some(name) => match crate::text::rfind_char_in(&name, '.') {
            Some(k) => {
                proof {
                    crate::text::lemma_rfind_bounds(name@, '.', name@.len() as int);
                }
                if k == 0 {
                    crate::text::owned(&name)
                } else {
                    crate::text::owned(&crate::text::slice_of(&name, 0, k))
                }
            },
            None => crate::text::owned(&name),
        },
        None => String::from_str("main"),
    };
    assert(stem@ == job_name(entry@));
    let source = slash_path(entry);
    let mut pdf = stem.clone();
    pdf.append(".pdf");
    let none: Vec<String> = Vec::new();
    assert(strings_view(none@) =~= Seq::<Seq<char>>::empty());
    let mut v: Vec<(Vec<String>, SettingLeaf)> = Vec::new();
    push_setting(&mut v, key2("files.associations", "*.tikz"), SettingLeaf::Text(String::from_str("latex")));
    push_setting(&mut v, key2("files.watcherExclude", "**/.texe/**"), SettingLeaf::Flag(true));
    push_setting(&mut v, key1("latex-workshop.latex.autoBuild.onSave.files.ignore"), SettingLeaf::List(none));
    push_setting(&mut v, key1("latex-workshop.latex.autoBuild.run"), SettingLeaf::Text(String::from_str("never")));
    push_setting(&mut v, key1("latex-workshop.latex.build.enableMagicComments"), SettingLeaf::Flag(false));
    push_setting(
        &mut v,
        key1("latex-workshop.latex.external.build.args"),
        SettingLeaf::List(key3("editor-build", "--project", "%WORKSPACE_FOLDER%")),
    );
    push_setting(
        &mut v,
        key1("latex-workshop.latex.external.build.command"),
        SettingLeaf::Text(String::from_str(executable)),
    );
    push_setting(&mut v, key1("latex-workshop.latex.extraExts"), SettingLeaf::List(key1(".tikz")));
    push_setting(&mut v, key1("latex-workshop.latex.jobname"), SettingLeaf::Text(stem));
    push_setting(
        &mut v,
        key1("latex-workshop.latex.outDir"),
        SettingLeaf::Text(String::from_str("%WORKSPACE_FOLDER%")),
    );
    push_setting(&mut v, key1("latex-workshop.latex.rootFile.doNotPrompt"), SettingLeaf::Flag(true));
    push_setting(&mut v, key1("latex-workshop.latex.rootFile.useSubFile"), SettingLeaf::Flag(false));
    push_setting(&mut v, key1("latex-workshop.latex.search.rootFiles.exclude"), SettingLeaf::List(key1("**/.texe/**")));
    let mut root_files: Vec<String> = Vec::new();
    root_files.push(source.clone());
    assert(strings_view(root_files@) =~= seq![source@]);
    push_setting(&mut v, key1("latex-workshop.latex.search.rootFiles.include"), SettingLeaf::List(root_files));
    push_setting(&mut v, key1("latex-workshop.message.error.show"), SettingLeaf::Flag(false));
    push_setting(
        &mut v,
        key1("latex-workshop.view.pdf.tab.editorGroup"),
        SettingLeaf::Text(String::from_str("right")),
    );
    push_setting(&mut v, key1("latex-workshop.view.pdf.viewer"), SettingLeaf::Text(String::from_str("tab")));
    push_setting(&mut v, key2("search.exclude", "**/.texe"), SettingLeaf::Flag(true));
    push_setting(&mut v, key1("texe.editor.enabled"), SettingLeaf::Flag(true));
    push_setting(&mut v, key2("texe.editor.openPaper", "pdf"), SettingLeaf::Text(pdf));
    push_setting(&mut v, key2("texe.editor.openPaper", "request"), SettingLeaf::Text(source.clone()));
    push_setting(&mut v, key2("texe.editor.openPaper", "source"), SettingLeaf::Text(source));
    push_setting(&mut v, key1("texe.executablePath"), SettingLeaf::Text(String::from_str(executable)));
    proof {
        let d = desired_settings_of(entry@, executable@);
        let w = settings_view(v@);
        assert(w.len() == d.len());
        assert forall|i: int| 0 <= i < d.len() implies w[i] == d[i] by {
            assert(w[i].0 =~= d[i].0);
        }
        assert(w =~= d);
    }
    v
}

} // verus!
