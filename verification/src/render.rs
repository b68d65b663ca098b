//! Template rendering: resolving the note's content, substituting variables,
//! composing the target path, and deciding whether the file is to be written.
//!
//! Rendering itself is pure: it produces a [`CreatePlan`] that says which
//! path the note lives at and what, if anything, must be written there. The
//! caller carries the plan out.

use vstd::prelude::*;
use vstd::string::*;
use crate::config::Template;
use crate::errors::NoteError;
use crate::paths::{force_md_extension, join_path, spec_file_name, spec_force_md, spec_join_path};
use crate::text::{from_chars, replace_chars, spec_replace, to_chars};

verus! {

/// The outcome of rendering: the note's final path, and the content to write
/// there — or nothing, when an existing file is deliberately kept.
#[derive(Debug)]
pub struct CreatePlan {
    pub path: String,
    pub content: Option<String>,
}

/// The view of an optional string.
pub open spec fn opt_view(o: Option<String>) -> Option<Seq<char>> {
    match o {
        Option::Some(s) => Option::Some(s@),
        Option::None => Option::None,
    }
}

/// Substituting the contextual values into a note body: `$NAME` becomes the
/// note's name, `$DATE` the date, `$PWD` the final component of `path`, and
/// `$PATH` all of `path`, in that order, each replaced globally.
pub open spec fn spec_inject(
    content: Seq<char>,
    name: Seq<char>,
    date: Seq<char>,
    path: Seq<char>,
) -> Seq<char> {
    spec_replace(
        spec_replace(
            spec_replace(spec_replace(content, "$NAME"@, name), "$DATE"@, date),
            "$PWD"@,
            spec_file_name(path),
        ),
        "$PATH"@,
        path,
    )
}

/// The content a render starts from: the template's inline content when it
/// has one, else the template's body file as read by the caller.
pub open spec fn spec_content_source(
    inline: Option<Seq<char>>,
    body: Option<Seq<char>>,
) -> Option<Seq<char>> {
    if inline is Some {
        inline
    } else {
        body
    }
}

/// The note's final path: the name joined onto the template's own directory
/// when it has one, else onto the caller's directory, with the extension
/// forced to `.md`.
pub open spec fn spec_target_path(
    path: Seq<char>,
    name: Seq<char>,
    dir: Option<Seq<char>>,
) -> Seq<char> {
    spec_force_md(
        spec_join_path(
            match dir {
                Option::Some(d) => d,
                Option::None => path,
            },
            name,
        ),
    )
}

/// What is to be written: nothing when the target already exists and
/// overwriting was not asked for, else the substituted content.
pub open spec fn spec_plan_content(
    content: Seq<char>,
    name: Seq<char>,
    date: Seq<char>,
    path: Seq<char>,
    target_exists: bool,
    overwrite: bool,
) -> Option<Seq<char>> {
    if target_exists && !overwrite {
        Option::None
    } else {
        Option::Some(spec_inject(content, name, date, path))
    }
}

/// The full rendering decision, as a value: which error it fails with, or the
/// plan it produces.
pub enum PlanView {
    MissingContent,
    MissingDir,
    Made(Seq<char>, Option<Seq<char>>),
}

/// The rendering decision for the given template data and filesystem facts.
pub open spec fn spec_create(
    inline: Option<Seq<char>>,
    body: Option<Seq<char>>,
    path: Seq<char>,
    name: Seq<char>,
    date: Seq<char>,
    dir: Option<Seq<char>>,
    dir_exists: bool,
    target_exists: bool,
    overwrite: bool,
) -> PlanView {
    match spec_content_source(inline, body) {
        Option::None => PlanView::MissingContent,
        Option::Some(c) => if !dir_exists {
            PlanView::MissingDir
        } else {
            PlanView::Made(
                spec_target_path(path, name, dir),
                spec_plan_content(c, name, date, path, target_exists, overwrite),
            )
        },
    }
}

/// A filesystem modelled as a map from paths to file contents, after a plan
/// for `path` is carried out.
pub open spec fn spec_apply_plan(
    fs: Map<Seq<char>, Seq<char>>,
    path: Seq<char>,
    content: Option<Seq<char>>,
) -> Map<Seq<char>, Seq<char>> {
    match content {
        Option::None => fs,
        Option::Some(c) => fs.insert(path, c),
    }
}

impl Template {
    /// `contents` with the variables substituted: `$NAME`, `$DATE`, `$PWD`
    /// and `$PATH`, in that order.
    pub fn inject_variables(contents: &String, name: &String, date: &String, path: &String) -> (r:
        String)
        ensures
            r@ == spec_inject(contents@, name@, date@, path@),
    {
        proof {
            reveal_strlit("$NAME");
            reveal_strlit("$DATE");
            reveal_strlit("$PWD");
            reveal_strlit("$PATH");
        }
        let c0 = to_chars(contents.as_str());
        let n = to_chars(name.as_str());
        let d = to_chars(date.as_str());
        let p = to_chars(path.as_str());
        let pwd = to_chars(crate::paths::file_name_of(path).as_str());
        let c1 = replace_chars(&c0, &to_chars("$NAME"), &n);
        let c2 = replace_chars(&c1, &to_chars("$DATE"), &d);
        let c3 = replace_chars(&c2, &to_chars("$PWD"), &pwd);
        let c4 = replace_chars(&c3, &to_chars("$PATH"), &p);
        from_chars(&c4)
    }

    /// Renders this template for the note `name`.
    ///
    /// `path` is the caller's directory (it also feeds the substitution),
    /// `body` the template's body file if the caller found one on disk,
    /// `dir_expanded` the template's own directory after tilde expansion, and
    /// `dir_exists` / `target_exists` whether the effective directory and the
    /// final path are present on disk. Fails when no content source is at
    /// hand, or when the effective directory is missing; keeps an existing
    /// file untouched unless `overwrite` is set.
    pub fn create(
        &self,
        path: &String,
        name: &String,
        overwrite: bool,
        body: &Option<String>,
        date: &String,
        dir_expanded: &Option<String>,
        dir_exists: bool,
        target_exists: bool,
    ) -> (r: Result<CreatePlan, NoteError>)
        ensures
            match spec_create(
                opt_view(self.content),
                opt_view(*body),
                path@,
                name@,
                date@,
                opt_view(*dir_expanded),
                dir_exists,
                target_exists,
                overwrite,
            ) {
                PlanView::MissingContent => r matches Err(e) && e is NotFound,
                PlanView::MissingDir => r matches Err(e) && e is NotFound,
                PlanView::Made(p, c) => r matches Ok(plan) && plan.path@ == p && opt_view(
                    plan.content,
                ) == c,
            },
    {
        let contents: String = match &self.content {
            Some(c) => c.clone(),
            None => match body {
                Some(b) => b.clone(),
                None => {
                    let mut m = "Template ".to_owned();
                    m.append(self.id.as_str());
                    m.append(" not found");
                    return Err(NoteError::NotFound(m));
                },
            },
        };
        let injected = Template::inject_variables(&contents, name, date, path);
        let effective: &String = match dir_expanded {
            Some(d) => d,
            None => path,
        };
        if !dir_exists {
            let mut m = "Target dir ".to_owned();
            m.append(effective.as_str());
            m.append(" not found");
            return Err(NoteError::NotFound(m));
        }
        let joined = join_path(effective, name);
        let target = force_md_extension(&joined);
        if target_exists && !overwrite {
            Ok(CreatePlan { path: target, content: None })
        } else {
            Ok(CreatePlan { path: target, content: Some(injected) })
        }
    }
}

} // verus!
