//! Resolving an action into what must happen: a render job, a tracker
//! registration, or a listing. Resolution is pure; carrying the resolution
//! out (running a name-generating command, reading and writing files,
//! opening the editor) is the caller's business.

use vstd::prelude::*;
use crate::config::{first_match, Action, Data, Named, Template, TemplateName};
use crate::errors::NoteError;
use crate::paths::{force_md_extension, join_path, spec_force_md, spec_join_path};

verus! {

/// How the note's name is to be found: given outright, taken from the
/// template's literal, or read from the output of an external command.
#[derive(Debug)]
pub enum NamePlan {
    Given(String),
    FromText(String),
    FromCommand(String, Vec<String>),
}

/// One render to carry out: the template to render, how to name the note,
/// the directory the invocation runs in, and whether an existing note is to
/// be overwritten.
#[derive(Debug)]
pub struct RenderJob {
    pub template: Template,
    pub name_plan: NamePlan,
    pub inject_path: String,
    pub overwrite: bool,
}

/// What a resolved action asks for.
#[derive(Debug)]
pub enum Resolution {
    Render(RenderJob),
    AddPath(String),
    ListEntries,
}

/// The job `j` renders template `t` at `path` with the name taken as the
/// `Named` resolution demands: the explicit name when one was given, else
/// the template's own name source.
pub open spec fn render_ensures(
    t: Template,
    given: Option<Seq<char>>,
    path: Seq<char>,
    ow: bool,
    r: Result<Resolution, NoteError>,
) -> bool {
    match given {
        Option::Some(n) => {
            &&& r matches Ok(res)
            &&& res matches Resolution::Render(j)
            &&& j.template.like(t)
            &&& j.name_plan matches NamePlan::Given(g)
            &&& g@ == n
            &&& j.inject_path@ == path
            &&& j.overwrite == ow
        },
        Option::None => match t.name {
            Option::None => r matches Err(e) && e is NotFound,
            Option::Some(TemplateName::Text(s)) => {
                &&& r matches Ok(res)
                &&& res matches Resolution::Render(j)
                &&& j.template.like(t)
                &&& j.name_plan matches NamePlan::FromText(x)
                &&& x == s
                &&& j.inject_path@ == path
                &&& j.overwrite == ow
            },
            Option::Some(TemplateName::Exec(c)) => {
                &&& r matches Ok(res)
                &&& res matches Resolution::Render(j)
                &&& j.template.like(t)
                &&& j.name_plan matches NamePlan::FromCommand(run, args)
                &&& run == c.run
                &&& args@ == c.args@
                &&& j.inject_path@ == path
                &&& j.overwrite == ow
            },
        },
    }
}

/// Looking up `id` among the templates either fails for want of a match, or
/// renders the first template carrying it.
pub open spec fn lookup_render_ensures(
    data: &Data,
    id: Seq<char>,
    given: Option<Seq<char>>,
    path: Seq<char>,
    ow: bool,
    r: Result<Resolution, NoteError>,
) -> bool {
    &&& ((forall|k: int| 0 <= k < data.templates@.len() ==> data.templates@[k].id@ != id) ==> (
    r matches Err(e) && e is NotFound))
    &&& (forall|i: int| #[trigger]
        first_match(data.templates@, id, i) ==> render_ensures(
            data.templates@[i],
            given,
            path,
            ow,
            r,
        ))
}

/// The `Named` resolution table: `Default` and `Name` go to the template with
/// id `default`, the template shapes to the named template; every render is
/// handed the invocation's directory.
pub open spec fn handle_ensures(
    data: &Data,
    named: Named,
    pwd: Seq<char>,
    ow: bool,
    r: Result<Resolution, NoteError>,
) -> bool {
    match named {
        Named::Default => lookup_render_ensures(data, "default"@, Option::None, pwd, ow, r),
        Named::Name(n) => match n {
            Option::Some(nn) => lookup_render_ensures(
                data,
                "default"@,
                Option::Some(nn@),
                pwd,
                ow,
                r,
            ),
            Option::None => true,
        },
        Named::Template(t) => match t {
            Option::Some(tt) => lookup_render_ensures(data, tt@, Option::None, pwd, ow, r),
            Option::None => true,
        },
        Named::TemplateWithName(t, n) => match (t, n) {
            (Option::Some(tt), Option::Some(nn)) => lookup_render_ensures(
                data,
                tt@,
                Option::Some(nn@),
                pwd,
                ow,
                r,
            ),
            _ => true,
        },
    }
}

/// At most one index is the first match for `id`.
proof fn lemma_first_match_unique(ts: Seq<Template>, id: Seq<char>, i: int, j: int)
    requires
        first_match(ts, id, i),
        first_match(ts, id, j),
    ensures
        i == j,
{
    if i < j {
        assert(ts[i].id@ != id);
    }
    if j < i {
        assert(ts[j].id@ != id);
    }
}

impl Action {
    /// Maps a subcommand tag and the disambiguated inputs onto one action:
    /// `new`, `add` and `list` pick their actions, and any other invocation
    /// falls through to the bare default action.
    pub fn resolve(subcommand: &Option<String>, named: Named) -> (r: Action)
        ensures
            match subcommand {
                Option::Some(tag) => {
                    &&& tag@ == "new"@ ==> r == Action::New(named)
                    &&& tag@ == "add"@ ==> r == Action::Add(named)
                    &&& tag@ == "list"@ ==> r == Action::List
                    &&& (tag@ != "new"@ && tag@ != "add"@ && tag@ != "list"@) ==> r
                        == Action::Default(named)
                },
                Option::None => r == Action::Default(named),
            },
    {
        proof {
            reveal_strlit("new");
            reveal_strlit("add");
            reveal_strlit("list");
            assert("new"@[0] == 'n');
            assert("add"@[0] == 'a');
            assert("list"@[0] == 'l');
            assert("new"@ != "add"@);
            assert("new"@ != "list"@);
            assert("add"@ != "list"@);
        }
        match subcommand {
            Some(tag) => {
                if *tag == "new".to_owned() {
                    Action::New(named)
                } else if *tag == "add".to_owned() {
                    Action::Add(named)
                } else if *tag == "list".to_owned() {
                    Action::List
                } else {
                    Action::Default(named)
                }
            },
            None => Action::Default(named),
        }
    }

    /// Resolves one invocation: `Default` and `New` render through the
    /// `Named` table (without and with overwrite), `Add` registers the named
    /// file under the invocation's directory, and `List` lists the record.
    /// `Add` demands an explicit name and touches nothing when it is absent.
    pub fn act(data: &Data, action: Action, pwd: &String) -> (r: Result<Resolution, NoteError>)
        requires
            match action {
                Action::Default(n) => n.wf(),
                Action::New(n) => n.wf(),
                _ => true,
            },
        ensures
            match action {
                Action::Default(n) => handle_ensures(data, n, pwd@, false, r),
                Action::New(n) => handle_ensures(data, n, pwd@, true, r),
                Action::Add(n) => match n {
                    Named::Name(Option::Some(nn)) => {
                        &&& r matches Ok(res)
                        &&& res matches Resolution::AddPath(p)
                        &&& p@ == spec_force_md(spec_join_path(pwd@, nn@))
                    },
                    _ => {
                        &&& r matches Err(e)
                        &&& e matches NoteError::InvalidInput(m)
                        &&& m@ == "Name must be set for add command"@
                    },
                },
                Action::List => r matches Ok(res) && res is ListEntries,
            },
    {
        match action {
            Action::Default(named) => Action::handle_named(named, data, pwd, false),
            Action::New(named) => Action::handle_named(named, data, pwd, true),
            Action::Add(named) => match named {
                Named::Name(Some(n)) => {
                    let joined = join_path(pwd, &n);
                    Ok(Resolution::AddPath(force_md_extension(&joined)))
                },
                _ => Err(
                    NoteError::InvalidInput("Name must be set for add command".to_owned()),
                ),
            },
            Action::List => Ok(Resolution::ListEntries),
        }
    }

    /// The `Named` table itself: pick the template, then shape the render.
    fn handle_named(named: Named, data: &Data, pwd: &String, overwrite: bool) -> (r: Result<
        Resolution,
        NoteError,
    >)
        requires
            named.wf(),
        ensures
            handle_ensures(data, named, pwd@, overwrite, r),
    {
        match named {
            Named::Default => match data.get_default_template() {
                Some(t) => {
                    let r = Action::render_resolution(t, None, pwd.clone(), overwrite);
                    proof {
                        lemma_lookup_step(data, "default"@, Option::None, pwd@, overwrite, r, *t);
                    }
                    r
                },
                None => Err(NoteError::NotFound("No default template found".to_owned())),
            },
            Named::Name(Some(n)) => match data.get_default_template() {
                Some(t) => {
                    let r = Action::render_resolution(t, Some(n), pwd.clone(), overwrite);
                    proof {
                        lemma_lookup_step(
                            data,
                            "default"@,
                            Option::Some(n@),
                            pwd@,
                            overwrite,
                            r,
                            *t,
                        );
                    }
                    r
                },
                None => Err(NoteError::NotFound("No default template found".to_owned())),
            },
            Named::Template(Some(tname)) => match data.get_template(&tname) {
                Some(t) => {
                    let r = Action::render_resolution(t, None, pwd.clone(), overwrite);
                    proof {
                        lemma_lookup_step(data, tname@, Option::None, pwd@, overwrite, r, *t);
                    }
                    r
                },
                None => Err(NoteError::NotFound(Action::no_template_message(&tname))),
            },
            Named::TemplateWithName(Some(tname), Some(n)) => match data.get_template(&tname) {
                Some(t) => {
                    let r = Action::render_resolution(t, Some(n), pwd.clone(), overwrite);
                    proof {
                        lemma_lookup_step(data, tname@, Option::Some(n@), pwd@, overwrite, r, *t);
                    }
                    r
                },
                None => Err(NoteError::NotFound(Action::no_template_message(&tname))),
            },
            _ => Err(NoteError::InvalidInput("Name must be set".to_owned())),
        }
    }

    /// The failure text for a named template that no configuration entry
    /// carries.
    fn no_template_message(tname: &String) -> (r: String)
        ensures
            r@ == "No template named "@ + tname@ + " found"@,
    {
        let mut m = "No template named ".to_owned();
        m.append(tname.as_str());
        m.append(" found");
        m
    }

    /// Shapes one render of `t`: an explicit name is taken as given; else the
    /// template's name source decides, and its absence is the failure of the
    /// default-name path.
    fn render_resolution(t: &Template, given: Option<String>, inject_path: String, ow: bool) -> (r:
        Result<Resolution, NoteError>)
        ensures
            render_ensures(
                *t,
                match given {
                    Option::Some(g) => Option::Some(g@),
                    Option::None => Option::None,
                },
                inject_path@,
                ow,
                r,
            ),
    {
        match given {
            Some(g) => Ok(
                Resolution::Render(
                    RenderJob {
                        template: t.duplicate(),
                        name_plan: NamePlan::Given(g),
                        inject_path,
                        overwrite: ow,
                    },
                ),
            ),
            None => match &t.name {
                None => {
                    let mut m = "Template id ".to_owned();
                    m.append(t.id.as_str());
                    m.append(" does not create a name, and therefore a name is needed");
                    Err(NoteError::NotFound(m))
                },
                Some(TemplateName::Text(text)) => Ok(
                    Resolution::Render(
                        RenderJob {
                            template: t.duplicate(),
                            name_plan: NamePlan::FromText(text.clone()),
                            inject_path,
                            overwrite: ow,
                        },
                    ),
                ),
                Some(TemplateName::Exec(c)) => Ok(
                    Resolution::Render(
                        RenderJob {
                            template: t.duplicate(),
                            name_plan: NamePlan::FromCommand(
                                c.run.clone(),
                                crate::text::clone_strings(&c.args),
                            ),
                            inject_path,
                            overwrite: ow,
                        },
                    ),
                ),
            },
        }
    }
}

/// From a successful lookup of `id` and a render of the found template, the
/// whole lookup-then-render contract follows.
proof fn lemma_lookup_step(
    data: &Data,
    id: Seq<char>,
    given: Option<Seq<char>>,
    path: Seq<char>,
    ow: bool,
    r: Result<Resolution, NoteError>,
    t: Template,
)
    requires
        exists|i: int| #[trigger] first_match(data.templates@, id, i) && t == data.templates@[i],
        render_ensures(t, given, path, ow, r),
    ensures
        lookup_render_ensures(data, id, given, path, ow, r),
{
    let w = choose|w: int| #[trigger] first_match(data.templates@, id, w) && t
        == data.templates@[w];
    assert forall|i: int| #[trigger] first_match(data.templates@, id, i) implies render_ensures(
        data.templates@[i],
        given,
        path,
        ow,
        r,
    ) by {
        lemma_first_match_unique(data.templates@, id, i, w);
    }
    assert(data.templates@[w].id@ == id);
}

} // verus!
