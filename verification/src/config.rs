//! Core data model: the parsed configuration, templates, the disambiguated
//! `Named` input, and the four actions.

use vstd::prelude::*;
use vstd::string::*;
use crate::paths::{join_path, spec_join_path};
use crate::sys;

verus! {

/// The configuration record proper: where the tracker's record file lives.
#[derive(Debug)]
pub struct Config {
    pub data: String,
}

/// An external command that produces a note name on its standard output.
#[derive(Debug)]
pub struct ExecCommand {
    pub run: String,
    pub args: Vec<String>,
}

impl ExecCommand {
    /// A copy of this command, field by field.
    pub fn duplicate(&self) -> (r: ExecCommand)
        ensures
            r.run == self.run,
            r.args@ == self.args@,
    {
        ExecCommand { run: self.run.clone(), args: crate::text::clone_strings(&self.args) }
    }
}

/// How a template derives a note name when none is given: a literal, or the
/// output of an external command.
#[derive(Debug)]
pub enum TemplateName {
    Text(String),
    Exec(ExecCommand),
}

/// One reusable note template.
#[derive(Debug)]
pub struct Template {
    pub id: String,
    pub dir: Option<String>,
    pub content: Option<String>,
    pub name: Option<TemplateName>,
}

/// The whole parsed configuration: the record-file location and the ordered
/// templates.
#[derive(Debug)]
pub struct Data {
    pub config: Config,
    pub templates: Vec<Template>,
}

/// `i` is the position of the first template in `ts` whose id is `id`.
pub open spec fn first_match(ts: Seq<Template>, id: Seq<char>, i: int) -> bool {
    &&& 0 <= i < ts.len()
    &&& ts[i].id@ == id
    &&& forall|k: int| 0 <= k < i ==> ts[k].id@ != id
}

impl Data {
    /// The first template whose id is `templ`, if any.
    pub fn get_template(&self, templ: &String) -> (r: Option<&Template>)
        ensures
            match r {
                Some(t) => exists|i: int|
                    #[trigger] first_match(self.templates@, templ@, i) && *t
                        == self.templates@[i],
                None => forall|k: int|
                    0 <= k < self.templates@.len() ==> self.templates@[k].id@ != templ@,
            },
    {
        let mut i: usize = 0;
        while i < self.templates.len()
            invariant
                i <= self.templates@.len(),
                forall|k: int| 0 <= k < i ==> self.templates@[k].id@ != templ@,
            decreases self.templates@.len() - i,
        {
            if self.templates[i].id == *templ {
                proof {
                    assert(first_match(self.templates@, templ@, i as int));
                }
                return Some(&self.templates[i]);
            }
            i += 1;
        }
        None
    }

    /// The first template whose id is `default`, if any.
    pub fn get_default_template(&self) -> (r: Option<&Template>)
        ensures
            match r {
                Some(t) => exists|i: int|
                    #[trigger] first_match(self.templates@, "default"@, i) && *t
                        == self.templates@[i],
                None => forall|k: int|
                    0 <= k < self.templates@.len() ==> self.templates@[k].id@ != "default"@,
            },
    {
        let key: String = "default".to_owned();
        self.get_template(&key)
    }

    /// Whether a template body file named after `tmpl` is present in the
    /// application's configuration directory. The answer depends on the
    /// filesystem, so nothing is promised of it.
    pub fn template_file_exists(tmpl: &String) -> bool {
        match Template::config_dir() {
            Some(dir) => sys::path_is_present(&Template::get_path(tmpl, &dir)),
            None => false,
        }
    }
}

impl Template {
    /// The application's own configuration directory: the platform's
    /// configuration base with the application's name joined on, or nothing
    /// when the platform defines no base at all.
    pub fn config_dir() -> (r: Option<String>)
        ensures
            match r {
                Some(s) => exists|b: Seq<char>| s@ == spec_join_path(b, "mdb"@),
                None => true,
            },
    {
        match sys::config_base_dir() {
            Some(base) => {
                let joined = join_path(&base, &"mdb".to_owned());
                proof {
                    assert(joined@ == spec_join_path(base@, "mdb"@));
                }
                Some(joined)
            },
            None => None,
        }
    }

    /// Where the body file of the template named `tmpl` lives under
    /// `config_dir`.
    pub fn get_path(tmpl: &String, config_dir: &String) -> (r: String)
        ensures
            r@ == spec_join_path(config_dir@, tmpl@ + ".md"@),
    {
        let mut file = tmpl.clone();
        file.append(".md");
        join_path(config_dir, &file)
    }

    /// The template's target directory with a leading `~` expanded, or
    /// nothing when the template sets no directory of its own.
    pub fn expanded_dir(&self) -> (r: Option<String>)
        ensures
            r is Some <==> self.dir is Some,
            match (&self.dir, &r) {
                (Some(d), Some(e)) => (d@.len() == 0 || d@[0] != '~') ==> e@ == d@,
                _ => true,
            },
    {
        match &self.dir {
            Some(d) => Some(sys::expand_user_path(d)),
            None => None,
        }
    }

    /// Name sources `a` and `b` hold the same data.
    pub open spec fn name_like(a: Option<TemplateName>, b: Option<TemplateName>) -> bool {
        match (a, b) {
            (Option::None, Option::None) => true,
            (Option::Some(TemplateName::Text(x)), Option::Some(TemplateName::Text(y))) => x == y,
            (Option::Some(TemplateName::Exec(c)), Option::Some(TemplateName::Exec(d))) => c.run
                == d.run && c.args@ == d.args@,
            _ => false,
        }
    }

    /// `self` and `o` hold the same data, field by field.
    pub open spec fn like(self, o: Template) -> bool {
        &&& self.id == o.id
        &&& self.dir == o.dir
        &&& self.content == o.content
        &&& Template::name_like(self.name, o.name)
    }

    /// A copy of this template, field by field.
    pub fn duplicate(&self) -> (r: Template)
        ensures
            r.like(*self),
    {
        let dir: Option<String> = match &self.dir {
            Some(d) => Some(d.clone()),
            None => None,
        };
        let content: Option<String> = match &self.content {
            Some(c) => Some(c.clone()),
            None => None,
        };
        let name: Option<TemplateName> = match &self.name {
            Some(TemplateName::Text(t)) => Some(TemplateName::Text(t.clone())),
            Some(TemplateName::Exec(c)) => Some(TemplateName::Exec(c.duplicate())),
            None => None,
        };
        Template { id: self.id.clone(), dir, content, name }
    }
}

/// The two optional CLI-level inputs (an explicit template id and an explicit
/// note name), disambiguated into exactly one of four shapes.
#[derive(Debug, PartialEq)]
pub enum Named {
    Default,
    Name(Option<String>),
    Template(Option<String>),
    TemplateWithName(Option<String>, Option<String>),
}

impl Named {
    /// Builds a `Named` from the two optional raw inputs: both present gives
    /// `TemplateWithName`, only a name gives `Name`, only a template gives
    /// `Template`, neither gives `Default`.
    pub fn from_template_and_name(template: Option<String>, name: Option<String>) -> (r: Named)
        ensures
            template is Some && name is Some ==> r == Named::TemplateWithName(template, name),
            template is None && name is Some ==> r == Named::Name(name),
            template is Some && name is None ==> r == Named::Template(template),
            template is None && name is None ==> r == Named::Default,
    {
        if name.is_some() && template.is_some() {
            Named::TemplateWithName(template, name)
        } else if name.is_some() {
            Named::Name(name)
        } else if template.is_some() {
            Named::Template(template)
        } else {
            Named::Default
        }
    }

    /// The optional payloads of a `Named` are present: the shapes that
    /// `from_template_and_name` actually builds.
    pub open spec fn wf(self) -> bool {
        match self {
            Named::Default => true,
            Named::Name(n) => n is Some,
            Named::Template(t) => t is Some,
            Named::TemplateWithName(t, n) => t is Some && n is Some,
        }
    }
}

/// The resolved high-level operation for one invocation.
#[derive(Debug)]
pub enum Action {
    Default(Named),
    New(Named),
    Add(Named),
    List,
}

} // verus!
