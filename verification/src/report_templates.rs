//! Report templates: Handlebars templates, the variables they are rendered
//! with, and an engine that keeps templates by name.

use vstd::prelude::*;
use crate::environment::{param_json, param_json_text, ParamValue};
use crate::kv::StrMap;
use crate::model::TestHarnessError;
use crate::registry::Registry;

verus! {

/// Whether `handlebars` accepts a template of this name and text: its
/// parse error's message when it does not.
pub uninterp spec fn handlebars_registered(name: Seq<char>, template: Seq<char>) -> Result<(), Seq<char>>;

/// What `handlebars` renders from a template of this name and text with
/// these variables, each a name and the JSON text of its value, or the
/// message of the first error: `serde_json`'s on a text that is not JSON,
/// else that of the registration or of the rendering.
pub uninterp spec fn handlebars_rendered(
    name: Seq<char>,
    template: Seq<char>,
    data: Seq<(Seq<char>, Seq<char>)>,
) -> Result<Seq<char>, Seq<char>>;

/// Each pair of texts by the characters it holds.
pub open spec fn pair_views(pairs: Seq<(String, String)>) -> Seq<(Seq<char>, Seq<char>)> {
    pairs.map_values(|p: (String, String)| (p.0@, p.1@))
}

/// Registers `template` under `name` with a new `handlebars::Handlebars`
/// (`register_template_string`), giving the error's message (`to_string`)
/// when it does not parse. The result is a function of the name and text.
#[verifier::external_body]
fn handlebars_register(name: &str, template: &str) -> (r: Result<(), String>)
    ensures
        match r {
            Ok(()) => handlebars_registered(name@, template@) == Ok::<(), Seq<char>>(()),
            Err(e) => handlebars_registered(name@, template@) == Err::<(), Seq<char>>(e@),
        },
{
    let mut h = handlebars::Handlebars::new();
    h.register_template_string(name, template).map_err(|e| e.to_string())
}

/// Reads each variable's text with `serde_json::from_str` into a
/// `serde_json::Value` and puts it under its name in a `serde_json::Map`;
/// registers `template` under `name` with a new `handlebars::Handlebars`
/// and renders it (`Handlebars::render`) with that map. Gives the message
/// (`to_string`) of the first error of `serde_json`, of the registration or
/// of the rendering. The result is a function of the name, the text and the
/// variables.
#[verifier::external_body]
fn handlebars_render(name: &str, template: &str, data: &Vec<(String, String)>) -> (r: Result<String, String>)
    ensures
        match r {
            Ok(s) => handlebars_rendered(name@, template@, pair_views(data@)) == Ok::<Seq<char>, Seq<char>>(s@),
            Err(e) => handlebars_rendered(name@, template@, pair_views(data@)) == Err::<Seq<char>, Seq<char>>(e@),
        },
{
    let mut m = serde_json::Map::new();
    for (k, v) in data {
        m.insert(k.clone(), serde_json::from_str(v).map_err(|e: serde_json::Error| e.to_string())?);
    }
    let mut h = handlebars::Handlebars::new();
    h.register_template_string(name, template).map_err(|e| e.to_string())?;
    h.render(name, &m).map_err(|e| e.to_string())
}

/// The variables of a map as pairs, in the map's order of entries.
fn variable_pairs(vars: &StrMap) -> (r: Vec<(String, String)>)
    ensures
        pair_views(r@) == pair_views(vars.entry_seq()),
{
    let n = vars.len();
    let mut r: Vec<(String, String)> = Vec::new();
    let mut i: usize = 0;
    while i < n
        invariant
            i <= n,
            n == vars.entry_seq().len(),
            r.len() == i,
            forall|j: int| 0 <= j < i ==> (#[trigger] r@[j]).0@ == vars.entry_seq()[j].0@ && r@[j].1@ == vars.entry_seq()[j].1@,
        decreases n - i,
    {
        let (k, v) = vars.entry(i);
        r.push((k.clone(), v.clone()));
        i += 1;
    }
    assert(pair_views(r@) =~= pair_views(vars.entry_seq()));
    r
}

/// The variables a template is rendered with, each by the JSON text of its
/// value.
#[derive(Debug)]
pub struct TemplateContext {
    pub variables: StrMap,
}

impl TemplateContext {
    /// No variables.
    pub fn new() -> (c: TemplateContext)
        ensures
            c.variables@ == Map::<Seq<char>, Seq<char>>::empty(),
    {
        TemplateContext { variables: StrMap::new() }
    }

    /// Sets a variable. A value of the library's parameter type always has
    /// a JSON text, so this succeeds.
    pub fn set(&mut self, name: &str, value: ParamValue) -> (r: Result<(), TestHarnessError>)
        ensures
            r is Ok,
            final(self).variables@ == old(self).variables@.insert(name@, param_json(value)),
    {
        let text = param_json_text(&value);
        self.variables.insert(name.to_owned(), text);
        Ok(())
    }

    /// The JSON text of a variable.
    pub fn get(&self, name: &str) -> (r: Option<&String>)
        ensures
            match r {
                Some(v) => self.variables@.contains_key(name@) && self.variables@[name@] == v@,
                None => !self.variables@.contains_key(name@),
            },
    {
        self.variables.get(name)
    }

    /// Removes a variable, giving back the JSON text of its value.
    pub fn remove(&mut self, name: &str) -> (r: Option<String>)
        ensures
            final(self).variables@ == old(self).variables@.remove(name@),
            match r {
                Some(v) => old(self).variables@.contains_key(name@) && old(self).variables@[name@] == v@,
                None => !old(self).variables@.contains_key(name@),
            },
    {
        let r = match self.variables.get(name) {
            Some(v) => Some(v.clone()),
            None => None,
        };
        self.variables.remove(name);
        r
    }

    /// Removes every variable.
    pub fn clear(&mut self)
        ensures
            final(self).variables@ == Map::<Seq<char>, Seq<char>>::empty(),
    {
        self.variables = StrMap::new();
    }
}

impl Default for TemplateContext {
    /// No variables.
    fn default() -> (c: Self)
        ensures
            c.variables@ == Map::<Seq<char>, Seq<char>>::empty(),
    {
        TemplateContext::new()
    }
}

/// A Handlebars template that parsed.
#[derive(Debug)]
pub struct HandlebarsTemplate {
    name: String,
    content: String,
}

impl HandlebarsTemplate {
    /// The template's name.
    pub closed spec fn name_text(&self) -> Seq<char> {
        self.name@
    }

    /// The template's text.
    pub closed spec fn content_text(&self) -> Seq<char> {
        self.content@
    }

    /// A template of this name and text, when `handlebars` parses it; else
    /// a reporting error `Failed to register template: ` and the parse
    /// error's message.
    pub fn new(name: String, content: String) -> (r: Result<HandlebarsTemplate, TestHarnessError>)
        ensures
            match handlebars_registered(name@, content@) {
                Ok(()) => r matches Ok(t) && t.name_text() == name@ && t.content_text() == content@,
                Err(m) => r matches Err(TestHarnessError::ReportingError(x)) && x@ == "Failed to register template: "@ + m,
            },
    {
        match handlebars_register(name.as_str(), content.as_str()) {
            Ok(()) => Ok(HandlebarsTemplate { name, content }),
            Err(e) => {
                let mut m = "Failed to register template: ".to_owned();
                m.append(e.as_str());
                Err(TestHarnessError::ReportingError(m))
            },
        }
    }

    /// The template's name.
    pub fn name(&self) -> (n: &str)
        ensures
            n@ == self.name_text(),
    {
        self.name.as_str()
    }

    /// The template rendered with the context's variables, in the order of
    /// their entries; a reporting
    /// error `Failed to render template: ` and the message when rendering
    /// fails.
    pub fn render(&self, context: &TemplateContext) -> (r: Result<String, TestHarnessError>)
        ensures
            match handlebars_rendered(self.name_text(), self.content_text(), pair_views(context.variables.entry_seq())) {
                Ok(s) => r matches Ok(x) && x@ == s,
                Err(m) => r matches Err(TestHarnessError::ReportingError(x)) && x@ == "Failed to render template: "@ + m,
            },
    {
        let data = variable_pairs(&context.variables);
        match handlebars_render(self.name.as_str(), self.content.as_str(), &data) {
            Ok(s) => Ok(s),
            Err(e) => {
                let mut m = "Failed to render template: ".to_owned();
                m.append(e.as_str());
                Err(TestHarnessError::ReportingError(m))
            },
        }
    }
}

/// Handlebars templates by name.
pub struct HandlebarsTemplateEngine {
    templates: Registry<HandlebarsTemplate>,
}

impl View for HandlebarsTemplateEngine {
    type V = Map<Seq<char>, HandlebarsTemplate>;

    closed spec fn view(&self) -> Map<Seq<char>, HandlebarsTemplate> {
        self.templates@
    }
}

impl HandlebarsTemplateEngine {
    /// No templates.
    pub fn new() -> (e: HandlebarsTemplateEngine)
        ensures
            e@ == Map::<Seq<char>, HandlebarsTemplate>::empty(),
    {
        HandlebarsTemplateEngine { templates: Registry::new() }
    }

    /// Keeps a template under its name; a name already taken is a
    /// reporting error `Template already exists: ` and the name, and
    /// leaves the engine as it was.
    pub fn register_template(&mut self, template: HandlebarsTemplate) -> (r: Result<(), TestHarnessError>)
        ensures
            old(self)@.contains_key(template.name_text()) ==> (r matches Err(TestHarnessError::ReportingError(m)) && m@
                == "Template already exists: "@ + template.name_text() && final(self)@ == old(self)@),
            !old(self)@.contains_key(template.name_text()) ==> (r is Ok && final(self)@ == old(self)@.insert(
                template.name_text(),
                template,
            )),
    {
        let name = template.name.clone();
        if self.templates.contains(name.as_str()) {
            let mut m = "Template already exists: ".to_owned();
            m.append(name.as_str());
            return Err(TestHarnessError::ReportingError(m));
        }
        self.templates.insert_new(name, template);
        Ok(())
    }

    /// The template of this name.
    pub fn get_template(&self, name: &str) -> (r: Option<&HandlebarsTemplate>)
        ensures
            match r {
                Some(t) => self@.contains_key(name@) && *t == self@[name@],
                None => !self@.contains_key(name@),
            },
    {
        self.templates.get(name)
    }

    /// Is a template of this name kept?
    pub fn has_template(&self, name: &str) -> (b: bool)
        ensures
            b == self@.contains_key(name@),
    {
        self.templates.contains(name)
    }

    /// Removes the template of this name; an unknown name is a reporting
    /// error `Template not found: ` and the name, and leaves the engine as
    /// it was.
    pub fn remove_template(&mut self, name: &str) -> (r: Result<(), TestHarnessError>)
        ensures
            !old(self)@.contains_key(name@) ==> (r matches Err(TestHarnessError::ReportingError(m)) && m@
                == "Template not found: "@ + name@ && final(self)@ == old(self)@),
            old(self)@.contains_key(name@) ==> (r is Ok && final(self)@ == old(self)@.remove(name@)),
    {
        if !self.templates.contains(name) {
            let mut m = "Template not found: ".to_owned();
            m.append(name);
            return Err(TestHarnessError::ReportingError(m));
        }
        self.templates.remove(name);
        Ok(())
    }

    /// Renders the template of this name with the context's variables; an
    /// unknown name is a reporting error `Template not found: ` and the
    /// name.
    pub fn render(&self, template_name: &str, context: &TemplateContext) -> (r: Result<String, TestHarnessError>)
        ensures
            !self@.contains_key(template_name@) ==> (r matches Err(TestHarnessError::ReportingError(m)) && m@
                == "Template not found: "@ + template_name@),
            self@.contains_key(template_name@) ==> match handlebars_rendered(
                self@[template_name@].name_text(),
                self@[template_name@].content_text(),
                pair_views(context.variables.entry_seq()),
            ) {
                Ok(s) => r matches Ok(x) && x@ == s,
                Err(m) => r matches Err(TestHarnessError::ReportingError(x)) && x@ == "Failed to render template: "@ + m,
            },
    {
        match self.templates.get(template_name) {
            Some(t) => t.render(context),
            None => {
                let mut m = "Template not found: ".to_owned();
                m.append(template_name);
                Err(TestHarnessError::ReportingError(m))
            },
        }
    }
}

impl Default for HandlebarsTemplateEngine {
    /// No templates.
    fn default() -> (e: Self)
        ensures
            e@ == Map::<Seq<char>, HandlebarsTemplate>::empty(),
    {
        HandlebarsTemplateEngine::new()
    }
}

} // verus!
