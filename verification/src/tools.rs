//! Tool definitions and the template substitution their handlers use.
use vstd::prelude::*;

use crate::json::{
    entries_view, json_array, json_array_value, json_node, json_object, json_object_value, json_shape, json_str, json_string,
    json_string_value, json_text, json_to_text, Json, JsonNode, JsonShape,
};
use crate::text::{
    append_chars, chars_of, concat_chars, contains, contains_exec, find, lemma_find_from_result,
    replace_all, replace_all_exec, string_of,
};

verus! {

/// How a tool's result reaches the client.
pub enum ResponseMode {
    /// The result goes back to the model, which answers in text.
    Llm,
    /// The result is streamed to the client as is.
    Direct,
}

impl Clone for ResponseMode {
    fn clone(&self) -> (r: Self)
        ensures
            r == *self,
    {
        match self {
            ResponseMode::Llm => ResponseMode::Llm,
            ResponseMode::Direct => ResponseMode::Direct,
        }
    }
}

/// The response mode after a successful and after a failed execution.
pub struct ResponseConfig {
    pub on_success: ResponseMode,
    pub on_error: ResponseMode,
}

impl Clone for ResponseConfig {
    fn clone(&self) -> (r: Self)
        ensures
            r == *self,
    {
        ResponseConfig { on_success: self.on_success.clone(), on_error: self.on_error.clone() }
    }
}

impl Default for ResponseConfig {
    fn default() -> (r: Self)
        ensures
            r.on_success == ResponseMode::Llm,
            r.on_error == ResponseMode::Llm,
    {
        ResponseConfig { on_success: ResponseMode::Llm, on_error: ResponseMode::Llm }
    }
}

/// How a tool is carried out.
pub enum ToolHandler {
    Http { method: String, url: String, headers: Vec<(String, String)>, body: Option<String> },
    Mqtt {
        broker: String,
        command_topic: String,
        payload: String,
        response_topic: Option<String>,
        timeout_ms: u64,
    },
    Builtin { name: String },
}

/// What a handler says, over character sequences.
pub ghost enum HandlerSpec {
    Http {
        method: Seq<char>,
        url: Seq<char>,
        headers: Seq<(Seq<char>, Seq<char>)>,
        body: Option<Seq<char>>,
    },
    Mqtt {
        broker: Seq<char>,
        command_topic: Seq<char>,
        payload: Seq<char>,
        response_topic: Option<Seq<char>>,
        timeout_ms: u64,
    },
    Builtin { name: Seq<char> },
}

pub open spec fn opt_view(s: Option<String>) -> Option<Seq<char>> {
    match s {
        Some(x) => Some(x@),
        None => None,
    }
}

pub open spec fn pairs_view(v: Seq<(String, String)>) -> Seq<(Seq<char>, Seq<char>)> {
    v.map_values(|p: (String, String)| (p.0@, p.1@))
}

impl View for ToolHandler {
    type V = HandlerSpec;

    open spec fn view(&self) -> HandlerSpec {
        match self {
            ToolHandler::Http { method, url, headers, body } => HandlerSpec::Http {
                method: method@,
                url: url@,
                headers: pairs_view(headers@),
                body: opt_view(*body),
            },
            ToolHandler::Mqtt { broker, command_topic, payload, response_topic, timeout_ms } =>
                HandlerSpec::Mqtt {
                broker: broker@,
                command_topic: command_topic@,
                payload: payload@,
                response_topic: opt_view(*response_topic),
                timeout_ms: *timeout_ms,
            },
            ToolHandler::Builtin { name } => HandlerSpec::Builtin { name: name@ },
        }
    }
}

/// A copy of a list of name/value pairs.
pub fn clone_pairs(v: &Vec<(String, String)>) -> (r: Vec<(String, String)>)
    ensures
        r@ == v@,
{
    let mut r: Vec<(String, String)> = Vec::new();
    let mut i: usize = 0;
    while i < v.len()
        invariant
            i <= v.len(),
            r@ == v@.take(i as int),
        decreases v.len() - i,
    {
        r.push((v[i].0.clone(), v[i].1.clone()));
        assert(v@.take(i + 1) =~= v@.take(i as int).push(v@[i as int]));
        i += 1;
    }
    assert(v@.take(v.len() as int) =~= v@);
    r
}

pub fn clone_opt_string(s: &Option<String>) -> (r: Option<String>)
    ensures
        r == *s,
{
    match s {
        Some(x) => Some(x.clone()),
        None => None,
    }
}

impl Clone for ToolHandler {
    fn clone(&self) -> (r: Self)
        ensures
            r@ == self@,
    {
        match self {
            ToolHandler::Http { method, url, headers, body } => ToolHandler::Http {
                method: method.clone(),
                url: url.clone(),
                headers: clone_pairs(headers),
                body: clone_opt_string(body),
            },
            ToolHandler::Mqtt { broker, command_topic, payload, response_topic, timeout_ms } =>
                ToolHandler::Mqtt {
                broker: broker.clone(),
                command_topic: command_topic.clone(),
                payload: payload.clone(),
                response_topic: clone_opt_string(response_topic),
                timeout_ms: *timeout_ms,
            },
            ToolHandler::Builtin { name } => ToolHandler::Builtin { name: name.clone() },
        }
    }
}

/// A tool the model may call.
pub struct ToolDefinition {
    pub name: String,
    pub description: String,
    /// JSON Schema object for the tool's parameters.
    pub parameters: Json,
    pub handler: ToolHandler,
    pub response: ResponseConfig,
    pub enabled: bool,
}

/// What a tool definition says, over character sequences.
pub ghost struct ToolSpec {
    pub name: Seq<char>,
    pub description: Seq<char>,
    pub parameters: Json,
    pub handler: HandlerSpec,
    pub response: ResponseConfig,
    pub enabled: bool,
}

impl View for ToolDefinition {
    type V = ToolSpec;

    open spec fn view(&self) -> ToolSpec {
        ToolSpec {
            name: self.name@,
            description: self.description@,
            parameters: self.parameters,
            handler: self.handler@,
            response: self.response,
            enabled: self.enabled,
        }
    }
}

impl Clone for ToolDefinition {
    fn clone(&self) -> (r: Self)
        ensures
            r@ == self@,
    {
        ToolDefinition {
            name: self.name.clone(),
            description: self.description.clone(),
            parameters: self.parameters.clone(),
            handler: self.handler.clone(),
            response: self.response.clone(),
            enabled: self.enabled,
        }
    }
}

/// Tools are enabled unless the definition says otherwise.
pub fn default_true() -> (b: bool)
    ensures
        b,
{
    true
}

/// MQTT response timeout when the definition gives none, in milliseconds.
pub fn default_timeout_ms() -> (t: u64)
    ensures
        t == 3000,
{
    3000
}

/// `{"type":"function","function":{"name":..,"description":..,"parameters":..}}`.
pub open spec fn function_declaration(tool: ToolSpec) -> Json {
    json_object_value(
        seq![
            ("type"@, json_string_value("function"@)),
            (
                "function"@,
                json_object_value(
                    seq![
                        ("name"@, json_string_value(tool.name)),
                        ("description"@, json_string_value(tool.description)),
                        ("parameters"@, tool.parameters),
                    ],
                ),
            ),
        ],
    )
}

impl ToolDefinition {
    /// This tool as an OpenAI-format function declaration.
    pub fn to_function_declaration(&self) -> (r: Json)
        ensures
            r == function_declaration(self@),
    {
        let mut inner: Vec<(String, Json)> = Vec::new();
        inner.push(("name".to_owned(), json_string(self.name.clone())));
        inner.push(("description".to_owned(), json_string(self.description.clone())));
        inner.push(("parameters".to_owned(), self.parameters.clone()));
        let function = json_object(inner);
        let mut outer: Vec<(String, Json)> = Vec::new();
        outer.push(("type".to_owned(), json_string("function".to_owned())));
        outer.push(("function".to_owned(), function));
        proof {
            assert(entries_view(inner@) =~= seq![
                ("name"@, json_string_value(self.name@)),
                ("description"@, json_string_value(self.description@)),
                ("parameters"@, self.parameters),
            ]);
        }
        let r = json_object(outer);
        proof {
            assert(entries_view(outer@) =~= seq![
                ("type"@, json_string_value("function"@)),
                ("function"@, json_object_value(entries_view(inner@))),
            ]);
        }
        r
    }
}

/// The built-in tool that tells the current date and time.
pub open spec fn datetime_tool_spec() -> ToolSpec {
    ToolSpec {
        name: "get_datetime"@,
        description: "Get the current local date and time"@,
        parameters: json_object_value(
            seq![
                ("type"@, json_string_value("object"@)),
                ("properties"@, json_object_value(Seq::empty())),
            ],
        ),
        handler: HandlerSpec::Builtin { name: "datetime"@ },
        response: ResponseConfig { on_success: ResponseMode::Llm, on_error: ResponseMode::Llm },
        enabled: true,
    }
}

/// The built-in tool that tells the current date and time.
pub fn datetime_tool() -> (r: ToolDefinition)
    ensures
        r@ == datetime_tool_spec(),
{
    let no_props: Vec<(String, Json)> = Vec::new();
    let props = json_object(no_props);
    let mut es: Vec<(String, Json)> = Vec::new();
    es.push(("type".to_owned(), json_string("object".to_owned())));
    es.push(("properties".to_owned(), props));
    proof {
        assert(entries_view(no_props@) =~= Seq::<(Seq<char>, Json)>::empty());
        assert(entries_view(es@) =~= seq![
            ("type"@, json_string_value("object"@)),
            ("properties"@, json_object_value(Seq::empty())),
        ]);
    }
    let parameters = json_object(es);
    ToolDefinition {
        name: "get_datetime".to_owned(),
        description: "Get the current local date and time".to_owned(),
        parameters,
        handler: ToolHandler::Builtin { name: "datetime".to_owned() },
        response: ResponseConfig::default(),
        enabled: true,
    }
}

/// The built-in tool through which the model stores a fact in long-term
/// memory.
pub open spec fn remember_tool_spec() -> ToolSpec {
    ToolSpec {
        name: "remember"@,
        description: "Store a fact worth remembering in later conversations"@,
        parameters: json_object_value(
            seq![
                ("type"@, json_string_value("object"@)),
                (
                    "properties"@,
                    json_object_value(
                        seq![
                            (
                                "fact"@,
                                json_object_value(
                                    seq![
                                        ("type"@, json_string_value("string"@)),
                                        (
                                            "description"@,
                                            json_string_value("The fact to remember"@),
                                        ),
                                    ],
                                ),
                            ),
                        ],
                    ),
                ),
                ("required"@, json_array_value(seq![json_string_value("fact"@)])),
            ],
        ),
        handler: HandlerSpec::Builtin { name: "remember"@ },
        response: ResponseConfig { on_success: ResponseMode::Llm, on_error: ResponseMode::Llm },
        enabled: true,
    }
}

/// The built-in tool through which the model stores a fact in long-term
/// memory.
pub fn remember_tool() -> (r: ToolDefinition)
    ensures
        r@ == remember_tool_spec(),
{
    let mut fact: Vec<(String, Json)> = Vec::new();
    fact.push(("type".to_owned(), json_string("string".to_owned())));
    fact.push(("description".to_owned(), json_string("The fact to remember".to_owned())));
    proof {
        assert(entries_view(fact@) =~= seq![
            ("type"@, json_string_value("string"@)),
            ("description"@, json_string_value("The fact to remember"@)),
        ]);
    }
    let fact_schema = json_object(fact);
    let mut props: Vec<(String, Json)> = Vec::new();
    props.push(("fact".to_owned(), fact_schema));
    proof {
        assert(entries_view(props@) =~= seq![("fact"@, fact_schema)]);
    }
    let properties = json_object(props);
    let mut required: Vec<Json> = Vec::new();
    required.push(json_string("fact".to_owned()));
    let ghost req_seq = required@;
    let required_json = json_array(required);
    let mut es: Vec<(String, Json)> = Vec::new();
    es.push(("type".to_owned(), json_string("object".to_owned())));
    es.push(("properties".to_owned(), properties));
    es.push(("required".to_owned(), required_json));
    proof {
        assert(req_seq =~= seq![json_string_value("fact"@)]);
        assert(entries_view(es@) =~= seq![
            ("type"@, json_string_value("object"@)),
            ("properties"@, properties),
            ("required"@, required_json),
        ]);
    }
    let parameters = json_object(es);
    ToolDefinition {
        name: "remember".to_owned(),
        description: "Store a fact worth remembering in later conversations".to_owned(),
        parameters,
        handler: ToolHandler::Builtin { name: "remember".to_owned() },
        response: ResponseConfig::default(),
        enabled: true,
    }
}

// ── Template substitution ────────────────────────────────────────────────────

/// What a minijinja environment renders for the template (registered under
/// one name) with the arguments as context; `None` when the template does not
/// compile or rendering fails.
pub uninterp spec fn jinja_rendered(template: Seq<char>, args: Json) -> Option<Seq<char>>;

/// Renders `template` once with minijinja: the template is added to a new
/// `Environment`, fetched back, and rendered with `Value::from_serialize(args)`.
/// The result is named `jinja_rendered`.
#[verifier::external_body]
fn jinja_render(template: &str, args: &Json) -> (r: Option<String>)
    ensures
        r matches Some(s) ==> jinja_rendered(template@, *args) == Some(s@),
        r is None ==> jinja_rendered(template@, *args) is None,
{
    let mut env = minijinja::Environment::new();
    env.add_template("t", template).ok()?;
    let tmpl = env.get_template("t").ok()?;
    tmpl.render(minijinja::Value::from_serialize(args)).ok()
}

/// The text put in place of `{key}`: a string as is, any other value as JSON.
pub open spec fn replacement_text(v: Json) -> Seq<char> {
    match json_str(v) {
        Some(s) => s,
        None => json_text(v),
    }
}

pub open spec fn placeholder(key: Seq<char>) -> Seq<char> {
    "{"@ + key + "}"@
}

/// Each entry's placeholder replaced in turn, in the order of the entries.
pub open spec fn render_entries(t: Seq<char>, es: Seq<(Seq<char>, Json)>) -> Seq<char>
    decreases es.len(),
{
    if es.len() == 0 {
        t
    } else {
        replace_all(
            render_entries(t, es.drop_last()),
            placeholder(es.last().0),
            replacement_text(es.last().1),
        )
    }
}

/// Simple `{param}` substitution; a template is left as is when the
/// arguments are not an object.
pub open spec fn render_simple_spec(t: Seq<char>, args: Json) -> Seq<char> {
    match json_node(args) {
        JsonNode::Object(es) => render_entries(t, es),
        _ => t,
    }
}

/// A template rendered with arguments: Jinja syntax (`{%` or `{{`) goes to
/// minijinja, falling back to the template itself when that fails; other
/// templates get `{param}` substitution.
pub open spec fn substituted(t: Seq<char>, args: Json) -> Seq<char> {
    if contains(t, "{%"@) || contains(t, "{{"@) {
        match jinja_rendered(t, args) {
            Some(s) => s,
            None => t,
        }
    } else {
        render_simple_spec(t, args)
    }
}

fn replacement_text_exec(v: &Json) -> (r: Vec<char>)
    ensures
        r@ == replacement_text(*v),
{
    match json_shape(v) {
        JsonShape::Str(s) => chars_of(s.as_str()),
        _ => {
            let t = json_to_text(v);
            chars_of(t.as_str())
        },
    }
}

fn render_simple(template: &str, args: &Json) -> (r: String)
    ensures
        r@ == render_simple_spec(template@, *args),
{
    let mut result = chars_of(template);
    match json_shape(args) {
        JsonShape::Object(es) => {
            let mut i: usize = 0;
            while i < es.len()
                invariant
                    i <= es.len(),
                    result@ == render_entries(template@, entries_view(es@).take(i as int)),
                decreases es.len() - i,
            {
                let ghost t = entries_view(es@).take(i + 1);
                proof {
                    assert(t.drop_last() =~= entries_view(es@).take(i as int));
                    assert(t.last() == (es@[i as int].0@, es@[i as int].1));
                }
                let open = chars_of("{");
                let close = chars_of("}");
                let key = chars_of(es[i].0.as_str());
                let mut pat = concat_chars(&open, &key);
                append_chars(&mut pat, &close);
                proof {
                    reveal_strlit("{");
                }
                let rep = replacement_text_exec(&es[i].1);
                result = replace_all_exec(&result, &pat, &rep);
                i += 1;
            }
            assert(entries_view(es@).take(es.len() as int) =~= entries_view(es@));
        },
        _ => {},
    }
    string_of(&result)
}

/// Renders a template string with the arguments substituted in.
///
/// A template with Jinja syntax (`{%` or `{{`) is rendered with minijinja;
/// any other template gets simple `{param_name}` substitution, so that plain
/// templates like `felix/homekit/{room}/set/On` work without escaping.
pub fn substitute(template: &str, args: &Json) -> (r: String)
    ensures
        r@ == substituted(template@, *args),
        contains(template@, "{%"@) || contains(template@, "{{"@) ==> r@ == match jinja_rendered(
            template@,
            *args,
        ) {
            Some(s) => s,
            None => template@,
        },
{
    let t = chars_of(template);
    let p1 = chars_of("{%");
    let p2 = chars_of("{{");
    if contains_exec(&t, &p1) || contains_exec(&t, &p2) {
        match jinja_render(template, args) {
            Some(s) => s,
            None => template.to_owned(),
        }
    } else {
        render_simple(template, args)
    }
}


// ── Laws ─────────────────────────────────────────────────────────────────────

/// `t` holds no `{`.
pub open spec fn brace_free(t: Seq<char>) -> bool {
    forall|i: int| 0 <= i < t.len() ==> t[i] != '{'
}

proof fn lemma_replace_all_absent(s: Seq<char>, p: Seq<char>, r: Seq<char>)
    requires
        p.len() > 0,
        forall|i: int| 0 <= i < s.len() ==> s[i] != p[0],
    ensures
        replace_all(s, p, r) == s,
    decreases s.len(),
{
    if s.len() > 0 {
        assert(!crate::text::matches_at(s, p, 0)) by {
            if crate::text::matches_at(s, p, 0) {
                assert(s.subrange(0, p.len() as int)[0] == s[0]);
            }
        }
        lemma_replace_all_absent(s.drop_first(), p, r);
        assert(seq![s[0]] + s.drop_first() =~= s);
    }
}

proof fn lemma_render_entries_brace_free(t: Seq<char>, es: Seq<(Seq<char>, Json)>)
    requires
        brace_free(t),
    ensures
        render_entries(t, es) == t,
    decreases es.len(),
{
    if es.len() > 0 {
        lemma_render_entries_brace_free(t, es.drop_last());
        reveal_strlit("{");
        let p = placeholder(es.last().0);
        assert(p[0] == '{');
        lemma_replace_all_absent(t, p, replacement_text(es.last().1));
    }
}

proof fn lemma_brace_free_lacks(t: Seq<char>, p: Seq<char>)
    requires
        brace_free(t),
        p.len() > 0,
        p[0] == '{',
    ensures
        !contains(t, p),
{
    lemma_find_from_result(t, p, 0);
    if find(t, p) is Some {
        let k = find(t, p)->0;
        assert(t.subrange(k, k + p.len())[0] == t[k]);
    }
}

/// A template without `{` has nothing to substitute: it comes back as is,
/// whatever the arguments.
pub proof fn law_plain_template_unchanged(t: Seq<char>, args: Json)
    requires
        brace_free(t),
    ensures
        substituted(t, args) == t,
{
    reveal_strlit("{%");
    reveal_strlit("{{");
    lemma_brace_free_lacks(t, "{%"@);
    lemma_brace_free_lacks(t, "{{"@);
    match json_node(args) {
        JsonNode::Object(es) => lemma_render_entries_brace_free(t, es),
        _ => {},
    }
}

/// A template holding a Jinja block tag `{%` is rendered by the Jinja engine,
/// whether or not it also holds `{{`: the result is what minijinja renders,
/// or the template itself when rendering fails.
pub proof fn law_block_tag_template_uses_jinja(t: Seq<char>, args: Json)
    requires
        contains(t, "{%"@),
    ensures
        substituted(t, args) == match jinja_rendered(t, args) {
            Some(s) => s,
            None => t,
        },
{
}

/// A template holding a Jinja expression `{{` is rendered by the Jinja
/// engine: the result is what minijinja renders, or the template itself when
/// rendering fails.
pub proof fn law_expression_template_uses_jinja(t: Seq<char>, args: Json)
    requires
        contains(t, "{{"@),
    ensures
        substituted(t, args) == match jinja_rendered(t, args) {
            Some(s) => s,
            None => t,
        },
{
}

/// A plain template (no `{%`, no `{{`) with one string argument has every
/// `{name}` of that argument replaced by the string itself, without quotes.
pub proof fn law_string_argument_substituted(
    t: Seq<char>,
    args: Json,
    name: Seq<char>,
    value: Json,
    s: Seq<char>,
)
    requires
        !contains(t, "{%"@),
        !contains(t, "{{"@),
        json_node(args) == JsonNode::Object(seq![(name, value)]),
        json_str(value) == Some(s),
    ensures
        substituted(t, args) == replace_all(t, "{"@ + name + "}"@, s),
{
    let es = seq![(name, value)];
    assert(es.drop_last() =~= Seq::<(Seq<char>, Json)>::empty());
    assert(es.last() == (name, value));
    assert(render_entries(t, es.drop_last()) == t);
}

} // verus!
