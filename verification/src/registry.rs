//! The registry of tools the model may call: the built-in date and time
//! tool, and the tools users define (kept in the database and mirrored here).
use vstd::prelude::*;

use crate::json::{json_parsed, parse_json};
use crate::tools::{
    datetime_tool, datetime_tool_spec, ResponseConfig, ResponseMode, ToolDefinition, ToolHandler,
    ToolSpec,
};

verus! {

pub open spec fn builtin_name() -> Seq<char> {
    "get_datetime"@
}

pub open spec fn tool_views(tools: Seq<ToolDefinition>) -> Seq<ToolSpec> {
    tools.map_values(|t: ToolDefinition| t@)
}

pub open spec fn name_views(names: Seq<String>) -> Seq<Seq<char>> {
    names.map_values(|n: String| n@)
}

/// The first user-defined tool with the given name.
pub open spec fn first_named(tools: Seq<ToolSpec>, name: Seq<char>) -> Option<ToolSpec>
    decreases tools.len(),
{
    if tools.len() == 0 {
        None
    } else if tools[0].name == name {
        Some(tools[0])
    } else {
        first_named(tools.drop_first(), name)
    }
}

/// The tool `get` finds: the built-in one for its own name, else the first
/// user-defined tool with that name.
pub open spec fn lookup_tool(tools: Seq<ToolSpec>, name: Seq<char>) -> Option<ToolSpec> {
    if name == builtin_name() {
        Some(datetime_tool_spec())
    } else {
        first_named(tools, name)
    }
}

/// The tools whose name differs from `name`, in order.
pub open spec fn without(tools: Seq<ToolSpec>, name: Seq<char>) -> Seq<ToolSpec>
    decreases tools.len(),
{
    if tools.len() == 0 {
        Seq::empty()
    } else if tools.last().name == name {
        without(tools.drop_last(), name)
    } else {
        without(tools.drop_last(), name).push(tools.last())
    }
}

/// The user-defined tools after `insert`: any tool of the same name replaced
/// by the new one, placed last.
pub open spec fn inserted(tools: Seq<ToolSpec>, tool: ToolSpec) -> Seq<ToolSpec> {
    without(tools, tool.name).push(tool)
}

/// The user-defined tools whose name is among `names`, in order.
pub open spec fn named_among(tools: Seq<ToolSpec>, names: Seq<Seq<char>>) -> Seq<ToolSpec>
    decreases tools.len(),
{
    if tools.len() == 0 {
        Seq::empty()
    } else if names.contains(tools.last().name) {
        named_among(tools.drop_last(), names).push(tools.last())
    } else {
        named_among(tools.drop_last(), names)
    }
}

/// What `by_names` gives: the built-in tool first when its name is asked
/// for, then the user-defined tools whose names are asked for.
pub open spec fn selected(tools: Seq<ToolSpec>, names: Seq<Seq<char>>) -> Seq<ToolSpec> {
    if names.contains(builtin_name()) {
        seq![datetime_tool_spec()] + named_among(tools, names)
    } else {
        named_among(tools, names)
    }
}

/// A row of the `tools` table, its handler already decoded from its JSON
/// text (`None` when that text did not decode).
pub struct ToolRow {
    pub name: String,
    pub description: String,
    /// The parameters' JSON Schema, as stored text.
    pub parameters: String,
    pub handler: Option<ToolHandler>,
}

/// The tool a row holds: none when its parameters are not JSON or its
/// handler did not decode. Stored tools answer through the model, and are
/// enabled.
pub open spec fn row_tool(row: ToolRow) -> Option<ToolSpec> {
    match (json_parsed(row.parameters@), row.handler) {
        (Some(parameters), Some(handler)) => Some(
            ToolSpec {
                name: row.name@,
                description: row.description@,
                parameters,
                handler: handler@,
                response: ResponseConfig { on_success: ResponseMode::Llm, on_error: ResponseMode::Llm },
                enabled: true,
            },
        ),
        _ => None,
    }
}

/// The tools the rows hold, in order, skipping rows that hold none.
pub open spec fn row_tools(rows: Seq<ToolRow>) -> Seq<ToolSpec>
    decreases rows.len(),
{
    if rows.len() == 0 {
        Seq::empty()
    } else {
        match row_tool(rows.last()) {
            Some(t) => row_tools(rows.drop_last()).push(t),
            None => row_tools(rows.drop_last()),
        }
    }
}

/// The user-defined tools, kept in memory alongside the database.
pub struct ToolRegistry {
    tools: Vec<ToolDefinition>,
}

impl View for ToolRegistry {
    type V = Seq<ToolSpec>;

    closed spec fn view(&self) -> Seq<ToolSpec> {
        tool_views(self.tools@)
    }
}

fn clone_tools(v: &Vec<ToolDefinition>) -> (r: Vec<ToolDefinition>)
    ensures
        tool_views(r@) == tool_views(v@),
{
    let mut r: Vec<ToolDefinition> = Vec::new();
    let mut i: usize = 0;
    while i < v.len()
        invariant
            i <= v.len(),
            tool_views(r@) == tool_views(v@).take(i as int),
        decreases v.len() - i,
    {
        let c = v[i].clone();
        let ghost before = tool_views(r@);
        r.push(c);
        assert(tool_views(r@) =~= before.push(v@[i as int]@));
        assert(tool_views(v@).take(i + 1) =~= tool_views(v@).take(i as int).push(v@[i as int]@));
        i += 1;
    }
    assert(tool_views(v@).take(v.len() as int) =~= tool_views(v@));
    r
}

/// Whether `names` holds `name`.
fn contains_name(names: &Vec<String>, name: &String) -> (b: bool)
    ensures
        b == name_views(names@).contains(name@),
{
    let mut i: usize = 0;
    while i < names.len()
        invariant
            i <= names.len(),
            forall|j: int| 0 <= j < i ==> name_views(names@)[j] != name@,
        decreases names.len() - i,
    {
        if names[i] == *name {
            assert(name_views(names@)[i as int] == name@);
            return true;
        }
        i += 1;
    }
    false
}

impl ToolRegistry {
    /// A registry of the given user-defined tools.
    pub fn new(tools: Vec<ToolDefinition>) -> (r: ToolRegistry)
        ensures
            r@ == tool_views(tools@),
    {
        ToolRegistry { tools }
    }

    /// The registry of the enabled tools read from the database; rows whose
    /// parameters are not JSON or whose handler did not decode are skipped.
    pub fn from_rows(rows: &Vec<ToolRow>) -> (r: ToolRegistry)
        ensures
            r@ == row_tools(rows@),
    {
        let mut tools: Vec<ToolDefinition> = Vec::new();
        let mut i: usize = 0;
        while i < rows.len()
            invariant
                i <= rows.len(),
                tool_views(tools@) == row_tools(rows@.take(i as int)),
            decreases rows.len() - i,
        {
            proof {
                assert(rows@.take(i + 1).drop_last() =~= rows@.take(i as int));
                assert(rows@.take(i + 1).last() == rows@[i as int]);
            }
            let row = &rows[i];
            let parsed = parse_json(row.parameters.as_str());
            match (parsed, &row.handler) {
                (Some(parameters), Some(handler)) => {
                    let t = ToolDefinition {
                        name: row.name.clone(),
                        description: row.description.clone(),
                        parameters,
                        handler: handler.clone(),
                        response: ResponseConfig::default(),
                        enabled: true,
                    };
                    let ghost before = tool_views(tools@);
                    tools.push(t);
                    assert(tool_views(tools@) =~= before.push(t@));
                },
                _ => {},
            }
            i += 1;
        }
        assert(rows@.take(rows.len() as int) =~= rows@);
        ToolRegistry { tools }
    }

    /// Every tool: the built-in one first, then the user-defined ones.
    pub fn all(&self) -> (r: Vec<ToolDefinition>)
        ensures
            tool_views(r@) == seq![datetime_tool_spec()] + self@,
    {
        let mut r: Vec<ToolDefinition> = Vec::new();
        r.push(datetime_tool());
        let mut rest = clone_tools(&self.tools);
        let ghost first = r@;
        let ghost rest_v = rest@;
        r.append(&mut rest);
        assert(tool_views(r@) =~= tool_views(first) + tool_views(rest_v));
        r
    }

    /// The tool with the given name.
    pub fn get(&self, name: &str) -> (r: Option<ToolDefinition>)
        ensures
            match r {
                Some(t) => lookup_tool(self@, name@) == Some(t@),
                None => lookup_tool(self@, name@) is None,
            },
    {
        let n = name.to_owned();
        let b = "get_datetime".to_owned();
        if n == b {
            return Some(datetime_tool());
        }
        assert(b@ == builtin_name());
        let mut i: usize = 0;
        assert(self@.subrange(0, self@.len() as int) =~= self@);
        while i < self.tools.len()
            invariant
                i <= self.tools.len(),
                n@ == name@,
                name@ != builtin_name(),
                first_named(self@, name@) == first_named(
                    self@.subrange(i as int, self@.len() as int),
                    name@,
                ),
            decreases self.tools.len() - i,
        {
            let ghost rest = self@.subrange(i as int, self@.len() as int);
            assert(rest[0] == self.tools@[i as int]@);
            assert(rest.drop_first() =~= self@.subrange(i + 1, self@.len() as int));
            if self.tools[i].name == n {
                let c = self.tools[i].clone();
                assert(c@ == rest[0]);
                assert(rest[0].name == name@);
                assert(first_named(rest, name@) == Some(c@));
                assert(name@ != builtin_name());
                return Some(c);
            }
            i += 1;
        }
        None
    }

    /// The built-in tool when its name is asked for, then the user-defined
    /// tools whose names are asked for.
    pub fn by_names(&self, names: &Vec<String>) -> (r: Vec<ToolDefinition>)
        ensures
            tool_views(r@) == selected(self@, name_views(names@)),
    {
        let mut r: Vec<ToolDefinition> = Vec::new();
        let b = "get_datetime".to_owned();
        let with_builtin = contains_name(names, &b);
        if with_builtin {
            r.push(datetime_tool());
        }
        let ghost head = tool_views(r@);
        let mut i: usize = 0;
        while i < self.tools.len()
            invariant
                i <= self.tools.len(),
                tool_views(r@) == head + named_among(
                    self@.take(i as int),
                    name_views(names@),
                ),
            decreases self.tools.len() - i,
        {
            let ghost t = self@.take(i + 1);
            assert(t.drop_last() =~= self@.take(i as int));
            assert(t.last() == self.tools@[i as int]@);
            if contains_name(names, &self.tools[i].name) {
                let ghost before = tool_views(r@);
                r.push(self.tools[i].clone());
                assert(tool_views(r@) =~= before.push(self.tools@[i as int]@));
            }
            i += 1;
        }
        assert(self@.take(self.tools.len() as int) =~= self@);
        proof {
            if with_builtin {
                assert(head =~= seq![datetime_tool_spec()]);
            } else {
                assert(head =~= Seq::<ToolSpec>::empty());
                assert(Seq::<ToolSpec>::empty() + named_among(self@, name_views(names@))
                    =~= named_among(self@, name_views(names@)));
            }
        }
        r
    }

    /// Drops every user-defined tool with the given name.
    fn remove_named(&mut self, name: &String)
        ensures
            final(self)@ == without(old(self)@, name@),
    {
        let mut kept: Vec<ToolDefinition> = Vec::new();
        let mut i: usize = 0;
        while i < self.tools.len()
            invariant
                i <= self.tools.len(),
                tool_views(kept@) == without(self@.take(i as int), name@),
            decreases self.tools.len() - i,
        {
            let ghost t = self@.take(i + 1);
            assert(t.drop_last() =~= self@.take(i as int));
            assert(t.last() == self.tools@[i as int]@);
            if self.tools[i].name != *name {
                let ghost before = tool_views(kept@);
                kept.push(self.tools[i].clone());
                assert(tool_views(kept@) =~= before.push(self.tools@[i as int]@));
            }
            i += 1;
        }
        assert(self@.take(self.tools.len() as int) =~= self@);
        self.tools = kept;
    }

    /// Records a tool the database has stored: it replaces any tool of the
    /// same name.
    pub fn insert(&mut self, tool: ToolDefinition)
        ensures
            final(self)@ == inserted(old(self)@, tool@),
    {
        let name = tool.name.clone();
        self.remove_named(&name);
        let ghost before = self@;
        self.tools.push(tool);
        assert(self@ =~= before.push(tool@));
    }

    /// Records a deletion the database has carried out, where it affected
    /// `rows_affected` rows; answers whether anything was deleted.
    pub fn delete(&mut self, name: &str, rows_affected: u64) -> (r: bool)
        ensures
            r == (rows_affected > 0),
            r ==> final(self)@ == without(old(self)@, name@),
            !r ==> final(self)@ == old(self)@,
    {
        if rows_affected > 0 {
            let n = name.to_owned();
            self.remove_named(&n);
            true
        } else {
            false
        }
    }
}

// ── Laws ─────────────────────────────────────────────────────────────────────

pub proof fn lemma_first_named_without(tools: Seq<ToolSpec>, name: Seq<char>, other: Seq<char>)
    ensures
        other != name ==> first_named(without(tools, name), other) == first_named(tools, other),
        first_named(without(tools, name), name) is None,
    decreases tools.len(),
{
    if tools.len() > 0 {
        lemma_first_named_without(tools.drop_last(), name, other);
        lemma_first_named_push(without(tools.drop_last(), name), tools.last(), other);
        lemma_first_named_push(without(tools.drop_last(), name), tools.last(), name);
        lemma_first_named_push(tools.drop_last(), tools.last(), other);
        assert(tools.drop_last().push(tools.last()) =~= tools);
    }
}

pub proof fn lemma_first_named_push(tools: Seq<ToolSpec>, t: ToolSpec, name: Seq<char>)
    ensures
        first_named(tools.push(t), name) == match first_named(tools, name) {
            Some(x) => Some(x),
            None => if t.name == name {
                Some(t)
            } else {
                None
            },
        },
    decreases tools.len(),
{
    if tools.len() > 0 {
        let s = tools.push(t);
        assert(s[0] == tools[0]);
        assert(s.drop_first() =~= tools.drop_first().push(t));
        lemma_first_named_push(tools.drop_first(), t, name);
        if tools[0].name == name {
            assert(first_named(s, name) == Some(tools[0]));
            assert(first_named(tools, name) == Some(tools[0]));
        } else {
            assert(first_named(s, name) == first_named(s.drop_first(), name));
            assert(first_named(tools, name) == first_named(tools.drop_first(), name));
        }
    } else {
        let s = tools.push(t);
        assert(s[0] == t);
        assert(s.drop_first() =~= Seq::<ToolSpec>::empty());
        assert(first_named(s.drop_first(), name) is None);
        assert(first_named(tools, name) is None);
        if t.name == name {
            assert(first_named(s, name) == Some(t));
        } else {
            assert(first_named(s, name) is None);
        }
    }
}

/// After a tool is inserted, looking its name up gives that tool (the name
/// of the built-in tool always gives the built-in tool).
pub proof fn law_get_after_insert(tools: Seq<ToolSpec>, tool: ToolSpec)
    requires
        tool.name != builtin_name(),
    ensures
        lookup_tool(inserted(tools, tool), tool.name) == Some(tool),
{
    lemma_first_named_without(tools, tool.name, tool.name);
    lemma_first_named_push(without(tools, tool.name), tool, tool.name);
}

/// Inserting a tool leaves the lookup of every other name unchanged.
pub proof fn law_insert_keeps_others(tools: Seq<ToolSpec>, tool: ToolSpec, other: Seq<char>)
    requires
        other != tool.name,
    ensures
        lookup_tool(inserted(tools, tool), other) == lookup_tool(tools, other),
{
    lemma_first_named_without(tools, tool.name, other);
    lemma_first_named_push(without(tools, tool.name), tool, other);
}

/// After a deletion that removed rows, the name finds no user-defined tool;
/// other names find what they found before.
pub proof fn law_get_after_delete(tools: Seq<ToolSpec>, name: Seq<char>, other: Seq<char>)
    ensures
        name != builtin_name() ==> lookup_tool(without(tools, name), name) is None,
        other != name ==> lookup_tool(without(tools, name), other) == lookup_tool(tools, other),
{
    lemma_first_named_without(tools, name, other);
}

/// Inserting the same tool twice leaves the registry as one insertion does.
pub proof fn law_insert_idempotent(tools: Seq<ToolSpec>, tool: ToolSpec)
    ensures
        inserted(inserted(tools, tool), tool) == inserted(tools, tool),
{
    lemma_without_twice(tools, tool.name);
    let w = without(tools, tool.name);
    assert(w.push(tool).drop_last() =~= w);
    assert(w.push(tool).last() == tool);
    assert(without(without(tools, tool.name).push(tool), tool.name) =~= without(
        without(tools, tool.name),
        tool.name,
    ));
}

pub proof fn lemma_without_twice(tools: Seq<ToolSpec>, name: Seq<char>)
    ensures
        without(without(tools, name), name) == without(tools, name),
    decreases tools.len(),
{
    if tools.len() > 0 {
        lemma_without_twice(tools.drop_last(), name);
        let w = without(tools.drop_last(), name);
        if tools.last().name != name {
            assert(w.push(tools.last()).drop_last() =~= w);
        }
    }
}

} // verus!
