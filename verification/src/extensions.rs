//! Extensions at run time: what each registers, the registry that holds them
//! by id, and the router that sends an extension tool call to its handler.
use vstd::prelude::*;
use crate::extension::{ExtensionCapability, ExtensionError, ExtensionEvent, HookMode};
use crate::text::{owned, push_str, same_text};
use crate::tool::{ExecutionMode, ToolDefinition, ToolOrigin};

verus! {

/// A tool's name as the host shows it: the extension's id, two
/// underscores, and the tool's own name.
pub open spec fn prefixed(ext_id: Seq<char>, name: Seq<char>) -> Seq<char> {
    ext_id + "__"@ + name
}

/// `ext_id__name`.
pub fn prefixed_name(ext_id: &str, name: &str) -> (r: String)
    ensures
        r@ == prefixed(ext_id@, name@),
{
    let mut s = owned(ext_id);
    push_str(&mut s, "__");
    push_str(&mut s, name);
    s
}

/// What an extension declares while it registers: its tools with their
/// handlers, and its hooks.
pub struct Registrar<H, L> {
    tools: Vec<(ToolDefinition, H)>,
    hooks: Vec<(ExtensionEvent, HookMode, i32, L)>,
}

impl<H, L> Registrar<H, L> {
    /// The tools declared, in order.
    pub closed spec fn tool_list(&self) -> Seq<(ToolDefinition, H)> {
        self.tools@
    }

    /// The hooks declared, in order.
    pub closed spec fn hook_list(&self) -> Seq<(ExtensionEvent, HookMode, i32, L)> {
        self.hooks@
    }

    /// Nothing declared.
    pub fn new() -> (r: Self)
        ensures
            r.tool_list().len() == 0,
            r.hook_list().len() == 0,
    {
        Registrar { tools: Vec::new(), hooks: Vec::new() }
    }

    /// Declares a tool.
    pub fn tool(&mut self, def: ToolDefinition, handler: H)
        ensures
            final(self).tool_list() == old(self).tool_list().push((def, handler)),
            final(self).hook_list() == old(self).hook_list(),
    {
        self.tools.push((def, handler));
    }

    /// Declares a hook on an event.
    pub fn on_event(&mut self, event: ExtensionEvent, mode: HookMode, priority: i32, handler: L)
        ensures
            final(self).tool_list() == old(self).tool_list(),
            final(self).hook_list() == old(self).hook_list().push((event, mode, priority, handler)),
    {
        self.hooks.push((event, mode, priority, handler));
    }

    /// The tools declared.
    pub fn tools(&self) -> (r: &[(ToolDefinition, H)])
        ensures
            r@ == self.tool_list(),
    {
        self.tools.as_slice()
    }

    /// The hooks declared.
    pub fn hooks(&self) -> (r: &[(ExtensionEvent, HookMode, i32, L)])
        ensures
            r@ == self.hook_list(),
    {
        self.hooks.as_slice()
    }

    /// Whether nothing was declared.
    pub fn is_empty(&self) -> (r: bool)
        ensures
            r == (self.tool_list().len() == 0 && self.hook_list().len() == 0),
    {
        self.tools.len() == 0 && self.hooks.len() == 0
    }
}

/// An extension, as the registry sees it.
pub trait Extension<H, L> {
    /// The extension's id.
    fn id(&self) -> &str;

    /// The host capabilities the extension asks to be granted; none unless
    /// it says otherwise.
    fn capabilities(&self) -> (r: Vec<ExtensionCapability>)
        default_ensures
            r@.len() == 0,
    {
        Vec::new()
    }

    /// Declares the extension's tools and hooks.
    fn register(&self, reg: &mut Registrar<H, L>);
}

/// A loaded extension: its id (as read when it was loaded), the extension,
/// and what it registered.
pub struct ExtensionEntry<E, H, L> {
    pub id: String,
    pub ext: E,
    pub registrar: Registrar<H, L>,
}

/// The extensions loaded, each with what it registered, in load order.
pub struct ExtensionRegistry<E, H, L> {
    entries: Vec<ExtensionEntry<E, H, L>>,
}

impl<E, H, L> View for ExtensionRegistry<E, H, L> {
    type V = Seq<ExtensionEntry<E, H, L>>;

    closed spec fn view(&self) -> Seq<ExtensionEntry<E, H, L>> {
        self.entries@
    }
}

/// The id of each entry.
pub open spec fn entry_ids<E, H, L>(es: Seq<ExtensionEntry<E, H, L>>) -> Seq<Seq<char>> {
    es.map_values(|e: ExtensionEntry<E, H, L>| e.id@)
}

/// A tool's definition and handler, as (name, description, parameters,
/// origin, execution mode, handler).
pub type ToolEntryView<H> = (Seq<char>, Seq<char>, serde_json::Value, ToolOrigin, ExecutionMode, H);

/// A registered tool under the name `ext_id__name`, the rest of its
/// definition as registered.
pub open spec fn prefixed_entry<H>(ext_id: Seq<char>, t: (ToolDefinition, H)) -> ToolEntryView<H> {
    (prefixed(ext_id, t.0.name@), t.0.description@, t.0.parameters, t.0.origin, t.0.execution_mode, t.1)
}

/// A definition with its handler, as a view.
pub open spec fn entry_view<H>(t: (ToolDefinition, &H)) -> ToolEntryView<H> {
    (t.0.name@, t.0.description@, t.0.parameters, t.0.origin, t.0.execution_mode, *t.1)
}

/// The tools of all entries, each under its prefixed name.
pub open spec fn prefixed_tools<E, H, L>(es: Seq<ExtensionEntry<E, H, L>>) -> Seq<ToolEntryView<H>>
    decreases es.len(),
{
    if es.len() == 0 {
        Seq::empty()
    } else {
        let last = es.last();
        prefixed_tools(es.drop_last()) + last.registrar.tool_list().map_values(
            |t: (ToolDefinition, H)| prefixed_entry(last.id@, t),
        )
    }
}

/// The hooks of all entries, in order.
pub open spec fn all_hook_entries<E, H, L>(es: Seq<ExtensionEntry<E, H, L>>) -> Seq<(ExtensionEvent, HookMode, i32, L)>
    decreases es.len(),
{
    if es.len() == 0 {
        Seq::empty()
    } else {
        all_hook_entries(es.drop_last()) + es.last().registrar.hook_list()
    }
}

impl<E: Extension<H, L>, H, L> ExtensionRegistry<E, H, L> {
    /// No extensions.
    pub fn new() -> (r: Self)
        ensures
            r@.len() == 0,
    {
        ExtensionRegistry { entries: Vec::new() }
    }

    /// Adds an extension with what it registers.
    pub fn register(&mut self, ext: E)
        ensures
            final(self)@.len() == old(self)@.len() + 1,
            final(self)@.subrange(0, old(self)@.len() as int) == old(self)@,
            final(self)@.last().ext == ext,
    {
        let mut registrar = Registrar::new();
        ext.register(&mut registrar);
        let id = owned(ext.id());
        self.entries.push(ExtensionEntry { id, ext, registrar });
        assert(self@.subrange(0, old(self)@.len() as int) =~= old(self)@);
    }

    /// The ids of the extensions, in load order.
    pub fn ids(&self) -> (r: Vec<&str>)
        ensures
            r@.map_values(|s: &str| s@) == entry_ids(self@),
    {
        let mut out: Vec<&str> = Vec::new();
        let mut i: usize = 0;
        while i < self.entries.len()
            invariant
                i <= self@.len(),
                self@ == self.entries@,
                out@.map_values(|s: &str| s@) == entry_ids(self@).subrange(0, i as int),
            decreases self@.len() - i,
        {
            let ghost prev = out@;
            let id = self.entries[i].id.as_str();
            out.push(id);
            assert(out@.map_values(|s: &str| s@) =~= prev.map_values(|s: &str| s@).push(id@));
            assert(entry_ids(self@)[i as int] == self@[i as int].id@);
            i = i + 1;
            assert(out@.map_values(|s: &str| s@) =~= entry_ids(self@).subrange(0, i as int));
        }
        assert(entry_ids(self@).subrange(0, i as int) =~= entry_ids(self@));
        out
    }

    /// The first extension with the given id.
    pub fn get_by_id(&self, id: &str) -> (r: Option<&E>)
        ensures
            match r {
                Some(e) => exists|i: int|
                    0 <= i < self@.len() && *e == self@[i].ext && self@[i].id@ == id@ && forall|k: int|
                        0 <= k < i ==> (#[trigger] self@[k]).id@ != id@,
                None => forall|k: int| 0 <= k < self@.len() ==> (#[trigger] self@[k]).id@ != id@,
            },
    {
        let mut i: usize = 0;
        while i < self.entries.len()
            invariant
                i <= self@.len(),
                self@ == self.entries@,
                forall|k: int| 0 <= k < i ==> (#[trigger] self@[k]).id@ != id@,
            decreases self@.len() - i,
        {
            if same_text(self.entries[i].id.as_str(), id) {
                return Some(&self.entries[i].ext);
            }
            i = i + 1;
        }
        None
    }

    /// Every extension's tools, each renamed `extension_id__tool_name`,
    /// with its handler.
    pub fn all_tool_handlers(&self) -> (r: Vec<(ToolDefinition, &H)>)
        ensures
            r@.map_values(|t: (ToolDefinition, &H)| entry_view(t)) == prefixed_tools(self@),
    {
        let mut out: Vec<(ToolDefinition, &H)> = Vec::new();
        let mut i: usize = 0;
        while i < self.entries.len()
            invariant
                i <= self@.len(),
                self@ == self.entries@,
                out@.map_values(|t: (ToolDefinition, &H)| entry_view(t)) == prefixed_tools(self@.subrange(0, i as int)),
            decreases self@.len() - i,
        {
            let ext_id = self.entries[i].id.as_str();
            let tools = self.entries[i].registrar.tools();
            let ghost start = out@.map_values(|t: (ToolDefinition, &H)| entry_view(t));
            let ghost tl = tools@;
            let mut j: usize = 0;
            while j < tools.len()
                invariant
                    j <= tl.len(),
                    tl == tools@,
                    tl == self@[i as int].registrar.tool_list(),
                    ext_id@ == self@[i as int].id@,
                    out@.map_values(|t: (ToolDefinition, &H)| entry_view(t)) == start + tl.subrange(0, j as int).map_values(
                        |t: (ToolDefinition, H)| prefixed_entry(ext_id@, t),
                    ),
                decreases tl.len() - j,
            {
                let mut def = tools[j].0.duplicate();
                def.name = prefixed_name(ext_id, tools[j].0.name.as_str());
                let ghost prev = out@;
                out.push((def, &tools[j].1));
                assert(out@.map_values(|t: (ToolDefinition, &H)| entry_view(t)) =~= prev.map_values(|t: (ToolDefinition, &H)| entry_view(t)).push(
                    prefixed_entry(ext_id@, tl[j as int]),
                ));
                j = j + 1;
                assert(tl.subrange(0, j as int) =~= tl.subrange(0, j - 1).push(tl[j - 1]));
                assert(out@.map_values(|t: (ToolDefinition, &H)| entry_view(t)) =~= start + tl.subrange(0, j as int).map_values(
                    |t: (ToolDefinition, H)| prefixed_entry(ext_id@, t),
                ));
            }
            proof {
                assert(tl.subrange(0, j as int) =~= tl);
                let es = self@.subrange(0, i + 1);
                assert(es.drop_last() =~= self@.subrange(0, i as int));
                assert(es.last() == self@[i as int]);
            }
            i = i + 1;
        }
        assert(self@.subrange(0, i as int) =~= self@);
        out
    }

    /// Every extension's hooks, in load order.
    pub fn all_hooks(&self) -> (r: Vec<&(ExtensionEvent, HookMode, i32, L)>)
        ensures
            r@.map_values(|h: &(ExtensionEvent, HookMode, i32, L)| *h) == all_hook_entries(self@),
    {
        let mut out: Vec<&(ExtensionEvent, HookMode, i32, L)> = Vec::new();
        let mut i: usize = 0;
        while i < self.entries.len()
            invariant
                i <= self@.len(),
                self@ == self.entries@,
                out@.map_values(|h: &(ExtensionEvent, HookMode, i32, L)| *h) == all_hook_entries(
                    self@.subrange(0, i as int),
                ),
            decreases self@.len() - i,
        {
            let hooks = self.entries[i].registrar.hooks();
            let ghost start = out@.map_values(|h: &(ExtensionEvent, HookMode, i32, L)| *h);
            let mut j: usize = 0;
            while j < hooks.len()
                invariant
                    j <= hooks@.len(),
                    hooks@ == self@[i as int].registrar.hook_list(),
                    out@.map_values(|h: &(ExtensionEvent, HookMode, i32, L)| *h) == start + hooks@.subrange(0, j as int),
                decreases hooks@.len() - j,
            {
                let ghost prev = out@;
                out.push(&hooks[j]);
                assert(out@.map_values(|h: &(ExtensionEvent, HookMode, i32, L)| *h) =~= prev.map_values(
                    |h: &(ExtensionEvent, HookMode, i32, L)| *h,
                ).push(hooks@[j as int]));
                j = j + 1;
                assert(out@.map_values(|h: &(ExtensionEvent, HookMode, i32, L)| *h) =~= start + hooks@.subrange(
                    0,
                    j as int,
                ));
            }
            proof {
                assert(hooks@.subrange(0, j as int) =~= hooks@);
                let es = self@.subrange(0, i + 1);
                assert(es.drop_last() =~= self@.subrange(0, i as int));
                assert(es.last() == self@[i as int]);
            }
            i = i + 1;
        }
        assert(self@.subrange(0, i as int) =~= self@);
        out
    }
}

fn copy_capabilities(c: &[ExtensionCapability]) -> (r: Vec<ExtensionCapability>)
    ensures
        r@ == c@,
{
    let mut out: Vec<ExtensionCapability> = Vec::new();
    let mut i: usize = 0;
    while i < c.len()
        invariant
            i <= c@.len(),
            out@ == c@.subrange(0, i as int),
        decreases c@.len() - i,
    {
        out.push(c[i]);
        i = i + 1;
        assert(out@ =~= c@.subrange(0, i as int));
    }
    assert(c@.subrange(0, i as int) =~= c@);
    out
}

/// Routes the tool calls of extensions to their handlers: each tool under
/// its prefixed name, with the capabilities granted to its extension. A call
/// reaches its handler under the tool's own name, and only when the
/// capabilities it needs were granted.
pub struct HostRouter<H> {
    grants: Vec<(String, Vec<ExtensionCapability>)>,
    handler_map: Vec<(String, String, H, Vec<ExtensionCapability>)>,
}

/// The first route at or after `i` with the given name.
pub open spec fn first_route<H>(rs: Seq<(Seq<char>, H)>, name: Seq<char>, i: int) -> Option<int>
    decreases rs.len() - i,
{
    if i < 0 || i >= rs.len() {
        None
    } else if rs[i].0 == name {
        Some(i)
    } else {
        first_route(rs, name, i + 1)
    }
}

/// Whether every capability in `needs` is among those `granted`.
pub open spec fn permits(granted: Seq<ExtensionCapability>, needs: Seq<ExtensionCapability>) -> bool {
    forall|k: int| 0 <= k < needs.len() ==> granted.contains(#[trigger] needs[k])
}

/// Why a call is refused that needs a capability its extension was not
/// granted.
pub open spec fn not_permitted_reason(prefixed_name: Seq<char>) -> Seq<char> {
    "Tool "@ + prefixed_name + " needs a capability not granted to its extension"@
}

fn permitted(granted: &Vec<ExtensionCapability>, needs: &[ExtensionCapability]) -> (r: bool)
    ensures
        r == permits(granted@, needs@),
{
    let mut k: usize = 0;
    while k < needs.len()
        invariant
            k <= needs@.len(),
            forall|j: int| 0 <= j < k ==> granted@.contains(#[trigger] needs@[j]),
        decreases needs@.len() - k,
    {
        let mut found = false;
        let mut g: usize = 0;
        while g < granted.len()
            invariant
                g <= granted@.len(),
                k < needs@.len(),
                found == exists|x: int| 0 <= x < g && granted@[x] == needs@[k as int],
            decreases granted@.len() - g,
        {
            if granted[g] == needs[k] {
                found = true;
            }
            g = g + 1;
        }
        if !found {
            assert(!granted@.contains(needs@[k as int]));
            return false;
        }
        k = k + 1;
    }
    true
}

impl<H> HostRouter<H> {
    /// The routes: each prefixed name with its handler, in registration
    /// order.
    pub closed spec fn routes(&self) -> Seq<(Seq<char>, H)> {
        self.handler_map@.map_values(|e: (String, String, H, Vec<ExtensionCapability>)| (e.0@, e.2))
    }

    /// For each route, in the same order, the tool's own name and the
    /// capabilities granted to its extension.
    pub closed spec fn route_tools(&self) -> Seq<(Seq<char>, Seq<ExtensionCapability>)> {
        self.handler_map@.map_values(|e: (String, String, H, Vec<ExtensionCapability>)| (e.1@, e.3@))
    }

    /// The capabilities granted, by extension id, in registration order.
    pub closed spec fn granted(&self) -> Seq<(Seq<char>, Seq<ExtensionCapability>)> {
        self.grants@.map_values(|g: (String, Vec<ExtensionCapability>)| (g.0@, g.1@))
    }

    /// No routes.
    pub fn new() -> (r: Self)
        ensures
            r.routes().len() == 0,
            r.route_tools().len() == 0,
            r.granted().len() == 0,
    {
        HostRouter { grants: Vec::new(), handler_map: Vec::new() }
    }

    /// Records an extension's tools under their prefixed names, with the
    /// capabilities granted to it.
    pub fn register_tools(&mut self, extension_id: &str, tools: Vec<(ToolDefinition, H)>, capabilities: &[ExtensionCapability])
        ensures
            final(self).granted() == old(self).granted().push((extension_id@, capabilities@)),
            final(self).routes() == old(self).routes() + tools@.map_values(
                |t: (ToolDefinition, H)| (prefixed(extension_id@, t.0.name@), t.1),
            ),
            final(self).route_tools() == old(self).route_tools() + tools@.map_values(
                |t: (ToolDefinition, H)| (t.0.name@, capabilities@),
            ),
    {
        let ghost g0 = self.granted();
        self.grants.push((owned(extension_id), copy_capabilities(capabilities)));
        assert(self.granted() =~= g0.push((extension_id@, capabilities@)));
        let ghost start = self.routes();
        let ghost start_tools = self.route_tools();
        let ghost tl = tools@;
        let mut rest = tools;
        let mut j: usize = 0;
        let n = rest.len();
        while rest.len() > 0
            invariant
                n == tl.len(),
                j + rest@.len() == n,
                rest@ == tl.subrange(j as int, n as int),
                self.granted() == g0.push((extension_id@, capabilities@)),
                self.routes() == start + tl.subrange(0, j as int).map_values(
                    |t: (ToolDefinition, H)| (prefixed(extension_id@, t.0.name@), t.1),
                ),
                self.route_tools() == start_tools + tl.subrange(0, j as int).map_values(
                    |t: (ToolDefinition, H)| (t.0.name@, capabilities@),
                ),
            decreases rest@.len(),
        {
            let (def, handler) = rest.remove(0);
            let name = prefixed_name(extension_id, def.name.as_str());
            let ghost before = self.routes();
            let ghost before_tools = self.route_tools();
            let caps = copy_capabilities(capabilities);
            self.handler_map.push((name, def.name, handler, caps));
            assert(self.routes() =~= before.push((prefixed(extension_id@, def.name@), handler)));
            assert(self.route_tools() =~= before_tools.push((def.name@, capabilities@)));
            assert(self.granted() =~= g0.push((extension_id@, capabilities@)));
            j = j + 1;
            assert(tl.subrange(0, j as int) =~= tl.subrange(0, j - 1).push(tl[j - 1]));
            assert(rest@ =~= tl.subrange(j as int, n as int));
            assert(self.routes() =~= start + tl.subrange(0, j as int).map_values(
                |t: (ToolDefinition, H)| (prefixed(extension_id@, t.0.name@), t.1),
            ));
            assert(self.route_tools() =~= start_tools + tl.subrange(0, j as int).map_values(
                |t: (ToolDefinition, H)| (t.0.name@, capabilities@),
            ));
        }
        assert(tl.subrange(0, n as int) =~= tl);
    }

    /// A call of the tool under `prefixed_name` that needs the capabilities
    /// `needs`: the tool's own name (the prefix taken off) and the handler
    /// of the first route with that name, when its extension was granted
    /// all of them; refused when it was not; the error that no extension has
    /// that tool when no route has the name.
    pub fn route(&self, prefixed_name: &str, needs: &[ExtensionCapability]) -> (r: Result<(String, &H), ExtensionError>)
        ensures
            self.route_tools().len() == self.routes().len(),
            match first_route(self.routes(), prefixed_name@, 0) {
                Some(i) => if permits(self.route_tools()[i].1, needs@) {
                    r matches Ok((n, h)) && n@ == self.route_tools()[i].0 && *h == self.routes()[i].1
                } else {
                    r matches Err(ExtensionError::Blocked { reason }) && reason@ == not_permitted_reason(prefixed_name@)
                },
                None => r matches Err(ExtensionError::NotFound(m)) && m@ == "Tool "@ + prefixed_name@
                    + " not found in any extension"@,
            },
    {
        let ghost rs = self.routes();
        let mut i: usize = 0;
        while i < self.handler_map.len()
            invariant
                i <= self.handler_map@.len(),
                rs == self.routes(),
                rs.len() == self.handler_map@.len(),
                first_route(rs, prefixed_name@, 0) == first_route(rs, prefixed_name@, i as int),
            decreases self.handler_map@.len() - i,
        {
            assert(rs[i as int].0 == self.handler_map@[i as int].0@);
            if same_text(self.handler_map[i].0.as_str(), prefixed_name) {
                assert(self.route_tools()[i as int] == (self.handler_map@[i as int].1@, self.handler_map@[i as int].3@));
                if permitted(&self.handler_map[i].3, needs) {
                    return Ok((self.handler_map[i].1.clone(), &self.handler_map[i].2));
                }
                let mut reason = owned("Tool ");
                push_str(&mut reason, prefixed_name);
                push_str(&mut reason, " needs a capability not granted to its extension");
                return Err(ExtensionError::Blocked { reason });
            }
            i = i + 1;
        }
        let mut m = owned("Tool ");
        push_str(&mut m, prefixed_name);
        push_str(&mut m, " not found in any extension");
        Err(ExtensionError::NotFound(m))
    }
}

/// A tool registered through the router is found under its prefixed name,
/// unless an earlier route has that name, and that route gives the tool's
/// own name, its handler and the capabilities granted with it.
pub proof fn law_registered_tool_is_routed<H>(
    before: Seq<(Seq<char>, H)>,
    before_tools: Seq<(Seq<char>, Seq<ExtensionCapability>)>,
    ext_id: Seq<char>,
    tools: Seq<(ToolDefinition, H)>,
    caps: Seq<ExtensionCapability>,
    k: int,
)
    requires
        before_tools.len() == before.len(),
        0 <= k < tools.len(),
        forall|j: int| 0 <= j < k ==> tools[j].0.name@ != tools[k].0.name@,
        forall|j: int| 0 <= j < before.len() ==> before[j].0 != prefixed(ext_id, tools[k].0.name@),
    ensures
        first_route(
            before + tools.map_values(|t: (ToolDefinition, H)| (prefixed(ext_id, t.0.name@), t.1)),
            prefixed(ext_id, tools[k].0.name@),
            0,
        ) == Some(before.len() + k),
        (before + tools.map_values(|t: (ToolDefinition, H)| (prefixed(ext_id, t.0.name@), t.1)))[before.len() + k].1
            == tools[k].1,
        (before_tools + tools.map_values(|t: (ToolDefinition, H)| (t.0.name@, caps)))[before.len() + k]
            == (tools[k].0.name@, caps),
{
    reveal_strlit("__");
    let rs = before + tools.map_values(|t: (ToolDefinition, H)| (prefixed(ext_id, t.0.name@), t.1));
    let name = prefixed(ext_id, tools[k].0.name@);
    assert forall|j: int| 0 <= j < before.len() + k implies rs[j].0 != name by {
        if j >= before.len() {
            let t = j - before.len();
            assert(rs[j].0 == prefixed(ext_id, tools[t].0.name@));
            if tools[t].0.name@ != tools[k].0.name@ {
                assert(prefixed(ext_id, tools[t].0.name@).subrange(ext_id.len() + 2int, prefixed(ext_id, tools[t].0.name@).len() as int) =~= tools[t].0.name@);
                assert(name.subrange(ext_id.len() + 2int, name.len() as int) =~= tools[k].0.name@);
            }
        }
    }
    assert(rs[before.len() + k].0 == name);
    lemma_first_route_skip(rs, name, 0, before.len() + k);
}

proof fn lemma_first_route_skip<H>(rs: Seq<(Seq<char>, H)>, name: Seq<char>, i: int, j: int)
    requires
        0 <= i <= j < rs.len(),
        rs[j].0 == name,
        forall|k: int| i <= k < j ==> rs[k].0 != name,
    ensures
        first_route(rs, name, i) == Some(j),
    decreases j - i,
{
    if i < j {
        lemma_first_route_skip(rs, name, i + 1, j);
    }
}

/// The definition of a tool that a WebAssembly extension lists: its name
/// (`unknown` when absent) and description (empty when absent); such tools
/// may run alongside others.
pub fn wasm_tool_definition(name: Option<String>, description: Option<String>, parameters: serde_json::Value) -> (r: ToolDefinition)
    ensures
        r.name@ == match name {
            Some(n) => n@,
            None => "unknown"@,
        },
        r.description@ == match description {
            Some(d) => d@,
            None => Seq::empty(),
        },
        r.parameters == parameters,
        r.origin == crate::tool::ToolOrigin::Wasm,
        r.execution_mode == crate::tool::ExecutionMode::Concurrent,
{
    ToolDefinition {
        name: match name {
            Some(n) => n,
            None => owned("unknown"),
        },
        description: match description {
            Some(d) => d,
            None => String::new(),
        },
        parameters,
        origin: crate::tool::ToolOrigin::Wasm,
        execution_mode: crate::tool::ExecutionMode::Concurrent,
    }
}

/// The result a WebAssembly tool returned, from the fields of its JSON:
/// empty content and no error when absent.
pub fn wasm_tool_result(content: Option<String>, is_error: Option<bool>, metadata: Option<serde_json::Value>) -> (r: crate::tool::ToolResult)
    ensures
        r.content@ == match content {
            Some(c) => c@,
            None => Seq::empty(),
        },
        r.is_error == (is_error == Some(true)),
        r.metadata == metadata,
{
    crate::tool::ToolResult {
        content: match content {
            Some(c) => c,
            None => String::new(),
        },
        is_error: match is_error {
            Some(b) => b,
            None => false,
        },
        metadata,
    }
}

/// The error of a WebAssembly tool whose answer is not JSON.
pub fn wasm_parse_error(err: &str) -> (r: ExtensionError)
    ensures
        r matches ExtensionError::Internal(m) && m@ == "WASM parse: "@ + err@,
{
    let mut m = owned("WASM parse: ");
    push_str(&mut m, err);
    ExtensionError::Internal(m)
}

} // verus!
