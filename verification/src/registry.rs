//! The tool registry that finds tools by name, and the kernel that fills it
//! from tool providers.
use vstd::prelude::*;
use crate::text::same_text;
use crate::tool::{ToolDefinition, ToolProviderScope};

verus! {

/// The first entry at or after `i` named `name`.
pub open spec fn first_named<T>(es: Seq<(ToolDefinition, T)>, name: Seq<char>, i: int) -> Option<int>
    decreases es.len() - i,
{
    if i < 0 || i >= es.len() {
        None
    } else if es[i].0.name@ == name {
        Some(i)
    } else {
        first_named(es, name, i + 1)
    }
}

/// What the first match of a name is.
pub proof fn lemma_first_named<T>(es: Seq<(ToolDefinition, T)>, name: Seq<char>, i: int)
    ensures
        match first_named(es, name, i) {
            Some(j) => i <= j < es.len() && 0 <= j && es[j].0.name@ == name
                && forall|k: int| i <= k < j ==> es[k].0.name@ != name,
            None => forall|k: int| 0 <= i <= k < es.len() ==> es[k].0.name@ != name,
        },
    decreases es.len() - i,
{
    if 0 <= i < es.len() && es[i].0.name@ != name {
        lemma_first_named(es, name, i + 1);
    }
}

/// The name, description, origin and mode of two definitions agree (the
/// schemas are carried along unexamined).
pub open spec fn same_definition(a: ToolDefinition, b: ToolDefinition) -> bool {
    &&& a.name@ == b.name@
    &&& a.description@ == b.description@
    &&& a.origin == b.origin
    &&& a.execution_mode == b.execution_mode
}

/// A list of tools with their definitions, in registration order, looked
/// up by name (the first registered of a name wins).
pub struct ToolRegistry<T> {
    entries: Vec<(ToolDefinition, T)>,
}

impl<T> View for ToolRegistry<T> {
    type V = Seq<(ToolDefinition, T)>;

    closed spec fn view(&self) -> Seq<(ToolDefinition, T)> {
        self.entries@
    }
}

impl<T> ToolRegistry<T> {
    /// An empty registry.
    pub fn new() -> (r: Self)
        ensures
            r@ == Seq::<(ToolDefinition, T)>::empty(),
    {
        ToolRegistry { entries: Vec::new() }
    }

    /// Adds a tool after the others.
    pub fn register(&mut self, def: ToolDefinition, tool: T)
        ensures
            final(self)@ == old(self)@.push((def, tool)),
    {
        self.entries.push((def, tool));
    }

    /// The position of the first tool with the given name.
    pub fn position(&self, name: &str) -> (r: Option<usize>)
        ensures
            match r {
                Some(i) => first_named(self@, name@, 0) == Some(i as int),
                None => first_named(self@, name@, 0) is None,
            },
    {
        let mut i: usize = 0;
        while i < self.entries.len()
            invariant
                i <= self@.len(),
                self@ == self.entries@,
                first_named(self@, name@, 0) == first_named(self@, name@, i as int),
            decreases self@.len() - i,
        {
            if same_text(self.entries[i].0.name.as_str(), name) {
                return Some(i);
            }
            i = i + 1;
        }
        None
    }

    /// The first tool with the given name.
    pub fn find(&self, name: &str) -> (r: Option<&T>)
        ensures
            match first_named(self@, name@, 0) {
                Some(i) => r == Some(&self@[i].1),
                None => r is None,
            },
    {
        proof {
            lemma_first_named(self@, name@, 0);
        }
        match self.position(name) {
            Some(i) => Some(&self.entries[i].1),
            None => None,
        }
    }

    /// The definition of the first tool with the given name.
    pub fn find_definition(&self, name: &str) -> (r: Option<ToolDefinition>)
        ensures
            match first_named(self@, name@, 0) {
                Some(i) => r matches Some(d) && same_definition(d, self@[i].0),
                None => r is None,
            },
    {
        proof {
            lemma_first_named(self@, name@, 0);
        }
        match self.position(name) {
            Some(i) => Some(self.entries[i].0.duplicate()),
            None => None,
        }
    }

    /// The definitions of all tools, in registration order.
    pub fn all_definitions(&self) -> (r: Vec<ToolDefinition>)
        ensures
            r@.len() == self@.len(),
            forall|k: int| 0 <= k < r@.len() ==> same_definition(#[trigger] r@[k], self@[k].0),
    {
        let mut out: Vec<ToolDefinition> = Vec::new();
        let mut i: usize = 0;
        while i < self.entries.len()
            invariant
                i <= self@.len(),
                self@ == self.entries@,
                out@.len() == i,
                forall|k: int| 0 <= k < i ==> same_definition(#[trigger] out@[k], self@[k].0),
            decreases self@.len() - i,
        {
            out.push(self.entries[i].0.duplicate());
            i = i + 1;
        }
        out
    }

    /// The tools, in registration order.
    pub fn all_tools(&self) -> (r: Vec<&T>)
        ensures
            r@.len() == self@.len(),
            forall|k: int| 0 <= k < r@.len() ==> *r@[k] == self@[k].1,
    {
        let mut out: Vec<&T> = Vec::new();
        let mut i: usize = 0;
        while i < self.entries.len()
            invariant
                i <= self@.len(),
                self@ == self.entries@,
                out@.len() == i,
                forall|k: int| 0 <= k < i ==> *out@[k] == self@[k].1,
            decreases self@.len() - i,
        {
            out.push(&self.entries[i].1);
            i = i + 1;
        }
        out
    }

    /// How many tools are registered.
    pub fn len(&self) -> (r: usize)
        ensures
            r == self@.len(),
    {
        self.entries.len()
    }

    /// Whether no tool is registered.
    pub fn is_empty(&self) -> (r: bool)
        ensures
            r == (self@.len() == 0),
    {
        self.entries.len() == 0
    }

    /// A registry holding each list's tools in turn.
    pub fn from_lists(lists: Vec<Vec<(ToolDefinition, T)>>) -> (r: Self)
        ensures
            r@ == lists@.map_values(|l: Vec<(ToolDefinition, T)>| l@).flatten(),
    {
        let ghost lv = lists@.map_values(|l: Vec<(ToolDefinition, T)>| l@);
        let mut reg = ToolRegistry::new();
        let mut rest = lists;
        let mut i: usize = 0;
        let n = rest.len();
        while rest.len() > 0
            invariant
                n == lv.len(),
                i + rest@.len() == n,
                rest@.map_values(|l: Vec<(ToolDefinition, T)>| l@) == lv.subrange(i as int, n as int),
                reg@ == lv.subrange(0, i as int).flatten(),
            decreases rest@.len(),
        {
            let ghost rv = rest@;
            let list = rest.remove(0);
            proof {
                assert(list@ == rv.map_values(|l: Vec<(ToolDefinition, T)>| l@)[0]);
                assert(rest@.map_values(|l: Vec<(ToolDefinition, T)>| l@) =~= rv.map_values(
                    |l: Vec<(ToolDefinition, T)>| l@,
                ).subrange(1, rv.len() as int));
            }
            let ghost before = reg@;
            let ghost lview = list@;
            let mut items = list;
            let mut j: usize = 0;
            let m = items.len();
            while items.len() > 0
                invariant
                    m == lview.len(),
                    j + items@.len() == m,
                    items@ == lview.subrange(j as int, m as int),
                    reg@ == before + lview.subrange(0, j as int),
                decreases items@.len(),
            {
                let (d, t) = items.remove(0);
                reg.register(d, t);
                j = j + 1;
                assert(items@ =~= lview.subrange(j as int, m as int));
                assert(reg@ =~= before + lview.subrange(0, j as int));
            }
            proof {
                assert(lview.subrange(0, m as int) =~= lview);
                lv.subrange(0, i as int).lemma_flatten_push(lview);
                assert(lv.subrange(0, i + 1) =~= lv.subrange(0, i as int).push(lview));
            }
            i = i + 1;
            assert(rest@.map_values(|l: Vec<(ToolDefinition, T)>| l@) =~= lv.subrange(i as int, n as int));
        }
        assert(lv.subrange(0, n as int) =~= lv);
        reg
    }
}

/// Registering keeps the tools found before: the first registration of a
/// name wins, and a new name is found at the end.
pub proof fn law_first_registration_wins<T>(es: Seq<(ToolDefinition, T)>, d: ToolDefinition, t: T, name: Seq<char>)
    ensures
        first_named(es, name, 0) is Some ==> first_named(es.push((d, t)), name, 0) == first_named(es, name, 0),
        first_named(es, name, 0) is None ==> first_named(es.push((d, t)), name, 0) == if d.name@ == name {
            Some(es.len() as int)
        } else {
            None::<int>
        },
{
    lemma_first_named_push(es, (d, t), name, 0);
}

proof fn lemma_first_named_push<T>(es: Seq<(ToolDefinition, T)>, x: (ToolDefinition, T), name: Seq<char>, i: int)
    requires
        0 <= i <= es.len(),
    ensures
        first_named(es, name, i) is Some ==> first_named(es.push(x), name, i) == first_named(es, name, i),
        first_named(es, name, i) is None ==> first_named(es.push(x), name, i) == if x.0.name@ == name {
            Some(es.len() as int)
        } else {
            None::<int>
        },
    decreases es.len() - i,
{
    let ps = es.push(x);
    if i < es.len() {
        assert(ps[i] == es[i]);
        lemma_first_named_push(es, x, name, i + 1);
    } else {
        assert(ps[i] == x);
        assert(first_named(ps, name, i + 1) is None);
    }
}

/// A source of tools, such as the built-in file tools or the tools of MCP
/// servers.
pub trait ToolProvider<T> {
    /// Whether `tools` is what this provider offers for the working
    /// directory `dir`.
    spec fn offers(&self, dir: Seq<char>, tools: Seq<(ToolDefinition, T)>) -> bool;

    /// The tools this provider offers in the given scope.
    fn tools(&self, scope: &ToolProviderScope) -> (r: Vec<(ToolDefinition, T)>)
        ensures
            self.offers(scope.working_dir@, r@),
    ;
}

/// The composition of tool providers that a host runs with.
pub struct Kernel<P> {
    providers: Vec<P>,
}

/// Builds a kernel by adding tool providers.
pub struct KernelBuilder<P> {
    providers: Vec<P>,
}

impl<P> View for Kernel<P> {
    type V = Seq<P>;

    closed spec fn view(&self) -> Seq<P> {
        self.providers@
    }
}

impl<P> View for KernelBuilder<P> {
    type V = Seq<P>;

    closed spec fn view(&self) -> Seq<P> {
        self.providers@
    }
}

impl<P> Kernel<P> {
    /// A builder with no providers.
    pub fn builder() -> (r: KernelBuilder<P>)
        ensures
            r@ == Seq::<P>::empty(),
    {
        KernelBuilder { providers: Vec::new() }
    }

    /// The providers, in the order they were added.
    pub fn tool_providers(&self) -> (r: &[P])
        ensures
            r@ == self@,
    {
        self.providers.as_slice()
    }

    /// A registry of every provider's tools, provider by provider.
    pub fn build_tool_registry<T>(&self, scope: &ToolProviderScope) -> (r: ToolRegistry<T>)
        where P: ToolProvider<T>
        ensures
            exists|ls: Seq<Seq<(ToolDefinition, T)>>|
                #![trigger ls.flatten()]
                ls.len() == self@.len() && (forall|k: int| 0 <= k < ls.len() ==> self@[k].offers(scope.working_dir@, #[trigger] ls[k]))
                    && r@ == ls.flatten(),
    {
        let mut lists: Vec<Vec<(ToolDefinition, T)>> = Vec::new();
        let mut i: usize = 0;
        while i < self.providers.len()
            invariant
                i <= self@.len(),
                self@ == self.providers@,
                lists@.len() == i,
                forall|k: int| 0 <= k < i ==> self@[k].offers(scope.working_dir@, #[trigger] lists@[k]@),
            decreases self.providers@.len() - i,
        {
            let l = self.providers[i].tools(scope);
            lists.push(l);
            i = i + 1;
        }
        let ghost ls = lists@.map_values(|l: Vec<(ToolDefinition, T)>| l@);
        let r = ToolRegistry::from_lists(lists);
        assert(forall|k: int| 0 <= k < ls.len() ==> self@[k].offers(scope.working_dir@, #[trigger] ls[k]));
        assert(r@ == ls.flatten());
        r
    }
}

impl<P> KernelBuilder<P> {
    /// Adds a provider after the others.
    pub fn with_tool_provider(self, provider: P) -> (r: Self)
        ensures
            r@ == self@.push(provider),
    {
        let mut providers = self.providers;
        providers.push(provider);
        KernelBuilder { providers }
    }

    /// The kernel with the providers added.
    pub fn build(self) -> (r: Kernel<P>)
        ensures
            r@ == self@,
    {
        Kernel { providers: self.providers }
    }
}

} // verus!
