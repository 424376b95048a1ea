//! The module registry: registers feature modules with their dependencies
//! first, and collects their commands, completion handlers and event
//! subscriptions.
use vstd::prelude::*;
use vstd::set_lib::*;
use crate::command::CommandKind;
use crate::completion::CompletionChain;
use crate::events::{EventHandlers, Subscription};
use crate::router::{CommandEntry, CommandKey, CommandStore, entry_has_key, has_key, keys_unique};

verus! {

/// What a module declares: the modules it depends on (by position in the
/// catalog), and what it contributes once initialized.
pub struct ModuleDescriptor {
    pub name: String,
    pub dependencies: Vec<usize>,
    pub commands: Vec<CommandEntry>,
    pub completion_handlers: Vec<u64>,
    pub event_subscriptions: Vec<Subscription>,
}

/// Why a module could not be registered.
#[derive(Debug)]
pub enum ModuleError {
    /// No module at this position of the catalog.
    UnknownModule(usize),
    /// This module depends, directly or not, on itself.
    DependencyCycle(usize),
    /// A command with this key is already registered.
    DuplicateRegistration(String, CommandKind),
}

/// The modules registered so far, in initialization order.
pub struct ModuleMap {
    modules: Vec<usize>,
}

impl View for ModuleMap {
    type V = Seq<usize>;

    closed spec fn view(&self) -> Seq<usize> {
        self.modules@
    }
}

impl ModuleMap {
    pub fn new() -> (r: ModuleMap)
        ensures
            r@ == Seq::<usize>::empty(),
    {
        ModuleMap { modules: Vec::new() }
    }

    pub fn contains(&self, id: usize) -> (r: bool)
        ensures
            r == self@.contains(id),
    {
        let mut i: usize = 0;
        while i < self.modules.len()
            invariant
                i <= self@.len(),
                forall|k: int| 0 <= k < i ==> self@[k] != id,
            decreases self@.len() - i,
        {
            if self.modules[i] == id {
                return true;
            }
            i = i + 1;
        }
        false
    }

    /// Position of module `id` in initialization order; an error when it
    /// was never registered.
    pub fn module(&self, id: usize) -> (r: Result<usize, ModuleError>)
        ensures
            r is Ok <==> self@.contains(id),
            r is Ok ==> r->Ok_0 < self@.len() && self@[r->Ok_0 as int] == id,
            r is Err ==> r->Err_0 == ModuleError::UnknownModule(id),
    {
        let mut i: usize = 0;
        while i < self.modules.len()
            invariant
                i <= self@.len(),
                forall|k: int| 0 <= k < i ==> self@[k] != id,
            decreases self@.len() - i,
        {
            if self.modules[i] == id {
                return Ok(i);
            }
            i = i + 1;
        }
        Err(ModuleError::UnknownModule(id))
    }

    /// Number of registered modules.
    pub fn len(&self) -> (r: usize)
        ensures
            r == self@.len(),
    {
        self.modules.len()
    }

    /// The module initialized in position `i`.
    pub fn get(&self, i: usize) -> (r: usize)
        requires
            i < self@.len(),
        ensures
            r == self@[i as int],
    {
        self.modules[i]
    }

    fn push(&mut self, id: usize)
        ensures
            final(self)@ == old(self)@.push(id),
    {
        self.modules.push(id);
    }
}

/// The dependencies of module `m`.
pub open spec fn deps(cat: Seq<ModuleDescriptor>, m: int) -> Seq<usize> {
    cat[m].dependencies@
}

/// The commands of module `m`.
pub open spec fn cmds(cat: Seq<ModuleDescriptor>, m: int) -> Seq<CommandEntry> {
    cat[m].commands@
}

/// Commands contributed by `mods`, module after module.
pub open spec fn registered_commands(cat: Seq<ModuleDescriptor>, mods: Seq<usize>) -> Seq<CommandEntry>
    decreases mods.len(),
{
    if mods.len() == 0 {
        Seq::empty()
    } else {
        registered_commands(cat, mods.drop_last()) + cmds(cat, mods.last() as int)
    }
}

/// Completion handlers contributed by `mods`, module after module.
pub open spec fn registered_completions(cat: Seq<ModuleDescriptor>, mods: Seq<usize>) -> Seq<u64>
    decreases mods.len(),
{
    if mods.len() == 0 {
        Seq::empty()
    } else {
        registered_completions(cat, mods.drop_last()) + cat[mods.last() as int].completion_handlers@
    }
}

/// Event subscriptions contributed by `mods`, module after module.
pub open spec fn registered_events(cat: Seq<ModuleDescriptor>, mods: Seq<usize>) -> Seq<Subscription>
    decreases mods.len(),
{
    if mods.len() == 0 {
        Seq::empty()
    } else {
        registered_events(cat, mods.drop_last()) + cat[mods.last() as int].event_subscriptions@
    }
}

/// Every dependency of a module stands before it in `mods`.
pub open spec fn deps_first(cat: Seq<ModuleDescriptor>, mods: Seq<usize>) -> bool {
    forall|i: int, k: int|
        0 <= i < mods.len() && 0 <= k < deps(cat, mods[i] as int).len()
            ==> #[trigger] mods.subrange(0, i).contains(#[trigger] deps(cat, mods[i] as int)[k])
}

/// `mods` is a valid initialization order: known modules, each once,
/// dependencies first.
pub open spec fn valid_order(cat: Seq<ModuleDescriptor>, mods: Seq<usize>) -> bool {
    &&& forall|i: int| 0 <= i < mods.len() ==> #[trigger] mods[i] < cat.len()
    &&& mods.no_duplicates()
    &&& deps_first(cat, mods)
}

/// `rank` strictly decreases along every dependency, so no module depends
/// on itself, directly or not; every dependency is a known module.
pub open spec fn ranked(cat: Seq<ModuleDescriptor>, rank: Seq<nat>) -> bool {
    &&& rank.len() == cat.len()
    &&& forall|m: int, k: int|
        0 <= m < cat.len() && 0 <= k < deps(cat, m).len()
            ==> #[trigger] deps(cat, m)[k] < cat.len() && rank[deps(cat, m)[k] as int] < rank[m]
}

/// The dependency graph has no cycle and names only known modules.
pub open spec fn acyclic(cat: Seq<ModuleDescriptor>) -> bool {
    exists|rank: Seq<nat>| ranked(cat, rank)
}

/// No two commands of the catalog share a key.
pub open spec fn keys_disjoint(cat: Seq<ModuleDescriptor>) -> bool {
    forall|m1: int, i1: int, m2: int, i2: int|
        0 <= m1 < cat.len() && 0 <= m2 < cat.len() && 0 <= i1 < cmds(cat, m1).len()
            && 0 <= i2 < cmds(cat, m2).len() && (m1 != m2 || i1 != i2)
            ==> !entry_has_key(#[trigger] cmds(cat, m1)[i1], cmds(cat, m2)[i2].key.name@,
                #[trigger] cmds(cat, m2)[i2].key.kind)
}

/// A catalog from which every module can be registered.
pub open spec fn catalog_sound(cat: Seq<ModuleDescriptor>) -> bool {
    acyclic(cat) && keys_disjoint(cat)
}

/// What registering module `id` of `cat` on builder `b` gives.
pub open spec fn module_post(
    b: HandlerBuilder,
    cat: Seq<ModuleDescriptor>,
    id: usize,
    r: Result<HandlerBuilder, ModuleError>,
) -> bool {
    &&& r is Ok ==> {
        let n = r->Ok_0;
        &&& n.wf(cat)
        &&& n.modules@.contains(id)
        &&& n.modules@.len() >= b.modules@.len()
        &&& n.modules@.subrange(0, b.modules@.len() as int) == b.modules@
        &&& n.special_commands == b.special_commands
        &&& n.default_command_handler == b.default_command_handler
        &&& added_for(cat, n.modules@, b.modules@.len() as int, id)
    }
    &&& b.modules@.contains(id) ==> r == Ok::<HandlerBuilder, ModuleError>(b)
    &&& id >= cat.len() ==> r is Err && r->Err_0 == ModuleError::UnknownModule(id)
    &&& catalog_sound(cat) && id < cat.len() ==> r is Ok
    &&& r is Err && r->Err_0 is UnknownModule ==> r->Err_0->UnknownModule_0 >= cat.len()
    &&& r is Err && r->Err_0 is DependencyCycle ==> r->Err_0->DependencyCycle_0 < cat.len()
    &&& r is Err && r->Err_0 is DuplicateRegistration ==> catalog_declares(cat,
        r->Err_0->DuplicateRegistration_0@, r->Err_0->DuplicateRegistration_1)
}

/// Every module of `mods` from position `from` on is `id` or a dependency
/// of a module registered there: registering `id` adds nothing it does not
/// need.
pub open spec fn added_for(cat: Seq<ModuleDescriptor>, mods: Seq<usize>, from: int, id: usize) -> bool {
    forall|k: int| from <= k < mods.len() ==> mods[k] == id
        || exists|j: int| from <= j < mods.len() && #[trigger] deps(cat, mods[j] as int).contains(mods[k])
}

/// Some module of the catalog declares a command under `(name, kind)`.
pub open spec fn catalog_declares(cat: Seq<ModuleDescriptor>, name: Seq<char>, kind: CommandKind) -> bool {
    exists|m: int, j: int| 0 <= m < cat.len() && 0 <= j < cmds(cat, m).len()
        && entry_has_key(#[trigger] cmds(cat, m)[j], name, kind)
}

/// Registering a module that is already registered changes nothing: each
/// module is initialized once and its commands are registered once.
pub proof fn lemma_module_idempotent(
    b0: HandlerBuilder,
    cat: Seq<ModuleDescriptor>,
    id: usize,
    b1: HandlerBuilder,
    r2: Result<HandlerBuilder, ModuleError>,
)
    requires
        module_post(b0, cat, id, Ok(b1)),
        module_post(b1, cat, id, r2),
    ensures
        r2 == Ok::<HandlerBuilder, ModuleError>(b1),
        b1.modules@.contains(id),
        b1.modules@.no_duplicates(),
        b1.commands@ == registered_commands(cat, b1.modules@),
{
}

/// In every valid builder each dependency of a registered module was
/// registered, and so initialized, before it.
pub proof fn lemma_dependencies_first(b: HandlerBuilder, cat: Seq<ModuleDescriptor>, i: int, dep: usize)
    requires
        b.wf(cat),
        0 <= i < b.modules@.len(),
        deps(cat, b.modules@[i] as int).contains(dep),
    ensures
        exists|j: int| 0 <= j < i && b.modules@[j] == dep,
{
    let k = choose|k: int| 0 <= k < deps(cat, b.modules@[i] as int).len() && deps(cat, b.modules@[i] as int)[k] == dep;
    assert(b.modules@.subrange(0, i).contains(deps(cat, b.modules@[i] as int)[k]));
    let j = choose|j: int| 0 <= j < i && b.modules@.subrange(0, i)[j] == dep;
    assert(b.modules@[j] == dep);
}

proof fn lemma_added_within(
    cat: Seq<ModuleDescriptor>,
    mods: Seq<usize>,
    from: int,
    id: usize,
    a: usize,
    b: usize,
    k: int,
)
    requires
        valid_order(cat, mods),
        added_for(cat, mods, from, id),
        id == a || id == b,
        forall|t: int| 0 <= t < deps(cat, a as int).len() ==> #[trigger] deps(cat, a as int)[t] == a || deps(cat, a as int)[t] == b,
        forall|t: int| 0 <= t < deps(cat, b as int).len() ==> #[trigger] deps(cat, b as int)[t] == a || deps(cat, b as int)[t] == b,
        0 <= from <= k < mods.len(),
    ensures
        mods[k] == a || mods[k] == b,
    decreases mods.len() - k,
{
    if mods[k] != a && mods[k] != b {
        let j = choose|j: int| from <= j < mods.len() && #[trigger] deps(cat, mods[j] as int).contains(mods[k]);
        let t = choose|t: int| 0 <= t < deps(cat, mods[j] as int).len() && deps(cat, mods[j] as int)[t] == mods[k];
        assert(mods.subrange(0, j).contains(deps(cat, mods[j] as int)[t]));
        let i = choose|i: int| 0 <= i < j && mods.subrange(0, j)[i] == mods[k];
        assert(mods[i] == mods[k]);
        assert(i == k);
        lemma_added_within(cat, mods, from, id, a, b, j);
    }
}

/// For modules `a`, without dependencies, and `b`, depending on `a` alone,
/// the initialization order from an empty builder is `[a, b]` whether `b`
/// is registered alone or after `a`.
pub proof fn lemma_dependency_order_any_call_order(
    cat: Seq<ModuleDescriptor>,
    empty: HandlerBuilder,
    a: usize,
    b: usize,
    only_b: HandlerBuilder,
    a_first: HandlerBuilder,
    a_then_b: HandlerBuilder,
)
    requires
        a != b,
        deps(cat, a as int).len() == 0,
        deps(cat, b as int) == seq![a],
        empty.modules@.len() == 0,
        module_post(empty, cat, b, Ok(only_b)),
        module_post(empty, cat, a, Ok(a_first)),
        module_post(a_first, cat, b, Ok(a_then_b)),
    ensures
        only_b.modules@ == seq![a, b],
        a_then_b.modules@ == seq![a, b],
{
    assert forall|t: int| 0 <= t < deps(cat, b as int).len() implies #[trigger] deps(cat, b as int)[t] == a || deps(cat, b as int)[t] == b by {}
    lemma_two_modules(cat, only_b.modules@, 0, b, a, b);
    lemma_two_modules(cat, a_first.modules@, 0, a, a, b);
    let m = a_first.modules@;
    assert(m.len() == 1) by {
        let i = choose|i: int| 0 <= i < m.len() && m[i] == a;
        if m.len() > 1 {
            let o = if i == 0 { 1int } else { 0int };
            assert(m[o] == a || m[o] == b);
            if m[o] == b {
                // b needs a before it, but a stands only at i
                assert(m.subrange(0, o).contains(deps(cat, m[o] as int)[0]));
                let w = choose|w: int| 0 <= w < o && m.subrange(0, o)[w] == a;
                assert(m[w] == a);
            }
        }
    }
    assert(m[0] == a);
    let n = a_then_b.modules@;
    assert(n.subrange(0, 1) == m);
    assert(n[0] == n.subrange(0, 1)[0]);
    lemma_two_modules(cat, n, 1, b, a, b);
}

/// In a valid order that holds `id` and only `a` and `b`, where `b` needs
/// `a`: the order holds `a` and `b` once each, `a` first, when it holds `b`.
proof fn lemma_two_modules(cat: Seq<ModuleDescriptor>, mods: Seq<usize>, from: int, id: usize, a: usize, b: usize)
    requires
        a != b,
        0 <= from <= mods.len(),
        forall|k: int| 0 <= k < from ==> mods[k] == a || mods[k] == b,
        valid_order(cat, mods),
        added_for(cat, mods, from, id),
        mods.contains(id),
        id == a || id == b,
        deps(cat, a as int).len() == 0,
        deps(cat, b as int) == seq![a],
    ensures
        forall|k: int| 0 <= k < mods.len() ==> mods[k] == a || mods[k] == b,
        mods.contains(a),
        mods.contains(b) ==> mods == seq![a, b],
{
    assert forall|t: int| 0 <= t < deps(cat, b as int).len() implies #[trigger] deps(cat, b as int)[t] == a || deps(cat, b as int)[t] == b by {}
    assert forall|k: int| 0 <= k < mods.len() implies mods[k] == a || mods[k] == b by {
        if k >= from {
            lemma_added_within(cat, mods, from, id, a, b, k);
        }
    }
    if mods.contains(b) {
        let j = choose|j: int| 0 <= j < mods.len() && mods[j] == b;
        assert(deps(cat, mods[j] as int)[0] == a);
        assert(mods.subrange(0, j).contains(deps(cat, mods[j] as int)[0]));
        let i = choose|i: int| 0 <= i < j && mods.subrange(0, j)[i] == a;
        assert(mods[i] == a);
        if mods.len() > 2 {
            let o: int = if i != 0 && j != 0 { 0 } else if i != 1 && j != 1 { 1 } else { 2 };
            assert(o != i && o != j);
            assert(mods[o] == a || mods[o] == b);
            assert(mods[o] != mods[i]);
            assert(mods[o] != mods[j]);
        }
        assert(mods.len() == 2) by {
            assert(i != j);
            if mods.len() < 2 {
                assert(i < mods.len() && j < mods.len());
            }
        }
        assert(i == 0 && j == 1);
        assert(mods =~= seq![a, b]);
    } else {
        assert(id == a);
    }
}

/// Positions marked in `v`.
pub open spec fn marked(v: Seq<bool>) -> Set<int> {
    Set::new(|i: int| 0 <= i < v.len() && v[i])
}

proof fn lemma_marked_bounded(v: Seq<bool>)
    ensures
        marked(v).finite(),
        marked(v).len() <= v.len(),
{
    lemma_int_range(0, v.len() as int);
    assert(marked(v).subset_of(set_int_range(0, v.len() as int)));
    lemma_len_subset(marked(v), set_int_range(0, v.len() as int));
}

proof fn lemma_marked_grows(a: Seq<bool>, b: Seq<bool>, x: int)
    requires
        a.len() == b.len(),
        forall|i: int| 0 <= i < a.len() && a[i] ==> b[i],
        0 <= x < a.len(),
        !a[x],
        b[x],
    ensures
        marked(a).len() < marked(b).len(),
{
    lemma_marked_bounded(a);
    lemma_marked_bounded(b);
    assert(marked(a).insert(x).subset_of(marked(b)));
    lemma_len_subset(marked(a).insert(x), marked(b));
}

/// Modules that are being registered and are not finished yet.
pub open spec fn in_progress(v: Seq<bool>, mods: Seq<usize>, x: int) -> bool {
    0 <= x < v.len() && v[x] && !mods.contains(x as usize)
}

proof fn lemma_not_registered(cat: Seq<ModuleDescriptor>, mods: Seq<usize>, id: int, j: int)
    requires
        keys_disjoint(cat),
        forall|i: int| 0 <= i < mods.len() ==> #[trigger] mods[i] < cat.len(),
        !mods.contains(id as usize),
        0 <= id < cat.len(),
        0 <= j < cmds(cat, id).len(),
    ensures
        !has_key(registered_commands(cat, mods), cmds(cat, id)[j].key.name@, cmds(cat, id)[j].key.kind),
    decreases mods.len(),
{
    if mods.len() > 0 {
        let front = mods.drop_last();
        assert forall|i: int| 0 <= i < front.len() implies #[trigger] front[i] < cat.len() by {
            assert(front[i] == mods[i]);
        }
        assert(!front.contains(id as usize)) by {
            if front.contains(id as usize) {
                let t = choose|t: int| 0 <= t < front.len() && front[t] == id as usize;
                assert(mods[t] == front[t]);
            }
        }
        lemma_not_registered(cat, front, id, j);
        let r = registered_commands(cat, front);
        let last = mods.last() as int;
        assert(mods[mods.len() - 1] < cat.len());
        assert(last != id);
        let all = registered_commands(cat, mods);
        assert(all == r + cmds(cat, last));
        let e = cmds(cat, id)[j];
        if has_key(all, e.key.name@, e.key.kind) {
            let t = choose|t: int| 0 <= t < all.len() && entry_has_key(#[trigger] all[t], e.key.name@, e.key.kind);
            if t < r.len() {
                assert(all[t] == r[t]);
            } else {
                assert(all[t] == cmds(cat, last)[t - r.len()]);
            }
        }
    }
}

/// Collects, module after module, what each registered module declares.
pub struct HandlerBuilder {
    pub commands: CommandStore,
    pub modules: ModuleMap,
    pub special_commands: Vec<SpecialCommand>,
    pub completion_handlers: CompletionChain,
    pub default_command_handler: Option<u64>,
    pub event_handlers: EventHandlers,
}

/// A meta-command answered by a fixed handler, ahead of the store.
pub struct SpecialCommand {
    pub name: String,
    pub handler: u64,
}

/// A copy of a command entry.
fn copy_entry(e: &CommandEntry) -> (r: CommandEntry)
    ensures
        r == *e,
{
    CommandEntry {
        key: CommandKey { name: e.key.name.clone(), kind: e.key.kind },
        permissions: e.permissions,
        guild_restricted: e.guild_restricted,
        handler: e.handler,
    }
}

impl HandlerBuilder {
    /// What the builder holds follows from the registered modules alone.
    pub open spec fn wf(&self, cat: Seq<ModuleDescriptor>) -> bool {
        &&& valid_order(cat, self.modules@)
        &&& self.commands.wf()
        &&& self.commands@ == registered_commands(cat, self.modules@)
        &&& self.completion_handlers@ == registered_completions(cat, self.modules@)
        &&& self.event_handlers@ == registered_events(cat, self.modules@)
    }

    /// A builder with nothing registered.
    pub fn new() -> (r: HandlerBuilder)
        ensures
            r.modules@ == Seq::<usize>::empty(),
            r.special_commands@.len() == 0,
            r.default_command_handler is None,
            forall|cat: Seq<ModuleDescriptor>| #[trigger] r.wf(cat),
    {
        let r = HandlerBuilder {
            commands: CommandStore::new(),
            modules: ModuleMap::new(),
            special_commands: Vec::new(),
            completion_handlers: CompletionChain::new(),
            default_command_handler: None,
            event_handlers: EventHandlers::new(),
        };
        proof {
            assert forall|cat: Seq<ModuleDescriptor>| #[trigger] r.wf(cat) by {
                assert(r.modules@.no_duplicates());
            }
        }
        r
    }

    /// Sets the handler that answers commands found nowhere else.
    pub fn default_command_handler(self, h: u64) -> (r: HandlerBuilder)
        ensures
            r.default_command_handler == Some(h),
            r.commands == self.commands,
            r.modules == self.modules,
            r.special_commands == self.special_commands,
            r.completion_handlers == self.completion_handlers,
            r.event_handlers == self.event_handlers,
    {
        let mut b = self;
        b.default_command_handler = Some(h);
        b
    }

    /// Registers module `id` of the catalog, after the modules it depends
    /// on. A module that is already registered is left as it is.
    pub fn module(self, cat: &Vec<ModuleDescriptor>, id: usize) -> (r: Result<HandlerBuilder, ModuleError>)
        requires
            self.wf(cat@),
        ensures
            module_post(self, cat@, id, r),
    {
        let n = cat.len();
        if id >= n {
            return Err(ModuleError::UnknownModule(id));
        }
        if self.modules.contains(id) {
            proof {
                assert(self.modules@.subrange(0, self.modules@.len() as int) =~= self.modules@);
            }
            return Ok(self);
        }
        let mut b = self;
        let mut visiting: Vec<bool> = Vec::new();
        let mut x: usize = 0;
        while x < n
            invariant
                n == cat@.len(),
                x <= n,
                visiting@.len() == x,
                forall|y: int| 0 <= y < x ==> visiting@[y] == b.modules@.contains(y as usize),
            decreases n - x,
        {
            let c = b.modules.contains(x);
            visiting.push(c);
            x = x + 1;
        }
        let ghost rank = if acyclic(cat@) {
            choose|rank: Seq<nat>| ranked(cat@, rank)
        } else {
            Seq::empty()
        };
        let ghost b0 = b;
        proof {
            assert forall|y: int| !in_progress(visiting@, b.modules@, y) by {}
        }
        match b.add_module(cat, id, &mut visiting, Ghost(rank)) {
            Ok(()) => Ok(b),
            Err(e) => Err(e),
        }
    }

    fn add_commands(&mut self, cat: &Vec<ModuleDescriptor>, id: usize) -> (r: Result<(), ModuleError>)
        requires
            id < cat@.len(),
            old(self).commands.wf(),
        ensures
            final(self).commands.wf(),
            r is Ok ==> final(self).commands@ == old(self).commands@ + cmds(cat@, id as int),
            r is Err ==> r->Err_0 is DuplicateRegistration,
            r is Err ==> catalog_declares(cat@, r->Err_0->DuplicateRegistration_0@, r->Err_0->DuplicateRegistration_1),
            (forall|j: int| 0 <= j < cmds(cat@, id as int).len() ==>
                !has_key(old(self).commands@, #[trigger] cmds(cat@, id as int)[j].key.name@, cmds(cat@, id as int)[j].key.kind))
            && keys_unique(cmds(cat@, id as int)) ==> r is Ok,
            final(self).modules == old(self).modules,
            final(self).completion_handlers == old(self).completion_handlers,
            final(self).event_handlers == old(self).event_handlers,
            final(self).special_commands == old(self).special_commands,
            final(self).default_command_handler == old(self).default_command_handler,
    {
        let desc = &cat[id];
        let ghost c = cmds(cat@, id as int);
        let mut j: usize = 0;
        while j < desc.commands.len()
            invariant
                desc == cat@[id as int],
                id < cat@.len(),
                c == desc.commands@,
                j <= c.len(),
                self.commands.wf(),
                self.commands@ == old(self).commands@ + c.subrange(0, j as int),
                self.modules == old(self).modules,
                self.completion_handlers == old(self).completion_handlers,
                self.event_handlers == old(self).event_handlers,
                self.special_commands == old(self).special_commands,
                self.default_command_handler == old(self).default_command_handler,
            decreases c.len() - j,
        {
            let e = copy_entry(&desc.commands[j]);
            proof {
                let s = self.commands@;
                let o = old(self).commands@;
                if (forall|t: int| 0 <= t < c.len() ==> !has_key(o, #[trigger] c[t].key.name@, c[t].key.kind))
                    && keys_unique(c) {
                    if has_key(s, e.key.name@, e.key.kind) {
                        let t = choose|t: int| 0 <= t < s.len() && entry_has_key(#[trigger] s[t], e.key.name@, e.key.kind);
                        if t < o.len() {
                            assert(s[t] == o[t]);
                            assert(!has_key(o, c[j as int].key.name@, c[j as int].key.kind));
                        } else {
                            assert(s[t] == c[t - o.len()]);
                            assert(!entry_has_key(c[t - o.len()], c[j as int].key.name@, c[j as int].key.kind));
                        }
                    }
                }
            }
            match self.commands.register(e) {
                Ok(()) => {},
                Err(d) => {
                    proof {
                        assert(entry_has_key(cmds(cat@, id as int)[j as int], d.name@, d.kind));
                        assert(0 <= j < cmds(cat@, id as int).len());
                        assert(catalog_declares(cat@, d.name@, d.kind));
                    }
                    return Err(ModuleError::DuplicateRegistration(d.name, d.kind));
                },
            }
            proof {
                assert(c.subrange(0, j + 1) =~= c.subrange(0, j as int).push(c[j as int]));
                assert(self.commands@ =~= old(self).commands@ + c.subrange(0, j + 1));
            }
            j = j + 1;
        }
        proof {
            assert(c.subrange(0, j as int) =~= c);
        }
        Ok(())
    }

    /// Registers module `id` after its unregistered dependencies, depth
    /// first. `visiting` marks every module whose registration has begun.
    fn add_module(
        &mut self,
        cat: &Vec<ModuleDescriptor>,
        id: usize,
        visiting: &mut Vec<bool>,
        Ghost(rank): Ghost<Seq<nat>>,
    ) -> (r: Result<(), ModuleError>)
        requires
            old(self).wf(cat@),
            id < cat@.len(),
            old(visiting)@.len() == cat@.len(),
            forall|x: int| 0 <= x < cat@.len() && old(self).modules@.contains(x as usize) ==> old(visiting)@[x],
        ensures
            final(visiting)@.len() == cat@.len(),
            forall|x: int| 0 <= x < cat@.len() && old(visiting)@[x] ==> final(visiting)@[x],
            r is Ok ==> final(self).wf(cat@),
            r is Ok ==> final(self).modules@.contains(id),
            r is Ok ==> final(self).modules@.len() >= old(self).modules@.len(),
            r is Ok ==> final(self).modules@.subrange(0, old(self).modules@.len() as int) == old(self).modules@,
            r is Ok ==> forall|x: int| 0 <= x < cat@.len() && final(self).modules@.contains(x as usize) ==> final(visiting)@[x],
            r is Ok ==> forall|x: int| in_progress(final(visiting)@, final(self).modules@, x)
                == in_progress(old(visiting)@, old(self).modules@, x),
            r is Ok ==> final(self).special_commands == old(self).special_commands,
            r is Ok ==> added_for(cat@, final(self).modules@, old(self).modules@.len() as int, id),
            r is Ok ==> final(self).default_command_handler == old(self).default_command_handler,
            r is Err && r->Err_0 is UnknownModule ==> r->Err_0->UnknownModule_0 >= cat@.len(),
            r is Err && r->Err_0 is DependencyCycle ==> r->Err_0->DependencyCycle_0 < cat@.len(),
            r is Err && r->Err_0 is DuplicateRegistration ==> catalog_declares(cat@,
                r->Err_0->DuplicateRegistration_0@, r->Err_0->DuplicateRegistration_1),
            old(self).modules@.contains(id) ==> r is Ok && *final(self) == *old(self),
            ranked(cat@, rank) && keys_disjoint(cat@)
                && (forall|x: int| in_progress(old(visiting)@, old(self).modules@, x) ==> rank[x] > rank[id as int])
                ==> r is Ok,
        decreases cat@.len() - marked(old(visiting)@).len(),
    {
        if self.modules.contains(id) {
            return Ok(());
        }
        if visiting[id] {
            proof {
                assert(in_progress(old(visiting)@, old(self).modules@, id as int));
            }
            return Err(ModuleError::DependencyCycle(id));
        }
        proof {
            lemma_marked_bounded(visiting@);
        }
        let ghost v0 = visiting@;
        let ghost b0 = *self;
        let ghost sound = ranked(cat@, rank) && keys_disjoint(cat@)
            && (forall|x: int| in_progress(v0, b0.modules@, x) ==> rank[x] > rank[id as int]);
        visiting.set(id, true);
        proof {
            lemma_marked_grows(v0, visiting@, id as int);
            lemma_marked_bounded(visiting@);
        }
        let desc = &cat[id];
        let mut k: usize = 0;
        while k < desc.dependencies.len()
            invariant
                desc == cat@[id as int],
                id < cat@.len(),
                k <= desc.dependencies@.len(),
                self.wf(cat@),
                visiting@.len() == cat@.len(),
                v0.len() == cat@.len(),
                forall|x: int| 0 <= x < cat@.len() && v0[x] ==> visiting@[x],
                visiting@[id as int],
                !v0[id as int],
                forall|x: int| 0 <= x < cat@.len() && self.modules@.contains(x as usize) ==> visiting@[x],
                !self.modules@.contains(id),
                self.modules@.len() >= b0.modules@.len(),
                self.modules@.subrange(0, b0.modules@.len() as int) == b0.modules@,
                b0.modules@ == old(self).modules@,
                v0 == old(visiting)@,
                forall|x: int| #![trigger in_progress(visiting@, self.modules@, x)]
                    in_progress(visiting@, self.modules@, x)
                    == (in_progress(v0, b0.modules@, x) || x == id),
                forall|t: int| 0 <= t < k ==> self.modules@.contains(#[trigger] deps(cat@, id as int)[t]),
                forall|q: int| b0.modules@.len() <= q < self.modules@.len() ==> deps(cat@, id as int).contains(self.modules@[q])
                    || exists|j: int| b0.modules@.len() <= j < self.modules@.len()
                        && #[trigger] deps(cat@, self.modules@[j] as int).contains(self.modules@[q]),
                self.special_commands == old(self).special_commands,
                self.default_command_handler == old(self).default_command_handler,
                sound == (ranked(cat@, rank) && keys_disjoint(cat@)
                    && (forall|x: int| in_progress(v0, b0.modules@, x) ==> rank[x] > rank[id as int])),
            decreases desc.dependencies@.len() - k,
        {
            let d = desc.dependencies[k];
            if d >= cat.len() {
                proof {
                    if sound {
                        assert(deps(cat@, id as int)[k as int] < cat@.len());
                    }
                }
                return Err(ModuleError::UnknownModule(d));
            }
            proof {
                lemma_marked_grows(v0, visiting@, id as int);
                lemma_marked_bounded(visiting@);
            }
            let ghost before = self.modules@;
            let ghost vb = visiting@;
            proof {
                if sound {
                    assert(0 <= id < cat@.len() && 0 <= k < deps(cat@, id as int).len());
                    assert(rank[deps(cat@, id as int)[k as int] as int] < rank[id as int]);
                    assert forall|x: int| in_progress(vb, before, x) implies rank[x] > rank[d as int] by {
                        if x != id {
                            assert(in_progress(v0, b0.modules@, x));
                        }
                    }
                }
            }
            let r = self.add_module(cat, d, visiting, Ghost(rank));
            match r {
                Ok(()) => {},
                Err(e) => {
                    proof {
                        assert(!sound);
                    }
                    return Err(e);
                },
            }
            proof {
                let now = self.modules@;
                assert(0 <= k < deps(cat@, id as int).len() && deps(cat@, id as int)[k as int] == d);
                assert forall|q: int| b0.modules@.len() <= q < now.len() implies deps(cat@, id as int).contains(now[q])
                    || exists|j: int| b0.modules@.len() <= j < now.len()
                        && #[trigger] deps(cat@, now[j] as int).contains(now[q]) by {
                    if q < before.len() {
                        assert(now.subrange(0, before.len() as int)[q] == before[q]);
                        assert(now[q] == before[q]);
                        if !deps(cat@, id as int).contains(before[q]) {
                            let j = choose|j: int| b0.modules@.len() <= j < before.len()
                                && #[trigger] deps(cat@, before[j] as int).contains(before[q]);
                            assert(now.subrange(0, before.len() as int)[j] == before[j]);
                            assert(deps(cat@, now[j] as int).contains(now[q]));
                        }
                    } else if now[q] == d {
                        assert(deps(cat@, id as int).contains(now[q]));
                    } else {
                        let j = choose|j: int| before.len() <= j < now.len()
                            && #[trigger] deps(cat@, now[j] as int).contains(now[q]);
                        assert(deps(cat@, now[j] as int).contains(now[q]));
                    }
                }
                assert forall|t: int| 0 <= t < k + 1 implies self.modules@.contains(#[trigger] deps(cat@, id as int)[t]) by {
                    if t < k {
                        let w = choose|w: int| 0 <= w < before.len() && before[w] == deps(cat@, id as int)[t];
                        assert(self.modules@.subrange(0, before.len() as int)[w] == before[w]);
                    }
                }
                assert(!self.modules@.contains(id)) by {
                    assert(in_progress(vb, before, id as int));
                }
                assert(self.modules@.subrange(0, b0.modules@.len() as int) =~= b0.modules@) by {
                    assert forall|w: int| 0 <= w < b0.modules@.len() implies
                        self.modules@.subrange(0, b0.modules@.len() as int)[w] == b0.modules@[w] by {
                        assert(self.modules@.subrange(0, before.len() as int)[w] == before[w]);
                        assert(before.subrange(0, b0.modules@.len() as int)[w] == b0.modules@[w]);
                    }
                }
            }
            k = k + 1;
        }
        let ghost mods = self.modules@;
        proof {
            if ranked(cat@, rank) && keys_disjoint(cat@) {
                assert forall|i: int| 0 <= i < mods.len() implies #[trigger] mods[i] < cat@.len() by {}
                assert forall|j: int| 0 <= j < cmds(cat@, id as int).len() implies
                    !has_key(self.commands@, #[trigger] cmds(cat@, id as int)[j].key.name@, cmds(cat@, id as int)[j].key.kind) by {
                    lemma_not_registered(cat@, mods, id as int, j);
                }
                assert(keys_unique(cmds(cat@, id as int))) by {
                    assert forall|i: int, j: int|
                        0 <= i < cmds(cat@, id as int).len() && 0 <= j < cmds(cat@, id as int).len() && i != j
                        implies !entry_has_key(#[trigger] cmds(cat@, id as int)[i], cmds(cat@, id as int)[j].key.name@,
                            #[trigger] cmds(cat@, id as int)[j].key.kind) by {
                        assert(0 <= id < cat@.len());
                    }
                }
            }
        }
        match self.add_commands(cat, id) {
            Ok(()) => {},
            Err(e) => {
                return Err(e);
            },
        }
        self.add_contributions(cat, id);
        self.modules.push(id);
        let n = cat.len();
        proof {
            let m2 = self.modules@;
            assert(n == cat@.len());
            assert(m2 == mods.push(id));
            assert(m2.len() == mods.len() + 1);
            assert(m2.drop_last() =~= mods);
            assert(m2.last() == id);
            assert(m2[mods.len() as int] == id);
            assert forall|i: int| 0 <= i < m2.len() implies #[trigger] m2[i] < cat@.len() by {
                if i < mods.len() {
                    assert(m2[i] == mods[i]);
                }
            }
            assert(m2.no_duplicates()) by {
                assert forall|i: int, j: int| 0 <= i < m2.len() && 0 <= j < m2.len() && i != j implies m2[i] != m2[j] by {
                    if i < mods.len() && j < mods.len() {
                        assert(m2[i] == mods[i] && m2[j] == mods[j]);
                    } else if i < mods.len() {
                        assert(m2[i] == mods[i]);
                    } else if j < mods.len() {
                        assert(m2[j] == mods[j]);
                    }
                }
            }
            assert(deps_first(cat@, m2)) by {
                assert forall|i: int, t: int|
                    0 <= i < m2.len() && 0 <= t < deps(cat@, m2[i] as int).len()
                    implies #[trigger] m2.subrange(0, i).contains(#[trigger] deps(cat@, m2[i] as int)[t]) by {
                    if i < mods.len() {
                        assert(m2[i] == mods[i]);
                        assert(mods.subrange(0, i).contains(deps(cat@, mods[i] as int)[t]));
                        assert(m2.subrange(0, i) =~= mods.subrange(0, i));
                    } else {
                        assert(m2.subrange(0, i) =~= mods);
                    }
                }
            }
            assert(m2.subrange(0, b0.modules@.len() as int) =~= b0.modules@) by {
                assert forall|w: int| 0 <= w < b0.modules@.len() implies
                    m2.subrange(0, b0.modules@.len() as int)[w] == b0.modules@[w] by {
                    assert(mods.subrange(0, b0.modules@.len() as int)[w] == b0.modules@[w]);
                }
            }
            assert(added_for(cat@, m2, b0.modules@.len() as int, id)) by {
                assert forall|q: int| b0.modules@.len() <= q < m2.len() implies m2[q] == id
                    || exists|j: int| b0.modules@.len() <= j < m2.len() && #[trigger] deps(cat@, m2[j] as int).contains(m2[q]) by {
                    if q < mods.len() {
                        assert(m2[q] == mods[q]);
                        if deps(cat@, id as int).contains(mods[q]) {
                            assert(m2[mods.len() as int] == id);
                            assert(deps(cat@, m2[mods.len() as int] as int).contains(m2[q]));
                        } else {
                            let j = choose|j: int| b0.modules@.len() <= j < mods.len()
                                && #[trigger] deps(cat@, mods[j] as int).contains(mods[q]);
                            assert(m2[j] == mods[j]);
                            assert(deps(cat@, m2[j] as int).contains(m2[q]));
                        }
                    }
                }
            }
            assert(m2.contains(id)) by {
                assert(m2[mods.len() as int] == id);
            }
            assert forall|x: int| 0 <= x < cat@.len() && m2.contains(x as usize) implies visiting@[x] by {
                let w = choose|w: int| 0 <= w < m2.len() && m2[w] == x as usize;
                if w < mods.len() {
                    assert(mods[w] == m2[w]);
                } else {
                    assert(w == mods.len());
                    assert(x == id as int);
                }
            }
            assert forall|x: int| in_progress(visiting@, m2, x) == in_progress(v0, b0.modules@, x) by {
                assert(in_progress(visiting@, mods, x) == (in_progress(v0, b0.modules@, x) || x == id));
                if mods.contains(x as usize) {
                    let w = choose|w: int| 0 <= w < mods.len() && mods[w] == x as usize;
                    assert(m2[w] == mods[w]);
                }
                if 0 <= x < cat@.len() && m2.contains(x as usize) && x != id {
                    let w = choose|w: int| 0 <= w < m2.len() && m2[w] == x as usize;
                    if w == mods.len() {
                        assert(x == id as int);
                    }
                    assert(mods[w] == m2[w]);
                }
                if x == id {
                    assert(m2.contains(id));
                }
            }
        }
        Ok(())
    }

    fn add_contributions(&mut self, cat: &Vec<ModuleDescriptor>, id: usize)
        requires
            id < cat@.len(),
        ensures
            final(self).completion_handlers@ == old(self).completion_handlers@ + cat@[id as int].completion_handlers@,
            final(self).event_handlers@ == old(self).event_handlers@ + cat@[id as int].event_subscriptions@,
            final(self).commands == old(self).commands,
            final(self).modules == old(self).modules,
            final(self).special_commands == old(self).special_commands,
            final(self).default_command_handler == old(self).default_command_handler,
    {
        let desc = &cat[id];
        let mut j: usize = 0;
        while j < desc.completion_handlers.len()
            invariant
                desc == cat@[id as int],
                j <= desc.completion_handlers@.len(),
                self.completion_handlers@ == old(self).completion_handlers@ + desc.completion_handlers@.subrange(0, j as int),
                self.event_handlers == old(self).event_handlers,
                self.commands == old(self).commands,
                self.modules == old(self).modules,
                self.special_commands == old(self).special_commands,
                self.default_command_handler == old(self).default_command_handler,
            decreases desc.completion_handlers@.len() - j,
        {
            self.completion_handlers.push(desc.completion_handlers[j]);
            proof {
                assert(self.completion_handlers@ =~= old(self).completion_handlers@ + desc.completion_handlers@.subrange(0, j + 1));
            }
            j = j + 1;
        }
        proof {
            assert(desc.completion_handlers@.subrange(0, j as int) =~= desc.completion_handlers@);
        }
        let mut k: usize = 0;
        while k < desc.event_subscriptions.len()
            invariant
                desc == cat@[id as int],
                k <= desc.event_subscriptions@.len(),
                self.event_handlers@ == old(self).event_handlers@ + desc.event_subscriptions@.subrange(0, k as int),
                self.completion_handlers@ == old(self).completion_handlers@ + cat@[id as int].completion_handlers@,
                self.commands == old(self).commands,
                self.modules == old(self).modules,
                self.special_commands == old(self).special_commands,
                self.default_command_handler == old(self).default_command_handler,
            decreases desc.event_subscriptions@.len() - k,
        {
            let s = desc.event_subscriptions[k];
            self.event_handlers.add_handler(s.event, s.subscriber);
            proof {
                assert(self.event_handlers@ =~= old(self).event_handlers@ + desc.event_subscriptions@.subrange(0, k + 1));
            }
            k = k + 1;
        }
        proof {
            assert(desc.event_subscriptions@.subrange(0, k as int) =~= desc.event_subscriptions@);
        }
    }
}

} // verus!
