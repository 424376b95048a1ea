//! The command store and the routing of an invocation to its handler.
use vstd::prelude::*;
use crate::command::CommandKind;
use crate::text::same_text;

verus! {

/// A command's identity: its name and its kind. Unique across a store.
#[derive(Debug)]
pub struct CommandKey {
    pub name: String,
    pub kind: CommandKind,
}

/// A registered command. `handler` names the runner that executes it.
#[derive(Debug)]
pub struct CommandEntry {
    pub key: CommandKey,
    pub permissions: u64,
    pub guild_restricted: bool,
    pub handler: u64,
}

/// Whether `e` is registered under `(name, kind)`.
pub open spec fn entry_has_key(e: CommandEntry, name: Seq<char>, kind: CommandKind) -> bool {
    e.key.name@ == name && e.key.kind == kind
}

/// Whether some entry of `s` is registered under `(name, kind)`.
pub open spec fn has_key(s: Seq<CommandEntry>, name: Seq<char>, kind: CommandKind) -> bool {
    exists|i: int| 0 <= i < s.len() && entry_has_key(#[trigger] s[i], name, kind)
}

/// No two entries of `s` share a key.
pub open spec fn keys_unique(s: Seq<CommandEntry>) -> bool {
    forall|i: int, j: int|
        0 <= i < s.len() && 0 <= j < s.len() && i != j
            ==> !entry_has_key(#[trigger] s[i], s[j].key.name@, #[trigger] s[j].key.kind)
}

/// The entry of `s` registered under `(name, kind)`, searching from the front.
pub open spec fn lookup(s: Seq<CommandEntry>, name: Seq<char>, kind: CommandKind) -> Option<CommandEntry>
    decreases s.len(),
{
    if s.len() == 0 {
        None
    } else if entry_has_key(s[0], name, kind) {
        Some(s[0])
    } else {
        lookup(s.skip(1), name, kind)
    }
}

pub proof fn lemma_lookup_some(s: Seq<CommandEntry>, name: Seq<char>, kind: CommandKind)
    ensures
        lookup(s, name, kind) is Some <==> has_key(s, name, kind),
        lookup(s, name, kind) is Some ==> entry_has_key(lookup(s, name, kind)->Some_0, name, kind),
        lookup(s, name, kind) is Some ==> s.contains(lookup(s, name, kind)->Some_0),
    decreases s.len(),
{
    if s.len() > 0 {
        lemma_lookup_some(s.skip(1), name, kind);
        if has_key(s, name, kind) && !entry_has_key(s[0], name, kind) {
            let i = choose|i: int| 0 <= i < s.len() && entry_has_key(#[trigger] s[i], name, kind);
            assert(s.skip(1)[i - 1] == s[i]);
        }
        if has_key(s.skip(1), name, kind) {
            let i = choose|i: int| 0 <= i < s.len() - 1 && entry_has_key(#[trigger] s.skip(1)[i], name, kind);
            assert(s[i + 1] == s.skip(1)[i]);
        }
        if lookup(s, name, kind) is Some && !entry_has_key(s[0], name, kind) {
            let e = lookup(s, name, kind)->Some_0;
            let k = choose|k: int| 0 <= k < s.len() - 1 && s.skip(1)[k] == e;
            assert(s[k + 1] == e);
        }
    }
}

/// Every command registered with the runtime, keyed by name and kind.
pub struct CommandStore {
    entries: Vec<CommandEntry>,
}

impl View for CommandStore {
    type V = Seq<CommandEntry>;

    closed spec fn view(&self) -> Seq<CommandEntry> {
        self.entries@
    }
}

/// Why a command could not be registered: its key is taken.
#[derive(Debug)]
pub struct DuplicateRegistration {
    pub name: String,
    pub kind: CommandKind,
}

impl CommandStore {
    pub open spec fn wf(&self) -> bool {
        keys_unique(self@)
    }

    pub fn new() -> (r: CommandStore)
        ensures
            r@ == Seq::<CommandEntry>::empty(),
            r.wf(),
    {
        CommandStore { entries: Vec::new() }
    }

    pub fn len(&self) -> (r: usize)
        ensures
            r == self@.len(),
    {
        self.entries.len()
    }

    pub fn entry(&self, i: usize) -> (r: &CommandEntry)
        requires
            i < self@.len(),
        ensures
            *r == self@[i as int],
    {
        &self.entries[i]
    }

    /// Index of the entry registered under `(name, kind)`.
    pub fn find(&self, name: &str, kind: CommandKind) -> (r: Option<usize>)
        ensures
            r is None <==> !has_key(self@, name@, kind),
            r is Some ==> r->Some_0 < self@.len() && entry_has_key(self@[r->Some_0 as int], name@, kind),
            r is Some ==> lookup(self@, name@, kind) == Some(self@[r->Some_0 as int]),
    {
        let mut i: usize = 0;
        proof {
            assert(self@.skip(0) =~= self@);
        }
        while i < self.entries.len()
            invariant
                i <= self@.len(),
                forall|k: int| 0 <= k < i ==> !entry_has_key(#[trigger] self@[k], name@, kind),
                lookup(self@, name@, kind) == lookup(self@.skip(i as int), name@, kind),
            decreases self@.len() - i,
        {
            let e = &self.entries[i];
            if e.key.kind == kind && same_text(e.key.name.as_str(), name) {
                proof {
                    assert(self@.skip(i as int)[0] == self@[i as int]);
                }
                return Some(i);
            }
            proof {
                assert(self@.skip(i as int).skip(1) =~= self@.skip(i + 1));
            }
            i = i + 1;
        }
        proof {
            if has_key(self@, name@, kind) {
                let k = choose|k: int| 0 <= k < self@.len() && entry_has_key(#[trigger] self@[k], name@, kind);
            }
        }
        None
    }

    /// Whether some command of any kind is registered under `name`.
    pub fn has_name(&self, name: &str) -> (r: bool)
        ensures
            r == exists|i: int| 0 <= i < self@.len() && (#[trigger] self@[i]).key.name@ == name@,
    {
        let mut i: usize = 0;
        while i < self.entries.len()
            invariant
                i <= self@.len(),
                forall|k: int| 0 <= k < i ==> (#[trigger] self@[k]).key.name@ != name@,
            decreases self@.len() - i,
        {
            if same_text(self.entries[i].key.name.as_str(), name) {
                return true;
            }
            i = i + 1;
        }
        false
    }

    /// Adds a command. Registering a key that is already present fails and
    /// leaves the store unchanged.
    pub fn register(&mut self, entry: CommandEntry) -> (r: Result<(), DuplicateRegistration>)
        requires
            old(self).wf(),
        ensures
            final(self).wf(),
            r is Ok <==> !has_key(old(self)@, entry.key.name@, entry.key.kind),
            r is Ok ==> final(self)@ == old(self)@.push(entry),
            r is Err ==> final(self)@ == old(self)@,
            r is Err ==> r->Err_0.name@ == entry.key.name@ && r->Err_0.kind == entry.key.kind,
    {
        match self.find(entry.key.name.as_str(), entry.key.kind) {
            Some(_) => {
                let name = entry.key.name;
                Err(DuplicateRegistration { name, kind: entry.key.kind })
            },
            None => {
                self.entries.push(entry);
                proof {
                    let s = final(self)@;
                    assert forall|i: int, j: int|
                        0 <= i < s.len() && 0 <= j < s.len() && i != j
                        implies !entry_has_key(#[trigger] s[i], s[j].key.name@, #[trigger] s[j].key.kind) by {
                        if i == s.len() - 1 {
                            assert(old(self)@[j] == s[j]);
                        } else if j == s.len() - 1 {
                            assert(old(self)@[i] == s[i]);
                        } else {
                            assert(old(self)@[i] == s[i]);
                            assert(old(self)@[j] == s[j]);
                        }
                    }
                }
                Ok(())
            },
        }
    }
}

} // verus!
