//! The plugin registry: which plugins are loaded, and the handle of each.
//!
//! The registry owns the handles. It never drops one: a plugin, once
//! loaded, stays loaded until the registry itself goes away, and stopping a
//! plugin leaves its entry where it is.

use crate::common::GVMError;
use vstd::prelude::*;

verus! {

/// Whether `entries` holds a plugin under the identifier `id`.
pub open spec fn registered<H>(entries: Seq<(Seq<char>, H)>, id: Seq<char>) -> bool {
    exists|i: int| 0 <= i < entries.len() && (#[trigger] entries[i]).0 == id
}

/// Whether no identifier occurs twice in `entries`.
pub open spec fn distinct_ids<H>(entries: Seq<(Seq<char>, H)>) -> bool {
    forall|i: int, j: int|
        0 <= i < j < entries.len() ==> (#[trigger] entries[i]).0 != (#[trigger] entries[j]).0
}

/// How many entries `entries` holds under the identifier `id`.
pub open spec fn occurrences<H>(entries: Seq<(Seq<char>, H)>, id: Seq<char>) -> nat
    decreases entries.len(),
{
    if entries.len() == 0 {
        0
    } else {
        occurrences(entries.drop_last(), id) + if entries.last().0 == id {
            1nat
        } else {
            0nat
        }
    }
}

/// What an attempt to load a plugin under `id` comes to, `opened` being
/// the module's handle if the module could be opened: `PluginLoaded` where
/// the identifier is taken, else `PluginNotFound` where no module could be
/// opened, else success.
pub open spec fn load_result<H>(entries: Seq<(Seq<char>, H)>, id: Seq<char>, opened: Option<H>)
    -> Result<(), GVMError> {
    if registered(entries, id) {
        Err(GVMError::PluginLoaded)
    } else if opened is None {
        Err(GVMError::PluginNotFound)
    } else {
        Ok(())
    }
}

/// The entries after an attempt to load a plugin: one more, at the end,
/// where the attempt succeeds, and the same as before where it fails.
pub open spec fn load_entries<H>(entries: Seq<(Seq<char>, H)>, id: Seq<char>, opened: Option<H>)
    -> Seq<(Seq<char>, H)> {
    if load_result(entries, id, opened) is Ok {
        entries.push((id, opened->Some_0))
    } else {
        entries
    }
}

#[derive(Debug)]
struct Entry<H> {
    id: String,
    handle: H,
}

/// The loaded plugins, each under its identifier.
#[derive(Debug)]
pub struct PluginRegistry<H> {
    entries: Vec<Entry<H>>,
}

impl<H> View for PluginRegistry<H> {
    type V = Seq<(Seq<char>, H)>;

    /// The entries in the order in which they were loaded.
    closed spec fn view(&self) -> Seq<(Seq<char>, H)> {
        Seq::new(self.entries@.len(), |i: int| (self.entries@[i].id@, self.entries@[i].handle))
    }
}

impl<H> PluginRegistry<H> {
    /// The registry's invariant: no identifier has two entries.
    pub open spec fn wf(&self) -> bool {
        distinct_ids(self@)
    }

    /// A registry without plugins.
    pub fn new() -> (r: Self)
        ensures
            r.wf(),
            r@ == Seq::<(Seq<char>, H)>::empty(),
    {
        let r = PluginRegistry { entries: Vec::new() };
        assert(r@ =~= Seq::<(Seq<char>, H)>::empty());
        r
    }

    /// The number of loaded plugins.
    pub fn len(&self) -> (n: usize)
        ensures
            n == self@.len(),
    {
        self.entries.len()
    }

    /// Where the plugin `id` stands in the registry.
    fn position(&self, id: &String) -> (r: Option<usize>)
        ensures
            match r {
                Some(i) => i < self@.len() && self@[i as int].0 == id@,
                None => !registered(self@, id@),
            },
    {
        let mut i: usize = 0;
        while i < self.entries.len()
            invariant
                i <= self.entries.len(),
                forall|j: int| 0 <= j < i ==> (#[trigger] self@[j]).0 != id@,
            decreases self.entries.len() - i,
        {
            assert(self@[i as int].0 == self.entries@[i as int].id@);
            if self.entries[i].id == *id {
                return Some(i);
            }
            i = i + 1;
        }
        None
    }

    /// Whether a plugin is loaded under `id`.
    pub fn contains(&self, id: &String) -> (r: bool)
        ensures
            r == registered(self@, id@),
    {
        self.position(id).is_some()
    }

    /// The handle of the plugin `id`, or `PluginNotFound` if none is
    /// loaded under that identifier.
    pub fn get(&self, id: &String) -> (r: Result<&H, GVMError>)
        ensures
            match r {
                Ok(handle) => self@.contains((id@, *handle)),
                Err(e) => !registered(self@, id@) && e == GVMError::PluginNotFound,
            },
    {
        match self.position(id) {
            Some(i) => {
                assert(self@[i as int] == (id@, self.entries@[i as int].handle));
                Ok(&self.entries[i].handle)
            },
            None => Err(GVMError::PluginNotFound),
        }
    }

    /// Tries to load a plugin under `id`. `opened` is the module's handle,
    /// or `None` where the module does not exist or could not be opened.
    ///
    /// An identifier that is taken is refused with `PluginLoaded`, whatever
    /// `opened` holds, and the entry that was there stays as it was.
    pub fn load(&mut self, id: String, opened: Option<H>) -> (r: Result<(), GVMError>)
        requires
            old(self).wf(),
        ensures
            final(self).wf(),
            r == load_result(old(self)@, id@, opened),
            final(self)@ == load_entries(old(self)@, id@, opened),
    {
        if self.position(&id).is_some() {
            return Err(GVMError::PluginLoaded);
        }
        match opened {
            None => Err(GVMError::PluginNotFound),
            Some(handle) => {
                let ghost before = self@;
                self.entries.push(Entry { id, handle });
                assert(self@ =~= before.push((id@, handle)));
                Ok(())
            },
        }
    }
}

/// An identifier that is registered, in entries with distinct identifiers,
/// has exactly one entry; one that is not registered has none.
pub proof fn lemma_occurrences<H>(entries: Seq<(Seq<char>, H)>, id: Seq<char>)
    requires
        distinct_ids(entries),
    ensures
        occurrences(entries, id) == if registered(entries, id) {
            1nat
        } else {
            0nat
        },
    decreases entries.len(),
{
    if entries.len() > 0 {
        let rest = entries.drop_last();
        let last = entries.len() - 1;
        lemma_occurrences(rest, id);
        if entries.last().0 == id {
            assert(entries[last].0 == id);
            if registered(rest, id) {
                let i = choose|i: int| 0 <= i < rest.len() && (#[trigger] rest[i]).0 == id;
                assert(rest[i] == entries[i]);
            }
        } else if registered(entries, id) {
            let i = choose|i: int| 0 <= i < entries.len() && (#[trigger] entries[i]).0 == id;
            assert(rest[i] == entries[i]);
        } else if registered(rest, id) {
            let i = choose|i: int| 0 <= i < rest.len() && (#[trigger] rest[i]).0 == id;
            assert(rest[i] == entries[i]);
        }
    }
}

/// Loading keeps identifiers distinct.
pub proof fn lemma_load_keeps_distinct<H>(
    entries: Seq<(Seq<char>, H)>,
    id: Seq<char>,
    opened: Option<H>,
)
    requires
        distinct_ids(entries),
    ensures
        distinct_ids(load_entries(entries, id, opened)),
{
}

/// Where a plugin is loaded under an identifier and the same identifier is
/// loaded once more, with nothing unloaded in between, the second attempt
/// is refused with `PluginLoaded` and the registry then holds exactly one
/// entry under that identifier: the one it held before the second attempt.
///
/// The first attempt counts as loading where the identifier was taken
/// already or a module could be opened.
pub proof fn lemma_second_load_refused<H>(
    entries: Seq<(Seq<char>, H)>,
    id: Seq<char>,
    first: Option<H>,
    second: Option<H>,
)
    requires
        distinct_ids(entries),
        registered(entries, id) || first is Some,
    ensures
        ({
            let once = load_entries(entries, id, first);
            let twice = load_entries(once, id, second);
            &&& load_result(once, id, second) == Err::<(), GVMError>(GVMError::PluginLoaded)
            &&& twice == once
            &&& occurrences(twice, id) == 1
        }),
{
    let once = load_entries(entries, id, first);
    if !registered(entries, id) {
        assert(once[entries.len() as int].0 == id);
    } else {
        let i = choose|i: int| 0 <= i < entries.len() && (#[trigger] entries[i]).0 == id;
        assert(once[i].0 == id);
    }
    assert(registered(once, id));
    lemma_load_keeps_distinct(entries, id, first);
    lemma_occurrences(once, id);
}

} // verus!
