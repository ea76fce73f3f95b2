//! What the host offers guest code: the fixed imports, the per-instance slot
//! that an import fills for pickup later in the same call, and the table of
//! imports registered under (namespace, name).
use vstd::prelude::*;

use crate::codec::Len;
use crate::error::WasmError;

verus! {

/// Bytes in one page of guest linear memory.
pub const PAGE_BYTES: u64 = 65536;

/// The largest linear memory a 32-bit guest can have, in bytes.
pub const MAX_MEMORY_BYTES: u64 = 0x1_0000_0000;

/// The `debug` import: the tag is for the host's log; the guest always gets 0.
pub fn debug(tag: u32) -> (r: u32)
    ensures
        r == 0,
{
    0
}

/// The `pages` import: the size of guest memory in whole pages.
pub fn pages(memory_bytes: u64) -> (r: u32)
    requires
        memory_bytes <= MAX_MEMORY_BYTES,
    ensures
        r as int == memory_bytes as int / PAGE_BYTES as int,
{
    (memory_bytes / PAGE_BYTES) as u32
}

/// The slot of one instance in which an import leaves a payload for the
/// current call. One writer and one reader per call; each write replaces the
/// last.
pub struct CallContext {
    data: Option<Vec<u8>>,
}

impl View for CallContext {
    type V = Option<Seq<u8>>;

    closed spec fn view(&self) -> Option<Seq<u8>> {
        match self.data {
            Some(d) => Some(d@),
            None => None,
        }
    }
}

impl CallContext {
    /// An empty slot.
    pub fn new() -> (r: CallContext)
        ensures
            r@ is None,
    {
        CallContext { data: None }
    }

    /// The `set_context_data` import: stores a payload and returns its length.
    /// A payload whose length does not fit in 32 bits is refused and the slot
    /// left as it was.
    pub fn set_context_data(&mut self, data: Vec<u8>) -> (r: Result<Len, WasmError>)
        ensures
            r is Ok <==> data@.len() <= u32::MAX,
            r is Ok ==> final(self)@ == Some(data@) && r->Ok_0 == data@.len(),
            r is Err ==> r->Err_0 is Memory && final(self)@ == old(self)@,
    {
        if data.len() as u64 > u32::MAX as u64 {
            return Err(WasmError::Memory(String::from_str("context payload does not fit in 32 bits")));
        }
        let n = data.len() as u32;
        self.data = Some(data);
        Ok(n)
    }

    /// Takes the stored payload out, leaving the slot empty.
    pub fn take(&mut self) -> (r: Option<Vec<u8>>)
        ensures
            final(self)@ is None,
            match (r, old(self)@) {
                (Some(d), Some(s)) => d@ == s,
                (None, None) => true,
                _ => false,
            },
    {
        self.data.take()
    }
}

/// The host functions the library knows, and those an application adds.
#[derive(Debug, Clone, Copy, PartialEq, Eq)]
pub enum HostFn {
    Debug,
    Pages,
    SetContextData,
    Application(u32),
}

/// One registered import.
pub struct Import {
    pub namespace: String,
    pub name: String,
    pub func: HostFn,
}

/// A second registration under a (namespace, name) already taken.
#[derive(Debug, Clone, PartialEq, Eq)]
pub struct DuplicateImport {
    pub namespace: String,
    pub name: String,
}

/// Whether a key is among the keys of a sequence of imports.
pub open spec fn has_key(keys: Seq<(Seq<char>, Seq<char>, HostFn)>, ns: Seq<char>, name: Seq<char>) -> bool {
    exists|i: int| 0 <= i < keys.len() && (#[trigger] keys[i]).0 == ns && keys[i].1 == name
}

/// Whether no two imports share a (namespace, name).
pub open spec fn keys_unique(keys: Seq<(Seq<char>, Seq<char>, HostFn)>) -> bool {
    forall|i: int, j: int|
        0 <= i < keys.len() && 0 <= j < keys.len() && i != j ==> !((#[trigger] keys[i]).0 == (#[trigger] keys[j]).0
            && keys[i].1 == keys[j].1)
}

/// The imports of an instance, in order of registration, each (namespace,
/// name) at most once.
pub struct ImportTable {
    entries: Vec<Import>,
}

impl View for ImportTable {
    type V = Seq<(Seq<char>, Seq<char>, HostFn)>;

    closed spec fn view(&self) -> Seq<(Seq<char>, Seq<char>, HostFn)> {
        self.entries@.map_values(|e: Import| (e.namespace@, e.name@, e.func))
    }
}

impl ImportTable {
    pub closed spec fn wf(&self) -> bool {
        keys_unique(self@)
    }

    /// A table with nothing registered.
    pub fn new() -> (r: ImportTable)
        ensures
            r.wf(),
            r@ == Seq::<(Seq<char>, Seq<char>, HostFn)>::empty(),
    {
        let r = ImportTable { entries: Vec::new() };
        assert(r@ =~= Seq::<(Seq<char>, Seq<char>, HostFn)>::empty());
        r
    }

    /// A table holding the fixed imports `debug`, `pages` and
    /// `set_context_data` under `namespace`.
    pub fn with_required(namespace: &String) -> (r: ImportTable)
        ensures
            r.wf(),
            r@ == seq![
                (namespace@, "debug"@, HostFn::Debug),
                (namespace@, "pages"@, HostFn::Pages),
                (namespace@, "set_context_data"@, HostFn::SetContextData),
            ],
    {
        let entries = vec![
            Import { namespace: namespace.clone(), name: String::from_str("debug"), func: HostFn::Debug },
            Import { namespace: namespace.clone(), name: String::from_str("pages"), func: HostFn::Pages },
            Import {
                namespace: namespace.clone(),
                name: String::from_str("set_context_data"),
                func: HostFn::SetContextData,
            },
        ];
        let r = ImportTable { entries };
        proof {
            reveal_strlit("debug");
            reveal_strlit("pages");
            reveal_strlit("set_context_data");
        }
        assert(r@ =~= seq![
            (namespace@, "debug"@, HostFn::Debug),
            (namespace@, "pages"@, HostFn::Pages),
            (namespace@, "set_context_data"@, HostFn::SetContextData),
        ]);
        assert("debug"@ != "pages"@) by {
            assert("debug"@[0] != "pages"@[0]);
        }
        assert("debug"@ != "set_context_data"@) by {
            assert("debug"@[0] != "set_context_data"@[0]);
        }
        assert("pages"@ != "set_context_data"@) by {
            assert("pages"@[0] != "set_context_data"@[0]);
        }
        r
    }

    /// The function registered under (namespace, name), if any.
    pub fn lookup(&self, namespace: &String, name: &String) -> (r: Option<HostFn>)
        ensures
            r is None <==> !has_key(self@, namespace@, name@),
            r is Some ==> exists|i: int| 0 <= i < self@.len() && (#[trigger] self@[i]) == (namespace@, name@, r->0),
    {
        let mut i: usize = 0;
        while i < self.entries.len()
            invariant
                0 <= i <= self.entries@.len(),
                forall|j: int| 0 <= j < i ==> !((#[trigger] self@[j]).0 == namespace@ && self@[j].1 == name@),
            decreases self.entries.len() - i,
        {
            let e = &self.entries[i];
            assert(self@[i as int] == (e.namespace@, e.name@, e.func));
            if e.namespace == *namespace && e.name == *name {
                return Some(e.func);
            }
            i = i + 1;
        }
        None
    }

    /// Registers a function under (namespace, name). A key already taken is
    /// refused and the table left as it was: nothing is overwritten.
    pub fn register(&mut self, namespace: String, name: String, func: HostFn) -> (r: Result<(), DuplicateImport>)
        requires
            old(self).wf(),
        ensures
            final(self).wf(),
            r is Err <==> has_key(old(self)@, namespace@, name@),
            r is Err ==> final(self)@ == old(self)@ && r->Err_0.namespace@ == namespace@
                && r->Err_0.name@ == name@,
            r is Ok ==> final(self)@ == old(self)@.push((namespace@, name@, func)),
    {
        if self.lookup(&namespace, &name).is_some() {
            return Err(DuplicateImport { namespace, name });
        }
        let ghost before = self@;
        self.entries.push(Import { namespace, name, func });
        assert(self@ =~= before.push((namespace@, name@, func)));
        Ok(())
    }
}

} // verus!
