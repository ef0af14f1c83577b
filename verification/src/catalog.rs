//! The header-to-name lookup table used only for diagnostics. It is
//! populated once from an external metadata source, then frozen; lookups are
//! read-only and return the first entry with a matching header id. An empty
//! catalog (population skipped or failed) simply answers every lookup with
//! `None`.

use vstd::prelude::*;

verus! {

/// One catalog record: a 16-bit header id and its human-readable name.
pub struct CatalogEntry {
    pub header: u16,
    pub name: String,
}

/// The name of the first entry with the given header id, if any. Header ids
/// need not be unique in the source data; the first match wins.
pub open spec fn spec_lookup(entries: Seq<(u16, Seq<char>)>, header: u16) -> Option<Seq<char>>
    decreases entries.len(),
{
    if entries.len() == 0 {
        None
    } else if entries[0].0 == header {
        Some(entries[0].1)
    } else {
        spec_lookup(entries.drop_first(), header)
    }
}

/// Read-mostly header-to-name table: one writer populates it, then it is
/// frozen and shared read-only.
pub struct PacketCatalog {
    entries: Vec<CatalogEntry>,
    populated: bool,
}

impl View for PacketCatalog {
    type V = Seq<(u16, Seq<char>)>;

    closed spec fn view(&self) -> Seq<(u16, Seq<char>)> {
        self.entries@.map_values(|e: CatalogEntry| (e.header, e.name@))
    }
}

impl PacketCatalog {
    /// The catalog has been populated and is frozen against further writes.
    pub closed spec fn spec_populated(&self) -> bool {
        self.populated
    }

    /// Creates an empty, not yet populated catalog.
    pub fn new() -> (c: PacketCatalog)
        ensures
            c@ == Seq::<(u16, Seq<char>)>::empty(),
            !c.spec_populated(),
    {
        let c = PacketCatalog { entries: Vec::new(), populated: false };
        proof {
            assert(c@ =~= Seq::<(u16, Seq<char>)>::empty());
        }
        c
    }

    /// Stores the fetched entries, in order, and freezes the catalog. Called
    /// at most once; a failed fetch simply never calls it, leaving every
    /// lookup to answer `None`.
    pub fn populate(&mut self, entries: Vec<CatalogEntry>)
        requires
            !old(self).spec_populated(),
        ensures
            final (self)@ == entries@.map_values(|e: CatalogEntry| (e.header, e.name@)),
            final (self).spec_populated(),
    {
        self.entries = entries;
        self.populated = true;
    }

    /// The configured name for a header id: the first matching entry's name,
    /// or `None` for an unknown id. Never an error.
    pub fn lookup(&self, header: u16) -> (r: Option<String>)
        ensures
            (match r {
                Some(name) => spec_lookup(self@, header) == Some(name@),
                None => spec_lookup(self@, header) is None,
            }),
    {
        let n = self.entries.len();
        let mut i: usize = 0;
        proof {
            assert(self@.skip(0) =~= self@);
        }
        while i < n
            invariant
                i <= n,
                n == self.entries@.len(),
                n == self@.len(),
                spec_lookup(self@.skip(i as int), header) == spec_lookup(self@, header),
            decreases n - i,
        {
            if self.entries[i].header == header {
                assert(self@.skip(i as int)[0] == (self.entries@[i as int].header,
                self.entries@[i as int].name@));
                return Some(self.entries[i].name.clone());
            }
            proof {
                assert(self@.skip(i as int)[0] == (self.entries@[i as int].header,
                self.entries@[i as int].name@));
                assert(self@.skip(i as int).drop_first() =~= self@.skip(i + 1));
            }
            i = i + 1;
        }
        proof {
            assert(self@.skip(n as int) =~= Seq::<(u16, Seq<char>)>::empty());
        }
        None
    }
}

} // verus!
