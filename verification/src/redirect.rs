//! The hosts-redirect model: the set of hostnames currently pointed at the
//! local relay. Adding is a no-op when the entry exists and removing is a
//! no-op when it does not, so both operations are idempotent; the caller
//! rewrites the actual hosts file from this table.

use vstd::prelude::*;

verus! {

/// `h` is one of the entries.
pub open spec fn spec_contains_host(hosts: Seq<Seq<char>>, h: Seq<char>) -> bool {
    exists|i: int| 0 <= i < hosts.len() && hosts[i] == h
}

/// How many entries equal `h`.
pub open spec fn count_host(hosts: Seq<Seq<char>>, h: Seq<char>) -> nat
    decreases hosts.len(),
{
    if hosts.len() == 0 {
        0
    } else {
        (if hosts[0] == h {
            1nat
        } else {
            0nat
        }) + count_host(hosts.drop_first(), h)
    }
}

/// The table after an add: unchanged when the entry exists, appended
/// otherwise.
pub open spec fn spec_add(hosts: Seq<Seq<char>>, h: Seq<char>) -> Seq<Seq<char>> {
    if spec_contains_host(hosts, h) {
        hosts
    } else {
        hosts.push(h)
    }
}

/// The index of the first entry equal to `h`.
pub open spec fn index_of_host(hosts: Seq<Seq<char>>, h: Seq<char>) -> int
    decreases hosts.len(),
{
    if hosts.len() == 0 {
        0
    } else if hosts[0] == h {
        0
    } else {
        1 + index_of_host(hosts.drop_first(), h)
    }
}

/// The table after a remove: unchanged when the entry is absent, the first
/// occurrence dropped otherwise.
pub open spec fn spec_remove(hosts: Seq<Seq<char>>, h: Seq<char>) -> Seq<Seq<char>> {
    if spec_contains_host(hosts, h) {
        hosts.remove(index_of_host(hosts, h))
    } else {
        hosts
    }
}

/// The active redirect entries, in insertion order, each hostname at most
/// once.
pub struct RedirectTable {
    hosts: Vec<String>,
}

impl View for RedirectTable {
    type V = Seq<Seq<char>>;

    closed spec fn view(&self) -> Seq<Seq<char>> {
        self.hosts@.map_values(|s: String| s@)
    }
}

impl RedirectTable {
    /// No hostname appears twice.
    pub open spec fn wf(&self) -> bool {
        self@.no_duplicates()
    }

    /// Creates an empty table: no redirect is active.
    pub fn new() -> (t: RedirectTable)
        ensures
            t@ == Seq::<Seq<char>>::empty(),
            t.wf(),
    {
        let t = RedirectTable { hosts: Vec::new() };
        proof {
            assert(t@ =~= Seq::<Seq<char>>::empty());
        }
        t
    }

    /// The entries, for the caller to rewrite the hosts file from.
    pub fn entries(&self) -> (r: &Vec<String>)
        ensures
            r@.map_values(|s: String| s@) == self@,
    {
        &self.hosts
    }

    /// Whether a redirect for `host` is active.
    pub fn contains(&self, host: &String) -> (r: bool)
        ensures
            r == spec_contains_host(self@, host@),
    {
        let n = self.hosts.len();
        let mut i: usize = 0;
        while i < n
            invariant
                i <= n,
                n == self.hosts@.len(),
                n == self@.len(),
                forall|k: int| 0 <= k < i ==> self@[k] != host@,
            decreases n - i,
        {
            if self.hosts[i] == *host {
                assert(self@[i as int] == host@);
                return true;
            }
            assert(self@[i as int] == self.hosts@[i as int]@);
            i = i + 1;
        }
        false
    }

    /// Adds a redirect for `host`; a second add of the same hostname changes
    /// nothing.
    pub fn add_redirect(&mut self, host: &String)
        ensures
            final (self)@ == spec_add(old(self)@, host@),
            old(self).wf() ==> final (self).wf(),
            spec_contains_host(final (self)@, host@),
    {
        if !self.contains(host) {
            let ghost before = self@;
            self.hosts.push(host.clone());
            proof {
                assert(self@ =~= before.push(host@));
                assert(self@[before.len() as int] == host@);
                if before.no_duplicates() {
                    assert forall|i: int, j: int|
                        0 <= i < j < self@.len() implies self@[i] != self@[j] by {
                        if j == before.len() {
                            assert(self@[i] == before[i]);
                        }
                    }
                }
            }
        } else {
            assert(spec_contains_host(self@, host@));
        }
    }

    /// Removes the redirect for `host`; removing an absent entry is a no-op.
    pub fn remove_redirect(&mut self, host: &String)
        ensures
            final (self)@ == spec_remove(old(self)@, host@),
            old(self).wf() ==> final (self).wf(),
            old(self).wf() ==> !spec_contains_host(final (self)@, host@),
    {
        let n = self.hosts.len();
        let mut i: usize = 0;
        while i < n
            invariant
                i <= n,
                n == self.hosts@.len(),
                n == self@.len(),
                self@ == old(self)@,
                forall|k: int| 0 <= k < i ==> self@[k] != host@,
            decreases n - i,
        {
            if self.hosts[i] == *host {
                assert(self@[i as int] == host@);
                let ghost before = self@;
                self.hosts.remove(i);
                proof {
                    assert(self@ =~= before.remove(i as int));
                    lemma_index_of_first_match(before, host@, i as int);
                    if before.no_duplicates() {
                        assert forall|a: int, b: int|
                            0 <= a < b < self@.len() implies self@[a] != self@[b] by {
                            if b < i {
                            } else if a < i {
                                assert(self@[a] == before[a] && self@[b] == before[b + 1]);
                            } else {
                                assert(self@[a] == before[a + 1] && self@[b] == before[b + 1]);
                            }
                        }
                        assert forall|k: int| 0 <= k < self@.len() implies self@[k] != host@ by {
                            if k < i {
                                assert(self@[k] == before[k]);
                            } else {
                                assert(self@[k] == before[k + 1]);
                                assert(before[i as int] == host@);
                            }
                        }
                    }
                }
                return ;
            }
            assert(self@[i as int] == self.hosts@[i as int]@);
            i = i + 1;
        }
        assert(!spec_contains_host(self@, host@));
    }
}

/// When entries `0..i` differ from `h` and entry `i` equals it, `i` is the
/// first match.
proof fn lemma_index_of_first_match(hosts: Seq<Seq<char>>, h: Seq<char>, i: int)
    requires
        0 <= i < hosts.len(),
        hosts[i] == h,
        forall|k: int| 0 <= k < i ==> hosts[k] != h,
    ensures
        index_of_host(hosts, h) == i,
    decreases i,
{
    if i > 0 {
        lemma_index_of_first_match(hosts.drop_first(), h, i - 1);
    }
}

/// No entry equals `h` exactly when the count of `h` is zero.
proof fn lemma_count_zero_iff_absent(hosts: Seq<Seq<char>>, h: Seq<char>)
    ensures
        count_host(hosts, h) == 0 <==> !spec_contains_host(hosts, h),
    decreases hosts.len(),
{
    if hosts.len() > 0 {
        lemma_count_zero_iff_absent(hosts.drop_first(), h);
        assert(forall|i: int|
            1 <= i < hosts.len() ==> hosts[i] == #[trigger] hosts.drop_first()[i - 1]);
        if hosts[0] == h {
            assert(spec_contains_host(hosts, h));
        } else if spec_contains_host(hosts, h) {
            let i = choose|i: int| 0 <= i < hosts.len() && hosts[i] == h;
            assert(hosts.drop_first()[i - 1] == h);
            assert(spec_contains_host(hosts.drop_first(), h));
        }
    }
}

/// Adding a hostname twice leaves exactly one active entry for it, and
/// adding it to a table that already holds it changes nothing: the add is
/// idempotent.
pub proof fn lemma_add_redirect_idempotent(hosts: Seq<Seq<char>>, h: Seq<char>)
    requires
        hosts.no_duplicates(),
    ensures
        spec_add(spec_add(hosts, h), h) == spec_add(hosts, h),
        count_host(spec_add(spec_add(hosts, h), h), h) == 1,
{
    let once = spec_add(hosts, h);
    if spec_contains_host(hosts, h) {
        assert(once == hosts);
    } else {
        assert(once == hosts.push(h));
        assert(once[hosts.len() as int] == h);
    }
    assert(spec_contains_host(once, h));
    assert(spec_add(once, h) == once);
    lemma_count_one(hosts, h);
}

/// In a duplicate-free table, an added hostname is counted exactly once.
proof fn lemma_count_one(hosts: Seq<Seq<char>>, h: Seq<char>)
    requires
        hosts.no_duplicates(),
    ensures
        count_host(spec_add(hosts, h), h) == 1,
    decreases hosts.len(),
{
    if spec_contains_host(hosts, h) {
        lemma_count_at_most_one(hosts, h);
        lemma_count_zero_iff_absent(hosts, h);
    } else {
        lemma_count_push_absent(hosts, h);
    }
}

/// Appending a hostname that is absent makes its count exactly one.
proof fn lemma_count_push_absent(hosts: Seq<Seq<char>>, h: Seq<char>)
    requires
        !spec_contains_host(hosts, h),
    ensures
        count_host(hosts.push(h), h) == 1,
    decreases hosts.len(),
{
    if hosts.len() == 0 {
        assert(hosts.push(h).drop_first() =~= Seq::<Seq<char>>::empty());
        assert(count_host(Seq::<Seq<char>>::empty(), h) == 0);
        assert(hosts.push(h)[0] == h);
    } else {
        assert(forall|i: int|
            1 <= i < hosts.len() ==> hosts[i] == #[trigger] hosts.drop_first()[i - 1]);
        assert(!spec_contains_host(hosts.drop_first(), h)) by {
            if spec_contains_host(hosts.drop_first(), h) {
                let i = choose|i: int|
                    0 <= i < hosts.drop_first().len() && hosts.drop_first()[i] == h;
                assert(hosts[i + 1] == h);
            }
        }
        lemma_count_push_absent(hosts.drop_first(), h);
        assert(hosts.push(h).drop_first() =~= hosts.drop_first().push(h));
        assert(hosts.push(h)[0] == hosts[0]);
        assert(hosts[0] != h);
    }
}

/// In a duplicate-free table every hostname is counted at most once.
proof fn lemma_count_at_most_one(hosts: Seq<Seq<char>>, h: Seq<char>)
    requires
        hosts.no_duplicates(),
    ensures
        count_host(hosts, h) <= 1,
    decreases hosts.len(),
{
    if hosts.len() > 0 {
        assert(hosts.drop_first().no_duplicates()) by {
            assert(forall|i: int|
                0 <= i < hosts.drop_first().len() ==> #[trigger] hosts.drop_first()[i] == hosts[i
                    + 1]);
        }
        lemma_count_at_most_one(hosts.drop_first(), h);
        if hosts[0] == h {
            assert(!spec_contains_host(hosts.drop_first(), h)) by {
                if spec_contains_host(hosts.drop_first(), h) {
                    let i = choose|i: int|
                        0 <= i < hosts.drop_first().len() && hosts.drop_first()[i] == h;
                    assert(hosts[i + 1] == h && hosts[0] == h);
                }
            }
            lemma_count_zero_iff_absent(hosts.drop_first(), h);
        }
    }
}

} // verus!
