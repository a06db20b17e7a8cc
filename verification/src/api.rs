//! The decisions of the daemon's HTTP API: who may call it, how many shells
//! it runs, which hosts shells may reach, and which Hermytt session each
//! shell is bridged to.

use vstd::prelude::*;
use crate::error::Error;
use crate::text::str_eq;

verus! {

/// The shell limit when the configuration sets none.
pub const DEFAULT_MAX_SHELLS: usize = 64;

/// The status a refused API request is answered with (401 Unauthorized).
pub const UNAUTHORIZED: u16 = 401;

/// The shell limit: the configured one, else `DEFAULT_MAX_SHELLS`.
pub fn max_shells(configured: Option<usize>) -> (r: usize)
    ensures
        r == match configured {
            Some(n) => n,
            None => DEFAULT_MAX_SHELLS,
        },
{
    match configured {
        Some(n) => n,
        None => DEFAULT_MAX_SHELLS,
    }
}

/// A request may pass when no API key is configured (local development), or
/// when its `x-shytti-key` header holds exactly the configured key.
pub open spec fn request_allowed(api_key: Seq<char>, provided: Option<Seq<char>>) -> bool {
    api_key.len() == 0 || provided == Some(api_key)
}

/// Admits or refuses an API request, given the configured key and the text
/// of its `x-shytti-key` header (`None` when absent or not visible ASCII);
/// a refusal carries the status `UNAUTHORIZED`.
pub fn authorize(api_key: &str, provided: Option<&str>) -> (r: Result<(), u16>)
    ensures
        r is Ok <==> request_allowed(api_key@, match provided { Some(k) => Some(k@), None => None }),
        r matches Err(status) ==> status == UNAUTHORIZED,
        api_key@.len() == 0 ==> r is Ok,
        api_key@.len() > 0 ==> (r is Ok <==> (provided matches Some(k) && k@ == api_key@)),
{
    if api_key.is_empty() {
        return Ok(());
    }
    match provided {
        Some(key) => if str_eq(key, api_key) { Ok(()) } else { Err(UNAUTHORIZED) },
        None => Err(UNAUTHORIZED),
    }
}

/// The hosts named by the configured shells, in order, skipping shells
/// without one.
pub open spec fn named_hosts(hosts: Seq<Option<String>>) -> Seq<Seq<char>>
    decreases hosts.len(),
{
    if hosts.len() == 0 {
        Seq::empty()
    } else {
        let rest = named_hosts(hosts.drop_last());
        match hosts.last() {
            Some(h) => rest.push(h@),
            None => rest,
        }
    }
}

/// The hosts that spawned shells may reach: those the configured shells name.
pub fn allowed_hosts(hosts: &Vec<Option<String>>) -> (r: Vec<String>)
    ensures
        r@.map_values(|h: String| h@) == named_hosts(hosts@),
        forall|i: int| 0 <= i < hosts@.len() && hosts@[i] is Some
            ==> exists|j: int| 0 <= j < r@.len() && #[trigger] r@[j]@ == hosts@[i]->0@,
        forall|j: int| 0 <= j < r@.len()
            ==> exists|i: int| 0 <= i < hosts@.len() && hosts@[i] is Some && #[trigger] r@[j]@ == hosts@[i]->0@,
{
    let mut r: Vec<String> = Vec::new();
    let mut i: usize = 0;
    while i < hosts.len()
        invariant
            i <= hosts@.len(),
            r@.map_values(|h: String| h@) == named_hosts(hosts@.subrange(0, i as int)),
        decreases hosts.len() - i,
    {
        assert(hosts@.subrange(0, i + 1).drop_last() == hosts@.subrange(0, i as int));
        match &hosts[i] {
            Some(h) => {
                r.push(h.clone());
                assert(r@.map_values(|h: String| h@) =~= named_hosts(hosts@.subrange(0, i as int)).push(h@));
            },
            None => {},
        }
        i = i + 1;
    }
    assert(hosts@.subrange(0, hosts@.len() as int) == hosts@);
    proof {
        assert forall|i: int| 0 <= i < hosts@.len() && hosts@[i] is Some
            implies exists|j: int| 0 <= j < r@.len() && #[trigger] r@[j]@ == hosts@[i]->0@ by {
            lemma_named_host_listed(hosts@, i);
            let j = choose|j: int| 0 <= j < named_hosts(hosts@).len() && named_hosts(hosts@)[j] == hosts@[i]->0@;
            assert(r@.map_values(|h: String| h@)[j] == r@[j]@);
        }
        assert forall|j: int| 0 <= j < r@.len()
            implies exists|i: int| 0 <= i < hosts@.len() && hosts@[i] is Some && #[trigger] r@[j]@ == hosts@[i]->0@ by {
            assert(r@.map_values(|h: String| h@)[j] == r@[j]@);
            lemma_listed_host_named(hosts@, j);
        }
    }
    r
}

/// Every host a configured shell names is listed.
pub proof fn lemma_named_host_listed(hosts: Seq<Option<String>>, i: int)
    requires
        0 <= i < hosts.len(),
        hosts[i] is Some,
    ensures
        exists|j: int| 0 <= j < named_hosts(hosts).len() && named_hosts(hosts)[j] == hosts[i]->0@,
    decreases hosts.len(),
{
    let rest = named_hosts(hosts.drop_last());
    if i == hosts.len() - 1 {
        assert(named_hosts(hosts)[rest.len() as int] == hosts[i]->0@);
    } else {
        lemma_named_host_listed(hosts.drop_last(), i);
        let j = choose|j: int| 0 <= j < rest.len() && rest[j] == hosts.drop_last()[i]->0@;
        assert(named_hosts(hosts)[j] == rest[j]);
    }
}

/// Every listed host is named by a configured shell.
pub proof fn lemma_listed_host_named(hosts: Seq<Option<String>>, j: int)
    requires
        0 <= j < named_hosts(hosts).len(),
    ensures
        exists|i: int| 0 <= i < hosts.len() && hosts[i] is Some && named_hosts(hosts)[j] == hosts[i]->0@,
    decreases hosts.len(),
{
    let rest = named_hosts(hosts.drop_last());
    if j < rest.len() {
        assert(named_hosts(hosts)[j] == rest[j]);
        lemma_listed_host_named(hosts.drop_last(), j);
        let i = choose|i: int| 0 <= i < hosts.drop_last().len() && hosts.drop_last()[i] is Some
            && rest[j] == hosts.drop_last()[i]->0@;
        assert(hosts[i] == hosts.drop_last()[i]);
    } else {
        let i = hosts.len() - 1;
        assert(hosts[i] is Some);
    }
}

/// Which Hermytt session each bridged shell is attached to.
pub struct SessionTable {
    entries: Vec<(String, String)>,
}

/// No shell id stands twice among `s`.
pub open spec fn keys_distinct(s: Seq<(String, String)>) -> bool {
    forall|i: int, j: int| 0 <= i < s.len() && 0 <= j < s.len() && i != j ==> s[i].0@ != s[j].0@
}

/// Shell id `k` stands among `s`.
pub open spec fn has_key(s: Seq<(String, String)>, k: Seq<char>) -> bool {
    exists|i: int| 0 <= i < s.len() && s[i].0@ == k
}

/// The map from shell id to session id that the entries `s` spell.
pub open spec fn table_map(s: Seq<(String, String)>) -> Map<Seq<char>, Seq<char>> {
    Map::new(
        |k: Seq<char>| has_key(s, k),
        |k: Seq<char>| s[choose|i: int| 0 <= i < s.len() && s[i].0@ == k].1@,
    )
}

/// With distinct ids, the entry at `i` is what the map holds for its id.
proof fn lemma_table_entry(s: Seq<(String, String)>, i: int)
    requires
        keys_distinct(s),
        0 <= i < s.len(),
    ensures
        table_map(s).contains_key(s[i].0@),
        table_map(s)[s[i].0@] == s[i].1@,
{
    let k = s[i].0@;
    assert(has_key(s, k));
    let j = choose|j: int| 0 <= j < s.len() && s[j].0@ == k;
    assert(j == i);
}

impl SessionTable {
    #[verifier::type_invariant]
    spec fn wf(self) -> bool {
        keys_distinct(self.entries@)
    }

    /// The table as a map from shell id to session id.
    pub closed spec fn view(&self) -> Map<Seq<char>, Seq<char>> {
        table_map(self.entries@)
    }

    /// An empty table.
    pub fn new() -> (r: Self)
        ensures
            r.view() == Map::<Seq<char>, Seq<char>>::empty(),
    {
        let r = SessionTable { entries: Vec::new() };
        assert(table_map(r.entries@) =~= Map::<Seq<char>, Seq<char>>::empty());
        r
    }

    /// The index of the entry for shell `id`.
    fn position(&self, id: &str) -> (r: Option<usize>)
        ensures
            match r {
                Some(i) => i < self.entries@.len() && self.entries@[i as int].0@ == id@,
                None => !has_key(self.entries@, id@),
            },
    {
        let mut i: usize = 0;
        while i < self.entries.len()
            invariant
                i <= self.entries@.len(),
                forall|j: int| 0 <= j < i ==> self.entries@[j].0@ != id@,
            decreases self.entries.len() - i,
        {
            if str_eq(self.entries[i].0.as_str(), id) {
                return Some(i);
            }
            i = i + 1;
        }
        None
    }

    /// The session shell `id` is attached to.
    pub fn get(&self, id: &str) -> (r: Option<&String>)
        ensures
            match r {
                Some(s) => self.view().contains_key(id@) && self.view()[id@] == s@,
                None => !self.view().contains_key(id@),
            },
    {
        proof { use_type_invariant(self); }
        match self.position(id) {
            Some(i) => {
                proof { lemma_table_entry(self.entries@, i as int); }
                Some(&self.entries[i].1)
            },
            None => None,
        }
    }

    /// Records that shell `id` is attached to `session`, returning the
    /// session it was attached to before, if any.
    pub fn insert(&mut self, id: String, session: String) -> (r: Option<String>)
        ensures
            final(self).view() == old(self).view().insert(id@, session@),
            match r {
                Some(s) => old(self).view().contains_key(id@) && old(self).view()[id@] == s@,
                None => !old(self).view().contains_key(id@),
            },
    {
        proof { use_type_invariant(&*self); }
        let ghost old_entries = self.entries@;
        match self.position(id.as_str()) {
            Some(i) => {
                proof { lemma_table_entry(old_entries, i as int); }
                let previous = self.entries[i].1.clone();
                let ghost k = id@;
                let mut entries: Vec<(String, String)> = Vec::new();
                std::mem::swap(&mut entries, &mut self.entries);
                entries.set(i, (id, session));
                proof {
                    let s = entries@;
                    assert(keys_distinct(s));
                    assert forall|kk: Seq<char>| #![auto] has_key(s, kk) <==> has_key(old_entries, kk) by {
                        if has_key(s, kk) {
                            let j = choose|j: int| 0 <= j < s.len() && s[j].0@ == kk;
                            assert(old_entries[j].0@ == kk);
                        }
                        if has_key(old_entries, kk) {
                            let j = choose|j: int| 0 <= j < old_entries.len() && old_entries[j].0@ == kk;
                            assert(s[j].0@ == kk);
                        }
                    }
                    assert forall|kk: Seq<char>| #[trigger] table_map(s).contains_key(kk)
                        implies table_map(s)[kk] == table_map(old_entries).insert(k, session@)[kk] by {
                        let j = choose|j: int| 0 <= j < s.len() && s[j].0@ == kk;
                        lemma_table_entry(s, j);
                        lemma_table_entry(old_entries, j);
                    }
                    assert(table_map(s) =~= table_map(old_entries).insert(k, session@));
                }
                self.entries = entries;
                Some(previous)
            },
            None => {
                let ghost k = id@;
                let mut entries: Vec<(String, String)> = Vec::new();
                std::mem::swap(&mut entries, &mut self.entries);
                entries.push((id, session));
                proof {
                    let s = entries@;
                    assert(s.len() == old_entries.len() + 1);
                    assert(keys_distinct(s));
                    assert forall|kk: Seq<char>| #![auto] has_key(s, kk) <==> (has_key(old_entries, kk) || kk == k) by {
                        if has_key(s, kk) {
                            let j = choose|j: int| 0 <= j < s.len() && s[j].0@ == kk;
                            if j < old_entries.len() {
                                assert(old_entries[j].0@ == kk);
                            }
                        }
                        if has_key(old_entries, kk) {
                            let j = choose|j: int| 0 <= j < old_entries.len() && old_entries[j].0@ == kk;
                            assert(s[j].0@ == kk);
                        }
                        if kk == k {
                            assert(s[old_entries.len() as int].0@ == kk);
                        }
                    }
                    assert forall|kk: Seq<char>| #[trigger] table_map(s).contains_key(kk)
                        implies table_map(s)[kk] == table_map(old_entries).insert(k, session@)[kk] by {
                        let j = choose|j: int| 0 <= j < s.len() && s[j].0@ == kk;
                        lemma_table_entry(s, j);
                        if j < old_entries.len() {
                            lemma_table_entry(old_entries, j);
                        }
                    }
                    assert(table_map(s) =~= table_map(old_entries).insert(k, session@));
                }
                self.entries = entries;
                None
            },
        }
    }

    /// Forgets shell `id`, returning the session it was attached to, if any.
    pub fn remove(&mut self, id: &str) -> (r: Option<String>)
        ensures
            final(self).view() == old(self).view().remove(id@),
            match r {
                Some(s) => old(self).view().contains_key(id@) && old(self).view()[id@] == s@,
                None => !old(self).view().contains_key(id@),
            },
    {
        proof { use_type_invariant(&*self); }
        let ghost old_entries = self.entries@;
        match self.position(id) {
            Some(i) => {
                proof { lemma_table_entry(old_entries, i as int); }
                let mut entries: Vec<(String, String)> = Vec::new();
                std::mem::swap(&mut entries, &mut self.entries);
                let (_, session) = entries.remove(i);
                proof {
                    let s = entries@;
                    assert(s == old_entries.remove(i as int));
                    assert(keys_distinct(s));
                    assert forall|kk: Seq<char>| #![auto] has_key(s, kk) <==> (has_key(old_entries, kk) && kk != id@) by {
                        if has_key(s, kk) {
                            let j = choose|j: int| 0 <= j < s.len() && s[j].0@ == kk;
                            if j < i {
                                assert(old_entries[j].0@ == kk);
                            } else {
                                assert(old_entries[j + 1].0@ == kk);
                            }
                        }
                        if has_key(old_entries, kk) && kk != id@ {
                            let j = choose|j: int| 0 <= j < old_entries.len() && old_entries[j].0@ == kk;
                            if j < i {
                                assert(s[j].0@ == kk);
                            } else {
                                assert(s[j - 1].0@ == kk);
                            }
                        }
                    }
                    assert forall|kk: Seq<char>| #[trigger] table_map(s).contains_key(kk)
                        implies table_map(s)[kk] == table_map(old_entries).remove(id@)[kk] by {
                        let j = choose|j: int| 0 <= j < s.len() && s[j].0@ == kk;
                        lemma_table_entry(s, j);
                        if j < i {
                            lemma_table_entry(old_entries, j);
                        } else {
                            lemma_table_entry(old_entries, j + 1);
                        }
                    }
                    assert(table_map(s) =~= table_map(old_entries).remove(id@));
                }
                self.entries = entries;
                Some(session)
            },
            None => {
                proof {
                    assert(table_map(old_entries).remove(id@) =~= table_map(old_entries));
                }
                None
            },
        }
    }

    /// Records the Hermytt session of a newly spawned shell `id` when
    /// attaching it succeeded; a failed attach leaves the table as it was and
    /// is handed back, for the caller to log.
    pub fn record_attach(&mut self, id: String, attached: Result<String, Error>) -> (r: Option<Error>)
        ensures
            match attached {
                Ok(session) => final(self).view() == old(self).view().insert(id@, session@) && r is None,
                Err(e) => final(self).view() == old(self).view() && r == Some(e),
            },
    {
        match attached {
            Ok(session) => {
                self.insert(id, session);
                None
            },
            Err(e) => Some(e),
        }
    }

    /// The number of bridged shells.
    pub fn len(&self) -> (r: usize)
        ensures
            r == self.view().len(),
    {
        proof {
            use_type_invariant(self);
            lemma_table_len(self.entries@);
        }
        self.entries.len()
    }
}

/// With distinct ids, the map has as many entries as the sequence.
proof fn lemma_table_len(s: Seq<(String, String)>)
    requires
        keys_distinct(s),
    ensures
        table_map(s).dom().finite(),
        table_map(s).len() == s.len(),
    decreases s.len(),
{
    if s.len() == 0 {
        assert(table_map(s).dom() =~= Set::empty());
    } else {
        let t = s.drop_last();
        let k = s.last().0@;
        assert(keys_distinct(t));
        lemma_table_len(t);
        assert forall|kk: Seq<char>| #![auto] has_key(s, kk) <==> (has_key(t, kk) || kk == k) by {
            if has_key(s, kk) {
                let j = choose|j: int| 0 <= j < s.len() && s[j].0@ == kk;
                if j < t.len() {
                    assert(t[j].0@ == kk);
                }
            }
            if has_key(t, kk) {
                let j = choose|j: int| 0 <= j < t.len() && t[j].0@ == kk;
                assert(s[j].0@ == kk);
            }
        }
        assert(!has_key(t, k)) by {
            if has_key(t, k) {
                let j = choose|j: int| 0 <= j < t.len() && t[j].0@ == k;
                assert(s[j].0@ == s[s.len() - 1].0@);
            }
        }
        assert(table_map(s).dom() =~= table_map(t).dom().insert(k));
    }
}

} // verus!
