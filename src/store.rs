//! The proof store: an immutable mapping from identifier to proof document.
use crate::json::{json_object_members, read_object_members};
use vstd::prelude::*;

verus! {

/// Why a proof could not be handed out.
#[derive(Debug, Clone, Copy, PartialEq, Eq, Structural)]
pub enum ProofError {
    /// No document is stored under the identifier.
    NotFound,
    /// The backing resource could not be read.
    StoreUnavailable,
    /// The backing resource was read but does not hold valid JSON.
    StoreCorrupt,
}

/// The text that callers see for each kind of failure.
pub open spec fn message_of(e: ProofError) -> Seq<char> {
    match e {
        ProofError::NotFound => "Proof not found for the given secret"@,
        ProofError::StoreUnavailable => "Failed to read the proof file"@,
        ProofError::StoreCorrupt => "Failed to parse the proof file as valid JSON"@,
    }
}

impl ProofError {
    /// A human-readable description of the failure.
    pub fn message(&self) -> (r: String)
        ensures
            r@ == message_of(*self),
    {
        match self {
            ProofError::NotFound => String::from_str("Proof not found for the given secret"),
            ProofError::StoreUnavailable => String::from_str("Failed to read the proof file"),
            ProofError::StoreCorrupt => String::from_str(
                "Failed to parse the proof file as valid JSON",
            ),
        }
    }
}

/// Identifier/document pairs as sequences of characters.
pub open spec fn pairs_view(v: Seq<(String, String)>) -> Seq<(Seq<char>, Seq<char>)> {
    v.map_values(|p: (String, String)| (p.0@, p.1@))
}

/// The mapping that a list of identifier/document pairs denotes: a later pair
/// overrides an earlier one with the same identifier.
pub open spec fn pairs_map(ps: Seq<(Seq<char>, Seq<char>)>) -> Map<Seq<char>, Seq<char>>
    decreases ps.len(),
{
    if ps.len() == 0 {
        Map::empty()
    } else {
        pairs_map(ps.drop_last()).insert(ps.last().0, ps.last().1)
    }
}

/// No identifier occurs twice.
pub open spec fn keys_distinct(ps: Seq<(Seq<char>, Seq<char>)>) -> bool {
    forall|i: int, j: int|
        0 <= i < ps.len() && 0 <= j < ps.len() && i != j ==> #[trigger] ps[i].0 != #[trigger] ps[j].0
}

/// With distinct identifiers, the mapping holds exactly the listed pairs.
proof fn lemma_pairs_map(ps: Seq<(Seq<char>, Seq<char>)>)
    requires
        keys_distinct(ps),
    ensures
        forall|k: Seq<char>|
            #[trigger] pairs_map(ps).contains_key(k) <==> exists|i: int|
                0 <= i < ps.len() && #[trigger] ps[i].0 == k,
        forall|i: int| 0 <= i < ps.len() ==> #[trigger] pairs_map(ps)[ps[i].0] == ps[i].1,
    decreases ps.len(),
{
    if ps.len() > 0 {
        let init = ps.drop_last();
        assert(keys_distinct(init)) by {
            assert forall|i: int, j: int|
                0 <= i < init.len() && 0 <= j < init.len() && i != j implies #[trigger] init[i].0
                != #[trigger] init[j].0 by {
                assert(init[i] == ps[i] && init[j] == ps[j]);
            }
        }
        lemma_pairs_map(init);
        assert forall|k: Seq<char>|
            #[trigger] pairs_map(ps).contains_key(k) implies exists|i: int|
                0 <= i < ps.len() && #[trigger] ps[i].0 == k by {
            if k != ps.last().0 {
                assert(pairs_map(init).contains_key(k));
                let i = choose|i: int| 0 <= i < init.len() && #[trigger] init[i].0 == k;
                assert(ps[i] == init[i]);
            } else {
                assert(ps[ps.len() - 1].0 == k);
            }
        }
        assert forall|k: Seq<char>|
            (exists|i: int| 0 <= i < ps.len() && #[trigger] ps[i].0 == k) implies #[trigger] pairs_map(
                ps,
            ).contains_key(k) by {
            let i = choose|i: int| 0 <= i < ps.len() && #[trigger] ps[i].0 == k;
            if i < init.len() {
                assert(init[i] == ps[i]);
                assert(pairs_map(init).contains_key(init[i].0));
            }
        }
        assert forall|i: int| 0 <= i < ps.len() implies #[trigger] pairs_map(ps)[ps[i].0]
            == ps[i].1 by {
            if i < init.len() {
                assert(init[i] == ps[i]);
                assert(ps[i].0 != ps[ps.len() - 1].0);
                assert(pairs_map(init)[init[i].0] == init[i].1);
            }
        }
    }
}

/// Replacing the document of a listed identifier is an update of the mapping.
proof fn lemma_pairs_map_replace(ps: Seq<(Seq<char>, Seq<char>)>, i: int, d: Seq<char>)
    requires
        keys_distinct(ps),
        0 <= i < ps.len(),
    ensures
        keys_distinct(ps.update(i, (ps[i].0, d))),
        pairs_map(ps.update(i, (ps[i].0, d))) == pairs_map(ps).insert(ps[i].0, d),
{
    let k = ps[i].0;
    let qs = ps.update(i, (k, d));
    assert forall|a: int, b: int|
        0 <= a < qs.len() && 0 <= b < qs.len() && a != b implies #[trigger] qs[a].0
        != #[trigger] qs[b].0 by {
        assert(qs[a].0 == ps[a].0 && qs[b].0 == ps[b].0);
    }
    lemma_pairs_map(ps);
    lemma_pairs_map(qs);
    let m = pairs_map(ps).insert(k, d);
    assert forall|x: Seq<char>| #[trigger] pairs_map(qs).contains_key(x) <==> m.contains_key(x) by {
        if pairs_map(qs).contains_key(x) {
            let j = choose|j: int| 0 <= j < qs.len() && #[trigger] qs[j].0 == x;
            assert(ps[j].0 == x);
        }
        if m.contains_key(x) && x != k {
            let j = choose|j: int| 0 <= j < ps.len() && #[trigger] ps[j].0 == x;
            assert(qs[j].0 == x);
        }
        if x == k {
            assert(qs[i].0 == x);
        }
    }
    assert forall|x: Seq<char>| #[trigger] pairs_map(qs).contains_key(x) implies pairs_map(qs)[x]
        == m[x] by {
        let j = choose|j: int| 0 <= j < qs.len() && #[trigger] qs[j].0 == x;
        if j != i {
            assert(qs[j] == ps[j]);
            assert(pairs_map(ps)[ps[j].0] == ps[j].1);
        }
        assert(pairs_map(qs)[qs[j].0] == qs[j].1);
    }
    assert(pairs_map(qs) =~= m);
}

/// Appending a pair with a new identifier keeps identifiers distinct and adds
/// it to the mapping.
proof fn lemma_pairs_map_push(ps: Seq<(Seq<char>, Seq<char>)>, p: (Seq<char>, Seq<char>))
    requires
        keys_distinct(ps),
        !pairs_map(ps).contains_key(p.0),
    ensures
        keys_distinct(ps.push(p)),
        pairs_map(ps.push(p)) == pairs_map(ps).insert(p.0, p.1),
{
    lemma_pairs_map(ps);
    let qs = ps.push(p);
    assert forall|a: int, b: int|
        0 <= a < qs.len() && 0 <= b < qs.len() && a != b implies #[trigger] qs[a].0
        != #[trigger] qs[b].0 by {
        if a < ps.len() {
            assert(qs[a] == ps[a]);
            assert(pairs_map(ps).contains_key(ps[a].0));
        }
        if b < ps.len() {
            assert(qs[b] == ps[b]);
            assert(pairs_map(ps).contains_key(ps[b].0));
        }
    }
    assert(qs.drop_last() =~= ps);
}

/// The mapping that a JSON text denotes: the members of an object, nothing
/// for any other JSON value, `StoreCorrupt` for text that is not JSON.
pub open spec fn store_from_text(text: Seq<char>) -> Result<Map<Seq<char>, Seq<char>>, ProofError> {
    match json_object_members(text) {
        Err(_) => Err(ProofError::StoreCorrupt),
        Ok(None) => Ok(Map::empty()),
        Ok(Some(ps)) => Ok(pairs_map(ps)),
    }
}

/// The backing resource as text, or `None` where it could not be read.
pub open spec fn resource_view(resource: Option<&str>) -> Option<Seq<char>> {
    match resource {
        Some(text) => Some(text@),
        None => None,
    }
}

/// The mapping that a backing resource denotes; `StoreUnavailable` where it
/// could not be read.
pub open spec fn store_from_resource(resource: Option<Seq<char>>) -> Result<
    Map<Seq<char>, Seq<char>>,
    ProofError,
> {
    match resource {
        None => Err(ProofError::StoreUnavailable),
        Some(text) => store_from_text(text),
    }
}

/// A mapping from identifier to proof document, read-only once built.
pub struct ProofStore {
    entries: Vec<(String, String)>,
}

impl View for ProofStore {
    type V = Map<Seq<char>, Seq<char>>;

    closed spec fn view(&self) -> Map<Seq<char>, Seq<char>> {
        pairs_map(pairs_view(self.entries@))
    }
}

impl ProofStore {
    /// Well-formed: no identifier is listed twice.
    pub closed spec fn wf(&self) -> bool {
        keys_distinct(pairs_view(self.entries@))
    }

    /// A store that holds no document.
    pub fn new() -> (r: ProofStore)
        ensures
            r.wf(),
            r@ == Map::<Seq<char>, Seq<char>>::empty(),
    {
        let r = ProofStore { entries: Vec::new() };
        assert(pairs_view(r.entries@) =~= Seq::empty());
        r
    }

    /// The store that a list of pairs denotes; a later pair overrides an
    /// earlier one with the same identifier.
    pub fn from_pairs(pairs: Vec<(String, String)>) -> (r: ProofStore)
        ensures
            r.wf(),
            r@ == pairs_map(pairs_view(pairs@)),
    {
        let mut store = ProofStore::new();
        let ghost ps = pairs_view(pairs@);
        let mut i: usize = 0;
        while i < pairs.len()
            invariant
                i <= pairs@.len(),
                ps == pairs_view(pairs@),
                store.wf(),
                store@ == pairs_map(ps.take(i as int)),
            decreases pairs@.len() - i,
        {
            let id = pairs[i].0.clone();
            let doc = pairs[i].1.clone();
            store.insert(id, doc);
            assert(ps.take(i + 1).drop_last() =~= ps.take(i as int));
            i = i + 1;
        }
        assert(ps.take(i as int) =~= ps);
        store
    }

    /// Parses a JSON text into a store.
    pub fn from_json(text: &str) -> (r: Result<ProofStore, ProofError>)
        ensures
            match r {
                Ok(store) => store.wf() && store_from_text(text@) == Ok::<_, ProofError>(store@),
                Err(e) => store_from_text(text@) == Err::<Map<Seq<char>, Seq<char>>, _>(e),
            },
    {
        match read_object_members(text) {
            Ok(Some(members)) => Ok(ProofStore::from_pairs(members)),
            Ok(None) => Ok(ProofStore::new()),
            Err(_) => Err(ProofError::StoreCorrupt),
        }
    }

    /// Builds the store from the backing resource's text, `None` standing for
    /// a resource that could not be read.
    pub fn load(resource: Option<&str>) -> (r: Result<ProofStore, ProofError>)
        ensures
            match r {
                Ok(store) => store.wf() && store_from_resource(resource_view(resource)) == Ok::<
                    _,
                    ProofError,
                >(store@),
                Err(e) => store_from_resource(resource_view(resource)) == Err::<
                    Map<Seq<char>, Seq<char>>,
                    _,
                >(e),
            },
    {
        match resource {
            Some(text) => ProofStore::from_json(text),
            None => Err(ProofError::StoreUnavailable),
        }
    }

    /// The position of the entry for `id`, if there is one.
    fn position(&self, id: &str) -> (r: Option<usize>)
        ensures
            match r {
                Some(i) => i < self.entries@.len() && self.entries@[i as int].0@ == id@,
                None => forall|i: int|
                    0 <= i < self.entries@.len() ==> #[trigger] self.entries@[i].0@ != id@,
            },
    {
        let key = String::from_str(id);
        let mut i: usize = 0;
        while i < self.entries.len()
            invariant
                i <= self.entries@.len(),
                key@ == id@,
                forall|j: int| 0 <= j < i ==> #[trigger] self.entries@[j].0@ != id@,
            decreases self.entries@.len() - i,
        {
            if self.entries[i].0 == key {
                return Some(i);
            }
            i = i + 1;
        }
        None
    }

    /// Whether a document is stored under `id`, compared by exact equality.
    pub fn contains(&self, id: &str) -> (r: bool)
        requires
            self.wf(),
        ensures
            r == self@.contains_key(id@),
    {
        proof {
            lemma_pairs_map(pairs_view(self.entries@));
        }
        let r = self.position(id);
        proof {
            let ps = pairs_view(self.entries@);
            if r is Some {
                assert(ps[r->Some_0 as int].0 == id@);
            } else {
                assert forall|i: int| 0 <= i < ps.len() implies #[trigger] ps[i].0 != id@ by {
                    assert(ps[i].0 == self.entries@[i].0@);
                }
            }
        }
        r.is_some()
    }

    /// The document stored under `id`; `NotFound` when there is none.
    pub fn lookup(&self, id: &str) -> (r: Result<String, ProofError>)
        requires
            self.wf(),
        ensures
            match r {
                Ok(d) => self@.contains_key(id@) && d@ == self@[id@],
                Err(e) => !self@.contains_key(id@) && e == ProofError::NotFound,
            },
    {
        proof {
            lemma_pairs_map(pairs_view(self.entries@));
        }
        match self.position(id) {
            Some(i) => {
                let ghost ps = pairs_view(self.entries@);
                assert(ps[i as int] == (self.entries@[i as int].0@, self.entries@[i as int].1@));
                assert(pairs_map(ps).contains_key(ps[i as int].0));
                assert(pairs_map(ps)[ps[i as int].0] == ps[i as int].1);
                Ok(self.entries[i].1.clone())
            },
            None => {
                let ghost ps = pairs_view(self.entries@);
                assert forall|i: int| 0 <= i < ps.len() implies #[trigger] ps[i].0 != id@ by {
                    assert(ps[i].0 == self.entries@[i].0@);
                }
                Err(ProofError::NotFound)
            },
        }
    }

    /// Stores `doc` under `id`, replacing any document stored there before.
    pub fn insert(&mut self, id: String, doc: String)
        requires
            old(self).wf(),
        ensures
            final(self).wf(),
            final(self)@ == old(self)@.insert(id@, doc@),
    {
        proof {
            lemma_pairs_map(pairs_view(self.entries@));
        }
        let ghost ps = pairs_view(self.entries@);
        match self.position(id.as_str()) {
            Some(i) => {
                proof {
                    lemma_pairs_map_replace(ps, i as int, doc@);
                }
                self.entries.set(i, (id, doc));
                assert(pairs_view(self.entries@) =~= ps.update(i as int, (ps[i as int].0, doc@)));
            },
            None => {
                assert forall|j: int| 0 <= j < ps.len() implies #[trigger] ps[j].0 != id@ by {
                    assert(ps[j].0 == self.entries@[j].0@);
                }
                proof {
                    lemma_pairs_map_push(ps, (id@, doc@));
                }
                self.entries.push((id, doc));
                assert(pairs_view(self.entries@) =~= ps.push((id@, doc@)));
            },
        }
    }
}

} // verus!
