//! The name registry: a set of records unique by their `name` field.

use vstd::prelude::*;

verus! {

/// A stored record. Identity is defined solely by `name`: two records with
/// equal `name` are the same entity, whatever other fields may be added later.
#[derive(Debug, Hash)]
pub struct Name {
    pub name: String,
}

/// The payload of a create request, as the transport layer decodes it.
#[derive(Debug)]
pub struct NewName {
    pub name: String,
}

impl PartialEq for Name {
    fn eq(&self, other: &Self) -> (r: bool) {
        self.name == other.name
    }
}

impl vstd::std_specs::cmp::PartialEqSpecImpl for Name {
    open spec fn obeys_eq_spec() -> bool {
        true
    }

    open spec fn eq_spec(&self, other: &Self) -> bool {
        self.name@ == other.name@
    }
}

impl Eq for Name {}

/// The names held by a sequence of records, in order.
pub open spec fn names_of(s: Seq<Name>) -> Seq<Seq<char>> {
    s.map(|i: int, r: Name| r.name@)
}

/// Whether `s` holds a record named `n`.
pub open spec fn contains_name(s: Seq<Seq<char>>, n: Seq<char>) -> bool {
    exists|i: int| 0 <= i < s.len() && s[i] == n
}

/// At most one record per distinct name value.
pub open spec fn unique_names(s: Seq<Seq<char>>) -> bool {
    forall|i: int, j: int|
        0 <= i < s.len() && 0 <= j < s.len() && i != j ==> s[i] != s[j]
}

/// The registry's contents after one insert-if-absent of `n`: unchanged when
/// a record named `n` is already present, otherwise extended by one record.
pub open spec fn insert_result(s: Seq<Seq<char>>, n: Seq<char>) -> Seq<Seq<char>> {
    if contains_name(s, n) {
        s
    } else {
        s.push(n)
    }
}

/// The outcome of an insert-if-absent call. `Created` carries the name that
/// was stored; `AlreadyExists` echoes the name of the record that was found.
pub enum InsertOutcome {
    Created(String),
    AlreadyExists(String),
}

/// The unique-name set. Grows monotonically; the concurrency wrapper that
/// serializes access to one instance is the caller's affair.
pub struct Registry {
    names: Vec<Name>,
}

impl View for Registry {
    type V = Seq<Seq<char>>;

    closed spec fn view(&self) -> Seq<Seq<char>> {
        names_of(self.names@)
    }
}

impl Registry {
    /// The registry invariant: at most one record per distinct name value.
    pub open spec fn wf(&self) -> bool {
        unique_names(self@)
    }

    /// An empty registry.
    pub fn new() -> (r: Registry)
        ensures
            r@ == Seq::<Seq<char>>::empty(),
            r.wf(),
    {
        Registry { names: Vec::new() }
    }

    /// Looks `name` up by equality; if absent, stores a new record and reports
    /// `Created`, else leaves the registry unchanged and reports
    /// `AlreadyExists` with the stored record's name (identical to the input,
    /// since no normalization is ever applied). The check-then-act sequence is
    /// indivisible here because the call holds the registry exclusively for
    /// its full duration.
    pub fn insert_if_absent(&mut self, name: String) -> (r: InsertOutcome)
        requires
            old(self).wf(),
        ensures
            final(self).wf(),
            final(self)@ == insert_result(old(self)@, name@),
            (r matches InsertOutcome::Created(stored) && stored@ == name@) <==> !contains_name(
                old(self)@,
                name@,
            ),
            (r matches InsertOutcome::AlreadyExists(found) && found@ == name@) <==> contains_name(
                old(self)@,
                name@,
            ),
    {
        let existing = get_name(&self.names, name.clone());
        match existing {
            Some(found) => InsertOutcome::AlreadyExists(found.name.clone()),
            None => {
                let ghost pre = self@;
                self.names.push(Name { name });
                proof {
                    assert(self@ =~= pre.push(self.names@.last().name@));
                    lemma_uniqueness(pre, self.names@.last().name@);
                }
                InsertOutcome::Created(self.names[self.names.len() - 1].name.clone())
            },
        }
    }

    /// A full copy of the current contents, reflecting one consistent
    /// instant: the caller owns the copy, and no later insert touches it.
    pub fn snapshot(&self) -> (r: Vec<Name>)
        ensures
            names_of(r@) == self@,
    {
        let mut out: Vec<Name> = Vec::new();
        let mut i: usize = 0;
        while i < self.names.len()
            invariant
                0 <= i <= self.names.len(),
                out@.len() == i,
                forall|k: int| 0 <= k < i ==> out@[k].name@ == self@[k],
            decreases self.names.len() - i,
        {
            out.push(Name { name: self.names[i].name.clone() });
            i = i + 1;
        }
        proof {
            assert(names_of(out@) =~= self@);
        }
        out
    }
}

/// Uniqueness invariant: however many insert-if-absent calls a registry has
/// seen, its contents hold at most one record per distinct name value —
/// each single insert preserves uniqueness.
pub proof fn lemma_uniqueness(s: Seq<Seq<char>>, n: Seq<char>)
    requires
        unique_names(s),
    ensures
        unique_names(insert_result(s, n)),
{
    if !contains_name(s, n) {
        assert forall|i: int| 0 <= i < s.len() implies s[i] != n by {
            assert(!(exists|k: int| 0 <= k < s.len() && s[k] == n));
        }
    }
}

/// Looks `name` up in `names` by equality of the `name` field, returning a
/// reference to the stored record if one is present.
pub fn get_name<'a>(names: &'a Vec<Name>, name: String) -> (r: Option<&'a Name>)
    ensures
        r is Some <==> contains_name(names_of(names@), name@),
        r matches Some(found) ==> found.name@ == name@,
{
    let mut i: usize = 0;
    while i < names.len()
        invariant
            0 <= i <= names.len(),
            forall|k: int| 0 <= k < i ==> names_of(names@)[k] != name@,
        decreases names.len() - i,
    {
        if names[i].name == name {
            proof {
                assert(names_of(names@)[i as int] == name@);
            }
            return Some(&names[i]);
        }
        i = i + 1;
    }
    None
}

/// The registry's contents after a whole sequence of insert-if-absent calls,
/// made in order on a registry that started with contents `s`.
pub open spec fn insert_all(s: Seq<Seq<char>>, names: Seq<Seq<char>>) -> Seq<Seq<char>>
    decreases names.len(),
{
    if names.len() == 0 {
        s
    } else {
        insert_all(insert_result(s, names[0]), names.drop_first())
    }
}

/// Idempotent rejection: once a name has been inserted — whether that insert
/// reported `Created` or `AlreadyExists` — every later insert of the same
/// name finds it present, so it reports `AlreadyExists` carrying that name
/// and leaves the contents unchanged, however often it is repeated.
pub proof fn lemma_idempotent_rejection(s: Seq<Seq<char>>, n: Seq<char>)
    ensures
        contains_name(insert_result(s, n), n),
        insert_result(insert_result(s, n), n) == insert_result(s, n),
{
    if !contains_name(s, n) {
        assert(insert_result(s, n)[s.len() as int] == n);
    }
}

/// Concurrent race: two racing inserts of the same absent name are serialized
/// by the registry's exclusive critical section, and under either order the
/// first to run reports `Created` (the name was absent), the second
/// `AlreadyExists` (the contents then hold it), with exactly one record added
/// in all.
pub proof fn lemma_concurrent_race(s: Seq<Seq<char>>, x: Seq<char>)
    requires
        !contains_name(s, x),
    ensures
        insert_result(s, x).len() == s.len() + 1,
        contains_name(insert_result(s, x), x),
        insert_result(insert_result(s, x), x) == insert_result(s, x),
{
    lemma_idempotent_rejection(s, x);
}

proof fn lemma_insert_all_extends(s: Seq<Seq<char>>, names: Seq<Seq<char>>)
    requires
        unique_names(s + names),
    ensures
        insert_all(s, names) == s + names,
    decreases names.len(),
{
    if names.len() == 0 {
        assert(s + names =~= s);
    } else {
        let n0 = names[0];
        let rest = names.drop_first();
        assert((s + names)[s.len() as int] == n0);
        assert(!contains_name(s, n0)) by {
            if contains_name(s, n0) {
                let i = choose|i: int| 0 <= i < s.len() && s[i] == n0;
                assert((s + names)[i] == (s + names)[s.len() as int]);
            }
        }
        assert(s.push(n0) + rest =~= s + names);
        lemma_insert_all_extends(s.push(n0), rest);
    }
}

/// Snapshot consistency: a snapshot taken after N successful `Created`
/// inserts into an initially empty registry, and before any further write,
/// holds exactly those N distinct names — no more, no fewer. (Inserting N
/// distinct names into an empty registry makes every insert a `Created`, and
/// leaves exactly that sequence as the contents, which `snapshot` copies.)
pub proof fn lemma_snapshot_consistency(names: Seq<Seq<char>>)
    requires
        unique_names(names),
    ensures
        insert_all(Seq::<Seq<char>>::empty(), names) == names,
        insert_all(Seq::<Seq<char>>::empty(), names).len() == names.len(),
{
    let empty = Seq::<Seq<char>>::empty();
    assert(empty + names =~= names);
    lemma_insert_all_extends(empty, names);
}

} // verus!
