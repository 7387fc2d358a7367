//! The presence registry: one sink per connected identity, plus the two
//! role sets (targets and controllers) for authenticated identities.
//!
//! The registry is modelled by [`RegistryView`]: a map from identity to sink
//! token together with the two role sequences, in the order the identities
//! authenticated.  Every operation states its exact effect on that model.

use vstd::prelude::*;

verus! {

/// The two roles an identity can authenticate as.  A connection that has not
/// authenticated is simply in neither role set.
#[derive(Clone, Copy, Debug, PartialEq, Eq, Structural)]
pub enum Role {
    Target,
    Controller,
}

/// The mathematical state of a registry: sinks by identity, and the two role
/// sequences (ordered by authentication, oldest first).
#[verifier::ext_equal]
pub ghost struct RegistryView {
    pub connections: Map<Seq<char>, u64>,
    pub targets: Seq<Seq<char>>,
    pub controllers: Seq<Seq<char>>,
}

/// `s` with every occurrence of `id` removed, order otherwise kept.
pub open spec fn remove_id(s: Seq<Seq<char>>, id: Seq<char>) -> Seq<Seq<char>>
    decreases s.len(),
{
    if s.len() == 0 {
        Seq::empty()
    } else if s.last() == id {
        remove_id(s.drop_last(), id)
    } else {
        remove_id(s.drop_last(), id).push(s.last())
    }
}

/// No identity appears twice.
pub open spec fn distinct_ids(s: Seq<Seq<char>>) -> bool {
    forall|i: int, j: int| 0 <= i < j < s.len() ==> s[i] != s[j]
}

impl RegistryView {
    /// The registry with no connections and no authenticated identities.
    pub open spec fn empty() -> RegistryView {
        RegistryView {
            connections: Map::empty(),
            targets: Seq::empty(),
            controllers: Seq::empty(),
        }
    }

    /// The role sequence for `role`.
    pub open spec fn role_seq(self, role: Role) -> Seq<Seq<char>> {
        match role {
            Role::Target => self.targets,
            Role::Controller => self.controllers,
        }
    }

    /// Both role sets hold distinct identities, are disjoint, and only name
    /// currently connected identities.
    pub open spec fn inv(self) -> bool {
        &&& distinct_ids(self.targets)
        &&& distinct_ids(self.controllers)
        &&& forall|i: int|
            0 <= i < self.targets.len() ==> self.connections.contains_key(#[trigger] self.targets[i])
        &&& forall|i: int|
            0 <= i < self.controllers.len() ==> self.connections.contains_key(
                #[trigger] self.controllers[i],
            )
        &&& forall|i: int|
            0 <= i < self.targets.len() ==> !self.controllers.contains(#[trigger] self.targets[i])
    }
}

/// Effect of [`Registry::register`]: the sink for `id` is inserted or
/// overwritten; roles are untouched.
pub open spec fn register_spec(v: RegistryView, id: Seq<char>, sink: u64) -> RegistryView {
    RegistryView { connections: v.connections.insert(id, sink), targets: v.targets, controllers: v.controllers }
}

/// Effect of [`Registry::unregister`]: `id` leaves the connection map and
/// both role sequences.
pub open spec fn unregister_spec(v: RegistryView, id: Seq<char>) -> RegistryView {
    RegistryView {
        connections: v.connections.remove(id),
        targets: remove_id(v.targets, id),
        controllers: remove_id(v.controllers, id),
    }
}

/// Effect of [`Registry::mark_role`]: a no-op unless `id` is connected;
/// otherwise `id` joins the given role sequence (at the end, unless already
/// present) and leaves the other one, so the last marking wins.
pub open spec fn mark_role_spec(v: RegistryView, id: Seq<char>, role: Role) -> RegistryView {
    if !v.connections.contains_key(id) {
        v
    } else {
        match role {
            Role::Target => RegistryView {
                connections: v.connections,
                targets: if v.targets.contains(id) {
                    v.targets
                } else {
                    v.targets.push(id)
                },
                controllers: remove_id(v.controllers, id),
            },
            Role::Controller => RegistryView {
                connections: v.connections,
                targets: remove_id(v.targets, id),
                controllers: if v.controllers.contains(id) {
                    v.controllers
                } else {
                    v.controllers.push(id)
                },
            },
        }
    }
}

/// Effect of [`Registry::unmark_role`]: `id` leaves the given role sequence;
/// everything else is untouched.
pub open spec fn unmark_role_spec(v: RegistryView, id: Seq<char>, role: Role) -> RegistryView {
    match role {
        Role::Target => RegistryView {
            connections: v.connections,
            targets: remove_id(v.targets, id),
            controllers: v.controllers,
        },
        Role::Controller => RegistryView {
            connections: v.connections,
            targets: v.targets,
            controllers: remove_id(v.controllers, id),
        },
    }
}

/// The map an association list denotes: later entries win.
pub open spec fn assoc_map(s: Seq<(Seq<char>, u64)>) -> Map<Seq<char>, u64>
    decreases s.len(),
{
    if s.len() == 0 {
        Map::empty()
    } else {
        assoc_map(s.drop_last()).insert(s.last().0, s.last().1)
    }
}

/// No key appears twice in the association list.
pub open spec fn keys_distinct(s: Seq<(Seq<char>, u64)>) -> bool {
    forall|i: int, j: int| 0 <= i < j < s.len() ==> s[i].0 != s[j].0
}

proof fn lemma_assoc_map_contains(s: Seq<(Seq<char>, u64)>, k: Seq<char>)
    ensures
        assoc_map(s).contains_key(k) <==> exists|i: int| 0 <= i < s.len() && s[i].0 == k,
    decreases s.len(),
{
    if s.len() > 0 {
        lemma_assoc_map_contains(s.drop_last(), k);
        if s.last().0 == k {
            assert(s[s.len() - 1].0 == k);
        } else if assoc_map(s).contains_key(k) {
            let i = choose|i: int| 0 <= i < s.drop_last().len() && s.drop_last()[i].0 == k;
            assert(s[i].0 == k);
        } else if exists|i: int| 0 <= i < s.len() && s[i].0 == k {
            let i = choose|i: int| 0 <= i < s.len() && s[i].0 == k;
            assert(s.drop_last()[i].0 == k);
        }
    }
}

proof fn lemma_assoc_map_lookup(s: Seq<(Seq<char>, u64)>, i: int)
    requires
        keys_distinct(s),
        0 <= i < s.len(),
    ensures
        assoc_map(s).contains_key(s[i].0),
        assoc_map(s)[s[i].0] == s[i].1,
    decreases s.len(),
{
    if i == s.len() - 1 {
    } else {
        lemma_assoc_map_lookup(s.drop_last(), i);
        assert(s.drop_last()[i] == s[i]);
        assert(s.last().0 != s[i].0);
    }
}

proof fn lemma_assoc_map_remove_at(s: Seq<(Seq<char>, u64)>, i: int)
    requires
        keys_distinct(s),
        0 <= i < s.len(),
    ensures
        assoc_map(s.remove(i)) == assoc_map(s).remove(s[i].0),
    decreases s.len(),
{
    let k = s[i].0;
    if i == s.len() - 1 {
        assert(s.remove(i) =~= s.drop_last());
        lemma_assoc_map_contains(s.drop_last(), k);
        assert(forall|j: int| 0 <= j < s.drop_last().len() ==> s.drop_last()[j] == s[j]);
        assert(!assoc_map(s.drop_last()).contains_key(k));
        assert(assoc_map(s).remove(k) =~= assoc_map(s.drop_last()));
    } else {
        lemma_assoc_map_remove_at(s.drop_last(), i);
        assert(s.remove(i).drop_last() =~= s.drop_last().remove(i));
        assert(s.remove(i).last() == s.last());
        assert(s.last().0 != k);
        assert(assoc_map(s.remove(i)) == assoc_map(s.drop_last().remove(i)).insert(
            s.last().0,
            s.last().1,
        ));
        assert(assoc_map(s).remove(k) =~= assoc_map(s.drop_last()).remove(k).insert(
            s.last().0,
            s.last().1,
        ));
    }
}

proof fn lemma_keys_distinct_remove(s: Seq<(Seq<char>, u64)>, i: int)
    requires
        keys_distinct(s),
        0 <= i < s.len(),
    ensures
        keys_distinct(s.remove(i)),
{
    assert forall|a: int, b: int| 0 <= a < b < s.remove(i).len() implies s.remove(i)[a].0 != s.remove(
        i,
    )[b].0 by {
        let a0 = if a < i { a } else { a + 1 };
        let b0 = if b < i { b } else { b + 1 };
        assert(s.remove(i)[a] == s[a0]);
        assert(s.remove(i)[b] == s[b0]);
    }
}

/// The presence registry.  Internally an association list of connections and
/// two role vectors; externally the [`RegistryView`] model.
pub struct Registry {
    connections: Vec<(String, u64)>,
    targets: Vec<String>,
    controllers: Vec<String>,
}

impl View for Registry {
    type V = RegistryView;

    closed spec fn view(&self) -> RegistryView {
        RegistryView {
            connections: assoc_map(self.connections.deep_view()),
            targets: self.targets.deep_view(),
            controllers: self.controllers.deep_view(),
        }
    }
}

/// True of `v` and a fresh vector with the same identities minus `id`.
fn remove_string(v: &Vec<String>, id: &String) -> (r: Vec<String>)
    ensures
        r.deep_view() == remove_id(v.deep_view(), id@),
{
    let mut r: Vec<String> = Vec::new();
    let mut i: usize = 0;
    while i < v.len()
        invariant
            i <= v.len(),
            r.deep_view() == remove_id(v.deep_view().take(i as int), id@),
        decreases v.len() - i,
    {
        let ghost prefix = v.deep_view().take(i as int);
        let ghost next = v.deep_view().take(i + 1);
        proof {
            assert(next.drop_last() =~= prefix);
            assert(next.last() == v.deep_view()[i as int]);
        }
        if !(v[i] == *id) {
            let ghost before = r.deep_view();
            r.push(v[i].clone());
            proof {
                assert(r.deep_view() =~= before.push(v.deep_view()[i as int]));
            }
        }
        i += 1;
    }
    proof {
        assert(v.deep_view().take(v.len() as int) =~= v.deep_view());
    }
    r
}

/// True of `v` and a fresh copy of it.
pub(crate) fn clone_string_vec(v: &Vec<String>) -> (r: Vec<String>)
    ensures
        r.deep_view() == v.deep_view(),
{
    let mut r: Vec<String> = Vec::new();
    let mut i: usize = 0;
    while i < v.len()
        invariant
            i <= v.len(),
            r.deep_view() == v.deep_view().take(i as int),
        decreases v.len() - i,
    {
        let ghost before = r.deep_view();
        r.push(v[i].clone());
        proof {
            assert(r.deep_view() =~= before.push(v.deep_view()[i as int]));
            assert(v.deep_view().take(i + 1) =~= before.push(v.deep_view()[i as int]));
        }
        i += 1;
    }
    proof {
        assert(v.deep_view().take(v.len() as int) =~= v.deep_view());
    }
    r
}

/// Index of the entry keyed by `identity`, if there is one.
fn find_key(v: &Vec<(String, u64)>, identity: &String) -> (r: Option<usize>)
    ensures
        match r {
            Some(i) => i < v.deep_view().len() && v.deep_view()[i as int].0 == identity@,
            None => forall|j: int| 0 <= j < v.deep_view().len() ==> v.deep_view()[j].0 != identity@,
        },
{
    let mut i: usize = 0;
    while i < v.len()
        invariant
            i <= v.len(),
            forall|j: int| 0 <= j < i ==> v.deep_view()[j].0 != identity@,
        decreases v.len() - i,
    {
        if v[i].0 == *identity {
            proof {
                assert(v.deep_view()[i as int].0 == identity@);
            }
            return Some(i);
        }
        i += 1;
    }
    None
}

/// Whether some element of `v` views as `id@`.
fn vec_contains_string(v: &Vec<String>, id: &String) -> (r: bool)
    ensures
        r == v.deep_view().contains(id@),
{
    let mut i: usize = 0;
    while i < v.len()
        invariant
            i <= v.len(),
            forall|j: int| 0 <= j < i ==> v.deep_view()[j] != id@,
        decreases v.len() - i,
    {
        if v[i] == *id {
            proof {
                assert(v.deep_view()[i as int] == id@);
            }
            return true;
        }
        i += 1;
    }
    false
}

impl Registry {
    #[verifier::type_invariant]
    spec fn wf(self) -> bool {
        keys_distinct(self.connections.deep_view())
    }

    /// A registry with nothing connected.
    pub fn new() -> (r: Registry)
        ensures
            r@ == RegistryView::empty(),
    {
        let r = Registry { connections: Vec::new(), targets: Vec::new(), controllers: Vec::new() };
        proof {
            assert(r@ =~= RegistryView::empty());
        }
        r
    }

    /// Inserts or overwrites the sink for `identity`.  Always succeeds; the
    /// last sink registered under an identity wins.
    pub fn register(&mut self, identity: &String, sink: u64)
        ensures
            final(self)@ == register_spec(old(self)@, identity@, sink),
    {
        proof {
            use_type_invariant(&*self);
        }
        let ghost s0 = self.connections.deep_view();
        let mut conns: Vec<(String, u64)> = Vec::new();
        std::mem::swap(&mut conns, &mut self.connections);
        match find_key(&conns, identity) {
            Some(i) => {
                proof {
                    lemma_assoc_map_remove_at(s0, i as int);
                    lemma_keys_distinct_remove(s0, i as int);
                }
                let _ = conns.remove(i);
                proof {
                    assert(conns.deep_view() =~= s0.remove(i as int));
                    assert(forall|j: int|
                        0 <= j < conns.deep_view().len() ==> conns.deep_view()[j].0 != identity@);
                }
            },
            None => {},
        }
        let ghost s1 = conns.deep_view();
        conns.push((identity.clone(), sink));
        proof {
            assert(conns.deep_view() =~= s1.push((identity@, sink)));
            assert(conns.deep_view().drop_last() =~= s1);
            assert(assoc_map(conns.deep_view()) == assoc_map(s1).insert(identity@, sink));
            if s1 != s0 {
                // the overwrite case: removing the key and inserting it anew
                // is the same map as inserting over it
                lemma_assoc_map_contains(s0, identity@);
                assert(assoc_map(s1).insert(identity@, sink) =~= assoc_map(s0).insert(
                    identity@,
                    sink,
                ));
            }
        }
        self.connections = conns;
        proof {
            assert(final(self)@ =~= register_spec(old(self)@, identity@, sink));
        }
    }

    /// Removes `identity` from the connection map and from both role sets.
    /// Idempotent: unregistering an absent identity changes nothing.
    pub fn unregister(&mut self, identity: &String)
        ensures
            final(self)@ == unregister_spec(old(self)@, identity@),
    {
        proof {
            use_type_invariant(&*self);
        }
        let ghost s0 = self.connections.deep_view();
        let mut conns: Vec<(String, u64)> = Vec::new();
        std::mem::swap(&mut conns, &mut self.connections);
        match find_key(&conns, identity) {
            Some(i) => {
                proof {
                    lemma_assoc_map_remove_at(s0, i as int);
                    lemma_keys_distinct_remove(s0, i as int);
                }
                let _ = conns.remove(i);
                proof {
                    assert(conns.deep_view() =~= s0.remove(i as int));
                }
            },
            None => {
                proof {
                    lemma_assoc_map_contains(s0, identity@);
                    assert(assoc_map(s0).remove(identity@) =~= assoc_map(s0));
                }
            },
        }
        self.connections = conns;
        self.targets = remove_string(&self.targets, identity);
        self.controllers = remove_string(&self.controllers, identity);
        proof {
            assert(final(self)@ =~= unregister_spec(old(self)@, identity@));
        }
    }

    /// Adds a connected `identity` to the given role set, dropping it from
    /// the other one; silently does nothing when `identity` is not connected
    /// (callers are expected to have registered it first).
    pub fn mark_role(&mut self, identity: &String, role: Role)
        ensures
            final(self)@ == mark_role_spec(old(self)@, identity@, role),
    {
        proof {
            use_type_invariant(&*self);
        }
        let connected = match find_key(&self.connections, identity) {
            Some(_) => true,
            None => false,
        };
        proof {
            lemma_assoc_map_contains(self.connections.deep_view(), identity@);
        }
        if !connected {
            return ;
        }
        match role {
            Role::Target => {
                self.controllers = remove_string(&self.controllers, identity);
                if !vec_contains_string(&self.targets, identity) {
                    let ghost before = self.targets.deep_view();
                    let mut t = clone_string_vec(&self.targets);
                    t.push(identity.clone());
                    self.targets = t;
                    proof {
                        assert(self.targets.deep_view() =~= before.push(identity@));
                    }
                }
            },
            Role::Controller => {
                self.targets = remove_string(&self.targets, identity);
                if !vec_contains_string(&self.controllers, identity) {
                    let ghost before = self.controllers.deep_view();
                    let mut c = clone_string_vec(&self.controllers);
                    c.push(identity.clone());
                    self.controllers = c;
                    proof {
                        assert(self.controllers.deep_view() =~= before.push(identity@));
                    }
                }
            },
        }
        proof {
            assert(final(self)@ =~= mark_role_spec(old(self)@, identity@, role));
        }
    }

    /// Removes `identity` from the given role set; idempotent.
    pub fn unmark_role(&mut self, identity: &String, role: Role)
        ensures
            final(self)@ == unmark_role_spec(old(self)@, identity@, role),
    {
        proof {
            use_type_invariant(&*self);
        }
        match role {
            Role::Target => {
                self.targets = remove_string(&self.targets, identity);
            },
            Role::Controller => {
                self.controllers = remove_string(&self.controllers, identity);
            },
        }
        proof {
            assert(final(self)@ =~= unmark_role_spec(old(self)@, identity@, role));
        }
    }

    /// The sink registered for `identity`, if it is connected.
    pub fn lookup_sink(&self, identity: &String) -> (r: Option<u64>)
        ensures
            r == if self@.connections.contains_key(identity@) {
                Some(self@.connections[identity@])
            } else {
                None::<u64>
            },
    {
        proof {
            use_type_invariant(self);
            lemma_assoc_map_contains(self.connections.deep_view(), identity@);
        }
        match find_key(&self.connections, identity) {
            Some(i) => {
                proof {
                    lemma_assoc_map_lookup(self.connections.deep_view(), i as int);
                }
                Some(self.connections[i].1)
            },
            None => None,
        }
    }

    /// Whether `identity` is currently in the given role set.
    pub fn contains_role(&self, identity: &String, role: Role) -> (r: bool)
        ensures
            r == self@.role_seq(role).contains(identity@),
    {
        match role {
            Role::Target => vec_contains_string(&self.targets, identity),
            Role::Controller => vec_contains_string(&self.controllers, identity),
        }
    }

    /// A point-in-time copy of the given role set, in authentication order,
    /// so that callers never iterate the live structure.
    pub fn snapshot_role(&self, role: Role) -> (r: Vec<String>)
        ensures
            r.deep_view() == self@.role_seq(role),
    {
        match role {
            Role::Target => clone_string_vec(&self.targets),
            Role::Controller => clone_string_vec(&self.controllers),
        }
    }
}

} // verus!
