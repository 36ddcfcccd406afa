//! The lexical-environment chain and its binding discipline.
//!
//! Scopes form an arena: each scope holds an association list from name
//! handle to [`Slot`] and an optional parent index, which is always smaller
//! than the scope's own index, so lookup walks strictly outward. The machine
//! keeps every scope it ever creates in the arena and switches the current
//! scope on call and return.
//!
//! The discipline: declaring a name twice in one scope fails, whatever the
//! two declarations' mutability; assigning finds the nearest slot and
//! refuses a second write to an immutable binding; reading finds the nearest
//! slot and refuses a slot never assigned.
use crate::error::Error;
use crate::value::{Handle, Slot, Value};
use vstd::prelude::*;

verus! {

/// The first index of `h` in an association list, or the list's length if
/// absent.
pub open spec fn assoc_find<T>(s: Seq<(Handle, T)>, h: Handle) -> int
    decreases s.len(),
{
    if s.len() == 0 {
        0
    } else if s[0].0 == h {
        0
    } else {
        1 + assoc_find(s.drop_first(), h)
    }
}

/// Whether an association list has an entry for `h`.
pub open spec fn assoc_has<T>(s: Seq<(Handle, T)>, h: Handle) -> bool {
    assoc_find(s, h) < s.len()
}

/// The payload of the first entry for `h`.
pub open spec fn assoc_get<T>(s: Seq<(Handle, T)>, h: Handle) -> T {
    s[assoc_find(s, h)].1
}

/// What the list looks like after binding `h` to `x`: the first entry for
/// `h` is replaced, or a new entry is appended.
pub open spec fn assoc_put<T>(s: Seq<(Handle, T)>, h: Handle, x: T) -> Seq<(Handle, T)> {
    if assoc_has(s, h) {
        s.update(assoc_find(s, h), (h, x))
    } else {
        s.push((h, x))
    }
}

/// The keys of an association list are pairwise distinct.
pub open spec fn assoc_distinct<T>(s: Seq<(Handle, T)>) -> bool {
    forall|i: int, j: int| 0 <= i < j < s.len() ==> s[i].0 != s[j].0
}

/// `assoc_find` points at the first entry for `h`, and finds one exactly
/// when one exists.
pub proof fn lemma_assoc_find<T>(s: Seq<(Handle, T)>, h: Handle)
    ensures
        0 <= assoc_find(s, h) <= s.len(),
        assoc_has(s, h) <==> exists|i: int| 0 <= i < s.len() && s[i].0 == h,
        assoc_has(s, h) ==> s[assoc_find(s, h)].0 == h,
        forall|i: int| 0 <= i < assoc_find(s, h) ==> s[i].0 != h,
    decreases s.len(),
{
    if s.len() == 0 {
    } else if s[0].0 == h {
    } else {
        let rest = s.drop_first();
        lemma_assoc_find(rest, h);
        assert(forall|i: int| 0 <= i < rest.len() ==> rest[i] == s[i + 1]);
        let f = assoc_find(rest, h);
        if assoc_has(rest, h) {
            assert(s[f + 1] == rest[f]);
        } else {
            if exists|i: int| 0 <= i < s.len() && s[i].0 == h {
                let i = choose|i: int| 0 <= i < s.len() && s[i].0 == h;
                assert(rest[i - 1] == s[i]);
            }
        }
        assert forall|i: int| 0 <= i < assoc_find(s, h) implies s[i].0 != h by {
            if i > 0 {
                assert(rest[i - 1] == s[i]);
            }
        }
    }
}

/// `assoc_put` keeps keys distinct and changes exactly the entry for `h`.
pub proof fn lemma_assoc_put<T>(s: Seq<(Handle, T)>, h: Handle, x: T)
    requires
        assoc_distinct(s),
    ensures
        assoc_distinct(assoc_put(s, h, x)),
        assoc_has(assoc_put(s, h, x), h),
        assoc_get(assoc_put(s, h, x), h) == x,
        forall|k: Handle|
            k != h ==> assoc_has(#[trigger] assoc_put(s, h, x), k) == assoc_has(s, k),
        forall|k: Handle|
            k != h && assoc_has(s, k) ==> assoc_get(#[trigger] assoc_put(s, h, x), k)
                == assoc_get(s, k),
{
    lemma_assoc_find(s, h);
    let t = assoc_put(s, h, x);
    assert forall|k: Handle| k != h implies assoc_has(t, k) == assoc_has(s, k) && (assoc_has(
        s,
        k,
    ) ==> assoc_get(t, k) == assoc_get(s, k)) by {
        lemma_assoc_find_update(s, h, x, k);
    }
    lemma_assoc_find_same(s, h, x);
    assert(assoc_has(t, h) && assoc_get(t, h) == x);
    if assoc_has(s, h) {
        let f = assoc_find(s, h);
        assert forall|i: int, j: int| 0 <= i < j < t.len() implies t[i].0 != t[j].0 by {
            assert(s[i].0 == t[i].0 || i == f);
            assert(s[j].0 == t[j].0 || j == f);
        }
    } else {
        assert forall|i: int, j: int| 0 <= i < j < t.len() implies t[i].0 != t[j].0 by {
            if j == s.len() {
                assert(t[j].0 == h);
                assert(t[i] == s[i]);
                if s[i].0 == h {
                    assert(assoc_has(s, h));
                }
            } else {
                assert(t[i] == s[i] && t[j] == s[j]);
            }
        }
    }
}

/// Replacing or appending the entry for `h` leaves every other key's
/// presence and payload unchanged, and its position where present.
proof fn lemma_assoc_find_update<T>(s: Seq<(Handle, T)>, h: Handle, x: T, k: Handle)
    requires
        k != h,
    ensures
        assoc_has(assoc_put(s, h, x), k) == assoc_has(s, k),
        assoc_has(s, k) ==> assoc_find(assoc_put(s, h, x), k) == assoc_find(s, k)
            && assoc_get(assoc_put(s, h, x), k) == assoc_get(s, k),
{
    lemma_assoc_find(s, h);
    lemma_assoc_find(s, k);
    let t = assoc_put(s, h, x);
    lemma_assoc_find(t, k);
    let fk = assoc_find(s, k);
    let fh = assoc_find(s, h);
    let g = assoc_find(t, k);
    if assoc_has(s, h) {
        // t is s with the entry at fh replaced by (h, x).
        assert(forall|i: int| 0 <= i < s.len() && i != fh ==> t[i] == s[i]);
        assert(t[fh].0 == h);
        if assoc_has(s, k) {
            assert(fk != fh);
            assert(t[fk].0 == k);
            assert(assoc_has(t, k));
            assert(g <= fk) by {
                if g > fk {
                    assert(t[fk].0 != k);
                }
            }
            assert(g == fk) by {
                if g < fk {
                    assert(t[g].0 == k);
                    assert(g != fh);
                    assert(s[g].0 == k);
                }
            }
        } else {
            if assoc_has(t, k) {
                assert(t[g].0 == k);
                assert(g != fh);
                assert(s[g].0 == k);
                assert(assoc_has(s, k));
            }
        }
    } else {
        // t is s with (h, x) appended.
        assert(forall|i: int| 0 <= i < s.len() ==> t[i] == s[i]);
        assert(t[s.len() as int].0 == h);
        if assoc_has(s, k) {
            assert(t[fk].0 == k);
            assert(assoc_has(t, k));
            assert(g <= fk) by {
                if g > fk {
                    assert(t[fk].0 != k);
                }
            }
            assert(g == fk) by {
                if g < fk {
                    assert(t[g].0 == k);
                    assert(s[g].0 == k);
                }
            }
        } else {
            if assoc_has(t, k) {
                assert(t[g].0 == k);
                if g < s.len() {
                    assert(s[g].0 == k);
                    assert(assoc_has(s, k));
                }
            }
        }
    }
}

/// After `assoc_put`, the entry for `h` itself holds `x`.
proof fn lemma_assoc_find_same<T>(s: Seq<(Handle, T)>, h: Handle, x: T)
    ensures
        assoc_has(assoc_put(s, h, x), h),
        assoc_get(assoc_put(s, h, x), h) == x,
{
    lemma_assoc_find(s, h);
    let t = assoc_put(s, h, x);
    lemma_assoc_find(t, h);
    let fh = assoc_find(s, h);
    if assoc_has(s, h) {
        assert(t[fh].0 == h);
        assert(forall|i: int| 0 <= i < fh ==> t[i] == s[i]);
        assert(assoc_find(t, h) == fh) by {
            if assoc_find(t, h) < fh {
                assert(s[assoc_find(t, h)].0 == h);
            }
        }
    } else {
        assert(t[fh].0 == h);
        assert(forall|i: int| 0 <= i < fh ==> t[i] == s[i]);
        assert(assoc_find(t, h) == fh) by {
            if assoc_find(t, h) < fh {
                assert(s[assoc_find(t, h)].0 == h);
            }
        }
    }
}

/// Finds the first entry for `h` in an association list.
pub fn assoc_index<T>(v: &Vec<(Handle, T)>, h: Handle) -> (r: Option<usize>)
    ensures
        match r {
            Some(i) => i as int == assoc_find(v@, h) && i < v@.len() && v@[i as int].0 == h,
            None => assoc_find(v@, h) == v@.len(),
        },
{
    proof {
        lemma_assoc_find(v@, h);
    }
    let n = v.len();
    let mut i: usize = 0;
    while i < n
        invariant
            n == v@.len(),
            0 <= i <= n,
            forall|j: int| 0 <= j < i ==> v@[j].0 != h,
        decreases n - i,
    {
        if v[i].0 == h {
            proof {
                lemma_assoc_find(v@, h);
            }
            return Some(i);
        }
        i += 1;
    }
    proof {
        lemma_assoc_find(v@, h);
        if assoc_has(v@, h) {
            let j = assoc_find(v@, h);
            assert(v@[j].0 == h);
        }
    }
    None
}

/// One binding scope: a mapping from name handle to slot, plus the index of
/// the enclosing scope, if any.
pub struct Scope {
    pub parent: Option<usize>,
    pub binds: Vec<(Handle, Slot)>,
}

/// The mathematical shape of a scope.
#[verifier::ext_equal]
pub ghost struct ScopeView {
    pub parent: Option<usize>,
    pub binds: Seq<(Handle, Slot)>,
}

impl View for Scope {
    type V = ScopeView;

    open spec fn view(&self) -> ScopeView {
        ScopeView { parent: self.parent, binds: self.binds@ }
    }
}

/// Parents point strictly outward (to smaller arena indices) and every
/// scope's keys are distinct.
pub open spec fn scopes_wf(scopes: Seq<ScopeView>) -> bool {
    forall|i: int|
        0 <= i < scopes.len() ==> (#[trigger] scope_wf(scopes[i], i))
}

pub open spec fn scope_wf(s: ScopeView, i: int) -> bool {
    &&& match s.parent {
        Some(p) => 0 <= p < i,
        None => true,
    }
    &&& assoc_distinct(s.binds)
}

/// The innermost scope index at or outside `s` whose bindings contain `h`,
/// walking parent links.
pub open spec fn chain_find(scopes: Seq<ScopeView>, s: int, h: Handle) -> Option<int>
    decreases s,
    when 0 <= s < scopes.len() && scopes_wf(scopes)
    via chain_find_decreases
{
    if assoc_has(scopes[s].binds, h) {
        Some(s)
    } else {
        match scopes[s].parent {
            Some(p) => chain_find(scopes, p as int, h),
            None => None,
        }
    }
}

#[via_fn]
proof fn chain_find_decreases(scopes: Seq<ScopeView>, s: int, h: Handle) {
    assert(scope_wf(scopes[s], s));
}

/// What `chain_find` returns is a scope in range that does contain `h`.
pub proof fn lemma_chain_find(scopes: Seq<ScopeView>, s: int, h: Handle)
    requires
        scopes_wf(scopes),
        0 <= s < scopes.len(),
    ensures
        match chain_find(scopes, s, h) {
            Some(t) => 0 <= t <= s && assoc_has(scopes[t].binds, h),
            None => !assoc_has(scopes[s].binds, h),
        },
    decreases s,
{
    if !assoc_has(scopes[s].binds, h) {
        match scopes[s].parent {
            Some(p) => {
                assert(scope_wf(scopes[s], s));
                lemma_chain_find(scopes, p as int, h);
            },
            None => {},
        }
    }
}

/// The environment: the scope arena plus the current (innermost) scope.
pub struct Env {
    pub scopes: Vec<Scope>,
    pub cur: usize,
}

/// The mathematical shape of the environment.
#[verifier::ext_equal]
pub ghost struct EnvView {
    pub scopes: Seq<ScopeView>,
    pub cur: int,
}

impl View for Env {
    type V = EnvView;

    open spec fn view(&self) -> EnvView {
        EnvView { scopes: Seq::new(self.scopes@.len(), |i: int| self.scopes@[i]@), cur: self.cur as int }
    }
}

/// A well-formed environment: a nonempty arena of well-formed scopes with
/// the current scope in range.
pub open spec fn env_wf(v: EnvView) -> bool {
    &&& scopes_wf(v.scopes)
    &&& 0 < v.scopes.len()
    &&& 0 <= v.cur < v.scopes.len()
}

/// Declaration: a new unassigned slot for `h` in the current scope, or
/// nothing if the scope already has one (redeclaration is an error whatever
/// either declaration's mutability).
pub open spec fn declare_spec(v: EnvView, h: Handle, mutable: bool) -> Option<EnvView> {
    if assoc_has(v.scopes[v.cur].binds, h) {
        None
    } else {
        Some(
            EnvView {
                scopes: v.scopes.update(
                    v.cur,
                    ScopeView {
                        parent: v.scopes[v.cur].parent,
                        binds: v.scopes[v.cur].binds.push(
                            (h, Slot { mutable, assigned: false, value: Value::Undefined }),
                        ),
                    },
                ),
                cur: v.cur,
            },
        )
    }
}

/// Assignment: the nearest slot for `h` gets the value and its `assigned`
/// flag, or nothing if no scope in the chain has one or the slot is an
/// already-assigned immutable binding (write-once).
pub open spec fn assign_spec(v: EnvView, h: Handle, val: Value) -> Option<EnvView> {
    match chain_find(v.scopes, v.cur, h) {
        None => None,
        Some(t) => {
            let slot = assoc_get(v.scopes[t].binds, h);
            if !slot.mutable && slot.assigned {
                None
            } else {
                Some(
                    EnvView {
                        scopes: v.scopes.update(
                            t,
                            ScopeView {
                                parent: v.scopes[t].parent,
                                binds: assoc_put(
                                    v.scopes[t].binds,
                                    h,
                                    Slot { mutable: slot.mutable, assigned: true, value: val },
                                ),
                            },
                        ),
                        cur: v.cur,
                    },
                )
            }
        },
    }
}

/// Read: the value of the nearest slot for `h`, or nothing if no scope in
/// the chain has one or the slot was never assigned.
pub open spec fn read_spec(v: EnvView, h: Handle) -> Option<Value> {
    match chain_find(v.scopes, v.cur, h) {
        None => None,
        Some(t) => {
            let slot = assoc_get(v.scopes[t].binds, h);
            if slot.assigned {
                Some(slot.value)
            } else {
                None
            }
        },
    }
}

impl Env {
    /// A fresh environment: one empty root scope, which is current.
    pub fn new() -> (e: Env)
        ensures
            e@.scopes.len() == 1,
            e@.scopes[0].parent is None,
            e@.scopes[0].binds == Seq::<(Handle, Slot)>::empty(),
            e@.cur == 0,
            env_wf(e@),
    {
        let e = Env { scopes: vec![Scope { parent: None, binds: Vec::new() }], cur: 0 };
        proof {
            assert(e@.scopes =~= Seq::<ScopeView>::empty().push(e.scopes@[0]@));
        }
        e
    }

    /// Appends a fresh empty scope whose parent is `parent`, and returns its
    /// index. The current scope is unchanged.
    pub fn push_scope(&mut self, parent: usize) -> (idx: usize)
        requires
            env_wf(old(self)@),
            parent < old(self)@.scopes.len(),
        ensures
            env_wf(final(self)@),
            idx == old(self)@.scopes.len(),
            final(self)@.scopes == old(self)@.scopes.push(
                ScopeView { parent: Some(parent), binds: Seq::empty() },
            ),
            final(self)@.cur == old(self)@.cur,
    {
        let idx = self.scopes.len();
        self.scopes.push(Scope { parent: Some(parent), binds: Vec::new() });
        proof {
            assert(final(self)@.scopes =~= old(self)@.scopes.push(
                ScopeView { parent: Some(parent), binds: Seq::empty() },
            ));
            assert forall|i: int| 0 <= i < final(self)@.scopes.len() implies scope_wf(
                final(self)@.scopes[i],
                i,
            ) by {
                if i < old(self)@.scopes.len() {
                    assert(scope_wf(old(self)@.scopes[i], i));
                }
            }
        }
        idx
    }

    /// Declares `h` in the current scope, holding `Undefined` until its
    /// first assignment. Fails if the current scope already has a slot for
    /// `h`, whatever the mutability of either declaration.
    pub fn declare(&mut self, h: Handle, mutable: bool) -> (r: Result<(), Error>)
        requires
            env_wf(old(self)@),
        ensures
            env_wf(final(self)@),
            match r {
                Ok(()) => declare_spec(old(self)@, h, mutable) == Some(final(self)@),
                Err(e) => {
                    &&& declare_spec(old(self)@, h, mutable) is None
                    &&& final(self)@ == old(self)@
                    &&& e.kind_spec() == crate::error::ErrorKind::Eval
                },
            },
    {
        let cur = self.cur;
        proof {
            lemma_assoc_find(self@.scopes[self@.cur].binds, h);
        }
        let found = assoc_index(&self.scopes[cur].binds, h);
        match found {
            Some(_) => Err(Error::eval("redeclaration of a name in the same scope")),
            None => {
                self.scopes[cur].binds.push(
                    (h, Slot { mutable, assigned: false, value: Value::Undefined }),
                );
                proof {
                    let pre = old(self)@;
                    let post = self@;
                    assert(post.scopes =~= pre.scopes.update(
                        pre.cur,
                        ScopeView {
                            parent: pre.scopes[pre.cur].parent,
                            binds: pre.scopes[pre.cur].binds.push(
                                (h, Slot { mutable, assigned: false, value: Value::Undefined }),
                            ),
                        },
                    ));
                    assert forall|i: int| 0 <= i < post.scopes.len() implies scope_wf(
                        post.scopes[i],
                        i,
                    ) by {
                        assert(scope_wf(pre.scopes[i], i));
                        if i == pre.cur {
                            let nb = post.scopes[i].binds;
                            let ob = pre.scopes[i].binds;
                            assert forall|a: int, b: int|
                                0 <= a < b < nb.len() implies nb[a].0 != nb[b].0 by {
                                if b < ob.len() {
                                } else {
                                    assert(nb[b].0 == h);
                                    assert(!assoc_has(ob, h));
                                    lemma_assoc_find(ob, h);
                                }
                            }
                        }
                    }
                }
                Ok(())
            },
        }
    }

    /// Walks the chain from the current scope outward to the nearest scope
    /// with a slot for `h`.
    fn find_scope(&self, h: Handle) -> (r: Option<usize>)
        requires
            env_wf(self@),
        ensures
            match r {
                Some(t) => chain_find(self@.scopes, self@.cur, h) == Some(t as int),
                None => chain_find(self@.scopes, self@.cur, h) is None,
            },
    {
        let mut s = self.cur;
        loop
            invariant
                env_wf(self@),
                0 <= s < self@.scopes.len(),
                chain_find(self@.scopes, self@.cur, h) == chain_find(self@.scopes, s as int, h),
            decreases s,
        {
            let found = assoc_index(&self.scopes[s].binds, h);
            if found.is_some() {
                return Some(s);
            }
            proof {
                assert(scope_wf(self@.scopes[s as int], s as int));
            }
            match self.scopes[s].parent {
                Some(p) => {
                    s = p;
                },
                None => {
                    return None;
                },
            }
        }
    }

    /// Assigns `val` to the nearest slot for `h` and marks it assigned.
    /// Fails if `h` is not declared anywhere in the chain, or if its slot is
    /// an immutable binding that was already assigned once.
    pub fn assign(&mut self, h: Handle, val: Value) -> (r: Result<(), Error>)
        requires
            env_wf(old(self)@),
        ensures
            env_wf(final(self)@),
            match r {
                Ok(()) => assign_spec(old(self)@, h, val) == Some(final(self)@),
                Err(e) => {
                    &&& assign_spec(old(self)@, h, val) is None
                    &&& final(self)@ == old(self)@
                    &&& e.kind_spec() == crate::error::ErrorKind::Eval
                },
            },
    {
        let t = match self.find_scope(h) {
            Some(t) => t,
            None => {
                return Err(Error::eval("assignment to an undeclared name"));
            },
        };
        proof {
            lemma_chain_find(self@.scopes, self@.cur, h);
            lemma_assoc_find(self@.scopes[t as int].binds, h);
        }
        let i = match assoc_index(&self.scopes[t].binds, h) {
            Some(i) => i,
            None => {
                // unreachable: chain_find found this scope
                return Err(Error::eval("assignment to an undeclared name"));
            },
        };
        let slot = self.scopes[t].binds[i].1;
        if !slot.mutable && slot.assigned {
            return Err(Error::eval("second assignment to an immutable binding"));
        }
        let updated = Slot { mutable: slot.mutable, assigned: true, value: val };
        self.scopes[t].binds[i] = (h, updated);
        proof {
            let pre = old(self)@;
            let post = self@;
            let ob = pre.scopes[t as int].binds;
            assert(scope_wf(pre.scopes[t as int], t as int));
            lemma_assoc_put(ob, h, updated);
            assert(assoc_put(ob, h, updated) =~= ob.update(i as int, (h, updated)));
            assert(post.scopes =~= pre.scopes.update(
                t as int,
                ScopeView {
                    parent: pre.scopes[t as int].parent,
                    binds: assoc_put(ob, h, updated),
                },
            ));
            assert forall|j: int| 0 <= j < post.scopes.len() implies scope_wf(
                post.scopes[j],
                j,
            ) by {
                assert(scope_wf(pre.scopes[j], j));
            }
        }
        Ok(())
    }

    /// Reads the value of the nearest slot for `h`. Fails if `h` is not
    /// declared anywhere in the chain, or if its slot was never assigned.
    pub fn read(&self, h: Handle) -> (r: Result<Value, Error>)
        requires
            env_wf(self@),
        ensures
            match r {
                Ok(val) => read_spec(self@, h) == Some(val),
                Err(e) => {
                    &&& read_spec(self@, h) is None
                    &&& e.kind_spec() == crate::error::ErrorKind::Eval
                },
            },
    {
        let t = match self.find_scope(h) {
            Some(t) => t,
            None => {
                return Err(Error::eval("read of an undeclared name"));
            },
        };
        proof {
            lemma_chain_find(self@.scopes, self@.cur, h);
            lemma_assoc_find(self@.scopes[t as int].binds, h);
        }
        let i = match assoc_index(&self.scopes[t].binds, h) {
            Some(i) => i,
            None => {
                // unreachable: chain_find found this scope
                return Err(Error::eval("read of an undeclared name"));
            },
        };
        let slot = self.scopes[t].binds[i].1;
        if slot.assigned {
            Ok(slot.value)
        } else {
            Err(Error::eval("read of a declared but unassigned name"))
        }
    }
}

/// Declaring a name that succeeded once always fails the second time in the
/// same scope, whatever the mutability flags of the two declarations.
pub proof fn lemma_redeclaration_fails(v: EnvView, h: Handle, m1: bool, m2: bool)
    requires
        env_wf(v),
        declare_spec(v, h, m1) is Some,
    ensures
        declare_spec(declare_spec(v, h, m1)->Some_0, h, m2) is None,
{
    let v1 = declare_spec(v, h, m1)->Some_0;
    let nb = v1.scopes[v1.cur].binds;
    lemma_assoc_find(nb, h);
    assert(nb[nb.len() - 1].0 == h);
}

/// An immutable binding accepts exactly one assignment: after a first
/// successful assignment to a slot declared immutable in the current scope,
/// a second assignment fails.
pub proof fn lemma_immutable_write_once(v: EnvView, h: Handle, a: Value, b: Value)
    requires
        env_wf(v),
        declare_spec(v, h, false) is Some,
    ensures
        ({
            let v1 = declare_spec(v, h, false)->Some_0;
            &&& assign_spec(v1, h, a) is Some
            &&& assign_spec(assign_spec(v1, h, a)->Some_0, h, b) is None
        }),
{
    let v1 = declare_spec(v, h, false)->Some_0;
    lemma_declared_then_assign(v, h, false, a);
    let v2 = assign_spec(v1, h, a)->Some_0;
    let t = chain_find(v1.scopes, v1.cur, h)->Some_0;
    lemma_chain_find(v1.scopes, v1.cur, h);
    assert(scope_wf(v1.scopes[t], t));
    lemma_assoc_put(
        v1.scopes[t].binds,
        h,
        Slot { mutable: false, assigned: true, value: a },
    );
    lemma_chain_find_after_update(v1, t, h, Slot { mutable: false, assigned: true, value: a });
    assert(chain_find(v2.scopes, v2.cur, h) == Some(t));
    assert(assoc_get(v2.scopes[t].binds, h) == Slot { mutable: false, assigned: true, value: a });
}

/// A mutable binding accepts repeated assignment: after a declaration with
/// the mutable flag, two successive assignments both succeed, and the second
/// value is what a read then returns.
pub proof fn lemma_mutable_reassignment(v: EnvView, h: Handle, a: Value, b: Value)
    requires
        env_wf(v),
        declare_spec(v, h, true) is Some,
    ensures
        ({
            let v1 = declare_spec(v, h, true)->Some_0;
            &&& assign_spec(v1, h, a) is Some
            &&& assign_spec(assign_spec(v1, h, a)->Some_0, h, b) is Some
            &&& read_spec(assign_spec(assign_spec(v1, h, a)->Some_0, h, b)->Some_0, h) == Some(b)
        }),
{
    let v1 = declare_spec(v, h, true)->Some_0;
    lemma_declared_then_assign(v, h, true, a);
    let v2 = assign_spec(v1, h, a)->Some_0;
    let t = chain_find(v1.scopes, v1.cur, h)->Some_0;
    lemma_chain_find(v1.scopes, v1.cur, h);
    let s1 = Slot { mutable: true, assigned: true, value: a };
    assert(scope_wf(v1.scopes[t], t));
    lemma_assoc_put(v1.scopes[t].binds, h, s1);
    lemma_chain_find_after_update(v1, t, h, s1);
    assert(chain_find(v2.scopes, v2.cur, h) == Some(t));
    assert(assoc_get(v2.scopes[t].binds, h) == s1);
    let s2 = Slot { mutable: true, assigned: true, value: b };
    let v3 = assign_spec(v2, h, b)->Some_0;
    assert(scope_wf(v2.scopes[t], t));
    lemma_assoc_put(v2.scopes[t].binds, h, s2);
    lemma_chain_find_after_update(v2, t, h, s2);
    assert(chain_find(v3.scopes, v3.cur, h) == Some(t));
    assert(assoc_get(v3.scopes[t].binds, h) == s2);
}

/// Right after a successful declaration of `h`, the chain finds `h` in the
/// current scope, unassigned, so a first assignment succeeds.
proof fn lemma_declared_then_assign(v: EnvView, h: Handle, m: bool, a: Value)
    requires
        env_wf(v),
        declare_spec(v, h, m) is Some,
    ensures
        ({
            let v1 = declare_spec(v, h, m)->Some_0;
            &&& env_wf(v1)
            &&& chain_find(v1.scopes, v1.cur, h) == Some(v1.cur)
            &&& assoc_get(v1.scopes[v1.cur].binds, h) == Slot {
                mutable: m,
                assigned: false,
                value: Value::Undefined,
            }
            &&& assign_spec(v1, h, a) is Some
        }),
{
    let v1 = declare_spec(v, h, m)->Some_0;
    let ob = v.scopes[v.cur].binds;
    let nb = v1.scopes[v1.cur].binds;
    lemma_assoc_find(ob, h);
    lemma_assoc_find(nb, h);
    assert(nb[nb.len() - 1].0 == h);
    assert(assoc_has(nb, h));
    assert(assoc_find(nb, h) == ob.len()) by {
        assert(forall|i: int| 0 <= i < ob.len() ==> nb[i] == ob[i]);
        if assoc_find(nb, h) < ob.len() {
            assert(ob[assoc_find(nb, h)].0 == h);
        }
    }
    assert(assoc_get(nb, h) == Slot { mutable: m, assigned: false, value: Value::Undefined });
    assert forall|i: int| 0 <= i < v1.scopes.len() implies scope_wf(v1.scopes[i], i) by {
        assert(scope_wf(v.scopes[i], i));
        if i == v.cur {
            assert forall|x: int, y: int| 0 <= x < y < nb.len() implies nb[x].0 != nb[y].0 by {
                if y < ob.len() {
                } else {
                    assert(nb[y].0 == h);
                }
            }
        }
    }
}

/// Updating the binding of `h` inside the scope that the chain already
/// finds for some key leaves `chain_find` unchanged for every key whose
/// chain does not pass a new binding: here the binds only change at `h`'s
/// entry in scope `t`, so every `chain_find` result is preserved.
proof fn lemma_chain_find_after_update(v: EnvView, t: int, h: Handle, s: Slot)
    requires
        env_wf(v),
        0 <= t < v.scopes.len(),
        assoc_has(v.scopes[t].binds, h),
    ensures
        ({
            let w = EnvView {
                scopes: v.scopes.update(
                    t,
                    ScopeView {
                        parent: v.scopes[t].parent,
                        binds: assoc_put(v.scopes[t].binds, h, s),
                    },
                ),
                cur: v.cur,
            };
            &&& env_wf(w)
            &&& forall|k: Handle| #[trigger] chain_find(w.scopes, w.cur, k) == chain_find(
                v.scopes,
                v.cur,
                k,
            )
        }),
{
    let w = EnvView {
        scopes: v.scopes.update(
            t,
            ScopeView {
                parent: v.scopes[t].parent,
                binds: assoc_put(v.scopes[t].binds, h, s),
            },
        ),
        cur: v.cur,
    };
    assert(scope_wf(v.scopes[t], t));
    lemma_assoc_put(v.scopes[t].binds, h, s);
    assert forall|i: int| 0 <= i < w.scopes.len() implies scope_wf(w.scopes[i], i) by {
        assert(scope_wf(v.scopes[i], i));
    }
    assert forall|k: Handle| #[trigger] chain_find(w.scopes, w.cur, k) == chain_find(
        v.scopes,
        v.cur,
        k,
    ) by {
        lemma_chain_find_update_rec(v.scopes, w.scopes, v.cur, t, h, s, k);
    }
}

/// The inductive walk behind `lemma_chain_find_after_update`.
proof fn lemma_chain_find_update_rec(
    olds: Seq<ScopeView>,
    news: Seq<ScopeView>,
    c: int,
    t: int,
    h: Handle,
    s: Slot,
    k: Handle,
)
    requires
        scopes_wf(olds),
        scopes_wf(news),
        news.len() == olds.len(),
        0 <= c < olds.len(),
        0 <= t < olds.len(),
        assoc_has(olds[t].binds, h),
        forall|i: int| 0 <= i < olds.len() && i != t ==> news[i] == olds[i],
        news[t].parent == olds[t].parent,
        news[t].binds == assoc_put(olds[t].binds, h, s),
    ensures
        chain_find(news, c, k) == chain_find(olds, c, k),
    decreases c,
{
    assert(scope_wf(olds[t], t));
    lemma_assoc_put(olds[t].binds, h, s);
    lemma_assoc_find(olds[t].binds, h);
    assert(assoc_has(news[c].binds, k) == assoc_has(olds[c].binds, k)) by {
        if c == t {
            if k == h {
                lemma_assoc_find(olds[t].binds, k);
                lemma_assoc_find(news[t].binds, k);
            } else {
                lemma_assoc_find(olds[t].binds, k);
                lemma_assoc_find(news[t].binds, k);
            }
        }
    }
    if !assoc_has(olds[c].binds, k) {
        match olds[c].parent {
            Some(p) => {
                assert(scope_wf(olds[c], c));
                lemma_chain_find_update_rec(olds, news, p as int, t, h, s, k);
            },
            None => {},
        }
    }
}

} // verus!
