//! The symbol interner: deduplicates text (identifiers, field names, string
//! literals) into small integer handles, so that equality of names becomes
//! equality of integers.
//!
//! The store is `lasso::Rodeo`. Its behaviour is taken on trust through the
//! small wrappers below, against a single model: the sequence of distinct
//! strings it holds, in the order they were first interned. A handle is an
//! index into that sequence (`lasso` assigns every new string the key
//! `strings.len()` and resolves a key by indexing `strings`).
//!
//! An interner is created once per compile-and-run session and is owned by
//! the machine for the rest of it, because instructions store handles, not
//! text.
use vstd::prelude::*;

verus! {

use lasso::Key;

/// Declares `lasso::Rodeo` so it can stand in a field. The value is opaque
/// to the verifier; everything stated about it goes through
/// [`interner_strings`].
#[verifier::external_type_specification]
#[verifier::external_body]
#[verifier::reject_recursive_types(K)]
#[verifier::reject_recursive_types(S)]
pub struct ExRodeo<K, S>(lasso::Rodeo<K, S>);

/// Declares `lasso::Spur`, the key type of the store above.
#[verifier::external_type_specification]
#[verifier::external_body]
pub struct ExSpur(lasso::Spur);

/// The strings an interner holds, in the order they were first interned.
/// A handle `h` names `interner_strings(..)[h as int]`.
pub uninterp spec fn interner_strings(r: lasso::Rodeo) -> Seq<Seq<char>>;

/// The most strings one interner can hold: `lasso` keys are 32-bit and it
/// refuses the last key value.
pub const INTERNER_CAPACITY: usize = 0xFFFF_FFFEusize;

/// The symbol-interning layer shared by the compiler and the runtime.
pub struct Interner {
    rodeo: lasso::Rodeo,
}

impl View for Interner {
    type V = Seq<Seq<char>>;

    closed spec fn view(&self) -> Seq<Seq<char>> {
        interner_strings(self.rodeo)
    }
}

impl Interner {
    /// The strings an interner holds are pairwise distinct: a text is
    /// interned at most once. Established by [`Interner::new`] and kept by
    /// [`Interner::intern`].
    pub open spec fn wf(&self) -> bool {
        forall|i: int, j: int|
            0 <= i < j < self@.len() ==> self@[i] != self@[j]
    }

    /// Relies on `lasso::Rodeo::new`: a fresh interner holds no strings.
    #[verifier::external_body]
    fn new_raw() -> (r: Interner)
        ensures
            interner_strings(r.rodeo) == Seq::<Seq<char>>::empty(),
    {
        Interner { rodeo: lasso::Rodeo::new() }
    }

    /// Relies on `lasso::Rodeo::get_or_intern` and `lasso::Spur::into_usize`:
    /// a string already present keeps its key and the store unchanged; a new
    /// string is appended and keyed by its index in the store. The capacity
    /// bound keeps `get_or_intern` from failing on key-space exhaustion.
    #[verifier::external_body]
    fn intern_raw(&mut self, s: &str) -> (h: u32)
        requires
            interner_strings(old(self).rodeo).len() < INTERNER_CAPACITY,
        ensures
            interner_strings(old(self).rodeo).contains(s@) ==> interner_strings(
                final(self).rodeo,
            ) == interner_strings(old(self).rodeo),
            !interner_strings(old(self).rodeo).contains(s@) ==> interner_strings(
                final(self).rodeo,
            ) == interner_strings(old(self).rodeo).push(s@),
            h < interner_strings(final(self).rodeo).len(),
            interner_strings(final(self).rodeo)[h as int] == s@,
    {
        self.rodeo.get_or_intern(s).into_usize() as u32
    }

    /// Relies on `lasso::Rodeo::resolve` and `lasso::Spur::try_from_usize`:
    /// a key in range resolves to the string stored at its index.
    #[verifier::external_body]
    fn resolve_raw(&self, h: u32) -> (s: String)
        requires
            h < interner_strings(self.rodeo).len(),
        ensures
            s@ == interner_strings(self.rodeo)[h as int],
    {
        let key = lasso::Spur::try_from_usize(h as usize).unwrap();
        self.rodeo.resolve(&key).to_owned()
    }

    /// Relies on `lasso::Rodeo::len`: the number of strings in the store.
    #[verifier::external_body]
    fn len_raw(&self) -> (n: usize)
        ensures
            n == interner_strings(self.rodeo).len(),
    {
        self.rodeo.len()
    }

    /// A fresh, empty interner.
    pub fn new() -> (r: Interner)
        ensures
            r@ == Seq::<Seq<char>>::empty(),
            r.wf(),
    {
        Interner::new_raw()
    }

    /// How many distinct strings have been interned. Handles are exactly
    /// `0 .. len`.
    pub fn len(&self) -> (n: usize)
        ensures
            n == self@.len(),
    {
        self.len_raw()
    }

    /// The handle for `s`: the handle it already has if `s` was seen before,
    /// otherwise a fresh one under which `s` is stored. No handle is ever
    /// invalidated while the interner is alive.
    pub fn intern(&mut self, s: &str) -> (h: u32)
        requires
            old(self).wf(),
            old(self)@.len() < INTERNER_CAPACITY,
        ensures
            final(self).wf(),
            final(self)@ == intern_strings_spec(old(self)@, s@),
            h as int == intern_handle_spec(old(self)@, s@),
            final(self)@[h as int] == s@,
            h < final(self)@.len(),
            old(self)@.len() <= final(self)@.len() <= old(self)@.len() + 1,
            forall|i: int| 0 <= i < old(self)@.len() ==> final(self)@[i] == old(self)@[i],
    {
        proof {
            lemma_find_str(old(self)@, s@);
        }
        let h = self.intern_raw(s);
        proof {
            let pre = old(self)@;
            let post = self@;
            if pre.contains(s@) {
                assert(post == pre);
                assert(post[h as int] == s@);
                assert(h as int == find_str(pre, s@)) by {
                    lemma_find_str(pre, s@);
                    let f = find_str(pre, s@);
                    if h as int != f {
                        assert(pre[f] == s@ && pre[h as int] == s@);
                    }
                }
            } else {
                assert(post == pre.push(s@));
                assert(forall|i: int| 0 <= i < pre.len() ==> post[i] == pre[i]);
                assert(h as int == pre.len()) by {
                    if (h as int) < pre.len() {
                        assert(pre[h as int] == post[h as int]);
                        assert(pre.contains(s@));
                    }
                }
            }
        }
        h
    }

    /// The text behind a handle: the inverse of [`Interner::intern`].
    pub fn resolve(&self, h: u32) -> (s: String)
        requires
            h < self@.len(),
        ensures
            s@ == self@[h as int],
    {
        self.resolve_raw(h)
    }
}

/// The index of `s` in `strings`, or `strings.len()` if it is absent:
/// the handle [`Interner::intern`] returns.
pub open spec fn find_str(strings: Seq<Seq<char>>, s: Seq<char>) -> int
    decreases strings.len(),
{
    if strings.len() == 0 {
        0
    } else if strings[0] == s {
        0
    } else {
        1 + find_str(strings.drop_first(), s)
    }
}

/// What interning `s` leaves in the store: unchanged if present, appended if
/// new.
pub open spec fn intern_strings_spec(strings: Seq<Seq<char>>, s: Seq<char>) -> Seq<Seq<char>> {
    if strings.contains(s) {
        strings
    } else {
        strings.push(s)
    }
}

/// The handle interning `s` returns: the index of `s` if present, else the
/// old length.
pub open spec fn intern_handle_spec(strings: Seq<Seq<char>>, s: Seq<char>) -> int {
    find_str(strings, s)
}

/// `find_str` finds `s` exactly when the store contains it, and then points
/// at it.
pub proof fn lemma_find_str(strings: Seq<Seq<char>>, s: Seq<char>)
    ensures
        0 <= find_str(strings, s) <= strings.len(),
        strings.contains(s) <==> find_str(strings, s) < strings.len(),
        find_str(strings, s) < strings.len() ==> strings[find_str(strings, s)] == s,
        forall|i: int| 0 <= i < find_str(strings, s) ==> strings[i] != s,
    decreases strings.len(),
{
    if strings.len() == 0 {
    } else if strings[0] == s {
        assert(strings.contains(s));
    } else {
        let rest = strings.drop_first();
        lemma_find_str(rest, s);
        assert(forall|i: int| 0 <= i < rest.len() ==> rest[i] == strings[i + 1]);
        let f = find_str(rest, s);
        if rest.contains(s) {
            let j = choose|j: int| 0 <= j < rest.len() && rest[j] == s;
            assert(strings[j + 1] == s);
            assert(strings.contains(s));
            assert(strings[f + 1] == rest[f]);
        } else {
            if strings.contains(s) {
                let j = choose|j: int| 0 <= j < strings.len() && strings[j] == s;
                assert(rest[j - 1] == s);
                assert(rest.contains(s));
            }
        }
        assert forall|i: int| 0 <= i < find_str(strings, s) implies strings[i] != s by {
            if i > 0 {
                assert(rest[i - 1] == strings[i]);
            }
        }
    }
}

} // verus!
