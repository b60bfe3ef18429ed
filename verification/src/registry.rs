//! The user registry: the single server-side binding from username to live
//! connection handle.
//!
//! A connection handle is a plain identifier (`u64`) that the surrounding
//! server code maps to a transport; the registry itself never touches I/O.
//! Its mathematical value is a `Map<Seq<char>, u64>` from username to handle,
//! and the registry keeps at most one entry per username: a second
//! registration of a name that is already bound fails instead of
//! overwriting.

use vstd::prelude::*;

use crate::codec::User;

verus! {

/// Returned by [`Registry::register`] when the username is already bound
/// to a live connection.
#[derive(Debug)]
pub struct AlreadyRegistered;

/// The mapping from username to connection handle.
pub struct Registry {
    entries: Vec<(User, u64)>,
}

/// The map an entry list denotes: later entries would win, but the
/// registry never holds two entries for one username.
pub open spec fn map_of_entries(es: Seq<(User, u64)>) -> Map<Seq<char>, u64>
    decreases es.len(),
{
    if es.len() == 0 {
        Map::empty()
    } else {
        map_of_entries(es.drop_last()).insert(es.last().0.0@, es.last().1)
    }
}

/// A key is in the map exactly when some entry carries it.
proof fn lemma_map_of_contains(es: Seq<(User, u64)>, name: Seq<char>)
    ensures
        map_of_entries(es).contains_key(name) <==> exists|i: int|
            0 <= i < es.len() && es[i].0.0@ == name,
    decreases es.len(),
{
    if es.len() > 0 {
        let n = es.len() as int;
        lemma_map_of_contains(es.drop_last(), name);
        if map_of_entries(es).contains_key(name) && es.last().0.0@ != name {
            let i = choose|i: int| 0 <= i < n - 1 && es.drop_last()[i].0.0@ == name;
            assert(es[i].0.0@ == name);
        }
        if exists|i: int| 0 <= i < n && es[i].0.0@ == name {
            let i = choose|i: int| 0 <= i < n && es[i].0.0@ == name;
            if i < n - 1 {
                assert(es.drop_last()[i].0.0@ == name);
            }
        }
    }
}

/// With no later entry for the same name, an entry's value is the map's.
proof fn lemma_map_of_lookup(es: Seq<(User, u64)>, i: int)
    requires
        0 <= i < es.len(),
        forall|j: int| i < j < es.len() ==> es[j].0.0@ != es[i].0.0@,
    ensures
        map_of_entries(es).contains_key(es[i].0.0@),
        map_of_entries(es)[es[i].0.0@] == es[i].1,
    decreases es.len(),
{
    if i < es.len() - 1 {
        lemma_map_of_lookup(es.drop_last(), i);
    }
}

/// Removing the one entry that carries a name removes that name from the
/// map and changes nothing else.
proof fn lemma_map_of_remove(es: Seq<(User, u64)>, i: int)
    requires
        0 <= i < es.len(),
        forall|j: int, k: int| 0 <= j < k < es.len() ==> es[j].0.0@ != es[k].0.0@,
    ensures
        map_of_entries(es.remove(i)) == map_of_entries(es).remove(es[i].0.0@),
    decreases es.len(),
{
    let name = es[i].0.0@;
    if i == es.len() - 1 {
        assert(es.remove(i) =~= es.drop_last());
        lemma_map_of_contains(es.drop_last(), name);
        assert(map_of_entries(es.drop_last()) =~= map_of_entries(es).remove(name));
    } else {
        lemma_map_of_remove(es.drop_last(), i);
        assert(es.remove(i).drop_last() =~= es.drop_last().remove(i));
        assert(es.remove(i).last() == es.last());
        assert(map_of_entries(es.remove(i)) =~= map_of_entries(es).remove(name));
    }
}

impl Registry {
    /// No two entries bind the same username.
    pub closed spec fn wf(self) -> bool {
        forall|i: int, j: int|
            0 <= i < j < self.entries@.len() ==> self.entries@[i].0.0@ != self.entries@[j].0.0@
    }

    /// An empty registry: no username is bound.
    pub fn new() -> (r: Self)
        ensures
            r.wf(),
            r@ == Map::<Seq<char>, u64>::empty(),
    {
        Registry { entries: Vec::new() }
    }

    /// Binds `user`'s username to the connection handle `conn`, unless the
    /// username is already bound: then nothing changes and the call fails.
    pub fn register(&mut self, user: User, conn: u64) -> (r: Result<(), AlreadyRegistered>)
        requires
            old(self).wf(),
        ensures
            final(self).wf(),
            old(self)@.contains_key(user.0@) ==> r is Err && final(self)@ == old(self)@,
            !old(self)@.contains_key(user.0@) ==> r is Ok && final(self)@ == old(self)@.insert(
                user.0@,
                conn,
            ),
    {
        proof {
            lemma_map_of_contains(self.entries@, user.0@);
        }
        let n = self.entries.len();
        let mut i: usize = 0;
        while i < n
            invariant
                0 <= i <= n,
                n == self.entries@.len(),
                self == old(self),
                old(self).wf(),
                forall|j: int| 0 <= j < i ==> self.entries@[j].0.0@ != user.0@,
            decreases n - i,
        {
            if self.entries[i].0.0 == user.0 {
                proof {
                    assert(exists|j: int|
                        0 <= j < old(self).entries@.len() && old(self).entries@[j].0.0@
                            == user.0@) by {
                        assert(old(self).entries@[i as int].0.0@ == user.0@);
                    }
                    lemma_map_of_contains(old(self).entries@, user.0@);
                }
                return Err(AlreadyRegistered);
            }
            i = i + 1;
        }
        self.entries.push((user, conn));
        proof {
            assert(self.entries@.drop_last() =~= old(self).entries@);
        }
        Ok(())
    }

    /// The connection handle bound to `user`'s username, if any.
    pub fn lookup(&self, user: &User) -> (r: Option<u64>)
        requires
            self.wf(),
        ensures
            r is Some <==> self@.contains_key(user.0@),
            r matches Some(conn) ==> conn == self@[user.0@],
    {
        proof {
            lemma_map_of_contains(self.entries@, user.0@);
        }
        let n = self.entries.len();
        let mut i: usize = 0;
        while i < n
            invariant
                0 <= i <= n,
                n == self.entries@.len(),
                self.wf(),
                forall|j: int| 0 <= j < i ==> self.entries@[j].0.0@ != user.0@,
            decreases n - i,
        {
            if self.entries[i].0.0 == user.0 {
                proof {
                    lemma_map_of_lookup(self.entries@, i as int);
                }
                return Some(self.entries[i].1);
            }
            i = i + 1;
        }
        None
    }

    /// Drops the binding for `user`'s username, if there is one. Called
    /// when the user's connection closes or errors, so that no stale handle
    /// is ever returned by [`Registry::lookup`].
    pub fn unregister(&mut self, user: &User)
        requires
            old(self).wf(),
        ensures
            final(self).wf(),
            final(self)@ == old(self)@.remove(user.0@),
    {
        proof {
            lemma_map_of_contains(self.entries@, user.0@);
        }
        let n = self.entries.len();
        let mut i: usize = 0;
        while i < n
            invariant
                0 <= i <= n,
                n == self.entries@.len(),
                old(self).wf(),
                self == old(self),
                forall|j: int| 0 <= j < i ==> self.entries@[j].0.0@ != user.0@,
            decreases n - i,
        {
            if self.entries[i].0.0 == user.0 {
                proof {
                    lemma_map_of_remove(self.entries@, i as int);
                }
                self.entries.remove(i);
                proof {
                    assert(self.wf());
                }
                return ;
            }
            i = i + 1;
        }
        proof {
            assert(!self@.contains_key(user.0@));
            assert(final(self)@ =~= old(self)@.remove(user.0@));
        }
    }
}

impl View for Registry {
    type V = Map<Seq<char>, u64>;

    closed spec fn view(&self) -> Map<Seq<char>, u64> {
        map_of_entries(self.entries@)
    }
}

/// Exclusivity: once a username is bound, it stays in the registry with its
/// original handle, so the second of two registrations of one name must
/// fail (per [`Registry::register`]'s contract) and every later lookup
/// still answers with the first registration's handle.
pub proof fn lemma_registry_exclusive(reg: Map<Seq<char>, u64>, name: Seq<char>, first: u64)
    requires
        !reg.contains_key(name),
    ensures
        reg.insert(name, first).contains_key(name),
        reg.insert(name, first)[name] == first,
{
}

} // verus!
