//! The table of admitted connections, keyed by peer address and kept in
//! order of admission.

use vstd::prelude::*;
use indexmap::IndexMap;
use crate::indexed::{
    entries_of, key_differs, map_contains, map_get_index, map_insert, map_len, map_new,
    map_shift_remove,
};
use crate::seq_facts::{lemma_filter_all, lemma_filter_filter, lemma_filter_member, lemma_filter_out_key, lemma_filter_pairwise};
use crate::text::{byte_len, eq_ignore_ascii_case, same_ignoring_ascii_case, trim, trimmed};

verus! {

/// A peer's address: the IP address (an IPv4 address in its IPv6-mapped
/// form) and the port.
#[derive(Clone, Copy, Debug, PartialEq, Eq, Structural, Hash)]
pub struct PeerAddr {
    pub ip: u128,
    pub port: u16,
}

/// Why a username was refused.
#[derive(Clone, Copy, Debug, PartialEq, Eq, Structural)]
pub enum UsernameError {
    /// Nothing but whitespace was given.
    Empty,
    /// The name is longer than `MAX_USERNAME_BYTES` bytes.
    TooLong,
    /// The name is `System`, in some case.
    Reserved,
    /// A registered user has the name, in some case.
    Taken,
}

/// Why a connection could not be registered.
#[derive(Clone, Copy, Debug, PartialEq, Eq, Structural)]
pub enum InsertError {
    /// The address is registered already.
    DuplicateAddress,
    /// The username may not be registered.
    Rejected(UsernameError),
}

/// Whether some entry has address `k`.
pub open spec fn has_key(e: Seq<(PeerAddr, Seq<char>)>, k: PeerAddr) -> bool {
    exists|i: int| 0 <= i < e.len() && e[i].0 == k
}

/// The longest username, in bytes of UTF-8.
pub const MAX_USERNAME_BYTES: usize = 31;

/// The name reserved for notices of the server itself.
pub open spec fn reserved_name() -> Seq<char> {
    seq!['S', 'y', 's', 't', 'e', 'm']
}

/// Whether a registered user has the name `n`, ignoring ASCII case.
pub open spec fn name_taken(e: Seq<(PeerAddr, Seq<char>)>, n: Seq<char>) -> bool {
    exists|i: int| 0 <= i < e.len() && eq_ignore_ascii_case(#[trigger] e[i].1, n)
}

/// Whether `n` may be registered beside the entries `e`, and if not, why.
pub open spec fn name_verdict(e: Seq<(PeerAddr, Seq<char>)>, n: Seq<char>) -> Result<(), UsernameError> {
    if n.len() == 0 {
        Err(UsernameError::Empty)
    } else if byte_len(n) > MAX_USERNAME_BYTES {
        Err(UsernameError::TooLong)
    } else if eq_ignore_ascii_case(n, reserved_name()) {
        Err(UsernameError::Reserved)
    } else if name_taken(e, n) {
        Err(UsernameError::Taken)
    } else {
        Ok(())
    }
}

/// The outcome of negotiating the raw text `raw`: its trimmed form, or why
/// that is refused.
pub open spec fn username_verdict(e: Seq<(PeerAddr, Seq<char>)>, raw: Seq<char>) -> Result<Seq<char>, UsernameError> {
    match name_verdict(e, trim(raw)) {
        Ok(()) => Ok(trim(raw)),
        Err(err) => Err(err),
    }
}

/// A name that may stand in the registry on its own.
pub open spec fn name_allowed(n: Seq<char>) -> bool {
    n.len() > 0 && byte_len(n) <= MAX_USERNAME_BYTES && !eq_ignore_ascii_case(n, reserved_name())
}

/// Two entries that may stand together: distinct addresses, and names that
/// differ ignoring ASCII case.
pub open spec fn entries_apart(x: (PeerAddr, Seq<char>), y: (PeerAddr, Seq<char>)) -> bool {
    x.0 != y.0 && !eq_ignore_ascii_case(x.1, y.1)
}

pub open spec fn entries_wf(e: Seq<(PeerAddr, Seq<char>)>) -> bool {
    &&& forall|i: int| 0 <= i < e.len() ==> name_allowed(#[trigger] e[i].1)
    &&& forall|i: int, j: int| 0 <= i < j < e.len() ==> entries_apart(#[trigger] e[i], #[trigger] e[j])
}

/// The addresses of the entries, in order.
pub open spec fn addrs_of(e: Seq<(PeerAddr, Seq<char>)>) -> Seq<PeerAddr> {
    e.map_values(|x: (PeerAddr, Seq<char>)| x.0)
}

/// The usernames of the entries, in order.
pub open spec fn names_of(e: Seq<(PeerAddr, Seq<char>)>) -> Seq<Seq<char>> {
    e.map_values(|x: (PeerAddr, Seq<char>)| x.1)
}

/// Whether a broadcast from `sender` reaches the entry `x`.
pub open spec fn reaches(sender: PeerAddr, include_sender: bool, x: (PeerAddr, Seq<char>)) -> bool {
    include_sender || x.0 != sender
}

/// The addresses a broadcast from `sender` is written to, in order.
pub open spec fn broadcast_set(e: Seq<(PeerAddr, Seq<char>)>, sender: PeerAddr, include_sender: bool) -> Seq<PeerAddr> {
    addrs_of(e.filter(|x: (PeerAddr, Seq<char>)| reaches(sender, include_sender, x)))
}

/// The entries left once every address of `failed` is evicted.
pub open spec fn evicted(e: Seq<(PeerAddr, Seq<char>)>, failed: Seq<PeerAddr>) -> Seq<(PeerAddr, Seq<char>)> {
    e.filter(|x: (PeerAddr, Seq<char>)| !failed.contains(x.0))
}

/// The targets whose write failed, in order.
pub open spec fn failed_of(targets: Seq<PeerAddr>, delivered: Seq<bool>) -> Seq<PeerAddr>
    decreases targets.len(),
{
    if targets.len() == 0 || delivered.len() == 0 {
        Seq::empty()
    } else if delivered.last() {
        failed_of(targets.drop_last(), delivered.drop_last())
    } else {
        failed_of(targets.drop_last(), delivered.drop_last()).push(targets.last())
    }
}

proof fn lemma_wf_filter(e: Seq<(PeerAddr, Seq<char>)>, p: spec_fn((PeerAddr, Seq<char>)) -> bool)
    requires
        entries_wf(e),
    ensures
        entries_wf(e.filter(p)),
{
    let f = e.filter(p);
    assert forall|i: int| 0 <= i < f.len() implies name_allowed(#[trigger] f[i].1) by {
        lemma_filter_member(e, p, i);
    }
    lemma_filter_pairwise(e, p, |x: (PeerAddr, Seq<char>), y: (PeerAddr, Seq<char>)| entries_apart(x, y));
}

/// The connections admitted to the chat: an address and a username each.
pub struct Registry {
    map: IndexMap<PeerAddr, String>,
}

impl Registry {
    /// The entries in order of admission.
    pub closed spec fn entries(&self) -> Seq<(PeerAddr, Seq<char>)> {
        entries_of(self.map)
    }

    /// Addresses are distinct, usernames are distinct ignoring ASCII case,
    /// each has 1 to `MAX_USERNAME_BYTES` bytes and none is `System`.
    pub open spec fn wf(&self) -> bool {
        entries_wf(self.entries())
    }

    pub fn new() -> (r: Registry)
        ensures
            r.wf(),
            r.entries() == Seq::<(PeerAddr, Seq<char>)>::empty(),
    {
        Registry { map: map_new() }
    }

    pub fn len(&self) -> (r: usize)
        ensures
            r == self.entries().len(),
    {
        map_len(&self.map)
    }

    pub fn contains(&self, addr: PeerAddr) -> (r: bool)
        ensures
            r == has_key(self.entries(), addr),
    {
        map_contains(&self.map, &addr)
    }

    /// The usernames, in order of admission.
    pub fn usernames(&self) -> (r: Vec<String>)
        ensures
            r@.len() == self.entries().len(),
            forall|i: int| 0 <= i < r@.len() ==> #[trigger] r@[i]@ == self.entries()[i].1,
    {
        let n = map_len(&self.map);
        let mut out: Vec<String> = Vec::new();
        let mut i: usize = 0;
        while i < n
            invariant
                n == self.entries().len(),
                i <= n,
                out@.len() == i,
                forall|k: int| 0 <= k < i ==> #[trigger] out@[k]@ == self.entries()[k].1,
            decreases n - i,
        {
            let got = map_get_index(&self.map, i);
            if let Some(entry) = got {
                out.push(entry.1);
            }
            i = i + 1;
        }
        out
    }

    /// Whether a registered user has the name `n`, ignoring ASCII case.
    pub fn is_taken(&self, n: &str) -> (r: bool)
        ensures
            r == name_taken(self.entries(), n@),
    {
        let len = map_len(&self.map);
        let mut i: usize = 0;
        while i < len
            invariant
                len == self.entries().len(),
                i <= len,
                forall|k: int| 0 <= k < i ==> !eq_ignore_ascii_case(#[trigger] self.entries()[k].1, n@),
            decreases len - i,
        {
            let got = map_get_index(&self.map, i);
            if let Some(entry) = got {
                if same_ignoring_ascii_case(entry.1.as_str(), n) {
                    return true;
                }
            }
            i = i + 1;
        }
        false
    }

    fn verdict_of(&self, n: &str) -> (r: Result<(), UsernameError>)
        ensures
            r == name_verdict(self.entries(), n@),
    {
        if n.unicode_len() == 0 {
            return Err(UsernameError::Empty);
        }
        if n.len() > MAX_USERNAME_BYTES {
            return Err(UsernameError::TooLong);
        }
        proof {
            reveal_strlit("System");
            assert("System"@ =~= reserved_name());
        }
        if same_ignoring_ascii_case(n, "System") {
            return Err(UsernameError::Reserved);
        }
        if self.is_taken(n) {
            return Err(UsernameError::Taken);
        }
        Ok(())
    }

    /// Validates a candidate username: trims it, then refuses it if empty,
    /// if longer than `MAX_USERNAME_BYTES` bytes, if it is `System`, or if a
    /// registered user has it (the last two ignoring ASCII case), in that
    /// order.
    pub fn check_username(&self, candidate: &str) -> (r: Result<String, UsernameError>)
        ensures
            match r {
                Ok(n) => username_verdict(self.entries(), candidate@) == Ok::<Seq<char>, UsernameError>(n@),
                Err(e) => username_verdict(self.entries(), candidate@) == Err::<Seq<char>, UsernameError>(e),
            },
    {
        let t = trimmed(candidate);
        match self.verdict_of(t.as_str()) {
            Ok(()) => Ok(t),
            Err(e) => Err(e),
        }
    }

    /// Registers `username` at `addr`, last in order. Refused, with nothing
    /// changed, if `addr` is registered, or if the name may not stand beside
    /// the registered ones.
    pub fn insert(&mut self, addr: PeerAddr, username: String) -> (r: Result<(), InsertError>)
        requires
            old(self).wf(),
        ensures
            final(self).wf(),
            has_key(old(self).entries(), addr) ==> r == Err::<(), InsertError>(InsertError::DuplicateAddress),
            !has_key(old(self).entries(), addr) ==> match name_verdict(old(self).entries(), username@) {
                Ok(()) => r is Ok,
                Err(e) => r == Err::<(), InsertError>(InsertError::Rejected(e)),
            },
            r is Ok ==> final(self).entries() == old(self).entries().push((addr, username@)),
            r is Err ==> final(self).entries() == old(self).entries(),
    {
        if map_contains(&self.map, &addr) {
            return Err(InsertError::DuplicateAddress);
        }
        match self.verdict_of(username.as_str()) {
            Err(e) => Err(InsertError::Rejected(e)),
            Ok(()) => {
                let ghost e0 = self.entries();
                let ghost n = username@;
                let _ = map_insert(&mut self.map, addr, username);
                proof {
                    let e1 = self.entries();
                    assert(e1 == e0.push((addr, n)));
                    assert forall|i: int, j: int| 0 <= i < j < e1.len() implies entries_apart(
                        #[trigger] e1[i],
                        #[trigger] e1[j],
                    ) by {
                        if j == e0.len() {
                            assert(e0[i] == e1[i]);
                        }
                    }
                }
                Ok(())
            },
        }
    }

    /// Unregisters `addr`; nothing changes if it is not registered. Returns
    /// the username that was registered there.
    pub fn remove(&mut self, addr: PeerAddr) -> (r: Option<String>)
        requires
            old(self).wf(),
        ensures
            final(self).wf(),
            r is Some <==> has_key(old(self).entries(), addr),
            !has_key(old(self).entries(), addr) ==> final(self).entries() == old(self).entries(),
            r matches Some(n) ==> exists|i: int|
                0 <= i < old(self).entries().len() && old(self).entries()[i] == (addr, n@)
                    && final(self).entries() == old(self).entries().remove(i),
    {
        let ghost e0 = self.entries();
        let r = map_shift_remove(&mut self.map, &addr);
        proof {
            let p = key_differs(addr);
            lemma_wf_filter(e0, p);
            if r is Some {
                let n = r->Some_0;
                let i = choose|i: int| 0 <= i < e0.len() && e0[i].0 == addr && n@ == e0[i].1;
                lemma_filter_out_key(e0, addr, p, i);
                assert(e0[i] == (addr, n@));
                assert(self.entries() == e0.remove(i));
            } else {
                lemma_filter_all(e0, p);
            }
        }
        r
    }

    /// The addresses a broadcast from `sender` is written to, in order of
    /// admission: all of them, or all but the sender's.
    pub fn broadcast_targets(&self, sender: PeerAddr, include_sender: bool) -> (r: Vec<PeerAddr>)
        ensures
            r@ == broadcast_set(self.entries(), sender, include_sender),
    {
        let ghost e = self.entries();
        let ghost p = |x: (PeerAddr, Seq<char>)| reaches(sender, include_sender, x);
        let n = map_len(&self.map);
        let mut out: Vec<PeerAddr> = Vec::new();
        let mut i: usize = 0;
        proof {
            reveal(Seq::filter);
            assert(e.take(0) =~= Seq::<(PeerAddr, Seq<char>)>::empty());
            assert(addrs_of(e.take(0).filter(p)) =~= out@);
        }
        while i < n
            invariant
                n == e.len(),
                e == self.entries(),
                p == (|x: (PeerAddr, Seq<char>)| reaches(sender, include_sender, x)),
                i <= n,
                out@ == addrs_of(e.take(i as int).filter(p)),
            decreases n - i,
        {
            let got = map_get_index(&self.map, i);
            proof {
                reveal(Seq::filter);
                assert(e.take(i + 1).drop_last() =~= e.take(i as int));
                assert(e.take(i + 1).last() == e[i as int]);
            }
            if let Some(entry) = got {
                if include_sender || entry.0 != sender {
                    out.push(entry.0);
                    proof {
                        assert(out@ =~= addrs_of(e.take(i + 1).filter(p)));
                    }
                }
            }
            i = i + 1;
        }
        proof {
            assert(e.take(n as int) =~= e);
        }
        out
    }

    /// Evicts every address of `failed`; others keep their order.
    pub fn evict(&mut self, failed: &Vec<PeerAddr>)
        requires
            old(self).wf(),
        ensures
            final(self).wf(),
            final(self).entries() == evicted(old(self).entries(), failed@),
    {
        let ghost e0 = self.entries();
        let ghost f = failed@;
        proof {
            lemma_filter_all(e0, |x: (PeerAddr, Seq<char>)| !f.take(0).contains(x.0));
        }
        let mut j: usize = 0;
        while j < failed.len()
            invariant
                f == failed@,
                j <= f.len(),
                self.wf(),
                self.entries() == evicted(e0, f.take(j as int)),
            decreases f.len() - j,
        {
            let a = failed[j];
            let ghost before = self.entries();
            let _ = map_shift_remove(&mut self.map, &a);
            proof {
                lemma_wf_filter(before, key_differs(a));
                let p = |x: (PeerAddr, Seq<char>)| !f.take(j as int).contains(x.0);
                let q = key_differs(a);
                lemma_filter_filter(e0, p, q);
                let t1 = f.take(j + 1);
                assert(t1 =~= f.take(j as int).push(a));
                let t0 = f.take(j as int);
                assert forall|x: (PeerAddr, Seq<char>)|
                    (!t0.contains(x.0) && x.0 != a) <==> !#[trigger] t1.contains(x.0) by {
                    if t0.contains(x.0) {
                        let k = choose|k: int| 0 <= k < t0.len() && t0[k] == x.0;
                        assert(t1[k] == x.0);
                    }
                    if x.0 == a {
                        assert(t1[j as int] == x.0);
                    }
                    if t1.contains(x.0) {
                        let k = choose|k: int| 0 <= k < t1.len() && t1[k] == x.0;
                        if k < j {
                            assert(t0[k] == x.0);
                        }
                    }
                }
                assert((|x: (PeerAddr, Seq<char>)| p(x) && q(x)) =~= (|x: (PeerAddr, Seq<char>)| !t1.contains(x.0)));
            }
            j = j + 1;
        }
        proof {
            assert(f.take(f.len() as int) =~= f);
        }
    }

    /// Ends a broadcast pass: `delivered[i]` tells whether the write to
    /// `targets[i]` succeeded. Evicts the targets whose write failed and
    /// returns them.
    pub fn finish_broadcast(&mut self, targets: &Vec<PeerAddr>, delivered: &Vec<bool>) -> (r: Vec<PeerAddr>)
        requires
            old(self).wf(),
            targets.len() == delivered.len(),
        ensures
            final(self).wf(),
            r@ == failed_of(targets@, delivered@),
            final(self).entries() == evicted(old(self).entries(), r@),
    {
        let ghost t = targets@;
        let ghost d = delivered@;
        let mut failed: Vec<PeerAddr> = Vec::new();
        let mut i: usize = 0;
        proof {
            assert(t.take(0).len() == 0);
        }
        while i < targets.len()
            invariant
                t == targets@,
                d == delivered@,
                t.len() == d.len(),
                i <= t.len(),
                failed@ == failed_of(t.take(i as int), d.take(i as int)),
            decreases t.len() - i,
        {
            proof {
                assert(t.take(i + 1).drop_last() =~= t.take(i as int));
                assert(d.take(i + 1).drop_last() =~= d.take(i as int));
            }
            if !delivered[i] {
                failed.push(targets[i]);
            }
            i = i + 1;
        }
        proof {
            assert(t.take(t.len() as int) =~= t);
            assert(d.take(d.len() as int) =~= d);
        }
        self.evict(&failed);
        failed
    }
}

} // verus!
