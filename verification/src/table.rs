//! The reactor's connection table: one record per open socket, each owning
//! its receive buffer. The table is keyed by socket identifier and every
//! socket has a buffer of its own, so no two connections can ever observe
//! each other's payload bytes. Records are created when an accept completes,
//! cleared to zero before each read (so a new connection can never echo stale
//! bytes of an earlier one), and removed when the connection closes.

use vstd::prelude::*;

verus! {

/// Number of payload bytes each connection's receive buffer holds.
pub const BUF_CAP: usize = 1024;

/// One connection record: the socket and its receive buffer.
#[derive(Debug)]
pub struct Connection {
    pub fd: i32,
    pub buf: Vec<u8>,
}

/// No two records share a socket identifier.
pub open spec fn fds_unique(s: Seq<Connection>) -> bool {
    forall|i: int, j: int|
        0 <= i < s.len() && 0 <= j < s.len() && i != j ==> s[i].fd != s[j].fd
}

/// Every record's buffer holds exactly `BUF_CAP` bytes.
pub open spec fn bufs_sized(s: Seq<Connection>) -> bool {
    forall|i: int| 0 <= i < s.len() ==> (#[trigger] s[i].buf)@.len() == BUF_CAP
}

/// Whether some record belongs to socket `fd`.
pub open spec fn has_fd(s: Seq<Connection>, fd: i32) -> bool {
    exists|i: int| 0 <= i < s.len() && s[i].fd == fd
}

/// The index of socket `fd`'s record; meaningful only when `has_fd` holds
/// (and then, under `fds_unique`, unique).
pub open spec fn idx_of(s: Seq<Connection>, fd: i32) -> int {
    choose|i: int| 0 <= i < s.len() && s[i].fd == fd
}

/// The bytes of socket `fd`'s buffer; meaningful only when `has_fd` holds.
pub open spec fn buf_of(s: Seq<Connection>, fd: i32) -> Seq<u8> {
    s[idx_of(s, fd)].buf@
}

/// An all-zero buffer of full capacity.
pub open spec fn zero_buf() -> Seq<u8> {
    Seq::new(BUF_CAP as nat, |i: int| 0u8)
}

/// `data` padded with zero bytes to full capacity; meaningful only when
/// `data` fits the buffer.
pub open spec fn padded(data: Seq<u8>) -> Seq<u8> {
    data + Seq::new((BUF_CAP - data.len()) as nat, |i: int| 0u8)
}

/// A record with socket `fd` at position `i` is the record `idx_of` finds:
/// under unique keys, a socket pins down its record.
pub proof fn lemma_idx_of(s: Seq<Connection>, i: int)
    requires
        fds_unique(s),
        0 <= i < s.len(),
    ensures
        has_fd(s, s[i].fd),
        idx_of(s, s[i].fd) == i,
{
    assert(0 <= i < s.len() && s[i].fd == s[i].fd);
}

/// Law: two concurrently open connections occupy distinct records, so
/// writing one socket's buffer can never be observed through the other.
pub proof fn lemma_distinct_sockets_distinct_records(s: Seq<Connection>, a: i32, b: i32)
    requires
        fds_unique(s),
        has_fd(s, a),
        has_fd(s, b),
        a != b,
    ensures
        idx_of(s, a) != idx_of(s, b),
{
}

/// The connection table: exclusively owned and mutated by the reactor loop.
pub struct ConnTable {
    conns: Vec<Connection>,
}

impl ConnTable {
    /// The records, in insertion order.
    pub closed spec fn view(self) -> Seq<Connection> {
        self.conns@
    }

    /// Unique socket keys, full-capacity buffers.
    pub open spec fn wf(self) -> bool {
        fds_unique(self.view()) && bufs_sized(self.view())
    }

    /// An empty table.
    pub fn new() -> (r: ConnTable)
        ensures
            r.wf(),
            r.view() =~= Seq::<Connection>::empty(),
    {
        ConnTable { conns: Vec::new() }
    }

    /// Number of open connections.
    pub fn len(&self) -> (r: usize)
        ensures
            r == self.view().len(),
    {
        self.conns.len()
    }

    /// Whether socket `fd` has a record.
    pub fn contains(&self, fd: i32) -> (r: bool)
        ensures
            r == has_fd(self.view(), fd),
    {
        self.find(fd).is_some()
    }

    /// The position of socket `fd`'s record, if it has one.
    pub fn find(&self, fd: i32) -> (r: Option<usize>)
        ensures
            match r {
                Some(i) => i < self.view().len() && self.view()[i as int].fd == fd && has_fd(
                    self.view(),
                    fd,
                ),
                None => !has_fd(self.view(), fd),
            },
    {
        let n = self.conns.len();
        let mut i: usize = 0;
        while i < n
            invariant
                n == self.conns.len(),
                i <= n,
                forall|j: int| 0 <= j < i ==> self.conns@[j].fd != fd,
            decreases n - i,
        {
            if self.conns[i].fd == fd {
                return Some(i);
            }
            i = i + 1;
        }
        None
    }

    /// Create (or reset) socket `fd`'s record with a buffer cleared to zero.
    /// Every other connection keeps its record and its bytes.
    pub fn open_conn(&mut self, fd: i32)
        requires
            old(self).wf(),
        ensures
            final(self).wf(),
            has_fd(final(self).view(), fd),
            buf_of(final(self).view(), fd) == zero_buf(),
            forall|g: i32| g != fd ==> has_fd(final(self).view(), g) == has_fd(old(self).view(), g),
            forall|g: i32|
                g != fd && has_fd(old(self).view(), g) ==> buf_of(final(self).view(), g) == buf_of(
                    old(self).view(),
                    g,
                ),
            final(self).view().len() == old(self).view().len() + (
            if has_fd(old(self).view(), fd) {
                0int
            } else {
                1int
            }),
    {
        match self.find(fd) {
            Some(i) => {
                self.conns[i] = Connection { fd, buf: zero_vec() };
                proof {
                    self.update_proof(*old(self), fd, i as int);
                }
            },
            None => {
                self.conns.push(Connection { fd, buf: zero_vec() });
                proof {
                    self.update_proof(*old(self), fd, old(self).view().len() as int);
                }
            },
        }
    }

    /// Clear socket `fd`'s buffer to zero, ahead of arming a read, so the
    /// next echo can never carry stale bytes. Returns whether the socket had
    /// a record; without one, nothing changes. Every other connection keeps
    /// its record and its bytes.
    pub fn clear_buf(&mut self, fd: i32) -> (r: bool)
        requires
            old(self).wf(),
        ensures
            final(self).wf(),
            r == has_fd(old(self).view(), fd),
            final(self).view().len() == old(self).view().len(),
            forall|g: i32| has_fd(final(self).view(), g) == has_fd(old(self).view(), g),
            if r {
                buf_of(final(self).view(), fd) == zero_buf()
            } else {
                final(self).view() == old(self).view()
            },
            forall|g: i32|
                g != fd && has_fd(old(self).view(), g) ==> buf_of(final(self).view(), g) == buf_of(
                    old(self).view(),
                    g,
                ),
    {
        match self.find(fd) {
            Some(i) => {
                self.conns[i] = Connection { fd, buf: zero_vec() };
                proof {
                    self.update_proof(*old(self), fd, i as int);
                }
                true
            },
            None => false,
        }
    }

    /// Deposit received bytes into socket `fd`'s buffer: the buffer becomes
    /// `data` padded with zeros to capacity. This is the seam through which
    /// the kernel collaborator reports what a read operation brought in.
    /// Returns whether the socket had a record; every other connection keeps
    /// its record and its bytes.
    pub fn fill_buf(&mut self, fd: i32, data: &Vec<u8>) -> (r: bool)
        requires
            old(self).wf(),
            data@.len() <= BUF_CAP,
        ensures
            final(self).wf(),
            r == has_fd(old(self).view(), fd),
            final(self).view().len() == old(self).view().len(),
            forall|g: i32| has_fd(final(self).view(), g) == has_fd(old(self).view(), g),
            if r {
                buf_of(final(self).view(), fd) == padded(data@)
            } else {
                final(self).view() == old(self).view()
            },
            forall|g: i32|
                g != fd && has_fd(old(self).view(), g) ==> buf_of(final(self).view(), g) == buf_of(
                    old(self).view(),
                    g,
                ),
    {
        match self.find(fd) {
            Some(i) => {
                let mut nb: Vec<u8> = Vec::new();
                let mut k: usize = 0;
                let dn = data.len();
                while k < dn
                    invariant
                        dn == data@.len(),
                        k <= dn,
                        nb@ == data@.subrange(0, k as int),
                    decreases dn - k,
                {
                    nb.push(data[k]);
                    proof {
                        assert(nb@ =~= data@.subrange(0, k + 1));
                    }
                    k = k + 1;
                }
                while nb.len() < BUF_CAP
                    invariant
                        dn == data@.len() <= BUF_CAP,
                        dn <= nb@.len() <= BUF_CAP,
                        nb@.subrange(0, dn as int) == data@,
                        forall|j: int| dn <= j < nb@.len() ==> nb@[j] == 0u8,
                    decreases BUF_CAP - nb.len(),
                {
                    nb.push(0u8);
                    proof {
                        assert(nb@.subrange(0, dn as int) =~= data@);
                    }
                }
                proof {
                    assert(nb@ =~= padded(data@));
                }
                self.conns[i] = Connection { fd, buf: nb };
                proof {
                    self.update_proof(*old(self), fd, i as int);
                }
                true
            },
            None => false,
        }
    }

    /// A copy of the first `n` bytes of socket `fd`'s buffer — the payload a
    /// send operation of length `n` would put on the wire.
    pub fn copy_prefix(&self, fd: i32, n: usize) -> (r: Option<Vec<u8>>)
        requires
            self.wf(),
            n <= BUF_CAP,
        ensures
            match r {
                Some(v) => has_fd(self.view(), fd) && v@ == buf_of(self.view(), fd).subrange(
                    0,
                    n as int,
                ),
                None => !has_fd(self.view(), fd),
            },
    {
        match self.find(fd) {
            Some(i) => {
                proof {
                    lemma_idx_of(self.view(), i as int);
                }
                let mut v: Vec<u8> = Vec::new();
                let mut k: usize = 0;
                while k < n
                    invariant
                        k <= n <= BUF_CAP,
                        i < self.view().len(),
                        self.view()[i as int].buf@.len() == BUF_CAP,
                        v@ == self.view()[i as int].buf@.subrange(0, k as int),
                    decreases n - k,
                {
                    v.push(self.conns[i].buf[k]);
                    proof {
                        assert(v@ =~= self.view()[i as int].buf@.subrange(0, k + 1));
                    }
                    k = k + 1;
                }
                Some(v)
            },
            None => None,
        }
    }

    /// Remove socket `fd`'s record when the connection closes. Returns
    /// whether a record was removed; every other connection keeps its record
    /// and its bytes.
    pub fn remove_conn(&mut self, fd: i32) -> (r: bool)
        requires
            old(self).wf(),
        ensures
            final(self).wf(),
            r == has_fd(old(self).view(), fd),
            !has_fd(final(self).view(), fd),
            final(self).view().len() == old(self).view().len() - (
            if r {
                1int
            } else {
                0int
            }),
            forall|g: i32| g != fd ==> has_fd(final(self).view(), g) == has_fd(old(self).view(), g),
            forall|g: i32|
                g != fd && has_fd(old(self).view(), g) ==> buf_of(final(self).view(), g) == buf_of(
                    old(self).view(),
                    g,
                ),
    {
        match self.find(fd) {
            Some(i) => {
                self.conns.remove(i);
                proof {
                    self.remove_proof(*old(self), fd, i as int);
                }
                true
            },
            None => false,
        }
    }

    /// The fd-level reading of one record taken out at `i`, the records
    /// after it shifting down by one.
    proof fn remove_proof(&self, prev: ConnTable, fd: i32, i: int)
        requires
            prev.wf(),
            0 <= i < prev.view().len(),
            prev.view()[i].fd == fd,
            self.view() == prev.view().remove(i),
        ensures
            self.wf(),
            !has_fd(self.view(), fd),
            forall|g: i32| g != fd ==> has_fd(self.view(), g) == has_fd(prev.view(), g),
            forall|g: i32|
                g != fd && has_fd(prev.view(), g) ==> buf_of(self.view(), g) == buf_of(
                    prev.view(),
                    g,
                ),
    {
        let s = self.view();
        let p = prev.view();
        assert(s.len() == p.len() - 1);
        assert(forall|j: int| 0 <= j < i ==> s[j] == p[j]);
        assert(forall|j: int| i <= j < s.len() ==> s[j] == p[j + 1]);
        assert(fds_unique(s)) by {
            assert forall|x: int, y: int|
                0 <= x < s.len() && 0 <= y < s.len() && x != y implies s[x].fd != s[y].fd by {}
        }
        assert(bufs_sized(s)) by {
            assert forall|x: int| 0 <= x < s.len() implies (#[trigger] s[x].buf)@.len()
                == BUF_CAP by {
                if x < i {
                    assert(s[x] == p[x]);
                } else {
                    assert(s[x] == p[x + 1]);
                }
            }
        }
        assert(!has_fd(s, fd)) by {
            if has_fd(s, fd) {
                let j = idx_of(s, fd);
                assert(0 <= j < s.len() && s[j].fd == fd);
                if j < i {
                    assert(p[j].fd == fd && p[i].fd == fd);
                } else {
                    assert(p[j + 1].fd == fd && p[i].fd == fd);
                }
            }
        }
        assert forall|g: i32| g != fd implies has_fd(s, g) == has_fd(p, g) by {
            if has_fd(s, g) {
                let j = idx_of(s, g);
                assert(0 <= j < s.len() && s[j].fd == g);
                if j < i {
                    assert(p[j].fd == g);
                } else {
                    assert(p[j + 1].fd == g);
                }
            }
            if has_fd(p, g) {
                let j = idx_of(p, g);
                assert(0 <= j < p.len() && p[j].fd == g);
                assert(j != i);
                if j < i {
                    assert(s[j].fd == g);
                } else {
                    assert(s[j - 1].fd == g);
                }
            }
        }
        assert forall|g: i32| g != fd && has_fd(p, g) implies buf_of(s, g) == buf_of(p, g) by {
            let j = idx_of(p, g);
            assert(0 <= j < p.len() && p[j].fd == g);
            assert(j != i);
            let j2 = if j < i {
                j
            } else {
                j - 1
            };
            assert(s[j2] == p[j]);
            lemma_idx_of(s, j2);
            assert(idx_of(s, g) == j2);
        }
    }

    /// The fd-level reading of one record written (or appended) at `i` with
    /// socket `fd`, all other records untouched.
    proof fn update_proof(&self, prev: ConnTable, fd: i32, i: int)
        requires
            prev.wf(),
            0 <= i < self.view().len(),
            self.view()[i].fd == fd,
            self.view()[i].buf@.len() == BUF_CAP,
            self.view().len() == if i < prev.view().len() {
                prev.view().len()
            } else {
                prev.view().len() + 1
            },
            forall|j: int| 0 <= j < self.view().len() && j != i ==> self.view()[j] == prev.view()[j],
            i < prev.view().len() ==> prev.view()[i].fd == fd,
            i == prev.view().len() ==> !has_fd(prev.view(), fd),
        ensures
            self.wf(),
            has_fd(self.view(), fd),
            buf_of(self.view(), fd) == self.view()[i].buf@,
            forall|g: i32| g != fd ==> has_fd(self.view(), g) == has_fd(prev.view(), g),
            forall|g: i32|
                g != fd && has_fd(prev.view(), g) ==> buf_of(self.view(), g) == buf_of(
                    prev.view(),
                    g,
                ),
    {
        let s = self.view();
        let p = prev.view();
        assert(fds_unique(s)) by {
            assert forall|x: int, y: int|
                0 <= x < s.len() && 0 <= y < s.len() && x != y implies s[x].fd != s[y].fd by {
                if x != i && y != i {
                    assert(s[x] == p[x] && s[y] == p[y]);
                }
            }
        }
        assert(bufs_sized(s)) by {
            assert forall|x: int| 0 <= x < s.len() implies (#[trigger] s[x].buf)@.len()
                == BUF_CAP by {
                if x != i {
                    assert(s[x] == p[x]);
                }
            }
        }
        lemma_idx_of(s, i);
        assert forall|g: i32| g != fd implies has_fd(s, g) == has_fd(p, g) by {
            if has_fd(s, g) {
                let j = idx_of(s, g);
                assert(0 <= j < s.len() && s[j].fd == g);
                assert(j != i);
                assert(p[j].fd == g);
            }
            if has_fd(p, g) {
                let j = idx_of(p, g);
                assert(0 <= j < p.len() && p[j].fd == g);
                assert(j != i);
                assert(s[j].fd == g);
            }
        }
        assert forall|g: i32| g != fd && has_fd(p, g) implies buf_of(s, g) == buf_of(p, g) by {
            let j = idx_of(p, g);
            assert(0 <= j < p.len() && p[j].fd == g);
            assert(j != i);
            assert(s[j] == p[j]);
            lemma_idx_of(s, j);
            assert(idx_of(s, g) == j);
        }
    }
}

/// A fresh buffer of `BUF_CAP` zero bytes.
fn zero_vec() -> (r: Vec<u8>)
    ensures
        r@ == zero_buf(),
{
    let mut v: Vec<u8> = Vec::new();
    let mut i: usize = 0;
    while i < BUF_CAP
        invariant
            i <= BUF_CAP,
            v@.len() == i,
            forall|j: int| 0 <= j < i ==> v@[j] == 0u8,
        decreases BUF_CAP - i,
    {
        v.push(0u8);
        i = i + 1;
    }
    proof {
        assert(v@ =~= zero_buf());
    }
    v
}

} // verus!
