//! The queue of an IndexedDB agent: pending writes, one per database object, taken in the
//! order of their pointers (database name, then object name, compared byte by byte).

use vstd::prelude::*;
use vstd::string::*;
use vstd::utf8::*;

verus! {

/// Pointer to an object in a database.
pub struct DatabaseObjectPointer {
    /// Name to the IndexedDB database.
    pub database: String,
    /// Name of the object in the store.
    pub object: String,
}

/// A pointer as the bytes of its two names, which is what orders pointers.
pub type PointerKey = (Seq<u8>, Seq<u8>);

impl DatabaseObjectPointer {
    pub fn new(database: String, object: String) -> (pointer: Self)
        ensures
            pointer.database@ == database@,
            pointer.object@ == object@,
    {
        Self { database, object }
    }

    /// The bytes of the two names.
    pub open spec fn key(&self) -> PointerKey {
        (encode_utf8(self.database@), encode_utf8(self.object@))
    }

    pub fn clone(&self) -> (pointer: Self)
        ensures
            pointer.database@ == self.database@,
            pointer.object@ == self.object@,
    {
        Self { database: self.database.clone(), object: self.object.clone() }
    }

    /// Whether this pointer comes before `other`.
    pub fn less_than(&self, other: &Self) -> (r: bool)
        ensures
            r == key_lt(self.key(), other.key()),
    {
        let a = self.database.as_str().as_bytes();
        let b = other.database.as_str().as_bytes();
        if bytes_less(a, b) {
            true
        } else if bytes_less(b, a) {
            false
        } else {
            proof {
                lemma_bytes_trichotomy(a@, b@);
            }
            bytes_less(self.object.as_str().as_bytes(), other.object.as_str().as_bytes())
        }
    }

    /// Whether this pointer names the same object as `other`.
    pub fn same(&self, other: &Self) -> (r: bool)
        ensures
            r == (self.key() == other.key()),
    {
        let lt = self.less_than(other);
        let gt = other.less_than(self);
        proof {
            lemma_key_trichotomy(self.key(), other.key());
            lemma_key_irreflexive(self.key());
        }
        !lt && !gt
    }
}

/// Byte strings in lexicographic order: `a` comes before `b`.
pub open spec fn bytes_lt(a: Seq<u8>, b: Seq<u8>) -> bool
    decreases a.len(),
{
    if a.len() == 0 {
        b.len() > 0
    } else if b.len() == 0 {
        false
    } else if a[0] != b[0] {
        a[0] < b[0]
    } else {
        bytes_lt(a.drop_first(), b.drop_first())
    }
}

/// Pointers in the order of their database names, then of their object names.
pub open spec fn key_lt(a: PointerKey, b: PointerKey) -> bool {
    bytes_lt(a.0, b.0) || (a.0 == b.0 && bytes_lt(a.1, b.1))
}

pub proof fn lemma_bytes_irreflexive(a: Seq<u8>)
    ensures
        !bytes_lt(a, a),
    decreases a.len(),
{
    if a.len() > 0 {
        lemma_bytes_irreflexive(a.drop_first());
    }
}

pub proof fn lemma_bytes_transitive(a: Seq<u8>, b: Seq<u8>, c: Seq<u8>)
    requires
        bytes_lt(a, b),
        bytes_lt(b, c),
    ensures
        bytes_lt(a, c),
    decreases a.len(),
{
    if a.len() > 0 && b.len() > 0 && c.len() > 0 && a[0] == b[0] && b[0] == c[0] {
        lemma_bytes_transitive(a.drop_first(), b.drop_first(), c.drop_first());
    }
}

pub proof fn lemma_bytes_trichotomy(a: Seq<u8>, b: Seq<u8>)
    ensures
        a == b || bytes_lt(a, b) || bytes_lt(b, a),
    decreases a.len(),
{
    if a.len() > 0 && b.len() > 0 && a[0] == b[0] {
        lemma_bytes_trichotomy(a.drop_first(), b.drop_first());
        if a.drop_first() == b.drop_first() {
            assert(a =~= seq![a[0]] + a.drop_first());
            assert(b =~= seq![b[0]] + b.drop_first());
        }
    } else if a.len() == 0 && b.len() == 0 {
        assert(a =~= b);
    }
}

pub proof fn lemma_key_irreflexive(a: PointerKey)
    ensures
        !key_lt(a, a),
{
    lemma_bytes_irreflexive(a.0);
    lemma_bytes_irreflexive(a.1);
}

pub proof fn lemma_key_transitive(a: PointerKey, b: PointerKey, c: PointerKey)
    requires
        key_lt(a, b),
        key_lt(b, c),
    ensures
        key_lt(a, c),
{
    if bytes_lt(a.0, b.0) && bytes_lt(b.0, c.0) {
        lemma_bytes_transitive(a.0, b.0, c.0);
    } else if bytes_lt(a.1, b.1) && bytes_lt(b.1, c.1) {
        lemma_bytes_transitive(a.1, b.1, c.1);
    }
}

pub proof fn lemma_key_trichotomy(a: PointerKey, b: PointerKey)
    ensures
        a == b || key_lt(a, b) || key_lt(b, a),
{
    lemma_bytes_trichotomy(a.0, b.0);
    lemma_bytes_trichotomy(a.1, b.1);
}

/// Whether the byte string `a` comes before `b`.
fn bytes_less(a: &[u8], b: &[u8]) -> (r: bool)
    ensures
        r == bytes_lt(a@, b@),
{
    let mut i: usize = 0;
    assert(a@.skip(0) =~= a@);
    assert(b@.skip(0) =~= b@);
    while i < a.len() && i < b.len()
        invariant
            i <= a@.len(),
            i <= b@.len(),
            bytes_lt(a@, b@) == bytes_lt(a@.skip(i as int), b@.skip(i as int)),
        decreases a@.len() - i,
    {
        if a[i] != b[i] {
            return a[i] < b[i];
        }
        assert(a@.skip(i as int).drop_first() =~= a@.skip(i + 1));
        assert(b@.skip(i as int).drop_first() =~= b@.skip(i + 1));
        i = i + 1;
    }
    a.len() < b.len()
}

/// Types of requests for the worker.
pub enum Request<T> {
    Put(PutRequest<T>),
}

impl<T> Request<T> {
    /// Create a PUT request.
    pub fn put(database: String, object: String, value: T) -> (request: Self)
        ensures
            request matches Request::Put(put) && put.pointer.database@ == database@
                && put.pointer.object@ == object@ && *put.data == value,
    {
        Self::Put(PutRequest::new(database, object, value))
    }

    /// The object the request writes.
    pub fn pointer(&self) -> (pointer: &DatabaseObjectPointer)
        ensures
            self matches Request::Put(put) && *pointer == put.pointer,
    {
        match self {
            Request::Put(put) => &put.pointer,
        }
    }
}

/// An IndexedDB PUT request.
pub struct PutRequest<T> {
    /// Pointer to the database object.
    pub pointer: DatabaseObjectPointer,
    /// Data to put.
    pub data: Box<T>,
}

impl<T> PutRequest<T> {
    pub fn new(database: String, object: String, value: T) -> (request: Self)
        ensures
            request.pointer.database@ == database@,
            request.pointer.object@ == object@,
            *request.data == value,
    {
        Self { pointer: DatabaseObjectPointer { database, object }, data: Box::new(value) }
    }
}

/// The object a request writes, as the bytes of its pointer.
pub open spec fn request_key<T>(request: Request<T>) -> PointerKey {
    match request {
        Request::Put(put) => put.pointer.key(),
    }
}

/// Requests in strictly increasing pointer order: one per object.
pub open spec fn in_pointer_order<T>(requests: Seq<Request<T>>) -> bool {
    forall|i: int, j: int|
        0 <= i < j < requests.len() ==> key_lt(
            #[trigger] request_key(requests[i]),
            #[trigger] request_key(requests[j]),
        )
}

/// The requests waiting to be written: at most one per object, in pointer order.
pub struct Queue<T> {
    requests: Vec<Request<T>>,
}

impl<T> Queue<T> {
    #[verifier::type_invariant]
    closed spec fn inv(self) -> bool {
        in_pointer_order(self.requests@)
    }

    /// The requests, in pointer order.
    pub closed spec fn requests(&self) -> Seq<Request<T>> {
        self.requests@
    }

    /// No requests.
    pub fn new() -> (queue: Self)
        ensures
            queue.requests() =~= Seq::empty(),
    {
        Queue { requests: Vec::new() }
    }

    /// The requests are in pointer order.
    pub fn len(&self) -> (n: usize)
        ensures
            n == self.requests().len(),
            in_pointer_order(self.requests()),
    {
        proof {
            use_type_invariant(self);
        }
        self.requests.len()
    }

    /// Queue a request: it replaces the request for the same object, which is returned, or
    /// takes its place in pointer order.
    pub fn insert(&mut self, request: Request<T>) -> (replaced: Option<Request<T>>)
        ensures
            in_pointer_order(final(self).requests()),
            replaced is Some ==> exists|i: int|
                0 <= i < old(self).requests().len() && request_key(
                    #[trigger] old(self).requests()[i],
                ) == request_key(request) && replaced == Some(old(self).requests()[i])
                    && final(self).requests() == old(self).requests().update(i, request),
            replaced is None ==> (forall|j: int|
                0 <= j < old(self).requests().len() ==> request_key(
                    #[trigger] old(self).requests()[j],
                ) != request_key(request)) && exists|i: int|
                0 <= i <= old(self).requests().len() && #[trigger] old(self).requests().insert(
                    i,
                    request,
                ) == final(self).requests(),
    {
        proof {
            use_type_invariant(&*self);
        }
        let ghost k = request_key(request);
        let mut i: usize = 0;
        while i < self.requests.len() && self.requests[i].pointer().less_than(request.pointer())
            invariant
                i <= self.requests@.len(),
                self.requests@ == old(self).requests@,
                k == request_key(request),
                in_pointer_order(self.requests@),
                forall|j: int| 0 <= j < i ==> key_lt(request_key(#[trigger] self.requests@[j]), k),
            decreases self.requests@.len() - i,
        {
            i = i + 1;
        }
        if i < self.requests.len() && self.requests[i].pointer().same(request.pointer()) {
            let ghost pre = self.requests@;
            proof {
                assert forall|a: int, b: int|
                    0 <= a < b < pre.len() implies key_lt(
                    #[trigger] request_key(pre.update(i as int, request)[a]),
                    #[trigger] request_key(pre.update(i as int, request)[b]),
                ) by {
                    assert(key_lt(request_key(pre[a]), request_key(pre[b])));
                }
            }
            let mut requests = Vec::new();
            std::mem::swap(&mut requests, &mut self.requests);
            let previous = requests.remove(i);
            requests.insert(i, request);
            assert(requests@ =~= pre.update(i as int, request));
            assert(request_key(pre[i as int]) == request_key(request));
            self.requests = requests;
            assert(old(self).requests() == pre);
            assert(self.requests() == pre.update(i as int, request));
            Some(previous)
        } else {
            let ghost pre = self.requests@;
            proof {
                assert forall|j: int| 0 <= j < pre.len() implies request_key(
                    #[trigger] pre[j],
                ) != k by {
                    if j >= i {
                        if i < pre.len() {
                            lemma_key_trichotomy(request_key(pre[i as int]), k);
                            if j > i {
                                assert(key_lt(request_key(pre[i as int]), request_key(pre[j])));
                                lemma_key_transitive(k, request_key(pre[i as int]), request_key(pre[j]));
                                lemma_key_irreflexive(k);
                            } else {
                                lemma_key_irreflexive(k);
                            }
                        }
                    } else {
                        lemma_key_irreflexive(k);
                    }
                }
                if i < pre.len() {
                    lemma_key_trichotomy(request_key(pre[i as int]), k);
                }
                let post = pre.insert(i as int, request);
                assert forall|a: int, b: int| 0 <= a < b < post.len() implies key_lt(
                    #[trigger] request_key(post[a]),
                    #[trigger] request_key(post[b]),
                ) by {
                    if a < i && b < i {
                        assert(key_lt(request_key(pre[a]), request_key(pre[b])));
                    } else if a < i && b == i {
                    } else if a < i {
                        assert(key_lt(request_key(pre[a]), k));
                        if b - 1 > i {
                            assert(key_lt(request_key(pre[i as int]), request_key(pre[b - 1])));
                            lemma_key_transitive(k, request_key(pre[i as int]), request_key(pre[b - 1]));
                        }
                        lemma_key_transitive(request_key(pre[a]), k, request_key(pre[b - 1]));
                    } else if a == i {
                        if b - 1 > i {
                            assert(key_lt(request_key(pre[i as int]), request_key(pre[b - 1])));
                            lemma_key_transitive(k, request_key(pre[i as int]), request_key(pre[b - 1]));
                        }
                    } else {
                        assert(key_lt(request_key(pre[a - 1]), request_key(pre[b - 1])));
                    }
                }
            }
            let mut requests = Vec::new();
            std::mem::swap(&mut requests, &mut self.requests);
            requests.insert(i, request);
            assert(pre.insert(i as int, request) == requests@);
            self.requests = requests;
            assert(old(self).requests() == pre);
            assert(old(self).requests().insert(i as int, request) == self.requests());
            None
        }
    }

    /// Take out the request that comes first.
    pub fn pop_first(&mut self) -> (first: Option<Request<T>>)
        ensures
            old(self).requests().len() == 0 ==> first is None && final(self).requests()
                == old(self).requests(),
            old(self).requests().len() > 0 ==> {
                &&& first == Some(old(self).requests()[0])
                &&& final(self).requests() == old(self).requests().drop_first()
                &&& forall|j: int|
                    0 < j < old(self).requests().len() ==> key_lt(
                        request_key(old(self).requests()[0]),
                        request_key(#[trigger] old(self).requests()[j]),
                    )
            },
    {
        proof {
            use_type_invariant(&*self);
        }
        if self.requests.len() == 0 {
            None
        } else {
            let ghost pre = self.requests@;
            let mut requests = Vec::new();
            std::mem::swap(&mut requests, &mut self.requests);
            let first = requests.remove(0);
            proof {
                assert(requests@ =~= pre.drop_first());
                assert forall|a: int, b: int|
                    0 <= a < b < requests@.len() implies key_lt(
                    #[trigger] request_key(requests@[a]),
                    #[trigger] request_key(requests@[b]),
                ) by {
                    assert(key_lt(request_key(pre[a + 1]), request_key(pre[b + 1])));
                }
            }
            self.requests = requests;
            Some(first)
        }
    }

    /// The pointers of the requests, in order.
    pub fn keys(&self) -> (keys: Vec<DatabaseObjectPointer>)
        ensures
            keys@.len() == self.requests().len(),
            forall|i: int|
                0 <= i < keys@.len() ==> #[trigger] keys@[i].key() == request_key(
                    self.requests()[i],
                ),
    {
        let mut keys: Vec<DatabaseObjectPointer> = Vec::new();
        let mut i: usize = 0;
        while i < self.requests.len()
            invariant
                i <= self.requests@.len(),
                keys@.len() == i,
                forall|j: int|
                    0 <= j < i ==> #[trigger] keys@[j].key() == request_key(self.requests@[j]),
            decreases self.requests@.len() - i,
        {
            keys.push(self.requests[i].pointer().clone());
            i = i + 1;
        }
        keys
    }
}

/// What the agent reports of its queue.
pub struct QueueStatus {
    /// Active job.
    pub active: Option<DatabaseObjectPointer>,
    /// Which pointers have remaining jobs.
    pub waiting: Vec<DatabaseObjectPointer>,
}

impl QueueStatus {
    /// No active job, nothing waiting.
    pub fn new() -> (status: Self)
        ensures
            status.active is None,
            status.waiting@.len() == 0,
    {
        QueueStatus { active: None, waiting: Vec::new() }
    }

    /// Start the next job where none is active: the first request of the queue becomes the
    /// job, and its pointer the active one. Returns whether a new job started.
    pub fn take_job<T>(&mut self, queue: &mut Queue<T>, job: &mut Option<Request<T>>) -> (started: bool)
        ensures
            *old(job) is Some ==> !started && *final(job) == *old(job)
                && final(queue).requests() == old(queue).requests()
                && final(self).active == old(self).active,
            *old(job) is None && old(queue).requests().len() == 0 ==> !started && *final(job) is None
                && final(queue).requests() == old(queue).requests()
                && final(self).active is None,
            *old(job) is None && old(queue).requests().len() > 0 ==> {
                &&& started
                &&& *final(job) == Some(old(queue).requests()[0])
                &&& final(queue).requests() == old(queue).requests().drop_first()
                &&& final(self).active matches Some(p) && p.key() == request_key(
                    old(queue).requests()[0],
                )
            },
            final(self).waiting == old(self).waiting,
    {
        if job.is_none() {
            match queue.pop_first() {
                Some(request) => {
                    self.active = Some(request.pointer().clone());
                    *job = Some(request);
                    true
                },
                None => {
                    self.active = None;
                    false
                },
            }
        } else {
            false
        }
    }

    /// Report the pointers that have requests waiting.
    pub fn refresh_waiting<T>(&mut self, queue: &Queue<T>)
        ensures
            final(self).active == old(self).active,
            final(self).waiting@.len() == queue.requests().len(),
            forall|i: int|
                0 <= i < final(self).waiting@.len() ==> #[trigger] final(self).waiting@[i].key()
                    == request_key(queue.requests()[i]),
    {
        self.waiting = queue.keys();
    }
}

} // verus!
