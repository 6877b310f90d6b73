//! Signal tables: ordered registries of named event subscribers.
//!
//! A table is kept as the list of its connections in the order in which they
//! were made. The handlers of one signal are the connections carrying its
//! name, in that order; connecting the same handler twice yields two
//! independent entries.

use vstd::prelude::*;

verus! {

/// Identity of a script-side function (a closure kept alive by the host).
pub type HandlerRef = u64;

/// One subscription: `handler` listens to the signal called `name`.
pub struct Connection {
    pub name: String,
    pub handler: HandlerRef,
}

/// An ordered registry of named event subscribers.
pub struct SignalTable {
    conns: Vec<Connection>,
}

/// The mathematical form of one connection.
pub open spec fn conn_view(c: Connection) -> (Seq<char>, HandlerRef) {
    (c.name@, c.handler)
}

/// The handlers of signal `name`, in connection order.
pub open spec fn handlers_in(conns: Seq<(Seq<char>, HandlerRef)>, name: Seq<char>) -> Seq<HandlerRef>
    decreases conns.len(),
{
    if conns.len() == 0 {
        Seq::empty()
    } else {
        let rest = handlers_in(conns.drop_last(), name);
        if conns.last().0 == name {
            rest.push(conns.last().1)
        } else {
            rest
        }
    }
}

/// Position of the first connection `(name, handler)` at or after `i`.
pub open spec fn position_from(
    conns: Seq<(Seq<char>, HandlerRef)>,
    name: Seq<char>,
    handler: HandlerRef,
    i: int,
) -> Option<int>
    decreases conns.len() - i,
{
    if i < 0 || i >= conns.len() {
        None
    } else if conns[i] == (name, handler) {
        Some(i)
    } else {
        position_from(conns, name, handler, i + 1)
    }
}

/// `s` without its first occurrence of `x` (unchanged when `x` is absent).
pub open spec fn remove_first(s: Seq<HandlerRef>, x: HandlerRef) -> Seq<HandlerRef>
    decreases s.len(),
{
    if s.len() == 0 {
        s
    } else if s[0] == x {
        s.skip(1)
    } else {
        seq![s[0]] + remove_first(s.skip(1), x)
    }
}

/// The connections left after disconnecting `handler` from `name`: the first
/// matching connection is dropped, if there is one.
pub open spec fn disconnected(
    conns: Seq<(Seq<char>, HandlerRef)>,
    name: Seq<char>,
    handler: HandlerRef,
) -> Seq<(Seq<char>, HandlerRef)> {
    match position_from(conns, name, handler, 0) {
        Some(k) => conns.remove(k),
        None => conns,
    }
}

impl View for SignalTable {
    type V = Seq<(Seq<char>, HandlerRef)>;

    closed spec fn view(&self) -> Seq<(Seq<char>, HandlerRef)> {
        self.conns@.map_values(|c: Connection| conn_view(c))
    }
}

impl SignalTable {
    /// The handlers of signal `name`, in connection order.
    pub open spec fn handlers(&self, name: Seq<char>) -> Seq<HandlerRef> {
        handlers_in(self@, name)
    }

    /// A table with no connections.
    pub fn new() -> (r: SignalTable)
        ensures
            r@ == Seq::<(Seq<char>, HandlerRef)>::empty(),
    {
        SignalTable { conns: Vec::new() }
    }

    /// Number of connections over all names.
    pub fn len(&self) -> (r: usize)
        ensures
            r == self@.len(),
    {
        self.conns.len()
    }

    /// Appends `handler` to the handlers of `name`.
    pub fn connect(&mut self, name: &String, handler: HandlerRef)
        ensures
            final(self)@ == old(self)@.push((name@, handler)),
            final(self).handlers(name@) == old(self).handlers(name@).push(handler),
            forall|other: Seq<char>|
                other != name@ ==> #[trigger] final(self).handlers(other) == old(self).handlers(
                    other,
                ),
    {
        let c = Connection { name: name.clone(), handler };
        self.conns.push(c);
        assert(self@ =~= old(self)@.push((name@, handler)));
        assert(self@.drop_last() =~= old(self)@);
    }

    /// Removes the first connection of `handler` to `name`, and reports how
    /// many connections were removed (zero or one).
    pub fn disconnect(&mut self, name: &String, handler: HandlerRef) -> (removed: usize)
        ensures
            final(self)@ == disconnected(old(self)@, name@, handler),
            removed == 1 <==> old(self).handlers(name@).contains(handler),
            removed == 0 <==> !old(self).handlers(name@).contains(handler),
            final(self).handlers(name@) == remove_first(old(self).handlers(name@), handler),
            forall|other: Seq<char>|
                other != name@ ==> #[trigger] final(self).handlers(other) == old(self).handlers(
                    other,
                ),
    {
        let ghost v = self@;
        let mut i: usize = 0;
        while i < self.conns.len()
            invariant
                0 <= i <= self.conns.len(),
                self@ == v,
                v == old(self)@,
                position_from(v, name@, handler, 0) == position_from(v, name@, handler, i as int),
            decreases self.conns.len() - i,
        {
            if self.conns[i].handler == handler && self.conns[i].name == *name {
                assert(v[i as int] == (name@, handler));
                self.conns.remove(i);
                proof {
                    assert(self@ =~= v.remove(i as int));
                    lemma_remove_at(v, name@, handler, i as int);
                }
                return 1;
            }
            assert(v[i as int] != (name@, handler));
            i = i + 1;
        }
        proof {
            lemma_position_none(v, name@, handler, 0);
            lemma_absent_not_in_handlers(v, name@, handler);
            assert forall|other: Seq<char>| other != name@ implies #[trigger] handlers_in(
                v,
                other,
            ) == handlers_in(v, other) by {};
            lemma_remove_first_absent(handlers_in(v, name@), handler);
        }
        0
    }

    /// A snapshot of the handlers of `name`, in connection order.
    pub fn snapshot(&self, name: &String) -> (r: Vec<HandlerRef>)
        ensures
            r@ == self.handlers(name@),
    {
        let mut r: Vec<HandlerRef> = Vec::new();
        let mut i: usize = 0;
        while i < self.conns.len()
            invariant
                0 <= i <= self.conns.len(),
                r@ == handlers_in(self@.take(i as int), name@),
            decreases self.conns.len() - i,
        {
            proof {
                assert(self@.take(i as int + 1).drop_last() =~= self@.take(i as int));
            }
            if self.conns[i].name == *name {
                r.push(self.conns[i].handler);
            }
            i = i + 1;
        }
        assert(self@.take(i as int) =~= self@);
        r
    }

    /// Whether at least one handler listens to `name`.
    pub fn has_signal(&self, name: &String) -> (r: bool)
        ensures
            r == (self.handlers(name@).len() > 0),
    {
        let hs = self.snapshot(name);
        hs.len() > 0
    }

    /// Drops every connection.
    pub fn clear(&mut self)
        ensures
            final(self)@ == Seq::<(Seq<char>, HandlerRef)>::empty(),
    {
        self.conns.clear();
        assert(self@ =~= Seq::<(Seq<char>, HandlerRef)>::empty());
    }
}

/// Connects `handler` to the signal `name` of `signals`.
pub fn signal_connect(signals: &mut SignalTable, name: &String, handler: HandlerRef)
    ensures
        final(signals)@ == old(signals)@.push((name@, handler)),
        final(signals).handlers(name@) == old(signals).handlers(name@).push(handler),
{
    signals.connect(name, handler);
}

/// Disconnects the first connection of `handler` to `name`; returns the number
/// of connections removed.
pub fn signal_disconnect(signals: &mut SignalTable, name: &String, handler: HandlerRef) -> (removed:
    usize)
    ensures
        final(signals)@ == disconnected(old(signals)@, name@, handler),
        removed == 1 <==> old(signals).handlers(name@).contains(handler),
        removed == 0 <==> !old(signals).handlers(name@).contains(handler),
        final(signals).handlers(name@) == remove_first(old(signals).handlers(name@), handler),
{
    signals.disconnect(name, handler)
}

/// The handlers to invoke, in order, when `name` is emitted on `signals`.
/// The list is a snapshot: changes to the table made while the handlers run
/// do not alter it.
pub fn signal_object_emit(signals: &SignalTable, name: &String) -> (r: Vec<HandlerRef>)
    ensures
        r@ == signals.handlers(name@),
{
    signals.snapshot(name)
}

/// The handlers of a concatenation are the handlers of each part, in order.
pub proof fn lemma_handlers_concat(
    a: Seq<(Seq<char>, HandlerRef)>,
    b: Seq<(Seq<char>, HandlerRef)>,
    name: Seq<char>,
)
    ensures
        handlers_in(a + b, name) == handlers_in(a, name) + handlers_in(b, name),
    decreases b.len(),
{
    if b.len() == 0 {
        assert(a + b =~= a);
        assert(handlers_in(a, name) + handlers_in(b, name) =~= handlers_in(a, name));
    } else {
        assert((a + b).drop_last() =~= a + b.drop_last());
        lemma_handlers_concat(a, b.drop_last(), name);
        assert((a + b).last() == b.last());
        if b.last().0 == name {
            assert(handlers_in(a, name) + handlers_in(b.drop_last(), name).push(b.last().1)
                =~= (handlers_in(a, name) + handlers_in(b.drop_last(), name)).push(b.last().1));
        }
    }
}

pub(crate) proof fn lemma_position_none(
    v: Seq<(Seq<char>, HandlerRef)>,
    name: Seq<char>,
    handler: HandlerRef,
    i: int,
)
    requires
        0 <= i <= v.len(),
        position_from(v, name, handler, i) is None,
    ensures
        forall|j: int| i <= j < v.len() ==> v[j] != (name, handler),
    decreases v.len() - i,
{
    if i < v.len() {
        lemma_position_none(v, name, handler, i + 1);
    }
}

pub(crate) proof fn lemma_absent_not_in_handlers(v: Seq<(Seq<char>, HandlerRef)>, name: Seq<char>, handler: HandlerRef)
    requires
        forall|j: int| 0 <= j < v.len() ==> v[j] != (name, handler),
    ensures
        !handlers_in(v, name).contains(handler),
    decreases v.len(),
{
    if v.len() > 0 {
        let w = v.drop_last();
        assert forall|j: int| 0 <= j < w.len() implies w[j] != (name, handler) by {
            assert(w[j] == v[j]);
        };
        lemma_absent_not_in_handlers(w, name, handler);
        assert(v.last() == v[v.len() - 1]);
        if v.last().0 == name {
            let hs = handlers_in(w, name).push(v.last().1);
            assert forall|j: int| 0 <= j < hs.len() implies hs[j] != handler by {
                if j < hs.len() - 1 {
                    assert(hs[j] == handlers_in(w, name)[j]);
                }
            };
        }
    }
}

pub(crate) proof fn lemma_remove_first_absent(s: Seq<HandlerRef>, x: HandlerRef)
    requires
        !s.contains(x),
    ensures
        remove_first(s, x) == s,
    decreases s.len(),
{
    if s.len() > 0 {
        assert(s[0] != x);
        assert(!s.skip(1).contains(x)) by {
            if s.skip(1).contains(x) {
                let j = choose|j: int| 0 <= j < s.skip(1).len() && s.skip(1)[j] == x;
                assert(s[j + 1] == x);
            }
        };
        lemma_remove_first_absent(s.skip(1), x);
        assert(seq![s[0]] + s.skip(1) =~= s);
    }
}

proof fn lemma_remove_first_after_prefix(a: Seq<HandlerRef>, x: HandlerRef, b: Seq<HandlerRef>)
    requires
        !a.contains(x),
    ensures
        remove_first(a + seq![x] + b, x) == a + b,
    decreases a.len(),
{
    let s = a + seq![x] + b;
    if a.len() == 0 {
        assert(s[0] == x);
        assert(s.skip(1) =~= b);
        assert(a + b =~= b);
    } else {
        assert(s[0] == a[0]);
        assert(a[0] != x);
        let a1 = a.skip(1);
        assert(!a1.contains(x)) by {
            if a1.contains(x) {
                let j = choose|j: int| 0 <= j < a1.len() && a1[j] == x;
                assert(a[j + 1] == x);
            }
        };
        assert(s.skip(1) =~= a1 + seq![x] + b);
        lemma_remove_first_after_prefix(a1, x, b);
        assert(seq![a[0]] + (a1 + b) =~= a + b);
    }
}

pub(crate) proof fn lemma_position_found(
    v: Seq<(Seq<char>, HandlerRef)>,
    name: Seq<char>,
    handler: HandlerRef,
    i: int,
    k: int,
)
    requires
        0 <= i <= k < v.len(),
        position_from(v, name, handler, i) == Some(k),
    ensures
        forall|j: int| i <= j < k ==> v[j] != (name, handler),
    decreases k - i,
{
    if i < k {
        assert(v[i] != (name, handler));
        lemma_position_found(v, name, handler, i + 1, k);
    }
}

pub(crate) proof fn lemma_remove_at(v: Seq<(Seq<char>, HandlerRef)>, name: Seq<char>, handler: HandlerRef, k: int)
    requires
        0 <= k < v.len(),
        v[k] == (name, handler),
        position_from(v, name, handler, 0) == position_from(v, name, handler, k),
    ensures
        disconnected(v, name, handler) == v.remove(k),
        handlers_in(v, name).contains(handler),
        handlers_in(v.remove(k), name) == remove_first(handlers_in(v, name), handler),
        forall|other: Seq<char>|
            other != name ==> #[trigger] handlers_in(v.remove(k), other) == handlers_in(v, other),
{
    assert(position_from(v, name, handler, k) == Some(k));
    lemma_position_found(v, name, handler, 0, k);
    let pre = v.take(k);
    let post = v.skip(k + 1);
    let mid = seq![v[k]];
    assert(v =~= pre + mid + post);
    assert(v.remove(k) =~= pre + post);
    assert forall|j: int| 0 <= j < pre.len() implies pre[j] != (name, handler) by {
        assert(pre[j] == v[j]);
    };
    lemma_absent_not_in_handlers(pre, name, handler);
    assert forall|other: Seq<char>| #[trigger] handlers_in(v, other) == handlers_in(pre, other)
        + handlers_in(mid, other) + handlers_in(post, other) by {
        lemma_handlers_concat(pre + mid, post, other);
        lemma_handlers_concat(pre, mid, other);
    };
    assert forall|other: Seq<char>| #[trigger] handlers_in(v.remove(k), other) == handlers_in(
        pre,
        other,
    ) + handlers_in(post, other) by {
        lemma_handlers_concat(pre, post, other);
    };
    assert(mid.drop_last() =~= Seq::<(Seq<char>, HandlerRef)>::empty());
    assert(mid.last() == (name, handler));
    assert(handlers_in(mid.drop_last(), name) == Seq::<HandlerRef>::empty());
    assert(handlers_in(mid, name) =~= seq![handler]);
    assert forall|other: Seq<char>| other != name implies #[trigger] handlers_in(
        v.remove(k),
        other,
    ) == handlers_in(v, other) by {
        assert(handlers_in(mid.drop_last(), other) == Seq::<HandlerRef>::empty());
        assert(handlers_in(mid, other) =~= Seq::<HandlerRef>::empty());
        assert(handlers_in(pre, other) + handlers_in(mid, other) =~= handlers_in(pre, other));
    };
    lemma_remove_first_after_prefix(handlers_in(pre, name), handler, handlers_in(post, name));
    let hs = handlers_in(v, name);
    assert(hs[handlers_in(pre, name).len() as int] == handler);
}

} // verus!
