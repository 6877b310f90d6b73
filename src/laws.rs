//! Laws relating the runtime's operations, proved over the models that the
//! operations' contracts speak of.

use vstd::prelude::*;
use crate::signal::{
    HandlerRef, handlers_in, disconnected, remove_first, position_from, lemma_position_none,
    lemma_absent_not_in_handlers, lemma_remove_at,
};
use crate::class::{ClassId, Class, classes_wf, resolve_property, prop_pos, class_handlers, signal_owner};
use crate::runtime::{
    Runtime, ObjectRef, RuntimeError, IndexOutcome, NewIndexOutcome, live_count, made_count,
    collected_count,
};

verus! {

/// A name that class `c` does not declare itself resolves exactly as it
/// does from `c`'s parent: a property declared on the parent resolves to the
/// parent's, and a signal with no handler on `c` is answered by the parent's
/// chain.
pub proof fn law_inherited_from_parent(classes: Seq<Class>, c: ClassId, p: ClassId, name: Seq<char>)
    requires
        classes_wf(classes),
        c < classes.len(),
        classes[c as int].parent == Some(p),
    ensures
        prop_pos(classes[c as int].properties@, name) is None ==> resolve_property(
            classes,
            c as int,
            name,
        ) == resolve_property(classes, p as int, name),
        prop_pos(classes[c as int].properties@, name) is None && prop_pos(
            classes[p as int].properties@,
            name,
        ) is Some ==> resolve_property(classes, c as int, name) == Some(
            (p as int, prop_pos(classes[p as int].properties@, name)->Some_0),
        ),
        classes[c as int].signals.handlers(name).len() == 0 ==> class_handlers(
            classes,
            c as int,
            name,
        ) == class_handlers(classes, p as int, name),
{
    assert(classes[c as int].parent == Some(p));
    assert(p < c);
}

/// With classes A (no parent) and B (parent A), a signal that only A has
/// handlers for, emitted at class level for B (as every emission on a B
/// instance is), runs exactly A's handlers. The emission only reads the
/// tables: B's own table is left as it was.
pub proof fn law_signal_resolves_to_parent(classes: Seq<Class>, a: ClassId, b: ClassId, name: Seq<char>)
    requires
        classes_wf(classes),
        b < classes.len(),
        classes[a as int].parent is None,
        classes[b as int].parent == Some(a),
        classes[b as int].signals.handlers(name).len() == 0,
        classes[a as int].signals.handlers(name).len() > 0,
    ensures
        signal_owner(classes, b as int, name) == Some(a as int),
        class_handlers(classes, b as int, name) == classes[a as int].signals.handlers(name),
{
    assert(classes[b as int].parent == Some(a));
    assert(a < b);
    assert(signal_owner(classes, a as int, name) == Some(a as int));
    assert(signal_owner(classes, b as int, name) == signal_owner(classes, a as int, name));
}

/// Live instances equal constructions minus collections, and never more
/// collections than constructions have happened. Constructions are counted
/// by `made_count` (each `class_new` adds one) and collections by
/// `collected_count` (each `class_gc` adds one).
pub proof fn law_instances_balance<P>(rt: &Runtime<P>, c: ClassId)
    requires
        rt.wf(),
        rt.has_class(c),
    ensures
        collected_count(rt.objects(), c as int) <= made_count(rt.objects(), c as int),
        rt.classes()[c as int].instances == made_count(rt.objects(), c as int) - collected_count(
            rt.objects(),
            c as int,
        ),
        rt.classes()[c as int].instances >= 0,
{
    lemma_counts_add_up(rt.objects(), c as int);
    assert(rt.classes()[c as int].instances == live_count(rt.objects(), c as int));
}

proof fn lemma_counts_add_up<P>(objs: Seq<crate::runtime::ObjectSlot<P>>, c: int)
    ensures
        live_count(objs, c) + collected_count(objs, c) == made_count(objs, c),
    decreases objs.len(),
{
    if objs.len() > 0 {
        lemma_counts_add_up(objs.drop_last(), c);
    }
}

/// Connecting two handlers to the same name makes the next emission of that
/// name run both, once each, after the earlier ones and in connection order;
/// the same handler connected twice runs twice.
pub proof fn law_connect_twice(
    v: Seq<(Seq<char>, HandlerRef)>,
    name: Seq<char>,
    h1: HandlerRef,
    h2: HandlerRef,
)
    ensures
        handlers_in(v.push((name, h1)).push((name, h2)), name) == handlers_in(v, name) + seq![h1, h2],
{
    let v1 = v.push((name, h1));
    let v2 = v1.push((name, h2));
    assert(v2.drop_last() =~= v1);
    assert(v1.drop_last() =~= v);
    assert(v1.last() == (name, h1));
    assert(v2.last() == (name, h2));
    assert(handlers_in(v1, name) == handlers_in(v, name).push(h1));
    assert(handlers_in(v2, name) == handlers_in(v1, name).push(h2));
    assert(handlers_in(v, name).push(h1).push(h2) =~= handlers_in(v, name) + seq![h1, h2]);
}

proof fn lemma_position_some(
    v: Seq<(Seq<char>, HandlerRef)>,
    name: Seq<char>,
    h: HandlerRef,
    i: int,
    k: int,
)
    requires
        position_from(v, name, h, i) == Some(k),
    ensures
        0 <= i <= k < v.len(),
        v[k] == (name, h),
    decreases v.len() - i,
{
    if v[i] != (name, h) {
        lemma_position_some(v, name, h, i + 1, k);
    }
}

proof fn lemma_remove_first_len(s: Seq<HandlerRef>, x: HandlerRef)
    requires
        s.contains(x),
    ensures
        remove_first(s, x).len() == s.len() - 1,
    decreases s.len(),
{
    if s[0] != x {
        let j = choose|j: int| 0 <= j < s.len() && s[j] == x;
        assert(s.skip(1)[j - 1] == x);
        lemma_remove_first_len(s.skip(1), x);
    }
}

/// Disconnecting a handler that is not connected to a name changes nothing;
/// disconnecting one that is removes exactly one of its registrations.
pub proof fn law_disconnect_removes_at_most_one(
    v: Seq<(Seq<char>, HandlerRef)>,
    name: Seq<char>,
    h: HandlerRef,
)
    ensures
        !handlers_in(v, name).contains(h) ==> disconnected(v, name, h) == v,
        handlers_in(v, name).contains(h) ==> {
            &&& disconnected(v, name, h).len() == v.len() - 1
            &&& handlers_in(disconnected(v, name, h), name) == remove_first(handlers_in(v, name), h)
            &&& handlers_in(disconnected(v, name, h), name).len() == handlers_in(v, name).len() - 1
        },
{
    match position_from(v, name, h, 0) {
        Some(k) => {
            lemma_position_some(v, name, h, 0, k);
            assert(position_from(v, name, h, k) == Some(k));
            lemma_remove_at(v, name, h, k);
            lemma_remove_first_len(handlers_in(v, name), h);
        },
        None => {
            lemma_position_none(v, name, h, 0);
            lemma_absent_not_in_handlers(v, name, h);
        },
    }
}

/// An emission runs the handlers as they were when it started (`pass`, the
/// snapshot). A handler that disconnects a handler while that list runs
/// leaves the list as it is; only the next emission sees the table without
/// it. With handlers `[f1, f2]`, `f1` disconnecting `f2` leaves `[f1]` for
/// later emissions, while the running pass still calls `f1` and then `f2`.
pub proof fn law_emission_uses_snapshot(
    v: Seq<(Seq<char>, HandlerRef)>,
    name: Seq<char>,
    h: HandlerRef,
    pass: Seq<HandlerRef>,
)
    requires
        pass == handlers_in(v, name),
    ensures
        handlers_in(disconnected(v, name, h), name) == remove_first(pass, h),
        pass.len() == 2 && pass[1] == h ==> handlers_in(disconnected(v, name, h), name) == seq![
            pass[0],
        ],
{
    law_disconnect_removes_at_most_one(v, name, h);
    if !handlers_in(v, name).contains(h) {
        crate::signal::lemma_remove_first_absent(handlers_in(v, name), h);
    }
    if pass.len() == 2 && pass[1] == h {
        if pass[0] == h {
            assert(remove_first(pass, h) == pass.skip(1));
            assert(pass.skip(1) =~= seq![pass[0]]);
        } else {
            let rest = pass.skip(1);
            assert(rest[0] == h);
            assert(remove_first(rest, h) == rest.skip(1));
            assert(rest.skip(1) =~= Seq::<HandlerRef>::empty());
            assert(seq![pass[0]] + Seq::<HandlerRef>::empty() =~= seq![pass[0]]);
        }
    }
}

/// The same handler connected twice to a signal of an object that had no
/// handler for it runs exactly twice, and nothing else runs at object
/// scope.
pub proof fn law_object_connect_twice<P>(
    before: &Runtime<P>,
    after: &Runtime<P>,
    o: ObjectRef,
    name: Seq<char>,
    f: HandlerRef,
)
    requires
        o.index < before.objects().len(),
        o.index < after.objects().len(),
        before.objects()[o.index as int].signals.handlers(name).len() == 0,
        after.objects()[o.index as int].signals@ == before.objects()[o.index as int].signals@.push(
            (name, f),
        ).push((name, f)),
    ensures
        after.objects()[o.index as int].signals.handlers(name) == seq![f, f],
{
    law_connect_twice(before.objects()[o.index as int].signals@, name, f, f);
    assert(before.objects()[o.index as int].signals.handlers(name) + seq![f, f] =~= seq![f, f]);
}

/// Reading a name that resolves to no property, on a live object whose
/// class has a script-side miss handler, calls that handler and nothing
/// else: the native fallback is not consulted. Writing behaves alike.
pub proof fn law_miss_handler_first<P>(rt: &Runtime<P>, o: ObjectRef, field: Seq<char>)
    requires
        rt.wf(),
        rt.is_live(o),
        field != "valid"@,
        field != "data"@,
        resolve_property(rt.classes(), rt.class_of(o), field) is None,
    ensures
        rt.classes()[rt.class_of(o)].index_miss_handler matches Some(h) ==> rt.index_outcome(
            o,
            field,
        ) == Ok::<IndexOutcome, RuntimeError>(IndexOutcome::MissHandler(h)),
        rt.classes()[rt.class_of(o)].newindex_miss_handler matches Some(h) ==> rt.newindex_outcome(
            o,
            field,
        ) == Ok::<NewIndexOutcome, RuntimeError>(NewIndexOutcome::MissHandler(h)),
{
}

/// Once an object is reclaimed, reading any field but `valid`, and writing
/// any field, is an invalid-object error; reading `valid` gives false.
pub proof fn law_collected_object_invalid<P>(rt: &Runtime<P>, o: ObjectRef, field: Seq<char>)
    requires
        rt.wf(),
        !rt.is_live(o),
    ensures
        rt.index_outcome(o, "valid"@) == Ok::<IndexOutcome, RuntimeError>(IndexOutcome::Valid(false)),
        field != "valid"@ ==> rt.index_outcome(o, field) == Err::<IndexOutcome, RuntimeError>(
            RuntimeError::InvalidObject,
        ),
        rt.newindex_outcome(o, field) == Err::<NewIndexOutcome, RuntimeError>(
            RuntimeError::InvalidObject,
        ),
{
}

} // verus!
