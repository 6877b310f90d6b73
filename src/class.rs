//! Classes and properties, and how names resolve along the inheritance chain.
//!
//! Classes live in an arena and refer to their parent by position. A parent is
//! always registered before its children, so a parent's position is smaller
//! than its child's: chains are finite and acyclic by construction.

use vstd::prelude::*;
use crate::signal::{SignalTable, HandlerRef};

verus! {

/// Handle of a registered class: its position in the class arena.
pub type ClassId = usize;

/// A named field descriptor. The flags say which native callbacks the
/// declaring entity supplies: `new` runs at construction, `index` on reads,
/// `new_index` on writes.
pub struct Property {
    pub name: String,
    pub new: bool,
    pub index: bool,
    pub new_index: bool,
}

/// What an entity supplies when its class is registered.
pub struct ClassDecl {
    pub name: String,
    pub parent: Option<ClassId>,
    pub collector: bool,
    pub checker: bool,
    pub index_miss_property: bool,
    pub newindex_miss_property: bool,
    pub methods: Vec<String>,
}

/// A family of objects: its properties, signals, lifecycle callbacks and
/// live-instance count.
pub struct Class {
    pub name: String,
    pub parent: Option<usize>,
    pub collector: bool,
    pub checker: bool,
    pub index_miss_property: bool,
    pub newindex_miss_property: bool,
    pub methods: Vec<String>,
    pub properties: Vec<Property>,
    pub signals: SignalTable,
    pub index_miss_handler: Option<HandlerRef>,
    pub newindex_miss_handler: Option<HandlerRef>,
    pub instances: u64,
}

/// Position of the first property called `name` at or after `i`.
pub open spec fn prop_pos_from(props: Seq<Property>, name: Seq<char>, i: int) -> Option<int>
    decreases props.len() - i,
{
    if i < 0 || i >= props.len() {
        None
    } else if props[i].name@ == name {
        Some(i)
    } else {
        prop_pos_from(props, name, i + 1)
    }
}

/// Position of the property called `name` in one class's own list.
pub open spec fn prop_pos(props: Seq<Property>, name: Seq<char>) -> Option<int> {
    prop_pos_from(props, name, 0)
}

/// Position of the first string equal to `name` at or after `i`.
pub open spec fn name_pos_from(names: Seq<String>, name: Seq<char>, i: int) -> Option<int>
    decreases names.len() - i,
{
    if i < 0 || i >= names.len() {
        None
    } else if names[i]@ == name {
        Some(i)
    } else {
        name_pos_from(names, name, i + 1)
    }
}

/// Parents come before their children.
pub open spec fn classes_wf(classes: Seq<Class>) -> bool {
    forall|c: int|
        0 <= c < classes.len() ==> match (#[trigger] classes[c]).parent {
            Some(p) => p < c,
            None => true,
        }
}

/// The property `name` as seen from class `c`: the class itself first, then
/// its ancestors in order; the first class that declares it wins. The result
/// is the declaring class and the property's position in it.
pub open spec fn resolve_property(classes: Seq<Class>, c: int, name: Seq<char>) -> Option<(int, int)>
    decreases c,
{
    if c < 0 || c >= classes.len() {
        None
    } else {
        match prop_pos(classes[c].properties@, name) {
            Some(i) => Some((c, i)),
            None => match classes[c].parent {
                Some(p) => if p < c {
                    resolve_property(classes, p as int, name)
                } else {
                    None
                },
                None => None,
            },
        }
    }
}

/// The class whose table answers signal `name` for class `c`: the first one
/// along the chain with at least one handler for it.
pub open spec fn signal_owner(classes: Seq<Class>, c: int, name: Seq<char>) -> Option<int>
    decreases c,
{
    if c < 0 || c >= classes.len() {
        None
    } else if classes[c].signals.handlers(name).len() > 0 {
        Some(c)
    } else {
        match classes[c].parent {
            Some(p) => if p < c {
                signal_owner(classes, p as int, name)
            } else {
                None
            },
            None => None,
        }
    }
}

/// The handlers that a class-level emission of `name` on `c` invokes.
pub open spec fn class_handlers(classes: Seq<Class>, c: int, name: Seq<char>) -> Seq<HandlerRef> {
    match signal_owner(classes, c, name) {
        Some(o) => classes[o].signals.handlers(name),
        None => Seq::empty(),
    }
}

/// The classes along the chain of `c` that have a collector, most-derived
/// first.
pub open spec fn collectors(classes: Seq<Class>, c: int) -> Seq<usize>
    decreases c,
{
    if c < 0 || c >= classes.len() {
        Seq::empty()
    } else {
        let rest = match classes[c].parent {
            Some(p) => if p < c {
                collectors(classes, p as int)
            } else {
                Seq::empty()
            },
            None => Seq::empty(),
        };
        if classes[c].collector {
            seq![c as usize] + rest
        } else {
            rest
        }
    }
}

/// Whether `target` is `c` or one of its ancestors.
pub open spec fn descends_from(classes: Seq<Class>, c: int, target: int) -> bool
    decreases c,
{
    if c < 0 || c >= classes.len() {
        false
    } else if c == target {
        true
    } else {
        match classes[c].parent {
            Some(p) => p < c && descends_from(classes, p as int, target),
            None => false,
        }
    }
}

/// The names along the chain of `c`, root first, joined by `/`.
pub open spec fn class_path(classes: Seq<Class>, c: int) -> Seq<char>
    decreases c,
{
    if c < 0 || c >= classes.len() {
        Seq::empty()
    } else {
        match classes[c].parent {
            Some(p) => if p < c {
                class_path(classes, p as int) + seq!['/'] + classes[c].name@
            } else {
                classes[c].name@
            },
            None => classes[c].name@,
        }
    }
}

/// Finds the property called `name` in one class's own list.
pub fn find_property(props: &Vec<Property>, name: &String) -> (r: Option<usize>)
    ensures
        match r {
            Some(i) => i < props@.len() && prop_pos(props@, name@) == Some(i as int),
            None => prop_pos(props@, name@) is None,
        },
{
    let mut i: usize = 0;
    while i < props.len()
        invariant
            0 <= i <= props.len(),
            prop_pos(props@, name@) == prop_pos_from(props@, name@, i as int),
        decreases props.len() - i,
    {
        if props[i].name == *name {
            return Some(i);
        }
        i = i + 1;
    }
    None
}

/// Finds `name` in a list of names.
pub fn find_name(names: &Vec<String>, name: &String) -> (r: Option<usize>)
    ensures
        match r {
            Some(i) => name_pos_from(names@, name@, 0) == Some(i as int),
            None => name_pos_from(names@, name@, 0) is None,
        },
{
    let mut i: usize = 0;
    while i < names.len()
        invariant
            0 <= i <= names.len(),
            name_pos_from(names@, name@, 0) == name_pos_from(names@, name@, i as int),
        decreases names.len() - i,
    {
        if names[i] == *name {
            return Some(i);
        }
        i = i + 1;
    }
    None
}

/// Resolves `name` from class `c` along the inheritance chain.
pub fn lookup_property(classes: &Vec<Class>, c: usize, name: &String) -> (r: Option<(usize, usize)>)
    requires
        classes_wf(classes@),
        c < classes@.len(),
    ensures
        match r {
            Some((d, i)) => d < classes@.len() && i < classes@[d as int].properties@.len()
                && resolve_property(classes@, c as int, name@) == Some((d as int, i as int)),
            None => resolve_property(classes@, c as int, name@) is None,
        },
{
    let mut cur: usize = c;
    loop
        invariant
            classes_wf(classes@),
            cur < classes@.len(),
            resolve_property(classes@, c as int, name@) == resolve_property(classes@, cur as int, name@),
        decreases cur,
    {
        match find_property(&classes[cur].properties, name) {
            Some(i) => {
                return Some((cur, i));
            },
            None => {},
        }
        match classes[cur].parent {
            Some(p) => {
                assert(classes@[cur as int].parent == Some(p));
                cur = p;
            },
            None => {
                return None;
            },
        }
    }
}

/// The class answering signal `name` for `c`, if any.
pub fn find_signal_owner(classes: &Vec<Class>, c: usize, name: &String) -> (r: Option<usize>)
    requires
        classes_wf(classes@),
        c < classes@.len(),
    ensures
        match r {
            Some(o) => o < classes@.len() && signal_owner(classes@, c as int, name@) == Some(o as int),
            None => signal_owner(classes@, c as int, name@) is None,
        },
{
    let mut cur: usize = c;
    loop
        invariant
            classes_wf(classes@),
            cur < classes@.len(),
            signal_owner(classes@, c as int, name@) == signal_owner(classes@, cur as int, name@),
        decreases cur,
    {
        if classes[cur].signals.has_signal(name) {
            return Some(cur);
        }
        match classes[cur].parent {
            Some(p) => {
                assert(classes@[cur as int].parent == Some(p));
                cur = p;
            },
            None => {
                return None;
            },
        }
    }
}

/// The handlers a class-level emission of `name` on `c` invokes, in order.
pub fn class_signal_handlers(classes: &Vec<Class>, c: usize, name: &String) -> (r: Vec<HandlerRef>)
    requires
        classes_wf(classes@),
        c < classes@.len(),
    ensures
        r@ == class_handlers(classes@, c as int, name@),
{
    match find_signal_owner(classes, c, name) {
        Some(o) => classes[o].signals.snapshot(name),
        None => Vec::new(),
    }
}

/// The classes whose collector runs when an object of class `c` is
/// reclaimed, most-derived first.
pub fn collector_chain(classes: &Vec<Class>, c: usize) -> (r: Vec<usize>)
    requires
        classes_wf(classes@),
        c < classes@.len(),
    ensures
        r@ == collectors(classes@, c as int),
{
    let mut r: Vec<usize> = Vec::new();
    let mut cur: usize = c;
    loop
        invariant
            classes_wf(classes@),
            cur < classes@.len(),
            r@ + collectors(classes@, cur as int) == collectors(classes@, c as int),
        decreases cur,
    {
        let ghost before = r@;
        if classes[cur].collector {
            r.push(cur);
            assert(before + collectors(classes@, cur as int) =~= r@ + (
            match classes@[cur as int].parent {
                Some(p) => if p < cur {
                    collectors(classes@, p as int)
                } else {
                    Seq::empty()
                },
                None => Seq::empty(),
            }));
        }
        match classes[cur].parent {
            Some(p) => {
                assert(classes@[cur as int].parent == Some(p));
                cur = p;
            },
            None => {
                assert(r@ + Seq::<usize>::empty() =~= r@);
                return r;
            },
        }
    }
}

/// Whether class `c` is `target` or descends from it.
pub fn class_descends_from(classes: &Vec<Class>, c: usize, target: usize) -> (r: bool)
    requires
        classes_wf(classes@),
        c < classes@.len(),
    ensures
        r == descends_from(classes@, c as int, target as int),
{
    let mut cur: usize = c;
    loop
        invariant
            classes_wf(classes@),
            cur < classes@.len(),
            descends_from(classes@, c as int, target as int) == descends_from(
                classes@,
                cur as int,
                target as int,
            ),
        decreases cur,
    {
        if cur == target {
            return true;
        }
        match classes[cur].parent {
            Some(p) => {
                assert(classes@[cur as int].parent == Some(p));
                cur = p;
            },
            None => {
                return false;
            },
        }
    }
}

} // verus!
