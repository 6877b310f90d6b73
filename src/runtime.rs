//! The runtime context: the class registry, the object arena, the global
//! names, and the dispatch of reads, writes, methods and signals.
//!
//! Objects are named by handles that are never reused. Reclaiming an object
//! drops its payload and marks its slot dead, so a stale handle is caught at
//! every access instead of reaching freed data.

use vstd::prelude::*;
use crate::signal::{SignalTable, HandlerRef};
use crate::refs::{RefTable, ValueRef, Decref};
use crate::class::{
    ClassId, Class, ClassDecl, Property, classes_wf, resolve_property, prop_pos, name_pos_from,
    find_name, find_property, lookup_property, class_handlers, class_signal_handlers, collectors,
    collector_chain, descends_from, class_descends_from, class_path,
};

verus! {

/// Handle of an object.
#[derive(PartialEq, Eq, Structural, Debug, Clone, Copy)]
pub struct ObjectRef {
    pub index: usize,
}

/// Why a runtime operation was refused.
#[derive(PartialEq, Eq, Structural, Debug, Clone, Copy)]
pub enum RuntimeError {
    /// The name is already bound to a global.
    AlreadyDefined,
    /// No class has that handle.
    UnknownClass,
    /// The class already declares a property of that name.
    PropertyDefined,
    /// The object was reclaimed, or never existed.
    InvalidObject,
    /// The object's class has no method of that name.
    NoSuchMethod,
    /// The class's instance counter is at its maximum.
    TooManyInstances,
    /// The reference counter of that value is at its maximum.
    TooManyReferences,
    /// An argument is not of the expected kind.
    WrongType,
    /// A numeric argument is outside its bounds.
    OutOfRange,
}

/// One slot of the object arena. A dead slot has no payload.
pub struct ObjectSlot<P> {
    pub class: ClassId,
    pub payload: Option<P>,
    pub signals: SignalTable,
    pub refs: RefTable,
}

/// A `new` callback to run during construction: the constructor field at
/// position `field` is handed to the `new` callback of property `property`
/// of class `class`.
#[derive(PartialEq, Eq, Structural, Debug, Clone, Copy)]
pub struct Setter {
    pub field: usize,
    pub class: ClassId,
    pub property: usize,
}

/// The work a construction leaves to the host: the `new` callbacks, in the
/// order of the constructor fields, then the handlers of the `"new"` signal,
/// each called with the new object.
pub struct Construction {
    pub object: ObjectRef,
    pub setters: Vec<Setter>,
    pub new_handlers: Vec<HandlerRef>,
}

/// What reading a field of an object comes to.
#[derive(PartialEq, Eq, Structural, Debug, Clone, Copy)]
pub enum IndexOutcome {
    /// The answer to `valid`.
    Valid(bool),
    /// `valid` on a live object whose class has a checker: the checker of
    /// this class decides.
    CheckValid(ClassId),
    /// The `data` table of the object's private environment.
    Data,
    /// Run the `index` callback of this property.
    Getter { class: ClassId, property: usize },
    /// The property exists but has no `index` callback: nothing is returned.
    NoGetter,
    /// Call the class's script-side index-miss handler.
    MissHandler(HandlerRef),
    /// Run the native index-miss fallback of this class.
    MissProperty(ClassId),
    /// Nothing handles the name: nothing is returned.
    Unhandled,
}

/// What writing a field of an object comes to.
#[derive(PartialEq, Eq, Structural, Debug, Clone, Copy)]
pub enum NewIndexOutcome {
    /// Run the `new_index` callback of this property.
    Setter { class: ClassId, property: usize },
    /// The property exists but has no `new_index` callback.
    NoSetter,
    /// Call the class's script-side newindex-miss handler.
    MissHandler(HandlerRef),
    /// Run the native newindex-miss fallback of this class.
    MissProperty(ClassId),
    /// Nothing handles the name.
    Unhandled,
}

/// The handlers an object-scoped emission invokes: first the object's own,
/// then the class-level ones, each list in connection order. When `check`
/// names a class, that class's checker must accept the object first; if it
/// rejects it, no handler runs.
pub struct Emission {
    pub check: Option<ClassId>,
    pub object_handlers: Vec<HandlerRef>,
    pub class_handlers: Vec<HandlerRef>,
}

/// Number of live objects of class `c`.
pub open spec fn live_count<P>(objs: Seq<ObjectSlot<P>>, c: int) -> nat
    decreases objs.len(),
{
    if objs.len() == 0 {
        0
    } else {
        live_count(objs.drop_last(), c) + if objs.last().class == c && objs.last().payload is Some {
            1nat
        } else {
            0nat
        }
    }
}

/// Number of objects of class `c` ever constructed.
pub open spec fn made_count<P>(objs: Seq<ObjectSlot<P>>, c: int) -> nat
    decreases objs.len(),
{
    if objs.len() == 0 {
        0
    } else {
        made_count(objs.drop_last(), c) + if objs.last().class == c {
            1nat
        } else {
            0nat
        }
    }
}

/// Number of objects of class `c` reclaimed so far.
pub open spec fn collected_count<P>(objs: Seq<ObjectSlot<P>>, c: int) -> nat
    decreases objs.len(),
{
    if objs.len() == 0 {
        0
    } else {
        collected_count(objs.drop_last(), c) + if objs.last().class == c
            && objs.last().payload is None {
            1nat
        } else {
            0nat
        }
    }
}

/// The `new` callbacks that constructor fields `fields` trigger on class `c`,
/// in field order.
pub open spec fn setter_plan(classes: Seq<Class>, c: int, fields: Seq<Seq<char>>) -> Seq<Setter>
    decreases fields.len(),
{
    if fields.len() == 0 {
        Seq::empty()
    } else {
        let rest = setter_plan(classes, c, fields.drop_last());
        let i = fields.len() - 1;
        match resolve_property(classes, c, fields.last()) {
            Some((d, j)) => if classes[d].properties@[j].new {
                rest.push(Setter { field: i as usize, class: d as usize, property: j as usize })
            } else {
                rest
            },
            None => rest,
        }
    }
}

/// The script-visible names of a list of strings.
pub open spec fn names_view(names: Seq<String>) -> Seq<Seq<char>> {
    names.map_values(|s: String| s@)
}

/// The runtime context.
pub struct Runtime<P> {
    classes: Vec<Class>,
    objects: Vec<ObjectSlot<P>>,
    globals: Vec<String>,
    registry: RefTable,
    global_signals: SignalTable,
}

impl<P> Runtime<P> {
    /// The registered classes, by handle.
    pub closed spec fn classes(&self) -> Seq<Class> {
        self.classes@
    }

    /// The object arena, by handle.
    pub closed spec fn objects(&self) -> Seq<ObjectSlot<P>> {
        self.objects@
    }

    /// The bound global names.
    pub closed spec fn globals(&self) -> Seq<String> {
        self.globals@
    }

    /// References held on behalf of class-level state.
    pub closed spec fn registry(&self) -> RefTable {
        self.registry
    }

    /// Process-wide signals (diagnostics).
    pub closed spec fn global_signals(&self) -> SignalTable {
        self.global_signals
    }

    pub open spec fn has_class(&self, c: ClassId) -> bool {
        c < self.classes().len()
    }

    /// `o` names an object that has not been reclaimed.
    pub open spec fn is_live(&self, o: ObjectRef) -> bool {
        o.index < self.objects().len() && self.objects()[o.index as int].payload is Some
    }

    /// The class of object `o`.
    pub open spec fn class_of(&self, o: ObjectRef) -> int {
        self.objects()[o.index as int].class as int
    }

    /// Whether `name` is bound to a global.
    pub open spec fn global_defined(&self, name: Seq<char>) -> bool {
        name_pos_from(self.globals(), name, 0) is Some
    }

    /// The runtime's invariant.
    pub open spec fn wf(&self) -> bool {
        &&& classes_wf(self.classes())
        &&& self.registry().wf()
        &&& forall|o: int|
            0 <= o < self.objects().len() ==> {
                &&& (#[trigger] self.objects()[o]).class < self.classes().len()
                &&& self.objects()[o].refs.wf()
            }
        &&& forall|c: int|
            0 <= c < self.classes().len() ==> (#[trigger] self.classes()[c]).instances == live_count(
                self.objects(),
                c,
            )
    }

    /// Everything is as in `old` except class `c`: the same objects, globals,
    /// registry and global signals, and the same classes at every other
    /// handle.
    pub open spec fn others_unchanged(&self, old: &Self, c: int) -> bool {
        &&& self.objects() == old.objects()
        &&& self.globals() == old.globals()
        &&& self.registry() == old.registry()
        &&& self.global_signals() == old.global_signals()
        &&& self.classes().len() == old.classes().len()
        &&& forall|d: int| 0 <= d < self.classes().len() && d != c ==> #[trigger] self.classes()[d]
            == old.classes()[d]
    }

    /// An empty runtime.
    pub fn new() -> (r: Runtime<P>)
        ensures
            r.wf(),
            r.classes().len() == 0,
            r.objects().len() == 0,
            r.globals().len() == 0,
            r.registry()@ == Map::<ValueRef, u64>::empty(),
            r.global_signals()@ == Seq::<(Seq<char>, HandlerRef)>::empty(),
    {
        Runtime {
            classes: Vec::new(),
            objects: Vec::new(),
            globals: Vec::new(),
            registry: RefTable::new(),
            global_signals: SignalTable::new(),
        }
    }

    /// Registers a class. Fails when its name is already a global, or when
    /// its parent is not a registered class. On success the class gets the
    /// next handle, with no properties, no signals, no miss handlers and no
    /// instances, and its name becomes a global.
    pub fn class_setup(&mut self, decl: ClassDecl) -> (r: Result<ClassId, RuntimeError>)
        requires
            old(self).wf(),
        ensures
            final(self).wf(),
            old(self).global_defined(decl.name@) ==> r == Err::<ClassId, RuntimeError>(
                RuntimeError::AlreadyDefined,
            ),
            !old(self).global_defined(decl.name@) && (decl.parent matches Some(p) && p >= old(
                self,
            ).classes().len()) ==> r == Err::<ClassId, RuntimeError>(RuntimeError::UnknownClass),
            r is Err ==> *final(self) == *old(self),
            r is Ok <==> !old(self).global_defined(decl.name@) && match decl.parent {
                Some(p) => p < old(self).classes().len(),
                None => true,
            },
            r matches Ok(c) ==> {
                &&& c == old(self).classes().len()
                &&& final(self).classes().len() == c + 1
                &&& forall|d: int|
                    0 <= d < c ==> #[trigger] final(self).classes()[d] == old(self).classes()[d]
                &&& final(self).classes()[c as int].name@ == decl.name@
                &&& final(self).classes()[c as int].parent == decl.parent
                &&& final(self).classes()[c as int].collector == decl.collector
                &&& final(self).classes()[c as int].checker == decl.checker
                &&& final(self).classes()[c as int].index_miss_property == decl.index_miss_property
                &&& final(self).classes()[c as int].newindex_miss_property
                    == decl.newindex_miss_property
                &&& final(self).classes()[c as int].methods@ == decl.methods@
                &&& final(self).classes()[c as int].properties@.len() == 0
                &&& final(self).classes()[c as int].signals@.len() == 0
                &&& final(self).classes()[c as int].index_miss_handler is None
                &&& final(self).classes()[c as int].newindex_miss_handler is None
                &&& final(self).classes()[c as int].instances == 0
                &&& names_view(final(self).globals()) == names_view(old(self).globals()).push(
                    decl.name@,
                )
                &&& final(self).objects() == old(self).objects()
                &&& final(self).registry() == old(self).registry()
                &&& final(self).global_signals() == old(self).global_signals()
            },
    {
        if find_name(&self.globals, &decl.name).is_some() {
            return Err(RuntimeError::AlreadyDefined);
        }
        match decl.parent {
            Some(p) => {
                if p >= self.classes.len() {
                    return Err(RuntimeError::UnknownClass);
                }
            },
            None => {},
        }
        let c = self.classes.len();
        let ClassDecl {
            name,
            parent,
            collector,
            checker,
            index_miss_property,
            newindex_miss_property,
            methods,
        } = decl;
        let global = name.clone();
        let class = Class {
            name,
            parent,
            collector,
            checker,
            index_miss_property,
            newindex_miss_property,
            methods,
            properties: Vec::new(),
            signals: SignalTable::new(),
            index_miss_handler: None,
            newindex_miss_handler: None,
            instances: 0,
        };
        self.classes.push(class);
        self.globals.push(global);
        proof {
            assert(names_view(self.globals@) =~= names_view(old(self).globals@).push(
                decl.name@,
            ));
            assert forall|d: int| 0 <= d < self.classes@.len() implies match (
            #[trigger] self.classes@[d]).parent {
                Some(p) => p < d,
                None => true,
            } by {
                if d < c {
                    assert(self.classes@[d] == old(self).classes@[d]);
                }
            };
            lemma_live_count_no_class(self.objects@, c as int);
            assert forall|d: int| 0 <= d < self.classes@.len() implies (
            #[trigger] self.classes@[d]).instances == live_count(self.objects@, d) by {
                if d < c {
                    assert(self.classes@[d] == old(self).classes@[d]);
                }
            };
        }
        Ok(c)
    }

    /// Binds a plain library table of methods to the global `name`. Fails
    /// when the name is already a global.
    pub fn register_methods(&mut self, name: &String) -> (r: Result<(), RuntimeError>)
        requires
            old(self).wf(),
        ensures
            final(self).wf(),
            r is Err <==> old(self).global_defined(name@),
            r is Err ==> r == Err::<(), RuntimeError>(RuntimeError::AlreadyDefined) && *final(self)
                == *old(self),
            r is Ok ==> names_view(final(self).globals()) == names_view(old(self).globals()).push(
                name@,
            ) && final(self).classes() == old(self).classes() && final(self).objects() == old(
                self,
            ).objects() && final(self).registry() == old(self).registry()
                && final(self).global_signals() == old(self).global_signals(),
    {
        if find_name(&self.globals, name).is_some() {
            return Err(RuntimeError::AlreadyDefined);
        }
        self.globals.push(name.clone());
        assert(names_view(self.globals@) =~= names_view(old(self).globals@).push(name@));
        Ok(())
    }

    /// Declares a property on class `c`. Fails when `c` is not a class or
    /// already declares a property called `name`.
    pub fn class_add_property(
        &mut self,
        c: ClassId,
        name: String,
        new: bool,
        index: bool,
        new_index: bool,
    ) -> (r: Result<(), RuntimeError>)
        requires
            old(self).wf(),
        ensures
            final(self).wf(),
            !old(self).has_class(c) ==> r == Err::<(), RuntimeError>(RuntimeError::UnknownClass),
            old(self).has_class(c) && prop_pos(old(self).classes()[c as int].properties@, name@)
                is Some ==> r == Err::<(), RuntimeError>(RuntimeError::PropertyDefined),
            r is Err ==> *final(self) == *old(self),
            r is Ok <==> old(self).has_class(c) && prop_pos(
                old(self).classes()[c as int].properties@,
                name@,
            ) is None,
            r is Ok ==> {
                &&& final(self).others_unchanged(old(self), c as int)
                &&& final(self).classes()[c as int].properties@.len() == old(
                    self,
                ).classes()[c as int].properties@.len() + 1
                &&& final(self).classes()[c as int].properties@.drop_last() == old(
                    self,
                ).classes()[c as int].properties@
                &&& final(self).classes()[c as int].properties@.last().name@ == name@
                &&& final(self).classes()[c as int].properties@.last().new == new
                &&& final(self).classes()[c as int].properties@.last().index == index
                &&& final(self).classes()[c as int].properties@.last().new_index == new_index
                &&& final(self).classes()[c as int].name == old(self).classes()[c as int].name
                &&& final(self).classes()[c as int].parent == old(self).classes()[c as int].parent
                &&& final(self).classes()[c as int].signals == old(self).classes()[c as int].signals
                &&& final(self).classes()[c as int].instances == old(
                    self,
                ).classes()[c as int].instances
                &&& final(self).classes()[c as int].index_miss_handler == old(
                    self,
                ).classes()[c as int].index_miss_handler
                &&& final(self).classes()[c as int].newindex_miss_handler == old(
                    self,
                ).classes()[c as int].newindex_miss_handler
                &&& final(self).classes()[c as int].index_miss_property == old(
                    self,
                ).classes()[c as int].index_miss_property
                &&& final(self).classes()[c as int].newindex_miss_property == old(
                    self,
                ).classes()[c as int].newindex_miss_property
                &&& final(self).classes()[c as int].checker == old(self).classes()[c as int].checker
                &&& final(self).classes()[c as int].methods == old(self).classes()[c as int].methods
                &&& final(self).classes()[c as int].collector == old(
                    self,
                ).classes()[c as int].collector
            },
    {
        if c >= self.classes.len() {
            return Err(RuntimeError::UnknownClass);
        }
        if find_property(&self.classes[c].properties, &name).is_some() {
            return Err(RuntimeError::PropertyDefined);
        }
        let prop = Property { name, new, index, new_index };
        self.classes[c].properties.push(prop);
        proof {
            assert(self.classes@[c as int].properties@.drop_last() =~= old(
                self,
            ).classes@[c as int].properties@);
            assert forall|d: int| 0 <= d < self.classes@.len() implies match (
            #[trigger] self.classes@[d]).parent {
                Some(p) => p < d,
                None => true,
            } by {
                if d != c {
                    assert(self.classes@[d] == old(self).classes@[d]);
                }
            };
            assert forall|d: int| 0 <= d < self.classes@.len() implies (
            #[trigger] self.classes@[d]).instances == live_count(self.objects@, d) by {
                if d != c {
                    assert(self.classes@[d] == old(self).classes@[d]);
                }
            };
        }
        Ok(())
    }

    /// Resolves property `name` as seen from class `c`: the class first, then
    /// its ancestors; yields the declaring class and the property's position.
    pub fn class_property_get(&self, c: ClassId, name: &String) -> (r: Result<
        Option<(ClassId, usize)>,
        RuntimeError,
    >)
        requires
            self.wf(),
        ensures
            !self.has_class(c) ==> r == Err::<Option<(ClassId, usize)>, RuntimeError>(
                RuntimeError::UnknownClass,
            ),
            self.has_class(c) ==> (r matches Ok(found) && match found {
                Some((d, i)) => resolve_property(self.classes(), c as int, name@) == Some(
                    (d as int, i as int),
                ),
                None => resolve_property(self.classes(), c as int, name@) is None,
            }),
    {
        if c >= self.classes.len() {
            return Err(RuntimeError::UnknownClass);
        }
        Ok(lookup_property(&self.classes, c, name))
    }

    /// The class of object `o`, read from its slot; none once reclaimed.
    pub fn class_get(&self, o: ObjectRef) -> (r: Option<ClassId>)
        requires
            self.wf(),
        ensures
            self.is_live(o) ==> r == Some(self.class_of(o) as ClassId),
            !self.is_live(o) ==> r is None,
    {
        if o.index < self.objects.len() && self.objects[o.index].payload.is_some() {
            Some(self.objects[o.index].class)
        } else {
            None
        }
    }

    /// The number of live instances of class `c`.
    pub fn instances(&self, c: ClassId) -> (r: Result<u64, RuntimeError>)
        requires
            self.wf(),
        ensures
            !self.has_class(c) ==> r == Err::<u64, RuntimeError>(RuntimeError::UnknownClass),
            self.has_class(c) ==> r == Ok::<u64, RuntimeError>(self.classes()[c as int].instances),
    {
        if c >= self.classes.len() {
            return Err(RuntimeError::UnknownClass);
        }
        Ok(self.classes[c].instances)
    }
}

/// `a` and `b` agree on everything but the instance counter.
pub open spec fn same_but_instances(a: Class, b: Class) -> bool {
    &&& a.name == b.name
    &&& a.parent == b.parent
    &&& a.collector == b.collector
    &&& a.checker == b.checker
    &&& a.index_miss_property == b.index_miss_property
    &&& a.newindex_miss_property == b.newindex_miss_property
    &&& a.methods == b.methods
    &&& a.properties == b.properties
    &&& a.signals == b.signals
    &&& a.index_miss_handler == b.index_miss_handler
    &&& a.newindex_miss_handler == b.newindex_miss_handler
}

/// Whether `slot` is a live object of class `c`.
pub open spec fn live_in(slot_class: ClassId, live: bool, c: int) -> nat {
    if slot_class == c && live {
        1
    } else {
        0
    }
}

impl<P> Runtime<P> {
    /// Constructs an object of class `c` holding `payload`, with constructor
    /// fields named `fields`. The object gets the next handle, an empty
    /// private signal table and environment, and counts as one more instance
    /// of `c`. The result lists the `new` callbacks that the fields trigger
    /// (in field order; each name resolved along the inheritance chain), and
    /// the handlers of the class-level `"new"` signal.
    pub fn class_new(&mut self, c: ClassId, fields: &Vec<String>, payload: P) -> (r: Result<
        Construction,
        RuntimeError,
    >)
        requires
            old(self).wf(),
        ensures
            final(self).wf(),
            !old(self).has_class(c) ==> r is Err && r->Err_0 == RuntimeError::UnknownClass,
            old(self).has_class(c) && old(self).classes()[c as int].instances == u64::MAX ==> r is Err
                && r->Err_0 == RuntimeError::TooManyInstances,
            r is Err ==> *final(self) == *old(self),
            r is Ok <==> old(self).has_class(c) && old(self).classes()[c as int].instances < u64::MAX,
            r matches Ok(k) ==> {
                &&& k.object.index == old(self).objects().len()
                &&& final(self).objects().len() == old(self).objects().len() + 1
                &&& final(self).objects().drop_last() == old(self).objects()
                &&& final(self).objects().last().class == c
                &&& final(self).objects().last().payload == Some(payload)
                &&& final(self).objects().last().signals@.len() == 0
                &&& final(self).objects().last().refs@ == Map::<ValueRef, u64>::empty()
                &&& final(self).is_live(k.object)
                &&& made_count(final(self).objects(), c as int) == made_count(old(self).objects(), c as int) + 1
                &&& collected_count(final(self).objects(), c as int) == collected_count(
                    old(self).objects(),
                    c as int,
                )
                &&& final(self).classes().len() == old(self).classes().len()
                &&& final(self).classes()[c as int].instances == old(
                    self,
                ).classes()[c as int].instances + 1
                &&& same_but_instances(final(self).classes()[c as int], old(self).classes()[c as int])
                &&& forall|d: int|
                    0 <= d < old(self).classes().len() && d != c ==> #[trigger] final(self).classes()[d] == old(self).classes()[d]
                &&& final(self).globals() == old(self).globals()
                &&& final(self).registry() == old(self).registry()
                &&& final(self).global_signals() == old(self).global_signals()
                &&& k.setters@ == setter_plan(old(self).classes(), c as int, names_view(fields@))
                &&& k.new_handlers@ == class_handlers(old(self).classes(), c as int, "new"@)
            },
    {
        if c >= self.classes.len() {
            return Err(RuntimeError::UnknownClass);
        }
        if self.classes[c].instances == u64::MAX {
            return Err(RuntimeError::TooManyInstances);
        }
        let setters = self.plan_setters(c, fields);
        let new_name = "new".to_owned();
        let new_handlers = class_signal_handlers(&self.classes, c, &new_name);
        let index = self.objects.len();
        let slot = ObjectSlot { class: c, payload: Some(payload), signals: SignalTable::new(), refs: RefTable::new() };
        self.objects.push(slot);
        self.classes[c].instances = self.classes[c].instances + 1;
        proof {
            assert(self.objects@.drop_last() =~= old(self).objects@);
            assert forall|d: int| 0 <= d < self.classes@.len() implies match (
            #[trigger] self.classes@[d]).parent {
                Some(p) => p < d,
                None => true,
            } by {
                if d != c {
                    assert(self.classes@[d] == old(self).classes@[d]);
                }
            };
            assert forall|d: int| 0 <= d < self.classes@.len() implies (
            #[trigger] self.classes@[d]).instances == live_count(self.objects@, d) by {
                if d != c {
                    assert(self.classes@[d] == old(self).classes@[d]);
                }
            };
            assert forall|o: int| 0 <= o < self.objects@.len() implies {
                &&& (#[trigger] self.objects@[o]).class < self.classes@.len()
                &&& self.objects@[o].refs.wf()
            } by {
                if o < index {
                    assert(self.objects@[o] == old(self).objects@[o]);
                }
            };
        }
        Ok(Construction { object: ObjectRef { index }, setters, new_handlers })
    }

    /// The `new` callbacks that `fields` trigger on class `c`, in field order.
    fn plan_setters(&self, c: ClassId, fields: &Vec<String>) -> (r: Vec<Setter>)
        requires
            self.wf(),
            self.has_class(c),
        ensures
            r@ == setter_plan(self.classes(), c as int, names_view(fields@)),
    {
        let ghost names = names_view(fields@);
        let mut r: Vec<Setter> = Vec::new();
        let mut i: usize = 0;
        while i < fields.len()
            invariant
                self.wf(),
                self.has_class(c),
                0 <= i <= fields.len(),
                names == names_view(fields@),
                r@ == setter_plan(self.classes(), c as int, names.take(i as int)),
            decreases fields.len() - i,
        {
            proof {
                assert(names.take(i as int + 1).drop_last() =~= names.take(i as int));
                assert(names.take(i as int + 1).last() == fields@[i as int]@);
            }
            match lookup_property(&self.classes, c, &fields[i]) {
                Some((d, j)) => {
                    if self.classes[d].properties[j].new {
                        r.push(Setter { field: i, class: d, property: j });
                    }
                },
                None => {},
            }
            i = i + 1;
        }
        assert(names.take(i as int) =~= names);
        r
    }

    /// Reclaims object `o`: clears its signals and environment, drops its
    /// payload, counts one instance fewer, and returns the classes whose
    /// collector must run on it, most-derived first. Any later access through
    /// `o` is refused. Fails when `o` is not a live object.
    pub fn class_gc(&mut self, o: ObjectRef) -> (r: Result<Vec<ClassId>, RuntimeError>)
        requires
            old(self).wf(),
        ensures
            final(self).wf(),
            r is Err <==> !old(self).is_live(o),
            r is Err ==> r->Err_0 == RuntimeError::InvalidObject && *final(self) == *old(self),
            r matches Ok(cs) ==> {
                let c = old(self).class_of(o);
                &&& cs@ == collectors(old(self).classes(), c)
                &&& !final(self).is_live(o)
                &&& made_count(final(self).objects(), c) == made_count(old(self).objects(), c)
                &&& collected_count(final(self).objects(), c) == collected_count(
                    old(self).objects(),
                    c,
                ) + 1
                &&& final(self).objects().len() == old(self).objects().len()
                &&& final(self).objects()[o.index as int].class == c
                &&& final(self).objects()[o.index as int].signals@.len() == 0
                &&& final(self).objects()[o.index as int].refs@ == Map::<ValueRef, u64>::empty()
                &&& forall|i: int|
                    0 <= i < old(self).objects().len() && i != o.index ==> #[trigger] final(self).objects()[i] == old(self).objects()[i]
                &&& final(self).classes().len() == old(self).classes().len()
                &&& final(self).classes()[c].instances == old(self).classes()[c].instances - 1
                &&& same_but_instances(final(self).classes()[c], old(self).classes()[c])
                &&& forall|d: int|
                    0 <= d < old(self).classes().len() && d != c ==> #[trigger] final(self).classes()[d] == old(self).classes()[d]
                &&& final(self).globals() == old(self).globals()
                &&& final(self).registry() == old(self).registry()
                &&& final(self).global_signals() == old(self).global_signals()
            },
    {
        if o.index >= self.objects.len() || self.objects[o.index].payload.is_none() {
            return Err(RuntimeError::InvalidObject);
        }
        let c = self.objects[o.index].class;
        let i = o.index;
        let cs = collector_chain(&self.classes, c);
        let ghost before = self.objects@;
        self.objects[i].payload = None;
        self.objects[i].signals.clear();
        self.objects[i].refs.clear();
        proof {
            assert(self.objects@ =~= before.update(i as int, self.objects@[i as int]));
            assert forall|d: int| #![auto] 0 <= d < self.classes@.len() implies live_count(self.objects@, d)
                == live_count(before, d) - live_in(before[i as int].class, true, d) + live_in(
                c,
                false,
                d,
            ) by {
                lemma_live_count_update(before, i as int, self.objects@[i as int], d);
            };
            assert(live_count(self.objects@, c as int) == live_count(before, c as int) - 1);
            lemma_made_collected_update(before, i as int, self.objects@[i as int], c as int);
        }
        self.classes[c].instances = self.classes[c].instances - 1;
        proof {
            assert forall|d: int| 0 <= d < self.classes@.len() implies match (
            #[trigger] self.classes@[d]).parent {
                Some(p) => p < d,
                None => true,
            } by {
                if d != c {
                    assert(self.classes@[d] == old(self).classes@[d]);
                }
            };
            assert forall|d: int| 0 <= d < self.classes@.len() implies (
            #[trigger] self.classes@[d]).instances == live_count(self.objects@, d) by {
                lemma_live_count_update(before, i as int, self.objects@[i as int], d);
                if d != c {
                    assert(self.classes@[d] == old(self).classes@[d]);
                }
            };
            assert forall|j: int| 0 <= j < self.objects@.len() implies {
                &&& (#[trigger] self.objects@[j]).class < self.classes@.len()
                &&& self.objects@[j].refs.wf()
            } by {
                if j != i {
                    assert(self.objects@[j] == old(self).objects@[j]);
                }
            };
        }
        Ok(cs)
    }
}

impl<P> Runtime<P> {
    /// What reading `field` of object `o` comes to. `valid` works on every
    /// handle; every other name needs a live object. `data` is the private
    /// environment's table. Other names resolve along the inheritance chain;
    /// a name that resolves nowhere goes to the class's script-side miss
    /// handler when there is one, else to its native miss fallback.
    pub open spec fn index_outcome(&self, o: ObjectRef, field: Seq<char>) -> Result<
        IndexOutcome,
        RuntimeError,
    > {
        let c = self.class_of(o);
        if field == "valid"@ {
            if !self.is_live(o) {
                Ok(IndexOutcome::Valid(false))
            } else if self.classes()[c].checker {
                Ok(IndexOutcome::CheckValid(c as ClassId))
            } else {
                Ok(IndexOutcome::Valid(true))
            }
        } else if !self.is_live(o) {
            Err(RuntimeError::InvalidObject)
        } else if field == "data"@ {
            Ok(IndexOutcome::Data)
        } else {
            match resolve_property(self.classes(), c, field) {
                Some((d, j)) => if self.classes()[d].properties@[j].index {
                    Ok(IndexOutcome::Getter { class: d as ClassId, property: j as usize })
                } else {
                    Ok(IndexOutcome::NoGetter)
                },
                None => match self.classes()[c].index_miss_handler {
                    Some(h) => Ok(IndexOutcome::MissHandler(h)),
                    None => if self.classes()[c].index_miss_property {
                        Ok(IndexOutcome::MissProperty(c as ClassId))
                    } else {
                        Ok(IndexOutcome::Unhandled)
                    },
                },
            }
        }
    }

    /// What writing `field` of object `o` comes to; the object must be live.
    pub open spec fn newindex_outcome(&self, o: ObjectRef, field: Seq<char>) -> Result<
        NewIndexOutcome,
        RuntimeError,
    > {
        let c = self.class_of(o);
        if !self.is_live(o) {
            Err(RuntimeError::InvalidObject)
        } else {
            match resolve_property(self.classes(), c, field) {
                Some((d, j)) => if self.classes()[d].properties@[j].new_index {
                    Ok(NewIndexOutcome::Setter { class: d as ClassId, property: j as usize })
                } else {
                    Ok(NewIndexOutcome::NoSetter)
                },
                None => match self.classes()[c].newindex_miss_handler {
                    Some(h) => Ok(NewIndexOutcome::MissHandler(h)),
                    None => if self.classes()[c].newindex_miss_property {
                        Ok(NewIndexOutcome::MissProperty(c as ClassId))
                    } else {
                        Ok(NewIndexOutcome::Unhandled)
                    },
                },
            }
        }
    }

    /// Reads `field` of object `o`.
    pub fn class_index(&self, o: ObjectRef, field: &String) -> (r: Result<IndexOutcome, RuntimeError>)
        requires
            self.wf(),
        ensures
            r == self.index_outcome(o, field@),
    {
        let valid = "valid".to_owned();
        let live = o.index < self.objects.len() && self.objects[o.index].payload.is_some();
        if *field == valid {
            if !live {
                return Ok(IndexOutcome::Valid(false));
            }
            let c = self.objects[o.index].class;
            if self.classes[c].checker {
                return Ok(IndexOutcome::CheckValid(c));
            }
            return Ok(IndexOutcome::Valid(true));
        }
        if !live {
            return Err(RuntimeError::InvalidObject);
        }
        let data = "data".to_owned();
        if *field == data {
            return Ok(IndexOutcome::Data);
        }
        let c = self.objects[o.index].class;
        match lookup_property(&self.classes, c, field) {
            Some((d, j)) => {
                if self.classes[d].properties[j].index {
                    Ok(IndexOutcome::Getter { class: d, property: j })
                } else {
                    Ok(IndexOutcome::NoGetter)
                }
            },
            None => match self.classes[c].index_miss_handler {
                Some(h) => Ok(IndexOutcome::MissHandler(h)),
                None => {
                    if self.classes[c].index_miss_property {
                        Ok(IndexOutcome::MissProperty(c))
                    } else {
                        Ok(IndexOutcome::Unhandled)
                    }
                },
            },
        }
    }

    /// Writes `field` of object `o`.
    pub fn class_newindex(&self, o: ObjectRef, field: &String) -> (r: Result<NewIndexOutcome, RuntimeError>)
        requires
            self.wf(),
        ensures
            r == self.newindex_outcome(o, field@),
    {
        if o.index >= self.objects.len() || self.objects[o.index].payload.is_none() {
            return Err(RuntimeError::InvalidObject);
        }
        let c = self.objects[o.index].class;
        match lookup_property(&self.classes, c, field) {
            Some((d, j)) => {
                if self.classes[d].properties[j].new_index {
                    Ok(NewIndexOutcome::Setter { class: d, property: j })
                } else {
                    Ok(NewIndexOutcome::NoSetter)
                }
            },
            None => match self.classes[c].newindex_miss_handler {
                Some(h) => Ok(NewIndexOutcome::MissHandler(h)),
                None => {
                    if self.classes[c].newindex_miss_property {
                        Ok(NewIndexOutcome::MissProperty(c))
                    } else {
                        Ok(NewIndexOutcome::Unhandled)
                    }
                },
            },
        }
    }

    /// Looks up `method` in the method table of the object's own class (no
    /// inheritance) and returns its position there.
    pub fn call_method(&self, o: ObjectRef, method: &String) -> (r: Result<usize, RuntimeError>)
        requires
            self.wf(),
        ensures
            !self.is_live(o) ==> r == Err::<usize, RuntimeError>(RuntimeError::InvalidObject),
            self.is_live(o) ==> match name_pos_from(
                self.classes()[self.class_of(o)].methods@,
                method@,
                0,
            ) {
                Some(i) => r == Ok::<usize, RuntimeError>(i as usize),
                None => r == Err::<usize, RuntimeError>(RuntimeError::NoSuchMethod),
            },
    {
        if o.index >= self.objects.len() || self.objects[o.index].payload.is_none() {
            return Err(RuntimeError::InvalidObject);
        }
        let c = self.objects[o.index].class;
        match find_name(&self.classes[c].methods, method) {
            Some(i) => Ok(i),
            None => Err(RuntimeError::NoSuchMethod),
        }
    }

    /// The handlers that emitting `name` on object `o` invokes: the object's
    /// own, then those of its class (resolved along the inheritance chain).
    /// Both lists are snapshots taken before any handler runs.
    pub fn object_emit_signal(&self, o: ObjectRef, name: &String) -> (r: Result<Emission, RuntimeError>)
        requires
            self.wf(),
        ensures
            r is Err <==> !self.is_live(o),
            r is Err ==> r->Err_0 == RuntimeError::InvalidObject,
            r matches Ok(e) ==> e.object_handlers@ == self.objects()[o.index as int].signals.handlers(
                name@,
            ) && e.class_handlers@ == class_handlers(self.classes(), self.class_of(o), name@)
                && e.check == if self.classes()[self.class_of(o)].checker {
                Some(self.class_of(o) as ClassId)
            } else {
                None
            },
    {
        if o.index >= self.objects.len() || self.objects[o.index].payload.is_none() {
            return Err(RuntimeError::InvalidObject);
        }
        let c = self.objects[o.index].class;
        let object_handlers = self.objects[o.index].signals.snapshot(name);
        let class_handlers = class_signal_handlers(&self.classes, c, name);
        let check = if self.classes[c].checker {
            Some(c)
        } else {
            None
        };
        Ok(Emission { check, object_handlers, class_handlers })
    }

    /// The handlers that emitting `name` on class `c` invokes, resolved along
    /// the inheritance chain; a snapshot taken before any handler runs.
    pub fn class_emit_signal(&self, c: ClassId, name: &String) -> (r: Result<Vec<HandlerRef>, RuntimeError>)
        requires
            self.wf(),
        ensures
            r is Err <==> !self.has_class(c),
            r is Err ==> r->Err_0 == RuntimeError::UnknownClass,
            r matches Ok(hs) ==> hs@ == class_handlers(self.classes(), c as int, name@),
    {
        if c >= self.classes.len() {
            return Err(RuntimeError::UnknownClass);
        }
        Ok(class_signal_handlers(&self.classes, c, name))
    }

    /// Only slot `i` differs between `self` and `old`, and there only in
    /// its signals, environment and payload value.
    pub open spec fn slot_changed(&self, old: &Self, i: int) -> bool {
        &&& self.classes() == old.classes()
        &&& self.globals() == old.globals()
        &&& self.registry() == old.registry()
        &&& self.global_signals() == old.global_signals()
        &&& self.objects().len() == old.objects().len()
        &&& 0 <= i < old.objects().len()
        &&& self.objects()[i].class == old.objects()[i].class
        &&& (self.objects()[i].payload is Some) == (old.objects()[i].payload is Some)
        &&& forall|j: int|
            0 <= j < old.objects().len() && j != i ==> #[trigger] self.objects()[j]
                == old.objects()[j]
    }

    /// Connects `handler` to signal `name` of object `o`, and keeps the
    /// handler alive through the object's environment.
    pub fn object_connect_signal(&mut self, o: ObjectRef, name: &String, handler: HandlerRef) -> (r:
        Result<(), RuntimeError>)
        requires
            old(self).wf(),
        ensures
            final(self).wf(),
            !old(self).is_live(o) ==> r == Err::<(), RuntimeError>(RuntimeError::InvalidObject),
            old(self).is_live(o) && old(self).objects()[o.index as int].refs.count_of(handler)
                == u64::MAX ==> r == Err::<(), RuntimeError>(RuntimeError::TooManyReferences),
            r is Err ==> *final(self) == *old(self),
            r is Ok <==> old(self).is_live(o) && old(self).objects()[o.index as int].refs.count_of(
                handler,
            ) < u64::MAX,
            r is Ok ==> {
                let i = o.index as int;
                &&& final(self).slot_changed(old(self), i)
                &&& final(self).objects()[i].payload == old(self).objects()[i].payload
                &&& final(self).objects()[i].signals@ == old(self).objects()[i].signals@.push(
                    (name@, handler),
                )
                &&& final(self).objects()[i].signals.handlers(name@) == old(
                    self,
                ).objects()[i].signals.handlers(name@).push(handler)
                &&& final(self).objects()[i].refs.count_of(handler) == old(
                    self,
                ).objects()[i].refs.count_of(handler) + 1
                &&& final(self).objects()[i].refs@ == old(self).objects()[i].refs@.insert(
                    handler,
                    (old(self).objects()[i].refs.count_of(handler) + 1) as u64,
                )
            },
    {
        if o.index >= self.objects.len() || self.objects[o.index].payload.is_none() {
            return Err(RuntimeError::InvalidObject);
        }
        let i = o.index;
        if self.objects[i].refs.count(handler) == u64::MAX {
            return Err(RuntimeError::TooManyReferences);
        }
        self.objects[i].refs.incref(handler);
        self.objects[i].signals.connect(name, handler);
        proof {
            lemma_slot_changed_wf(old(self), self, i as int);
        }
        Ok(())
    }

    /// Disconnects the first connection of `handler` to signal `name` of
    /// object `o`, and drops the reference it held. Reports how many
    /// connections were removed.
    pub fn object_disconnect_signal(&mut self, o: ObjectRef, name: &String, handler: HandlerRef) -> (r:
        Result<usize, RuntimeError>)
        requires
            old(self).wf(),
        ensures
            final(self).wf(),
            r is Err <==> !old(self).is_live(o),
            r is Err ==> r->Err_0 == RuntimeError::InvalidObject && *final(self) == *old(self),
            r matches Ok(n) ==> {
                let i = o.index as int;
                let before = old(self).objects()[i];
                let after = final(self).objects()[i];
                &&& final(self).slot_changed(old(self), i)
                &&& after.payload == before.payload
                &&& (n == 1) == before.signals.handlers(name@).contains(handler)
                &&& (n == 0) == !before.signals.handlers(name@).contains(handler)
                &&& after.signals@ == crate::signal::disconnected(before.signals@, name@, handler)
                &&& after.signals.handlers(name@) == crate::signal::remove_first(
                    before.signals.handlers(name@),
                    handler,
                )
                &&& n == 1 ==> after.refs.count_of(handler) == if before.refs.count_of(handler)
                    == 0 {
                    0
                } else {
                    (before.refs.count_of(handler) - 1) as nat
                }
                &&& n == 0 ==> after.refs == before.refs
            },
    {
        if o.index >= self.objects.len() || self.objects[o.index].payload.is_none() {
            return Err(RuntimeError::InvalidObject);
        }
        let i = o.index;
        let n = self.objects[i].signals.disconnect(name, handler);
        if n == 1 {
            self.objects[i].refs.decref(handler);
        }
        proof {
            lemma_slot_changed_wf(old(self), self, i as int);
        }
        Ok(n)
    }

    /// Keeps value `v` alive through the environment of object `o`.
    pub fn object_ref_item(&mut self, o: ObjectRef, v: ValueRef) -> (r: Result<ValueRef, RuntimeError>)
        requires
            old(self).wf(),
        ensures
            final(self).wf(),
            !old(self).is_live(o) ==> r == Err::<ValueRef, RuntimeError>(RuntimeError::InvalidObject),
            old(self).is_live(o) && old(self).objects()[o.index as int].refs.count_of(v) == u64::MAX
                ==> r == Err::<ValueRef, RuntimeError>(RuntimeError::TooManyReferences),
            r is Err ==> *final(self) == *old(self),
            r is Ok <==> old(self).is_live(o) && old(self).objects()[o.index as int].refs.count_of(v)
                < u64::MAX,
            r is Ok ==> {
                let i = o.index as int;
                &&& r == Ok::<ValueRef, RuntimeError>(v)
                &&& final(self).slot_changed(old(self), i)
                &&& final(self).objects()[i].payload == old(self).objects()[i].payload
                &&& final(self).objects()[i].signals == old(self).objects()[i].signals
                &&& final(self).objects()[i].refs@ == old(self).objects()[i].refs@.insert(
                    v,
                    (old(self).objects()[i].refs.count_of(v) + 1) as u64,
                )
            },
    {
        if o.index >= self.objects.len() || self.objects[o.index].payload.is_none() {
            return Err(RuntimeError::InvalidObject);
        }
        let i = o.index;
        if self.objects[i].refs.count(v) == u64::MAX {
            return Err(RuntimeError::TooManyReferences);
        }
        let h = self.objects[i].refs.incref(v);
        proof {
            lemma_slot_changed_wf(old(self), self, i as int);
        }
        Ok(h)
    }

    /// Drops one reference to `v` held by the environment of object `o`.
    pub fn object_unref_item(&mut self, o: ObjectRef, v: ValueRef) -> (r: Result<Decref, RuntimeError>)
        requires
            old(self).wf(),
        ensures
            final(self).wf(),
            r is Err <==> !old(self).is_live(o),
            r is Err ==> r->Err_0 == RuntimeError::InvalidObject && *final(self) == *old(self),
            r matches Ok(d) ==> {
                let i = o.index as int;
                let before = old(self).objects()[i].refs;
                let after = final(self).objects()[i].refs;
                &&& final(self).slot_changed(old(self), i)
                &&& final(self).objects()[i].payload == old(self).objects()[i].payload
                &&& final(self).objects()[i].signals == old(self).objects()[i].signals
                &&& before.count_of(v) == 0 ==> d == Decref::NotFound && after@ == before@
                &&& before.count_of(v) == 1 ==> d == Decref::Released && after@ == before@.remove(v)
                &&& before.count_of(v) > 1 ==> d == Decref::Remaining((before.count_of(v) - 1) as u64)
                    && after@ == before@.insert(v, (before.count_of(v) - 1) as u64)
            },
    {
        if o.index >= self.objects.len() || self.objects[o.index].payload.is_none() {
            return Err(RuntimeError::InvalidObject);
        }
        let i = o.index;
        let d = self.objects[i].refs.decref(v);
        proof {
            lemma_slot_changed_wf(old(self), self, i as int);
        }
        Ok(d)
    }

    /// The payload of object `o`, unless it was reclaimed.
    pub fn payload(&self, o: ObjectRef) -> (r: Option<&P>)
        requires
            self.wf(),
        ensures
            !self.is_live(o) ==> r is None,
            self.is_live(o) ==> (r matches Some(p) && Some(*p) == self.objects()[o.index as int].payload),
    {
        if o.index >= self.objects.len() {
            return None;
        }
        match &self.objects[o.index].payload {
            Some(p) => Some(p),
            None => None,
        }
    }

    /// Replaces the payload of live object `o`.
    pub fn set_payload(&mut self, o: ObjectRef, payload: P) -> (r: Result<(), RuntimeError>)
        requires
            old(self).wf(),
        ensures
            final(self).wf(),
            r is Err <==> !old(self).is_live(o),
            r is Err ==> r->Err_0 == RuntimeError::InvalidObject && *final(self) == *old(self),
            r is Ok ==> {
                let i = o.index as int;
                &&& final(self).slot_changed(old(self), i)
                &&& final(self).objects()[i].payload == Some(payload)
                &&& final(self).objects()[i].signals == old(self).objects()[i].signals
                &&& final(self).objects()[i].refs == old(self).objects()[i].refs
            },
    {
        if o.index >= self.objects.len() || self.objects[o.index].payload.is_none() {
            return Err(RuntimeError::InvalidObject);
        }
        let i = o.index;
        self.objects[i].payload = Some(payload);
        proof {
            lemma_slot_changed_wf(old(self), self, i as int);
        }
        Ok(())
    }
}

impl<P> Runtime<P> {
    /// Only class `c` differs between `self` and `old` (besides the
    /// registry), keeping its parent and its instance count.
    pub open spec fn class_changed(&self, old: &Self, c: int) -> bool {
        &&& self.objects() == old.objects()
        &&& self.globals() == old.globals()
        &&& self.global_signals() == old.global_signals()
        &&& self.classes().len() == old.classes().len()
        &&& 0 <= c < old.classes().len()
        &&& self.classes()[c].parent == old.classes()[c].parent
        &&& self.classes()[c].instances == old.classes()[c].instances
        &&& forall|d: int|
            0 <= d < old.classes().len() && d != c ==> #[trigger] self.classes()[d]
                == old.classes()[d]
    }

    /// Connects `handler` to the class-level signal `name` of class `c`, and
    /// keeps the handler alive through the registry.
    pub fn class_connect_signal(&mut self, c: ClassId, name: &String, handler: HandlerRef) -> (r:
        Result<(), RuntimeError>)
        requires
            old(self).wf(),
        ensures
            final(self).wf(),
            !old(self).has_class(c) ==> r == Err::<(), RuntimeError>(RuntimeError::UnknownClass),
            old(self).has_class(c) && old(self).registry().count_of(handler) == u64::MAX ==> r
                == Err::<(), RuntimeError>(RuntimeError::TooManyReferences),
            r is Err ==> *final(self) == *old(self),
            r is Ok <==> old(self).has_class(c) && old(self).registry().count_of(handler) < u64::MAX,
            r is Ok ==> {
                let k = c as int;
                &&& final(self).class_changed(old(self), k)
                &&& same_but_signals(final(self).classes()[k], old(self).classes()[k])
                &&& final(self).classes()[k].signals@ == old(self).classes()[k].signals@.push(
                    (name@, handler),
                )
                &&& final(self).classes()[k].signals.handlers(name@) == old(
                    self,
                ).classes()[k].signals.handlers(name@).push(handler)
                &&& final(self).registry()@ == old(self).registry()@.insert(
                    handler,
                    (old(self).registry().count_of(handler) + 1) as u64,
                )
            },
    {
        if c >= self.classes.len() {
            return Err(RuntimeError::UnknownClass);
        }
        if self.registry.count(handler) == u64::MAX {
            return Err(RuntimeError::TooManyReferences);
        }
        self.registry.incref(handler);
        self.classes[c].signals.connect(name, handler);
        proof {
            lemma_class_changed_wf(old(self), self, c as int);
        }
        Ok(())
    }

    /// Disconnects the first connection of `handler` to the class-level
    /// signal `name` of class `c`, and drops the registry reference it held.
    /// Reports how many connections were removed.
    pub fn class_disconnect_signal(&mut self, c: ClassId, name: &String, handler: HandlerRef) -> (r:
        Result<usize, RuntimeError>)
        requires
            old(self).wf(),
        ensures
            final(self).wf(),
            r is Err <==> !old(self).has_class(c),
            r is Err ==> r->Err_0 == RuntimeError::UnknownClass && *final(self) == *old(self),
            r matches Ok(n) ==> {
                let k = c as int;
                let before = old(self).classes()[k].signals;
                let after = final(self).classes()[k].signals;
                &&& final(self).class_changed(old(self), k)
                &&& same_but_signals(final(self).classes()[k], old(self).classes()[k])
                &&& (n == 1) == before.handlers(name@).contains(handler)
                &&& (n == 0) == !before.handlers(name@).contains(handler)
                &&& after@ == crate::signal::disconnected(before@, name@, handler)
                &&& after.handlers(name@) == crate::signal::remove_first(
                    before.handlers(name@),
                    handler,
                )
                &&& n == 1 ==> final(self).registry().count_of(handler) == if old(
                    self,
                ).registry().count_of(handler) == 0 {
                    0
                } else {
                    (old(self).registry().count_of(handler) - 1) as nat
                }
                &&& n == 0 ==> final(self).registry() == old(self).registry()
            },
    {
        if c >= self.classes.len() {
            return Err(RuntimeError::UnknownClass);
        }
        let n = self.classes[c].signals.disconnect(name, handler);
        if n == 1 {
            self.registry.decref(handler);
        }
        proof {
            lemma_class_changed_wf(old(self), self, c as int);
        }
        Ok(n)
    }

    /// Sets (or, with `None`, removes) the script-side handler that class
    /// `c` calls when a read resolves to no property.
    pub fn set_index_miss_handler(&mut self, c: ClassId, handler: Option<HandlerRef>) -> (r: Result<
        (),
        RuntimeError,
    >)
        requires
            old(self).wf(),
        ensures
            final(self).wf(),
            r is Err <==> !old(self).has_class(c),
            r is Err ==> r->Err_0 == RuntimeError::UnknownClass && *final(self) == *old(self),
            r is Ok ==> {
                let k = c as int;
                &&& final(self).class_changed(old(self), k)
                &&& final(self).registry() == old(self).registry()
                &&& final(self).classes()[k].index_miss_handler == handler
                &&& final(self).classes()[k].newindex_miss_handler == old(
                    self,
                ).classes()[k].newindex_miss_handler
                &&& same_but_miss_handlers(final(self).classes()[k], old(self).classes()[k])
            },
    {
        if c >= self.classes.len() {
            return Err(RuntimeError::UnknownClass);
        }
        self.classes[c].index_miss_handler = handler;
        proof {
            lemma_class_changed_wf(old(self), self, c as int);
        }
        Ok(())
    }

    /// Sets (or, with `None`, removes) the script-side handler that class
    /// `c` calls when a write resolves to no property.
    pub fn set_newindex_miss_handler(&mut self, c: ClassId, handler: Option<HandlerRef>) -> (r:
        Result<(), RuntimeError>)
        requires
            old(self).wf(),
        ensures
            final(self).wf(),
            r is Err <==> !old(self).has_class(c),
            r is Err ==> r->Err_0 == RuntimeError::UnknownClass && *final(self) == *old(self),
            r is Ok ==> {
                let k = c as int;
                &&& final(self).class_changed(old(self), k)
                &&& final(self).registry() == old(self).registry()
                &&& final(self).classes()[k].newindex_miss_handler == handler
                &&& final(self).classes()[k].index_miss_handler == old(
                    self,
                ).classes()[k].index_miss_handler
                &&& same_but_miss_handlers(final(self).classes()[k], old(self).classes()[k])
            },
    {
        if c >= self.classes.len() {
            return Err(RuntimeError::UnknownClass);
        }
        self.classes[c].newindex_miss_handler = handler;
        proof {
            lemma_class_changed_wf(old(self), self, c as int);
        }
        Ok(())
    }

    /// Keeps value `v` alive through the registry.
    pub fn object_ref(&mut self, v: ValueRef) -> (r: Result<ValueRef, RuntimeError>)
        requires
            old(self).wf(),
        ensures
            final(self).wf(),
            r is Err <==> old(self).registry().count_of(v) == u64::MAX,
            r is Err ==> r->Err_0 == RuntimeError::TooManyReferences && *final(self) == *old(self),
            r is Ok ==> r == Ok::<ValueRef, RuntimeError>(v) && final(self).registry()@ == old(
                self,
            ).registry()@.insert(v, (old(self).registry().count_of(v) + 1) as u64)
                && final(self).classes() == old(self).classes() && final(self).objects() == old(
                self,
            ).objects() && final(self).globals() == old(self).globals()
                && final(self).global_signals() == old(self).global_signals(),
    {
        if self.registry.count(v) == u64::MAX {
            return Err(RuntimeError::TooManyReferences);
        }
        Ok(self.registry.incref(v))
    }

    /// Drops one registry reference to `v`.
    pub fn object_unref(&mut self, v: ValueRef) -> (r: Decref)
        requires
            old(self).wf(),
        ensures
            final(self).wf(),
            final(self).classes() == old(self).classes(),
            final(self).objects() == old(self).objects(),
            final(self).globals() == old(self).globals(),
            final(self).global_signals() == old(self).global_signals(),
            old(self).registry().count_of(v) == 0 ==> r == Decref::NotFound && final(self).registry()@ == old(self).registry()@,
            old(self).registry().count_of(v) == 1 ==> r == Decref::Released && final(self).registry()@ == old(self).registry()@.remove(v),
            old(self).registry().count_of(v) > 1 ==> r == Decref::Remaining(
                (old(self).registry().count_of(v) - 1) as u64,
            ) && final(self).registry()@ == old(self).registry()@.insert(
                v,
                (old(self).registry().count_of(v) - 1) as u64,
            ),
    {
        self.registry.decref(v)
    }

    /// Connects `handler` to the process-wide signal `name`.
    pub fn global_connect_signal(&mut self, name: &String, handler: HandlerRef)
        requires
            old(self).wf(),
        ensures
            final(self).wf(),
            final(self).global_signals()@ == old(self).global_signals()@.push((name@, handler)),
            final(self).classes() == old(self).classes(),
            final(self).objects() == old(self).objects(),
            final(self).globals() == old(self).globals(),
            final(self).registry() == old(self).registry(),
    {
        self.global_signals.connect(name, handler);
    }

    /// Disconnects the first connection of `handler` to the process-wide
    /// signal `name`; reports how many connections were removed.
    pub fn global_disconnect_signal(&mut self, name: &String, handler: HandlerRef) -> (removed: usize)
        requires
            old(self).wf(),
        ensures
            final(self).wf(),
            final(self).global_signals()@ == crate::signal::disconnected(
                old(self).global_signals()@,
                name@,
                handler,
            ),
            removed == 1 <==> old(self).global_signals().handlers(name@).contains(handler),
            removed == 0 <==> !old(self).global_signals().handlers(name@).contains(handler),
            final(self).classes() == old(self).classes(),
            final(self).objects() == old(self).objects(),
            final(self).globals() == old(self).globals(),
            final(self).registry() == old(self).registry(),
    {
        self.global_signals.disconnect(name, handler)
    }

    /// The native index-miss fallback: the handlers of the diagnostic signal
    /// `debug::index::miss`, to be called with the object and the field name.
    pub fn class_index_miss_property(&self) -> (r: Vec<HandlerRef>)
        ensures
            r@ == self.global_signals().handlers("debug::index::miss"@),
    {
        let name = "debug::index::miss".to_owned();
        self.global_signals.snapshot(&name)
    }

    /// The native newindex-miss fallback: the handlers of the diagnostic
    /// signal `debug::newindex::miss`, to be called with the object, the
    /// field name and the value.
    pub fn class_newindex_miss_property(&self) -> (r: Vec<HandlerRef>)
        ensures
            r@ == self.global_signals().handlers("debug::newindex::miss"@),
    {
        let name = "debug::newindex::miss".to_owned();
        self.global_signals.snapshot(&name)
    }

    /// Whether `o` is a live object of class `c` or of a class descending
    /// from it.
    pub fn toudata(&self, o: ObjectRef, c: ClassId) -> (r: bool)
        requires
            self.wf(),
        ensures
            r == (self.is_live(o) && descends_from(self.classes(), self.class_of(o), c as int)),
    {
        if o.index >= self.objects.len() || self.objects[o.index].payload.is_none() {
            return false;
        }
        class_descends_from(&self.classes, self.objects[o.index].class, c)
    }

    /// Checks that `o` is a live object of class `c` or of a descendant.
    /// A reclaimed object is an invalid-object error; a live object of
    /// another family is a type error. On success the result names `c` when
    /// `c` has a checker, whose verdict the host must still obtain.
    pub fn checkudata(&self, o: ObjectRef, c: ClassId) -> (r: Result<Option<ClassId>, RuntimeError>)
        requires
            self.wf(),
        ensures
            !self.is_live(o) ==> r == Err::<Option<ClassId>, RuntimeError>(
                RuntimeError::InvalidObject,
            ),
            self.is_live(o) && !self.has_class(c) ==> r == Err::<Option<ClassId>, RuntimeError>(
                RuntimeError::UnknownClass,
            ),
            self.is_live(o) && self.has_class(c) && !descends_from(
                self.classes(),
                self.class_of(o),
                c as int,
            ) ==> r == Err::<Option<ClassId>, RuntimeError>(RuntimeError::WrongType),
            r is Ok <==> self.is_live(o) && self.has_class(c) && descends_from(
                self.classes(),
                self.class_of(o),
                c as int,
            ),
            r is Ok ==> r == Ok::<Option<ClassId>, RuntimeError>(
                if self.classes()[c as int].checker {
                    Some(c)
                } else {
                    None
                },
            ),
    {
        if o.index >= self.objects.len() || self.objects[o.index].payload.is_none() {
            return Err(RuntimeError::InvalidObject);
        }
        if c >= self.classes.len() {
            return Err(RuntimeError::UnknownClass);
        }
        if !self.toudata(o, c) {
            return Err(RuntimeError::WrongType);
        }
        if self.classes[c].checker {
            Ok(Some(c))
        } else {
            Ok(None)
        }
    }

    /// The class names of object `o`, root first, joined by `/`.
    pub fn object_tostring(&self, o: ObjectRef) -> (r: Result<String, RuntimeError>)
        requires
            self.wf(),
        ensures
            r is Err <==> !self.is_live(o),
            r is Err ==> r->Err_0 == RuntimeError::InvalidObject,
            r matches Ok(s) ==> s@ == class_path(self.classes(), self.class_of(o)),
    {
        if o.index >= self.objects.len() || self.objects[o.index].payload.is_none() {
            return Err(RuntimeError::InvalidObject);
        }
        Ok(class_path_string(&self.classes, self.objects[o.index].class))
    }
}

/// The names along the chain of `c`, root first, joined by `/`.
fn class_path_string(classes: &Vec<Class>, c: ClassId) -> (r: String)
    requires
        classes_wf(classes@),
        c < classes@.len(),
    ensures
        r@ == class_path(classes@, c as int),
    decreases c,
{
    match classes[c].parent {
        Some(p) => {
            assert(classes@[c as int].parent == Some(p));
            let mut s = class_path_string(classes, p);
            s.append("/");
            s.append(classes[c].name.as_str());
            proof {
                reveal_strlit("/");
                assert("/"@ =~= seq!['/']);
            }
            s
        },
        None => classes[c].name.clone(),
    }
}

/// `a` and `b` agree on everything but their script-side miss handlers.
pub open spec fn same_but_miss_handlers(a: Class, b: Class) -> bool {
    &&& a.name == b.name
    &&& a.parent == b.parent
    &&& a.collector == b.collector
    &&& a.checker == b.checker
    &&& a.index_miss_property == b.index_miss_property
    &&& a.newindex_miss_property == b.newindex_miss_property
    &&& a.methods == b.methods
    &&& a.properties == b.properties
    &&& a.signals == b.signals
    &&& a.instances == b.instances
}

/// `a` and `b` agree on everything but their signal tables.
pub open spec fn same_but_signals(a: Class, b: Class) -> bool {
    &&& a.name == b.name
    &&& a.parent == b.parent
    &&& a.collector == b.collector
    &&& a.checker == b.checker
    &&& a.index_miss_property == b.index_miss_property
    &&& a.newindex_miss_property == b.newindex_miss_property
    &&& a.methods == b.methods
    &&& a.properties == b.properties
    &&& a.index_miss_handler == b.index_miss_handler
    &&& a.newindex_miss_handler == b.newindex_miss_handler
    &&& a.instances == b.instances
}

/// Changing one class but its parent and instance count keeps the runtime's
/// invariant, as long as the registry stays well formed.
proof fn lemma_class_changed_wf<P>(old: &Runtime<P>, new: &Runtime<P>, c: int)
    requires
        old.wf(),
        new.class_changed(old, c),
        new.registry().wf(),
    ensures
        new.wf(),
{
    assert forall|d: int| 0 <= d < new.classes().len() implies match (
    #[trigger] new.classes()[d]).parent {
        Some(p) => p < d,
        None => true,
    } by {
        if d != c {
            assert(new.classes()[d] == old.classes()[d]);
        }
    };
    assert forall|d: int| 0 <= d < new.classes().len() implies (
    #[trigger] new.classes()[d]).instances == live_count(new.objects(), d) by {
        if d != c {
            assert(new.classes()[d] == old.classes()[d]);
        }
    };
}

/// Changing the signals, environment or payload value of one live-or-dead
/// slot keeps the runtime's invariant.
proof fn lemma_slot_changed_wf<P>(old: &Runtime<P>, new: &Runtime<P>, i: int)
    requires
        old.wf(),
        new.slot_changed(old, i),
        new.objects()[i].refs.wf(),
    ensures
        new.wf(),
{
    assert(new.objects() =~= old.objects().update(i, new.objects()[i]));
    assert forall|c: int| 0 <= c < new.classes().len() implies (
    #[trigger] new.classes()[c]).instances == live_count(new.objects(), c) by {
        lemma_live_count_update(old.objects(), i, new.objects()[i], c);
    };
    assert forall|o: int| 0 <= o < new.objects().len() implies {
        &&& (#[trigger] new.objects()[o]).class < new.classes().len()
        &&& new.objects()[o].refs.wf()
    } by {
        if o != i {
            assert(new.objects()[o] == old.objects()[o]);
        }
    };
}

/// Reclaiming a slot keeps the number of objects made and counts one more
/// collection of its class.
proof fn lemma_made_collected_update<P>(s: Seq<ObjectSlot<P>>, i: int, x: ObjectSlot<P>, c: int)
    requires
        0 <= i < s.len(),
        s[i].class == c,
        s[i].payload is Some,
        x.class == c,
        x.payload is None,
    ensures
        made_count(s.update(i, x), c) == made_count(s, c),
        collected_count(s.update(i, x), c) == collected_count(s, c) + 1,
    decreases s.len(),
{
    let t = s.update(i, x);
    if i == s.len() - 1 {
        assert(t.drop_last() =~= s.drop_last());
    } else {
        assert(t.drop_last() =~= s.drop_last().update(i, x));
        lemma_made_collected_update(s.drop_last(), i, x, c);
        assert(t.last() == s.last());
    }
}

/// Changing one slot changes the live count of a class by what the slot
/// contributed before and after.
proof fn lemma_live_count_update<P>(s: Seq<ObjectSlot<P>>, i: int, x: ObjectSlot<P>, c: int)
    requires
        0 <= i < s.len(),
    ensures
        live_count(s.update(i, x), c) == live_count(s, c) - live_in(
            s[i].class,
            s[i].payload is Some,
            c,
        ) + live_in(x.class, x.payload is Some, c),
    decreases s.len(),
{
    let t = s.update(i, x);
    if i == s.len() - 1 {
        assert(t.drop_last() =~= s.drop_last());
    } else {
        assert(t.drop_last() =~= s.drop_last().update(i, x));
        lemma_live_count_update(s.drop_last(), i, x, c);
        assert(t.last() == s.last());
    }
}

/// A class that no object belongs to has no live objects.
proof fn lemma_live_count_no_class<P>(objs: Seq<ObjectSlot<P>>, c: int)
    requires
        forall|o: int| 0 <= o < objs.len() ==> (#[trigger] objs[o]).class != c,
    ensures
        live_count(objs, c) == 0,
    decreases objs.len(),
{
    if objs.len() > 0 {
        let w = objs.drop_last();
        assert forall|o: int| 0 <= o < w.len() implies (#[trigger] w[o]).class != c by {
            assert(w[o] == objs[o]);
        };
        lemma_live_count_no_class(w, c);
        assert(objs.last() == objs[objs.len() - 1]);
    }
}

} // verus!
