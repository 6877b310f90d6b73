//! The `button` entity: a mouse button binding with its key modifiers.
//!
//! Modifier sets travel between native code and scripts in two forms: a
//! 16-bit mask of X11 modifier bits, and a list of modifier names.

use vstd::prelude::*;
use crate::class::{ClassId, ClassDecl, Class, class_handlers};
use crate::args::checkinteger_range;
use crate::refs::ValueRef;
use crate::runtime::{same_but_instances, Runtime, RuntimeError, ObjectRef, Emission, Construction, names_view};

verus! {

/// X11 modifier bits.
pub const MOD_MASK_SHIFT: u16 = 1;
pub const MOD_MASK_LOCK: u16 = 2;
pub const MOD_MASK_CONTROL: u16 = 4;
pub const MOD_MASK_1: u16 = 8;
pub const MOD_MASK_2: u16 = 16;
pub const MOD_MASK_3: u16 = 32;
pub const MOD_MASK_4: u16 = 64;
pub const MOD_MASK_5: u16 = 128;
pub const MOD_MASK_ANY: u16 = 32768;

/// The native state of a button object.
#[derive(PartialEq, Eq, Structural, Debug, Clone, Copy)]
pub struct ButtonState {
    pub modifiers: u16,
    pub button: u8,
}

/// A constructor field's value, as far as the button entity reads it.
pub enum FieldValue {
    Integer(i64),
    Strings(Vec<String>),
    Other,
}

/// The mask bit of a modifier name; zero for an unknown name.
pub open spec fn key_mask(name: Seq<char>) -> u16 {
    if name == "Shift"@ {
        MOD_MASK_SHIFT
    } else if name == "Lock"@ {
        MOD_MASK_LOCK
    } else if name == "Ctrl"@ || name == "Control"@ {
        MOD_MASK_CONTROL
    } else if name == "Mod1"@ {
        MOD_MASK_1
    } else if name == "Mod2"@ {
        MOD_MASK_2
    } else if name == "Mod3"@ {
        MOD_MASK_3
    } else if name == "Mod4"@ {
        MOD_MASK_4
    } else if name == "Mod5"@ {
        MOD_MASK_5
    } else if name == "Any"@ {
        MOD_MASK_ANY
    } else {
        0
    }
}

/// The name of a single modifier bit; `Unknown` for any other value.
pub open spec fn key_name(mask: u32) -> Seq<char> {
    if mask == 1 {
        "Shift"@
    } else if mask == 2 {
        "Lock"@
    } else if mask == 4 {
        "Control"@
    } else if mask == 8 {
        "Mod1"@
    } else if mask == 16 {
        "Mod2"@
    } else if mask == 32 {
        "Mod3"@
    } else if mask == 64 {
        "Mod4"@
    } else if mask == 128 {
        "Mod5"@
    } else if mask == 32768 {
        "Any"@
    } else {
        "Unknown"@
    }
}

/// The mask of a list of modifier names: the union of their bits.
pub open spec fn modifiers_of(names: Seq<Seq<char>>) -> u16
    decreases names.len(),
{
    if names.len() == 0 {
        0
    } else {
        modifiers_of(names.drop_last()) | key_mask(names.last())
    }
}

/// Bit `i` as a mask.
pub open spec fn bit_mask(i: nat) -> nat
    decreases i,
{
    if i == 0 {
        1
    } else {
        2 * bit_mask((i - 1) as nat)
    }
}

/// The names of the bits below bit `i` that are set in `m`, lowest first.
pub open spec fn modifier_names_upto(m: u16, i: nat) -> Seq<Seq<char>>
    decreases i,
{
    if i == 0 {
        Seq::empty()
    } else {
        let prev = modifier_names_upto(m, (i - 1) as nat);
        let mask = bit_mask((i - 1) as nat) as u32;
        if mask & (m as u32) != 0 {
            prev.push(key_name(mask))
        } else {
            prev
        }
    }
}

/// The names of the modifiers set in `m`, lowest bit first, up to (not
/// including) the `Any` bit.
pub open spec fn modifier_names(m: u16) -> Seq<Seq<char>> {
    modifier_names_upto(m, 15)
}

/// Looks up the mask bit of a modifier name.
pub fn xutil_key_mask_fromstr(keyname: &String) -> (r: u16)
    ensures
        r == key_mask(keyname@),
{
    if *keyname == "Shift".to_owned() {
        MOD_MASK_SHIFT
    } else if *keyname == "Lock".to_owned() {
        MOD_MASK_LOCK
    } else if *keyname == "Ctrl".to_owned() || *keyname == "Control".to_owned() {
        MOD_MASK_CONTROL
    } else if *keyname == "Mod1".to_owned() {
        MOD_MASK_1
    } else if *keyname == "Mod2".to_owned() {
        MOD_MASK_2
    } else if *keyname == "Mod3".to_owned() {
        MOD_MASK_3
    } else if *keyname == "Mod4".to_owned() {
        MOD_MASK_4
    } else if *keyname == "Mod5".to_owned() {
        MOD_MASK_5
    } else if *keyname == "Any".to_owned() {
        MOD_MASK_ANY
    } else {
        0
    }
}

/// The name of a single modifier bit.
pub fn xutil_key_mask_tostr(mask: u32) -> (r: &'static str)
    ensures
        r@ == key_name(mask),
{
    if mask == 1 {
        "Shift"
    } else if mask == 2 {
        "Lock"
    } else if mask == 4 {
        "Control"
    } else if mask == 8 {
        "Mod1"
    } else if mask == 16 {
        "Mod2"
    } else if mask == 32 {
        "Mod3"
    } else if mask == 64 {
        "Mod4"
    } else if mask == 128 {
        "Mod5"
    } else if mask == 32768 {
        "Any"
    } else {
        "Unknown"
    }
}

/// The mask of a list of modifier names.
pub fn tomodifiers(names: &Vec<String>) -> (r: u16)
    ensures
        r == modifiers_of(names_view(names@)),
{
    let ghost all = names_view(names@);
    let mut acc: u16 = 0;
    let mut i: usize = 0;
    while i < names.len()
        invariant
            0 <= i <= names.len(),
            all == names_view(names@),
            acc == modifiers_of(all.take(i as int)),
        decreases names.len() - i,
    {
        proof {
            assert(all.take(i as int + 1).drop_last() =~= all.take(i as int));
            assert(all.take(i as int + 1).last() == names@[i as int]@);
        }
        acc = acc | xutil_key_mask_fromstr(&names[i]);
        i = i + 1;
    }
    assert(all.take(i as int) =~= all);
    acc
}

proof fn lemma_bit_mask_grows(i: nat, j: nat)
    requires
        i <= j,
    ensures
        1 <= bit_mask(i) <= bit_mask(j),
    decreases j,
{
    if i < j {
        lemma_bit_mask_grows(i, (j - 1) as nat);
    } else if i > 0 {
        lemma_bit_mask_grows((i - 1) as nat, (i - 1) as nat);
    }
}

/// The names of the modifiers set in `modifiers`, lowest bit first.
pub fn pushmodifiers(modifiers: u16) -> (r: Vec<String>)
    ensures
        names_view(r@) == modifier_names(modifiers),
{
    let mut r: Vec<String> = Vec::new();
    let mut i: u32 = 0;
    let mut maski: u32 = 1;
    proof {
        reveal_with_fuel(bit_mask, 15);
        assert(bit_mask(14) == 16384);
    }
    while i < 15
        invariant
            i <= 15,
            maski as nat == bit_mask(i as nat),
            names_view(r@) == modifier_names_upto(modifiers, i as nat),
        decreases 15 - i,
    {
        proof {
            lemma_bit_mask_grows(i as nat, 14);
            reveal_with_fuel(bit_mask, 15);
        }
        let ghost before = r@;
        if maski & (modifiers as u32) != 0 {
            let name = xutil_key_mask_tostr(maski).to_owned();
            r.push(name);
            assert(names_view(r@) =~= names_view(before).push(key_name(maski)));
        }
        maski = maski * 2;
        i = i + 1;
    }
    r
}

/// Class `c` is laid out as `button_class_setup` leaves it: no parent, no
/// checker, and exactly the properties `button` and `modifiers`, each with all three
/// callbacks.
pub open spec fn is_button_class(classes: Seq<Class>, c: int) -> bool {
    &&& 0 <= c < classes.len()
    &&& classes[c].parent is None
    &&& !classes[c].checker
    &&& classes[c].properties@.len() == 2
    &&& classes[c].properties@[0].name@ == "button"@
    &&& classes[c].properties@[0].new
    &&& classes[c].properties@[0].index
    &&& classes[c].properties@[0].new_index
    &&& classes[c].properties@[1].name@ == "modifiers"@
    &&& classes[c].properties@[1].new
    &&& classes[c].properties@[1].index
    &&& classes[c].properties@[1].new_index
}

/// Registers the `button` class, with its properties `button` and
/// `modifiers`. Fails when `button` is already a global name.
pub fn button_class_setup(rt: &mut Runtime<ButtonState>) -> (r: Result<ClassId, RuntimeError>)
    requires
        old(rt).wf(),
    ensures
        final(rt).wf(),
        r is Err <==> old(rt).global_defined("button"@),
        r is Err ==> r->Err_0 == RuntimeError::AlreadyDefined && *final(rt) == *old(rt),
        r matches Ok(c) ==> {
            &&& c == old(rt).classes().len()
            &&& final(rt).classes().len() == c + 1
            &&& is_button_class(final(rt).classes(), c as int)
            &&& final(rt).classes()[c as int].name@ == "button"@
            &&& final(rt).classes()[c as int].signals@.len() == 0
            &&& final(rt).classes()[c as int].instances == 0
            &&& forall|d: int|
                0 <= d < c ==> #[trigger] final(rt).classes()[d] == old(rt).classes()[d]
            &&& final(rt).objects() == old(rt).objects()
            &&& names_view(final(rt).globals()) == names_view(old(rt).globals()).push("button"@)
            &&& final(rt).registry() == old(rt).registry()
            &&& final(rt).global_signals() == old(rt).global_signals()
        },
{
    let decl = ClassDecl {
        name: "button".to_owned(),
        parent: None,
        collector: false,
        checker: false,
        index_miss_property: true,
        newindex_miss_property: true,
        methods: vec!["connect_signal".to_owned(), "disconnect_signal".to_owned(), "emit_signal".to_owned()],
    };
    let c = rt.class_setup(decl)?;
    let r1 = rt.class_add_property(c, "button".to_owned(), true, true, true);
    assert(r1 is Ok);
    proof {
        reveal_strlit("button");
        reveal_strlit("modifiers");
        assert("button"@ != "modifiers"@) by {
            assert("button"@.len() != "modifiers"@.len());
        };
        assert(rt.classes()[c as int].properties@.len() == 1);
        assert(rt.classes()[c as int].properties@[0].name@ == "button"@);
        assert(crate::class::prop_pos_from(rt.classes()[c as int].properties@, "modifiers"@, 1) is None);
    }
    let r2 = rt.class_add_property(c, "modifiers".to_owned(), true, true, true);
    assert(r2 is Ok);
    Ok(c)
}

/// Why the button entity refuses the value of a constructor field, if it
/// does: `button` takes an integer in 0..=255, `modifiers` a list of names.
pub open spec fn value_error(name: Seq<char>, v: FieldValue) -> Option<RuntimeError> {
    if name == "button"@ {
        match v {
            FieldValue::Integer(n) => if 0 <= n <= 255 {
                None
            } else {
                Some(RuntimeError::OutOfRange)
            },
            _ => Some(RuntimeError::WrongType),
        }
    } else if name == "modifiers"@ {
        match v {
            FieldValue::Strings(_) => None,
            _ => Some(RuntimeError::WrongType),
        }
    } else {
        None
    }
}

/// The first refusal among the fields at or after position `i`.
pub open spec fn field_error(names: Seq<Seq<char>>, values: Seq<FieldValue>, i: int) -> Option<
    RuntimeError,
>
    decreases names.len() - i,
{
    if i < 0 || i >= names.len() {
        None
    } else {
        match value_error(names[i], values[i]) {
            Some(e) => Some(e),
            None => field_error(names, values, i + 1),
        }
    }
}

/// The state after the `new` callback of field `name` ran with value `v`.
pub open spec fn apply_field(st: ButtonState, name: Seq<char>, v: FieldValue) -> ButtonState {
    if name == "button"@ {
        match v {
            FieldValue::Integer(n) => ButtonState { modifiers: st.modifiers, button: n as u8 },
            _ => st,
        }
    } else if name == "modifiers"@ {
        match v {
            FieldValue::Strings(ns) => ButtonState {
                modifiers: modifiers_of(names_view(ns@)),
                button: st.button,
            },
            _ => st,
        }
    } else {
        st
    }
}

/// The state built from the first `i` constructor fields, starting from
/// no modifiers and button 0.
pub open spec fn built_upto(names: Seq<Seq<char>>, values: Seq<FieldValue>, i: int) -> ButtonState
    decreases i,
{
    if i <= 0 {
        ButtonState { modifiers: 0, button: 0 }
    } else {
        apply_field(built_upto(names, values, i - 1), names[i - 1], values[i - 1])
    }
}

/// The property signals that the first `i` constructor fields emit, in
/// order.
pub open spec fn emitted_upto(names: Seq<Seq<char>>, i: int) -> Seq<Seq<char>>
    decreases i,
{
    if i <= 0 {
        Seq::empty()
    } else {
        let prev = emitted_upto(names, i - 1);
        if names[i - 1] == "button"@ {
            prev.push("property::button"@)
        } else if names[i - 1] == "modifiers"@ {
            prev.push("property::modifiers"@)
        } else {
            prev
        }
    }
}

/// A constructed button and the work left to the host: the generic
/// construction (with its `"new"` handlers) and, for each field that set a
/// property, the emission of that property's signal.
pub struct ButtonConstruction {
    pub construction: Construction,
    pub property_emissions: Vec<Emission>,
}

/// Constructs a button of class `c` from constructor fields `names` with
/// values `values`. Every field is checked before anything is allocated;
/// the first refused field decides the error. Fields run in order: the last
/// `button` and the last `modifiers` field win.
pub fn button_new(
    rt: &mut Runtime<ButtonState>,
    c: ClassId,
    names: &Vec<String>,
    values: &Vec<FieldValue>,
) -> (r: Result<ButtonConstruction, RuntimeError>)
    requires
        old(rt).wf(),
        is_button_class(old(rt).classes(), c as int),
        names.len() == values.len(),
    ensures
        final(rt).wf(),
        field_error(names_view(names@), values@, 0) matches Some(e) ==> r == Err::<
            ButtonConstruction,
            RuntimeError,
        >(e),
        field_error(names_view(names@), values@, 0) is None && old(rt).classes()[c as int].instances
            == u64::MAX ==> r is Err && r->Err_0 == RuntimeError::TooManyInstances,
        r is Err ==> *final(rt) == *old(rt),
        r is Ok <==> field_error(names_view(names@), values@, 0) is None && old(
            rt,
        ).classes()[c as int].instances < u64::MAX,
        r matches Ok(b) ==> {
            let k = b.construction;
            let n = names@.len() as int;
            &&& k.object.index == old(rt).objects().len()
            &&& final(rt).is_live(k.object)
            &&& final(rt).class_of(k.object) == c
            &&& final(rt).objects()[k.object.index as int].payload == Some(
                built_upto(names_view(names@), values@, n),
            )
            &&& final(rt).objects()[k.object.index as int].signals@.len() == 0
            &&& final(rt).objects()[k.object.index as int].refs@ == Map::<ValueRef, u64>::empty()
            &&& final(rt).objects().len() == old(rt).objects().len() + 1
            &&& final(rt).objects().drop_last() == old(rt).objects()
            &&& final(rt).classes().len() == old(rt).classes().len()
            &&& final(rt).classes()[c as int].instances == old(rt).classes()[c as int].instances + 1
            &&& same_but_instances(final(rt).classes()[c as int], old(rt).classes()[c as int])
            &&& forall|d: int|
                0 <= d < old(rt).classes().len() && d != c ==> #[trigger] final(rt).classes()[d]
                    == old(rt).classes()[d]
            &&& final(rt).globals() == old(rt).globals()
            &&& final(rt).registry() == old(rt).registry()
            &&& final(rt).global_signals() == old(rt).global_signals()
            &&& k.setters@ == crate::runtime::setter_plan(old(rt).classes(), c as int, names_view(names@))
            &&& k.new_handlers@ == class_handlers(old(rt).classes(), c as int, "new"@)
            &&& b.property_emissions@.len() == emitted_upto(names_view(names@), n).len()
            &&& forall|j: int|
                0 <= j < b.property_emissions@.len() ==> {
                    &&& (#[trigger] b.property_emissions@[j]).object_handlers@.len() == 0
                    &&& b.property_emissions@[j].check is None
                    &&& b.property_emissions@[j].class_handlers@ == class_handlers(
                        old(rt).classes(),
                        c as int,
                        emitted_upto(names_view(names@), n)[j],
                    )
                }
        },
{
    let ghost nv = names_view(names@);
    let mut i: usize = 0;
    while i < names.len()
        invariant
            0 <= i <= names.len(),
            names.len() == values.len(),
            nv == names_view(names@),
            field_error(nv, values@, 0) == field_error(nv, values@, i as int),
            *rt == *old(rt),
            rt.wf(),
        decreases names.len() - i,
    {
        let bad = if names[i] == "button".to_owned() {
            match &values[i] {
                FieldValue::Integer(n) => {
                    if 0 <= *n && *n <= 255 {
                        None
                    } else {
                        Some(RuntimeError::OutOfRange)
                    }
                },
                _ => Some(RuntimeError::WrongType),
            }
        } else if names[i] == "modifiers".to_owned() {
            match &values[i] {
                FieldValue::Strings(_) => None,
                _ => Some(RuntimeError::WrongType),
            }
        } else {
            None
        };
        match bad {
            Some(e) => {
                return Err(e);
            },
            None => {},
        }
        i = i + 1;
    }
    let button_name = "property::button".to_owned();
    let modifiers_name = "property::modifiers".to_owned();
    let button_handlers = rt.class_emit_signal(c, &button_name)?;
    let modifiers_handlers = rt.class_emit_signal(c, &modifiers_name)?;
    let construction = rt.class_new(c, names, ButtonState { modifiers: 0, button: 0 })?;
    let mut st = ButtonState { modifiers: 0, button: 0 };
    let mut emissions: Vec<Emission> = Vec::new();
    let mut i: usize = 0;
    while i < names.len()
        invariant
            0 <= i <= names.len(),
            names.len() == values.len(),
            nv == names_view(names@),
            field_error(nv, values@, i as int) is None,
            st == built_upto(nv, values@, i as int),
            button_handlers@ == class_handlers(old(rt).classes(), c as int, "property::button"@),
            modifiers_handlers@ == class_handlers(
                old(rt).classes(),
                c as int,
                "property::modifiers"@,
            ),
            emissions@.len() == emitted_upto(nv, i as int).len(),
            forall|j: int|
                0 <= j < emissions@.len() ==> {
                    &&& (#[trigger] emissions@[j]).object_handlers@.len() == 0
                    &&& emissions@[j].check is None
                    &&& emissions@[j].class_handlers@ == class_handlers(
                        old(rt).classes(),
                        c as int,
                        emitted_upto(nv, i as int)[j],
                    )
                },
        decreases names.len() - i,
    {
        let ghost before = emissions@;
        if names[i] == "button".to_owned() {
            match &values[i] {
                FieldValue::Integer(n) => {
                    st = ButtonState { modifiers: st.modifiers, button: *n as u8 };
                },
                _ => {},
            }
            emissions.push(Emission { check: None, object_handlers: Vec::new(), class_handlers: button_handlers.clone() });
        } else if names[i] == "modifiers".to_owned() {
            match &values[i] {
                FieldValue::Strings(ns) => {
                    st = ButtonState { modifiers: tomodifiers(ns), button: st.button };
                },
                _ => {},
            }
            emissions.push(Emission { check: None, object_handlers: Vec::new(), class_handlers: modifiers_handlers.clone() });
        }
        proof {
            let k = i as int;
            assert(emitted_upto(nv, k + 1) == if nv[k] == "button"@ {
                emitted_upto(nv, k).push("property::button"@)
            } else if nv[k] == "modifiers"@ {
                emitted_upto(nv, k).push("property::modifiers"@)
            } else {
                emitted_upto(nv, k)
            });
            assert forall|j: int| 0 <= j < emissions@.len() implies {
                &&& (#[trigger] emissions@[j]).object_handlers@.len() == 0
                &&& emissions@[j].check is None
                &&& emissions@[j].class_handlers@ == class_handlers(
                    old(rt).classes(),
                    c as int,
                    emitted_upto(nv, k + 1)[j],
                )
            } by {
                if j < before.len() {
                    assert(emissions@[j] == before[j]);
                }
            };
        }
        i = i + 1;
    }
    let ghost mid = *rt;
    rt.set_payload(construction.object, st)?;
    proof {
        assert(rt.objects().drop_last() =~= mid.objects().drop_last());
    }
    Ok(ButtonConstruction { construction, property_emissions: emissions })
}

/// The native setter of property `button`: stores `value` and returns the
/// emission of `property::button` on the object. Fails on a reclaimed
/// object, and on a value outside 0..=255.
pub fn button_set_button(rt: &mut Runtime<ButtonState>, o: ObjectRef, value: i64) -> (r: Result<
    Emission,
    RuntimeError,
>)
    requires
        old(rt).wf(),
    ensures
        final(rt).wf(),
        !old(rt).is_live(o) ==> r is Err && r->Err_0 == RuntimeError::InvalidObject,
        old(rt).is_live(o) && !(0 <= value <= 255) ==> r is Err && r->Err_0
            == RuntimeError::OutOfRange,
        r is Err ==> *final(rt) == *old(rt),
        r is Ok <==> old(rt).is_live(o) && 0 <= value <= 255,
        r matches Ok(e) ==> {
            let i = o.index as int;
            let before = old(rt).objects()[i];
            &&& final(rt).slot_changed(old(rt), i)
            &&& final(rt).objects()[i].payload == Some(
                ButtonState { modifiers: before.payload->Some_0.modifiers, button: value as u8 },
            )
            &&& final(rt).objects()[i].signals == before.signals
            &&& final(rt).objects()[i].refs == before.refs
            &&& e.object_handlers@ == before.signals.handlers("property::button"@)
            &&& e.class_handlers@ == class_handlers(
                old(rt).classes(),
                old(rt).class_of(o),
                "property::button"@,
            )
            &&& e.check == if old(rt).classes()[old(rt).class_of(o)].checker {
                Some(old(rt).class_of(o) as ClassId)
            } else {
                None
            }
        },
{
    let st = match rt.payload(o) {
        Some(p) => *p,
        None => {
            return Err(RuntimeError::InvalidObject);
        },
    };
    let value = checkinteger_range(value, 0, 255)?;
    let name = "property::button".to_owned();
    let e = rt.object_emit_signal(o, &name)?;
    rt.set_payload(o, ButtonState { modifiers: st.modifiers, button: value as u8 })?;
    Ok(e)
}

/// The native setter of property `modifiers`: stores the mask of `names`
/// and returns the emission of `property::modifiers` on the object. Fails
/// on a reclaimed object.
pub fn button_set_modifiers(rt: &mut Runtime<ButtonState>, o: ObjectRef, names: &Vec<String>) -> (r:
    Result<Emission, RuntimeError>)
    requires
        old(rt).wf(),
    ensures
        final(rt).wf(),
        r is Err <==> !old(rt).is_live(o),
        r is Err ==> r->Err_0 == RuntimeError::InvalidObject && *final(rt) == *old(rt),
        r matches Ok(e) ==> {
            let i = o.index as int;
            let before = old(rt).objects()[i];
            &&& final(rt).slot_changed(old(rt), i)
            &&& final(rt).objects()[i].payload == Some(
                ButtonState {
                    modifiers: modifiers_of(names_view(names@)),
                    button: before.payload->Some_0.button,
                },
            )
            &&& final(rt).objects()[i].signals == before.signals
            &&& final(rt).objects()[i].refs == before.refs
            &&& e.object_handlers@ == before.signals.handlers("property::modifiers"@)
            &&& e.class_handlers@ == class_handlers(
                old(rt).classes(),
                old(rt).class_of(o),
                "property::modifiers"@,
            )
            &&& e.check == if old(rt).classes()[old(rt).class_of(o)].checker {
                Some(old(rt).class_of(o) as ClassId)
            } else {
                None
            }
        },
{
    let st = match rt.payload(o) {
        Some(p) => *p,
        None => {
            return Err(RuntimeError::InvalidObject);
        },
    };
    let name = "property::modifiers".to_owned();
    let e = rt.object_emit_signal(o, &name)?;
    rt.set_payload(o, ButtonState { modifiers: tomodifiers(names), button: st.button })?;
    Ok(e)
}

/// The stored button number of object `o`.
pub fn button_get_button(rt: &Runtime<ButtonState>, o: ObjectRef) -> (r: Result<u8, RuntimeError>)
    requires
        rt.wf(),
    ensures
        !rt.is_live(o) ==> r == Err::<u8, RuntimeError>(RuntimeError::InvalidObject),
        rt.is_live(o) ==> r == Ok::<u8, RuntimeError>(
            rt.objects()[o.index as int].payload->Some_0.button,
        ),
{
    match rt.payload(o) {
        Some(p) => Ok(p.button),
        None => Err(RuntimeError::InvalidObject),
    }
}

/// The stored modifiers of object `o`, as names.
pub fn button_get_modifiers(rt: &Runtime<ButtonState>, o: ObjectRef) -> (r: Result<
    Vec<String>,
    RuntimeError,
>)
    requires
        rt.wf(),
    ensures
        r is Err <==> !rt.is_live(o),
        r is Err ==> r->Err_0 == RuntimeError::InvalidObject,
        r matches Ok(ns) ==> names_view(ns@) == modifier_names(
            rt.objects()[o.index as int].payload->Some_0.modifiers,
        ),
{
    match rt.payload(o) {
        Some(p) => Ok(pushmodifiers(p.modifiers)),
        None => Err(RuntimeError::InvalidObject),
    }
}

} // verus!
