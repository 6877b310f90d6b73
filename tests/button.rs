use awesome_wayland::button::{
    button_class_setup, button_get_button, button_get_modifiers, button_new, button_set_button,
    button_set_modifiers, pushmodifiers, tomodifiers, xutil_key_mask_fromstr, xutil_key_mask_tostr,
    ButtonState, FieldValue, MOD_MASK_1, MOD_MASK_4, MOD_MASK_ANY, MOD_MASK_CONTROL,
    MOD_MASK_SHIFT,
};
use awesome_wayland::runtime::{Runtime, RuntimeError};

fn s(x: &str) -> String {
    x.to_string()
}

fn names(xs: &[&str]) -> Vec<String> {
    xs.iter().map(|x| x.to_string()).collect()
}

#[test]
fn key_masks_follow_the_modifier_names() {
    assert_eq!(xutil_key_mask_fromstr(&s("Shift")), 1);
    assert_eq!(xutil_key_mask_fromstr(&s("Lock")), 2);
    assert_eq!(xutil_key_mask_fromstr(&s("Ctrl")), 4);
    assert_eq!(xutil_key_mask_fromstr(&s("Control")), 4);
    assert_eq!(xutil_key_mask_fromstr(&s("Mod1")), 8);
    assert_eq!(xutil_key_mask_fromstr(&s("Mod2")), 16);
    assert_eq!(xutil_key_mask_fromstr(&s("Mod3")), 32);
    assert_eq!(xutil_key_mask_fromstr(&s("Mod4")), 64);
    assert_eq!(xutil_key_mask_fromstr(&s("Mod5")), 128);
    assert_eq!(xutil_key_mask_fromstr(&s("Any")), 32768);
    assert_eq!(xutil_key_mask_fromstr(&s("Hyper")), 0);
    assert_eq!(xutil_key_mask_fromstr(&s("shift")), 0);
}

#[test]
fn key_names_follow_the_mask_bits() {
    assert_eq!(xutil_key_mask_tostr(1), "Shift");
    assert_eq!(xutil_key_mask_tostr(4), "Control");
    assert_eq!(xutil_key_mask_tostr(128), "Mod5");
    assert_eq!(xutil_key_mask_tostr(32768), "Any");
    assert_eq!(xutil_key_mask_tostr(256), "Unknown");
    assert_eq!(xutil_key_mask_tostr(3), "Unknown");
}

#[test]
fn modifier_lists_become_the_union_of_their_bits() {
    assert_eq!(tomodifiers(&names(&[])), 0);
    assert_eq!(
        tomodifiers(&names(&["Shift", "Mod4", "Ctrl"])),
        MOD_MASK_SHIFT | MOD_MASK_4 | MOD_MASK_CONTROL
    );
    assert_eq!(tomodifiers(&names(&["Shift", "Shift", "bogus"])), MOD_MASK_SHIFT);
}

#[test]
fn masks_become_names_lowest_bit_first() {
    assert_eq!(pushmodifiers(0), Vec::<String>::new());
    assert_eq!(
        pushmodifiers(MOD_MASK_CONTROL | MOD_MASK_SHIFT | MOD_MASK_1),
        names(&["Shift", "Control", "Mod1"])
    );
    assert_eq!(pushmodifiers(0x0300), names(&["Unknown", "Unknown"]));
    // the Any bit is not listed
    assert_eq!(pushmodifiers(MOD_MASK_ANY), Vec::<String>::new());
}

#[test]
fn button_construction_stores_fields_and_emits_new_once() {
    let mut rt: Runtime<ButtonState> = Runtime::new();
    let c = button_class_setup(&mut rt).unwrap();
    rt.class_connect_signal(c, &s("new"), 500).unwrap();
    let values = vec![
        FieldValue::Integer(1),
        FieldValue::Strings(names(&["Shift"])),
    ];
    let b = button_new(&mut rt, c, &names(&["button", "modifiers"]), &values).unwrap();
    let o = b.construction.object;
    assert_eq!(b.construction.new_handlers, vec![500]);
    assert_eq!(b.construction.setters.len(), 2);
    assert_eq!(b.property_emissions.len(), 2);
    assert_eq!(button_get_button(&rt, o), Ok(1));
    assert_eq!(
        rt.payload(o),
        Some(&ButtonState { modifiers: MOD_MASK_SHIFT, button: 1 })
    );
    assert_eq!(button_get_modifiers(&rt, o), Ok(names(&["Shift"])));
    assert_eq!(rt.instances(c), Ok(1));
}

#[test]
fn button_setter_fires_property_signal_once() {
    let mut rt: Runtime<ButtonState> = Runtime::new();
    let c = button_class_setup(&mut rt).unwrap();
    let values = vec![FieldValue::Integer(1)];
    let o = button_new(&mut rt, c, &names(&["button"]), &values)
        .unwrap()
        .construction
        .object;
    rt.object_connect_signal(o, &s("property::button"), 31).unwrap();
    let e = button_set_button(&mut rt, o, 3).unwrap();
    assert_eq!(e.object_handlers, vec![31]);
    assert!(e.class_handlers.is_empty());
    assert_eq!(button_get_button(&rt, o), Ok(3));
}

#[test]
fn button_modifiers_setter_stores_mask() {
    let mut rt: Runtime<ButtonState> = Runtime::new();
    let c = button_class_setup(&mut rt).unwrap();
    let o = button_new(&mut rt, c, &Vec::new(), &Vec::new())
        .unwrap()
        .construction
        .object;
    assert_eq!(rt.payload(o), Some(&ButtonState { modifiers: 0, button: 0 }));
    rt.class_connect_signal(c, &s("property::modifiers"), 8).unwrap();
    let e = button_set_modifiers(&mut rt, o, &names(&["Mod4", "Shift"])).unwrap();
    assert!(e.object_handlers.is_empty());
    assert_eq!(e.class_handlers, vec![8]);
    assert_eq!(button_get_modifiers(&rt, o), Ok(names(&["Shift", "Mod4"])));
}

#[test]
fn button_fields_of_the_wrong_kind_are_refused_before_allocation() {
    let mut rt: Runtime<ButtonState> = Runtime::new();
    let c = button_class_setup(&mut rt).unwrap();
    let wrong = vec![FieldValue::Strings(names(&["1"]))];
    assert!(matches!(
        button_new(&mut rt, c, &names(&["button"]), &wrong),
        Err(RuntimeError::WrongType)
    ));
    let big = vec![FieldValue::Integer(256)];
    assert!(matches!(
        button_new(&mut rt, c, &names(&["button"]), &big),
        Err(RuntimeError::OutOfRange)
    ));
    let bad_mods = vec![FieldValue::Integer(1), FieldValue::Other];
    assert!(matches!(
        button_new(&mut rt, c, &names(&["button", "modifiers"]), &bad_mods),
        Err(RuntimeError::WrongType)
    ));
    // unknown fields are ignored whatever their value
    let other = vec![FieldValue::Other];
    assert!(button_new(&mut rt, c, &names(&["colour"]), &other).is_ok());
    assert_eq!(rt.instances(c), Ok(1));
}

#[test]
fn button_setter_refuses_out_of_range_and_collected_objects() {
    let mut rt: Runtime<ButtonState> = Runtime::new();
    let c = button_class_setup(&mut rt).unwrap();
    let o = button_new(&mut rt, c, &Vec::new(), &Vec::new())
        .unwrap()
        .construction
        .object;
    assert!(matches!(
        button_set_button(&mut rt, o, -1),
        Err(RuntimeError::OutOfRange)
    ));
    assert_eq!(button_get_button(&rt, o), Ok(0));
    rt.class_gc(o).unwrap();
    assert!(matches!(
        button_set_button(&mut rt, o, 2),
        Err(RuntimeError::InvalidObject)
    ));
    assert!(matches!(
        button_set_modifiers(&mut rt, o, &Vec::new()),
        Err(RuntimeError::InvalidObject)
    ));
    assert_eq!(button_get_button(&rt, o), Err(RuntimeError::InvalidObject));
}

#[test]
fn button_class_is_registered_once() {
    let mut rt: Runtime<ButtonState> = Runtime::new();
    assert_eq!(button_class_setup(&mut rt), Ok(0));
    assert_eq!(button_class_setup(&mut rt), Err(RuntimeError::AlreadyDefined));
    assert_eq!(
        rt.class_property_get(0, &s("modifiers")),
        Ok(Some((0, 1)))
    );
}
