use awesome_wayland::args::{checkinteger_range, optinteger_range};
use awesome_wayland::class::{ClassDecl, ClassId};
use awesome_wayland::pass::EmissionPass;
use awesome_wayland::refs::Decref;
use awesome_wayland::runtime::{
    IndexOutcome, NewIndexOutcome, ObjectRef, Runtime, RuntimeError, Setter,
};

fn s(x: &str) -> String {
    x.to_string()
}

fn decl(name: &str, parent: Option<ClassId>) -> ClassDecl {
    ClassDecl {
        name: s(name),
        parent,
        collector: false,
        checker: false,
        index_miss_property: false,
        newindex_miss_property: false,
        methods: vec![s("connect_signal"), s("emit_signal")],
    }
}

fn names(xs: &[&str]) -> Vec<String> {
    xs.iter().map(|x| x.to_string()).collect()
}

#[test]
fn registering_a_taken_name_is_refused() {
    let mut rt: Runtime<u32> = Runtime::new();
    assert_eq!(rt.class_setup(decl("client", None)), Ok(0));
    assert_eq!(
        rt.class_setup(decl("client", None)).err(),
        Some(RuntimeError::AlreadyDefined)
    );
    assert_eq!(rt.register_methods(&s("awesome")), Ok(()));
    assert_eq!(
        rt.register_methods(&s("awesome")),
        Err(RuntimeError::AlreadyDefined)
    );
    assert_eq!(
        rt.class_setup(decl("awesome", None)).err(),
        Some(RuntimeError::AlreadyDefined)
    );
}

#[test]
fn unknown_parent_is_refused() {
    let mut rt: Runtime<u32> = Runtime::new();
    assert_eq!(
        rt.class_setup(decl("drawin", Some(3))).err(),
        Some(RuntimeError::UnknownClass)
    );
}

#[test]
fn duplicate_property_is_refused() {
    let mut rt: Runtime<u32> = Runtime::new();
    let c = rt.class_setup(decl("tag", None)).unwrap();
    assert_eq!(rt.class_add_property(c, s("name"), true, true, true), Ok(()));
    assert_eq!(
        rt.class_add_property(c, s("name"), false, true, false),
        Err(RuntimeError::PropertyDefined)
    );
    assert_eq!(
        rt.class_add_property(9, s("x"), true, true, true),
        Err(RuntimeError::UnknownClass)
    );
}

#[test]
fn property_undefined_on_child_resolves_via_parent() {
    let mut rt: Runtime<u32> = Runtime::new();
    let window = rt.class_setup(decl("window", None)).unwrap();
    let drawin = rt.class_setup(decl("drawin", Some(window))).unwrap();
    rt.class_add_property(window, s("opacity"), true, true, true).unwrap();
    rt.class_add_property(drawin, s("visible"), true, true, true).unwrap();
    assert_eq!(rt.class_property_get(drawin, &s("opacity")), Ok(Some((window, 0))));
    assert_eq!(rt.class_property_get(drawin, &s("visible")), Ok(Some((drawin, 0))));
    assert_eq!(rt.class_property_get(window, &s("visible")), Ok(None));
    assert_eq!(rt.class_property_get(drawin, &s("nope")), Ok(None));
}

#[test]
fn child_property_shadows_parent() {
    let mut rt: Runtime<u32> = Runtime::new();
    let window = rt.class_setup(decl("window", None)).unwrap();
    let drawin = rt.class_setup(decl("drawin", Some(window))).unwrap();
    rt.class_add_property(window, s("x"), true, true, true).unwrap();
    rt.class_add_property(drawin, s("y"), true, true, true).unwrap();
    rt.class_add_property(drawin, s("x"), true, false, false).unwrap();
    assert_eq!(rt.class_property_get(drawin, &s("x")), Ok(Some((drawin, 1))));
    let o = rt.class_new(drawin, &Vec::new(), 0).unwrap().object;
    assert_eq!(rt.class_index(o, &s("x")), Ok(IndexOutcome::NoGetter));
    assert_eq!(rt.class_newindex(o, &s("x")), Ok(NewIndexOutcome::NoSetter));
    assert_eq!(
        rt.class_newindex(o, &s("y")),
        Ok(NewIndexOutcome::Setter { class: drawin, property: 0 })
    );
}

#[test]
fn signal_declared_on_parent_fires_for_child_instance() {
    let mut rt: Runtime<u32> = Runtime::new();
    let a = rt.class_setup(decl("a", None)).unwrap();
    let b = rt.class_setup(decl("b", Some(a))).unwrap();
    rt.class_connect_signal(a, &s("focus"), 100).unwrap();
    let o = rt.class_new(b, &Vec::new(), 1).unwrap().object;
    let e = rt.object_emit_signal(o, &s("focus")).unwrap();
    assert!(e.object_handlers.is_empty());
    assert_eq!(e.class_handlers, vec![100]);
    assert_eq!(rt.class_emit_signal(b, &s("focus")), Ok(vec![100]));
    // b's own table has no handler for it
    rt.class_connect_signal(b, &s("focus"), 200).unwrap();
    assert_eq!(rt.class_emit_signal(b, &s("focus")), Ok(vec![200]));
    assert_eq!(rt.class_emit_signal(a, &s("focus")), Ok(vec![100]));
}

#[test]
fn object_handlers_come_before_class_handlers() {
    let mut rt: Runtime<u32> = Runtime::new();
    let c = rt.class_setup(decl("client", None)).unwrap();
    let o = rt.class_new(c, &Vec::new(), 0).unwrap().object;
    rt.class_connect_signal(c, &s("property::name"), 1).unwrap();
    rt.object_connect_signal(o, &s("property::name"), 2).unwrap();
    rt.object_connect_signal(o, &s("property::name"), 3).unwrap();
    let e = rt.object_emit_signal(o, &s("property::name")).unwrap();
    assert_eq!(e.object_handlers, vec![2, 3]);
    assert_eq!(e.class_handlers, vec![1]);
}

#[test]
fn instances_count_constructions_minus_collections() {
    let mut rt: Runtime<u32> = Runtime::new();
    let c = rt.class_setup(decl("client", None)).unwrap();
    let other = rt.class_setup(decl("tag", None)).unwrap();
    let o1 = rt.class_new(c, &Vec::new(), 1).unwrap().object;
    let o2 = rt.class_new(c, &Vec::new(), 2).unwrap().object;
    let _o3 = rt.class_new(c, &Vec::new(), 3).unwrap().object;
    let _t = rt.class_new(other, &Vec::new(), 4).unwrap().object;
    assert_eq!(rt.instances(c), Ok(3));
    rt.class_gc(o1).unwrap();
    rt.class_gc(o2).unwrap();
    assert_eq!(rt.instances(c), Ok(1));
    assert_eq!(rt.instances(other), Ok(1));
    assert_eq!(rt.class_gc(o1), Err(RuntimeError::InvalidObject));
    assert_eq!(rt.instances(c), Ok(1));
    assert_eq!(rt.instances(7), Err(RuntimeError::UnknownClass));
}

#[test]
fn collectors_run_most_derived_first() {
    let mut rt: Runtime<u32> = Runtime::new();
    let mut d = decl("window", None);
    d.collector = true;
    let window = rt.class_setup(d).unwrap();
    let drawable = rt.class_setup(decl("drawable", Some(window))).unwrap();
    let mut d = decl("drawin", Some(drawable));
    d.collector = true;
    let drawin = rt.class_setup(d).unwrap();
    let o = rt.class_new(drawin, &Vec::new(), 0).unwrap().object;
    assert_eq!(rt.class_gc(o), Ok(vec![drawin, window]));
}

#[test]
fn miss_handler_takes_precedence_over_fallback() {
    let mut rt: Runtime<u32> = Runtime::new();
    let mut d = decl("client", None);
    d.index_miss_property = true;
    d.newindex_miss_property = true;
    let c = rt.class_setup(d).unwrap();
    let o = rt.class_new(c, &Vec::new(), 0).unwrap().object;
    assert_eq!(rt.class_index(o, &s("unknown")), Ok(IndexOutcome::MissProperty(c)));
    assert_eq!(rt.class_newindex(o, &s("unknown")), Ok(NewIndexOutcome::MissProperty(c)));
    rt.set_index_miss_handler(c, Some(77)).unwrap();
    assert_eq!(rt.class_index(o, &s("unknown")), Ok(IndexOutcome::MissHandler(77)));
    assert_eq!(rt.class_newindex(o, &s("unknown")), Ok(NewIndexOutcome::MissProperty(c)));
    rt.set_newindex_miss_handler(c, Some(78)).unwrap();
    assert_eq!(rt.class_newindex(o, &s("unknown")), Ok(NewIndexOutcome::MissHandler(78)));
    rt.set_index_miss_handler(c, None).unwrap();
    assert_eq!(rt.class_index(o, &s("unknown")), Ok(IndexOutcome::MissProperty(c)));
}

#[test]
fn unhandled_name_without_handler_or_fallback() {
    let mut rt: Runtime<u32> = Runtime::new();
    let c = rt.class_setup(decl("client", None)).unwrap();
    let o = rt.class_new(c, &Vec::new(), 0).unwrap().object;
    assert_eq!(rt.class_index(o, &s("unknown")), Ok(IndexOutcome::Unhandled));
    assert_eq!(rt.class_newindex(o, &s("unknown")), Ok(NewIndexOutcome::Unhandled));
}

#[test]
fn debug_miss_signals_list_their_handlers() {
    let mut rt: Runtime<u32> = Runtime::new();
    rt.global_connect_signal(&s("debug::index::miss"), 5);
    rt.global_connect_signal(&s("debug::newindex::miss"), 6);
    rt.global_connect_signal(&s("debug::index::miss"), 8);
    assert_eq!(rt.class_index_miss_property(), vec![5, 8]);
    assert_eq!(rt.class_newindex_miss_property(), vec![6]);
    assert_eq!(rt.global_disconnect_signal(&s("debug::index::miss"), 5), 1);
    assert_eq!(rt.class_index_miss_property(), vec![8]);
}

#[test]
fn collected_object_refuses_every_access_but_valid() {
    let mut rt: Runtime<u32> = Runtime::new();
    let c = rt.class_setup(decl("client", None)).unwrap();
    rt.class_add_property(c, s("name"), true, true, true).unwrap();
    let o = rt.class_new(c, &Vec::new(), 0).unwrap().object;
    assert_eq!(rt.class_index(o, &s("valid")), Ok(IndexOutcome::Valid(true)));
    assert_eq!(
        rt.class_index(o, &s("name")),
        Ok(IndexOutcome::Getter { class: c, property: 0 })
    );
    rt.class_gc(o).unwrap();
    assert_eq!(rt.class_index(o, &s("valid")), Ok(IndexOutcome::Valid(false)));
    assert_eq!(rt.class_index(o, &s("name")), Err(RuntimeError::InvalidObject));
    assert_eq!(rt.class_index(o, &s("data")), Err(RuntimeError::InvalidObject));
    assert_eq!(rt.class_newindex(o, &s("name")), Err(RuntimeError::InvalidObject));
    assert_eq!(rt.class_newindex(o, &s("valid")), Err(RuntimeError::InvalidObject));
    assert_eq!(rt.call_method(o, &s("emit_signal")), Err(RuntimeError::InvalidObject));
    assert_eq!(rt.class_get(o), None);
    assert!(rt.payload(o).is_none());
    assert_eq!(rt.set_payload(o, 3), Err(RuntimeError::InvalidObject));
    assert!(rt.object_emit_signal(o, &s("x")).is_err());
    assert_eq!(
        rt.object_connect_signal(o, &s("x"), 1),
        Err(RuntimeError::InvalidObject)
    );
    // a handle that never existed is just as invalid
    let never = ObjectRef { index: 99 };
    assert_eq!(rt.class_index(never, &s("valid")), Ok(IndexOutcome::Valid(false)));
    assert_eq!(rt.class_index(never, &s("name")), Err(RuntimeError::InvalidObject));
}

#[test]
fn valid_defers_to_checker_and_data_is_special() {
    let mut rt: Runtime<u32> = Runtime::new();
    let mut d = decl("client", None);
    d.checker = true;
    let c = rt.class_setup(d).unwrap();
    let o = rt.class_new(c, &Vec::new(), 0).unwrap().object;
    assert_eq!(rt.class_index(o, &s("valid")), Ok(IndexOutcome::CheckValid(c)));
    assert_eq!(rt.class_index(o, &s("data")), Ok(IndexOutcome::Data));
}

#[test]
fn construction_plans_new_callbacks_in_field_order() {
    let mut rt: Runtime<u32> = Runtime::new();
    let base = rt.class_setup(decl("window", None)).unwrap();
    let c = rt.class_setup(decl("drawin", Some(base))).unwrap();
    rt.class_add_property(base, s("opacity"), true, true, true).unwrap();
    rt.class_add_property(c, s("visible"), true, true, true).unwrap();
    rt.class_add_property(c, s("type"), false, true, false).unwrap();
    rt.class_connect_signal(base, &s("new"), 900).unwrap();
    let k = rt
        .class_new(c, &names(&["visible", "junk", "opacity", "type"]), 5)
        .unwrap();
    assert_eq!(k.object, ObjectRef { index: 0 });
    assert_eq!(
        k.setters,
        vec![
            Setter { field: 0, class: c, property: 0 },
            Setter { field: 2, class: base, property: 0 },
        ]
    );
    assert_eq!(k.new_handlers, vec![900]);
    assert_eq!(rt.class_get(k.object), Some(c));
    assert_eq!(rt.payload(k.object), Some(&5));
    assert_eq!(rt.instances(c), Ok(1));
    assert_eq!(rt.instances(base), Ok(0));
    assert_eq!(
        rt.class_new(9, &Vec::new(), 0).err(),
        Some(RuntimeError::UnknownClass)
    );
}

#[test]
fn methods_come_from_the_object_class_only() {
    let mut rt: Runtime<u32> = Runtime::new();
    let mut d = decl("window", None);
    d.methods = vec![s("geometry")];
    let base = rt.class_setup(d).unwrap();
    let c = rt.class_setup(decl("drawin", Some(base))).unwrap();
    let o = rt.class_new(c, &Vec::new(), 0).unwrap().object;
    assert_eq!(rt.call_method(o, &s("emit_signal")), Ok(1));
    assert_eq!(rt.call_method(o, &s("geometry")), Err(RuntimeError::NoSuchMethod));
}

#[test]
fn type_checks_follow_the_inheritance_chain() {
    let mut rt: Runtime<u32> = Runtime::new();
    let base = rt.class_setup(decl("window", None)).unwrap();
    let c = rt.class_setup(decl("drawin", Some(base))).unwrap();
    let other = rt.class_setup(decl("tag", None)).unwrap();
    let o = rt.class_new(c, &Vec::new(), 0).unwrap().object;
    assert!(rt.toudata(o, c));
    assert!(rt.toudata(o, base));
    assert!(!rt.toudata(o, other));
    assert_eq!(rt.checkudata(o, other), Err(RuntimeError::WrongType));
    assert_eq!(rt.checkudata(o, base), Ok(None));
    assert_eq!(rt.checkudata(o, 42), Err(RuntimeError::UnknownClass));
    rt.class_gc(o).unwrap();
    assert!(!rt.toudata(o, c));
}

#[test]
fn tostring_names_the_class_chain_root_first() {
    let mut rt: Runtime<u32> = Runtime::new();
    let base = rt.class_setup(decl("window", None)).unwrap();
    let mid = rt.class_setup(decl("drawable", Some(base))).unwrap();
    let c = rt.class_setup(decl("drawin", Some(mid))).unwrap();
    let o = rt.class_new(c, &Vec::new(), 0).unwrap().object;
    assert_eq!(rt.object_tostring(o), Ok(s("window/drawable/drawin")));
    let p = rt.class_new(base, &Vec::new(), 0).unwrap().object;
    assert_eq!(rt.object_tostring(p), Ok(s("window")));
}

#[test]
fn connected_handlers_are_kept_alive_until_disconnected() {
    let mut rt: Runtime<u32> = Runtime::new();
    let c = rt.class_setup(decl("client", None)).unwrap();
    let o = rt.class_new(c, &Vec::new(), 0).unwrap().object;
    rt.object_connect_signal(o, &s("a"), 9).unwrap();
    rt.object_connect_signal(o, &s("b"), 9).unwrap();
    assert_eq!(rt.object_disconnect_signal(o, &s("a"), 9), Ok(1));
    assert_eq!(rt.object_disconnect_signal(o, &s("a"), 9), Ok(0));
    // one reference is left for the connection to "b"
    assert_eq!(rt.object_unref_item(o, 9), Ok(Decref::Released));
    assert_eq!(rt.object_unref_item(o, 9), Ok(Decref::NotFound));
    assert_eq!(rt.object_ref_item(o, 4), Ok(4));
    assert_eq!(rt.object_unref_item(o, 4), Ok(Decref::Released));
    rt.class_connect_signal(c, &s("x"), 3).unwrap();
    assert_eq!(rt.class_disconnect_signal(c, &s("x"), 3), Ok(1));
    assert_eq!(rt.object_unref(3), Decref::NotFound);
    assert_eq!(rt.object_ref(11), Ok(11));
    assert_eq!(rt.object_unref(11), Decref::Released);
}

#[test]
fn integer_arguments_are_range_checked() {
    assert_eq!(checkinteger_range(5, 0, 10), Ok(5));
    assert_eq!(checkinteger_range(0, 0, 10), Ok(0));
    assert_eq!(checkinteger_range(10, 0, 10), Ok(10));
    assert_eq!(checkinteger_range(11, 0, 10), Err(RuntimeError::OutOfRange));
    assert_eq!(checkinteger_range(-1, 0, 10), Err(RuntimeError::OutOfRange));
    assert_eq!(optinteger_range(None, 42, 0, 10), Ok(42));
    assert_eq!(optinteger_range(Some(3), 42, 0, 10), Ok(3));
    assert_eq!(optinteger_range(Some(30), 42, 0, 10), Err(RuntimeError::OutOfRange));
}

#[test]
fn failing_handler_does_not_stop_the_pass() {
    let mut rt: Runtime<u32> = Runtime::new();
    let c = rt.class_setup(decl("client", None)).unwrap();
    let o = rt.class_new(c, &Vec::new(), 0).unwrap().object;
    rt.object_connect_signal(o, &s("x"), 1).unwrap();
    rt.object_connect_signal(o, &s("x"), 2).unwrap();
    rt.class_connect_signal(c, &s("x"), 3).unwrap();
    let e = rt.object_emit_signal(o, &s("x")).unwrap();
    assert_eq!(e.check, None);
    let mut pass = EmissionPass::start(e, true);
    let mut ran = Vec::new();
    while let Some(h) = pass.current() {
        ran.push(h);
        // handler 2 raises an error
        pass.finish_call(h != 2);
    }
    assert!(pass.is_done());
    assert_eq!(ran, vec![1, 2, 3]);
    assert_eq!(pass.failures(), vec![2]);
}

#[test]
fn class_pass_runs_in_connection_order() {
    let mut pass = EmissionPass::start_class(vec![4, 5]);
    assert!(!pass.is_done());
    assert_eq!(pass.current(), Some(4));
    pass.finish_call(false);
    assert_eq!(pass.current(), Some(5));
    pass.finish_call(false);
    assert_eq!(pass.current(), None);
    assert_eq!(pass.failures(), vec![4, 5]);
}

#[test]
fn checkudata_separates_type_errors_from_invalid_objects() {
    let mut rt: Runtime<u32> = Runtime::new();
    let mut d = decl("window", None);
    d.checker = true;
    let base = rt.class_setup(d).unwrap();
    let c = rt.class_setup(decl("drawin", Some(base))).unwrap();
    let other = rt.class_setup(decl("tag", None)).unwrap();
    let o = rt.class_new(c, &Vec::new(), 0).unwrap().object;
    assert_eq!(rt.checkudata(o, base), Ok(Some(base)));
    assert_eq!(rt.checkudata(o, c), Ok(None));
    assert_eq!(rt.checkudata(o, other), Err(RuntimeError::WrongType));
    rt.class_gc(o).unwrap();
    assert_eq!(rt.checkudata(o, c), Err(RuntimeError::InvalidObject));
    assert_eq!(rt.checkudata(o, other), Err(RuntimeError::InvalidObject));
}

#[test]
fn emission_on_object_rejected_by_checker_runs_nothing() {
    let mut rt: Runtime<u32> = Runtime::new();
    let mut d = decl("client", None);
    d.checker = true;
    let c = rt.class_setup(d).unwrap();
    let o = rt.class_new(c, &Vec::new(), 0).unwrap().object;
    rt.object_connect_signal(o, &s("x"), 1).unwrap();
    rt.class_connect_signal(c, &s("x"), 2).unwrap();
    let e = rt.object_emit_signal(o, &s("x")).unwrap();
    assert_eq!(e.check, Some(c));
    let rejected = EmissionPass::start(e, false);
    assert!(rejected.is_done());
    assert_eq!(rejected.current(), None);
    let e = rt.object_emit_signal(o, &s("x")).unwrap();
    let mut accepted = EmissionPass::start(e, true);
    assert_eq!(accepted.current(), Some(1));
    accepted.finish_call(true);
    assert_eq!(accepted.current(), Some(2));
}

#[test]
fn handler_disconnecting_another_during_its_pass() {
    let mut rt: Runtime<u32> = Runtime::new();
    let c = rt.class_setup(decl("client", None)).unwrap();
    let o = rt.class_new(c, &Vec::new(), 0).unwrap().object;
    rt.object_connect_signal(o, &s("x"), 1).unwrap();
    rt.object_connect_signal(o, &s("x"), 2).unwrap();
    let mut pass = EmissionPass::start(rt.object_emit_signal(o, &s("x")).unwrap(), true);
    let mut ran = Vec::new();
    while let Some(h) = pass.current() {
        ran.push(h);
        if h == 1 {
            assert_eq!(rt.object_disconnect_signal(o, &s("x"), 2), Ok(1));
        }
        pass.finish_call(true);
    }
    assert_eq!(ran, vec![1, 2]);
    assert_eq!(rt.object_emit_signal(o, &s("x")).unwrap().object_handlers, vec![1]);
}
