use daqingest::valuetype::{EnumVariant, EnumVariantContainer, EnumVariantRef};
use std::cmp::Ordering;

fn ev(ix: i16, name: &str) -> EnumVariant {
    EnumVariant::new(ix, name.to_string())
}

#[test]
fn enum_container_push_get_and_order() {
    let mut c = EnumVariantContainer::from_iter(vec![ev(0, "Off"), ev(1, "On")]);
    c.push_back(ev(2, "Fault"));
    assert_eq!(c.len(), 3);
    let r = c.get_iter_ty_1(1).unwrap();
    assert_eq!((r.ix, r.name), (1, "On"));
    assert!(c.get_iter_ty_1(3).is_none());
    assert_eq!(c.preview(), (Some(0), Some(2)));
    assert_eq!(c.byte_estimate(), 72);
    assert_eq!(c.into_iter_ty_2(), vec![ev(0, "Off"), ev(1, "On"), ev(2, "Fault")]);
}

#[test]
fn enum_container_drain_and_truncate() {
    let mut a = EnumVariantContainer::from_iter(vec![ev(0, "a"), ev(1, "b"), ev(2, "c"), ev(3, "d")]);
    let mut b = EnumVariantContainer::from_iter(vec![ev(9, "z")]);
    a.drain_into(&mut b, 1, 3);
    assert_eq!(b.clone().into_iter_ty_2(), vec![ev(9, "z"), ev(1, "b"), ev(2, "c")]);
    assert_eq!(a.clone().into_iter_ty_2(), vec![ev(0, "a"), ev(3, "d")]);
    b.truncate_front(2);
    assert_eq!(b.clone().into_iter_ty_2(), vec![ev(1, "b"), ev(2, "c")]);
    b.truncate_front(5);
    assert_eq!(b.len(), 2);
    let (ixs, names) = b.into_user_facing_fields();
    assert_eq!(ixs, vec![1, 2]);
    assert_eq!(names, vec!["b".to_string(), "c".to_string()]);
    a.clear();
    assert_eq!(a.len(), 0);
    assert_eq!(a.preview(), (None, None));
}

#[test]
fn enum_value_compare() {
    let r = EnumVariantRef { ix: 1, name: "On" };
    assert_eq!(r.cmp_a(&ev(1, "On")), Some(Ordering::Equal));
    assert_eq!(r.cmp_a(&ev(2, "Aa")), Some(Ordering::Less));
    assert_eq!(r.cmp_a(&ev(0, "Zz")), Some(Ordering::Greater));
    assert_eq!(r.cmp_a(&ev(1, "Onx")), Some(Ordering::Less));
    assert_eq!(r.cmp_a(&ev(1, "Ab")), Some(Ordering::Greater));
}

use daqingest::streamlog::{Level, LogItem, Streamlog};

#[test]
fn streamlog_hands_out_newest_first() {
    let mut l = Streamlog::new(3);
    assert_eq!(l.pop(), None);
    l.append(Level::Info, "first".to_string());
    l.append(Level::Error, "second".to_string());
    assert_eq!(l.pop(), Some(LogItem { level: Level::Error, msg: "second".to_string() }));
    assert_eq!(l.pop(), Some(LogItem { level: Level::Info, msg: "first".to_string() }));
    assert_eq!(l.pop(), None);
}
