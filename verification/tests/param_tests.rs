//! The parameter store: positional and keyed access, copying, and the
//! typed miss.
use simcore::fixed::Fx;
use simcore::params::ParamList;
use simcore::NumericalError;

fn fx(v: f64) -> Fx {
    Fx::from_raw((v * 4294967296.0).round() as i64)
}

#[test]
fn push_get_set_len() {
    let mut p = ParamList::new();
    assert_eq!(p.len(), 0);
    p.push("alpha", "a", fx(1.5), "first");
    p.push("beta", "b", fx(-2.0), "second");
    assert_eq!(p.len(), 2);
    assert_eq!(p.get(0), fx(1.5));
    assert_eq!(p.get(1), fx(-2.0));
    p.set(1, fx(7.25));
    assert_eq!(p.get(1), fx(7.25));
    assert_eq!(p.get_title(0), "a");
    assert_eq!(p.get_tooltip(1), "second");
}

#[test]
fn lookup_by_key_finds_the_right_entry() {
    let mut p = ParamList::new();
    p.push("alpha", "a", fx(1.0), "");
    p.push("beta", "b", fx(2.0), "");
    p.push("gamma", "c", fx(3.0), "");
    assert_eq!(p.get_by_key(&"beta".to_owned()).unwrap(), fx(2.0));
    assert_eq!(p.get_by_key(&"gamma".to_owned()).unwrap(), fx(3.0));
}

#[test]
fn missing_key_is_a_typed_error() {
    let mut p = ParamList::new();
    p.push("alpha", "a", fx(1.0), "");
    assert_eq!(
        p.get_by_key(&"omega".to_owned()).unwrap_err(),
        NumericalError::ParameterNotFound
    );
}

#[test]
fn copy_from_replaces_the_whole_set() {
    let mut src = ParamList::new();
    src.push("x", "x", fx(10.0), "ten");
    src.push("y", "y", fx(20.0), "twenty");
    let mut dst = ParamList::new();
    dst.push("z", "z", fx(-1.0), "gone");
    dst.copy_from(&src);
    assert_eq!(dst.len(), 2);
    assert_eq!(dst.get_by_key(&"x".to_owned()).unwrap(), fx(10.0));
    assert_eq!(dst.get_by_key(&"y".to_owned()).unwrap(), fx(20.0));
    assert!(dst.get_by_key(&"z".to_owned()).is_err());
}

#[test]
fn duplicate_is_deep() {
    let mut src = ParamList::new();
    src.push("x", "x", fx(1.0), "");
    let copy = src.duplicate();
    src.set(0, fx(5.0));
    assert_eq!(copy.get(0), fx(1.0));
    assert_eq!(src.get(0), fx(5.0));
}
