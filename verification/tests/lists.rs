use cel_rs::list_traits::{EmptyList, List};
use cel_rs::tuple_list::IntoTupleList;

#[test]
fn empty_list() {
    assert_eq!(<() as EmptyList>::empty(), ());
}

#[test]
fn into_list() {
    assert_eq!(().into_tuple_list(), ());
    assert_eq!((1, 2, 3).into_tuple_list(), (1, (2, (3, ()))));
    assert_eq!(
        (1, 2.5, "Hello").into_tuple_list(),
        (1, (2.5, ("Hello", ())))
    );
}

#[test]
fn push() {
    assert_eq!(().push_first(1), (1, ()));
    assert_eq!((1, 2, 3).into_tuple_list().push(4), (4, (1, (2, (3, ())))));
}

#[test]
fn reverse() {
    assert_eq!((1, 2, 3).into_tuple_list().reverse(), (3, (2, (1, ()))));
}

#[test]
fn list_length() {
    assert_eq!(<() as List>::length(), 0);
    assert_eq!(<(i32, ()) as List>::length(), 1);
    assert_eq!(<(i32, (f64, ())) as List>::length(), 2);
}

#[test]
fn tuple_list() {
    let list = (1, 2.5, "Hello").into_tuple_list();
    println!("{:?}", list);
}
