use cel_rs::list_traits::{EmptyList, List};
use cel_rs::type_list::IntoList;

#[test]
fn type_list_test_empty_list() {
    assert_eq!(<() as EmptyList>::empty(), ());
}

#[test]
fn type_list_test_into_list() {
    assert_eq!(().into_list(), ());
    assert_eq!((1, 2, 3).into_list(), (1, (2, (3, ()))));
    assert_eq!((1, 2.5, "Hello").into_list(), (1, (2.5, ("Hello", ()))));
}

#[test]
fn type_list_test_push_front() {
    assert_eq!(().push_first(1), (1, ()));
    assert_eq!((1, 2, 3).into_list().push(4), (4, (1, (2, (3, ())))));
}

#[test]
fn type_list_test_reverse() {
    assert_eq!((1, 2, 3).into_list().reverse(), (3, (2, (1, ()))));
}

#[test]
fn type_list_test_list_length() {
    assert_eq!(<() as List>::length(), 0);
    assert_eq!(<(i32, ()) as List>::length(), 1);
    assert_eq!(<(i32, (f64, ())) as List>::length(), 2);
}

#[test]
fn type_list_test_tuple_list() {
    let list = (1, 2.5, "Hello").into_list();
    println!("{:?}", list);
}
