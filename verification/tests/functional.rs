use sapri::fp;
use sapri::fp2;

#[test]
fn fp_test_eval() {
    let res = fp::eval(true, || "vero", || "falso");
    assert_eq!(res, "vero");
}

#[test]
fn fp_test_mask() {
    assert_eq!(fp::mask(true), 1);
    assert_eq!(fp::mask(false), 0);
}

#[test]
fn fp_eval_false_branch() {
    let res = fp::eval(false, || "vero", || "falso");
    assert_eq!(res, "falso");
}

#[test]
fn fp_either_and_option_helpers() {
    let r: fp::Either<i32, i32> = fp::Either::Right(3);
    assert!(r.is_right());
    assert!(!r.is_left());
    let doubled = r.map_right(|x| x * 2);
    assert_eq!(doubled.unwrap_right(), 6);
    let l: fp::Either<i32, i32> = fp::Either::Left(1);
    assert!(l.is_left());
    let still_left = l.map_right(|x| x + 1);
    assert!(still_left.is_left());
    assert_eq!(fp::bind(Some(4), |x| if x > 3 { Some(x + 1) } else { None }), Some(5));
    assert_eq!(fp::bind(None::<i32>, |x| Some(x)), None);
    assert_eq!(fp::fmap(Some(2), |x| x * 10), Some(20));
    assert_eq!(fp::fmap(None::<i32>, |x| x * 10), None);
    assert_eq!(fp::tap(7, |_| {}), 7);
    assert_eq!(fp::identity("x"), "x");
}

#[test]
fn fp2_test_eval() {
    assert_eq!(fp2::eval(true, 10, 20), 10);
    assert_eq!(fp2::eval(false, 10, 20), 20);
    assert_eq!(fp2::eval(true, "vero", "falso"), "vero");
}

#[test]
fn fp2_test_mask() {
    assert_eq!(fp2::mask(true), 1);
    assert_eq!(fp2::mask(false), 0);
}

#[test]
fn fp2_test_eval_lazy() {
    let mut counter = 0;
    let risultato = fp2::eval_lazy(
        true,
        || {
            counter += 1;
            42
        },
        || 0,
    );
    assert_eq!(risultato, 42);
    assert_eq!(counter, 1);
}

#[test]
fn fp2_test_eval_macro() {
    assert_eq!(fp2::eval(true, 10, 20), 10);
    assert_eq!(fp2::eval(false, 10, 20), 20);

    let risultato = fp2::eval(true, 10 + 5, 20 - 5);
    assert_eq!(risultato, 15);
}

#[test]
fn fp2_test_get_or_default() {
    let some: Option<i32> = Some(42);
    let none: Option<i32> = None;

    assert_eq!(fp2::get_or_default(&some, 0), 42);
    assert_eq!(fp2::get_or_default(&none, 0), 0);
}

#[test]
fn fp2_test_get_or_default_with() {
    let none: Option<i32> = None;
    let result = fp2::get_or_default_with(&none, || 99);
    assert_eq!(result, 99);
}

#[test]
fn fp2_test_set_or_default() {
    let mut opt: Option<i32> = None;

    fp2::set_or_default(&mut opt, Some(42), 0);
    assert_eq!(opt, Some(42));

    fp2::set_or_default(&mut opt, None, 99);
    assert_eq!(opt, Some(99));
}

#[test]
fn fp2_test_curried() {
    let some: Option<i32> = Some(42);
    let none: Option<i32> = None;

    let get_with_default = fp2::get_curried(0);
    assert_eq!(get_with_default(&some), 42);
    assert_eq!(get_with_default(&none), 0);

    let mut opt: Option<i32> = None;
    let set_with_default = fp2::set_curried(99);

    set_with_default(&mut opt, Some(42));
    assert_eq!(opt, Some(42));

    set_with_default(&mut opt, None);
    assert_eq!(opt, Some(99));
}

#[test]
fn fp2_or_else_and_set_with() {
    assert_eq!(fp2::or_else(&Some(1), || 5), 1);
    assert_eq!(fp2::or_else(&None, || 5), 5);
    let mut t: Option<i32> = Some(1);
    fp2::set_or_default_with(&mut t, None, || 8);
    assert_eq!(t, Some(8));
    fp2::set_or_default_with(&mut t, Some(3), || 8);
    assert_eq!(t, Some(3));
}
