use pointy::Num;

#[test]
fn num_for_i32() {
    assert_eq!(<i32 as Num>::min(3, -5), -5);
    assert_eq!(<i32 as Num>::max(3, -5), 3);
    assert_eq!(<i32 as Num>::min_value(), i32::MIN);
    assert_eq!(<i32 as Num>::max_value(), i32::MAX);
    assert_eq!(<i32 as Num>::clamp(7, -2, 4), 4);
    assert_eq!(<i32 as Num>::clamp(-9, -2, 4), -2);
    assert_eq!(<i32 as Num>::clamp(1, -2, 4), 1);
    assert!(<i32 as Num>::is_less(-1, 0));
    assert!(!<i32 as Num>::is_less(0, 0));
    assert_eq!(<i32 as Num>::sub(5, 8), -3);
}
