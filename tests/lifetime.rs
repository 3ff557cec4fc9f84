use workshop::lifetime::longest;

#[test]
fn return_aa_when_a_and_aa() {
    let a = String::from("a");
    let aa = String::from("aa");
    assert_eq!("aa", longest(&a, &aa));
}

#[test]
fn return_bb_when_bb_and_b() {
    let b = String::from("b");
    let bb = String::from("bb");
    assert_eq!("bb", longest(&bb, &b));
}

#[test]
fn longest_prefers_the_first_on_a_tie() {
    assert_eq!("xy", longest("xy", "zw"));
}
