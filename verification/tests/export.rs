use jni_macros::export::{argument_name_is_free, exported_name, lifetime_name_is_free};

#[test]
fn exported_names() {
    assert_eq!(
        exported_name("me.author.packagename", "MyClass", "hello_world"),
        "Java_me_author_packagename_MyClass_hello_1world"
    );
    assert_eq!(exported_name("me.author", "", "run"), "Java_me_author__run");
    assert_eq!(exported_name("me/author", "sub.Inner", "_a__b_"), "Java_me_author_sub_Inner__1a_1_1b_1");
    assert_eq!(exported_name("", "", ""), "Java___");
}

#[test]
fn names_that_are_taken() {
    assert!(!argument_name_is_free("env"));
    assert!(!argument_name_is_free("_class"));
    assert!(argument_name_is_free("class"));
    assert!(argument_name_is_free("s"));
    assert!(!lifetime_name_is_free("local"));
    assert!(lifetime_name_is_free("a"));
}
