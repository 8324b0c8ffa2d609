use code_evolution::shell::{get_project_root, greet};

#[test]
fn greeting_names_the_caller() {
    assert_eq!(greet("Ada"), "Hello, Ada! You've been greeted from Rust!");
    assert_eq!(greet(""), "Hello, ! You've been greeted from Rust!");
}

#[test]
fn project_root_is_fixed() {
    assert_eq!(get_project_root(), "/home/duksan/바탕화면/gumgang_0_5");
}
