use vmos::symtab::{Errors, SymTab};

#[test]
fn tests_new_creates_empty_table() {
    let s = SymTab::new();
    assert_eq!(s.len(), 0);
}

#[test]
fn tests_find_by_bad_name() {
    let s = SymTab::new();
    assert_eq!(s.find_by_name("undefined"), Err(Errors::Undefined));
}

#[test]
fn tests_create_local() {
    let mut s = SymTab::new();
    s.create_local("x");
    assert_eq!(s.find_by_name("x").unwrap().offset(), 2);

    s.create_local("y");
    assert_eq!(s.find_by_name("y").unwrap().offset(), 4);

    // A later declaration shadows an earlier one.
    s.create_local("x");
    assert_eq!(s.find_by_name("x").unwrap().offset(), 6);
}

#[test]
fn acceptance_new_creates_empty_table() {
    let s = SymTab::new();
    assert_eq!(s.len(), 0);
}

#[test]
fn acceptance_find_by_bad_name() {
    let s = SymTab::new();
    assert_eq!(s.find_by_name("undefined"), Err(Errors::Undefined));
}

#[test]
fn acceptance_create_local() {
    let mut s = SymTab::new();
    s.create_local("x");
    assert_eq!(s.find_by_name("x").unwrap().offset(), 2);

    s.create_local("y");
    assert_eq!(s.find_by_name("y").unwrap().offset(), 4);

    s.create_local("x");
    assert_eq!(s.find_by_name("x").unwrap().offset(), 6);
}

#[test]
fn temporaries_are_released_in_stack_order() {
    let mut s = SymTab::new();
    assert_eq!(s.alloc_temp(), 2);
    assert_eq!(s.alloc_temp(), 4);
    s.free_temp();
    assert_eq!(s.alloc_temp(), 4);
    s.create_local("z");
    assert_eq!(s.len(), 1);
    let found = s.find_by_name("z").unwrap();
    assert_eq!(found.name, "z");
    assert_eq!(found.offset(), 6);
}
