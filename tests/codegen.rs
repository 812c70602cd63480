use vmos::codegen::{
    cg_add, cg_const_int, cg_goto, cg_item, cg_local, cg_store_a, cg_sub,
    CtrlDest, DataDest, Ins, RegCache,
};
use vmos::parser::{negate, type_match, type_mismatch, ErrType, Item, Op, Type};
use vmos::symtab::SymTab;

#[test]
fn cg_local_declarations() {
    let mut st = SymTab::new();
    st.create_local(&"x".to_string());
    let result = cg_item(
        Item::DeclareLocal("x".to_string(), Box::new(Item::ConstInteger(42))),
        &mut st,
        DataDest::RegA,
        CtrlDest::Return,
        &mut RegCache::new(),
    );
    assert_eq!(
        result,
        Ok(vec![Ins::LoadAImm16(42), Ins::StoreADP(2), Ins::Return,])
    );
}

#[test]
fn cg_integers() {
    let result = cg_item(
        Item::ConstInteger(42),
        &mut SymTab::new(),
        DataDest::RegA,
        CtrlDest::Return,
        &mut RegCache::new(),
    );
    assert_eq!(result, Ok(vec![Ins::LoadAImm16(42), Ins::Return,]));
}

#[test]
fn cg_local_access() {
    let result = cg_item(
        Item::LocalVar(24),
        &mut SymTab::new(),
        DataDest::RegA,
        CtrlDest::Return,
        &mut RegCache::new(),
    );
    assert_eq!(result, Ok(vec![Ins::LoadADP(24), Ins::Return,]));
}

#[test]
fn cg_statement_list() {
    let result = cg_item(
        Item::StatementList(vec![
            Item::LocalVar(42),
            Item::Assign(
                Box::new(Item::LocalVar(36)),
                Box::new(Item::ConstInteger(99)),
            ),
            Item::LocalVar(24),
        ]),
        &mut SymTab::new(),
        DataDest::RegA,
        CtrlDest::Return,
        &mut RegCache::new(),
    );
    assert_eq!(
        result,
        Ok(vec![
            Ins::LoadAImm16(99),
            Ins::StoreADP(36),
            Ins::LoadADP(24),
            Ins::Return,
        ])
    );
}

#[test]
fn cg_assignment() {
    let result = cg_item(
        Item::Assign(
            Box::new(Item::LocalVar(36)),
            Box::new(Item::ConstInteger(99)),
        ),
        &mut SymTab::new(),
        DataDest::RegA,
        CtrlDest::Return,
        &mut RegCache::new(),
    );
    assert_eq!(
        result,
        Ok(vec![Ins::LoadAImm16(99), Ins::StoreADP(36), Ins::Return,])
    );
}

#[test]
fn cg_add_sub() {
    let result = cg_item(
        Item::Add(
            Box::new(Item::LocalVar(2)),
            Box::new(Item::Sub(
                Box::new(Item::LocalVar(4)),
                Box::new(Item::LocalVar(6)),
            )),
        ),
        &mut SymTab::new(),
        DataDest::RegA,
        CtrlDest::Return,
        &mut RegCache::new(),
    );
    assert_eq!(
        result,
        Ok(vec![
            Ins::LoadADP(4),
            Ins::SubtractADP(6),
            Ins::AddADP(2),
            Ins::Return,
        ])
    );
}

#[test]
fn constants_are_not_folded_here() {
    let mut st = SymTab::new();
    let result = cg_add(
        Box::new(Item::ConstInteger(1)),
        Box::new(Item::ConstInteger(2)),
        &mut st,
        DataDest::RegA,
        CtrlDest::Next,
        &mut RegCache::new(),
    );
    assert_eq!(result, Err(ErrType::ParserNotFoldingConstants));
    let result = cg_sub(
        Box::new(Item::ConstInteger(1)),
        Box::new(Item::ConstInteger(2)),
        &mut st,
        DataDest::RegA,
        CtrlDest::Next,
        &mut RegCache::new(),
    );
    assert_eq!(result, Err(ErrType::ParserNotFoldingConstants));
}

#[test]
fn addition_puts_the_constant_last_and_uses_increment() {
    let result = cg_add(
        Box::new(Item::LocalVar(8)),
        Box::new(Item::ConstInteger(1)),
        &mut SymTab::new(),
        DataDest::Local(10),
        CtrlDest::Next,
        &mut RegCache::new(),
    );
    assert_eq!(
        result,
        Ok(vec![Ins::LoadADP(8), Ins::IncA, Ins::StoreADP(10)])
    );
}

#[test]
fn nested_sums_use_a_temporary() {
    let mut st = SymTab::new();
    let result = cg_sub(
        Box::new(Item::Add(Box::new(Item::LocalVar(4)), Box::new(Item::ConstInteger(3)))),
        Box::new(Item::Add(Box::new(Item::LocalVar(6)), Box::new(Item::LocalVar(8)))),
        &mut st,
        DataDest::RegA,
        CtrlDest::Return,
        &mut RegCache::new(),
    );
    assert_eq!(
        result,
        Ok(vec![
            Ins::LoadADP(8),
            Ins::AddADP(6),
            Ins::StoreADP(2),
            Ins::LoadADP(4),
            Ins::AddAImm16(3),
            Ins::SubtractADP(2),
            Ins::Return,
        ])
    );
    assert_eq!(st.alloc_temp(), 2);
}

#[test]
fn assignment_needs_a_local_and_a_register_destination() {
    let result = vmos::codegen::cg_assignment(
        Item::ConstInteger(1),
        Item::ConstInteger(2),
        &mut SymTab::new(),
        DataDest::RegA,
        CtrlDest::Next,
        &mut RegCache::new(),
    );
    assert_eq!(result, Err(ErrType::LValExpected));
    let result = vmos::codegen::cg_assignment(
        Item::LocalVar(1),
        Item::ConstInteger(2),
        &mut SymTab::new(),
        DataDest::Local(4),
        CtrlDest::Next,
        &mut RegCache::new(),
    );
    assert_eq!(result, Err(ErrType::UnexpectedCGArgs));
}

#[test]
fn undeclared_names_and_error_items_are_errors() {
    let result = cg_item(
        Item::DeclareLocal("y".to_string(), Box::new(Item::ConstInteger(1))),
        &mut SymTab::new(),
        DataDest::RegA,
        CtrlDest::Next,
        &mut RegCache::new(),
    );
    assert_eq!(result, Err(ErrType::UndefinedId("y".to_string())));
    let result = cg_item(
        Item::Error(ErrType::TypeMismatch),
        &mut SymTab::new(),
        DataDest::RegA,
        CtrlDest::Next,
        &mut RegCache::new(),
    );
    assert_eq!(result, Err(ErrType::ExpressionExpected));
}

#[test]
fn simple_fragments() {
    assert_eq!(cg_goto(CtrlDest::Next), Ok(vec![]));
    assert_eq!(cg_goto(CtrlDest::Return), Ok(vec![Ins::Return]));
    let mut rc = RegCache::new();
    assert_eq!(cg_store_a(DataDest::Local(6), &mut rc), Ok(vec![Ins::StoreADP(6)]));
    // The accumulator now mirrors local 6, so loading it again emits nothing.
    assert_eq!(cg_local(6, DataDest::RegA, CtrlDest::Next, &mut rc), Ok(vec![]));
    assert_eq!(
        cg_const_int(0, DataDest::Local(4), CtrlDest::Return, &mut rc),
        Ok(vec![Ins::StoreZeroDP(4), Ins::Return])
    );
    assert_eq!(negate(Item::ConstInteger(1)), Item::ConstInteger(0xFFFF));
    assert_eq!(negate(Item::LocalVar(3)), Item::LocalVar(3));
}

#[test]
fn tests_local_declarations() {
    let mut st = SymTab::new();
    st.create_local(&"x".to_string());
    let result = cg_item(
        Item::DeclareLocal("x".to_string(), Box::new(Item::ConstInteger(42))),
        &mut st,
        DataDest::RegA,
        CtrlDest::Return,
        &mut RegCache::new(),
    );
    assert_eq!(
        result,
        Ok(vec![Ins::LoadAImm16(42), Ins::StoreADP(2), Ins::Return,])
    );
}

#[test]
fn tests_integers() {
    let result = cg_item(
        Item::ConstInteger(42),
        &mut SymTab::new(),
        DataDest::RegA,
        CtrlDest::Return,
        &mut RegCache::new(),
    );
    assert_eq!(result, Ok(vec![Ins::LoadAImm16(42), Ins::Return,]));
}

#[test]
fn tests_local_access() {
    let result = cg_item(
        Item::LocalVar(24),
        &mut SymTab::new(),
        DataDest::RegA,
        CtrlDest::Return,
        &mut RegCache::new(),
    );
    assert_eq!(result, Ok(vec![Ins::LoadADP(24), Ins::Return,]));
}

#[test]
fn tests_statement_list() {
    let result = cg_item(
        Item::StatementList(vec![
            Item::LocalVar(42),
            Item::Assign(
                Box::new(Item::LocalVar(36)),
                Box::new(Item::ConstInteger(99)),
            ),
            Item::LocalVar(24),
        ]),
        &mut SymTab::new(),
        DataDest::RegA,
        CtrlDest::Return,
        &mut RegCache::new(),
    );
    assert_eq!(
        result,
        Ok(vec![
            Ins::LoadAImm16(99),
            Ins::StoreADP(36),
            Ins::LoadADP(24),
            Ins::Return,
        ])
    );
}

#[test]
fn tests_assignment() {
    let result = cg_item(
        Item::Assign(
            Box::new(Item::LocalVar(36)),
            Box::new(Item::ConstInteger(99)),
        ),
        &mut SymTab::new(),
        DataDest::RegA,
        CtrlDest::Return,
        &mut RegCache::new(),
    );
    assert_eq!(
        result,
        Ok(vec![Ins::LoadAImm16(99), Ins::StoreADP(36), Ins::Return,])
    );
}

#[test]
fn tests_add_sub() {
    let result = cg_item(
        Item::Add(
            Box::new(Item::LocalVar(2)),
            Box::new(Item::Sub(
                Box::new(Item::LocalVar(4)),
                Box::new(Item::LocalVar(6)),
            )),
        ),
        &mut SymTab::new(),
        DataDest::RegA,
        CtrlDest::Return,
        &mut RegCache::new(),
    );
    assert_eq!(
        result,
        Ok(vec![
            Ins::LoadADP(4),
            Ins::SubtractADP(6),
            Ins::AddADP(2),
            Ins::Return,
        ])
    );
}

#[test]
fn item_types() {
    let c = Item::ConstInteger(1);
    let v = Item::LocalVar(2);
    assert!(type_match(&c, &v));
    let e = Item::Error(ErrType::TypeMismatch);
    assert!(type_mismatch(&e, &e));
    let empty = Item::StatementList(vec![]);
    assert!(type_match(&empty, &Item::StatementList(vec![])));
    assert!(type_mismatch(&empty, &c));
    let list = Item::StatementList(vec![Item::LocalVar(1), Item::ConstInteger(3)]);
    assert!(type_match(&list, &c));
    let bits = Item::Apply(Type::BitSet, Op::Add, Box::new(Item::LocalVar(1)), Box::new(Item::LocalVar(2)));
    assert!(type_mismatch(&bits, &c));
}

#[test]
fn add_sub() {
    // (a-b)+(c-d)
    let result = cg_item(
        Item::Apply(
            Type::Cardinal,
            Op::Add,
            Box::new(Item::Apply(
                Type::Cardinal,
                Op::Subtract,
                Box::new(Item::LocalVar(12)),
                Box::new(Item::ConstInteger(100)),
            )),
            Box::new(Item::Apply(
                Type::Cardinal,
                Op::Subtract,
                Box::new(Item::LocalVar(14)),
                Box::new(Item::LocalVar(16)),
            )),
        ),
        &mut SymTab::new(),
        DataDest::RegA,
        CtrlDest::Return,
        &mut RegCache::new(),
    );
    assert_eq!(
        result,
        Ok(vec![
            Ins::LoadADP(12),
            Ins::SubtractAImm16(100),
            Ins::StoreADP(2),
            Ins::LoadADP(14),
            Ins::SubtractADP(16),
            Ins::AddADP(2),
            Ins::Return,
        ])
    );

    // (a+b)-(c+d)
    let result = cg_item(
        Item::Apply(
            Type::Cardinal,
            Op::Subtract,
            Box::new(Item::Apply(
                Type::Cardinal,
                Op::Add,
                Box::new(Item::LocalVar(12)),
                Box::new(Item::ConstInteger(100)),
            )),
            Box::new(Item::Apply(
                Type::Cardinal,
                Op::Add,
                Box::new(Item::LocalVar(14)),
                Box::new(Item::LocalVar(16)),
            )),
        ),
        &mut SymTab::new(),
        DataDest::RegA,
        CtrlDest::Return,
        &mut RegCache::new(),
    );
    assert_eq!(
        result,
        Ok(vec![
            Ins::LoadADP(16),
            Ins::AddADP(14),
            Ins::StoreADP(2),
            Ins::LoadADP(12),
            Ins::AddAImm16(100),
            Ins::SubtractADP(2),
            Ins::Return,
        ])
    );
}

#[test]
fn cg_new_add_sub() {
    // (a-b)+(c-d)
    let result = cg_item(
        Item::Apply(
            Type::Cardinal,
            Op::Add,
            Box::new(Item::Apply(
                Type::Cardinal,
                Op::Subtract,
                Box::new(Item::LocalVar(12)),
                Box::new(Item::ConstInteger(100)),
            )),
            Box::new(Item::Apply(
                Type::Cardinal,
                Op::Subtract,
                Box::new(Item::LocalVar(14)),
                Box::new(Item::LocalVar(16)),
            )),
        ),
        &mut SymTab::new(),
        DataDest::RegA,
        CtrlDest::Return,
        &mut RegCache::new(),
    );
    assert_eq!(
        result,
        Ok(vec![
            Ins::LoadADP(12),
            Ins::SubtractAImm16(100),
            Ins::StoreADP(2),
            Ins::LoadADP(14),
            Ins::SubtractADP(16),
            Ins::AddADP(2),
            Ins::Return,
        ])
    );

    // (a+b)-(c+d)
    let result = cg_item(
        Item::Apply(
            Type::Cardinal,
            Op::Subtract,
            Box::new(Item::Apply(
                Type::Cardinal,
                Op::Add,
                Box::new(Item::LocalVar(12)),
                Box::new(Item::ConstInteger(100)),
            )),
            Box::new(Item::Apply(
                Type::Cardinal,
                Op::Add,
                Box::new(Item::LocalVar(14)),
                Box::new(Item::LocalVar(16)),
            )),
        ),
        &mut SymTab::new(),
        DataDest::RegA,
        CtrlDest::Return,
        &mut RegCache::new(),
    );
    assert_eq!(
        result,
        Ok(vec![
            Ins::LoadADP(16),
            Ins::AddADP(14),
            Ins::StoreADP(2),
            Ins::LoadADP(12),
            Ins::AddAImm16(100),
            Ins::SubtractADP(2),
            Ins::Return,
        ])
    );
}
