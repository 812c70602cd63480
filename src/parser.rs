//! Syntax tree and types of the compiler's source language.
use vstd::prelude::*;

verus! {

/// Unsigned machine word of the target.
pub type TargetUInt = u16;

/// Byte of the target; also a frame offset.
pub type TargetByte = u8;

/// Compilation errors.
#[derive(PartialEq, Debug, Clone)]
pub enum ErrType {
    IdentifierExpected,
    CharExpected(char),
    UndefinedId(String),
    PrimaryExpected,
    LValExpected,
    TypeMismatch,
    ExpressionExpected,
    ParserNotFoldingConstants,
    UnexpectedCGArgs,
    UnexpectedApplyOp,
}

/// Types of the source language.
#[derive(PartialEq, Eq, Debug, Clone, Copy, Structural)]
pub enum Type {
    /// The type of no value at all.
    Unit,
    /// The type of errors; it matches nothing, not even itself.
    Error,
    /// Unsigned integer.
    Cardinal,
    /// Cardinal-sized bit set.
    BitSet,
}

/// Binary operators.
#[derive(PartialEq, Eq, Debug, Clone, Copy, Structural)]
pub enum Op {
    Add,
    Subtract,
}

/// A node of the syntax tree.
#[derive(PartialEq, Debug)]
pub enum Item {
    Error(ErrType),
    ConstInteger(TargetUInt),
    DeclareLocal(String, Box<Item>),
    LocalVar(TargetByte),
    StatementList(Vec<Item>),
    Add(Box<Item>, Box<Item>),
    Sub(Box<Item>, Box<Item>),
    Assign(Box<Item>, Box<Item>),
    Apply(Type, Op, Box<Item>, Box<Item>),
}

/// Whether `i` is a sum: an `Add` node or an application of `Op::Add`.
pub open spec fn is_sum(i: Item) -> bool {
    i is Add || (i matches Item::Apply(_, Op::Add, _, _))
}

/// Whether `i` is a difference: a `Sub` node or an application of `Op::Subtract`.
pub open spec fn is_difference(i: Item) -> bool {
    i is Sub || (i matches Item::Apply(_, Op::Subtract, _, _))
}

/// The two operands of a sum or difference.
pub open spec fn operands(i: Item) -> (Item, Item) {
    match i {
        Item::Add(l, r) => (*l, *r),
        Item::Sub(l, r) => (*l, *r),
        Item::Apply(_, _, l, r) => (*l, *r),
        _ => (i, i),
    }
}

/// The two's-complement negation of a constant; any other item is left as it is.
pub open spec fn negated(i: Item) -> Item {
    match i {
        Item::ConstInteger(n) => Item::ConstInteger(if n == 0 { 0 } else { (0x10000 - n) as u16 }),
        _ => i,
    }
}

/// Negates a constant item; leaves any other item unchanged.
pub fn negate(i: Item) -> (r: Item)
    ensures
        r == negated(i),
{
    match i {
        Item::ConstInteger(n) => Item::ConstInteger(0u16.wrapping_sub(n)),
        _ => i,
    }
}

impl Item {
    pub fn is_const(&self) -> (b: bool)
        ensures
            b == (*self is ConstInteger),
    {
        match self {
            Item::ConstInteger(_) => true,
            _ => false,
        }
    }

    pub fn is_local_var(&self) -> (b: bool)
        ensures
            b == (*self is LocalVar),
    {
        match self {
            Item::LocalVar(_) => true,
            _ => false,
        }
    }

    pub fn is_add(&self) -> (b: bool)
        ensures
            b == (*self is Add),
    {
        match self {
            Item::Add(_, _) => true,
            _ => false,
        }
    }

    pub fn is_sum(&self) -> (b: bool)
        ensures
            b == is_sum(*self),
    {
        match self {
            Item::Add(_, _) => true,
            Item::Apply(_, Op::Add, _, _) => true,
            _ => false,
        }
    }

    pub fn is_difference(&self) -> (b: bool)
        ensures
            b == is_difference(*self),
    {
        match self {
            Item::Sub(_, _) => true,
            Item::Apply(_, Op::Subtract, _, _) => true,
            _ => false,
        }
    }

    pub fn is_sub(&self) -> (b: bool)
        ensures
            b == (*self is Sub),
    {
        match self {
            Item::Sub(_, _) => true,
            _ => false,
        }
    }
}

/// The type of an item: errors have the error type, constants and locals are
/// cardinals, a declaration or assignment has the type of its value, a sum or
/// difference the type of its left operand, a statement list the type of its last
/// statement (the unit type when empty), and an application its declared type.
pub open spec fn type_of_item(i: Item) -> Type
    decreases i,
    via type_of_item_decreases
{
    match i {
        Item::Error(_) => Type::Error,
        Item::ConstInteger(_) => Type::Cardinal,
        Item::LocalVar(_) => Type::Cardinal,
        Item::DeclareLocal(_, rhs) => type_of_item(*rhs),
        Item::StatementList(items) => if items@.len() == 0 {
            Type::Unit
        } else {
            type_of_item(items@.last())
        },
        Item::Assign(_, rhs) => type_of_item(*rhs),
        Item::Add(lhs, _) => type_of_item(*lhs),
        Item::Sub(lhs, _) => type_of_item(*lhs),
        Item::Apply(t, _, _, _) => t,
    }
}

#[via_fn]
proof fn type_of_item_decreases(i: Item) {
    broadcast use vstd::std_specs::vec::axiom_vec_decreases_to_view;

    if let Item::StatementList(items) = i {
        if items@.len() > 0 {
            assert(decreases_to!(i => items));
            assert(decreases_to!(items => items@));
            assert(decreases_to!(items@ => items@.last()));
        }
    }
}

/// The type of `i`.
fn type_of(i: &Item) -> (t: Type)
    ensures
        t == type_of_item(*i),
    decreases *i,
{
    match i {
        Item::Error(_) => Type::Error,
        Item::ConstInteger(_) => Type::Cardinal,
        Item::LocalVar(_) => Type::Cardinal,
        Item::DeclareLocal(_, rhs) => type_of(rhs),
        Item::StatementList(items) => {
            if items.len() == 0 {
                Type::Unit
            } else {
                proof {
                    broadcast use vstd::std_specs::vec::axiom_vec_decreases_to_view;

                    assert(decreases_to!(*i => *items));
                    assert(decreases_to!(*items => items@));
                    assert(decreases_to!(items@ => items@.last()));
                }
                type_of(&items[items.len() - 1])
            }
        },
        Item::Assign(_, rhs) => type_of(rhs),
        Item::Add(lhs, _) => type_of(lhs),
        Item::Sub(lhs, _) => type_of(lhs),
        Item::Apply(rtype, _, _, _) => *rtype,
    }
}

/// Whether two items have the same type; the error type matches nothing.
pub fn type_match(lhs: &Item, rhs: &Item) -> (b: bool)
    ensures
        b == (type_of_item(*lhs) == type_of_item(*rhs) && type_of_item(*lhs) != Type::Error),
{
    let lht = type_of(lhs);
    let rht = type_of(rhs);
    (lht == rht) && (lht != Type::Error)
}

/// Whether two items' types differ (or either is the error type).
pub fn type_mismatch(lhs: &Item, rhs: &Item) -> (b: bool)
    ensures
        b == !(type_of_item(*lhs) == type_of_item(*rhs) && type_of_item(*lhs) != Type::Error),
{
    !type_match(lhs, rhs)
}

} // verus!
