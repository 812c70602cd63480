//! Code generation for a small accumulator machine, tracking what the accumulator
//! is known to hold so that redundant loads are skipped.
use vstd::prelude::*;

use crate::parser::{is_difference, is_sum, operands, ErrType, Item, TargetByte, TargetUInt};
use crate::symtab::{last_index_of, SymTab};

verus! {

/// Where control goes after a generated fragment.
#[derive(Debug, PartialEq, Eq, Clone, Copy, Structural)]
pub enum CtrlDest {
    Return,
    Next,
}

/// Where a generated fragment leaves its value.
#[derive(Debug, PartialEq, Eq, Clone, Copy, Structural)]
pub enum DataDest {
    Effect,
    RegA,
    Local(u8),
}

/// Instructions of the target machine.
#[derive(Debug, PartialEq, Eq, Clone, Copy, Structural)]
pub enum Ins {
    LoadAImm16(TargetUInt),
    LoadADP(TargetByte),
    StoreADP(TargetByte),
    IncA,
    DecA,
    AddADP(TargetByte),
    AddAImm16(TargetUInt),
    SubtractADP(TargetByte),
    SubtractAImm16(TargetUInt),
    StoreZeroDP(TargetByte),
    Return,
}

/// What is known of the accumulator: the constant it holds and the local it mirrors.
pub type Cache = (Option<u16>, Option<TargetByte>);

/// What is known of the accumulator: a constant it holds, or a local it mirrors.
pub struct RegCache {
    value: Option<u16>,
    local: Option<TargetByte>,
}

impl RegCache {
    /// The constant the accumulator is known to hold.
    pub closed spec fn value(&self) -> Option<u16> {
        self.value
    }

    /// The local the accumulator is known to mirror.
    pub closed spec fn local(&self) -> Option<TargetByte> {
        self.local
    }

    /// Everything known of the accumulator.
    pub open spec fn known(&self) -> Cache {
        (self.value(), self.local())
    }

    /// Nothing is known.
    pub fn new() -> (r: Self)
        ensures
            r.value() is None,
            r.local() is None,
    {
        Self { value: None, local: None }
    }
}

/// Code that sends control to `cd`.
pub open spec fn goto_code(cd: CtrlDest) -> Seq<Ins> {
    match cd {
        CtrlDest::Next => seq![],
        CtrlDest::Return => seq![Ins::Return],
    }
}

/// What is known after the accumulator is stored to local `o`.
pub open spec fn stored_to(k: Cache, o: TargetByte) -> Cache {
    (k.0, Some(o))
}

/// What is known after the accumulator is moved to `dd`.
pub open spec fn store_cache(k: Cache, dd: DataDest) -> Cache {
    match dd {
        DataDest::Local(o) => stored_to(k, o),
        _ => k,
    }
}

/// What is known after local `o` is loaded (or found already loaded).
pub open spec fn loaded(k: Cache, o: TargetByte) -> Cache {
    if k.1 == Some(o) {
        k
    } else {
        (None, Some(o))
    }
}

/// What is known after a constant `delta` is added to (`up`) or subtracted from the accumulator.
pub open spec fn bumped(k: Cache, delta: u16, up: bool) -> Cache {
    (
        match k.0 {
            Some(n) => Some(if up { n.wrapping_add(delta) } else { n.wrapping_sub(delta) }),
            None => None,
        },
        None,
    )
}

/// Code that moves the accumulator to `dd`.
pub open spec fn store_code(dd: DataDest) -> Seq<Ins> {
    match dd {
        DataDest::Local(ofs) => seq![Ins::StoreADP(ofs)],
        _ => seq![],
    }
}

/// Code that loads local `offset` into the accumulator, unless it already mirrors it.
pub open spec fn load_local_code(known: Option<TargetByte>, offset: TargetByte) -> Seq<Ins> {
    if known == Some(offset) {
        seq![]
    } else {
        seq![Ins::LoadADP(offset)]
    }
}

fn load_a_imm16(listing: &mut Vec<Ins>, rc_a: &mut RegCache, value: u16)
    ensures
        final(listing)@ == old(listing)@.push(Ins::LoadAImm16(value)),
        final(rc_a).value() == Some(value),
        final(rc_a).local() is None,
{
    listing.push(Ins::LoadAImm16(value));
    rc_a.value = Some(value);
    rc_a.local = None;
}

fn load_a_local(listing: &mut Vec<Ins>, rc_a: &mut RegCache, offset: u8)
    ensures
        final(listing)@ == old(listing)@ + load_local_code(old(rc_a).local(), offset),
        old(rc_a).local() == Some(offset) ==> final(rc_a).value() == old(rc_a).value(),
        old(rc_a).local() != Some(offset) ==> final(rc_a).value() is None,
        final(rc_a).local() == Some(offset),
{
    if let Some(n) = rc_a.local {
        if n == offset {
            assert(old(listing)@ + seq![] =~= old(listing)@);
            return;
        }
    }
    listing.push(Ins::LoadADP(offset));
    rc_a.value = None;
    rc_a.local = Some(offset);
    assert(final(listing)@ =~= old(listing)@ + load_local_code(old(rc_a).local(), offset));
}

fn store_zero_local(listing: &mut Vec<Ins>, rc_a: &mut RegCache, offset: u8)
    ensures
        final(listing)@ == old(listing)@.push(Ins::StoreZeroDP(offset)),
        final(rc_a).value() == old(rc_a).value(),
        final(rc_a).local() == if old(rc_a).local() == Some(offset) {
            None
        } else {
            old(rc_a).local()
        },
{
    listing.push(Ins::StoreZeroDP(offset));
    if rc_a.local == Some(offset) {
        rc_a.local = None;
    }
}

fn store_a_local(listing: &mut Vec<Ins>, rc_a: &mut RegCache, offset: u8)
    ensures
        final(listing)@ == old(listing)@.push(Ins::StoreADP(offset)),
        final(rc_a).value() == old(rc_a).value(),
        final(rc_a).local() == Some(offset),
{
    listing.push(Ins::StoreADP(offset));
    rc_a.local = Some(offset);
}

/// Code that sends control to `cd`.
pub fn cg_goto(cd: CtrlDest) -> (r: Result<Vec<Ins>, ErrType>)
    ensures
        r matches Ok(v) && v@ == goto_code(cd),
{
    match cd {
        CtrlDest::Next => Ok(vec![]),
        CtrlDest::Return => Ok(vec![Ins::Return]),
    }
}

/// Code that moves the accumulator to `dd`.
pub fn cg_store_a(dd: DataDest, rc_a: &mut RegCache) -> (r: Result<Vec<Ins>, ErrType>)
    ensures
        r matches Ok(v) && v@ == store_code(dd),
        final(rc_a).known() == store_cache(old(rc_a).known(), dd),
        final(rc_a).value() == old(rc_a).value(),
        final(rc_a).local() == match dd {
            DataDest::Local(ofs) => Some(ofs),
            _ => old(rc_a).local(),
        },
{
    let mut listing: Vec<Ins> = Vec::new();
    match dd {
        DataDest::RegA => {},
        DataDest::Effect => {},
        DataDest::Local(ofs) => store_a_local(&mut listing, rc_a, ofs),
    }
    assert(listing@ =~= store_code(dd));
    Ok(listing)
}

/// Code for the constant `n`, delivered to `dd`; zero is stored to a local directly.
pub fn cg_const_int(n: u16, dd: DataDest, cd: CtrlDest, rc_a: &mut RegCache) -> (r: Result<Vec<Ins>, ErrType>)
    ensures
        r matches Ok(v) && v@ == match dd {
            DataDest::Local(ofs) => if n == 0 {
                seq![Ins::StoreZeroDP(ofs)]
            } else {
                seq![Ins::LoadAImm16(n), Ins::StoreADP(ofs)]
            },
            _ => seq![Ins::LoadAImm16(n)],
        } + goto_code(cd),
        r matches Ok(v) ==> ends_with_goto(v@, cd),
        final(rc_a).known() == match dd {
            DataDest::Local(ofs) => if n == 0 {
                (old(rc_a).value(), if old(rc_a).local() == Some(ofs) { None } else { old(rc_a).local() })
            } else {
                (Some(n), Some(ofs))
            },
            _ => (Some(n), None),
        },
{
    let mut listing: Vec<Ins> = Vec::new();
    match dd {
        DataDest::RegA | DataDest::Effect => load_a_imm16(&mut listing, rc_a, n),
        DataDest::Local(ofs) => {
            if n == 0 {
                store_zero_local(&mut listing, rc_a, ofs);
            } else {
                load_a_imm16(&mut listing, rc_a, n);
                store_a_local(&mut listing, rc_a, ofs);
            }
        },
    }
    let ghost body = listing@;
    match cg_goto(cd) {
        Ok(mut tail) => listing.append(&mut tail),
        Err(e) => return Err(e),
    }
    assert(listing@ =~= body + goto_code(cd));
    proof {
        lemma_goto_suffix(body, cd);
    }
    Ok(listing)
}

/// Code for local `offset`, delivered to `dd`; a load the accumulator already
/// holds is skipped.
pub fn cg_local(offset: u8, dd: DataDest, cd: CtrlDest, rc_a: &mut RegCache) -> (r: Result<Vec<Ins>, ErrType>)
    ensures
        r matches Ok(v) && v@ == match dd {
            DataDest::RegA => load_local_code(old(rc_a).local(), offset),
            DataDest::Effect => seq![],
            DataDest::Local(t) => load_local_code(old(rc_a).local(), offset).push(Ins::StoreADP(t)),
        } + goto_code(cd),
        r matches Ok(v) ==> ends_with_goto(v@, cd),
        final(rc_a).known() == match dd {
            DataDest::RegA => loaded(old(rc_a).known(), offset),
            DataDest::Effect => old(rc_a).known(),
            DataDest::Local(t) => stored_to(loaded(old(rc_a).known(), offset), t),
        },
{
    let mut listing: Vec<Ins> = Vec::new();
    match dd {
        DataDest::RegA => load_a_local(&mut listing, rc_a, offset),
        DataDest::Effect => {},
        DataDest::Local(target) => {
            load_a_local(&mut listing, rc_a, offset);
            store_a_local(&mut listing, rc_a, target);
        },
    }
    let ghost body = listing@;
    assert(dd is Effect ==> body =~= seq![]);
    assert(dd is RegA ==> body =~= load_local_code(old(rc_a).local(), offset));
    match cg_goto(cd) {
        Ok(mut tail) => listing.append(&mut tail),
        Err(e) => return Err(e),
    }
    assert(listing@ =~= body + goto_code(cd));
    proof {
        lemma_goto_suffix(body, cd);
    }
    Ok(listing)
}

fn increment_a(listing: &mut Vec<Ins>, rc_a: &mut RegCache)
    ensures
        final(listing)@ == old(listing)@.push(Ins::IncA),
        final(rc_a).known() == bumped(old(rc_a).known(), 1, true),
{
    listing.push(Ins::IncA);
    if let Some(n) = rc_a.value {
        rc_a.value = Some(n.wrapping_add(1));
    }
    rc_a.local = None;
}

fn decrement_a(listing: &mut Vec<Ins>, rc_a: &mut RegCache)
    ensures
        final(listing)@ == old(listing)@.push(Ins::DecA),
        final(rc_a).known() == bumped(old(rc_a).known(), 1, false),
{
    listing.push(Ins::DecA);
    if let Some(n) = rc_a.value {
        rc_a.value = Some(n.wrapping_sub(1));
    }
    rc_a.local = None;
}

fn add_a_imm16(listing: &mut Vec<Ins>, rc_a: &mut RegCache, value: u16)
    ensures
        final(listing)@ == old(listing)@.push(Ins::AddAImm16(value)),
        final(rc_a).known() == bumped(old(rc_a).known(), value, true),
{
    listing.push(Ins::AddAImm16(value));
    if let Some(n) = rc_a.value {
        rc_a.value = Some(n.wrapping_add(value));
    }
    rc_a.local = None;
}

fn add_a_local(listing: &mut Vec<Ins>, rc_a: &mut RegCache, offset: u8)
    ensures
        final(listing)@ == old(listing)@.push(Ins::AddADP(offset)),
        final(rc_a).known() == (None::<u16>, None::<TargetByte>),
{
    listing.push(Ins::AddADP(offset));
    rc_a.value = None;
    rc_a.local = None;
}

fn subtract_a_imm16(listing: &mut Vec<Ins>, rc_a: &mut RegCache, value: u16)
    ensures
        final(listing)@ == old(listing)@.push(Ins::SubtractAImm16(value)),
        final(rc_a).known() == bumped(old(rc_a).known(), value, false),
{
    listing.push(Ins::SubtractAImm16(value));
    if let Some(n) = rc_a.value {
        rc_a.value = Some(n.wrapping_sub(value));
    }
    rc_a.local = None;
}

fn subtract_a_local(listing: &mut Vec<Ins>, rc_a: &mut RegCache, offset: u8)
    ensures
        final(listing)@ == old(listing)@.push(Ins::SubtractADP(offset)),
        final(rc_a).known() == (None::<u16>, None::<TargetByte>),
{
    listing.push(Ins::SubtractADP(offset));
    rc_a.value = None;
    rc_a.local = None;
}

/// `v` ends with the code that sends control to `cd`.
pub open spec fn ends_with_goto(v: Seq<Ins>, cd: CtrlDest) -> bool {
    let g = goto_code(cd);
    v.len() >= g.len() && v.subrange(v.len() - g.len(), v.len() as int) == g
}

proof fn lemma_goto_suffix(body: Seq<Ins>, cd: CtrlDest)
    ensures
        ends_with_goto(body + goto_code(cd), cd),
{
    let v = body + goto_code(cd);
    assert(v.subrange(v.len() - goto_code(cd).len(), v.len() as int) =~= goto_code(cd));
}

/// Code generation declares nothing and leaves the temporaries as it found them
/// when it succeeds.
pub open spec fn table_kept(before: SymTab, after: SymTab, ok: bool) -> bool {
    &&& after.wf()
    &&& after.names() == before.names()
    &&& after.offsets() == before.offsets()
    &&& ok ==> after.next() == before.next()
}

/// Whether an item can be an operand of addition or subtraction.
pub open spec fn is_operand(i: Item) -> bool {
    i is ConstInteger || i is LocalVar || is_sum(i) || is_difference(i)
}

/// Operand pairs that addition exchanges, so that a constant or a local comes first.
pub open spec fn add_swaps(lhs: Item, rhs: Item) -> bool {
    if lhs is LocalVar {
        rhs is ConstInteger
    } else if is_sum(lhs) {
        rhs is ConstInteger || rhs is LocalVar
    } else if is_difference(lhs) {
        rhs is ConstInteger || rhs is LocalVar || is_sum(rhs)
    } else {
        false
    }
}

/// The offset of the newest declaration of `name`.
pub open spec fn lookup(names: Seq<Seq<char>>, offsets: Seq<u16>, name: Seq<char>) -> Option<u16> {
    if exists|i: int| last_index_of(names, name, i) {
        Some(offsets[choose|i: int| last_index_of(names, name, i)])
    } else {
        None
    }
}

/// Outcome of generating code: the listing and what is then known of the accumulator.
pub type Gen = Result<(Seq<Ins>, Cache), ErrType>;

/// Code `body` completed by moving the accumulator to `dd` and sending control to `cd`.
pub open spec fn finish(body: Seq<Ins>, k: Cache, dd: DataDest, cd: CtrlDest) -> Gen {
    Ok((body + store_code(dd) + goto_code(cd), store_cache(k, dd)))
}

/// The code for the constant `n` delivered to `dd`, then control to `cd`.
pub open spec fn gen_const(n: u16, dd: DataDest, cd: CtrlDest, k: Cache) -> (Seq<Ins>, Cache) {
    match dd {
        DataDest::Local(o) => if n == 0 {
            (seq![Ins::StoreZeroDP(o)] + goto_code(cd), (k.0, if k.1 == Some(o) { None } else { k.1 }))
        } else {
            (seq![Ins::LoadAImm16(n), Ins::StoreADP(o)] + goto_code(cd), (Some(n), Some(o)))
        },
        _ => (seq![Ins::LoadAImm16(n)] + goto_code(cd), (Some(n), None)),
    }
}

/// The code for local `o` delivered to `dd`, then control to `cd`.
pub open spec fn gen_local(o: u8, dd: DataDest, cd: CtrlDest, k: Cache) -> (Seq<Ins>, Cache) {
    match dd {
        DataDest::RegA => (load_local_code(k.1, o) + goto_code(cd), loaded(k, o)),
        DataDest::Effect => (goto_code(cd), k),
        DataDest::Local(t) => (
            load_local_code(k.1, o).push(Ins::StoreADP(t)) + goto_code(cd),
            stored_to(loaded(k, o), t),
        ),
    }
}

/// The code generated for `item`, with `names`/`offsets` declared, the next free
/// frame offset `next`, and `k` known of the accumulator; the result goes to `dd`
/// and control to `cd`.
pub open spec fn gen_item(
    item: Item,
    names: Seq<Seq<char>>,
    offsets: Seq<u16>,
    next: u16,
    k: Cache,
    dd: DataDest,
    cd: CtrlDest,
) -> Gen
    decreases item, 1int, 0int,
{
    match item {
        Item::DeclareLocal(id, rval) => match lookup(names, offsets, id@) {
            None => Err(ErrType::UndefinedId(id)),
            Some(off) => match gen_item(*rval, names, offsets, next, k, DataDest::Local(off as u8), CtrlDest::Next) {
                Ok((c, k1)) => Ok((c + goto_code(cd), k1)),
                Err(e) => Err(e),
            },
        },
        Item::ConstInteger(n) => Ok(gen_const(n, dd, cd, k)),
        Item::LocalVar(o) => Ok(gen_local(o, dd, cd, k)),
        Item::StatementList(v) => gen_list(v, 0, names, offsets, next, k, dd, cd),
        Item::Assign(lhs, rhs) => if dd is Local {
            Err(ErrType::UnexpectedCGArgs)
        } else {
            match *lhs {
                Item::LocalVar(o) => match gen_item(*rhs, names, offsets, next, k, DataDest::RegA, CtrlDest::Next) {
                    Ok((c, k1)) => Ok((c.push(Ins::StoreADP(o)) + goto_code(cd), stored_to(k1, o))),
                    Err(e) => Err(e),
                },
                _ => Err(ErrType::LValExpected),
            }
        },
        Item::Add(_, _) | Item::Sub(_, _) | Item::Apply(_, _, _, _) => gen_binary(item, names, offsets, next, k, dd, cd),
        _ => Err(ErrType::ExpressionExpected),
    }
}

/// The code for a sum or difference `item` (written with `Add`/`Sub` or as an
/// application of `Op::Add`/`Op::Subtract`). Two constants are refused (the parser
/// folds them). For a sum, operands are exchanged so that a constant or a local
/// comes first, and two compound operands use a temporary for the left one. For a
/// difference with a compound right operand, the right operand goes to a
/// temporary first, then the left one is computed and the temporary subtracted.
pub open spec fn gen_binary(
    item: Item,
    names: Seq<Seq<char>>,
    offsets: Seq<u16>,
    next: u16,
    k: Cache,
    dd: DataDest,
    cd: CtrlDest,
) -> Gen
    decreases item, 0int, 0int,
    via gen_binary_decreases
{
    let lhs = operands(item).0;
    let rhs = operands(item).1;
    if is_sum(item) {
        if lhs is ConstInteger && rhs is ConstInteger {
            Err(ErrType::ParserNotFoldingConstants)
        } else if !is_operand(lhs) {
            Err(ErrType::UnexpectedCGArgs)
        } else {
            let first = if add_swaps(lhs, rhs) { rhs } else { lhs };
            let second = if add_swaps(lhs, rhs) { lhs } else { rhs };
            match first {
                Item::ConstInteger(n) => if !(second is LocalVar || is_sum(second) || is_difference(second)) {
                    Err(ErrType::UnexpectedCGArgs)
                } else {
                    match gen_item(second, names, offsets, next, k, DataDest::RegA, CtrlDest::Next) {
                        Ok((c, k1)) => if n == 1 {
                            finish(c.push(Ins::IncA), bumped(k1, 1, true), dd, cd)
                        } else if n == 0xFFFF {
                            finish(c.push(Ins::DecA), bumped(k1, 1, false), dd, cd)
                        } else {
                            finish(c.push(Ins::AddAImm16(n)), bumped(k1, n, true), dd, cd)
                        },
                        Err(e) => Err(e),
                    }
                },
                Item::LocalVar(o) => if !(second is LocalVar || is_sum(second) || is_difference(second)) {
                    Err(ErrType::UnexpectedCGArgs)
                } else {
                    match gen_item(second, names, offsets, next, k, DataDest::RegA, CtrlDest::Next) {
                        Ok((c, _k1)) => finish(c.push(Ins::AddADP(o)), (None, None), dd, cd),
                        Err(e) => Err(e),
                    }
                },
                _ => if !(is_sum(second) || is_difference(second)) {
                    Err(ErrType::UnexpectedCGArgs)
                } else {
                    let t = next as u8;
                    let inner = next.wrapping_add(2);
                    match gen_item(first, names, offsets, inner, k, DataDest::Local(t), CtrlDest::Next) {
                        Ok((c1, k1)) => match gen_item(second, names, offsets, inner, k1, DataDest::RegA, CtrlDest::Next) {
                            Ok((c2, _k2)) => finish((c1 + c2).push(Ins::AddADP(t)), (None, None), dd, cd),
                            Err(e) => Err(e),
                        },
                        Err(e) => Err(e),
                    }
                },
            }
        }
    } else if is_difference(item) {
        if !is_operand(lhs) {
            Err(ErrType::UnexpectedCGArgs)
        } else {
            match rhs {
                Item::ConstInteger(m) => if lhs is ConstInteger {
                    Err(ErrType::ParserNotFoldingConstants)
                } else {
                    match gen_item(lhs, names, offsets, next, k, DataDest::RegA, CtrlDest::Next) {
                        Ok((c, k1)) => if m == 1 {
                            finish(c.push(Ins::DecA), bumped(k1, 1, false), dd, cd)
                        } else if m == 0xFFFF {
                            finish(c.push(Ins::IncA), bumped(k1, 1, true), dd, cd)
                        } else {
                            finish(c.push(Ins::SubtractAImm16(m)), bumped(k1, m, false), dd, cd)
                        },
                        Err(e) => Err(e),
                    }
                },
                Item::LocalVar(o) => match gen_item(lhs, names, offsets, next, k, DataDest::RegA, CtrlDest::Next) {
                    Ok((c, _k1)) => finish(c.push(Ins::SubtractADP(o)), (None, None), dd, cd),
                    Err(e) => Err(e),
                },
                _ => if !(is_sum(rhs) || is_difference(rhs)) {
                    Err(ErrType::UnexpectedCGArgs)
                } else {
                    let t = next as u8;
                    let inner = next.wrapping_add(2);
                    match gen_item(rhs, names, offsets, inner, k, DataDest::Local(t), CtrlDest::Next) {
                        Ok((c1, k1)) => match gen_item(lhs, names, offsets, inner, k1, DataDest::RegA, CtrlDest::Next) {
                            Ok((c2, _k2)) => finish((c1 + c2).push(Ins::SubtractADP(t)), (None, None), dd, cd),
                            Err(e) => Err(e),
                        },
                        Err(e) => Err(e),
                    }
                },
            }
        }
    } else {
        Err(ErrType::ExpressionExpected)
    }
}

#[via_fn]
proof fn gen_binary_decreases(
    item: Item,
    names: Seq<Seq<char>>,
    offsets: Seq<u16>,
    next: u16,
    k: Cache,
    dd: DataDest,
    cd: CtrlDest,
) {
    lemma_operands_decrease(item);
}

/// The operands of a sum or difference are smaller than it.
proof fn lemma_operands_decrease(item: Item)
    ensures
        (is_sum(item) || is_difference(item)) ==> decreases_to!(item => operands(item).0)
            && decreases_to!(item => operands(item).1),
{
    match item {
        Item::Add(l, r) => {
            assert(decreases_to!(item => item->Add_0));
            assert(decreases_to!(item => item->Add_1));
        },
        Item::Sub(l, r) => {
            assert(decreases_to!(item => item->Sub_0));
            assert(decreases_to!(item => item->Sub_1));
        },
        Item::Apply(t, o, l, r) => {
            assert(decreases_to!(item => item->Apply_2));
            assert(decreases_to!(item => item->Apply_3));
        },
        _ => {},
    }
}

/// The code for statements `v[i..]`: all but the last for their effect only, the
/// last delivered to `dd` with control to `cd`; no statements, no code.
pub open spec fn gen_list(
    v: Vec<Item>,
    i: int,
    names: Seq<Seq<char>>,
    offsets: Seq<u16>,
    next: u16,
    k: Cache,
    dd: DataDest,
    cd: CtrlDest,
) -> Gen
    decreases Item::StatementList(v), 0int, v@.len() - i,
    via gen_list_decreases
{
    if v@.len() == 0 || i < 0 {
        Ok((seq![], k))
    } else if i >= v@.len() - 1 {
        gen_item(v@[v@.len() - 1], names, offsets, next, k, dd, cd)
    } else {
        match gen_item(v@[i], names, offsets, next, k, DataDest::Effect, CtrlDest::Next) {
            Ok((c1, k1)) => match gen_list(v, i + 1, names, offsets, next, k1, dd, cd) {
                Ok((c2, k2)) => Ok((c1 + c2, k2)),
                Err(e) => Err(e),
            },
            Err(e) => Err(e),
        }
    }
}

#[via_fn]
proof fn gen_list_decreases(
    v: Vec<Item>,
    i: int,
    names: Seq<Seq<char>>,
    offsets: Seq<u16>,
    next: u16,
    k: Cache,
    dd: DataDest,
    cd: CtrlDest,
) {
    broadcast use vstd::std_specs::vec::axiom_vec_decreases_to_view;

    let whole = Item::StatementList(v);
    assert(decreases_to!(whole => whole->StatementList_0));
    assert(decreases_to!(v => v@));
    if v@.len() > 0 && i >= 0 {
        assert(decreases_to!(v@ => v@[v@.len() - 1]));
        if i < v@.len() - 1 {
            assert(decreases_to!(v@ => v@[i]));
        }
    }
}

/// The executable result `r`, with `k` known of the accumulator afterwards, is the
/// generated outcome `g`.
pub open spec fn agrees(r: Result<Vec<Ins>, ErrType>, k: Cache, g: Gen) -> bool {
    match g {
        Ok((code, k1)) => r matches Ok(v) && v@ == code && k == k1,
        Err(e) => r == Err::<Vec<Ins>, ErrType>(e),
    }
}

/// The code for `item` in symbol table `st` with cache `rc`.
pub open spec fn gen_in(item: Item, st: SymTab, rc: RegCache, dd: DataDest, cd: CtrlDest) -> Gen {
    gen_item(item, st.names(), st.offsets(), st.next(), rc.known(), dd, cd)
}

proof fn lemma_last_index_unique(names: Seq<Seq<char>>, name: Seq<char>, i: int, j: int)
    requires
        last_index_of(names, name, i),
        last_index_of(names, name, j),
    ensures
        i == j,
{
}

fn append_goto(listing: &mut Vec<Ins>, cd: CtrlDest)
    ensures
        final(listing)@ == old(listing)@ + goto_code(cd),
{
    match cg_goto(cd) {
        Ok(mut tail) => listing.append(&mut tail),
        Err(_) => {},
    }
}

fn append_store_goto(listing: &mut Vec<Ins>, dd: DataDest, cd: CtrlDest, rc_a: &mut RegCache)
    ensures
        final(listing)@ == old(listing)@ + store_code(dd) + goto_code(cd),
        final(rc_a).known() == store_cache(old(rc_a).known(), dd),
{
    match cg_store_a(dd, rc_a) {
        Ok(mut code) => listing.append(&mut code),
        Err(_) => {},
    }
    append_goto(listing, cd);
}

/// Code for any item, delivered to `dd`, then control to `cd`.
pub fn cg_item(item: Item, st: &mut SymTab, dd: DataDest, cd: CtrlDest, rc_a: &mut RegCache) -> (r: Result<Vec<Ins>, ErrType>)
    requires
        old(st).wf(),
    ensures
        table_kept(*old(st), *final(st), r is Ok),
        agrees(r, final(rc_a).known(), gen_in(item, *old(st), *old(rc_a), dd, cd)),
    decreases item, 2int,
{
    match item {
        Item::DeclareLocal(id, rval) => cg_declare_local(st, id, *rval, dd, cd, rc_a),
        Item::ConstInteger(n) => cg_const_int(n, dd, cd, rc_a),
        Item::LocalVar(offset) => cg_local(offset, dd, cd, rc_a),
        Item::StatementList(statements) => cg_statement_list(statements, st, dd, cd, rc_a),
        Item::Add(lhs, rhs) => cg_add(lhs, rhs, st, dd, cd, rc_a),
        Item::Sub(lhs, rhs) => cg_sub(lhs, rhs, st, dd, cd, rc_a),
        Item::Assign(lhs, rhs) => cg_assignment(*lhs, *rhs, st, dd, cd, rc_a),
        Item::Apply(t, op, lhs, rhs) => cg_binary(Item::Apply(t, op, lhs, rhs), st, dd, cd, rc_a),
        _ => Err(ErrType::ExpressionExpected),
    }
}

/// Code that evaluates `rval` into the local declared as `id`, then control to `cd`;
/// an undeclared `id` is an error.
pub fn cg_declare_local(st: &mut SymTab, id: String, rval: Item, _dd: DataDest, cd: CtrlDest, rc_a: &mut RegCache) -> (r: Result<Vec<Ins>, ErrType>)
    requires
        old(st).wf(),
    ensures
        table_kept(*old(st), *final(st), r is Ok),
        agrees(r, final(rc_a).known(), gen_in(Item::DeclareLocal(id, Box::new(rval)), *old(st), *old(rc_a), _dd, cd)),
    decreases Item::DeclareLocal(id, Box::new(rval)), 0int,
{
    proof {
        let whole = Item::DeclareLocal(id, Box::new(rval));
        assert(whole->DeclareLocal_1 == rval);
        assert(decreases_to!(whole => whole->DeclareLocal_1));
    }
    let mut listing: Vec<Ins> = Vec::new();
    let offset: u8;
    match st.find_by_name(id.as_str()) {
        Ok(sym) => {
            proof {
                let i = choose|i: int| last_index_of(st.names(), id@, i) && sym.offset == st.offsets()[i];
                let j = choose|j: int| last_index_of(st.names(), id@, j);
                lemma_last_index_unique(st.names(), id@, i, j);
            }
            offset = sym.offset as u8;
        },
        _ => {
            proof {
                if exists|i: int| last_index_of(st.names(), id@, i) {
                    let i = choose|i: int| last_index_of(st.names(), id@, i);
                    assert(st.names().contains(id@)) by {
                        assert(st.names()[i] == id@);
                    }
                }
            }
            return Err(ErrType::UndefinedId(id));
        },
    }
    match cg_item(rval, st, DataDest::Local(offset), CtrlDest::Next, rc_a) {
        Ok(mut code) => listing.append(&mut code),
        Err(e) => return Err(e),
    }
    append_goto(&mut listing, cd);
    Ok(listing)
}

/// Code for each statement in turn: all but the last only for their effect, the
/// last delivered to `dd` with control to `cd`. An empty list yields no code.
pub fn cg_statement_list(statements: Vec<Item>, st: &mut SymTab, dd: DataDest, cd: CtrlDest, rc_a: &mut RegCache) -> (r: Result<Vec<Ins>, ErrType>)
    requires
        old(st).wf(),
    ensures
        table_kept(*old(st), *final(st), r is Ok),
        agrees(r, final(rc_a).known(), gen_in(Item::StatementList(statements), *old(st), *old(rc_a), dd, cd)),
    decreases Item::StatementList(statements), 0int,
{
    let ghost whole = Item::StatementList(statements);
    let ghost all = statements@;
    let ghost names = st.names();
    let ghost offsets = st.offsets();
    let ghost next = st.next();
    let ghost total = gen_list(statements, 0, names, offsets, next, rc_a.known(), dd, cd);
    let mut rest = statements;
    let mut listing: Vec<Ins> = Vec::new();
    let length = rest.len();
    if length == 0 {
        return Ok(listing);
    }
    let ghost start = *st;
    let mut i: usize = 0;
    while i < length - 1
        invariant
            length == all.len(),
            length > 0,
            i <= length - 1,
            rest@ == all.subrange(i as int, all.len() as int),
            whole == Item::StatementList(statements),
            statements@ == all,
            start == *old(st),
            table_kept(start, *st, true),
            names == start.names(),
            offsets == start.offsets(),
            next == start.next(),
            total == gen_list(statements, 0, names, offsets, next, old(rc_a).known(), dd, cd),
            total == match gen_list(statements, i as int, names, offsets, next, rc_a.known(), dd, cd) {
                Ok((c, k)) => Ok((listing@ + c, k)),
                Err(e) => Err(e),
            },
        decreases length - 1 - i,
    {
        let item = rest.remove(0);
        proof {
            broadcast use vstd::std_specs::vec::axiom_vec_decreases_to_view;

            assert(item == all[i as int]);
            assert(whole->StatementList_0 == statements);
            assert(decreases_to!(whole => whole->StatementList_0));
            assert(decreases_to!(statements => statements@));
            assert(decreases_to!(statements@ => all[i as int]));
        }
        let ghost before = listing@;
        match cg_item(item, st, DataDest::Effect, CtrlDest::Next, rc_a) {
            Ok(mut code) => {
                let ghost c = code@;
                listing.append(&mut code);
                proof {
                    match gen_list(statements, i + 1, names, offsets, next, rc_a.known(), dd, cd) {
                        Ok((c2, k2)) => {
                            assert(listing@ + c2 =~= before + (c + c2));
                        },
                        Err(_) => {},
                    }
                }
            },
            Err(e) => return Err(e),
        }
        i = i + 1;
    }
    let last = rest.remove(0);
    proof {
        broadcast use vstd::std_specs::vec::axiom_vec_decreases_to_view;

        assert(last == all[length - 1]);
        assert(whole->StatementList_0 == statements);
        assert(decreases_to!(whole => whole->StatementList_0));
        assert(decreases_to!(statements => statements@));
        assert(decreases_to!(statements@ => all[length - 1]));
    }
    match cg_item(last, st, dd, cd, rc_a) {
        Ok(mut code) => listing.append(&mut code),
        Err(e) => return Err(e),
    }
    Ok(listing)
}

/// Code that evaluates `rhs` and stores it in the local `lhs`, leaving the value in
/// the accumulator, then control to `cd`.
pub fn cg_assignment(lhs: Item, rhs: Item, st: &mut SymTab, dd: DataDest, cd: CtrlDest, rc_a: &mut RegCache) -> (r: Result<Vec<Ins>, ErrType>)
    requires
        old(st).wf(),
    ensures
        table_kept(*old(st), *final(st), r is Ok),
        agrees(r, final(rc_a).known(), gen_in(Item::Assign(Box::new(lhs), Box::new(rhs)), *old(st), *old(rc_a), dd, cd)),
    decreases Item::Assign(Box::new(lhs), Box::new(rhs)), 0int,
{
    proof {
        let whole = Item::Assign(Box::new(lhs), Box::new(rhs));
        assert(whole->Assign_1 == rhs);
        assert(decreases_to!(whole => whole->Assign_1));
    }
    if (dd != DataDest::RegA) && (dd != DataDest::Effect) {
        return Err(ErrType::UnexpectedCGArgs);
    }
    match lhs {
        Item::LocalVar(offset) => {
            let mut listing: Vec<Ins> = Vec::new();
            match cg_item(rhs, st, DataDest::RegA, CtrlDest::Next, rc_a) {
                Ok(mut code) => listing.append(&mut code),
                Err(e) => return Err(e),
            }
            store_a_local(&mut listing, rc_a, offset);
            append_goto(&mut listing, cd);
            Ok(listing)
        },
        _ => Err(ErrType::LValExpected),
    }
}

/// The operands of a sum or difference.
fn split_binary(item: Item) -> (r: (Box<Item>, Box<Item>))
    requires
        is_sum(item) || is_difference(item),
    ensures
        *r.0 == operands(item).0,
        *r.1 == operands(item).1,
{
    match item {
        Item::Add(l, r) => (l, r),
        Item::Sub(l, r) => (l, r),
        Item::Apply(_, _, l, r) => (l, r),
        _ => (Box::new(Item::ConstInteger(0)), Box::new(Item::ConstInteger(0))),
    }
}

fn is_operand_exec(i: &Item) -> (b: bool)
    ensures
        b == is_operand(*i),
{
    i.is_const() || i.is_local_var() || i.is_sum() || i.is_difference()
}

/// Code for the sum or difference `item`, delivered to `dd`, then control to `cd`.
fn cg_binary(item: Item, st: &mut SymTab, dd: DataDest, cd: CtrlDest, rc_a: &mut RegCache) -> (r: Result<Vec<Ins>, ErrType>)
    requires
        old(st).wf(),
        is_sum(item) || is_difference(item),
    ensures
        table_kept(*old(st), *final(st), r is Ok),
        agrees(r, final(rc_a).known(), gen_in(item, *old(st), *old(rc_a), dd, cd)),
    decreases item, 0int,
{
    proof {
        lemma_operands_decrease(item);
        assert(gen_in(item, *old(st), *old(rc_a), dd, cd) == gen_binary(item, old(st).names(), old(st).offsets(), old(st).next(), old(rc_a).known(), dd, cd));
    }
    let ghost whole = item;
    let adding = item.is_sum();
    let (lhs, rhs) = split_binary(item);
    let mut listing: Vec<Ins> = Vec::new();
    if adding {
        if lhs.is_const() && rhs.is_const() {
            return Err(ErrType::ParserNotFoldingConstants);
        }
        if !is_operand_exec(&lhs) {
            return Err(ErrType::UnexpectedCGArgs);
        }
        let swap = if lhs.is_local_var() {
            rhs.is_const()
        } else if lhs.is_sum() {
            rhs.is_const() || rhs.is_local_var()
        } else if lhs.is_difference() {
            rhs.is_const() || rhs.is_local_var() || rhs.is_sum()
        } else {
            false
        };
        let (first, second) = if swap {
            (rhs, lhs)
        } else {
            (lhs, rhs)
        };
        match *first {
            Item::ConstInteger(n) => {
                if !(second.is_local_var() || second.is_sum() || second.is_difference()) {
                    return Err(ErrType::UnexpectedCGArgs);
                }
                match cg_item(*second, st, DataDest::RegA, CtrlDest::Next, rc_a) {
                    Ok(mut code) => listing.append(&mut code),
                    Err(e) => return Err(e),
                }
                if n == 1 {
                    increment_a(&mut listing, rc_a);
                } else if n == 0xFFFF {
                    decrement_a(&mut listing, rc_a);
                } else {
                    add_a_imm16(&mut listing, rc_a, n);
                }
            },
            Item::LocalVar(offset) => {
                if !(second.is_local_var() || second.is_sum() || second.is_difference()) {
                    return Err(ErrType::UnexpectedCGArgs);
                }
                match cg_item(*second, st, DataDest::RegA, CtrlDest::Next, rc_a) {
                    Ok(mut code) => listing.append(&mut code),
                    Err(e) => return Err(e),
                }
                add_a_local(&mut listing, rc_a, offset);
            },
            first_item => {
                if !(second.is_sum() || second.is_difference()) {
                    return Err(ErrType::UnexpectedCGArgs);
                }
                let ghost st0 = *st;
                let t: u8 = st.alloc_temp() as u8;
                match cg_item(first_item, st, DataDest::Local(t), CtrlDest::Next, rc_a) {
                    Ok(mut code) => listing.append(&mut code),
                    Err(e) => return Err(e),
                }
                match cg_item(*second, st, DataDest::RegA, CtrlDest::Next, rc_a) {
                    Ok(mut code) => listing.append(&mut code),
                    Err(e) => return Err(e),
                }
                add_a_local(&mut listing, rc_a, t);
                st.free_temp();
                assert(st.next() == st0.next());
            },
        }
    } else {
        if !is_operand_exec(&lhs) {
            return Err(ErrType::UnexpectedCGArgs);
        }
        match *rhs {
            Item::ConstInteger(m) => {
                if lhs.is_const() {
                    return Err(ErrType::ParserNotFoldingConstants);
                }
                match cg_item(*lhs, st, DataDest::RegA, CtrlDest::Next, rc_a) {
                    Ok(mut code) => listing.append(&mut code),
                    Err(e) => return Err(e),
                }
                if m == 1 {
                    decrement_a(&mut listing, rc_a);
                } else if m == 0xFFFF {
                    increment_a(&mut listing, rc_a);
                } else {
                    subtract_a_imm16(&mut listing, rc_a, m);
                }
            },
            Item::LocalVar(ofs) => {
                match cg_item(*lhs, st, DataDest::RegA, CtrlDest::Next, rc_a) {
                    Ok(mut code) => listing.append(&mut code),
                    Err(e) => return Err(e),
                }
                subtract_a_local(&mut listing, rc_a, ofs);
            },
            right => {
                if !(right.is_sum() || right.is_difference()) {
                    return Err(ErrType::UnexpectedCGArgs);
                }
                let ghost st0 = *st;
                let t: TargetByte = st.alloc_temp() as TargetByte;
                match cg_item(right, st, DataDest::Local(t), CtrlDest::Next, rc_a) {
                    Ok(mut code) => listing.append(&mut code),
                    Err(e) => return Err(e),
                }
                match cg_item(*lhs, st, DataDest::RegA, CtrlDest::Next, rc_a) {
                    Ok(mut code) => listing.append(&mut code),
                    Err(e) => return Err(e),
                }
                subtract_a_local(&mut listing, rc_a, t);
                st.free_temp();
                assert(st.next() == st0.next());
            },
        }
    }
    append_store_goto(&mut listing, dd, cd, rc_a);
    Ok(listing)
}

/// Code for `lhs + rhs`, delivered to `dd`, then control to `cd`. Two constants are
/// refused (the parser folds them); operand pairs are exchanged so that a constant
/// or a local comes first.
pub fn cg_add(lhs: Box<Item>, rhs: Box<Item>, st: &mut SymTab, dd: DataDest, cd: CtrlDest, rc_a: &mut RegCache) -> (r: Result<Vec<Ins>, ErrType>)
    requires
        old(st).wf(),
    ensures
        table_kept(*old(st), *final(st), r is Ok),
        agrees(r, final(rc_a).known(), gen_in(Item::Add(lhs, rhs), *old(st), *old(rc_a), dd, cd)),
    decreases Item::Add(lhs, rhs), 1int,
{
    cg_binary(Item::Add(lhs, rhs), st, dd, cd, rc_a)
}

/// Code for `lhs - rhs`, delivered to `dd`, then control to `cd`. Two constants are
/// refused (the parser folds them); a compound right operand is computed into a
/// temporary first and then subtracted from the left operand.
pub fn cg_sub(lhs: Box<Item>, rhs: Box<Item>, st: &mut SymTab, dd: DataDest, cd: CtrlDest, rc_a: &mut RegCache) -> (r: Result<Vec<Ins>, ErrType>)
    requires
        old(st).wf(),
    ensures
        table_kept(*old(st), *final(st), r is Ok),
        agrees(r, final(rc_a).known(), gen_in(Item::Sub(lhs, rhs), *old(st), *old(rc_a), dd, cd)),
    decreases Item::Sub(lhs, rhs), 1int,
{
    cg_binary(Item::Sub(lhs, rhs), st, dd, cd, rc_a)
}

} // verus!
