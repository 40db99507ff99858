//! Linking: the split into code and data, the symbol table, and the
//! replacement of labels by addresses.

use vstd::prelude::*;
use crate::seqs::views;
use vstd::hash_map::StringHashMap;
use crate::assembler::{
    add_sym, code_size, data_block_size, data_sbytes, data_size, ins_block_size, ins_has_label,
    ins_sbytes, lemma_data_size_prefix, operand_has_label, resolve_sym, sbytes_of_data,
    sbytes_of_ins, Exec, ExecView, RedefinedSym, SByte, SByteView, UndefinedSym,
};
use crate::x86::{
    Asm, AsmView, Data, DataView, Elem, ElemView, Imm, ImmView, Ins, InsView, Operand, OperandView,
    Prog,
};

verus! {

broadcast use crate::seqs::group_views;

/// The address of the first byte of code.
pub const TEXT_POS: i64 = 0x400000;

/// Whether the block `e` belongs to the code (`text`) or to the data.
pub open spec fn in_section(e: ElemView, text: bool) -> bool {
    (e.body is Text) == text
}

/// The blocks of `p` that hold code (`text`) or that hold data, in order.
pub open spec fn section(p: Seq<ElemView>, text: bool) -> Seq<ElemView>
    decreases p.len(),
{
    if p.len() == 0 {
        seq![]
    } else if in_section(p.last(), text) {
        section(p.drop_last(), text).push(p.last())
    } else {
        section(p.drop_last(), text)
    }
}

/// The code blocks and the data blocks of `prog`, each in order.
pub fn filter_sections(prog: &Prog) -> (r: (Vec<Elem>, Vec<Elem>))
    ensures
        views(r.0@) == section(prog@, true),
        views(r.1@) == section(prog@, false),
{
    let mut ts: Vec<Elem> = Vec::new();
    let mut ds: Vec<Elem> = Vec::new();
    let mut i: usize = 0;
    assert(prog@.take(0) =~= seq![]);
    while i < prog.0.len()
        invariant
            i <= prog.0.len(),
            views(ts@) == section(prog@.take(i as int), true),
            views(ds@) == section(prog@.take(i as int), false),
        decreases prog.0.len() - i,
    {
        assert(prog@.take(i as int + 1).drop_last() == prog@.take(i as int));
        assert(prog@[i as int] == prog.0@[i as int]@);
        match prog.0[i].body {
            Asm::Text(_) => ts.push(prog.0[i].clone()),
            Asm::Data(_) => ds.push(prog.0[i].clone()),
        }
        i += 1;
    }
    assert(prog@.take(i as int) == prog@);
    (ts, ds)
}

/// The size in bytes of what the block `e` holds.
pub open spec fn body_size(e: ElemView) -> int {
    match e.body {
        AsmView::Text(is) => code_size(is.len()),
        AsmView::Data(ds) => data_size(ds),
    }
}

/// The size in bytes of the blocks of `es` that belong to the section.
pub open spec fn section_size(es: Seq<ElemView>, text: bool) -> int
    decreases es.len(),
{
    if es.len() == 0 {
        0
    } else if in_section(es.last(), text) {
        section_size(es.drop_last(), text) + body_size(es.last())
    } else {
        section_size(es.drop_last(), text)
    }
}

/// The labels of the blocks of `es` that belong to the section, each with
/// its address, where the section starts at `start`: a block starts where
/// the one before it ends.
pub open spec fn section_syms(es: Seq<ElemView>, text: bool, start: int) -> Seq<(Seq<char>, int)>
    decreases es.len(),
{
    if es.len() == 0 {
        seq![]
    } else if in_section(es.last(), text) {
        section_syms(es.drop_last(), text, start).push(
            (es.last().lbl, start + section_size(es.drop_last(), text)),
        )
    } else {
        section_syms(es.drop_last(), text, start)
    }
}

/// The labels that a program with the code blocks `ts` and the data blocks
/// `ds` defines, each with its address, in the order in which they are
/// entered into the symbol table: the code starts at [`TEXT_POS`], the data
/// follows the code.
pub open spec fn symbols(ts: Seq<ElemView>, ds: Seq<ElemView>) -> Seq<(Seq<char>, int)> {
    section_syms(ts, true, TEXT_POS as int) + section_syms(
        ds,
        false,
        TEXT_POS + section_size(ts, true),
    )
}

/// Whether `syms` defines the label `l`.
pub open spec fn defined_in(syms: Seq<(Seq<char>, int)>, l: Seq<char>) -> bool {
    exists|i: int| 0 <= i < syms.len() && (#[trigger] syms[i]).0 == l
}

/// The first label of `syms` that an earlier entry of `syms` defines too.
pub open spec fn first_dup(syms: Seq<(Seq<char>, int)>) -> Option<Seq<char>>
    decreases syms.len(),
{
    if syms.len() == 0 {
        None
    } else {
        match first_dup(syms.drop_last()) {
            Some(l) => Some(l),
            None => if defined_in(syms.drop_last(), syms.last().0) {
                Some(syms.last().0)
            } else {
                None
            },
        }
    }
}

/// The symbol table that holds the entries `syms`.
pub open spec fn sym_map(syms: Seq<(Seq<char>, int)>) -> Map<Seq<char>, i64>
    decreases syms.len(),
{
    if syms.len() == 0 {
        Map::empty()
    } else {
        sym_map(syms.drop_last()).insert(syms.last().0, syms.last().1 as i64)
    }
}

/// The symbol table holds exactly the labels entered.
pub proof fn lemma_sym_map_dom(syms: Seq<(Seq<char>, int)>, l: Seq<char>)
    ensures
        sym_map(syms).contains_key(l) <==> defined_in(syms, l),
    decreases syms.len(),
{
    if syms.len() > 0 {
        lemma_sym_map_dom(syms.drop_last(), l);
        if defined_in(syms, l) {
            let i = choose|i: int| 0 <= i < syms.len() && (#[trigger] syms[i]).0 == l;
            if i < syms.len() - 1 {
                assert(syms.drop_last()[i].0 == l);
            }
        }
        if defined_in(syms.drop_last(), l) {
            let i = choose|i: int|
                0 <= i < syms.drop_last().len() && (#[trigger] syms.drop_last()[i]).0 == l;
            assert(syms[i].0 == l);
        }
        if syms.last().0 == l {
            assert(syms[syms.len() - 1].0 == l);
        }
    }
}

/// A label defined twice at the start of a list is still the first one
/// defined twice when the list goes on.
pub proof fn lemma_first_dup_prefix(a: Seq<(Seq<char>, int)>, whole: Seq<(Seq<char>, int)>)
    requires
        first_dup(a) is Some,
        a.is_prefix_of(whole),
    ensures
        first_dup(whole) == first_dup(a),
    decreases whole.len(),
{
    if whole.len() == a.len() {
        assert(whole == a);
    } else {
        assert(a.is_prefix_of(whole.drop_last()));
        lemma_first_dup_prefix(a, whole.drop_last());
    }
}

/// The blocks of a section up to the `n`-th take up no more than the whole
/// section, and their symbols are the first symbols of the section.
pub proof fn lemma_section_prefix(es: Seq<ElemView>, text: bool, start: int, n: int)
    requires
        0 <= n <= es.len(),
    ensures
        0 <= section_size(es.take(n), text) <= section_size(es, text),
        section_syms(es.take(n), text, start).is_prefix_of(section_syms(es, text, start)),
    decreases es.len(),
{
    if n == es.len() {
        assert(es.take(n) == es);
        if n > 0 {
            lemma_section_prefix(es.drop_last(), text, start, n - 1);
            assert(es.drop_last().take(n - 1) == es.drop_last());
            lemma_body_size_nonneg(es.last());
        }
    } else {
        lemma_section_prefix(es.drop_last(), text, start, n);
        assert(es.drop_last().take(n) == es.take(n));
        lemma_body_size_nonneg(es.last());
    }
}

/// No block has a negative size.
pub proof fn lemma_body_size_nonneg(e: ElemView)
    ensures
        body_size(e) >= 0,
{
    match e.body {
        AsmView::Text(_) => {},
        AsmView::Data(ds) => {
            lemma_data_size_prefix(ds, 0);
        },
    }
}

/// Enters the labels of the blocks of `elems` that belong to the section
/// into `map`, which holds the entries `before`, and returns the size of the
/// section.
fn enter_section(
    map: &mut StringHashMap<i64>,
    elems: &[Elem],
    text: bool,
    start: i64,
    Ghost(before): Ghost<Seq<(Seq<char>, int)>>,
) -> (r: Result<i64, RedefinedSym>)
    requires
        old(map)@ == sym_map(before),
        first_dup(before) is None,
        0 <= start,
        start + section_size(views(elems@), text) <= i64::MAX,
    ensures
        match r {
            Ok(size) => {
                &&& size == section_size(views(elems@), text)
                &&& final(map)@ == sym_map(before + section_syms(views(elems@), text, start as int))
                &&& first_dup(before + section_syms(views(elems@), text, start as int)) is None
            },
            Err(e) => first_dup(before + section_syms(views(elems@), text, start as int))
                == Some(e.0@),
        },
{
    let ghost es = views(elems@);
    let mut offset: i64 = 0;
    let mut i: usize = 0;
    assert(es.take(0) =~= seq![]);
    assert(before + section_syms(es.take(0), text, start as int) =~= before);
    while i < elems.len()
        invariant
            i <= elems.len(),
            es == views(elems@),
            0 <= start,
            start + section_size(es, text) <= i64::MAX,
            offset == section_size(es.take(i as int), text),
            map@ == sym_map(before + section_syms(es.take(i as int), text, start as int)),
            first_dup(before + section_syms(es.take(i as int), text, start as int)) is None,
        decreases elems.len() - i,
    {
        let ghost cur = before + section_syms(es.take(i as int), text, start as int);
        let ghost e = es[i as int];
        proof {
            assert(es.take(i as int + 1).drop_last() == es.take(i as int));
            assert(es.take(i as int + 1).last() == e);
            assert(e == elems@[i as int]@);
            lemma_section_prefix(es, text, start as int, i as int);
            lemma_section_prefix(es, text, start as int, i as int + 1);
            lemma_body_size_nonneg(e);
        }
        let elem = &elems[i];
        let size: Option<i64> = match &elem.body {
            Asm::Text(ins_list) => if text {
                Some(ins_block_size(ins_list.as_slice()))
            } else {
                None
            },
            Asm::Data(data_list) => if text {
                None
            } else {
                Some(data_block_size(data_list.as_slice()))
            },
        };
        match size {
            Some(n) => {
                assert(in_section(e, text));
                let addr: i64 = start + offset;
                let ghost x = (e.lbl, addr as int);
                proof {
                    lemma_sym_map_dom(cur, e.lbl);
                    assert(cur.push(x) =~= before + section_syms(
                        es.take(i as int + 1),
                        text,
                        start as int,
                    ));
                    assert(cur.push(x).drop_last() == cur);
                }
                match add_sym(map, elem.lbl.as_str(), addr) {
                    Ok(_) => {},
                    Err(err) => {
                        proof {
                            let whole = before + section_syms(es, text, start as int);
                            assert(cur.push(x).is_prefix_of(whole));
                            lemma_first_dup_prefix(cur.push(x), whole);
                        }
                        return Err(err);
                    },
                }
                offset = offset + n;
            },
            None => {
                assert(!in_section(e, text));
            },
        }
        i += 1;
    }
    assert(es.take(i as int) == es);
    Ok(offset)
}

/// The symbol table of a program with the code blocks `text_elems` and the
/// data blocks `data_elems`, with the size of the code, the address of the
/// data and the size of the data; or the first label that is defined twice.
/// A block of data among `text_elems` and a block of code among `data_elems`
/// define nothing and take no room.
pub fn build_symbol_table(text_elems: &[Elem], data_elems: &[Elem]) -> (r: Result<
    (StringHashMap<i64>, i64, i64, i64),
    RedefinedSym,
>)
    requires
        TEXT_POS + section_size(views(text_elems@), true) + section_size(
            views(data_elems@),
            false,
        ) <= i64::MAX,
    ensures
        match r {
            Ok(t) => {
                &&& first_dup(symbols(views(text_elems@), views(data_elems@))) is None
                &&& t.0@ == sym_map(symbols(views(text_elems@), views(data_elems@)))
                &&& t.1 == section_size(views(text_elems@), true)
                &&& t.2 == TEXT_POS + t.1
                &&& t.3 == section_size(views(data_elems@), false)
            },
            Err(e) => first_dup(symbols(views(text_elems@), views(data_elems@))) == Some(e.0@),
        },
{
    let ghost ts = views(text_elems@);
    let ghost ds = views(data_elems@);
    proof {
        lemma_section_prefix(ts, true, TEXT_POS as int, 0);
        lemma_section_prefix(ds, false, TEXT_POS as int, 0);
    }
    let mut sym_map: StringHashMap<i64> = StringHashMap::new();
    let ghost none: Seq<(Seq<char>, int)> = seq![];
    assert(none + section_syms(ts, true, TEXT_POS as int) =~= section_syms(
        ts,
        true,
        TEXT_POS as int,
    ));
    let text_size: i64 = match enter_section(&mut sym_map, text_elems, true, TEXT_POS, Ghost(none)) {
        Ok(size) => size,
        Err(e) => {
            proof {
                lemma_first_dup_prefix(section_syms(ts, true, TEXT_POS as int), symbols(ts, ds));
            }
            return Err(e);
        },
    };
    let data_pos: i64 = TEXT_POS + text_size;
    let data_size: i64 = match enter_section(
        &mut sym_map,
        data_elems,
        false,
        data_pos,
        Ghost(section_syms(ts, true, TEXT_POS as int)),
    ) {
        Ok(size) => size,
        Err(e) => {
            return Err(e);
        },
    };
    Ok((sym_map, text_size, data_pos, data_size))
}

/// The label that `i` refers to, where the symbol table `map` does not
/// hold it.
pub open spec fn imm_undefined(map: Map<Seq<char>, i64>, i: ImmView) -> Option<Seq<char>> {
    match i {
        ImmView::Lbl(l) => if map.contains_key(l) {
            None
        } else {
            Some(l)
        },
        ImmView::Lit(_) => None,
    }
}

/// The immediate `i` with a label replaced by its address in `map`.
pub open spec fn resolved_imm(map: Map<Seq<char>, i64>, i: ImmView) -> ImmView {
    match i {
        ImmView::Lbl(l) => ImmView::Lit(map[l]),
        ImmView::Lit(x) => ImmView::Lit(x),
    }
}

/// The immediate `imm` with a label replaced by its address in `map`, or
/// the label, where `map` does not hold it.
pub fn resolve_imm(map: &StringHashMap<i64>, imm: &Imm) -> (r: Result<Imm, UndefinedSym>)
    ensures
        match r {
            Ok(i) => imm_undefined(map@, imm@) is None && i@ == resolved_imm(map@, imm@),
            Err(e) => imm_undefined(map@, imm@) == Some(e.0@),
        },
{
    match imm {
        Imm::Lit(x) => Ok(Imm::Lit(*x)),
        Imm::Lbl(l) => match resolve_sym(l.as_str(), map) {
            Ok(addr) => Ok(Imm::Lit(addr)),
            Err(e) => Err(e),
        },
    }
}

/// The label that the operand `o` refers to, where `map` does not hold it.
pub open spec fn operand_undefined(map: Map<Seq<char>, i64>, o: OperandView) -> Option<Seq<char>> {
    match o {
        OperandView::Imm(i) => imm_undefined(map, i),
        OperandView::Ind1(i) => imm_undefined(map, i),
        OperandView::Ind3(i, _) => imm_undefined(map, i),
        _ => None,
    }
}

/// The operand `o` with a label replaced by its address in `map`.
pub open spec fn resolved_operand(map: Map<Seq<char>, i64>, o: OperandView) -> OperandView {
    match o {
        OperandView::Imm(i) => OperandView::Imm(resolved_imm(map, i)),
        OperandView::Reg(r) => OperandView::Reg(r),
        OperandView::Ind1(i) => OperandView::Ind1(resolved_imm(map, i)),
        OperandView::Ind2(r) => OperandView::Ind2(r),
        OperandView::Ind3(i, r) => OperandView::Ind3(resolved_imm(map, i), r),
    }
}

/// The operand `op` with a label replaced by its address in `map`, or the
/// label, where `map` does not hold it.
pub fn resolve_operand(map: &StringHashMap<i64>, op: &Operand) -> (r: Result<
    Operand,
    UndefinedSym,
>)
    ensures
        match r {
            Ok(o) => operand_undefined(map@, op@) is None && o@ == resolved_operand(map@, op@),
            Err(e) => operand_undefined(map@, op@) == Some(e.0@),
        },
{
    match op {
        Operand::Imm(i) => match resolve_imm(map, i) {
            Ok(i) => Ok(Operand::Imm(i)),
            Err(e) => Err(e),
        },
        Operand::Reg(r) => Ok(Operand::Reg(*r)),
        Operand::Ind1(i) => match resolve_imm(map, i) {
            Ok(i) => Ok(Operand::Ind1(i)),
            Err(e) => Err(e),
        },
        Operand::Ind2(r) => Ok(Operand::Ind2(*r)),
        Operand::Ind3(i, r) => match resolve_imm(map, i) {
            Ok(i) => Ok(Operand::Ind3(i, *r)),
            Err(e) => Err(e),
        },
    }
}

/// The first label among the operands `ops` that `map` does not hold.
pub open spec fn operands_undefined(map: Map<Seq<char>, i64>, ops: Seq<OperandView>) -> Option<
    Seq<char>,
>
    decreases ops.len(),
{
    if ops.len() == 0 {
        None
    } else {
        match operands_undefined(map, ops.drop_last()) {
            Some(l) => Some(l),
            None => operand_undefined(map, ops.last()),
        }
    }
}

/// The operands `ops` with each label replaced by its address in `map`.
pub open spec fn resolved_operands(map: Map<Seq<char>, i64>, ops: Seq<OperandView>) -> Seq<
    OperandView,
>
    decreases ops.len(),
{
    if ops.len() == 0 {
        seq![]
    } else {
        resolved_operands(map, ops.drop_last()).push(resolved_operand(map, ops.last()))
    }
}

/// The first label in the instruction `ins` that `map` does not hold.
pub open spec fn ins_undefined(map: Map<Seq<char>, i64>, ins: InsView) -> Option<Seq<char>> {
    operands_undefined(map, ins.operands)
}

/// The instruction `ins` with each label replaced by its address in `map`.
pub open spec fn resolved_ins(map: Map<Seq<char>, i64>, ins: InsView) -> InsView {
    InsView { opcode: ins.opcode, operands: resolved_operands(map, ins.operands) }
}

/// What is left to find in a list after a first part in which nothing was
/// found.
pub proof fn lemma_operands_undefined_prefix(
    map: Map<Seq<char>, i64>,
    ops: Seq<OperandView>,
    n: int,
)
    requires
        0 <= n <= ops.len(),
        operands_undefined(map, ops.take(n)) is Some,
    ensures
        operands_undefined(map, ops) == operands_undefined(map, ops.take(n)),
    decreases ops.len(),
{
    if n == ops.len() {
        assert(ops.take(n) == ops);
    } else {
        assert(ops.drop_last().take(n) == ops.take(n));
        lemma_operands_undefined_prefix(map, ops.drop_last(), n);
    }
}

/// The instruction `ins` with each label replaced by its address in `map`,
/// or the first of its labels that `map` does not hold.
pub fn resolve_ins_labels(map: &StringHashMap<i64>, ins: &Ins) -> (r: Result<Ins, UndefinedSym>)
    ensures
        match r {
            Ok(i) => ins_undefined(map@, ins@) is None && i@ == resolved_ins(map@, ins@),
            Err(e) => ins_undefined(map@, ins@) == Some(e.0@),
        },
{
    let ghost ops = ins@.operands;
    let mut resolved: Vec<Operand> = Vec::new();
    let mut k: usize = 0;
    assert(ops.take(0) =~= seq![]);
    while k < ins.operands.len()
        invariant
            k <= ins.operands.len(),
            ops == views(ins.operands@),
            operands_undefined(map@, ops.take(k as int)) is None,
            views(resolved@) == resolved_operands(map@, ops.take(k as int)),
        decreases ins.operands.len() - k,
    {
        assert(ops.take(k as int + 1).drop_last() == ops.take(k as int));
        assert(ops.take(k as int + 1).last() == ins.operands@[k as int]@);
        match resolve_operand(map, &ins.operands[k]) {
            Ok(o) => resolved.push(o),
            Err(e) => {
                proof {
                    lemma_operands_undefined_prefix(map@, ops, k as int + 1);
                }
                return Err(e);
            },
        }
        k += 1;
    }
    assert(ops.take(k as int) == ops);
    Ok(Ins { opcode: ins.opcode, operands: resolved })
}

/// The label in the data item `d` that `map` does not hold.
pub open spec fn data_undefined(map: Map<Seq<char>, i64>, d: DataView) -> Option<Seq<char>> {
    match d {
        DataView::Asciz(_) => None,
        DataView::Quad(i) => imm_undefined(map, i),
    }
}

/// The data item `d` with a label replaced by its address in `map`.
pub open spec fn resolved_data(map: Map<Seq<char>, i64>, d: DataView) -> DataView {
    match d {
        DataView::Asciz(s) => DataView::Asciz(s),
        DataView::Quad(i) => DataView::Quad(resolved_imm(map, i)),
    }
}

/// The data item `data` with a label replaced by its address in `map`, or
/// the label, where `map` does not hold it.
pub fn resolve_data_labels(map: &StringHashMap<i64>, data: &Data) -> (r: Result<
    Data,
    UndefinedSym,
>)
    ensures
        match r {
            Ok(d) => data_undefined(map@, data@) is None && d@ == resolved_data(map@, data@),
            Err(e) => data_undefined(map@, data@) == Some(e.0@),
        },
{
    match data {
        Data::Asciz(s) => Ok(Data::Asciz(s.clone())),
        Data::Quad(imm) => match resolve_imm(map, imm) {
            Ok(i) => Ok(Data::Quad(i)),
            Err(e) => Err(e),
        },
    }
}

/// The first label in the instructions `is` that `map` does not hold.
pub open spec fn code_undefined(map: Map<Seq<char>, i64>, is: Seq<InsView>) -> Option<Seq<char>>
    decreases is.len(),
{
    if is.len() == 0 {
        None
    } else {
        match code_undefined(map, is.drop_last()) {
            Some(l) => Some(l),
            None => ins_undefined(map, is.last()),
        }
    }
}

/// The bytes of the instructions `is`, each label replaced by its address
/// in `map`.
pub open spec fn code_sbytes(map: Map<Seq<char>, i64>, is: Seq<InsView>) -> Seq<SByteView>
    decreases is.len(),
{
    if is.len() == 0 {
        seq![]
    } else {
        code_sbytes(map, is.drop_last()) + ins_sbytes(resolved_ins(map, is.last()))
    }
}

/// The first label in the data items `ds` that `map` does not hold.
pub open spec fn items_undefined(map: Map<Seq<char>, i64>, ds: Seq<DataView>) -> Option<Seq<char>>
    decreases ds.len(),
{
    if ds.len() == 0 {
        None
    } else {
        match items_undefined(map, ds.drop_last()) {
            Some(l) => Some(l),
            None => data_undefined(map, ds.last()),
        }
    }
}

/// The bytes of the data items `ds`, each label replaced by its address in
/// `map`.
pub open spec fn items_sbytes(map: Map<Seq<char>, i64>, ds: Seq<DataView>) -> Seq<SByteView>
    decreases ds.len(),
{
    if ds.len() == 0 {
        seq![]
    } else {
        items_sbytes(map, ds.drop_last()) + data_sbytes(resolved_data(map, ds.last()))
    }
}

/// The first label in the block `e` that `map` does not hold.
pub open spec fn elem_undefined(map: Map<Seq<char>, i64>, e: ElemView) -> Option<Seq<char>> {
    match e.body {
        AsmView::Text(is) => code_undefined(map, is),
        AsmView::Data(ds) => items_undefined(map, ds),
    }
}

/// The bytes of the block `e`, each label replaced by its address in `map`.
pub open spec fn elem_sbytes(map: Map<Seq<char>, i64>, e: ElemView) -> Seq<SByteView> {
    match e.body {
        AsmView::Text(is) => code_sbytes(map, is),
        AsmView::Data(ds) => items_sbytes(map, ds),
    }
}

/// The first label in the blocks `es` that `map` does not hold.
pub open spec fn elems_undefined(map: Map<Seq<char>, i64>, es: Seq<ElemView>) -> Option<Seq<char>>
    decreases es.len(),
{
    if es.len() == 0 {
        None
    } else {
        match elems_undefined(map, es.drop_last()) {
            Some(l) => Some(l),
            None => elem_undefined(map, es.last()),
        }
    }
}

/// The bytes of the blocks `es`, each label replaced by its address in
/// `map`.
pub open spec fn elems_sbytes(map: Map<Seq<char>, i64>, es: Seq<ElemView>) -> Seq<SByteView>
    decreases es.len(),
{
    if es.len() == 0 {
        seq![]
    } else {
        elems_sbytes(map, es.drop_last()) + elem_sbytes(map, es.last())
    }
}

/// Why a program could not be assembled.
#[derive(Debug)]
pub enum AssembleError {
    /// A label is defined more than once.
    Redefined(RedefinedSym),
    /// A label is used and nowhere defined.
    Undefined(UndefinedSym),
}

/// The value of an [`AssembleError`].
pub enum AssembleErrorView {
    Redefined(Seq<char>),
    Undefined(Seq<char>),
}

impl View for AssembleError {
    type V = AssembleErrorView;

    open spec fn view(&self) -> AssembleErrorView {
        match self {
            AssembleError::Redefined(e) => AssembleErrorView::Redefined(e.0@),
            AssembleError::Undefined(e) => AssembleErrorView::Undefined(e.0@),
        }
    }
}

impl AssembleError {
    /// The message of the error.
    pub fn to_string(&self) -> (r: String)
        ensures
            r@ == match self@ {
                AssembleErrorView::Redefined(l) => "Redefined symbol: "@ + l,
                AssembleErrorView::Undefined(l) => "Undefined symbol: "@ + l,
            },
    {
        match self {
            AssembleError::Redefined(e) => e.to_string(),
            AssembleError::Undefined(e) => e.to_string(),
        }
    }
}

/// Replacing labels by addresses leaves no label.
pub proof fn lemma_resolved_has_no_label(map: Map<Seq<char>, i64>, ins: InsView)
    ensures
        !ins_has_label(resolved_ins(map, ins)),
{
    lemma_resolved_operands(map, ins.operands);
}

/// Replacing labels by addresses keeps the number of operands and leaves
/// none that refers to a label.
pub proof fn lemma_resolved_operands(map: Map<Seq<char>, i64>, ops: Seq<OperandView>)
    ensures
        resolved_operands(map, ops).len() == ops.len(),
        forall|k: int|
            0 <= k < ops.len() ==> !operand_has_label(#[trigger] resolved_operands(map, ops)[k]),
    decreases ops.len(),
{
    if ops.len() > 0 {
        lemma_resolved_operands(map, ops.drop_last());
    }
}

/// What is left to find in a list after a first part in which something
/// was found: nothing new.
pub proof fn lemma_code_undefined_prefix(map: Map<Seq<char>, i64>, is: Seq<InsView>, n: int)
    requires
        0 <= n <= is.len(),
        code_undefined(map, is.take(n)) is Some,
    ensures
        code_undefined(map, is) == code_undefined(map, is.take(n)),
    decreases is.len(),
{
    if n == is.len() {
        assert(is.take(n) == is);
    } else {
        assert(is.drop_last().take(n) == is.take(n));
        lemma_code_undefined_prefix(map, is.drop_last(), n);
    }
}

/// As [`lemma_code_undefined_prefix`], for data items.
pub proof fn lemma_items_undefined_prefix(map: Map<Seq<char>, i64>, ds: Seq<DataView>, n: int)
    requires
        0 <= n <= ds.len(),
        items_undefined(map, ds.take(n)) is Some,
    ensures
        items_undefined(map, ds) == items_undefined(map, ds.take(n)),
    decreases ds.len(),
{
    if n == ds.len() {
        assert(ds.take(n) == ds);
    } else {
        assert(ds.drop_last().take(n) == ds.take(n));
        lemma_items_undefined_prefix(map, ds.drop_last(), n);
    }
}

/// As [`lemma_code_undefined_prefix`], for blocks.
pub proof fn lemma_elems_undefined_prefix(map: Map<Seq<char>, i64>, es: Seq<ElemView>, n: int)
    requires
        0 <= n <= es.len(),
        elems_undefined(map, es.take(n)) is Some,
    ensures
        elems_undefined(map, es) == elems_undefined(map, es.take(n)),
    decreases es.len(),
{
    if n == es.len() {
        assert(es.take(n) == es);
    } else {
        assert(es.drop_last().take(n) == es.take(n));
        lemma_elems_undefined_prefix(map, es.drop_last(), n);
    }
}

/// Appends the bytes of the instructions `ins_list` to `seg`.
fn push_code(map: &StringHashMap<i64>, ins_list: &Vec<Ins>, seg: &mut Vec<SByte>) -> (r: Result<
    (),
    UndefinedSym,
>)
    ensures
        match r {
            Ok(_) => {
                &&& code_undefined(map@, views(ins_list@)) is None
                &&& views(final(seg)@) == views(old(seg)@) + code_sbytes(map@, views(ins_list@))
            },
            Err(e) => code_undefined(map@, views(ins_list@)) == Some(e.0@),
        },
{
    let ghost is = views(ins_list@);
    let mut i: usize = 0;
    assert(is.take(0) =~= seq![]);
    assert(views(seg@) =~= views(old(seg)@) + code_sbytes(map@, is.take(0)));
    while i < ins_list.len()
        invariant
            i <= ins_list.len(),
            is == views(ins_list@),
            code_undefined(map@, is.take(i as int)) is None,
            views(seg@) == views(old(seg)@) + code_sbytes(map@, is.take(i as int)),
        decreases ins_list.len() - i,
    {
        assert(is.take(i as int + 1).drop_last() == is.take(i as int));
        assert(is.take(i as int + 1).last() == ins_list@[i as int]@);
        let resolved_ins = match resolve_ins_labels(map, &ins_list[i]) {
            Ok(ins) => ins,
            Err(e) => {
                proof {
                    lemma_code_undefined_prefix(map@, is, i as int + 1);
                }
                return Err(e);
            },
        };
        proof {
            lemma_resolved_has_no_label(map@, ins_list@[i as int]@);
        }
        let mut sbytes = match sbytes_of_ins(&resolved_ins) {
            Ok(bs) => bs,
            Err(_) => vstd::pervasive::unreached(),
        };
        seg.append(&mut sbytes);
        assert(views(seg@) =~= views(old(seg)@) + code_sbytes(map@, is.take(i as int + 1)));
        i += 1;
    }
    assert(is.take(i as int) == is);
    Ok(())
}

/// Appends the bytes of the data items `data_list` to `seg`.
fn push_items(map: &StringHashMap<i64>, data_list: &Vec<Data>, seg: &mut Vec<SByte>) -> (r: Result<
    (),
    UndefinedSym,
>)
    ensures
        match r {
            Ok(_) => {
                &&& items_undefined(map@, views(data_list@)) is None
                &&& views(final(seg)@) == views(old(seg)@) + items_sbytes(map@, views(data_list@))
            },
            Err(e) => items_undefined(map@, views(data_list@)) == Some(e.0@),
        },
{
    let ghost ds = views(data_list@);
    let mut i: usize = 0;
    assert(ds.take(0) =~= seq![]);
    assert(views(seg@) =~= views(old(seg)@) + items_sbytes(map@, ds.take(0)));
    while i < data_list.len()
        invariant
            i <= data_list.len(),
            ds == views(data_list@),
            items_undefined(map@, ds.take(i as int)) is None,
            views(seg@) == views(old(seg)@) + items_sbytes(map@, ds.take(i as int)),
        decreases data_list.len() - i,
    {
        assert(ds.take(i as int + 1).drop_last() == ds.take(i as int));
        assert(ds.take(i as int + 1).last() == data_list@[i as int]@);
        let resolved_data = match resolve_data_labels(map, &data_list[i]) {
            Ok(d) => d,
            Err(e) => {
                proof {
                    lemma_items_undefined_prefix(map@, ds, i as int + 1);
                }
                return Err(e);
            },
        };
        let mut sbytes = match sbytes_of_data(&resolved_data) {
            Ok(bs) => bs,
            Err(_) => vstd::pervasive::unreached(),
        };
        seg.append(&mut sbytes);
        assert(views(seg@) =~= views(old(seg)@) + items_sbytes(map@, ds.take(i as int + 1)));
        i += 1;
    }
    assert(ds.take(i as int) == ds);
    Ok(())
}

/// The bytes of the blocks `elems`, each label replaced by its address in
/// `map`, or the first label that `map` does not hold.
fn segment(map: &StringHashMap<i64>, elems: &Vec<Elem>) -> (r: Result<Vec<SByte>, UndefinedSym>)
    ensures
        match r {
            Ok(seg) => {
                &&& elems_undefined(map@, views(elems@)) is None
                &&& views(seg@) == elems_sbytes(map@, views(elems@))
            },
            Err(e) => elems_undefined(map@, views(elems@)) == Some(e.0@),
        },
{
    let ghost es = views(elems@);
    let mut seg: Vec<SByte> = Vec::new();
    let mut i: usize = 0;
    assert(es.take(0) =~= seq![]);
    assert(views(seg@) =~= elems_sbytes(map@, es.take(0)));
    while i < elems.len()
        invariant
            i <= elems.len(),
            es == views(elems@),
            elems_undefined(map@, es.take(i as int)) is None,
            views(seg@) == elems_sbytes(map@, es.take(i as int)),
        decreases elems.len() - i,
    {
        assert(es.take(i as int + 1).drop_last() == es.take(i as int));
        assert(es.take(i as int + 1).last() == elems@[i as int]@);
        let pushed = match &elems[i].body {
            Asm::Text(ins_list) => push_code(map, ins_list, &mut seg),
            Asm::Data(data_list) => push_items(map, data_list, &mut seg),
        };
        match pushed {
            Ok(_) => {},
            Err(e) => {
                proof {
                    lemma_elems_undefined_prefix(map@, es, i as int + 1);
                }
                return Err(e);
            },
        }
        i += 1;
    }
    assert(es.take(i as int) == es);
    Ok(seg)
}

/// Whether the addresses of the program `p` stay within a machine word.
pub open spec fn fits(p: Seq<ElemView>) -> bool {
    TEXT_POS + section_size(section(p, true), true) + section_size(section(p, false), false)
        <= i64::MAX
}

/// The size in bytes of what the blocks `p` hold.
pub open spec fn total_size(p: Seq<ElemView>) -> int
    decreases p.len(),
{
    if p.len() == 0 {
        0
    } else {
        total_size(p.drop_last()) + body_size(p.last())
    }
}

/// The sizes of the two sections of a program add up to the size of what
/// its blocks hold.
pub proof fn lemma_total_size(p: Seq<ElemView>)
    ensures
        section_size(section(p, true), true) + section_size(section(p, false), false)
            == total_size(p),
        total_size(p) >= 0,
    decreases p.len(),
{
    if p.len() > 0 {
        lemma_total_size(p.drop_last());
        lemma_body_size_nonneg(p.last());
        let text = p.last().body is Text;
        assert(section(p, text).drop_last() == section(p.drop_last(), text));
        assert(section(p, text).last() == p.last());
    }
}

/// The blocks of a program up to the `n`-th hold no more than all.
pub proof fn lemma_total_size_prefix(p: Seq<ElemView>, n: int)
    requires
        0 <= n <= p.len(),
    ensures
        0 <= total_size(p.take(n)) <= total_size(p),
    decreases p.len(),
{
    lemma_total_size(p.take(n));
    if n == p.len() {
        assert(p.take(n) == p);
    } else {
        lemma_total_size_prefix(p.drop_last(), n);
        assert(p.drop_last().take(n) == p.take(n));
        lemma_body_size_nonneg(p.last());
    }
}

/// The size in bytes of the data items `items`, unless it exceeds `room`.
fn data_size_within(items: &Vec<Data>, room: i64) -> (r: Option<i64>)
    requires
        0 <= room,
    ensures
        match r {
            Some(n) => n == data_size(views(items@)) && n <= room,
            None => data_size(views(items@)) > room,
        },
{
    let ghost ds = views(items@);
    let mut sum: i64 = 0;
    let mut i: usize = 0;
    assert(ds.take(0) =~= seq![]);
    while i < items.len()
        invariant
            i <= items.len(),
            ds == views(items@),
            0 <= sum <= room,
            sum == data_size(ds.take(i as int)),
        decreases items.len() - i,
    {
        proof {
            assert(ds.take(i as int + 1).drop_last() == ds.take(i as int));
            assert(ds.take(i as int + 1).last() == items@[i as int]@);
            lemma_data_size_prefix(ds, i as int + 1);
        }
        let n: usize = match &items[i] {
            Data::Asciz(s) => s.as_str().unicode_len(),
            Data::Quad(_) => 7,
        };
        let left: i64 = room - sum;
        if n as u64 >= left as u64 {
            return None;
        }
        sum = sum + (n as i64) + 1;
        i += 1;
    }
    assert(ds.take(i as int) == ds);
    Some(sum)
}

/// Whether the addresses of the program `prog` stay within a machine word.
pub fn addresses_fit(prog: &Prog) -> (r: bool)
    ensures
        r == fits(prog@),
{
    let ghost p = prog@;
    let room: i64 = i64::MAX - TEXT_POS;
    let mut sum: i64 = 0;
    let mut i: usize = 0;
    proof {
        lemma_total_size(p);
        assert(p.take(0) =~= seq![]);
    }
    while i < prog.0.len()
        invariant
            i <= prog.0.len(),
            p == prog@,
            room == i64::MAX - TEXT_POS,
            0 <= sum <= room,
            sum == total_size(p.take(i as int)),
            fits(p) == (TEXT_POS + total_size(p) <= i64::MAX),
        decreases prog.0.len() - i,
    {
        proof {
            assert(p.take(i as int + 1).drop_last() == p.take(i as int));
            assert(p.take(i as int + 1).last() == prog.0@[i as int]@);
            lemma_total_size_prefix(p, i as int + 1);
        }
        let left: i64 = room - sum;
        let size: Option<i64> = match &prog.0[i].body {
            Asm::Text(code) => {
                if code.len() as u64 > (left as u64) / 8 {
                    None
                } else {
                    Some((code.len() as i64) * 8)
                }
            },
            Asm::Data(items) => data_size_within(items, left),
        };
        match size {
            Some(n) => {
                sum = sum + n;
            },
            None => {
                return false;
            },
        }
        i += 1;
    }
    assert(p.take(i as int) == p);
    true
}

/// What assembling the program `p` gives. The code blocks are laid out
/// from [`TEXT_POS`] in order, the data blocks behind them. A label defined
/// twice fails the program, before anything else is looked at. Then `main`
/// must be defined: it is where running starts. Then each label is replaced
/// by its address, in the code first, and the first label that is not
/// defined fails the program.
pub open spec fn assembled(p: Seq<ElemView>) -> Result<ExecView, AssembleErrorView> {
    let ts = section(p, true);
    let ds = section(p, false);
    let syms = symbols(ts, ds);
    let map = sym_map(syms);
    if let Some(l) = first_dup(syms) {
        Err(AssembleErrorView::Redefined(l))
    } else if !map.contains_key("main"@) {
        Err(AssembleErrorView::Undefined("main"@))
    } else if let Some(l) = elems_undefined(map, ts) {
        Err(AssembleErrorView::Undefined(l))
    } else if let Some(l) = elems_undefined(map, ds) {
        Err(AssembleErrorView::Undefined(l))
    } else {
        Ok(
            ExecView {
                entry: map["main"@],
                text_pos: TEXT_POS,
                data_pos: (TEXT_POS + section_size(ts, true)) as i64,
                text_seg: elems_sbytes(map, ts),
                data_seg: elems_sbytes(map, ds),
            },
        )
    }
}

/// The program `prog` laid out in memory, or why it cannot be.
pub fn assemble(prog: &Prog) -> (r: Result<Exec, AssembleError>)
    requires
        fits(prog@),
    ensures
        match r {
            Ok(exec) => assembled(prog@) == Ok::<ExecView, AssembleErrorView>(exec@),
            Err(e) => assembled(prog@) == Err::<ExecView, AssembleErrorView>(e@),
        },
{
    let (ts, ds) = filter_sections(prog);
    let (map, text_size, data_pos, data_size) = match build_symbol_table(
        ts.as_slice(),
        ds.as_slice(),
    ) {
        Ok(t) => t,
        Err(e) => {
            return Err(AssembleError::Redefined(e));
        },
    };
    let entry: i64 = match resolve_sym("main", &map) {
        Ok(addr) => addr,
        Err(e) => {
            return Err(AssembleError::Undefined(e));
        },
    };
    let text_pos: i64 = TEXT_POS;
    let text_seg = match segment(&map, &ts) {
        Ok(seg) => seg,
        Err(e) => {
            return Err(AssembleError::Undefined(e));
        },
    };
    let data_seg = match segment(&map, &ds) {
        Ok(seg) => seg,
        Err(e) => {
            return Err(AssembleError::Undefined(e));
        },
    };
    Ok(Exec { entry, text_pos, data_pos, text_seg, data_seg })
}

} // verus!
