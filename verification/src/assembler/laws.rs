//! What holds of every program that is assembled.

use vstd::prelude::*;
use crate::assembler::link::{
    assembled, code_sbytes, code_undefined, data_undefined, defined_in, elem_undefined,
    elems_sbytes, elems_undefined, first_dup, in_section, ins_undefined, items_sbytes,
    items_undefined, lemma_sym_map_dom, operand_undefined, operands_undefined, resolved_data,
    resolved_ins, resolved_operand, resolved_operands, section, section_size, section_syms, sym_map,
    symbols, TEXT_POS,
};
use crate::assembler::{
    char_sbytes, code_size, data_size, int64_sbytes, le_byte, word_of, SByteView,
};
use crate::x86::{AsmView, DataView, ElemView, ImmView, InsView, OperandView};

verus! {

/// A string takes up one byte for each of its characters.
pub proof fn lemma_char_sbytes_len(s: Seq<char>)
    ensures
        char_sbytes(s).len() == s.len(),
    decreases s.len(),
{
    if s.len() > 0 {
        lemma_char_sbytes_len(s.drop_last());
    }
}

/// The instructions `is` take up eight bytes each.
pub proof fn lemma_code_sbytes_len(map: Map<Seq<char>, i64>, is: Seq<InsView>)
    ensures
        code_sbytes(map, is).len() == code_size(is.len()),
    decreases is.len(),
{
    if is.len() > 0 {
        lemma_code_sbytes_len(map, is.drop_last());
    }
}

/// The data items `ds` take up as many bytes as their size says.
pub proof fn lemma_items_sbytes_len(map: Map<Seq<char>, i64>, ds: Seq<DataView>)
    ensures
        items_sbytes(map, ds).len() == data_size(ds),
    decreases ds.len(),
{
    if ds.len() > 0 {
        lemma_items_sbytes_len(map, ds.drop_last());
        match ds.last() {
            DataView::Asciz(s) => {
                lemma_char_sbytes_len(s);
            },
            DataView::Quad(_) => {},
        }
    }
}

/// Every block of a section belongs to it.
pub proof fn lemma_section_members(p: Seq<ElemView>, text: bool, i: int)
    requires
        0 <= i < section(p, text).len(),
    ensures
        in_section(section(p, text)[i], text),
    decreases p.len(),
{
    if p.len() > 0 {
        if in_section(p.last(), text) {
            if i < section(p, text).len() - 1 {
                lemma_section_members(p.drop_last(), text, i);
            }
        } else {
            lemma_section_members(p.drop_last(), text, i);
        }
    }
}

/// The blocks `es`, all of one section, take up as many bytes as the size
/// of the section says.
pub proof fn lemma_elems_sbytes_len(map: Map<Seq<char>, i64>, es: Seq<ElemView>, text: bool)
    requires
        forall|i: int| 0 <= i < es.len() ==> in_section(#[trigger] es[i], text),
    ensures
        elems_sbytes(map, es).len() == section_size(es, text),
    decreases es.len(),
{
    if es.len() > 0 {
        assert forall|i: int| 0 <= i < es.drop_last().len() implies in_section(
            #[trigger] es.drop_last()[i],
            text,
        ) by {
            assert(es.drop_last()[i] == es[i]);
        }
        lemma_elems_sbytes_len(map, es.drop_last(), text);
        assert(in_section(es[es.len() - 1], text));
        match es.last().body {
            AsmView::Text(is) => {
                lemma_code_sbytes_len(map, is);
            },
            AsmView::Data(ds) => {
                lemma_items_sbytes_len(map, ds);
            },
        }
    }
}

/// In memory every instruction takes eight bytes and every data item its
/// size: the code of an assembled program is as long as the sizes of its
/// code blocks say, the data as long as those of its data blocks, and the
/// data starts where the code ends.
pub proof fn law_segment_sizes(p: Seq<ElemView>)
    ensures
        assembled(p) matches Ok(e) ==> {
            &&& e.text_seg.len() == section_size(section(p, true), true)
            &&& e.data_seg.len() == section_size(section(p, false), false)
            &&& e.text_pos == TEXT_POS
            &&& e.data_pos == (e.text_pos + e.text_seg.len()) as i64
        },
{
    let ts = section(p, true);
    let ds = section(p, false);
    let map = sym_map(symbols(ts, ds));
    assert forall|i: int| 0 <= i < ts.len() implies in_section(#[trigger] ts[i], true) by {
        lemma_section_members(p, true, i);
    }
    assert forall|i: int| 0 <= i < ds.len() implies in_section(#[trigger] ds[i], false) by {
        lemma_section_members(p, false, i);
    }
    lemma_elems_sbytes_len(map, ts, true);
    lemma_elems_sbytes_len(map, ds, false);
}

/// A program that is one code block `main` of `k` instructions, if it can
/// be assembled, has `8k` bytes of code, no data, and starts running at
/// [`TEXT_POS`]. It can be assembled unless it refers to a label other than
/// `main`, and then the error names a label that is not defined.
pub proof fn law_single_main(p: Seq<ElemView>, k: nat)
    requires
        p.len() == 1,
        p[0].lbl == "main"@,
        p[0].body matches AsmView::Text(is) && is.len() == k,
    ensures
        match assembled(p) {
            Ok(e) => e.text_seg.len() == 8 * k && e.data_seg.len() == 0 && e.entry == TEXT_POS,
            Err(e) => e is Undefined,
        },
{
    reveal_with_fuel(section, 3);
    reveal_with_fuel(section_syms, 3);
    reveal_with_fuel(section_size, 3);
    reveal_with_fuel(first_dup, 3);
    reveal_with_fuel(sym_map, 3);
    let ts = section(p, true);
    let ds = section(p, false);
    assert(p.drop_last() =~= seq![]);
    assert(ts =~= seq![p[0]]);
    assert(ds =~= seq![]);
    assert(ts.drop_last() =~= seq![]);
    let syms = symbols(ts, ds);
    assert(section_syms(ts, true, TEXT_POS as int) =~= seq![("main"@, TEXT_POS as int)]);
    assert(syms =~= seq![("main"@, TEXT_POS as int)]);
    assert(syms.drop_last() =~= seq![]);
    assert(first_dup(syms) is None);
    assert(sym_map(syms) =~= Map::<Seq<char>, i64>::empty().insert("main"@, TEXT_POS));
    law_segment_sizes(p);
}

/// Replacing labels by addresses puts the address that the symbol table
/// gives in the place of every label it holds, and leaves everything else
/// of an operand as it is.
pub proof fn law_resolution_replaces(map: Map<Seq<char>, i64>, o: OperandView, l: Seq<char>)
    requires
        map.contains_key(l),
    ensures
        o == OperandView::Imm(ImmView::Lbl(l)) ==> resolved_operand(map, o) == OperandView::Imm(
            ImmView::Lit(map[l]),
        ),
        o == OperandView::Ind1(ImmView::Lbl(l)) ==> resolved_operand(map, o) == OperandView::Ind1(
            ImmView::Lit(map[l]),
        ),
        forall|r: crate::x86::Reg|
            o == OperandView::Ind3(ImmView::Lbl(l), r) ==> resolved_operand(map, o)
                == OperandView::Ind3(ImmView::Lit(map[l]), r),
        o is Reg || o is Ind2 ==> resolved_operand(map, o) == o,
        operand_undefined(map, o) is None <==> !(exists|m: Seq<char>|
            !map.contains_key(m) && (o == OperandView::Imm(ImmView::Lbl(m)) || o
                == OperandView::Ind1(ImmView::Lbl(m)) || (exists|r: crate::x86::Reg|
                o == OperandView::Ind3(ImmView::Lbl(m), r)))),
{
    if operand_undefined(map, o) is Some {
        let m = operand_undefined(map, o)->0;
        match o {
            OperandView::Imm(i) => {
                assert(o == OperandView::Imm(ImmView::Lbl(m)));
            },
            OperandView::Ind1(i) => {
                assert(o == OperandView::Ind1(ImmView::Lbl(m)));
            },
            OperandView::Ind3(i, r) => {
                assert(o == OperandView::Ind3(ImmView::Lbl(m), r));
            },
            _ => {},
        }
    }
}

/// Replacing labels by addresses a second time changes nothing, whatever
/// the second symbol table holds, and finds no label that is not defined.
pub proof fn law_resolution_idempotent(
    map: Map<Seq<char>, i64>,
    other: Map<Seq<char>, i64>,
    ins: InsView,
)
    ensures
        resolved_ins(other, resolved_ins(map, ins)) == resolved_ins(map, ins),
        ins_undefined(other, resolved_ins(map, ins)) is None,
{
    lemma_resolved_twice(map, other, ins.operands);
}

/// As [`law_resolution_idempotent`], for a list of operands.
pub proof fn lemma_resolved_twice(
    map: Map<Seq<char>, i64>,
    other: Map<Seq<char>, i64>,
    ops: Seq<OperandView>,
)
    ensures
        resolved_operands(other, resolved_operands(map, ops)) == resolved_operands(map, ops),
        operands_undefined(other, resolved_operands(map, ops)) is None,
    decreases ops.len(),
{
    if ops.len() > 0 {
        lemma_resolved_twice(map, other, ops.drop_last());
        assert(resolved_operands(map, ops).drop_last() == resolved_operands(map, ops.drop_last()));
    }
}

/// As [`law_resolution_idempotent`], for a data item.
pub proof fn law_data_resolution_idempotent(
    map: Map<Seq<char>, i64>,
    other: Map<Seq<char>, i64>,
    d: DataView,
)
    ensures
        resolved_data(other, resolved_data(map, d)) == resolved_data(map, d),
        data_undefined(other, resolved_data(map, d)) is None,
{
}

/// How many entries of `syms` define the label `l`.
pub open spec fn count_syms(syms: Seq<(Seq<char>, int)>, l: Seq<char>) -> nat
    decreases syms.len(),
{
    if syms.len() == 0 {
        0
    } else if syms.last().0 == l {
        count_syms(syms.drop_last(), l) + 1
    } else {
        count_syms(syms.drop_last(), l)
    }
}

/// How many blocks of `p` in the section carry the label `l`.
pub open spec fn count_label(p: Seq<ElemView>, l: Seq<char>, text: bool) -> nat
    decreases p.len(),
{
    if p.len() == 0 {
        0
    } else if in_section(p.last(), text) && p.last().lbl == l {
        count_label(p.drop_last(), l, text) + 1
    } else {
        count_label(p.drop_last(), l, text)
    }
}

/// A label is counted exactly when it is defined.
pub proof fn lemma_count_defined(syms: Seq<(Seq<char>, int)>, l: Seq<char>)
    ensures
        count_syms(syms, l) > 0 <==> defined_in(syms, l),
    decreases syms.len(),
{
    if syms.len() > 0 {
        lemma_count_defined(syms.drop_last(), l);
        if defined_in(syms, l) {
            let i = choose|i: int| 0 <= i < syms.len() && (#[trigger] syms[i]).0 == l;
            if i < syms.len() - 1 {
                assert(syms.drop_last()[i].0 == l);
            }
        }
        if defined_in(syms.drop_last(), l) {
            let i = choose|i: int|
                0 <= i < syms.drop_last().len() && (#[trigger] syms.drop_last()[i]).0 == l;
            assert(syms[i].0 == l);
        }
        if syms.last().0 == l {
            assert(syms[syms.len() - 1].0 == l);
        }
    }
}

/// Where no label is defined twice, none is counted twice.
pub proof fn lemma_count_without_dup(syms: Seq<(Seq<char>, int)>, l: Seq<char>)
    requires
        first_dup(syms) is None,
    ensures
        count_syms(syms, l) <= 1,
    decreases syms.len(),
{
    if syms.len() > 0 {
        lemma_count_without_dup(syms.drop_last(), l);
        lemma_count_defined(syms.drop_last(), l);
    }
}

/// Counting goes through concatenation.
pub proof fn lemma_count_add(a: Seq<(Seq<char>, int)>, b: Seq<(Seq<char>, int)>, l: Seq<char>)
    ensures
        count_syms(a + b, l) == count_syms(a, l) + count_syms(b, l),
    decreases b.len(),
{
    if b.len() == 0 {
        assert(a + b == a);
    } else {
        lemma_count_add(a, b.drop_last(), l);
        assert((a + b).drop_last() == a + b.drop_last());
    }
}

/// The symbols of a section define a label as often as blocks of the
/// section carry it.
pub proof fn lemma_count_section(p: Seq<ElemView>, l: Seq<char>, text: bool, start: int)
    ensures
        count_syms(section_syms(section(p, text), text, start), l) == count_label(p, l, text),
    decreases p.len(),
{
    if p.len() > 0 {
        lemma_count_section(p.drop_last(), l, text, start);
        if in_section(p.last(), text) {
            let rest = section(p.drop_last(), text);
            assert(section(p, text).drop_last() == rest);
            assert(section(p, text).last() == p.last());
            let syms = section_syms(rest, text, start);
            let x = (p.last().lbl, start + section_size(rest, text));
            assert(section_syms(section(p, text), text, start) == syms.push(x));
            assert(syms.push(x).drop_last() == syms);
            assert(syms.push(x).last() == x);
        }
    }
}

/// The symbols of a program define a label as often as its blocks carry it.
pub proof fn lemma_count_symbols(p: Seq<ElemView>, l: Seq<char>)
    ensures
        count_syms(symbols(section(p, true), section(p, false)), l) == count_label(p, l, true)
            + count_label(p, l, false),
{
    let ts = section(p, true);
    let ds = section(p, false);
    lemma_count_section(p, l, true, TEXT_POS as int);
    lemma_count_section(p, l, false, TEXT_POS + section_size(ts, true));
    lemma_count_add(
        section_syms(ts, true, TEXT_POS as int),
        section_syms(ds, false, TEXT_POS + section_size(ts, true)),
        l,
    );
}

/// A block that carries a label is counted.
pub proof fn lemma_count_label_member(p: Seq<ElemView>, i: int)
    requires
        0 <= i < p.len(),
    ensures
        count_label(p, p[i].lbl, true) + count_label(p, p[i].lbl, false) >= 1,
    decreases p.len(),
{
    if i < p.len() - 1 {
        lemma_count_label_member(p.drop_last(), i);
    }
}

/// Two blocks that carry one label are counted twice.
pub proof fn lemma_count_label_twice(p: Seq<ElemView>, i: int, j: int)
    requires
        0 <= i < j < p.len(),
        p[i].lbl == p[j].lbl,
    ensures
        count_label(p, p[i].lbl, true) + count_label(p, p[i].lbl, false) >= 2,
    decreases p.len(),
{
    if j < p.len() - 1 {
        lemma_count_label_twice(p.drop_last(), i, j);
    } else {
        lemma_count_label_member(p.drop_last(), i);
    }
}

/// A label that no block carries is not counted.
pub proof fn lemma_count_label_none(p: Seq<ElemView>, l: Seq<char>, text: bool)
    requires
        forall|j: int| 0 <= j < p.len() ==> (#[trigger] p[j]).lbl != l,
    ensures
        count_label(p, l, text) == 0,
    decreases p.len(),
{
    if p.len() > 0 {
        assert(p[p.len() - 1].lbl != l);
        assert forall|j: int| 0 <= j < p.drop_last().len() implies (#[trigger] p.drop_last()[j]).lbl
            != l by {
            assert(p.drop_last()[j] == p[j]);
        }
        lemma_count_label_none(p.drop_last(), l, text);
    }
}

/// A program in which two blocks carry the same label is not assembled:
/// the error is that of a label defined twice, whatever else is wrong with
/// the program.
pub proof fn law_redefined(p: Seq<ElemView>, i: int, j: int)
    requires
        0 <= i < j < p.len(),
        p[i].lbl == p[j].lbl,
    ensures
        assembled(p) matches Err(e) && e is Redefined,
{
    let syms = symbols(section(p, true), section(p, false));
    lemma_count_label_twice(p, i, j);
    lemma_count_symbols(p, p[i].lbl);
    if first_dup(syms) is None {
        lemma_count_without_dup(syms, p[i].lbl);
    }
}

/// The label that the operand `o` refers to.
pub open spec fn operand_label(o: OperandView) -> Option<Seq<char>> {
    match o {
        OperandView::Imm(ImmView::Lbl(l)) => Some(l),
        OperandView::Ind1(ImmView::Lbl(l)) => Some(l),
        OperandView::Ind3(ImmView::Lbl(l), _) => Some(l),
        _ => None,
    }
}

/// Whether an instruction or a data item of the block `e` refers to the
/// label `l`.
pub open spec fn elem_refers(e: ElemView, l: Seq<char>) -> bool {
    match e.body {
        AsmView::Text(is) => exists|j: int, k: int|
            0 <= j < is.len() && 0 <= k < is[j].operands.len() && operand_label(
                #[trigger] is[j].operands[k],
            ) == Some(l),
        AsmView::Data(ds) => exists|j: int|
            0 <= j < ds.len() && #[trigger] ds[j] == DataView::Quad(ImmView::Lbl(l)),
    }
}

/// Where no label of `ops` is found missing, `map` holds every label that
/// `ops` refers to.
pub proof fn lemma_operands_defined(map: Map<Seq<char>, i64>, ops: Seq<OperandView>, k: int)
    requires
        operands_undefined(map, ops) is None,
        0 <= k < ops.len(),
    ensures
        operand_label(ops[k]) matches Some(l) ==> map.contains_key(l),
    decreases ops.len(),
{
    if k < ops.len() - 1 {
        lemma_operands_defined(map, ops.drop_last(), k);
    }
}

/// As [`lemma_operands_defined`], for instructions.
pub proof fn lemma_code_defined(map: Map<Seq<char>, i64>, is: Seq<InsView>, j: int)
    requires
        code_undefined(map, is) is None,
        0 <= j < is.len(),
    ensures
        ins_undefined(map, is[j]) is None,
    decreases is.len(),
{
    if j < is.len() - 1 {
        lemma_code_defined(map, is.drop_last(), j);
    }
}

/// As [`lemma_operands_defined`], for data items.
pub proof fn lemma_items_defined(map: Map<Seq<char>, i64>, ds: Seq<DataView>, j: int)
    requires
        items_undefined(map, ds) is None,
        0 <= j < ds.len(),
    ensures
        data_undefined(map, ds[j]) is None,
    decreases ds.len(),
{
    if j < ds.len() - 1 {
        lemma_items_defined(map, ds.drop_last(), j);
    }
}

/// As [`lemma_operands_defined`], for blocks.
pub proof fn lemma_elems_defined(map: Map<Seq<char>, i64>, es: Seq<ElemView>, j: int)
    requires
        elems_undefined(map, es) is None,
        0 <= j < es.len(),
    ensures
        elem_undefined(map, es[j]) is None,
    decreases es.len(),
{
    if j < es.len() - 1 {
        lemma_elems_defined(map, es.drop_last(), j);
    }
}

/// A block in which no label is found missing refers to labels that `map`
/// holds.
pub proof fn lemma_elem_refers_defined(map: Map<Seq<char>, i64>, e: ElemView, l: Seq<char>)
    requires
        elem_undefined(map, e) is None,
        elem_refers(e, l),
    ensures
        map.contains_key(l),
{
    match e.body {
        AsmView::Text(is) => {
            let (j, k) = choose|j: int, k: int|
                0 <= j < is.len() && 0 <= k < is[j].operands.len() && operand_label(
                    #[trigger] is[j].operands[k],
                ) == Some(l);
            lemma_code_defined(map, is, j);
            lemma_operands_defined(map, is[j].operands, k);
        },
        AsmView::Data(ds) => {
            let j = choose|j: int|
                0 <= j < ds.len() && #[trigger] ds[j] == DataView::Quad(ImmView::Lbl(l));
            lemma_items_defined(map, ds, j);
        },
    }
}

/// Every block of a program stands in its section.
pub proof fn lemma_section_holds(p: Seq<ElemView>, i: int)
    requires
        0 <= i < p.len(),
    ensures
        exists|j: int|
            0 <= j < section(p, p[i].body is Text).len() && #[trigger] section(
                p,
                p[i].body is Text,
            )[j] == p[i],
    decreases p.len(),
{
    let text = p[i].body is Text;
    if i < p.len() - 1 {
        lemma_section_holds(p.drop_last(), i);
        let j = choose|j: int|
            0 <= j < section(p.drop_last(), text).len() && #[trigger] section(
                p.drop_last(),
                text,
            )[j] == p[i];
        assert(section(p, text)[j] == p[i]);
    } else {
        let j = section(p, text).len() - 1;
        assert(section(p, text)[j] == p[i]);
    }
}

/// A program in which an instruction or a data item refers to a label that
/// no block carries is not assembled, and unless a label is defined twice
/// the error is that of a label that is not defined.
pub proof fn law_undefined(p: Seq<ElemView>, i: int, l: Seq<char>)
    requires
        0 <= i < p.len(),
        elem_refers(p[i], l),
        forall|j: int| 0 <= j < p.len() ==> (#[trigger] p[j]).lbl != l,
    ensures
        assembled(p) matches Err(e) && (e is Undefined || e is Redefined),
        first_dup(symbols(section(p, true), section(p, false))) is None ==> (assembled(
            p,
        ) matches Err(e) && e is Undefined),
{
    let ts = section(p, true);
    let ds = section(p, false);
    let syms = symbols(ts, ds);
    let map = sym_map(syms);
    lemma_count_label_none(p, l, true);
    lemma_count_label_none(p, l, false);
    lemma_count_symbols(p, l);
    lemma_count_defined(syms, l);
    lemma_sym_map_dom(syms, l);
    assert(!map.contains_key(l));
    let text = p[i].body is Text;
    lemma_section_holds(p, i);
    let j = choose|j: int|
        0 <= j < section(p, text).len() && #[trigger] section(p, text)[j] == p[i];
    if elems_undefined(map, section(p, text)) is None {
        lemma_elems_defined(map, section(p, text), j);
        lemma_elem_refers_defined(map, p[i], l);
    }
}

/// The entry of a program is the address of `main`: a program in which no
/// block carries the label `main` is not assembled.
pub proof fn law_entry_needed(p: Seq<ElemView>)
    requires
        forall|j: int| 0 <= j < p.len() ==> (#[trigger] p[j]).lbl != "main"@,
    ensures
        assembled(p) is Err,
{
    let syms = symbols(section(p, true), section(p, false));
    lemma_count_label_none(p, "main"@, true);
    lemma_count_label_none(p, "main"@, false);
    lemma_count_symbols(p, "main"@);
    lemma_count_defined(syms, "main"@);
    lemma_sym_map_dom(syms, "main"@);
}

/// The word `acc` moved up by eight bits, with the byte `b` in the lowest
/// place.
pub open spec fn shift_in(acc: i64, b: u8) -> i64 {
    (acc << 8u64) | (b as i64)
}

/// Eight bytes put together again are the word they were cut from.
proof fn lemma_bytes_of_word(i: i64)
    ensures
        ({
            let a7 = shift_in(0, le_byte(i, 7));
            let a6 = shift_in(a7, le_byte(i, 6));
            let a5 = shift_in(a6, le_byte(i, 5));
            let a4 = shift_in(a5, le_byte(i, 4));
            let a3 = shift_in(a4, le_byte(i, 3));
            let a2 = shift_in(a3, le_byte(i, 2));
            let a1 = shift_in(a2, le_byte(i, 1));
            shift_in(a1, le_byte(i, 0)) == i
        }),
{
    let a7 = shift_in(0, le_byte(i, 7));
    let a6 = shift_in(a7, le_byte(i, 6));
    let a5 = shift_in(a6, le_byte(i, 5));
    let a4 = shift_in(a5, le_byte(i, 4));
    let a3 = shift_in(a4, le_byte(i, 3));
    let a2 = shift_in(a3, le_byte(i, 2));
    let a1 = shift_in(a2, le_byte(i, 1));
    assert(((0i64 << 8u64) | ((((i >> 56u64) & 0xff) as u8) as i64)) == (i >> 56u64) & 0xff)
        by (bit_vector);
    assert(a7 == (i >> 56u64) & 0xff);
    assert(a7 == (i >> 56u64) & 0xff ==> ((a7 << 8u64) | ((((i >> 48u64) & 0xff) as u8) as i64))
        == (i >> 48u64) & 0xffff) by (bit_vector);
    assert(a6 == (i >> 48u64) & 0xffff);
    assert(a6 == (i >> 48u64) & 0xffff ==> ((a6 << 8u64) | ((((i >> 40u64) & 0xff) as u8)
        as i64)) == (i >> 40u64) & 0xffffff) by (bit_vector);
    assert(a5 == (i >> 40u64) & 0xffffff);
    assert(a5 == (i >> 40u64) & 0xffffff ==> ((a5 << 8u64) | ((((i >> 32u64) & 0xff) as u8)
        as i64)) == (i >> 32u64) & 0xffffffff) by (bit_vector);
    assert(a4 == (i >> 32u64) & 0xffffffff);
    assert(a4 == (i >> 32u64) & 0xffffffff ==> ((a4 << 8u64) | ((((i >> 24u64) & 0xff) as u8)
        as i64)) == (i >> 24u64) & 0xffffffffff) by (bit_vector);
    assert(a3 == (i >> 24u64) & 0xffffffffff);
    assert(a3 == (i >> 24u64) & 0xffffffffff ==> ((a3 << 8u64) | ((((i >> 16u64) & 0xff) as u8)
        as i64)) == (i >> 16u64) & 0xffffffffffff) by (bit_vector);
    assert(a2 == (i >> 16u64) & 0xffffffffffff);
    assert(a2 == (i >> 16u64) & 0xffffffffffff ==> ((a2 << 8u64) | ((((i >> 8u64) & 0xff) as u8)
        as i64)) == (i >> 8u64) & 0xffffffffffffff) by (bit_vector);
    assert(a1 == (i >> 8u64) & 0xffffffffffffff);
    assert(a1 == (i >> 8u64) & 0xffffffffffffff ==> ((a1 << 8u64) | ((((i >> 0u64) & 0xff) as u8)
        as i64)) == i) by (bit_vector);
}

/// The bytes of a word spell the word: reading back what
/// `sbytes_of_int64` gives with `int64_of_sbytes` gives the word again.
pub proof fn law_word_round_trip(i: i64)
    ensures
        word_of(int64_sbytes(i)) == i,
{
    reveal_with_fuel(word_of, 10);
    let bs = int64_sbytes(i);
    let b1 = bs.drop_first();
    let b2 = b1.drop_first();
    let b3 = b2.drop_first();
    let b4 = b3.drop_first();
    let b5 = b4.drop_first();
    let b6 = b5.drop_first();
    let b7 = b6.drop_first();
    let b8 = b7.drop_first();
    assert(b8.len() == 0);
    assert(bs[0] == SByteView::Byte(le_byte(i, 0) as char));
    assert(b1[0] == SByteView::Byte(le_byte(i, 1) as char));
    assert(b2[0] == SByteView::Byte(le_byte(i, 2) as char));
    assert(b3[0] == SByteView::Byte(le_byte(i, 3) as char));
    assert(b4[0] == SByteView::Byte(le_byte(i, 4) as char));
    assert(b5[0] == SByteView::Byte(le_byte(i, 5) as char));
    assert(b6[0] == SByteView::Byte(le_byte(i, 6) as char));
    assert(b7[0] == SByteView::Byte(le_byte(i, 7) as char));
    lemma_bytes_of_word(i);
    let a7 = shift_in(0, le_byte(i, 7));
    let a6 = shift_in(a7, le_byte(i, 6));
    let a5 = shift_in(a6, le_byte(i, 5));
    let a4 = shift_in(a5, le_byte(i, 4));
    let a3 = shift_in(a4, le_byte(i, 3));
    let a2 = shift_in(a3, le_byte(i, 2));
    let a1 = shift_in(a2, le_byte(i, 1));
    assert(word_of(b8) == 0);
    assert(word_of(b7) == a7);
    assert(word_of(b6) == a6);
    assert(word_of(b5) == a5);
    assert(word_of(b4) == a4);
    assert(word_of(b3) == a3);
    assert(word_of(b2) == a2);
    assert(word_of(b1) == a1);
}

} // verus!
