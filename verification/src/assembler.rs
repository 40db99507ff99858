//! The assembler: symbolic bytes, symbols and their addresses, and the
//! section sizes that the layout of a program goes by.

use vstd::prelude::*;
use crate::seqs::views;
use vstd::hash_map::StringHashMap;
use vstd::std_specs::iter::IteratorSpec;
use crate::x86::{Data, DataView, Imm, ImmView, Ins, InsView, Lbl, Operand, OperandView, Quad, Reg};

pub mod link;
pub mod image;
pub mod laws;

verus! {

broadcast use crate::seqs::group_views;

/// One byte of a program in memory.
pub enum SByte {
    /// The first byte of an instruction, which stands for the whole of it.
    InsB0(Ins),
    /// One of the seven bytes that follow the first byte of an instruction.
    InsFrag,
    /// A byte of data.
    Byte(char),
}

/// The value of an [`SByte`].
pub enum SByteView {
    InsB0(InsView),
    InsFrag,
    Byte(char),
}

impl View for SByte {
    type V = SByteView;

    open spec fn view(&self) -> SByteView {
        match self {
            SByte::InsB0(i) => SByteView::InsB0(i@),
            SByte::InsFrag => SByteView::InsFrag,
            SByte::Byte(c) => SByteView::Byte(*c),
        }
    }
}

/// The number by which the machine knows the register `r`.
pub open spec fn reg_index(r: Reg) -> u8 {
    match r {
        Reg::Rip => 16,
        Reg::Rax => 0,
        Reg::Rbx => 1,
        Reg::Rcx => 2,
        Reg::Rdx => 3,
        Reg::Rsi => 4,
        Reg::Rdi => 5,
        Reg::Rbp => 6,
        Reg::Rsp => 7,
        Reg::R08 => 8,
        Reg::R09 => 9,
        Reg::R10 => 10,
        Reg::R11 => 11,
        Reg::R12 => 12,
        Reg::R13 => 13,
        Reg::R14 => 14,
        Reg::R15 => 15,
    }
}

/// The number by which the machine knows the register `r`.
pub fn rind(r: Reg) -> (i: u8)
    ensures
        i == reg_index(r),
{
    match r {
        Reg::Rip => 16,
        Reg::Rax => 0,
        Reg::Rbx => 1,
        Reg::Rcx => 2,
        Reg::Rdx => 3,
        Reg::Rsi => 4,
        Reg::Rdi => 5,
        Reg::Rbp => 6,
        Reg::Rsp => 7,
        Reg::R08 => 8,
        Reg::R09 => 9,
        Reg::R10 => 10,
        Reg::R11 => 11,
        Reg::R12 => 12,
        Reg::R13 => 13,
        Reg::R14 => 14,
        Reg::R15 => 15,
    }
}

/// The `k`-th byte of the word `i` in two's complement, the least
/// significant byte being the byte 0.
pub open spec fn le_byte(i: i64, k: nat) -> u8 {
    ((i >> ((8 * k) as u64)) & 0xff) as u8
}

/// The eight bytes of the word `i`, least significant first.
pub open spec fn int64_sbytes(i: i64) -> Seq<SByteView> {
    Seq::new(8, |k: int| SByteView::Byte(le_byte(i, k as nat) as char))
}

/// The eight bytes of the word `i`, least significant first.
pub fn sbytes_of_int64(i: i64) -> (r: Vec<SByte>)
    ensures
        views(r@) == int64_sbytes(i),
{
    let mut r: Vec<SByte> = Vec::new();
    let mut k: u64 = 0;
    while k < 8
        invariant
            k <= 8,
            r@.len() == k,
            forall|j: int| 0 <= j < k ==> (#[trigger] r@[j])@ == SByteView::Byte(le_byte(i, j as nat) as char),
        decreases 8 - k,
    {
        let n: u64 = 8 * k;
        let low: i64 = (i >> n) & 0xff;
        assert(0 <= (i >> n) & 0xff <= 255) by (bit_vector);
        let char_byte: char = low as u8 as char;
        r.push(data_byte(char_byte));
        k += 1;
    }
    assert(views(r@) =~= int64_sbytes(i));
    r
}

/// The word that the bytes `bs` spell, least significant first: each byte
/// of data moves what follows it up by eight bits and takes the lowest
/// place, with the low eight bits of its character. A byte of an
/// instruction sets what follows it to 0.
pub open spec fn word_of(bs: Seq<SByteView>) -> i64
    decreases bs.len(),
{
    if bs.len() == 0 {
        0
    } else {
        match bs[0] {
            SByteView::Byte(c) => (word_of(bs.drop_first()) << 8u64) | ((c as u8) as i64),
            _ => 0,
        }
    }
}

/// The word that the bytes `bs` spell, least significant first.
pub fn int64_of_sbytes(bs: &Vec<SByte>) -> (r: i64)
    ensures
        r == word_of(views(bs@)),
{
    let mut acc: i64 = 0;
    let mut k: usize = bs.len();
    assert(views(bs@).skip(k as int) =~= seq![]);
    while k > 0
        invariant
            k <= bs.len(),
            acc == word_of(views(bs@).skip(k as int)),
        decreases k,
    {
        k -= 1;
        assert(views(bs@).skip(k as int).drop_first() == views(bs@).skip(k as int + 1));
        acc = match &bs[k] {
            SByte::Byte(c) => (acc << 8u64) | (*c as u8 as i64),
            _ => 0i64,
        };
    }
    assert(views(bs@).skip(0) == views(bs@));
    acc
}

/// The byte of data that holds the character `c`.
pub open spec fn char_sbyte(c: char) -> SByteView {
    SByteView::Byte(c)
}

/// One byte of data for each character of `s`, in order.
pub open spec fn char_sbytes(s: Seq<char>) -> Seq<SByteView>
    decreases s.len(),
{
    if s.len() == 0 {
        seq![]
    } else {
        char_sbytes(s.drop_last()).push(char_sbyte(s.last()))
    }
}

/// The bytes of the string `s`: one for each character, in order, then a
/// zero byte.
pub open spec fn string_sbytes(s: Seq<char>) -> Seq<SByteView> {
    char_sbytes(s).push(char_sbyte('\0'))
}

/// The byte of data that holds `c`.
fn data_byte(c: char) -> (r: SByte)
    ensures
        r == SByte::Byte(c),
{
    SByte::Byte(c)
}

/// The bytes of the string `s`.
pub fn sbytes_of_string(s: &str) -> (r: Vec<SByte>)
    ensures
        views(r@) == string_sbytes(s@),
{
    let mut r: Vec<SByte> = Vec::new();
    let mut it = s.chars();
    proof {
        vstd::string::axiom_spec_iter(s);
    }
    assert(s@.skip(0) =~= s@);
    assert(s@.take(0) =~= seq![]);
    loop
        invariant
            r@.len() <= s@.len(),
            it.remaining() == s@.skip(r@.len() as int),
            views(r@) == char_sbytes(s@.take(r@.len() as int)),
        ensures
            views(r@) == char_sbytes(s@),
        decreases s@.len() - r@.len(),
    {
        let ghost n = r@.len() as int;
        let ghost before = it;
        let next = it.next();
        proof {
            vstd::string::next_postcondition(&before, &it, next);
        }
        match next {
            Some(c) => {
                r.push(data_byte(c));
                assert(s@.skip(n).drop_first() =~= s@.skip(n + 1));
                assert(s@.take(n + 1).drop_last() =~= s@.take(n));
            },
            None => {
                assert(s@.take(n) =~= s@);
                break ;
            },
        }
    }
    r.push(data_byte('\0'));
    r
}

/// Whether the operand `o` refers to a label.
pub open spec fn operand_has_label(o: OperandView) -> bool {
    match o {
        OperandView::Imm(ImmView::Lbl(_)) => true,
        OperandView::Ind1(ImmView::Lbl(_)) => true,
        OperandView::Ind3(ImmView::Lbl(_), _) => true,
        _ => false,
    }
}

/// Whether an operand of the instruction `i` refers to a label.
pub open spec fn ins_has_label(i: InsView) -> bool {
    exists|k: int| 0 <= k < i.operands.len() && operand_has_label(#[trigger] i.operands[k])
}

/// The eight bytes that the instruction `i` takes up: one that stands for
/// it, then seven that only fill its place.
pub open spec fn ins_sbytes(i: InsView) -> Seq<SByteView> {
    seq![
        SByteView::InsB0(i),
        SByteView::InsFrag,
        SByteView::InsFrag,
        SByteView::InsFrag,
        SByteView::InsFrag,
        SByteView::InsFrag,
        SByteView::InsFrag,
        SByteView::InsFrag,
    ]
}

/// Whether an operand of `ins` refers to a label.
fn has_label(ins: &Ins) -> (r: bool)
    ensures
        r == ins_has_label(ins@),
{
    let mut k: usize = 0;
    while k < ins.operands.len()
        invariant
            k <= ins.operands.len(),
            forall|j: int| 0 <= j < k ==> !operand_has_label(#[trigger] ins@.operands[j]),
        decreases ins.operands.len() - k,
    {
        assert(ins@.operands[k as int] == ins.operands@[k as int]@);
        match &ins.operands[k] {
            Operand::Imm(Imm::Lbl(_)) | Operand::Ind1(Imm::Lbl(_)) | Operand::Ind3(
                Imm::Lbl(_),
                _,
            ) => {
                return true;
            },
            _ => {},
        }
        k += 1;
    }
    false
}

/// The bytes of the instruction `ins`, which must not refer to a label: a
/// label has no place in memory before it has an address.
pub fn sbytes_of_ins(ins: &Ins) -> (r: Result<Vec<SByte>, String>)
    ensures
        match r {
            Ok(bs) => !ins_has_label(ins@) && views(bs@) == ins_sbytes(ins@),
            Err(msg) => ins_has_label(ins@) && msg@ == "sbytes_of_ins: tried to serialize a label!"@,
        },
{
    if has_label(ins) {
        return Err("sbytes_of_ins: tried to serialize a label!".to_owned());
    }
    let mut bs: Vec<SByte> = Vec::new();
    bs.push(SByte::InsB0(ins.clone()));
    bs.push(SByte::InsFrag);
    bs.push(SByte::InsFrag);
    bs.push(SByte::InsFrag);
    bs.push(SByte::InsFrag);
    bs.push(SByte::InsFrag);
    bs.push(SByte::InsFrag);
    bs.push(SByte::InsFrag);
    assert(views(bs@) =~= ins_sbytes(ins@));
    Ok(bs)
}

/// The bytes of the data item `d`.
pub open spec fn data_sbytes(d: DataView) -> Seq<SByteView> {
    match d {
        DataView::Asciz(s) => string_sbytes(s),
        DataView::Quad(ImmView::Lit(i)) => int64_sbytes(i),
        DataView::Quad(ImmView::Lbl(_)) => seq![],
    }
}

/// The bytes of the data item `d`, which must not refer to a label.
pub fn sbytes_of_data(d: &Data) -> (r: Result<Vec<SByte>, String>)
    ensures
        match r {
            Ok(bs) => !(d@ matches DataView::Quad(ImmView::Lbl(_))) && views(bs@) == data_sbytes(
                d@,
            ),
            Err(msg) => d@ matches DataView::Quad(ImmView::Lbl(_)) && msg@
                == "sbytes_of_data: tried to serialize a label"@,
        },
{
    match d {
        Data::Quad(Imm::Lbl(_)) => Err("sbytes_of_data: tried to serialize a label".to_owned()),
        Data::Asciz(s) => Ok(sbytes_of_string(s.as_str())),
        Data::Quad(Imm::Lit(i)) => Ok(sbytes_of_int64(*i)),
    }
}

/// The error of a label that is used and nowhere defined.
#[derive(Debug)]
pub struct UndefinedSym(pub Lbl);

/// The error of a label that is defined more than once.
#[derive(Debug)]
pub struct RedefinedSym(pub Lbl);

impl Clone for UndefinedSym {
    fn clone(&self) -> (r: Self)
        ensures
            r.0@ == self.0@,
    {
        UndefinedSym(self.0.clone())
    }
}

impl Clone for RedefinedSym {
    fn clone(&self) -> (r: Self)
        ensures
            r.0@ == self.0@,
    {
        RedefinedSym(self.0.clone())
    }
}

impl UndefinedSym {
    /// The message of the error.
    pub fn to_string(&self) -> (r: String)
        ensures
            r@ == "Undefined symbol: "@ + self.0@,
    {
        let mut r = "Undefined symbol: ".to_owned();
        r.append(self.0.as_str());
        r
    }
}

impl RedefinedSym {
    /// The message of the error.
    pub fn to_string(&self) -> (r: String)
        ensures
            r@ == "Redefined symbol: "@ + self.0@,
    {
        let mut r = "Redefined symbol: ".to_owned();
        r.append(self.0.as_str());
        r
    }
}

/// A program laid out in memory.
pub struct Exec {
    /// The address at which running starts.
    pub entry: Quad,
    /// The address of the first byte of code.
    pub text_pos: Quad,
    /// The address of the first byte of data.
    pub data_pos: Quad,
    /// The code.
    pub text_seg: Vec<SByte>,
    /// The data.
    pub data_seg: Vec<SByte>,
}

/// The value of an [`Exec`].
pub struct ExecView {
    pub entry: i64,
    pub text_pos: i64,
    pub data_pos: i64,
    pub text_seg: Seq<SByteView>,
    pub data_seg: Seq<SByteView>,
}

impl View for Exec {
    type V = ExecView;

    open spec fn view(&self) -> ExecView {
        ExecView {
            entry: self.entry,
            text_pos: self.text_pos,
            data_pos: self.data_pos,
            text_seg: views(self.text_seg@),
            data_seg: views(self.data_seg@),
        }
    }
}

/// The address of the label `lbl` in the symbol table `map`.
pub fn resolve_sym(lbl: &str, map: &StringHashMap<i64>) -> (r: Result<i64, UndefinedSym>)
    ensures
        match r {
            Ok(addr) => map@.contains_key(lbl@) && addr == map@[lbl@],
            Err(e) => !map@.contains_key(lbl@) && e.0@ == lbl@,
        },
{
    match map.get(lbl) {
        Some(addr) => Ok(*addr),
        None => Err(UndefinedSym(lbl.to_owned())),
    }
}

/// Enters the label `lbl` with the address `addr` into the symbol table
/// `map`, unless `map` holds `lbl` already: then `map` stays as it is.
pub fn add_sym(map: &mut StringHashMap<i64>, lbl: &str, addr: i64) -> (r: Result<
    (),
    RedefinedSym,
>)
    ensures
        match r {
            Ok(_) => !old(map)@.contains_key(lbl@) && final(map)@ == old(map)@.insert(lbl@, addr),
            Err(e) => old(map)@.contains_key(lbl@) && e.0@ == lbl@ && final(map)@ == old(map)@,
        },
{
    if map.contains_key(lbl) {
        Err(RedefinedSym(lbl.to_owned()))
    } else {
        map.insert(lbl.to_owned(), addr);
        Ok(())
    }
}

/// The size in bytes of a block of `n` instructions: each takes 8 bytes.
pub open spec fn code_size(n: nat) -> int {
    8 * (n as int)
}

/// The size in bytes of a block of the instructions `ins_list`.
pub fn ins_block_size(ins_list: &[Ins]) -> (r: i64)
    requires
        code_size(ins_list@.len()) <= i64::MAX,
    ensures
        r == code_size(ins_list@.len()),
{
    (ins_list.len() as i64) * 8
}

/// The size in bytes of the data item `d`: a string takes a byte for each
/// character and one for the zero that ends it, a word takes 8.
pub open spec fn data_item_size(d: DataView) -> int {
    match d {
        DataView::Asciz(s) => s.len() as int + 1,
        DataView::Quad(_) => 8,
    }
}

/// The size in bytes of the data items `ds`.
pub open spec fn data_size(ds: Seq<DataView>) -> int
    decreases ds.len(),
{
    if ds.len() == 0 {
        0
    } else {
        data_size(ds.drop_last()) + data_item_size(ds.last())
    }
}

/// The size of a part of a block of data is at most the size of the block,
/// and neither is negative.
pub proof fn lemma_data_size_prefix(ds: Seq<DataView>, n: int)
    requires
        0 <= n <= ds.len(),
    ensures
        0 <= data_size(ds.take(n)) <= data_size(ds),
    decreases ds.len(),
{
    if n == ds.len() {
        assert(ds.take(n) == ds);
        if n > 0 {
            lemma_data_size_prefix(ds.drop_last(), n - 1);
            assert(ds.drop_last().take(n - 1) == ds.drop_last());
        }
    } else {
        lemma_data_size_prefix(ds.drop_last(), n);
        assert(ds.drop_last().take(n) == ds.take(n));
    }
}

/// The size in bytes of a block of the data items `data_list`.
pub fn data_block_size(data_list: &[Data]) -> (r: i64)
    requires
        data_size(views(data_list@)) <= i64::MAX,
    ensures
        r == data_size(views(data_list@)),
{
    let mut sum: i64 = 0;
    let mut i: usize = 0;
    assert(views(data_list@).take(0) =~= seq![]);
    while i < data_list.len()
        invariant
            i <= data_list.len(),
            data_size(views(data_list@)) <= i64::MAX,
            sum == data_size(views(data_list@).take(i as int)),
        decreases data_list.len() - i,
    {
        proof {
            lemma_data_size_prefix(views(data_list@), i as int + 1);
            lemma_data_size_prefix(views(data_list@), i as int);
            assert(views(data_list@).take(i as int + 1).drop_last() == views(data_list@).take(
                i as int,
            ));
        }
        let n: i64 = match &data_list[i] {
            Data::Asciz(s) => (s.as_str().unicode_len() as i64) + 1,
            Data::Quad(_) => 8,
        };
        sum = sum + n;
        i += 1;
    }
    assert(views(data_list@).take(i as int) == views(data_list@));
    sum
}

} // verus!
