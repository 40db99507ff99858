//! Reading a machine program from its text.
//!
//! The text is read line by line. Whitespace around a line does not count.
//! An empty line and a line that begins with `#` or `//` say nothing. A line
//! that begins with `.text` or `.data` names the section of what follows. A
//! line that ends in a colon is a label, and begins a block. Every other line
//! is an instruction in the code section and a data item in the data section.

use vstd::prelude::*;
use crate::seqs::views;
use crate::parser::text::{
    after_first_word, chars_of, find, first_match, first_word, has_prefix, int_of, lines_of,
    lowercased, parse_int, slice, split, split_lines, split_on, split_word, starts_with, string_of,
    strip, strip_end, strip_start, to_lowercase, trim, trimmed,
};
use crate::x86::sugar::{data, gtext};
use crate::x86::{
    AsmView, Data, DataView, Elem, ElemView, Imm, ImmView, Ins, InsView, Opcode, Operand,
    OperandView, Prog, Reg,
};

pub mod text;

verus! {

broadcast use crate::seqs::group_views;

/// Why a text is no program.
#[derive(Debug)]
pub enum ParseError {
    /// An instruction names an operation that is not known.
    UnknownOpcode(String),
    /// An operand names a register that is not known.
    UnknownRegister(String),
    /// What stands where a number is asked for writes none.
    BadNumber(String),
}

/// The value of a [`ParseError`].
pub enum ParseErrorView {
    UnknownOpcode(Seq<char>),
    UnknownRegister(Seq<char>),
    BadNumber(Seq<char>),
}

impl View for ParseError {
    type V = ParseErrorView;

    open spec fn view(&self) -> ParseErrorView {
        match self {
            ParseError::UnknownOpcode(s) => ParseErrorView::UnknownOpcode(s@),
            ParseError::UnknownRegister(s) => ParseErrorView::UnknownRegister(s@),
            ParseError::BadNumber(s) => ParseErrorView::BadNumber(s@),
        }
    }
}

impl ParseError {
    /// The message of the error.
    pub fn to_string(&self) -> (r: String)
        ensures
            r@ == match self@ {
                ParseErrorView::UnknownOpcode(s) => "unknown opcode '"@ + s + "'"@,
                ParseErrorView::UnknownRegister(s) => "unknown register '"@ + s + "'"@,
                ParseErrorView::BadNumber(s) => "not a number '"@ + s + "'"@,
            },
    {
        let (mut r, s) = match self {
            ParseError::UnknownOpcode(s) => ("unknown opcode '".to_owned(), s),
            ParseError::UnknownRegister(s) => ("unknown register '".to_owned(), s),
            ParseError::BadNumber(s) => ("not a number '".to_owned(), s),
        };
        r.append(s.as_str());
        r.append("'");
        r
    }
}

/// Whether `cs` is the text `lit`.
fn is_text(cs: &Vec<char>, lit: &str) -> (r: bool)
    ensures
        r == (cs@ == lit@),
{
    let pat = chars_of(lit);
    if pat.len() != cs.len() {
        return false;
    }
    let r = starts_with(cs, lit);
    assert(cs@.take(cs@.len() as int) =~= cs@);
    r
}

/// The operation that `s` names.
pub open spec fn opcode_of(s: Seq<char>) -> Option<Opcode> {
    if s == "movq"@ {
        Some(Opcode::Movq)
    } else if s == "retq"@ {
        Some(Opcode::Retq)
    } else if s == "jmp"@ {
        Some(Opcode::Jmp)
    } else {
        None
    }
}

/// The operation that `s` names.
pub fn parse_opcode(s: &str) -> (r: Result<Opcode, ParseError>)
    ensures
        match r {
            Ok(o) => opcode_of(s@) == Some(o),
            Err(e) => opcode_of(s@) is None && e@ == ParseErrorView::UnknownOpcode(s@),
        },
{
    let cs = chars_of(s);
    if is_text(&cs, "movq") {
        Ok(Opcode::Movq)
    } else if is_text(&cs, "retq") {
        Ok(Opcode::Retq)
    } else if is_text(&cs, "jmp") {
        Ok(Opcode::Jmp)
    } else {
        Err(ParseError::UnknownOpcode(s.to_owned()))
    }
}

/// The register that `s` names, after the signs `%` at its start.
pub open spec fn register_of(s: Seq<char>) -> Option<Reg> {
    let name = strip_start(s, '%');
    if name == "rax"@ {
        Some(Reg::Rax)
    } else if name == "rbx"@ {
        Some(Reg::Rbx)
    } else if name == "rcx"@ {
        Some(Reg::Rcx)
    } else if name == "rdx"@ {
        Some(Reg::Rdx)
    } else {
        None
    }
}

/// The register that `s` names.
pub fn parse_register(s: &str) -> (r: Result<Reg, ParseError>)
    ensures
        match r {
            Ok(reg) => register_of(s@) == Some(reg),
            Err(e) => register_of(s@) is None && e@ == ParseErrorView::UnknownRegister(s@),
        },
{
    let cs = chars_of(s);
    let name = strip(&cs, '%', true, false);
    if is_text(&name, "rax") {
        Ok(Reg::Rax)
    } else if is_text(&name, "rbx") {
        Ok(Reg::Rbx)
    } else if is_text(&name, "rcx") {
        Ok(Reg::Rcx)
    } else if is_text(&name, "rdx") {
        Ok(Reg::Rdx)
    } else {
        Err(ParseError::UnknownRegister(s.to_owned()))
    }
}

/// The operand that `tok` writes: behind a dollar sign a number, behind a
/// percent sign a register, else a label.
pub open spec fn operand_of(tok: Seq<char>) -> Result<OperandView, ParseErrorView> {
    if tok.len() > 0 && tok[0] == '$' {
        match int_of(strip_start(tok, '$')) {
            Some(v) => Ok(OperandView::Imm(ImmView::Lit(v))),
            None => Err(ParseErrorView::BadNumber(strip_start(tok, '$'))),
        }
    } else if tok.len() > 0 && tok[0] == '%' {
        match register_of(tok) {
            Some(r) => Ok(OperandView::Reg(r)),
            None => Err(ParseErrorView::UnknownRegister(tok)),
        }
    } else {
        Ok(OperandView::Imm(ImmView::Lbl(tok)))
    }
}

/// The operand that `tok` writes.
pub fn parse_operand(tok: &str) -> (r: Result<Operand, ParseError>)
    ensures
        match r {
            Ok(o) => operand_of(tok@) == Ok::<OperandView, ParseErrorView>(o@),
            Err(e) => operand_of(tok@) == Err::<OperandView, ParseErrorView>(e@),
        },
{
    let cs = chars_of(tok);
    if cs.len() > 0 && cs[0] == '$' {
        let number = strip(&cs, '$', true, false);
        match parse_int(&number) {
            Some(v) => Ok(Operand::Imm(Imm::Lit(v))),
            None => Err(ParseError::BadNumber(string_of(&number))),
        }
    } else if cs.len() > 0 && cs[0] == '%' {
        match parse_register(tok) {
            Ok(r) => Ok(Operand::Reg(r)),
            Err(e) => Err(e),
        }
    } else {
        Ok(Operand::Imm(Imm::Lbl(tok.to_owned())))
    }
}

/// The operands that the pieces `pieces` write, the whitespace around each
/// piece left out; or the error of the first piece that writes none.
pub open spec fn operands_of(pieces: Seq<Seq<char>>) -> Result<Seq<OperandView>, ParseErrorView>
    decreases pieces.len(),
{
    if pieces.len() == 0 {
        Ok(seq![])
    } else {
        match operands_of(pieces.drop_last()) {
            Ok(ops) => match operand_of(trimmed(pieces.last())) {
                Ok(o) => Ok(ops.push(o)),
                Err(e) => Err(e),
            },
            Err(e) => Err(e),
        }
    }
}

/// An error among first pieces is the error of all.
pub proof fn lemma_operands_of_prefix(pieces: Seq<Seq<char>>, n: int)
    requires
        0 <= n <= pieces.len(),
        operands_of(pieces.take(n)) is Err,
    ensures
        operands_of(pieces) == operands_of(pieces.take(n)),
    decreases pieces.len(),
{
    if n == pieces.len() {
        assert(pieces.take(n) == pieces);
    } else {
        assert(pieces.drop_last().take(n) == pieces.take(n));
        lemma_operands_of_prefix(pieces.drop_last(), n);
    }
}

/// The instruction that the line `line` writes: its first word, in lower
/// case, names the operation; its second word, cut at the commas, writes
/// the operands; what follows the second word does not count. An error in
/// an operand comes before one in the operation.
pub open spec fn ins_of(line: Seq<char>) -> Result<InsView, ParseErrorView> {
    let name = lowercased(first_word(line));
    let rest = after_first_word(line);
    let operands = if rest.len() > 0 {
        operands_of(split_on(first_word(rest), ','))
    } else {
        Ok(seq![])
    };
    match operands {
        Ok(ops) => match opcode_of(name) {
            Some(opcode) => Ok(InsView { opcode, operands: ops }),
            None => Err(ParseErrorView::UnknownOpcode(name)),
        },
        Err(e) => Err(e),
    }
}

/// The operands that the pieces `pieces` write.
fn parse_operands(pieces: &Vec<Vec<char>>) -> (r: Result<Vec<Operand>, ParseError>)
    ensures
        match r {
            Ok(ops) => operands_of(views(pieces@)) == Ok::<Seq<OperandView>, ParseErrorView>(
                views(ops@),
            ),
            Err(e) => operands_of(views(pieces@)) == Err::<Seq<OperandView>, ParseErrorView>(e@),
        },
{
    let ghost all = views(pieces@);
    let mut ops: Vec<Operand> = Vec::new();
    let mut i: usize = 0;
    assert(all.take(0) =~= seq![]);
    while i < pieces.len()
        invariant
            i <= pieces.len(),
            all == views(pieces@),
            operands_of(all.take(i as int)) == Ok::<Seq<OperandView>, ParseErrorView>(views(ops@)),
        decreases pieces.len() - i,
    {
        assert(all.take(i as int + 1).drop_last() == all.take(i as int));
        assert(all.take(i as int + 1).last() == pieces@[i as int]@);
        let tok = string_of(&trim(&pieces[i]));
        match parse_operand(tok.as_str()) {
            Ok(o) => ops.push(o),
            Err(e) => {
                proof {
                    lemma_operands_of_prefix(all, i as int + 1);
                }
                return Err(e);
            },
        }
        i += 1;
    }
    assert(all.take(i as int) == all);
    Ok(ops)
}

/// The instruction that the line `line` writes.
fn parse_ins(line: &Vec<char>) -> (r: Result<Ins, ParseError>)
    ensures
        match r {
            Ok(i) => ins_of(line@) == Ok::<InsView, ParseErrorView>(i@),
            Err(e) => ins_of(line@) == Err::<InsView, ParseErrorView>(e@),
        },
{
    let (word, rest) = split_word(line);
    let opcode = to_lowercase(string_of(&word).as_str());
    let operands: Vec<Operand> = if rest.len() > 0 {
        let (second, _) = split_word(&rest);
        match parse_operands(&split(&second, ',')) {
            Ok(ops) => ops,
            Err(e) => {
                return Err(e);
            },
        }
    } else {
        let none: Vec<Operand> = Vec::new();
        assert(views(none@) =~= seq![]);
        none
    };
    match parse_opcode(opcode.as_str()) {
        Ok(o) => Ok(Ins { opcode: o, operands }),
        Err(e) => Err(e),
    }
}

/// What stands in `s` behind the first `p` and before the next: the second
/// of the pieces into which `p` cuts `s`.
pub open spec fn second_piece(s: Seq<char>, p: Seq<char>) -> Seq<char> {
    match first_match(s, p) {
        Some(i) => {
            let rest = s.skip(i + p.len());
            match first_match(rest, p) {
                Some(j) => rest.take(j),
                None => rest,
            }
        },
        None => seq![],
    }
}

/// The data item, if any, that the line `line` writes. A line that holds
/// `.asciz` writes a string: what stands behind it, up to the next `.asciz`,
/// without the whitespace and the quotes around it. A line that holds
/// `.quad` writes the number that stands behind it. Any other line writes
/// nothing.
pub open spec fn data_of(line: Seq<char>) -> Result<Option<DataView>, ParseErrorView> {
    if first_match(line, ".asciz"@) is Some {
        Ok(
            Some(
                DataView::Asciz(
                    strip_end(strip_start(trimmed(second_piece(line, ".asciz"@)), '"'), '"'),
                ),
            ),
        )
    } else if first_match(line, ".quad"@) is Some {
        let number = trimmed(second_piece(line, ".quad"@));
        match int_of(number) {
            Some(v) => Ok(Some(DataView::Quad(ImmView::Lit(v)))),
            None => Err(ParseErrorView::BadNumber(number)),
        }
    } else {
        Ok(None)
    }
}

/// What stands in `line` behind the first `p` and before the next, where
/// `line` holds `p`.
fn piece_behind(line: &Vec<char>, p: &str) -> (r: Option<Vec<char>>)
    ensures
        match r {
            Some(piece) => first_match(line@, p@) is Some && piece@ == second_piece(line@, p@),
            None => first_match(line@, p@) is None,
        },
{
    let pat = chars_of(p);
    assert(line@.skip(0) =~= line@);
    match find(line, 0, &pat) {
        Some(i) => {
            let from = i + pat.len();
            let ghost rest = line@.skip(from as int);
            match find(line, from, &pat) {
                Some(j) => {
                    let piece = slice(line, from, from + j);
                    assert(piece@ =~= rest.take(j as int));
                    Some(piece)
                },
                None => {
                    let piece = slice(line, from, line.len());
                    assert(piece@ =~= rest);
                    Some(piece)
                },
            }
        },
        None => None,
    }
}

/// The data item, if any, that the line `line` writes.
fn parse_data(line: &Vec<char>) -> (r: Result<Option<Data>, ParseError>)
    ensures
        match r {
            Ok(Some(d)) => data_of(line@) == Ok::<Option<DataView>, ParseErrorView>(Some(d@)),
            Ok(None) => data_of(line@) == Ok::<Option<DataView>, ParseErrorView>(None),
            Err(e) => data_of(line@) == Err::<Option<DataView>, ParseErrorView>(e@),
        },
{
    match piece_behind(line, ".asciz") {
        Some(piece) => {
            let value = strip(&trim(&piece), '"', true, true);
            return Ok(Some(Data::Asciz(string_of(&value))));
        },
        None => {},
    }
    match piece_behind(line, ".quad") {
        Some(piece) => {
            let number = trim(&piece);
            match parse_int(&number) {
                Some(v) => Ok(Some(Data::Quad(Imm::Lit(v)))),
                None => Err(ParseError::BadNumber(string_of(&number))),
            }
        },
        None => Ok(None),
    }
}

/// How far a text has been read: the blocks that are complete, the
/// section and the label in force, and the instructions and the data items
/// read under that label.
pub struct Reader {
    pub elems: Vec<Elem>,
    pub in_text: bool,
    pub label: String,
    pub code: Vec<Ins>,
    pub items: Vec<Data>,
}

/// The value of a [`Reader`].
pub struct ReaderView {
    pub elems: Seq<ElemView>,
    pub in_text: bool,
    pub label: Seq<char>,
    pub code: Seq<InsView>,
    pub items: Seq<DataView>,
}

impl View for Reader {
    type V = ReaderView;

    open spec fn view(&self) -> ReaderView {
        ReaderView {
            elems: views(self.elems@),
            in_text: self.in_text,
            label: self.label@,
            code: views(self.code@),
            items: views(self.items@),
        }
    }
}

/// The state before anything is read: the code section, no label.
pub open spec fn reader_start() -> ReaderView {
    ReaderView { elems: seq![], in_text: true, label: seq![], code: seq![], items: seq![] }
}

/// The state `st` with what was read under its label made a block, as far
/// as there is a label and something of the section in force was read: in
/// the code section an exported code block of the instructions, in the data
/// section an exported data block of the data items. What is made a block is
/// read no longer.
pub open spec fn committed(st: ReaderView) -> ReaderView {
    if st.label.len() > 0 && st.in_text && st.code.len() > 0 {
        ReaderView {
            elems: st.elems.push(
                ElemView { lbl: st.label, global: true, body: AsmView::Text(st.code) },
            ),
            in_text: st.in_text,
            label: st.label,
            code: seq![],
            items: st.items,
        }
    } else if st.label.len() > 0 && !st.in_text && st.items.len() > 0 {
        ReaderView {
            elems: st.elems.push(
                ElemView { lbl: st.label, global: true, body: AsmView::Data(st.items) },
            ),
            in_text: st.in_text,
            label: st.label,
            code: st.code,
            items: seq![],
        }
    } else {
        st
    }
}

/// The state after the line `raw` is read in the state `st`.
pub open spec fn read_line(st: ReaderView, raw: Seq<char>) -> Result<ReaderView, ParseErrorView> {
    let line = trimmed(raw);
    if line.len() == 0 || line[0] == '#' || has_prefix(line, "//"@) {
        Ok(st)
    } else if has_prefix(line, ".text"@) {
        Ok(
            ReaderView {
                elems: st.elems,
                in_text: true,
                label: st.label,
                code: st.code,
                items: st.items,
            },
        )
    } else if has_prefix(line, ".data"@) {
        Ok(
            ReaderView {
                elems: st.elems,
                in_text: false,
                label: st.label,
                code: st.code,
                items: st.items,
            },
        )
    } else if line.last() == ':' {
        let done = committed(st);
        Ok(
            ReaderView {
                elems: done.elems,
                in_text: done.in_text,
                label: strip_end(line, ':'),
                code: done.code,
                items: done.items,
            },
        )
    } else if st.in_text {
        match ins_of(line) {
            Ok(i) => Ok(
                ReaderView {
                    elems: st.elems,
                    in_text: st.in_text,
                    label: st.label,
                    code: st.code.push(i),
                    items: st.items,
                },
            ),
            Err(e) => Err(e),
        }
    } else {
        match data_of(line) {
            Ok(Some(d)) => Ok(
                ReaderView {
                    elems: st.elems,
                    in_text: st.in_text,
                    label: st.label,
                    code: st.code,
                    items: st.items.push(d),
                },
            ),
            Ok(None) => Ok(st),
            Err(e) => Err(e),
        }
    }
}

/// The state after the lines `lines` are read one after the other in the
/// state `st`, or the error of the first line that cannot be read.
pub open spec fn read_lines(st: ReaderView, lines: Seq<Seq<char>>) -> Result<
    ReaderView,
    ParseErrorView,
>
    decreases lines.len(),
{
    if lines.len() == 0 {
        Ok(st)
    } else {
        match read_lines(st, lines.drop_last()) {
            Ok(s) => read_line(s, lines.last()),
            Err(e) => Err(e),
        }
    }
}

/// The program that the text `src` writes: the blocks that are complete
/// when all its lines are read, and what was read last made a block.
pub open spec fn parsed(src: Seq<char>) -> Result<Seq<ElemView>, ParseErrorView> {
    match read_lines(reader_start(), lines_of(src)) {
        Ok(st) => Ok(committed(st).elems),
        Err(e) => Err(e),
    }
}

/// An error among first lines is the error of all.
pub proof fn lemma_read_lines_prefix(st: ReaderView, lines: Seq<Seq<char>>, n: int)
    requires
        0 <= n <= lines.len(),
        read_lines(st, lines.take(n)) is Err,
    ensures
        read_lines(st, lines) == read_lines(st, lines.take(n)),
    decreases lines.len(),
{
    if n == lines.len() {
        assert(lines.take(n) == lines);
    } else {
        assert(lines.drop_last().take(n) == lines.take(n));
        lemma_read_lines_prefix(st, lines.drop_last(), n);
    }
}

impl Reader {
    /// The state before anything is read.
    pub fn new() -> (r: Self)
        ensures
            r@ == reader_start(),
    {
        let r = Reader {
            elems: Vec::new(),
            in_text: true,
            label: String::new(),
            code: Vec::new(),
            items: Vec::new(),
        };
        assert(r@.elems =~= seq![]);
        assert(r@.code =~= seq![]);
        assert(r@.items =~= seq![]);
        r
    }

    /// Makes what was read under the label a block.
    pub fn commit(&mut self)
        ensures
            final(self)@ == committed(old(self)@),
    {
        if self.label.as_str().unicode_len() > 0 {
            if self.in_text && self.code.len() > 0 {
                let mut code: Vec<Ins> = Vec::new();
                core::mem::swap(&mut code, &mut self.code);
                self.elems.push(gtext(self.label.as_str(), code));
                assert(self@.code =~= seq![]);
            } else if !self.in_text && self.items.len() > 0 {
                let mut items: Vec<Data> = Vec::new();
                core::mem::swap(&mut items, &mut self.items);
                self.elems.push(data(self.label.as_str(), items));
                assert(self@.items =~= seq![]);
            }
        }
    }

    /// Reads the line `raw`.
    pub fn read(&mut self, raw: &Vec<char>) -> (r: Result<(), ParseError>)
        ensures
            match r {
                Ok(_) => read_line(old(self)@, raw@) == Ok::<ReaderView, ParseErrorView>(
                    final(self)@,
                ),
                Err(e) => read_line(old(self)@, raw@) == Err::<ReaderView, ParseErrorView>(e@),
            },
    {
        let line = trim(raw);
        if line.len() == 0 || line[0] == '#' || starts_with(&line, "//") {
            return Ok(());
        }
        if starts_with(&line, ".text") {
            self.in_text = true;
            return Ok(());
        }
        if starts_with(&line, ".data") {
            self.in_text = false;
            return Ok(());
        }
        if line[line.len() - 1] == ':' {
            self.commit();
            self.label = string_of(&strip(&line, ':', false, true));
            return Ok(());
        }
        if self.in_text {
            match parse_ins(&line) {
                Ok(i) => {
                    self.code.push(i);
                    Ok(())
                },
                Err(e) => Err(e),
            }
        } else {
            match parse_data(&line) {
                Ok(Some(d)) => {
                    self.items.push(d);
                    Ok(())
                },
                Ok(None) => Ok(()),
                Err(e) => Err(e),
            }
        }
    }
}

/// The program that the lines `lines` write.
pub fn parse_lines(lines: &Vec<Vec<char>>) -> (r: Result<Prog, ParseError>)
    ensures
        match r {
            Ok(p) => match read_lines(reader_start(), views(lines@)) {
                Ok(st) => p@ == committed(st).elems,
                Err(_) => false,
            },
            Err(e) => read_lines(reader_start(), views(lines@)) == Err::<
                ReaderView,
                ParseErrorView,
            >(e@),
        },
{
    let ghost all = views(lines@);
    let mut reader = Reader::new();
    let mut i: usize = 0;
    assert(all.take(0) =~= seq![]);
    while i < lines.len()
        invariant
            i <= lines.len(),
            all == views(lines@),
            read_lines(reader_start(), all.take(i as int)) == Ok::<ReaderView, ParseErrorView>(
                reader@,
            ),
        decreases lines.len() - i,
    {
        assert(all.take(i as int + 1).drop_last() == all.take(i as int));
        assert(all.take(i as int + 1).last() == lines@[i as int]@);
        match reader.read(&lines[i]) {
            Ok(_) => {},
            Err(e) => {
                proof {
                    lemma_read_lines_prefix(reader_start(), all, i as int + 1);
                }
                return Err(e);
            },
        }
        i += 1;
    }
    assert(all.take(i as int) == all);
    reader.commit();
    Ok(Prog(reader.elems))
}

/// The program that the text `src` writes.
pub fn parse_program(src: &str) -> (r: Result<Prog, ParseError>)
    ensures
        match r {
            Ok(p) => parsed(src@) == Ok::<Seq<ElemView>, ParseErrorView>(p@),
            Err(e) => parsed(src@) == Err::<Seq<ElemView>, ParseErrorView>(e@),
        },
{
    let lines = split_lines(&chars_of(src));
    parse_lines(&lines)
}

} // verus!
