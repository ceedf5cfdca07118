use crate::text::{
    find, lemma_position_of_is_first, parse_u16, parsed_u16, position_of, spells, to_chars, trim,
    trimmed,
};
use vstd::prelude::*;
use vstd::slice::slice_subrange;

verus! {

/// Why a source text does not compile.
#[derive(Clone, Copy, Debug, PartialEq, Eq, Structural)]
pub enum CompileError {
    /// An instruction line holds no space between mnemonic and argument.
    MalformedLine,
    /// An argument is not a decimal number below 65536.
    InvalidArgument,
}

/// The opcode that a mnemonic stands for. Spelling and case count; any
/// other word stands for none.
pub open spec fn opcode_of(mnemonic: Seq<char>) -> Option<u8> {
    if mnemonic == "noop"@ {
        Some(0x0u8)
    } else if mnemonic == "set"@ {
        Some(0x1u8)
    } else if mnemonic == "load"@ {
        Some(0x2u8)
    } else if mnemonic == "save"@ {
        Some(0x3u8)
    } else if mnemonic == "add"@ {
        Some(0x4u8)
    } else if mnemonic == "sub"@ {
        Some(0x5u8)
    } else if mnemonic == "add_mem"@ {
        Some(0x6u8)
    } else if mnemonic == "sub_mem"@ {
        Some(0x7u8)
    } else if mnemonic == "inc"@ {
        Some(0x8u8)
    } else if mnemonic == "dec"@ {
        Some(0x9u8)
    } else if mnemonic == "jmp_inz"@ {
        Some(0xAu8)
    } else if mnemonic == "jmp_iz"@ {
        Some(0xBu8)
    } else if mnemonic == "jmp_ic"@ {
        Some(0xCu8)
    } else if mnemonic == "jmp"@ {
        Some(0xDu8)
    } else if mnemonic == "wext"@ {
        Some(0xEu8)
    } else if mnemonic == "rext"@ {
        Some(0xFu8)
    } else {
        None
    }
}

/// Looks a mnemonic up in the instruction table.
pub fn opcode(mnemonic: &[char]) -> (op: Option<u8>)
    ensures
        op == opcode_of(mnemonic@),
        op matches Some(n) ==> n <= 0xF,
{
    if spells(mnemonic, "noop") {
        Some(0x0)
    } else if spells(mnemonic, "set") {
        Some(0x1)
    } else if spells(mnemonic, "load") {
        Some(0x2)
    } else if spells(mnemonic, "save") {
        Some(0x3)
    } else if spells(mnemonic, "add") {
        Some(0x4)
    } else if spells(mnemonic, "sub") {
        Some(0x5)
    } else if spells(mnemonic, "add_mem") {
        Some(0x6)
    } else if spells(mnemonic, "sub_mem") {
        Some(0x7)
    } else if spells(mnemonic, "inc") {
        Some(0x8)
    } else if spells(mnemonic, "dec") {
        Some(0x9)
    } else if spells(mnemonic, "jmp_inz") {
        Some(0xA)
    } else if spells(mnemonic, "jmp_iz") {
        Some(0xB)
    } else if spells(mnemonic, "jmp_ic") {
        Some(0xC)
    } else if spells(mnemonic, "jmp") {
        Some(0xD)
    } else if spells(mnemonic, "wext") {
        Some(0xE)
    } else if spells(mnemonic, "rext") {
        Some(0xF)
    } else {
        None
    }
}

/// The mnemonic that stands for an opcode.
pub open spec fn mnemonic_of(opcode: u8) -> Seq<char> {
    if opcode == 0x0 {
        "noop"@
    } else if opcode == 0x1 {
        "set"@
    } else if opcode == 0x2 {
        "load"@
    } else if opcode == 0x3 {
        "save"@
    } else if opcode == 0x4 {
        "add"@
    } else if opcode == 0x5 {
        "sub"@
    } else if opcode == 0x6 {
        "add_mem"@
    } else if opcode == 0x7 {
        "sub_mem"@
    } else if opcode == 0x8 {
        "inc"@
    } else if opcode == 0x9 {
        "dec"@
    } else if opcode == 0xA {
        "jmp_inz"@
    } else if opcode == 0xB {
        "jmp_iz"@
    } else if opcode == 0xC {
        "jmp_ic"@
    } else if opcode == 0xD {
        "jmp"@
    } else if opcode == 0xE {
        "wext"@
    } else {
        "rext"@
    }
}

/// The sixteen mnemonics differ from one another, so each stands for the
/// opcode that it is the mnemonic of.
pub proof fn lemma_mnemonic_has_its_opcode()
    ensures
        forall|op: u8| op <= 0xF ==> opcode_of(#[trigger] mnemonic_of(op)) == Some(op),
{
    reveal_strlit("noop");
    reveal_strlit("set");
    reveal_strlit("load");
    reveal_strlit("save");
    reveal_strlit("add");
    reveal_strlit("sub");
    reveal_strlit("add_mem");
    reveal_strlit("sub_mem");
    reveal_strlit("inc");
    reveal_strlit("dec");
    reveal_strlit("jmp_inz");
    reveal_strlit("jmp_iz");
    reveal_strlit("jmp_ic");
    reveal_strlit("jmp");
    reveal_strlit("wext");
    reveal_strlit("rext");
    // Length, first two characters and last character tell any two apart.
    assert("noop"@.len() == 4 && "noop"@[0] == 'n' && "noop"@[1] == 'o' && "noop"@[3]
        == 'p');
    assert("set"@.len() == 3 && "set"@[0] == 's' && "set"@[1] == 'e' && "set"@[2]
        == 't');
    assert("load"@.len() == 4 && "load"@[0] == 'l' && "load"@[1] == 'o' && "load"@[3]
        == 'd');
    assert("save"@.len() == 4 && "save"@[0] == 's' && "save"@[1] == 'a' && "save"@[3]
        == 'e');
    assert("add"@.len() == 3 && "add"@[0] == 'a' && "add"@[1] == 'd' && "add"@[2]
        == 'd');
    assert("sub"@.len() == 3 && "sub"@[0] == 's' && "sub"@[1] == 'u' && "sub"@[2]
        == 'b');
    assert("add_mem"@.len() == 7 && "add_mem"@[0] == 'a' && "add_mem"@[1] == 'd' && "add_mem"@[6]
        == 'm');
    assert("sub_mem"@.len() == 7 && "sub_mem"@[0] == 's' && "sub_mem"@[1] == 'u' && "sub_mem"@[6]
        == 'm');
    assert("inc"@.len() == 3 && "inc"@[0] == 'i' && "inc"@[1] == 'n' && "inc"@[2]
        == 'c');
    assert("dec"@.len() == 3 && "dec"@[0] == 'd' && "dec"@[1] == 'e' && "dec"@[2]
        == 'c');
    assert("jmp_inz"@.len() == 7 && "jmp_inz"@[0] == 'j' && "jmp_inz"@[1] == 'm' && "jmp_inz"@[6]
        == 'z');
    assert("jmp_iz"@.len() == 6 && "jmp_iz"@[0] == 'j' && "jmp_iz"@[1] == 'm' && "jmp_iz"@[5]
        == 'z');
    assert("jmp_ic"@.len() == 6 && "jmp_ic"@[0] == 'j' && "jmp_ic"@[1] == 'm' && "jmp_ic"@[5]
        == 'c');
    assert("jmp"@.len() == 3 && "jmp"@[0] == 'j' && "jmp"@[1] == 'm' && "jmp"@[2]
        == 'p');
    assert("wext"@.len() == 4 && "wext"@[0] == 'w' && "wext"@[1] == 'e' && "wext"@[3]
        == 't');
    assert("rext"@.len() == 4 && "rext"@[0] == 'r' && "rext"@[1] == 'e' && "rext"@[3]
        == 't');
    assert(opcode_of("noop"@) == Some(0x0u8));
    assert(opcode_of("set"@) == Some(0x1u8));
    assert(opcode_of("load"@) == Some(0x2u8));
    assert(opcode_of("save"@) == Some(0x3u8));
    assert(opcode_of("add"@) == Some(0x4u8));
    assert(opcode_of("sub"@) == Some(0x5u8));
    assert(opcode_of("add_mem"@) == Some(0x6u8));
    assert(opcode_of("sub_mem"@) == Some(0x7u8));
    assert(opcode_of("inc"@) == Some(0x8u8));
    assert(opcode_of("dec"@) == Some(0x9u8));
    assert(opcode_of("jmp_inz"@) == Some(0xAu8));
    assert(opcode_of("jmp_iz"@) == Some(0xBu8));
    assert(opcode_of("jmp_ic"@) == Some(0xCu8));
    assert(opcode_of("jmp"@) == Some(0xDu8));
    assert(opcode_of("wext"@) == Some(0xEu8));
    assert(opcode_of("rext"@) == Some(0xFu8));
}

/// A word stands for an opcode only if it is the mnemonic of that opcode,
/// and an opcode that a word stands for fits in four bits.
pub proof fn lemma_opcode_has_its_mnemonic(word: Seq<char>, op: u8)
    requires
        opcode_of(word) == Some(op),
    ensures
        op <= 0xF,
        word == mnemonic_of(op),
{
}

/// Gives the mnemonic of an opcode.
pub fn mnemonic(opcode: u8) -> (name: &'static str)
    requires
        opcode <= 0xF,
    ensures
        name@ == mnemonic_of(opcode),
        opcode_of(name@) == Some(opcode),
{
    let name = match opcode {
        0x0 => "noop",
        0x1 => "set",
        0x2 => "load",
        0x3 => "save",
        0x4 => "add",
        0x5 => "sub",
        0x6 => "add_mem",
        0x7 => "sub_mem",
        0x8 => "inc",
        0x9 => "dec",
        0xA => "jmp_inz",
        0xB => "jmp_iz",
        0xC => "jmp_ic",
        0xD => "jmp",
        0xE => "wext",
        _ => "rext",
    };
    proof {
        lemma_mnemonic_has_its_opcode();
        assert(name@ == mnemonic_of(opcode));
    }
    name
}

/// The instruction word: the opcode in the high four bits, the low twelve
/// bits of the argument below it. What the argument holds above its twelfth
/// bit is cut off.
pub open spec fn encoded(opcode: u8, argument: u16) -> u16 {
    (opcode * 4096 + argument % 4096) as u16
}

/// Packs an opcode and an argument into an instruction word.
pub fn encode(opcode: u8, argument: u16) -> (word: u16)
    requires
        opcode <= 0xF,
    ensures
        word == encoded(opcode, argument),
        word / 4096 == opcode,
        word % 4096 == argument % 4096,
{
    let word: u16 = ((opcode as u16) << 12) | (argument & 0xFFF);
    assert(word == opcode * 4096 + argument % 4096 && word / 4096 == opcode as u16 && word % 4096
        == argument % 4096) by (bit_vector)
        requires
            opcode <= 0xF,
            word == ((opcode as u16) << 12) | (argument & 0xFFF),
    ;
    word
}

/// What one instruction line compiles to: an error, nothing (the mnemonic
/// is unknown; the argument must be a number all the same), or a word. The
/// mnemonic ends at the first space; the argument is the rest, white space at
/// its ends aside.
pub open spec fn line_word(line: Seq<char>) -> Result<Option<u16>, CompileError> {
    let gap = position_of(line, ' ');
    if gap == line.len() {
        Err(CompileError::MalformedLine)
    } else {
        match parsed_u16(trimmed(line.skip(gap + 1))) {
            None => Err(CompileError::InvalidArgument),
            Some(argument) => match opcode_of(line.take(gap)) {
                None => Ok(None),
                Some(op) => Ok(Some(encoded(op, argument))),
            },
        }
    }
}

/// Compiles one instruction line.
pub fn translate_line(line: &[char]) -> (res: Result<Option<u16>, CompileError>)
    ensures
        res == line_word(line@),
{
    let gap = find(line, ' ');
    if gap == line.len() {
        return Err(CompileError::MalformedLine);
    }
    let name = slice_subrange(line, 0, gap);
    let argument_text = trim(slice_subrange(line, gap + 1, line.len()));
    assert(name@ =~= line@.take(gap as int));
    assert(line@.subrange(gap as int + 1, line@.len() as int) =~= line@.skip(gap as int + 1));
    match parse_u16(argument_text) {
        None => Err(CompileError::InvalidArgument),
        Some(argument) => match opcode(name) {
            None => Ok(None),
            Some(op) => Ok(Some(encode(op, argument))),
        },
    }
}

/// `line` without the carriage return that may end it.
pub open spec fn without_return(line: Seq<char>) -> Seq<char> {
    if line.len() > 0 && line.last() == '\r' {
        line.drop_last()
    } else {
        line
    }
}

/// The lines of a text. A line ends at a line feed, or at a carriage return
/// directly followed by one; neither belongs to the line. The last line
/// needs no line ending, and nothing follows a line ending that closes the
/// text.
pub open spec fn source_lines(text: Seq<char>) -> Seq<Seq<char>>
    decreases text.len(),
{
    let end = position_of(text, '\n');
    if text.len() == 0 {
        Seq::empty()
    } else if 0 <= end < text.len() {
        seq![without_return(text.take(end))] + source_lines(text.skip(end + 1))
    } else {
        seq![text]
    }
}

/// An instruction line: one that is neither empty nor a comment, which
/// starts with `#`.
pub open spec fn is_instruction(line: Seq<char>) -> bool {
    line.len() > 0 && line[0] != '#'
}

/// The instruction lines among `lines`, in order.
pub open spec fn instructions(lines: Seq<Seq<char>>) -> Seq<Seq<char>> {
    lines.filter(|line: Seq<char>| is_instruction(line))
}

/// The instruction lines of a source text, in order.
pub open spec fn filtered(text: Seq<char>) -> Seq<Seq<char>> {
    instructions(source_lines(text))
}

/// The program image that instruction lines compile to: the words of the
/// lines with a known mnemonic, in order. The first line that is in error
/// fails the whole, with its error.
pub open spec fn translated(lines: Seq<Seq<char>>) -> Result<Seq<u16>, CompileError>
    decreases lines.len(),
{
    if lines.len() == 0 {
        Ok(Seq::empty())
    } else {
        match translated(lines.drop_last()) {
            Err(e) => Err(e),
            Ok(words) => match line_word(lines.last()) {
                Err(e) => Err(e),
                Ok(None) => Ok(words),
                Ok(Some(word)) => Ok(words.push(word)),
            },
        }
    }
}

/// The program image that a source text compiles to, or the error that
/// rejects it.
pub open spec fn compiled(text: Seq<char>) -> Result<Seq<u16>, CompileError> {
    translated(filtered(text))
}

/// The texts that a list of strings holds.
pub open spec fn texts(lines: Seq<String>) -> Seq<Seq<char>> {
    lines.map_values(|line: String| line@)
}

/// A program image as a mathematical value.
pub open spec fn image_view(image: Result<Vec<u16>, CompileError>) -> Result<
    Seq<u16>,
    CompileError,
> {
    match image {
        Ok(words) => Ok(words@),
        Err(e) => Err(e),
    }
}

/// One more line at the end adds itself to the instruction lines, or
/// nothing.
pub proof fn lemma_instructions_push(lines: Seq<Seq<char>>, line: Seq<char>)
    ensures
        instructions(lines.push(line)) == if is_instruction(line) {
            instructions(lines).push(line)
        } else {
            instructions(lines)
        },
{
    reveal(Seq::filter);
    assert(lines.push(line).drop_last() =~= lines);
}

/// The lines of a text are the lines up to a line start, followed by the
/// lines of the rest.
proof fn lemma_source_lines_cut(rest: Seq<char>, end: int)
    requires
        rest.len() > 0,
        end == position_of(rest, '\n'),
    ensures
        0 <= end <= rest.len(),
        end < rest.len() ==> source_lines(rest) == seq![without_return(rest.take(end))]
            + source_lines(rest.skip(end + 1)),
        end == rest.len() ==> source_lines(rest) == seq![rest],
{
    lemma_position_of_is_first(rest, '\n');
}

/// Splits a source text into lines and keeps the instruction lines: those
/// that are neither empty nor start with `#`.
pub fn filter_source(source: &str) -> (lines: Vec<String>)
    ensures
        texts(lines@) == filtered(source@),
{
    let text = to_chars(source);
    let mut lines: Vec<String> = Vec::new();
    let mut start: usize = 0;
    let ghost mut done: Seq<Seq<char>> = Seq::empty();
    assert(text@.skip(0) =~= text@);
    assert(texts(lines@) =~= instructions(done)) by {
        reveal(Seq::filter);
    }
    while start < text.len()
        invariant
            text@ == source@,
            start <= text@.len(),
            source_lines(text@) == done + source_lines(text@.skip(start as int)),
            texts(lines@) == instructions(done),
        decreases text@.len() - start,
    {
        let rest = slice_subrange(text.as_slice(), start, text.len());
        assert(rest@ =~= text@.skip(start as int));
        let end = find(rest, '\n');
        proof {
            lemma_source_lines_cut(rest@, end as int);
        }
        let mut stop: usize = start + end;
        let next: usize = if end < rest.len() {
            start + end + 1
        } else {
            text.len()
        };
        if end < rest.len() && end > 0 && text[stop - 1] == '\r' {
            stop = stop - 1;
        }
        let ghost line = text@.subrange(start as int, stop as int);
        proof {
            if end < rest@.len() {
                assert(rest@.take(end as int) =~= text@.subrange(
                    start as int,
                    start as int + end as int,
                ));
                assert(line =~= without_return(rest@.take(end as int)));
                assert(rest@.skip(end as int + 1) =~= text@.skip(next as int));
            } else {
                assert(line =~= rest@);
                assert(text@.skip(next as int) =~= Seq::<char>::empty());
            }
            assert(source_lines(rest@) =~= seq![line] + source_lines(text@.skip(next as int)));
            assert(done + source_lines(text@.skip(start as int)) =~= done.push(line)
                + source_lines(text@.skip(next as int)));
            lemma_instructions_push(done, line);
            done = done.push(line);
        }
        if stop > start && text[start] != '#' {
            let kept = source.substring_char(start, stop).to_owned();
            assert(kept@ == line);
            let ghost before = lines@;
            lines.push(kept);
            assert(texts(lines@) =~= texts(before).push(line));
        }
        start = next;
    }
    assert(source_lines(text@.skip(start as int)) =~= Seq::<Seq<char>>::empty());
    assert(done + Seq::<Seq<char>>::empty() =~= done);
    lines
}

/// Compiles instruction lines to a program image. All or nothing: the first
/// line in error fails the whole. A line with an unknown mnemonic gives no
/// word and fails nothing, if its argument is a number.
pub fn translate(lines: &Vec<String>) -> (res: Result<Vec<u16>, CompileError>)
    ensures
        image_view(res) == translated(texts(lines@)),
{
    let mut binary: Vec<u16> = Vec::new();
    let mut i: usize = 0;
    assert(texts(lines@).take(0) =~= Seq::<Seq<char>>::empty());
    while i < lines.len()
        invariant
            i <= lines@.len(),
            translated(texts(lines@).take(i as int)) == Ok::<Seq<u16>, CompileError>(binary@),
        decreases lines@.len() - i,
    {
        let line = to_chars(lines[i].as_str());
        let ghost upto = texts(lines@).take(i as int + 1);
        assert(upto.drop_last() =~= texts(lines@).take(i as int));
        assert(upto.last() == line@);
        match translate_line(line.as_slice()) {
            Err(e) => {
                proof {
                    lemma_translated_error_stays(texts(lines@), i as int + 1);
                }
                return Err(e);
            },
            Ok(None) => {},
            Ok(Some(word)) => {
                binary.push(word);
            },
        }
        i += 1;
    }
    assert(texts(lines@).take(i as int) =~= texts(lines@));
    Ok(binary)
}

/// Once the lines up to some point are in error, so are all the lines, with
/// the same error.
pub proof fn lemma_translated_error_stays(lines: Seq<Seq<char>>, k: int)
    requires
        0 <= k <= lines.len(),
        translated(lines.take(k)) is Err,
    ensures
        translated(lines) == translated(lines.take(k)),
    decreases lines.len(),
{
    if k == lines.len() {
        assert(lines.take(k) =~= lines);
    } else {
        assert(lines.drop_last().take(k) =~= lines.take(k));
        lemma_translated_error_stays(lines.drop_last(), k);
    }
}

/// Compiles a source text to a program image. Empty lines and comment lines
/// are left out; every other line is `<mnemonic> <argument>`. The text
/// compiles as a whole or not at all. An argument above 4095 is not
/// rejected: its low twelve bits go into the word.
pub fn compile(source: &str) -> (res: Result<Vec<u16>, CompileError>)
    ensures
        image_view(res) == compiled(source@),
{
    let lines = filter_source(source);
    translate(&lines)
}

} // verus!
