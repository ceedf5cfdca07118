use crate::assembler::{
    compiled, encoded, filtered, is_instruction, line_word, source_lines, translated,
    CompileError,
};
use crate::cpu::{
    difference_underflows, image_bytes, next_pc, sum_overflows, wrapped_difference, wrapped_sum,
    CpuState, PCAction,
};
use crate::rom_editor::RomEditorState;
use crate::text::{lemma_position_of_is_first, position_of};
use vstd::prelude::*;

verus! {

/// A cycle keeps the program counter within the 2048 instructions, whether
/// control advances or jumps, and keeps both byte arrays at their size.
pub proof fn step_keeps_state_well_formed(s: CpuState)
    requires
        s.wf(),
    ensures
        s.step().wf(),
        0 <= s.step().pc <= 2047,
{
}

/// The program counter stays within the 2048 instructions however many
/// cycles run.
pub proof fn run_keeps_state_well_formed(s: CpuState, count: nat)
    requires
        s.wf(),
    ensures
        s.run(count).wf(),
        0 <= s.run(count).pc <= 2047,
    decreases count,
{
    if count > 0 {
        step_keeps_state_well_formed(s);
        run_keeps_state_well_formed(s.step(), (count - 1) as nat);
    }
}

/// Whatever the program counter and the directive, the next program counter
/// addresses an instruction.
pub proof fn next_pc_is_in_range(pc: int, action: PCAction)
    requires
        0 <= pc <= 2047,
    ensures
        0 <= next_pc(pc, action) <= 2047,
{
}

/// For all bytes `a` and `b`, sum and difference are taken modulo 256, and
/// the carry is set exactly when the true sum or difference lies outside 0
/// to 255: the result is then off by 256, and exact otherwise.
pub proof fn byte_arithmetic_is_modular(a: u8, b: u8)
    ensures
        wrapped_sum(a, b) == (a + b) % 256,
        wrapped_difference(a, b) == (a - b) % 256,
        sum_overflows(a, b) == !(0 <= a + b <= 255),
        difference_underflows(a, b) == !(0 <= a - b <= 255),
        wrapped_sum(a, b) == if sum_overflows(a, b) {
            a + b - 256
        } else {
            a + b
        },
        wrapped_difference(a, b) == if difference_underflows(a, b) {
            a - b + 256
        } else {
            a - b
        },
{
}

/// The four instructions that add to or subtract from the accumulator give
/// the sum or difference modulo 256, and set the carry flag exactly when the
/// true sum or difference lies outside 0 to 255. They leave memory alone.
pub proof fn accumulator_arithmetic_is_modular(s: CpuState)
    requires
        s.wf(),
        4 <= s.opcode() <= 7,
    ensures
        ({
            let b: int = if s.opcode() <= 5 {
                s.immediate() as int
            } else {
                s.memory[s.operand()] as int
            };
            let exact: int = if s.opcode() == 4 || s.opcode() == 6 {
                s.acc + b
            } else {
                s.acc - b
            };
            &&& s.step().acc == exact % 256
            &&& s.step().carry == !(0 <= exact <= 255)
            &&& !s.step().carry ==> s.step().acc == exact
            &&& s.step().memory == s.memory
        }),
{
}

/// The two instructions that raise or lower a byte of memory by one give the
/// byte plus or minus one modulo 256, and set the carry flag exactly when
/// the true result lies outside 0 to 255. They leave the accumulator and
/// every other byte alone.
pub proof fn memory_arithmetic_is_modular(s: CpuState)
    requires
        s.wf(),
        8 <= s.opcode() <= 9,
    ensures
        ({
            let address = s.operand();
            let exact: int = if s.opcode() == 8 {
                s.memory[address] + 1
            } else {
                s.memory[address] - 1
            };
            &&& 0 <= address < 4096
            &&& s.step().memory[address] == exact % 256
            &&& s.step().carry == !(0 <= exact <= 255)
            &&& s.step().acc == s.acc
            &&& forall|i: int|
                0 <= i < 4096 && i != address ==> s.step().memory[i] == s.memory[i]
        }),
{
}

/// After the carry jump the flag is false, whatever it was; the jump is
/// taken exactly when the flag was set before.
pub proof fn carry_jump_clears_flag(s: CpuState)
    requires
        s.wf(),
        s.opcode() == 0xC,
    ensures
        !s.step().carry,
        s.carry ==> s.step().pc == if s.operand() > 2047 {
            0
        } else {
            s.operand()
        },
        !s.carry ==> s.step().pc == if s.pc == 2047 {
            0
        } else {
            s.pc + 1
        },
        s.step().acc == s.acc,
        s.step().memory == s.memory,
{
}

/// Instructions other than the six arithmetic ones and the carry jump leave
/// the carry flag as it was.
pub proof fn other_instructions_keep_flag(s: CpuState)
    requires
        s.wf(),
        s.opcode() < 4 || s.opcode() == 0xA || s.opcode() == 0xB || s.opcode() > 0xC,
    ensures
        s.step().carry == s.carry,
{
}

/// The opcode 0 and the two reserved opcodes do nothing but advance the
/// program counter.
pub proof fn idle_instructions_only_advance(s: CpuState)
    requires
        s.wf(),
        s.opcode() == 0x0 || s.opcode() == 0xE || s.opcode() == 0xF,
    ensures
        s.step() == (CpuState { pc: if s.pc == 2047 { 0 } else { s.pc + 1 }, ..s }),
{
}

/// A cycle never touches the baseline image or the running switch.
pub proof fn step_keeps_baseline(s: CpuState)
    requires
        s.wf(),
    ensures
        s.step().rom == s.rom,
        s.step().running == s.running,
{
}

/// A reset makes working memory equal to the baseline image and zeroes the
/// program counter, the accumulator, the carry flag and the running switch;
/// a second reset changes nothing more.
pub proof fn reset_is_idempotent(s: CpuState)
    ensures
        s.reset().memory == s.rom,
        s.reset().rom == s.rom,
        s.reset().pc == 0,
        s.reset().acc == 0,
        !s.reset().carry,
        !s.reset().running,
        s.reset().reset() == s.reset(),
{
}

/// Installing a program changes the baseline image only: the processor
/// goes on as before until it is reset.
pub proof fn install_waits_for_reset(s: CpuState, image: Seq<u16>)
    requires
        s.wf(),
    ensures
        s.installed(image).wf(),
        s.installed(image).step() == s.step().installed(image),
        s.installed(image).reset().memory == image_bytes(image),
{
}

/// An image of more than 2048 words is installed as its first 2048 words.
pub proof fn install_keeps_first_words(image: Seq<u16>)
    requires
        image.len() > 2048,
    ensures
        image_bytes(image) == image_bytes(image.take(2048)),
{
    assert(image_bytes(image) =~= image_bytes(image.take(2048)));
}

/// The processor reads an installed word as the assembler wrote it: after
/// a reset, the instruction at index `k` has the opcode and the twelve-bit
/// operand that were packed into word `k` of the image.
pub proof fn fetch_reads_what_was_encoded(
    s: CpuState,
    image: Seq<u16>,
    k: int,
    opcode: u8,
    argument: u16,
)
    requires
        0 <= k < image.len(),
        k <= 2047,
        opcode <= 0xF,
        image[k] == encoded(opcode, argument),
    ensures
        ({
            let at_k = CpuState { pc: k, ..s.installed(image).reset() };
            &&& at_k.opcode() == opcode
            &&& at_k.operand() == argument % 4096
            &&& at_k.immediate() == argument % 256
        }),
{
    let word = image[k];
    let bytes = image_bytes(image);
    assert((2 * k) / 2 == k && (2 * k) % 2 == 0);
    assert((2 * k + 1) / 2 == k && (2 * k + 1) % 2 == 1);
    assert(bytes[2 * k] == (word / 256) as u8);
    assert(bytes[2 * k + 1] == (word % 256) as u8);
    assert(word == opcode * 4096 + argument % 4096);
    assert((word / 256) / 16 == opcode && ((word / 256) % 16) * 256 + word % 256 == argument % 4096
        && word % 256 == argument % 256) by (nonlinear_arith)
        requires
            word == opcode * 4096 + argument % 4096,
            0 <= opcode <= 15,
    ;
}

/// Handing the same source text to the assembler again changes nothing:
/// once a text has been seen, a second update is a no-op.
pub proof fn update_is_idempotent(e: RomEditorState)
    ensures
        e.updated().updated() == e.updated(),
        e.updated().last_code == e.code,
        e.updated().code == e.code,
{
}

/// Compilation is all or nothing: a text in error leaves the image and the
/// validity of the editor as they were, and a text that compiles replaces
/// the image by its own.
pub proof fn update_is_all_or_nothing(e: RomEditorState)
    requires
        e.code != e.last_code,
    ensures
        compiled(e.code) is Err ==> e.updated().rom == e.rom && e.updated().valid == e.valid,
        compiled(e.code) is Ok ==> e.updated().rom == compiled(e.code)->Ok_0 && e.updated().valid,
{
}

/// What the assembler keeps of a source text are instruction lines only:
/// no empty line and no comment is among them, and none holds a line feed.
pub proof fn filtered_lines_are_instructions(text: Seq<char>)
    ensures
        forall|i: int|
            0 <= i < filtered(text).len() ==> is_instruction(#[trigger] filtered(text)[i]),
        forall|i: int|
            0 <= i < filtered(text).len() ==> !(#[trigger] filtered(text)[i]).contains('\n'),
        filtered(text).len() <= source_lines(text).len(),
{
    let lines = source_lines(text);
    let keep = |line: Seq<char>| is_instruction(line);
    lines.lemma_filter_len(keep);
    assert forall|i: int| 0 <= i < filtered(text).len() implies is_instruction(
        #[trigger] filtered(text)[i],
    ) && !filtered(text)[i].contains('\n') by {
        let line = filtered(text)[i];
        lines.lemma_filter_pred(keep, i);
        lines.lemma_filter_contains_rev(keep, line);
        lines_hold_no_line_feed(text);
        let j = choose|j: int| 0 <= j < lines.len() && lines[j] == line;
        assert(!lines[j].contains('\n'));
    }
}

/// No line of a text holds a line feed.
pub proof fn lines_hold_no_line_feed(text: Seq<char>)
    ensures
        forall|j: int|
            0 <= j < source_lines(text).len() ==> !(#[trigger] source_lines(text)[j]).contains(
                '\n',
            ),
    decreases text.len(),
{
    let end = position_of(text, '\n');
    lemma_position_of_is_first(text, '\n');
    if text.len() == 0 {
    } else if end < text.len() {
        let rest = text.skip(end + 1);
        lines_hold_no_line_feed(rest);
        assert forall|j: int| 0 <= j < source_lines(text).len() implies !(
        #[trigger] source_lines(text)[j]).contains('\n') by {
            if j > 0 {
                assert(source_lines(text)[j] == source_lines(rest)[j - 1]);
            }
        }
    } else {
    }
}

/// An image holds at most one word for each instruction line.
pub proof fn image_has_at_most_a_word_per_line(lines: Seq<Seq<char>>)
    requires
        translated(lines) is Ok,
    ensures
        translated(lines)->Ok_0.len() <= lines.len(),
    decreases lines.len(),
{
    if lines.len() > 0 {
        image_has_at_most_a_word_per_line(lines.drop_last());
    }
}

/// An image holds exactly one word for each instruction line if every
/// mnemonic is known, and the word of line `i` is then word `i`.
pub proof fn image_follows_the_lines(lines: Seq<Seq<char>>)
    requires
        forall|i: int| 0 <= i < lines.len() ==> (#[trigger] line_word(lines[i])) matches Ok(Some(_)),
    ensures
        translated(lines) is Ok,
        translated(lines)->Ok_0.len() == lines.len(),
        forall|i: int|
            0 <= i < lines.len() ==> line_word(lines[i]) == Ok::<Option<u16>, CompileError>(
                Some(#[trigger] translated(lines)->Ok_0[i]),
            ),
    decreases lines.len(),
{
    if lines.len() > 0 {
        let front = lines.drop_last();
        assert forall|i: int| 0 <= i < front.len() implies (#[trigger] line_word(
            front[i],
        )) matches Ok(Some(_)) by {
            assert(front[i] == lines[i]);
        }
        image_follows_the_lines(front);
        assert(line_word(lines.last()) matches Ok(Some(_))) by {
            assert(lines.last() == lines[lines.len() - 1]);
        }
        assert forall|i: int| 0 <= i < lines.len() implies line_word(lines[i]) == Ok::<
            Option<u16>,
            CompileError,
        >(Some(#[trigger] translated(lines)->Ok_0[i])) by {
            if i < front.len() {
                assert(front[i] == lines[i]);
                assert(translated(lines)->Ok_0[i] == translated(front)->Ok_0[i]);
            }
        }
    }
}

/// A text compiles exactly when none of its instruction lines is in error.
pub proof fn compiles_iff_no_line_is_in_error(lines: Seq<Seq<char>>)
    ensures
        translated(lines) is Ok <==> forall|i: int|
            0 <= i < lines.len() ==> (#[trigger] line_word(lines[i])) is Ok,
    decreases lines.len(),
{
    if lines.len() > 0 {
        let front = lines.drop_last();
        compiles_iff_no_line_is_in_error(front);
        if translated(lines) is Ok {
            assert forall|i: int| 0 <= i < lines.len() implies (#[trigger] line_word(
                lines[i],
            )) is Ok by {
                if i < front.len() {
                    assert(front[i] == lines[i]);
                }
            }
        }
        if forall|i: int| 0 <= i < lines.len() ==> (#[trigger] line_word(lines[i])) is Ok {
            assert forall|i: int| 0 <= i < front.len() implies (#[trigger] line_word(
                front[i],
            )) is Ok by {
                assert(front[i] == lines[i]);
            }
            assert(line_word(lines[lines.len() - 1]) is Ok);
        }
    }
}

} // verus!
