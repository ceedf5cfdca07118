use vstd::prelude::*;

verus! {

/// Number of bytes of working memory, and of the baseline image.
pub const MEMORY_SIZE: usize = 4096;

/// Highest instruction index: memory holds 2048 two-byte instructions.
pub const LAST_INSTRUCTION: usize = 2047;

/// What the program counter does once an instruction has run.
#[derive(Clone, Copy, Debug, PartialEq, Eq, Structural)]
pub enum PCAction {
    /// Go on with the instruction that follows.
    Step,
    /// Go on at the given instruction index.
    Jump(usize),
}

/// The processor as a mathematical value: what a `Cpu` stands for in contracts.
pub struct CpuState {
    /// Index of the instruction that runs next.
    pub pc: int,
    /// Working memory.
    pub memory: Seq<u8>,
    /// Baseline image: the installed program as bytes.
    pub rom: Seq<u8>,
    /// The accumulator.
    pub acc: u8,
    /// The carry flag.
    pub carry: bool,
    /// Whether the host's ticks are honoured.
    pub running: bool,
}

/// Sum of two bytes modulo 256.
pub open spec fn wrapped_sum(a: u8, b: u8) -> u8 {
    ((a + b) % 256) as u8
}

/// Difference of two bytes modulo 256.
pub open spec fn wrapped_difference(a: u8, b: u8) -> u8 {
    ((a - b) % 256) as u8
}

/// The sum of two bytes does not fit in a byte.
pub open spec fn sum_overflows(a: u8, b: u8) -> bool {
    a + b > 255
}

/// The difference of two bytes is negative.
pub open spec fn difference_underflows(a: u8, b: u8) -> bool {
    a - b < 0
}

/// The program counter that follows `pc` under `action`: one further, or the
/// target of the jump; an index past the last instruction becomes 0.
pub open spec fn next_pc(pc: int, action: PCAction) -> int {
    match action {
        PCAction::Step => if pc + 1 > LAST_INSTRUCTION {
            0
        } else {
            pc + 1
        },
        PCAction::Jump(target) => if target > LAST_INSTRUCTION {
            0
        } else {
            target as int
        },
    }
}

/// The byte layout of a program image: 4096 bytes, each word as its high
/// byte followed by its low byte, in order; zero where the image has ended,
/// and nothing of the words that do not fit.
pub open spec fn image_bytes(image: Seq<u16>) -> Seq<u8> {
    Seq::new(
        MEMORY_SIZE as nat,
        |i: int|
            if i / 2 < image.len() {
                if i % 2 == 0 {
                    (image[i / 2] / 256) as u8
                } else {
                    (image[i / 2] % 256) as u8
                }
            } else {
                0u8
            },
    )
}

impl CpuState {
    /// The program counter addresses an instruction, and both byte arrays
    /// have their full size.
    pub open spec fn wf(self) -> bool {
        &&& 0 <= self.pc <= LAST_INSTRUCTION
        &&& self.memory.len() == MEMORY_SIZE
        &&& self.rom.len() == MEMORY_SIZE
    }

    /// The state right after creation: everything zero, not running.
    pub open spec fn initial() -> CpuState {
        CpuState {
            pc: 0,
            memory: Seq::new(MEMORY_SIZE as nat, |i: int| 0u8),
            rom: Seq::new(MEMORY_SIZE as nat, |i: int| 0u8),
            acc: 0,
            carry: false,
            running: false,
        }
    }

    /// Opcode of the instruction at the program counter: the high nibble of
    /// its first byte.
    pub open spec fn opcode(self) -> int {
        self.memory[2 * self.pc] as int / 16
    }

    /// Operand of the instruction at the program counter: the low nibble of
    /// its first byte, followed by its second byte.
    pub open spec fn operand(self) -> int {
        (self.memory[2 * self.pc] as int % 16) * 256 + self.memory[2 * self.pc + 1] as int
    }

    /// The low eight bits of the operand: the instruction's second byte.
    pub open spec fn immediate(self) -> u8 {
        self.memory[2 * self.pc + 1]
    }

    /// The accumulator replaced by `value`.
    pub open spec fn with_acc(self, value: u8) -> CpuState {
        CpuState { acc: value, ..self }
    }

    /// The byte at `address` replaced by `value`.
    pub open spec fn with_byte(self, address: int, value: u8) -> CpuState {
        CpuState { memory: self.memory.update(address, value), ..self }
    }

    /// The carry flag replaced by `carry`.
    pub open spec fn with_carry(self, carry: bool) -> CpuState {
        CpuState { carry, ..self }
    }

    /// `value` added to the accumulator modulo 256; the carry flag tells
    /// whether the sum left the range of a byte.
    pub open spec fn plus(self, value: u8) -> CpuState {
        CpuState {
            acc: wrapped_sum(self.acc, value),
            carry: sum_overflows(self.acc, value),
            ..self
        }
    }

    /// `value` subtracted from the accumulator modulo 256; the carry flag
    /// tells whether the difference left the range of a byte.
    pub open spec fn minus(self, value: u8) -> CpuState {
        CpuState {
            acc: wrapped_difference(self.acc, value),
            carry: difference_underflows(self.acc, value),
            ..self
        }
    }

    /// The byte at `address` raised by one modulo 256; the carry flag tells
    /// whether it wrapped.
    pub open spec fn incremented(self, address: int) -> CpuState {
        CpuState {
            memory: self.memory.update(address, wrapped_sum(self.memory[address], 1)),
            carry: sum_overflows(self.memory[address], 1),
            ..self
        }
    }

    /// The byte at `address` lowered by one modulo 256; the carry flag tells
    /// whether it wrapped.
    pub open spec fn decremented(self, address: int) -> CpuState {
        CpuState {
            memory: self.memory.update(address, wrapped_difference(self.memory[address], 1)),
            carry: difference_underflows(self.memory[address], 1),
            ..self
        }
    }

    /// What the instruction at the program counter does to registers, flag
    /// and memory. The program counter is left as it is.
    pub open spec fn executed(self) -> CpuState {
        let op = self.opcode();
        let address = self.operand();
        if op == 0x1 {
            self.with_acc(self.immediate())
        } else if op == 0x2 {
            self.with_acc(self.memory[address])
        } else if op == 0x3 {
            self.with_byte(address, self.acc)
        } else if op == 0x4 {
            self.plus(self.immediate())
        } else if op == 0x5 {
            self.minus(self.immediate())
        } else if op == 0x6 {
            self.plus(self.memory[address])
        } else if op == 0x7 {
            self.minus(self.memory[address])
        } else if op == 0x8 {
            self.incremented(address)
        } else if op == 0x9 {
            self.decremented(address)
        } else if op == 0xC {
            self.with_carry(false)
        } else {
            self
        }
    }

    /// Where the instruction at the program counter sends control. The carry
    /// jump decides by the flag as it was before the instruction.
    pub open spec fn transfer(self) -> PCAction {
        let op = self.opcode();
        let taken = (op == 0xA && self.acc != 0) || (op == 0xB && self.acc == 0) || (op == 0xC
            && self.carry) || op == 0xD;
        if taken {
            PCAction::Jump(self.operand() as usize)
        } else {
            PCAction::Step
        }
    }

    /// One fetch-decode-execute cycle.
    pub open spec fn step(self) -> CpuState {
        CpuState { pc: next_pc(self.pc, self.transfer()), ..self.executed() }
    }

    /// `count` cycles, one after the other.
    pub open spec fn run(self, count: nat) -> CpuState
        decreases count,
    {
        if count == 0 {
            self
        } else {
            self.step().run((count - 1) as nat)
        }
    }

    /// One tick of the host: a cycle if the processor is running, nothing
    /// otherwise.
    pub open spec fn tick(self) -> CpuState {
        if self.running {
            self.step()
        } else {
            self
        }
    }

    /// Working memory restored from the baseline image; program counter,
    /// accumulator and carry flag zeroed; not running.
    pub open spec fn reset(self) -> CpuState {
        CpuState {
            pc: 0,
            memory: self.rom,
            rom: self.rom,
            acc: 0,
            carry: false,
            running: false,
        }
    }

    /// `image` installed as the baseline. Nothing else changes.
    pub open spec fn installed(self, image: Seq<u16>) -> CpuState {
        CpuState { rom: image_bytes(image), ..self }
    }
}

/// The processor: program counter, working memory, baseline image,
/// accumulator, carry flag and the running switch.
pub struct Cpu {
    pc: usize,
    memory: [u8; 4096],
    rom: [u8; 4096],
    acc: u8,
    carry: bool,
    running: bool,
}

impl View for Cpu {
    type V = CpuState;

    closed spec fn view(&self) -> CpuState {
        CpuState {
            pc: self.pc as int,
            memory: self.memory@,
            rom: self.rom@,
            acc: self.acc,
            carry: self.carry,
            running: self.running,
        }
    }
}

impl Cpu {
    #[verifier::type_invariant]
    spec fn pc_in_range(self) -> bool {
        self.pc <= LAST_INSTRUCTION
    }

    /// A processor with all-zero memory that is not running.
    pub fn new() -> (cpu: Cpu)
        ensures
            cpu@ == CpuState::initial(),
            cpu@.wf(),
    {
        let cpu = Cpu {
            pc: 0,
            rom: [0;4096],
            memory: [0;4096],
            acc: 0,
            carry: false,
            running: false,
        };
        assert(cpu@.memory =~= CpuState::initial().memory);
        assert(cpu@.rom =~= CpuState::initial().rom);
        cpu
    }

    /// Restores working memory from the baseline image and zeroes the
    /// program counter, the accumulator and the carry flag; the processor
    /// stops.
    pub fn reset(&mut self)
        ensures
            final(self)@ == old(self)@.reset(),
            final(self)@.wf(),
    {
        self.pc = 0;
        self.memory = self.rom;
        self.acc = 0;
        self.carry = false;
        self.running = false;
    }

    /// Index of the instruction that runs next.
    pub fn pc(&self) -> (pc: usize)
        ensures
            pc == self@.pc,
            pc <= LAST_INSTRUCTION,
    {
        proof {
            use_type_invariant(self);
        }
        self.pc
    }

    /// The accumulator.
    pub fn acc(&self) -> (acc: u8)
        ensures
            acc == self@.acc,
    {
        self.acc
    }

    /// The carry flag.
    pub fn carry(&self) -> (carry: bool)
        ensures
            carry == self@.carry,
    {
        self.carry
    }

    /// Whether the host's ticks are honoured.
    pub fn running(&self) -> (running: bool)
        ensures
            running == self@.running,
    {
        self.running
    }

    /// Working memory.
    pub fn memory(&self) -> (memory: &[u8; 4096])
        ensures
            memory@ == self@.memory,
    {
        &self.memory
    }

    /// The baseline image.
    pub fn rom(&self) -> (rom: &[u8; 4096])
        ensures
            rom@ == self@.rom,
    {
        &self.rom
    }

    /// Starts or stops the processor. Nothing else changes.
    pub fn set_running(&mut self, running: bool)
        ensures
            final(self)@ == (CpuState { running, ..old(self)@ }),
            final(self)@.wf(),
    {
        proof {
            use_type_invariant(&*self);
        }
        self.running = running;
    }

    /// One tick of the host: runs one instruction if the processor is
    /// running, and does nothing otherwise.
    pub fn ui_update(&mut self)
        ensures
            final(self)@ == old(self)@.tick(),
            final(self)@.wf(),
    {
        proof {
            use_type_invariant(&*self);
        }
        if self.running {
            self.step()
        }
    }

    /// Installs `rom_vec` as the baseline image: each word as its high byte
    /// followed by its low byte, the rest zero. Words past the 2048th do not
    /// fit and are left out. Working memory and registers stay as they are.
    pub fn load_sixteen_bit_rom(&mut self, rom_vec: &Vec<u16>)
        ensures
            final(self)@ == old(self)@.installed(rom_vec@),
            final(self)@.wf(),
    {
        proof {
            use_type_invariant(&*self);
        }
        let mut eight_bit_ver = [0u8;4096];
        let mut i: usize = 0;
        while i < rom_vec.len() && i < 2048
            invariant
                i <= 2048,
                i <= rom_vec.len(),
                forall|k: int|
                    0 <= k < 2 * i ==> #[trigger] eight_bit_ver@[k] == image_bytes(rom_vec@)[k],
                forall|k: int| 2 * i <= k < 4096 ==> #[trigger] eight_bit_ver@[k] == 0u8,
            decreases 2048 - i,
        {
            let n: u16 = rom_vec[i];
            eight_bit_ver[2 * i] = (n >> 8) as u8;
            eight_bit_ver[2 * i + 1] = n as u8;
            assert((n >> 8) as u8 == (n / 256) as u8 && n as u8 == (n % 256) as u8)
                by (bit_vector);
            i += 1;
        }
        assert(eight_bit_ver@ =~= image_bytes(rom_vec@));
        self.rom = eight_bit_ver;
    }

    /// Reads the instruction at the program counter: the opcode from the high
    /// nibble of its first byte, the operand from the low nibble and the
    /// second byte.
    pub fn fetch(&self) -> (instruction: (u8, u16))
        ensures
            instruction.0 == self@.opcode(),
            instruction.1 == self@.operand(),
            instruction.0 <= 0xF,
            instruction.1 <= 0xFFF,
    {
        proof {
            use_type_invariant(self);
        }
        let current_address: usize = self.pc * 2;
        let first: u8 = self.memory[current_address];
        let second: u8 = self.memory[current_address + 1];
        let operation: u8 = (first & 0xF0) >> 4;
        let address: u16 = ((first & 0x0F) as u16) << 8 | second as u16;
        assert(operation == first / 16 && address == (first % 16) * 256 + second && address < 4096
            && operation < 16) by (bit_vector)
            requires
                operation == (first & 0xF0) >> 4,
                address == ((first & 0x0F) as u16) << 8 | second as u16,
        ;
        (operation, address)
    }

    /// The fetch-decode-execute cycle: runs the instruction at the program
    /// counter and moves the program counter on. Every opcode and every
    /// operand has a defined effect, so a cycle always succeeds.
    pub fn step(&mut self)
        ensures
            final(self)@ == old(self)@.step(),
            final(self)@.wf(),
    {
        proof {
            use_type_invariant(&*self);
        }
        // Fetch
        let (operation, address) = self.fetch();
        let value: u8 = (address & 0xFF) as u8;
        assert(value == address % 256) by (bit_vector)
            requires
                value == (address & 0xFF) as u8,
        ;

        // Decode and execute
        let pc_op = match operation {
            0x1 => self.set_value(value),
            0x2 => self.load(address),
            0x3 => self.save(address),
            0x4 => self.add(value),
            0x5 => self.subtract(value),
            0x6 => self.add_mem(address),
            0x7 => self.subtract_mem(address),
            0x8 => self.increase(address),
            0x9 => self.decrease(address),
            0xA => self.jmp_inz(address),
            0xB => self.jmp_iz(address),
            0xC => self.jmp_ic(address),
            0xD => PCAction::Jump(address as usize),
            // 0x0 does nothing; 0xE and 0xF are kept for external devices.
            _ => PCAction::Step,
        };

        // Move the program counter
        match pc_op {
            PCAction::Step => {
                if self.pc + 1 > 4095 / 2 {
                    self.pc = 0
                } else {
                    self.pc += 1;
                }
            },
            PCAction::Jump(addr) => {
                if addr > 4095 / 2 {
                    self.pc = 0;
                } else {
                    self.pc = addr;
                }
            },
        }
    }

    /// Puts `value` into the accumulator.
    pub fn set_value(&mut self, value: u8) -> (action: PCAction)
        ensures
            final(self)@ == old(self)@.with_acc(value),
            action == PCAction::Step,
    {
        proof {
            use_type_invariant(&*self);
        }
        self.acc = value;
        PCAction::Step
    }

    /// Loads the byte at `address` into the accumulator.
    pub fn load(&mut self, address: u16) -> (action: PCAction)
        requires
            address < MEMORY_SIZE,
        ensures
            final(self)@ == old(self)@.with_acc(old(self)@.memory[address as int]),
            action == PCAction::Step,
    {
        proof {
            use_type_invariant(&*self);
        }
        self.acc = self.memory[address as usize];
        PCAction::Step
    }

    /// Saves the accumulator to the byte at `address`.
    pub fn save(&mut self, address: u16) -> (action: PCAction)
        requires
            address < MEMORY_SIZE,
        ensures
            final(self)@ == old(self)@.with_byte(address as int, old(self)@.acc),
            action == PCAction::Step,
    {
        proof {
            use_type_invariant(&*self);
        }
        self.memory[address as usize] = self.acc;
        PCAction::Step
    }

    /// Adds `value` to the accumulator, modulo 256. The carry flag is set if
    /// the sum does not fit in a byte and cleared otherwise.
    pub fn add(&mut self, value: u8) -> (action: PCAction)
        ensures
            final(self)@ == old(self)@.plus(value),
            action == PCAction::Step,
    {
        proof {
            use_type_invariant(&*self);
        }
        let res = sum_with_carry(self.acc, value);
        self.acc = res.0;
        self.carry = res.1;
        PCAction::Step
    }

    /// Subtracts `value` from the accumulator, modulo 256. The carry flag is
    /// set if the difference is negative and cleared otherwise.
    pub fn subtract(&mut self, value: u8) -> (action: PCAction)
        ensures
            final(self)@ == old(self)@.minus(value),
            action == PCAction::Step,
    {
        proof {
            use_type_invariant(&*self);
        }
        let res = difference_with_carry(self.acc, value);
        self.acc = res.0;
        self.carry = res.1;
        PCAction::Step
    }

    /// Adds the byte at `address` to the accumulator, as `add` does.
    pub fn add_mem(&mut self, address: u16) -> (action: PCAction)
        requires
            address < MEMORY_SIZE,
        ensures
            final(self)@ == old(self)@.plus(old(self)@.memory[address as int]),
            action == PCAction::Step,
    {
        proof {
            use_type_invariant(&*self);
        }
        let res = sum_with_carry(self.acc, self.memory[address as usize]);
        self.acc = res.0;
        self.carry = res.1;
        PCAction::Step
    }

    /// Subtracts the byte at `address` from the accumulator, as `subtract`
    /// does.
    pub fn subtract_mem(&mut self, address: u16) -> (action: PCAction)
        requires
            address < MEMORY_SIZE,
        ensures
            final(self)@ == old(self)@.minus(old(self)@.memory[address as int]),
            action == PCAction::Step,
    {
        proof {
            use_type_invariant(&*self);
        }
        let res = difference_with_carry(self.acc, self.memory[address as usize]);
        self.acc = res.0;
        self.carry = res.1;
        PCAction::Step
    }

    /// Raises the byte at `address` by one, modulo 256. The carry flag is
    /// set if the byte wrapped to 0 and cleared otherwise.
    pub fn increase(&mut self, address: u16) -> (action: PCAction)
        requires
            address < MEMORY_SIZE,
        ensures
            final(self)@ == old(self)@.incremented(address as int),
            action == PCAction::Step,
    {
        proof {
            use_type_invariant(&*self);
        }
        let res = sum_with_carry(self.memory[address as usize], 1);
        self.memory[address as usize] = res.0;
        self.carry = res.1;
        PCAction::Step
    }

    /// Lowers the byte at `address` by one, modulo 256. The carry flag is
    /// set if the byte wrapped to 255 and cleared otherwise.
    pub fn decrease(&mut self, address: u16) -> (action: PCAction)
        requires
            address < MEMORY_SIZE,
        ensures
            final(self)@ == old(self)@.decremented(address as int),
            action == PCAction::Step,
    {
        proof {
            use_type_invariant(&*self);
        }
        let res = difference_with_carry(self.memory[address as usize], 1);
        self.memory[address as usize] = res.0;
        self.carry = res.1;
        PCAction::Step
    }

    /// Jumps to `address` if the accumulator is not zero.
    pub fn jmp_inz(&mut self, address: u16) -> (action: PCAction)
        ensures
            final(self)@ == old(self)@,
            action == if old(self)@.acc != 0 {
                PCAction::Jump(address as usize)
            } else {
                PCAction::Step
            },
    {
        if self.acc != 0 {
            return PCAction::Jump(address as usize);
        }
        PCAction::Step
    }

    /// Jumps to `address` if the accumulator is zero.
    pub fn jmp_iz(&mut self, address: u16) -> (action: PCAction)
        ensures
            final(self)@ == old(self)@,
            action == if old(self)@.acc == 0 {
                PCAction::Jump(address as usize)
            } else {
                PCAction::Step
            },
    {
        if self.acc == 0 {
            return PCAction::Jump(address as usize);
        }
        PCAction::Step
    }

    /// Jumps to `address` if the carry flag is set, and clears the flag in
    /// that case: the flag is false afterwards either way.
    pub fn jmp_ic(&mut self, address: u16) -> (action: PCAction)
        ensures
            final(self)@ == old(self)@.with_carry(false),
            action == if old(self)@.carry {
                PCAction::Jump(address as usize)
            } else {
                PCAction::Step
            },
    {
        proof {
            use_type_invariant(&*self);
        }
        if self.carry {
            self.carry = false;
            return PCAction::Jump(address as usize);
        }
        PCAction::Step
    }
}

/// The sum of two bytes modulo 256, and whether it left the range of a byte.
fn sum_with_carry(a: u8, b: u8) -> (res: (u8, bool))
    ensures
        res.0 == wrapped_sum(a, b),
        res.1 == sum_overflows(a, b),
{
    let sum: u16 = a as u16 + b as u16;
    ((sum % 256) as u8, sum > 255)
}

/// The difference of two bytes modulo 256, and whether it is negative.
fn difference_with_carry(a: u8, b: u8) -> (res: (u8, bool))
    ensures
        res.0 == wrapped_difference(a, b),
        res.1 == difference_underflows(a, b),
{
    if a >= b {
        (a - b, false)
    } else {
        ((256 - (b as u16 - a as u16)) as u8, true)
    }
}

} // verus!
