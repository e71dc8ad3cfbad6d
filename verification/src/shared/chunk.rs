//! The bytecode container: code bytes, the constant pool, and one source
//! line for each code byte.
use vstd::prelude::*;
use crate::backend::vm::instruction::OpCode;
use crate::shared::value::Value;
use crate::shared::value::ValueView;
use crate::shared::value::views;
use crate::shared::text;

verus! {

/// The largest offset that a jump can hold.
pub const JUMP_MAX: usize = 255;

pub struct Chunk {
    pub code: Vec<u8>,
    pub constants: Vec<Value>,
    pub lines: Vec<usize>,
    /// Variable name and the index of its constant, each name once.
    pub globals: Vec<(String, usize)>,
}

pub struct ChunkView {
    pub code: Seq<u8>,
    pub constants: Seq<ValueView>,
    pub lines: Seq<usize>,
    pub globals: Seq<(Seq<char>, usize)>,
}

pub open spec fn global_views(globals: Seq<(String, usize)>) -> Seq<(Seq<char>, usize)> {
    globals.map_values(|entry: (String, usize)| (entry.0@, entry.1))
}

impl View for Chunk {
    type V = ChunkView;

    open spec fn view(&self) -> ChunkView {
        ChunkView {
            code: self.code@,
            constants: views(self.constants@),
            lines: self.lines@,
            globals: global_views(self.globals@),
        }
    }
}

/// The first place from `from` on where `constants` holds a value equal to
/// `value`, or the length of `constants` if there is none.
pub open spec fn position_from(constants: Seq<ValueView>, value: ValueView, from: int) -> int
    decreases constants.len() - from,
{
    if from >= constants.len() {
        constants.len() as int
    } else if constants[from].equals(value) {
        from
    } else {
        position_from(constants, value, from + 1)
    }
}

/// The first place where `globals` holds `name`, or the length of `globals`.
pub open spec fn name_position_from(globals: Seq<(Seq<char>, usize)>, name: Seq<char>, from: int) -> int
    decreases globals.len() - from,
{
    if from >= globals.len() {
        globals.len() as int
    } else if globals[from].0 == name {
        from
    } else {
        name_position_from(globals, name, from + 1)
    }
}

impl ChunkView {
    pub open spec fn empty() -> ChunkView {
        ChunkView { code: Seq::empty(), constants: Seq::empty(), lines: Seq::empty(), globals: Seq::empty() }
    }

    /// One line for each code byte, and no global name twice.
    pub open spec fn well_formed(self) -> bool {
        &&& self.lines.len() == self.code.len()
        &&& forall|i: int, j: int|
            0 <= i < j < self.globals.len() ==> self.globals[i].0 != self.globals[j].0
    }

    pub open spec fn write_byte(self, byte: u8, line: usize) -> ChunkView {
        ChunkView { code: self.code.push(byte), lines: self.lines.push(line), ..self }
    }

    pub open spec fn write_opcode(self, opcode: OpCode, line: usize) -> ChunkView {
        self.write_byte(opcode.byte(), line)
    }

    /// The slot of `value`: that of the first equal constant, or a new one
    /// at the end.
    pub open spec fn constant_slot(self, value: ValueView) -> int {
        position_from(self.constants, value, 0)
    }

    pub open spec fn add_constant(self, value: ValueView) -> ChunkView {
        if self.constant_slot(value) < self.constants.len() {
            self
        } else {
            ChunkView { constants: self.constants.push(value), ..self }
        }
    }

    /// The operand byte for a constant slot: the slot's low eight bits.
    pub open spec fn slot_byte(slot: int) -> u8 {
        (slot % 256) as u8
    }

    pub open spec fn write_constant(self, value: ValueView, line: usize) -> ChunkView {
        self.add_constant(value).write_opcode(OpCode::OpConstant, line).write_byte(
            Self::slot_byte(self.constant_slot(value)),
            line,
        )
    }

    /// A jump whose operand is at `offset` can be made to land at the end of
    /// the code.
    pub open spec fn can_patch(self, offset: int) -> bool {
        0 <= offset < self.code.len() && self.code.len() - offset - 1 <= JUMP_MAX
    }

    pub open spec fn patch_jump(self, offset: int) -> ChunkView {
        ChunkView { code: self.code.update(offset, (self.code.len() - offset - 1) as u8), ..self }
    }

    pub open spec fn emit_jump(self, opcode: OpCode, line: usize) -> ChunkView {
        self.write_opcode(opcode, line).write_byte(0, line)
    }

    /// A backward jump from the end of the code can reach `loop_start`.
    pub open spec fn can_loop(self, loop_start: int) -> bool {
        0 <= loop_start <= self.code.len() && self.code.len() - loop_start + 2 <= JUMP_MAX
    }

    pub open spec fn emit_loop(self, loop_start: int, line: usize) -> ChunkView {
        self.write_opcode(OpCode::OpLoop, line).write_byte((self.code.len() - loop_start + 2) as u8, line)
    }

    pub open spec fn name_slot(self, name: Seq<char>) -> int {
        name_position_from(self.globals, name, 0)
    }

    pub open spec fn define_global(self, name: Seq<char>, value: ValueView) -> ChunkView {
        let with_constant = self.add_constant(value);
        let entry = (name, self.constant_slot(value) as usize);
        let place = self.name_slot(name);
        if place < self.globals.len() {
            ChunkView { globals: self.globals.update(place, entry), ..with_constant }
        } else {
            ChunkView { globals: self.globals.push(entry), ..with_constant }
        }
    }

    pub open spec fn get_line(self, instruction: int) -> usize {
        if 0 <= instruction < self.lines.len() {
            self.lines[instruction]
        } else {
            0
        }
    }
}

/// The texts of a sequence of strings, one for one.
pub open spec fn texts(strings: Seq<String>) -> Seq<Seq<char>> {
    strings.map_values(|s: String| s@)
}

/// The most code that a listing numbers.
pub const LISTING_MAX: usize = 0x7FFF_0000;

impl ChunkView {
    /// The bytes that the listing takes an instruction to have: two for a
    /// constant and for the three jumps, one for every other byte.
    pub open spec fn listed_size(byte: u8) -> int {
        if byte == OpCode::OpConstant.byte() || byte == OpCode::OpJump.byte() || byte
            == OpCode::OpJumpIfFalse.byte() || byte == OpCode::OpLoop.byte() {
            2
        } else {
            1
        }
    }

    /// The listing finds the operand of every instruction it reads from
    /// `offset` on.
    pub open spec fn listable_from(self, offset: int) -> bool
        decreases self.code.len() - offset,
    {
        if offset < 0 || offset >= self.code.len() {
            true
        } else {
            offset + Self::listed_size(self.code[offset]) <= self.code.len() && self.listable_from(
                offset + Self::listed_size(self.code[offset]),
            )
        }
    }

    /// The chunk can be listed: each byte has its line, each instruction
    /// its operand, and the code is no longer than [`LISTING_MAX`].
    pub open spec fn listable(self) -> bool {
        self.lines.len() == self.code.len() && self.code.len() <= LISTING_MAX && self.listable_from(0)
    }

    /// The line of the instruction at `offset`, or a bar where it is the
    /// line of the byte before.
    pub open spec fn line_column(self, offset: int) -> Seq<char> {
        if offset > 0 && self.lines[offset] == self.lines[offset - 1] {
            "   | "@
        } else {
            text::padded_left(text::decimal(self.lines[offset] as nat), 4, ' ') + " "@
        }
    }

    /// The text of the constant in `slot`: its display form, with the
    /// host's text `written[slot]` for a number that is not integral, or
    /// nothing if there is no such constant.
    pub open spec fn constant_text(self, slot: int, written: Seq<Seq<char>>) -> Seq<char> {
        if 0 <= slot < self.constants.len() {
            self.constants[slot].to_text(
                if slot < written.len() {
                    written[slot]
                } else {
                    Seq::empty()
                },
            )
        } else {
            Seq::empty()
        }
    }

    /// What the listing says of the instruction at `offset`, behind the
    /// offset and the line.
    pub open spec fn instruction_text(self, offset: int, written: Seq<Seq<char>>) -> Seq<char> {
        let byte = self.code[offset];
        match OpCode::of_byte(byte) {
            None => "Unknown opcode "@ + text::decimal(byte as nat) + "\n"@,
            Some(opcode) => if Self::listed_size(byte) == 1 {
                opcode.name_text() + "\n"@
            } else {
                let operand = self.code[offset + 1];
                let head = text::padded_right(opcode.name_text(), 16) + " "@;
                if opcode == OpCode::OpConstant {
                    head + text::padded_left(text::decimal(operand as nat), 4, ' ') + " '"@ + self.constant_text(
                        operand as int,
                        written,
                    ) + "'\n"@
                } else {
                    head + text::padded_left(text::decimal(offset as nat), 4, ' ') + " -> "@ + text::signed_decimal(
                        if opcode == OpCode::OpLoop {
                            offset + 2 - operand
                        } else {
                            offset + 2 + operand
                        },
                    ) + "\n"@
                }
            },
        }
    }

    /// The lines of the listing from `offset` on, one for each
    /// instruction: the offset in four digits, the line, the instruction.
    pub open spec fn listing_from(self, offset: int, written: Seq<Seq<char>>) -> Seq<char>
        decreases self.code.len() - offset,
    {
        if offset < 0 || offset >= self.code.len() {
            Seq::empty()
        } else {
            text::padded_left(text::decimal(offset as nat), 4, '0') + " "@ + self.line_column(offset)
                + self.instruction_text(offset, written) + (if offset + Self::listed_size(self.code[offset])
                <= self.code.len() {
                self.listing_from(offset + Self::listed_size(self.code[offset]), written)
            } else {
                Seq::empty()
            })
        }
    }

    /// The listing of the chunk under the heading `name`.
    pub open spec fn disassemble(self, name: Seq<char>, written: Seq<Seq<char>>) -> Seq<char> {
        "== "@ + name + " ==\n"@ + self.listing_from(0, written)
    }
}

/// The search for a constant finds the first equal one, and nothing before
/// it is equal.
pub proof fn position_is_first(constants: Seq<ValueView>, value: ValueView, from: int)
    requires
        0 <= from <= constants.len(),
    ensures
        from <= position_from(constants, value, from) <= constants.len(),
        position_from(constants, value, from) < constants.len() ==> constants[position_from(
            constants,
            value,
            from,
        )].equals(value),
        forall|i: int| from <= i < position_from(constants, value, from) ==> !(#[trigger] constants[i]).equals(value),
    decreases constants.len() - from,
{
    if from < constants.len() && !constants[from].equals(value) {
        position_is_first(constants, value, from + 1);
    }
}

proof fn name_position_props(globals: Seq<(Seq<char>, usize)>, name: Seq<char>, from: int)
    requires
        0 <= from <= globals.len(),
    ensures
        from <= name_position_from(globals, name, from) <= globals.len(),
        name_position_from(globals, name, from) < globals.len() ==> globals[name_position_from(
            globals,
            name,
            from,
        )].0 == name,
        forall|i: int| from <= i < name_position_from(globals, name, from) ==> (#[trigger] globals[i]).0 != name,
    decreases globals.len() - from,
{
    if from < globals.len() && globals[from].0 != name {
        name_position_props(globals, name, from + 1);
    }
}

impl Chunk {
    pub fn new() -> (chunk: Chunk)
        ensures
            chunk@ == ChunkView::empty(),
            chunk@.well_formed(),
    {
        let chunk = Chunk { code: Vec::new(), constants: Vec::new(), lines: Vec::new(), globals: Vec::new() };
        assert(chunk@.constants =~= Seq::empty());
        assert(chunk@.globals =~= Seq::empty());
        chunk
    }

    pub fn write_byte(&mut self, byte: u8, line: usize)
        ensures
            final(self)@ == old(self)@.write_byte(byte, line),
            old(self)@.well_formed() ==> final(self)@.well_formed(),
    {
        self.code.push(byte);
        self.lines.push(line);
        assert(self@.globals == old(self)@.globals);
    }

    pub fn write_opcode(&mut self, opcode: OpCode, line: usize)
        ensures
            final(self)@ == old(self)@.write_opcode(opcode, line),
            old(self)@.well_formed() ==> final(self)@.well_formed(),
    {
        self.write_byte(opcode.to_byte(), line);
    }

    /// The slot of a constant equal to `value`: the first one that the pool
    /// holds, or a new one at its end.
    pub fn add_constant(&mut self, value: Value) -> (slot: usize)
        ensures
            slot == old(self)@.constant_slot(value@),
            final(self)@ == old(self)@.add_constant(value@),
    {
        let mut i: usize = 0;
        while i < self.constants.len()
            invariant
                i <= self.constants.len(),
                *self == *old(self),
                position_from(self@.constants, value@, 0) == position_from(self@.constants, value@, i as int),
            decreases self.constants.len() - i,
        {
            if self.constants[i] == value {
                return i;
            }
            i = i + 1;
        }
        self.constants.push(value);
        assert(self@.constants =~= old(self)@.constants.push(value@));
        i
    }

    /// Adds `value` to the pool and writes the instruction that loads it.
    /// The operand is the low eight bits of the slot.
    pub fn write_constant(&mut self, value: Value, line: usize) -> (slot: usize)
        ensures
            slot == old(self)@.constant_slot(value@),
            final(self)@ == old(self)@.write_constant(value@, line),
    {
        let slot = self.add_constant(value);
        self.write_opcode(OpCode::OpConstant, line);
        self.write_byte((slot % 256) as u8, line);
        slot
    }

    /// Makes the jump whose operand is at `offset` land at the end of the
    /// code.
    pub fn patch_jump(&mut self, offset: usize)
        requires
            old(self)@.can_patch(offset as int),
        ensures
            final(self)@ == old(self)@.patch_jump(offset as int),
    {
        let jump: usize = self.code.len() - offset - 1;
        self.code[offset] = jump as u8;
    }

    /// Writes a jump with an empty operand and returns where the operand is.
    pub fn emit_jump(&mut self, opcode: OpCode, line: usize) -> (offset: usize)
        ensures
            final(self)@ == old(self)@.emit_jump(opcode, line),
            offset == old(self)@.code.len() + 1,
    {
        self.write_opcode(opcode, line);
        self.write_byte(0, line);
        self.code.len() - 1
    }

    /// Writes the backward jump that lands on `loop_start`.
    pub fn emit_loop(&mut self, loop_start: usize, line: usize)
        requires
            old(self)@.can_loop(loop_start as int),
        ensures
            final(self)@ == old(self)@.emit_loop(loop_start as int, line),
    {
        self.write_opcode(OpCode::OpLoop, line);
        let offset: usize = self.code.len() - loop_start + 1;
        self.write_byte(offset as u8, line);
    }

    /// Adds `value` to the pool and binds `name` to its slot.
    pub fn define_global(&mut self, name: String, value: Value) -> (slot: usize)
        requires
            old(self)@.well_formed(),
        ensures
            slot == old(self)@.constant_slot(value@),
            final(self)@ == old(self)@.define_global(name@, value@),
            final(self)@.well_formed(),
    {
        let slot = self.add_constant(value);
        let ghost globals = self@.globals;
        let mut i: usize = 0;
        while i < self.globals.len()
            invariant
                i <= self.globals.len(),
                self@ == old(self)@.add_constant(value@),
                slot == old(self)@.constant_slot(value@),
                self@.well_formed(),
                globals == self@.globals,
                globals == old(self)@.globals,
                name_position_from(globals, name@, 0) == name_position_from(globals, name@, i as int),
            decreases self.globals.len() - i,
        {
            if *text_of(&self.globals[i]) == name {
                self.globals[i] = (name, slot);
                proof {
                    assert(self@.globals =~= globals.update(i as int, (name@, slot)));
                    assert(name_position_from(globals, name@, i as int) == i);
                }
                return slot;
            }
            i = i + 1;
        }
        proof {
            name_position_props(globals, name@, 0);
        }
        self.globals.push((name, slot));
        assert(self@.globals =~= globals.push((name@, slot)));
        slot
    }

    /// The source line of the code byte at `instruction`, or 0 beyond the
    /// code.
    pub fn get_line(&self, instruction: usize) -> (line: usize)
        ensures
            line == self@.get_line(instruction as int),
    {
        if instruction < self.lines.len() {
            self.lines[instruction]
        } else {
            0
        }
    }

    /// Whether the chunk can be listed.
    pub fn is_listable(&self) -> (r: bool)
        ensures
            r == self@.listable(),
    {
        if self.lines.len() != self.code.len() || self.code.len() > LISTING_MAX {
            return false;
        }
        let mut offset: usize = 0;
        while offset < self.code.len()
            invariant
                self.code.len() <= LISTING_MAX,
                self@.listable_from(0) == self@.listable_from(offset as int),
            decreases self.code.len() - offset,
        {
            let size: usize = listed_size_of(self.code[offset]);
            if offset + size > self.code.len() {
                return false;
            }
            offset = offset + size;
        }
        true
    }

    /// A listing of the chunk under the heading `name`, one line for each
    /// instruction. `written` holds, for each constant that is a number
    /// without an integral value, the host's text of it in the constant's
    /// slot.
    pub fn disassemble(&self, name: &str, written: &Vec<String>) -> (listing: String)
        requires
            self@.listable(),
        ensures
            listing@ == self@.disassemble(name@, texts(written@)),
    {
        let mut result = String::from_str("== ");
        result.append(name);
        result.append(" ==\n");
        let ghost head = result@;
        let mut offset: usize = 0;
        while offset < self.code.len()
            invariant
                self@.lines.len() == self@.code.len(),
                self.code.len() <= LISTING_MAX,
                self@.listable_from(offset as int),
                result@ + self@.listing_from(offset as int, texts(written@)) == head + self@.listing_from(
                    0,
                    texts(written@),
                ),
            decreases self.code.len() - offset,
        {
            let ghost before = result@;
            let ghost rest = self@.listing_from(
                offset + ChunkView::listed_size(self.code@[offset as int]),
                texts(written@),
            );
            let next = self.disassemble_instruction(offset, &mut result, written);
            proof {
                let line = text::padded_left(text::decimal(offset as nat), 4, '0') + " "@ + self@.line_column(
                    offset as int,
                ) + self@.instruction_text(offset as int, texts(written@));
                assert(self@.listing_from(offset as int, texts(written@)) == line + rest);
                assert(result@ + rest =~= before + (line + rest));
            }
            offset = next;
        }
        proof {
            assert(result@ + Seq::<char>::empty() =~= result@);
            assert(head + self@.listing_from(0, texts(written@)) =~= self@.disassemble(name@, texts(written@)));
        }
        result
    }

    /// Appends the line of the instruction at `offset` and returns the
    /// offset of the next one.
    fn disassemble_instruction(&self, offset: usize, result: &mut String, written: &Vec<String>) -> (next: usize)
        requires
            self@.lines.len() == self@.code.len(),
            offset < self@.code.len() <= LISTING_MAX,
            offset + ChunkView::listed_size(self@.code[offset as int]) <= self@.code.len(),
        ensures
            next == offset + ChunkView::listed_size(self@.code[offset as int]),
            final(result)@ == old(result)@ + text::padded_left(text::decimal(offset as nat), 4, '0') + " "@
                + self@.line_column(offset as int) + self@.instruction_text(offset as int, texts(written@)),
    {
        self.line_head(offset, result);
        self.instruction_tail(offset, result, written)
    }

    /// Appends the offset and the line of the instruction at `offset`.
    fn line_head(&self, offset: usize, result: &mut String)
        requires
            self@.lines.len() == self@.code.len(),
            offset < self@.code.len(),
        ensures
            final(result)@ == old(result)@ + text::padded_left(text::decimal(offset as nat), 4, '0') + " "@
                + self@.line_column(offset as int),
    {
        text::push_padded(result, offset as u64, 4, '0');
        result.append(" ");
        if offset > 0 && self.lines[offset] == self.lines[offset - 1] {
            result.append("   | ");
        } else {
            let ghost numbered = result@;
            text::push_padded(result, self.lines[offset] as u64, 4, ' ');
            result.append(" ");
            assert(result@ =~= numbered + self@.line_column(offset as int));
        }
    }

    /// Appends what the listing says of the instruction at `offset`.
    fn instruction_tail(&self, offset: usize, result: &mut String, written: &Vec<String>) -> (next: usize)
        requires
            offset < self@.code.len() <= LISTING_MAX,
            offset + ChunkView::listed_size(self@.code[offset as int]) <= self@.code.len(),
        ensures
            next == offset + ChunkView::listed_size(self@.code[offset as int]),
            final(result)@ == old(result)@ + self@.instruction_text(offset as int, texts(written@)),
    {
        let instruction: u8 = self.code[offset];
        match OpCode::from_byte(instruction) {
            Some(opcode) => {
                if listed_size_of(instruction) == 1 {
                    self.simple_instruction(opcode.name(), offset, result)
                } else if instruction == 0 {
                    assert(opcode == OpCode::OpConstant);
                    self.constant_instruction(opcode.name(), offset, result, written)
                } else {
                    assert(opcode != OpCode::OpConstant);
                    assert(opcode == OpCode::OpLoop <==> instruction == 26);
                    self.jump_instruction(opcode.name(), instruction == 26, offset, result)
                }
            },
            None => {
                result.append("Unknown opcode ");
                text::push_decimal(result, instruction as u64);
                result.append("\n");
                offset + 1
            },
        }
    }

    fn simple_instruction(&self, name: &str, offset: usize, result: &mut String) -> (next: usize)
        requires
            offset < LISTING_MAX,
        ensures
            next == offset + 1,
            final(result)@ == old(result)@ + name@ + "\n"@,
    {
        result.append(name);
        result.append("\n");
        offset + 1
    }

    fn constant_instruction(&self, name: &str, offset: usize, result: &mut String, written: &Vec<String>) -> (next:
        usize)
        requires
            offset + 1 < self@.code.len() <= LISTING_MAX,
        ensures
            next == offset + 2,
            final(result)@ == old(result)@ + text::padded_right(name@, 16) + " "@ + text::padded_left(
                text::decimal(self@.code[offset + 1] as nat),
                4,
                ' ',
            ) + " '"@ + self@.constant_text(self@.code[offset + 1] as int, texts(written@)) + "'\n"@,
    {
        let constant: usize = self.code[offset + 1] as usize;
        text::push_left_aligned(result, name, 16);
        result.append(" ");
        text::push_padded(result, constant as u64, 4, ' ');
        result.append(" '");
        if constant < self.constants.len() {
            let shown: String = if constant < written.len() {
                self.constants[constant].to_string(written[constant].as_str())
            } else {
                proof {
                    reveal_strlit("");
                    assert(""@ =~= Seq::<char>::empty());
                }
                self.constants[constant].to_string("")
            };
            result.append(shown.as_str());
        }
        let ghost valued = result@;
        result.append("'\n");
        proof {
            assert(valued =~= old(result)@ + text::padded_right(name@, 16) + " "@ + text::padded_left(
                text::decimal(self@.code[offset + 1] as nat),
                4,
                ' ',
            ) + " '"@ + self@.constant_text(self@.code[offset + 1] as int, texts(written@)));
        }
        offset + 2
    }

    fn jump_instruction(&self, name: &str, backward: bool, offset: usize, result: &mut String) -> (next: usize)
        requires
            offset + 1 < self@.code.len() <= LISTING_MAX,
        ensures
            next == offset + 2,
            final(result)@ == old(result)@ + text::padded_right(name@, 16) + " "@ + text::padded_left(
                text::decimal(offset as nat),
                4,
                ' ',
            ) + " -> "@ + text::signed_decimal(
                if backward {
                    offset + 2 - self@.code[offset + 1]
                } else {
                    offset + 2 + self@.code[offset + 1]
                },
            ) + "\n"@,
    {
        let jump: i64 = self.code[offset + 1] as i64;
        let target: i64 = if backward {
            offset as i64 + 2 - jump
        } else {
            offset as i64 + 2 + jump
        };
        text::push_left_aligned(result, name, 16);
        result.append(" ");
        text::push_padded(result, offset as u64, 4, ' ');
        result.append(" -> ");
        let shown: String = text::format_signed(target);
        result.append(shown.as_str());
        result.append("\n");
        offset + 2
    }
}

fn listed_size_of(byte: u8) -> (size: usize)
    ensures
        size == ChunkView::listed_size(byte),
{
    if byte == 0 || byte == 24 || byte == 25 || byte == 26 {
        2
    } else {
        1
    }
}

fn text_of(entry: &(String, usize)) -> (name: &String)
    ensures
        name@ == entry.0@,
{
    &entry.0
}

impl Default for Chunk {
    fn default() -> (chunk: Chunk)
        ensures
            chunk@ == ChunkView::empty(),
    {
        Chunk::new()
    }
}

} // verus!
