//! The executable machine: its state and the instruction engine.

use vstd::prelude::*;

use crate::model::{
    alu, called, cleared_screen, draw_collides, draw_instruction, drawn, drawn_rows,
    initial_state, key_skip, key_wait, last_pressed, loaded_registers, max_rom_len, opcode_at,
    returned, skip_when, sprite_bit, sprite_covers, step_taken, stored_bcd,
    stored_registers, ticked, with_pc, with_register, with_rom, Chip8Error,
    MachineState, StepStatus, FLAG_REGISTER, MEMORY_SIZE, PROGRAM_START, REGISTER_COUNT,
    SCREEN_SIZE,
};

verus! {

/// A CHIP-8 machine: memory, framebuffer, registers, keypad, call stack and
/// timers, all owned by one value.
#[derive(Debug)]
pub struct Chip8CPU {
    memory: Vec<u8>,
    vram: Vec<u16>,
    registers: Vec<u8>,
    curr_keys: Vec<bool>,
    old_keys: Vec<bool>,
    call_stack: Vec<u16>,
    i: u16,
    pc: u16,
    delay_timer: u8,
    sound_timer: u8,
}

impl View for Chip8CPU {
    type V = MachineState;

    closed spec fn view(&self) -> MachineState {
        MachineState {
            memory: self.memory@,
            vram: self.vram@,
            registers: self.registers@,
            keys: self.curr_keys@,
            old_keys: self.old_keys@,
            stack: self.call_stack@,
            i: self.i,
            pc: self.pc,
            delay_timer: self.delay_timer,
            sound_timer: self.sound_timer,
        }
    }
}

impl Chip8CPU {
    /// The machine's invariant.
    pub open spec fn wf(&self) -> bool {
        self@.wf()
    }

    /// A machine with memory, framebuffer, registers, keys and timers zeroed,
    /// an empty call stack, and the program counter at the program origin.
    pub fn initialize() -> (cpu: Chip8CPU)
        ensures
            cpu.wf(),
            cpu@ == initial_state(),
    {
        let cpu = Chip8CPU {
            memory: vec![0; MEMORY_SIZE],
            vram: vec![0; SCREEN_SIZE],
            registers: vec![0; REGISTER_COUNT],
            curr_keys: vec![false; REGISTER_COUNT],
            old_keys: vec![false; REGISTER_COUNT],
            call_stack: vec![],
            i: 0,
            pc: PROGRAM_START,
            delay_timer: 0,
            sound_timer: 0,
        };
        assert(cpu@.memory =~= initial_state().memory);
        assert(cpu@.vram =~= initial_state().vram);
        assert(cpu@.registers =~= initial_state().registers);
        assert(cpu@.keys =~= initial_state().keys);
        assert(cpu@.old_keys =~= initial_state().old_keys);
        assert(cpu@.stack =~= initial_state().stack);
        cpu
    }

    /// Moves both timers one tick towards zero; neither goes below zero.
    pub fn decrease_timers_value(&mut self)
        requires
            old(self).wf(),
        ensures
            final(self).wf(),
            final(self)@ == ticked(old(self)@),
    {
        if self.delay_timer > 0 {
            self.delay_timer -= 1;
        }
        if self.sound_timer > 0 {
            self.sound_timer -= 1;
        }
    }

    /// The sound timer; the host beeps while it is above zero.
    pub fn get_sound_timer_value(&mut self) -> (v: u8)
        ensures
            v == old(self)@.sound_timer,
            *final(self) == *old(self),
    {
        self.sound_timer
    }

    /// Executes one instruction, drawing a random byte for `CXNN`.
    pub fn run(&mut self) -> (r: Result<StepStatus, Chip8Error>)
        requires
            old(self).wf(),
        ensures
            final(self).wf(),
            exists|random: u8| step_taken(old(self)@, random, final(self)@, r),
    {
        let random = random_byte();
        self.run_with_random_byte(random)
    }

    /// Executes one instruction, with `random` as the byte that `CXNN` draws.
    ///
    /// The opcode is the two bytes at the program counter, high byte first;
    /// the program counter moves past it before the instruction takes effect.
    /// Opcodes outside the instruction set (`0NNN` other than `00E0` and
    /// `00EE`, among them `0000`) have no other effect. A wait-for-key instruction with no key pressed
    /// leaves the program counter on itself and reports `WaitingForKey`. On an
    /// error the machine is left as it was.
    pub fn run_with_random_byte(&mut self, random: u8) -> (r: Result<StepStatus, Chip8Error>)
        requires
            old(self).wf(),
        ensures
            final(self).wf(),
            step_taken(old(self)@, random, final(self)@, r),
    {
        let pc_before = self.pc;
        if pc_before as usize + 1 >= MEMORY_SIZE {
            return Err(Chip8Error::ProgramCounterOutOfBounds);
        }
        let first_byte = self.memory[pc_before as usize];
        let second_byte = self.memory[pc_before as usize + 1];

        let current_instruction_binary = ((first_byte as u16) << 8) | second_byte as u16;

        let nnn = current_instruction_binary & 0x0FFF;
        let nn = second_byte;
        let n = current_instruction_binary & 0xF;

        let leading_nibble = (current_instruction_binary >> 12) & 0xF;
        let register_x = ((current_instruction_binary >> 8) & 0xF) as usize;
        let register_y = ((current_instruction_binary >> 4) & 0xF) as usize;

        let ghost op = opcode_at(self@.memory, pc_before as int);
        proof {
            lemma_decode(first_byte, second_byte);
        }

        self.pc = pc_before + 0x2;
        let ghost t = self@;

        let mut should_halt = false;

        let result: Result<(), Chip8Error> = match leading_nibble {
            0x0 => match nnn {
                0x0E0 => {
                    self.clear_screen();
                    Ok(())
                },
                0x0EE => self.remove_from_call_stack_and_get_address(),
                _ => Ok(()),
            },
            0x1 => {
                self.set_pointer(nnn);
                Ok(())
            },
            0x2 => {
                self.add_address_to_call_stack(nnn);
                Ok(())
            },
            0x3 => {
                self.skip_if_equal_to_register(register_x, nn);
                Ok(())
            },
            0x4 => {
                self.skip_if_different_from_register(register_x, nn);
                Ok(())
            },
            0x5 => {
                self.skip_if_both_registers_are_equal(register_x, register_y);
                Ok(())
            },
            0x6 => {
                self.set_value_to_register(register_x, nn);
                Ok(())
            },
            0x7 => {
                self.add_with_value_then_save(register_x, nn);
                Ok(())
            },
            0x8 => {
                match n {
                    0x0 => self.replace_x_with_y(register_x, register_y),
                    0x1 => self.set_register_x_to_binary_OR_from_both_registers(register_x, register_y),
                    0x2 => self.set_register_x_to_binary_AND_from_both_registers(register_x, register_y),
                    0x3 => self.set_register_x_to_binary_XOR_from_both_registers(register_x, register_y),
                    0x4 => self.add_registers_with_overflow_carry(register_x, register_y),
                    0x5 => self.subtract_registers_with_overflow_borrow(register_x, register_y),
                    0x6 => self.binary_shift_register_value_and_save_least_significant(register_x, register_y),
                    0x7 => self.minus_register_and_check_if_has_borrow(register_y, register_x),
                    0xE => self.binary_shift_register_value_and_save_most_significant(register_x, register_y),
                    _ => {},
                }
                Ok(())
            },
            0x9 => {
                self.skip_if_registers_values_are_different(register_x, register_y);
                Ok(())
            },
            0xA => {
                self.set_i_to_address(nnn);
                Ok(())
            },
            0xB => {
                self.set_pc_to_register_value_plus_address(nnn);
                Ok(())
            },
            0xC => {
                self.generate_and_register_random_number(register_x, nn, random);
                Ok(())
            },
            0xD => self.register_to_vram(register_x, register_y, n),
            0xE => match nn {
                0x9E => self.skip_if_key_vx_is_pressed(register_x),
                0xA1 => self.skip_if_key_vx_is_released(register_x),
                _ => Ok(()),
            },
            _ => match nn {
                0x07 => {
                    self.store_current_delay_value_to_x(register_x);
                    Ok(())
                },
                0x0A => {
                    should_halt = !self.wait_until_key_press(register_x);
                    Ok(())
                },
                0x15 => {
                    self.set_delay_timer_value(register_x);
                    Ok(())
                },
                0x18 => {
                    self.set_sound_timer_value(register_x);
                    Ok(())
                },
                0x1E => {
                    self.set_i_to_sum_of_itself_with_register_value(register_x);
                    Ok(())
                },
                0x33 => self.binary_coded_decimal(register_x),
                0x55 => self.copy_register_data_to_i_place(register_x),
                0x65 => self.copy_register_data_from_i_place(register_x),
                _ => Ok(()),
            },
        };

        match result {
            Err(e) => {
                self.pc = pc_before;
                Err(e)
            },
            Ok(()) => {
                if should_halt {
                    self.pc = self.pc - 0x2;
                    Ok(StepStatus::WaitingForKey)
                } else {
                    Ok(StepStatus::Running)
                }
            },
        }
    }

    /// Copies `rom_data` into memory from the program origin on; the rest of
    /// the machine is left as it is. A ROM longer than the memory above the
    /// origin is refused, and nothing changes.
    pub fn load_rom(&mut self, rom_data: Vec<u8>) -> (r: Result<(), Chip8Error>)
        requires
            old(self).wf(),
        ensures
            final(self).wf(),
            rom_data@.len() <= max_rom_len() ==> r is Ok && final(self)@ == with_rom(old(self)@, rom_data@),
            rom_data@.len() > max_rom_len() ==> r == Err::<(), Chip8Error>(Chip8Error::RomTooLarge)
                && final(self)@ == old(self)@,
    {
        let start = PROGRAM_START as usize;
        if rom_data.len() > MEMORY_SIZE - start {
            return Err(Chip8Error::RomTooLarge);
        }
        let ghost s = self@;
        let mut index: usize = 0;
        while index < rom_data.len()
            invariant
                s.wf(),
                start == PROGRAM_START,
                rom_data@.len() <= max_rom_len(),
                index <= rom_data@.len(),
                self.memory@.len() == MEMORY_SIZE,
                self@ == (MachineState { memory: self.memory@, ..s }),
                forall|a: int|
                    0 <= a < MEMORY_SIZE ==> #[trigger] self.memory@[a] == if start <= a < start + index {
                        rom_data@[a - start]
                    } else {
                        s.memory[a]
                    },
            decreases rom_data@.len() - index,
        {
            self.memory.set(index + start, rom_data[index]);
            index += 1;
        }
        assert(self@.memory =~= with_rom(s, rom_data@).memory);
        Ok(())
    }

    /// Updates the keypad from one frame of host input: key `k` is pressed
    /// exactly when `down[k]` holds, `down` being indexed by key number.
    pub fn register_current_pressed_keys(&mut self, down: &[bool])
        requires
            old(self).wf(),
            down@.len() == REGISTER_COUNT,
        ensures
            final(self).wf(),
            final(self)@ == (MachineState { keys: down@, ..old(self)@ }),
    {
        let ghost s = self@;
        let mut index: usize = 0;
        while index < REGISTER_COUNT
            invariant
                s.wf(),
                down@.len() == REGISTER_COUNT,
                index <= REGISTER_COUNT,
                self.curr_keys@.len() == REGISTER_COUNT,
                self@ == (MachineState { keys: self.curr_keys@, ..s }),
                forall|k: int|
                    0 <= k < REGISTER_COUNT ==> #[trigger] self.curr_keys@[k] == if k < index {
                        down@[k]
                    } else {
                        s.keys[k]
                    },
            decreases REGISTER_COUNT - index,
        {
            self.curr_keys.set(index, down[index]);
            index += 1;
        }
        assert(self@.keys =~= down@);
    }

    /// Keeps the current key states as the previous frame's.
    pub fn clone_current_to_old_keys(&mut self)
        requires
            old(self).wf(),
        ensures
            final(self).wf(),
            final(self)@ == (MachineState { old_keys: old(self)@.keys, ..old(self)@ }),
    {
        self.old_keys = self.curr_keys.clone();
        assert(self@.old_keys =~= old(self)@.keys);
    }

    /// The framebuffer, row by row: cell `x + 64 * y` is 1 when that pixel is set.
    pub fn get_display_data(&self) -> (pixels: &[u16])
        ensures
            pixels@ == self@.vram,
    {
        self.vram.as_slice()
    }

    /// The value of register `register`.
    pub fn get_register_value(&self, register: usize) -> (v: u8)
        requires
            self.wf(),
            register < REGISTER_COUNT,
        ensures
            v == self@.registers[register as int],
    {
        self.registers[register]
    }

    /// The program counter.
    pub fn get_program_counter(&self) -> (pc: u16)
        ensures
            pc == self@.pc,
    {
        self.pc
    }

    /// The index register `I`.
    pub fn get_index_register(&self) -> (i: u16)
        ensures
            i == self@.i,
    {
        self.i
    }

    /// The delay timer.
    pub fn get_delay_timer_value(&self) -> (v: u8)
        ensures
            v == self@.delay_timer,
    {
        self.delay_timer
    }

    /// The memory cell at `address`, or `None` past the end of memory.
    pub fn read_memory(&self, address: usize) -> (v: Option<u8>)
        requires
            self.wf(),
        ensures
            address < MEMORY_SIZE ==> v == Some(self@.memory[address as int]),
            address >= MEMORY_SIZE ==> v is None,
    {
        if address < MEMORY_SIZE {
            Some(self.memory[address])
        } else {
            None
        }
    }

    /// Whether key `key` is pressed.
    pub fn is_key_pressed(&self, key: usize) -> (pressed: bool)
        requires
            self.wf(),
            key < REGISTER_COUNT,
        ensures
            pressed == self@.keys[key as int],
    {
        self.curr_keys[key]
    }

    /// `00E0`: clears every framebuffer cell.
    fn clear_screen(&mut self)
        requires
            old(self).wf(),
        ensures
            final(self).wf(),
            final(self)@ == cleared_screen(old(self)@),
    {
        self.vram = vec![0; SCREEN_SIZE];
        assert(self@.vram =~= cleared_screen(old(self)@).vram);
    }

    /// `00EE`: pops the last return address into the program counter.
    fn remove_from_call_stack_and_get_address(&mut self) -> (r: Result<(), Chip8Error>)
        requires
            old(self).wf(),
        ensures
            final(self).wf(),
            match returned(old(self)@) {
                Ok(t) => r is Ok && final(self)@ == t,
                Err(e) => r == Err::<(), Chip8Error>(e) && final(self)@ == old(self)@,
            },
    {
        match self.call_stack.pop() {
            Some(address) => {
                self.pc = address;
                Ok(())
            },
            None => Err(Chip8Error::StackUnderflow),
        }
    }

    /// `1NNN`: jumps to `nnn`.
    fn set_pointer(&mut self, nnn: u16)
        requires
            old(self).wf(),
        ensures
            final(self).wf(),
            final(self)@ == with_pc(old(self)@, nnn as int),
    {
        self.pc = nnn;
    }

    /// `2NNN`: pushes the current program counter and jumps to `nnn`.
    fn add_address_to_call_stack(&mut self, nnn: u16)
        requires
            old(self).wf(),
        ensures
            final(self).wf(),
            final(self)@ == called(old(self)@, nnn as int),
    {
        self.call_stack.push(self.pc);
        self.pc = nnn;
    }

    /// `3XNN`: skips the next instruction when `VX == nn`.
    fn skip_if_equal_to_register(&mut self, register_x: usize, nn: u8)
        requires
            old(self).wf(),
            register_x < REGISTER_COUNT,
            old(self)@.pc <= 0xFFFD,
        ensures
            final(self).wf(),
            final(self)@ == skip_when(old(self)@, old(self)@.reg(register_x as int) == nn),
    {
        if self.registers[register_x] == nn {
            self.pc = self.pc + 2;
        }
    }

    /// `4XNN`: skips the next instruction when `VX != nn`.
    fn skip_if_different_from_register(&mut self, register_x: usize, nn: u8)
        requires
            old(self).wf(),
            register_x < REGISTER_COUNT,
            old(self)@.pc <= 0xFFFD,
        ensures
            final(self).wf(),
            final(self)@ == skip_when(old(self)@, old(self)@.reg(register_x as int) != nn),
    {
        if self.registers[register_x] != nn {
            self.pc = self.pc + 2;
        }
    }

    /// `5XY0`: skips the next instruction when `VX == VY`.
    fn skip_if_both_registers_are_equal(&mut self, register_x: usize, register_y: usize)
        requires
            old(self).wf(),
            register_x < REGISTER_COUNT,
            register_y < REGISTER_COUNT,
            old(self)@.pc <= 0xFFFD,
        ensures
            final(self).wf(),
            final(self)@ == skip_when(
                old(self)@,
                old(self)@.reg(register_x as int) == old(self)@.reg(register_y as int),
            ),
    {
        if self.registers[register_x] == self.registers[register_y] {
            self.pc = self.pc + 2;
        }
    }

    /// `9XY0`: skips the next instruction when `VX != VY`.
    fn skip_if_registers_values_are_different(&mut self, register_x: usize, register_y: usize)
        requires
            old(self).wf(),
            register_x < REGISTER_COUNT,
            register_y < REGISTER_COUNT,
            old(self)@.pc <= 0xFFFD,
        ensures
            final(self).wf(),
            final(self)@ == skip_when(
                old(self)@,
                old(self)@.reg(register_x as int) != old(self)@.reg(register_y as int),
            ),
    {
        if self.registers[register_x] != self.registers[register_y] {
            self.pc = self.pc + 2;
        }
    }

    /// `6XNN`: `VX = nn`.
    pub fn set_value_to_register(&mut self, register_x: usize, nn: u8)
        requires
            old(self).wf(),
            register_x < REGISTER_COUNT,
        ensures
            final(self).wf(),
            final(self)@ == with_register(old(self)@, register_x as int, nn as int),
    {
        self.registers.set(register_x, nn);
    }

    /// `7XNN`: `VX = VX + nn`, wrapping at 256; `VF` is left alone.
    fn add_with_value_then_save(&mut self, register_x: usize, nn: u8)
        requires
            old(self).wf(),
            register_x < REGISTER_COUNT,
        ensures
            final(self).wf(),
            final(self)@ == with_register(
                old(self)@,
                register_x as int,
                (old(self)@.reg(register_x as int) + nn) % 256,
            ),
    {
        let v = self.registers[register_x].wrapping_add(nn);
        self.registers.set(register_x, v);
    }

    /// `8XY0`: `VX = VY`.
    fn replace_x_with_y(&mut self, register_x: usize, register_y: usize)
        requires
            old(self).wf(),
            register_x < REGISTER_COUNT,
            register_y < REGISTER_COUNT,
        ensures
            final(self).wf(),
            final(self)@ == alu(old(self)@, register_x as int, register_y as int, 0),
    {
        let v = self.registers[register_y];
        self.registers.set(register_x, v);
    }

    /// `8XY1`: `VX = VX | VY`.
    #[allow(non_snake_case)]
    fn set_register_x_to_binary_OR_from_both_registers(&mut self, register_x: usize, register_y: usize)
        requires
            old(self).wf(),
            register_x < REGISTER_COUNT,
            register_y < REGISTER_COUNT,
        ensures
            final(self).wf(),
            final(self)@ == alu(old(self)@, register_x as int, register_y as int, 1),
    {
        let v = self.registers[register_x] | self.registers[register_y];
        self.registers.set(register_x, v);
    }

    /// `8XY2`: `VX = VX & VY`.
    #[allow(non_snake_case)]
    fn set_register_x_to_binary_AND_from_both_registers(&mut self, register_x: usize, register_y: usize)
        requires
            old(self).wf(),
            register_x < REGISTER_COUNT,
            register_y < REGISTER_COUNT,
        ensures
            final(self).wf(),
            final(self)@ == alu(old(self)@, register_x as int, register_y as int, 2),
    {
        let v = self.registers[register_x] & self.registers[register_y];
        self.registers.set(register_x, v);
    }

    /// `8XY3`: `VX = VX ^ VY`.
    #[allow(non_snake_case)]
    fn set_register_x_to_binary_XOR_from_both_registers(&mut self, register_x: usize, register_y: usize)
        requires
            old(self).wf(),
            register_x < REGISTER_COUNT,
            register_y < REGISTER_COUNT,
        ensures
            final(self).wf(),
            final(self)@ == alu(old(self)@, register_x as int, register_y as int, 3),
    {
        let v = self.registers[register_x] ^ self.registers[register_y];
        self.registers.set(register_x, v);
    }

    /// `8XY4`: `VX = VX + VY` wrapping at 256, then `VF` = 1 on carry, else 0.
    pub fn add_registers_with_overflow_carry(&mut self, register_x: usize, register_y: usize)
        requires
            old(self).wf(),
            register_x < REGISTER_COUNT,
            register_y < REGISTER_COUNT,
        ensures
            final(self).wf(),
            final(self)@ == alu(old(self)@, register_x as int, register_y as int, 4),
    {
        let vx = self.registers[register_x];
        let vy = self.registers[register_y];
        let had_carry = vx > 255 - vy;
        self.registers.set(register_x, vx.wrapping_add(vy));
        self.registers.set(FLAG_REGISTER, if had_carry { 1 } else { 0 });
    }

    /// `8XY5`: `VX = VX - VY` wrapping at 256, then `VF` = 1 when no borrow
    /// occurred (`VX >= VY` before), else 0.
    pub fn subtract_registers_with_overflow_borrow(&mut self, register_x: usize, register_y: usize)
        requires
            old(self).wf(),
            register_x < REGISTER_COUNT,
            register_y < REGISTER_COUNT,
        ensures
            final(self).wf(),
            final(self)@ == alu(old(self)@, register_x as int, register_y as int, 5),
    {
        let vx = self.registers[register_x];
        let vy = self.registers[register_y];
        let no_borrow = vx >= vy;
        self.registers.set(register_x, vx.wrapping_sub(vy));
        self.registers.set(FLAG_REGISTER, if no_borrow { 1 } else { 0 });
    }

    /// `8XY6`: `VX = VY >> 1`, then `VF` = the low bit of the old `VX`.
    fn binary_shift_register_value_and_save_least_significant(&mut self, register_x: usize, register_y: usize)
        requires
            old(self).wf(),
            register_x < REGISTER_COUNT,
            register_y < REGISTER_COUNT,
        ensures
            final(self).wf(),
            final(self)@ == alu(old(self)@, register_x as int, register_y as int, 6),
    {
        let vx = self.registers[register_x];
        let vy = self.registers[register_y];
        let least_significant = vx & 1;
        assert(vx & 1 == vx % 2 && vy >> 1 == vy / 2) by (bit_vector);
        self.registers.set(register_x, vy >> 1);
        self.registers.set(FLAG_REGISTER, least_significant);
    }

    /// `8XY7`: `VX = VY - VX` wrapping at 256, then `VF` = 1 when no borrow
    /// occurred (`VY >= VX` before), else 0.
    fn minus_register_and_check_if_has_borrow(&mut self, register_y: usize, register_x: usize)
        requires
            old(self).wf(),
            register_x < REGISTER_COUNT,
            register_y < REGISTER_COUNT,
        ensures
            final(self).wf(),
            final(self)@ == alu(old(self)@, register_x as int, register_y as int, 7),
    {
        let vx = self.registers[register_x];
        let vy = self.registers[register_y];
        let no_borrow = vy >= vx;
        self.registers.set(register_x, vy.wrapping_sub(vx));
        self.registers.set(FLAG_REGISTER, if no_borrow { 1 } else { 0 });
    }

    /// `8XYE`: `VX = VY << 1` wrapping at 256, then `VF` = the high bit of the
    /// old `VX`.
    fn binary_shift_register_value_and_save_most_significant(&mut self, register_x: usize, register_y: usize)
        requires
            old(self).wf(),
            register_x < REGISTER_COUNT,
            register_y < REGISTER_COUNT,
        ensures
            final(self).wf(),
            final(self)@ == alu(old(self)@, register_x as int, register_y as int, 0xE),
    {
        let vx = self.registers[register_x];
        let vy = self.registers[register_y];
        let most_significant = vx >> 7;
        assert(vx >> 7 == (if vx >= 128 { 1u8 } else { 0u8 }) && vy << 1 == (vy * 2) % 256)
            by (bit_vector);
        self.registers.set(register_x, vy << 1);
        self.registers.set(FLAG_REGISTER, most_significant);
    }

    /// `ANNN`: `I = nnn`.
    fn set_i_to_address(&mut self, nnn: u16)
        requires
            old(self).wf(),
        ensures
            final(self).wf(),
            final(self)@ == (MachineState { i: nnn, ..old(self)@ }),
    {
        self.i = nnn
    }

    /// `BNNN`: jumps to `nnn + V0`.
    fn set_pc_to_register_value_plus_address(&mut self, nnn: u16)
        requires
            old(self).wf(),
            nnn < 0x1000,
        ensures
            final(self).wf(),
            final(self)@ == with_pc(old(self)@, nnn + old(self)@.reg(0)),
    {
        self.pc = nnn + self.registers[0] as u16
    }

    /// `CXNN`: `VX = random & nn`, for the byte `random` drawn for this step.
    fn generate_and_register_random_number(&mut self, register_x: usize, nn: u8, random: u8)
        requires
            old(self).wf(),
            register_x < REGISTER_COUNT,
        ensures
            final(self).wf(),
            final(self)@ == with_register(old(self)@, register_x as int, (random & nn) as int),
    {
        self.registers.set(register_x, random & nn);
    }

    /// `EX9E`: skips the next instruction when key `VX` is pressed.
    fn skip_if_key_vx_is_pressed(&mut self, register_x: usize) -> (r: Result<(), Chip8Error>)
        requires
            old(self).wf(),
            register_x < REGISTER_COUNT,
            old(self)@.pc <= 0xFFFD,
        ensures
            final(self).wf(),
            match key_skip(old(self)@, register_x as int, true) {
                Ok(t) => r is Ok && final(self)@ == t,
                Err(e) => r == Err::<(), Chip8Error>(e) && final(self)@ == old(self)@,
            },
    {
        let key = self.registers[register_x] as usize;
        if key >= REGISTER_COUNT {
            return Err(Chip8Error::KeyOutOfBounds);
        }
        if self.curr_keys[key] {
            self.pc = self.pc + 2;
        }
        Ok(())
    }

    /// `EXA1`: skips the next instruction when key `VX` is released.
    fn skip_if_key_vx_is_released(&mut self, register_x: usize) -> (r: Result<(), Chip8Error>)
        requires
            old(self).wf(),
            register_x < REGISTER_COUNT,
            old(self)@.pc <= 0xFFFD,
        ensures
            final(self).wf(),
            match key_skip(old(self)@, register_x as int, false) {
                Ok(t) => r is Ok && final(self)@ == t,
                Err(e) => r == Err::<(), Chip8Error>(e) && final(self)@ == old(self)@,
            },
    {
        let key = self.registers[register_x] as usize;
        if key >= REGISTER_COUNT {
            return Err(Chip8Error::KeyOutOfBounds);
        }
        if !self.curr_keys[key] {
            self.pc = self.pc + 2;
        }
        Ok(())
    }

    /// `FX0A`, without moving the program counter: with a key pressed, stores
    /// the highest pressed key's number in `VX`, consumes that press and
    /// reports `true`; with none, changes nothing and reports `false`.
    fn wait_until_key_press(&mut self, register_x: usize) -> (key_is_pressed: bool)
        requires
            old(self).wf(),
            register_x < REGISTER_COUNT,
        ensures
            final(self).wf(),
            key_is_pressed == (last_pressed(old(self)@.keys) >= 0),
            key_is_pressed ==> final(self)@ == key_wait(old(self)@, register_x as int).0,
            !key_is_pressed ==> final(self)@ == old(self)@,
    {
        let mut key_is_pressed = false;
        let mut pressed_key: usize = 0;
        let mut index: usize = 0;
        while index < REGISTER_COUNT
            invariant
                self.wf(),
                index <= REGISTER_COUNT,
                key_is_pressed == (last_pressed(self@.keys.subrange(0, index as int)) >= 0),
                key_is_pressed ==> pressed_key == last_pressed(self@.keys.subrange(0, index as int)),
            decreases REGISTER_COUNT - index,
        {
            assert(self@.keys.subrange(0, index + 1).drop_last() =~= self@.keys.subrange(0, index as int));
            if self.curr_keys[index] {
                key_is_pressed = true;
                pressed_key = index;
            }
            index += 1;
        }
        assert(self@.keys.subrange(0, REGISTER_COUNT as int) =~= self@.keys);
        if key_is_pressed {
            proof {
                lemma_last_pressed_bounds(self@.keys);
            }
            self.registers.set(register_x, pressed_key as u8);
            self.curr_keys.set(pressed_key, false);
        }
        key_is_pressed
    }

    /// `FX07`: `VX = delay timer`.
    fn store_current_delay_value_to_x(&mut self, register_x: usize)
        requires
            old(self).wf(),
            register_x < REGISTER_COUNT,
        ensures
            final(self).wf(),
            final(self)@ == with_register(old(self)@, register_x as int, old(self)@.delay_timer as int),
    {
        self.registers.set(register_x, self.delay_timer);
    }

    /// `FX15`: `delay timer = VX`.
    fn set_delay_timer_value(&mut self, register_x: usize)
        requires
            old(self).wf(),
            register_x < REGISTER_COUNT,
        ensures
            final(self).wf(),
            final(self)@ == (MachineState { delay_timer: old(self)@.registers[register_x as int], ..old(self)@ }),
    {
        self.delay_timer = self.registers[register_x];
    }

    /// `FX18`: `sound timer = VX`.
    fn set_sound_timer_value(&mut self, register_x: usize)
        requires
            old(self).wf(),
            register_x < REGISTER_COUNT,
        ensures
            final(self).wf(),
            final(self)@ == (MachineState { sound_timer: old(self)@.registers[register_x as int], ..old(self)@ }),
    {
        self.sound_timer = self.registers[register_x];
    }

    /// `FX1E`: `I = I + VX`, wrapping at 16 bits.
    fn set_i_to_sum_of_itself_with_register_value(&mut self, register_x: usize)
        requires
            old(self).wf(),
            register_x < REGISTER_COUNT,
        ensures
            final(self).wf(),
            final(self)@ == (MachineState {
                i: ((old(self)@.i + old(self)@.reg(register_x as int)) % 0x10000) as u16,
                ..old(self)@
            }),
    {
        self.i = self.i.wrapping_add(self.registers[register_x] as u16)
    }

    /// `FX33`: stores the hundreds, tens and units of `VX` at `I`, `I + 1`
    /// and `I + 2`; writing past memory is an error.
    fn binary_coded_decimal(&mut self, register_x: usize) -> (r: Result<(), Chip8Error>)
        requires
            old(self).wf(),
            register_x < REGISTER_COUNT,
        ensures
            final(self).wf(),
            match stored_bcd(old(self)@, register_x as int) {
                Ok(t) => r is Ok && final(self)@ == t,
                Err(e) => r == Err::<(), Chip8Error>(e) && final(self)@ == old(self)@,
            },
    {
        let i = self.i as usize;
        if i + 2 >= MEMORY_SIZE {
            return Err(Chip8Error::MemoryOutOfBounds);
        }
        let value = self.registers[register_x];
        self.memory.set(i, value / 100);
        self.memory.set(i + 1, (value / 10) % 10);
        self.memory.set(i + 2, value % 10);
        Ok(())
    }

    /// `FX55`: copies `V0..=VX` to memory from `I` on; writing past memory is
    /// an error.
    pub fn copy_register_data_to_i_place(&mut self, register_x: usize) -> (r: Result<(), Chip8Error>)
        requires
            old(self).wf(),
            register_x < REGISTER_COUNT,
        ensures
            final(self).wf(),
            match stored_registers(old(self)@, register_x as int) {
                Ok(t) => r is Ok && final(self)@ == t,
                Err(e) => r == Err::<(), Chip8Error>(e) && final(self)@ == old(self)@,
            },
    {
        let i = self.i as usize;
        if i + register_x >= MEMORY_SIZE {
            return Err(Chip8Error::MemoryOutOfBounds);
        }
        let ghost t = self@;
        let mut index: usize = 0;
        while index <= register_x
            invariant
                t.wf(),
                register_x < REGISTER_COUNT,
                i == t.i,
                i + register_x < MEMORY_SIZE,
                index <= register_x + 1,
                self.memory@.len() == MEMORY_SIZE,
                self@ == (MachineState { memory: self.memory@, ..t }),
                forall|a: int|
                    0 <= a < MEMORY_SIZE ==> #[trigger] self.memory@[a] == if i <= a < i + index {
                        t.registers[a - i]
                    } else {
                        t.memory[a]
                    },
            decreases register_x + 1 - index,
        {
            let v = self.registers[index];
            self.memory.set(i + index, v);
            index += 1;
        }
        assert(self@.memory =~= stored_registers(t, register_x as int).unwrap().memory);
        Ok(())
    }

    /// `FX65`: loads `V0..=VX` from memory from `I` on; reading past memory
    /// is an error.
    pub fn copy_register_data_from_i_place(&mut self, register_x: usize) -> (r: Result<(), Chip8Error>)
        requires
            old(self).wf(),
            register_x < REGISTER_COUNT,
        ensures
            final(self).wf(),
            match loaded_registers(old(self)@, register_x as int) {
                Ok(t) => r is Ok && final(self)@ == t,
                Err(e) => r == Err::<(), Chip8Error>(e) && final(self)@ == old(self)@,
            },
    {
        let i = self.i as usize;
        if i + register_x >= MEMORY_SIZE {
            return Err(Chip8Error::MemoryOutOfBounds);
        }
        let ghost t = self@;
        let mut index: usize = 0;
        while index <= register_x
            invariant
                t.wf(),
                register_x < REGISTER_COUNT,
                i == t.i,
                i + register_x < MEMORY_SIZE,
                index <= register_x + 1,
                self.registers@.len() == REGISTER_COUNT,
                self@ == (MachineState { registers: self.registers@, ..t }),
                forall|r: int|
                    0 <= r < REGISTER_COUNT ==> #[trigger] self.registers@[r] == if r < index {
                        t.memory[i + r]
                    } else {
                        t.registers[r]
                    },
            decreases register_x + 1 - index,
        {
            let v = self.memory[i + index];
            self.registers.set(index, v);
            index += 1;
        }
        assert(self@.registers =~= loaded_registers(t, register_x as int).unwrap().registers);
        Ok(())
    }

    /// `DXYN`: draws the `n`-row sprite at `I` with its top left corner at
    /// `(VX mod 64, VY mod 32)`, flipping each cell under a set sprite bit and
    /// clipping what falls off the screen; `VF` tells whether a set cell was
    /// cleared. Reading a sprite row past memory is an error.
    pub fn register_to_vram(&mut self, register_x: usize, register_y: usize, n: u16) -> (r: Result<(), Chip8Error>)
        requires
            old(self).wf(),
            register_x < REGISTER_COUNT,
            register_y < REGISTER_COUNT,
            n < 16,
        ensures
            final(self).wf(),
            match draw_instruction(old(self)@, register_x as int, register_y as int, n as int) {
                Ok(t) => r is Ok && final(self)@ == t,
                Err(e) => r == Err::<(), Chip8Error>(e) && final(self)@ == old(self)@,
            },
    {
        let x = (self.registers[register_x] % 64) as usize;
        let y = (self.registers[register_y] % 32) as usize;
        let n = n as usize;
        let rows = if n <= 32 - y { n } else { 32 - y };
        if self.i as usize + rows > MEMORY_SIZE {
            return Err(Chip8Error::MemoryOutOfBounds);
        }
        let ghost t = self@;
        let mut collided = false;
        let mut row: usize = 0;
        while row < rows
            invariant
                t.wf(),
                x < 64,
                y < 32,
                rows == drawn_rows(n as int, y as int),
                t.i + rows <= MEMORY_SIZE,
                row <= rows,
                self.vram@.len() == SCREEN_SIZE,
                self@.wf(),
                self@ == (MachineState { vram: self.vram@, ..t }),
                forall|p: int|
                    0 <= p < SCREEN_SIZE ==> #[trigger] self.vram@[p] == if covered_before(t, n as int, x as int, y as int, row * 8, p) {
                        t.vram[p] ^ 1
                    } else {
                        t.vram[p]
                    },
                collided == collides_before(t, n as int, x as int, y as int, row * 8),
            decreases rows - row,
        {
            let data = self.memory[self.i as usize + row];
            let mut col: u8 = 0;
            while col < 8
                invariant
                    t.wf(),
                    x < 64,
                    y < 32,
                    rows == drawn_rows(n as int, y as int),
                    t.i + rows <= MEMORY_SIZE,
                    row < rows,
                    col <= 8,
                    data == t.memory[t.i + row],
                    self.vram@.len() == SCREEN_SIZE,
                    self@.wf(),
                    self@ == (MachineState { vram: self.vram@, ..t }),
                    forall|p: int|
                        0 <= p < SCREEN_SIZE ==> #[trigger] self.vram@[p] == if covered_before(t, n as int, x as int, y as int, row * 8 + col, p) {
                            t.vram[p] ^ 1
                        } else {
                            t.vram[p]
                        },
                    collided == collides_before(t, n as int, x as int, y as int, row * 8 + col),
                decreases 8 - col,
            {
                let ghost k = row * 8 + col;
                if x + (col as usize) < 64 && (data >> (7 - col)) & 1 == 1 {
                    let p = (x + col as usize) + (y + row) * 64;
                    proof {
                        lemma_cell_position(x as int, y as int, row as int, col as int, p as int);
                        lemma_covered_step(t, n as int, x as int, y as int, row as int, col as int, p as int);
                    }
                    if self.vram[p] == 1 {
                        collided = true;
                    }
                    let v = self.vram[p] ^ 1;
                    self.vram.set(p, v);
                } else {
                    proof {
                        lemma_covered_skip(t, n as int, x as int, y as int, row as int, col as int);
                    }
                }
                col += 1;
            }
            row += 1;
        }
        proof {
            lemma_covered_all(t, n as int, x as int, y as int, rows as int);
        }
        self.registers.set(FLAG_REGISTER, if collided { 1 } else { 0 });
        assert(self@.vram =~= drawn(t, n as int, x as int, y as int).unwrap().vram);
        assert(self@.registers =~= drawn(t, n as int, x as int, y as int).unwrap().registers);
        Ok(())
    }
}


/// Relies on `rand::random::<u8>`: a byte from the thread-local generator.
/// Any byte may come back.
#[verifier::external_body]
fn random_byte() -> (r: u8) {
    rand::random::<u8>()
}

/// How the fields of an opcode come out of its two bytes.
proof fn lemma_decode(first: u8, second: u8)
    by (bit_vector)
    ensures
        ((first as u16) << 8) | second as u16 == first * 0x100 + second,
        (((first as u16) << 8) | second as u16) & 0x0FFF == (first * 0x100 + second) % 0x1000,
        (((first as u16) << 8) | second as u16) & 0xF == (first * 0x100 + second) % 0x10,
        (((first as u16) << 8) | second as u16) >> 12 & 0xF == (first * 0x100 + second) / 0x1000,
        (((first as u16) << 8) | second as u16) >> 8 & 0xF == ((first * 0x100 + second) / 0x100) % 0x10,
        (((first as u16) << 8) | second as u16) >> 4 & 0xF == ((first * 0x100 + second) / 0x10) % 0x10,
        second == (first * 0x100 + second) % 0x100,
{
}

/// Whether cell `p` is under a set sprite bit whose place in row-major order
/// within the sprite comes before `k`.
spec fn covered_before(t: MachineState, n: int, x: int, y: int, k: int, p: int) -> bool {
    &&& sprite_covers(t.memory, t.i as int, n, x, y, p)
    &&& (p / 64 - y) * 8 + (p % 64 - x) < k
}

/// Whether a cell counted by `covered_before` up to `k` was set before the draw.
spec fn collides_before(t: MachineState, n: int, x: int, y: int, k: int) -> bool {
    exists|p: int| #[trigger] covered_before(t, n, x, y, k, p) && t.vram[p] == 1
}

proof fn lemma_last_pressed_bounds(keys: Seq<bool>)
    ensures
        -1 <= last_pressed(keys) < keys.len(),
        last_pressed(keys) >= 0 ==> keys[last_pressed(keys)],
    decreases keys.len(),
{
    if keys.len() > 0 && !keys.last() {
        lemma_last_pressed_bounds(keys.drop_last());
    }
}

proof fn lemma_cell_position(x: int, y: int, row: int, col: int, p: int)
    requires
        0 <= x,
        x + col < 64,
        0 <= col,
        0 <= y,
        0 <= row,
        y + row < 32,
        p == (x + col) + (y + row) * 64,
    ensures
        p % 64 == x + col,
        p / 64 == y + row,
        0 <= p < SCREEN_SIZE,
{
}

proof fn lemma_covered_step(t: MachineState, n: int, x: int, y: int, row: int, col: int, p: int)
    requires
        t.wf(),
        0 <= x < 64,
        0 <= y < 32,
        0 <= row < drawn_rows(n, y),
        t.i + drawn_rows(n, y) <= MEMORY_SIZE,
        0 <= col < 8,
        x + col < 64,
        p % 64 == x + col,
        p / 64 == y + row,
        0 <= p < SCREEN_SIZE,
        sprite_bit(t.memory[t.i + row], col as u8),
    ensures
        covered_before(t, n, x, y, row * 8 + col + 1, p),
        !covered_before(t, n, x, y, row * 8 + col, p),
        collides_before(t, n, x, y, row * 8 + col + 1) == (collides_before(t, n, x, y, row * 8 + col) || t.vram[p] == 1),
        t.vram[p] ^ 1 <= 1,
        forall|q: int| q != p ==>
            (#[trigger] covered_before(t, n, x, y, row * 8 + col + 1, q) <==> covered_before(t, n, x, y, row * 8 + col, q)),
{
    assert forall|q: int| q != p implies
        (#[trigger] covered_before(t, n, x, y, row * 8 + col + 1, q) <==> covered_before(t, n, x, y, row * 8 + col, q)) by {
        if covered_before(t, n, x, y, row * 8 + col + 1, q) && !covered_before(t, n, x, y, row * 8 + col, q) {
            assert(q / 64 == y + row && q % 64 == x + col);
            assert(q == (q / 64) * 64 + q % 64);
        }
    }
    let v = t.vram[p];
    assert(v <= 1 ==> v ^ 1 <= 1) by (bit_vector);
    let k = row * 8 + col;
    if collides_before(t, n, x, y, k) {
        let q = choose|q: int| #[trigger] covered_before(t, n, x, y, k, q) && t.vram[q] == 1;
        assert(covered_before(t, n, x, y, k + 1, q));
    }
    if t.vram[p] == 1 {
        assert(covered_before(t, n, x, y, k + 1, p));
    }
    if collides_before(t, n, x, y, k + 1) {
        let q = choose|q: int| #[trigger] covered_before(t, n, x, y, k + 1, q) && t.vram[q] == 1;
        if q != p {
            assert(covered_before(t, n, x, y, k, q));
        }
    }
}

proof fn lemma_covered_skip(t: MachineState, n: int, x: int, y: int, row: int, col: int)
    requires
        t.wf(),
        0 <= x < 64,
        0 <= y < 32,
        0 <= row < drawn_rows(n, y),
        0 <= col < 8,
        x + col >= 64 || !sprite_bit(t.memory[t.i + row], col as u8),
    ensures
        forall|q: int|
            #[trigger] covered_before(t, n, x, y, row * 8 + col + 1, q) <==> covered_before(t, n, x, y, row * 8 + col, q),
        collides_before(t, n, x, y, row * 8 + col + 1) == collides_before(t, n, x, y, row * 8 + col),
{
    assert forall|q: int|
        #[trigger] covered_before(t, n, x, y, row * 8 + col + 1, q) <==> covered_before(t, n, x, y, row * 8 + col, q) by {
        if covered_before(t, n, x, y, row * 8 + col + 1, q) && !covered_before(t, n, x, y, row * 8 + col, q) {
            assert(q / 64 == y + row && q % 64 == x + col);
        }
    }
    let k = row * 8 + col;
    if collides_before(t, n, x, y, k) {
        let q = choose|q: int| #[trigger] covered_before(t, n, x, y, k, q) && t.vram[q] == 1;
        assert(covered_before(t, n, x, y, k + 1, q));
    }
    if collides_before(t, n, x, y, k + 1) {
        let q = choose|q: int| #[trigger] covered_before(t, n, x, y, k + 1, q) && t.vram[q] == 1;
        assert(covered_before(t, n, x, y, k, q));
    }
}

proof fn lemma_covered_all(t: MachineState, n: int, x: int, y: int, rows: int)
    requires
        0 <= x < 64,
        0 <= y < 32,
        rows == drawn_rows(n, y),
    ensures
        forall|q: int|
            #[trigger] covered_before(t, n, x, y, rows * 8, q) <==> sprite_covers(t.memory, t.i as int, n, x, y, q),
        collides_before(t, n, x, y, rows * 8) == draw_collides(t, n, x, y),
{
    if collides_before(t, n, x, y, rows * 8) {
        let q = choose|q: int| #[trigger] covered_before(t, n, x, y, rows * 8, q) && t.vram[q] == 1;
        assert(sprite_covers(t.memory, t.i as int, n, x, y, q));
    }
    if draw_collides(t, n, x, y) {
        let q = choose|q: int| #[trigger] sprite_covers(t.memory, t.i as int, n, x, y, q) && t.vram[q] == 1;
        assert(covered_before(t, n, x, y, rows * 8, q));
    }
}

} // verus!
