//! The machine: its unified address space and its fetch-decode-execute cycle.
use crate::alu::arithmetic;
use crate::alu::compute;
use crate::alu::is_arithmetic;
use crate::alu::reads_first;
use crate::alu::reads_second;
use crate::alu::spec_compute;
use crate::alu::spec_is_arithmetic;
use crate::alu::spec_reads_first;
use crate::alu::spec_reads_second;
use crate::alu::spec_widen;
use crate::alu::widen;
use crate::alu::Outcome;
use crate::banking::Banker;
use crate::codec::Instruction;
use crate::codec::OpCode;
use crate::codec::OpOptions;
use crate::devices::Device;
use crate::symbols::Symbol;
use vstd::prelude::*;

verus! {

/// What an address of the 8-bit address space leads to.
#[derive(Debug, Clone, Copy, PartialEq, Eq, Structural)]
pub enum Target {
    /// Address 0: the register, which is also the program counter.
    Register,
    /// Addresses 1 to 127: the byte of the selected instruction bank at the
    /// index equal to the address.
    Instruction(usize),
    /// Addresses 128 to 191: the byte of the selected data bank at the index
    /// `address - 128`.
    Data(usize),
    /// Address 192: the number of the selected instruction bank.
    InstructionBank,
    /// Address 193: the number of the selected data bank.
    DataBank,
    /// Addresses 194 to 255: the device slot `address - 194`.
    Device(usize),
}

/// The routing table of the address space.
pub open spec fn spec_route(addr: u8) -> Target {
    if addr == 0 {
        Target::Register
    } else if addr <= 127 {
        Target::Instruction(addr as usize)
    } else if addr <= 191 {
        Target::Data((addr - 128) as usize)
    } else if addr == 192 {
        Target::InstructionBank
    } else if addr == 193 {
        Target::DataBank
    } else {
        Target::Device((addr - 194) as usize)
    }
}

/// Routes an address. Every address leads somewhere; whether a byte can be
/// read or written there is decided by `load` and `push`.
pub fn route(addr: u8) -> (target: Target)
    ensures
        target == spec_route(addr),
{
    if addr == 0 {
        Target::Register
    } else if addr <= 127 {
        Target::Instruction(addr as usize)
    } else if addr <= 191 {
        Target::Data((addr - 128) as usize)
    } else if addr == 192 {
        Target::InstructionBank
    } else if addr == 193 {
        Target::DataBank
    } else {
        Target::Device((addr - 194) as usize)
    }
}

/// Whether the machine goes on after an instruction.
#[derive(Debug, Clone, Copy, PartialEq, Eq, Structural)]
pub enum Halted {
    Running,
    Halted,
}

/// The machine as a program sees it: the register, every bank of both
/// memories, the two bank selections, and which device slots are taken.
/// What goes on inside a device is not part of it.
pub struct Machine {
    pub reg_zero: u8,
    /// The 256 instruction banks, 127 bytes each.
    pub inst: Seq<Seq<u8>>,
    pub inst_bank: u8,
    /// The 256 data banks, 64 bytes each.
    pub data: Seq<Seq<u8>>,
    pub data_bank: u8,
    /// For each of the 62 device slots, whether a device is attached to it.
    pub mapped: Seq<bool>,
}

/// The error bit of an instruction's first load.
pub const ERROR_LOAD_FIRST: u8 = 1;

/// The error bit of an instruction's second load.
pub const ERROR_LOAD_SECOND: u8 = 2;

/// The error bit of an instruction's store.
pub const ERROR_STORE: u8 = 4;

/// The error bit of a division by zero.
pub const ERROR_ARITHMETIC: u8 = 8;

impl Machine {
    /// The memories and the slot table have their fixed sizes.
    pub open spec fn wf(self) -> bool {
        &&& self.inst.len() == 256
        &&& forall|k: int| 0 <= k < 256 ==> (#[trigger] self.inst[k]).len() == 127
        &&& self.data.len() == 256
        &&& forall|k: int| 0 <= k < 256 ==> (#[trigger] self.data[k]).len() == 64
        &&& self.mapped.len() == 62
    }

    /// The machine before its first instruction: the register is 0, bank 0 is
    /// selected in both memories, every instruction bank holds `image` and
    /// every data bank holds zeros.
    pub open spec fn spec_initial(image: Seq<u8>, mapped: Seq<bool>) -> Machine {
        Machine {
            reg_zero: 0,
            inst: Seq::new(256, |k: int| image),
            inst_bank: 0,
            data: Seq::new(256, |k: int| Seq::new(64, |i: int| 0u8)),
            data_bank: 0,
            mapped,
        }
    }

    /// What a load from `addr` gives: the byte and an error flag, 0 or 1.
    ///
    /// `answer` is the byte that the device answers with, where `addr` leads to
    /// an attached device; everywhere else it plays no part. A load fails, with
    /// byte 0 and flag 1, at address 127, which has no byte behind it in a bank
    /// of 127, and at a device slot that is empty.
    pub open spec fn load(self, addr: u8, answer: u8) -> (u8, u8) {
        match spec_route(addr) {
            Target::Register => (self.reg_zero, 0),
            Target::Instruction(index) => if index < 127 {
                (self.inst[self.inst_bank as int][index as int], 0)
            } else {
                (0, 1)
            },
            Target::Data(index) => (self.data[self.data_bank as int][index as int], 0),
            Target::InstructionBank => (self.inst_bank, 0),
            Target::DataBank => (self.data_bank, 0),
            Target::Device(slot) => if self.mapped[slot as int] {
                (answer, 0)
            } else {
                (0, 1)
            },
        }
    }

    /// What a store of `data` to `addr` leaves: the machine after it and an
    /// error flag, 0 or 1. A store fails where a load fails, and a failed
    /// store changes nothing. A store to a device changes nothing that the
    /// machine holds.
    pub open spec fn store(self, addr: u8, data: u8) -> (Machine, u8) {
        match spec_route(addr) {
            Target::Register => (Machine { reg_zero: data, ..self }, 0),
            Target::Instruction(index) => if index < 127 {
                (
                    Machine {
                        inst: self.inst.update(
                            self.inst_bank as int,
                            self.inst[self.inst_bank as int].update(index as int, data),
                        ),
                        ..self
                    },
                    0,
                )
            } else {
                (self, 1)
            },
            Target::Data(index) => (
                Machine {
                    data: self.data.update(
                        self.data_bank as int,
                        self.data[self.data_bank as int].update(index as int, data),
                    ),
                    ..self
                },
                0,
            ),
            Target::InstructionBank => (Machine { inst_bank: data, ..self }, 0),
            Target::DataBank => (Machine { data_bank: data, ..self }, 0),
            Target::Device(slot) => if self.mapped[slot as int] {
                (self, 0)
            } else {
                (self, 1)
            },
        }
    }

    /// The byte of the selected instruction bank at `index`, as the fetch
    /// reads it: past the end of the bank it reads as 0.
    pub open spec fn code_byte(self, index: int) -> u8 {
        if 0 <= index < 127 {
            self.inst[self.inst_bank as int][index]
        } else {
            0
        }
    }

    /// The instruction at the program counter: the three bytes of the selected
    /// instruction bank at the indices `reg_zero`, `reg_zero + 1` and
    /// `reg_zero + 2`, each index wrapping at 256.
    pub open spec fn fetch(self) -> Instruction {
        Instruction::spec_decode(
            seq![
                self.code_byte(self.reg_zero as int),
                self.code_byte((self.reg_zero + 1) % 256),
                self.code_byte((self.reg_zero + 2) % 256),
            ],
        )
    }

    /// The machine with the program counter moved on by `step`, wrapping at 256.
    pub open spec fn advance(self, step: int) -> Machine {
        Machine { reg_zero: ((self.reg_zero + step) % 256) as u8, ..self }
    }

    /// The address that the outcome of `inst` is stored at: the second operand
    /// for `Copy`, the first for every other operation.
    pub open spec fn target(inst: Instruction) -> u8 {
        if inst.code == OpCode::Copy {
            inst.arg2.spec_address()
        } else {
            inst.arg1.spec_address()
        }
    }

    /// What an instruction works out before anything is stored: the outcome
    /// of its operation and the error bits of its loads.
    ///
    /// The operands that the operation reads are loaded, first then second,
    /// and the operation is carried out on the loaded bytes. `answer1` and
    /// `answer2` are what the devices answer to the two loads.
    pub open spec fn operate(self, inst: Instruction, answer1: u8, answer2: u8) -> (Outcome, u8) {
        let (data1, error1) = if spec_reads_first(inst.code) {
            self.load(inst.arg1.spec_address(), answer1)
        } else {
            (0u8, 0u8)
        };
        let (data2, error2) = if spec_reads_second(inst.code) {
            self.load(inst.arg2.spec_address(), answer2)
        } else {
            (0u8, 0u8)
        };
        (
            spec_compute(inst.code, inst.options, data1, data2),
            (error1 * ERROR_LOAD_FIRST + error2 * ERROR_LOAD_SECOND) as u8,
        )
    }

    /// What the outcome of an instruction leaves: the machine after the store,
    /// the instruction's result code, and whether the next instruction is to
    /// be skipped. The result code holds the error bits of the loads, one bit
    /// for a store that failed and one for a division by zero.
    pub open spec fn settle(self, inst: Instruction, outcome: Outcome, loads: u8) -> (
        Machine,
        u8,
        bool,
    ) {
        match outcome {
            Outcome::Nothing => (self, loads, false),
            Outcome::Write(value) => {
                let (after, error) = self.store(Machine::target(inst), value);
                (after, (loads + error * ERROR_STORE) as u8, false)
            },
            Outcome::Compare(holds) => (self, loads, !holds),
            Outcome::DivideByZero => (self, (loads + ERROR_ARITHMETIC) as u8, false),
        }
    }

    /// How an instruction ends. When it asks to halt on error and its result
    /// code is not 0, the machine halts and the program counter does not
    /// move. Otherwise the program counter moves on by 3, or by 6 when a
    /// comparison did not hold, and the machine runs on.
    pub open spec fn conclude(self, halt_on_error: bool, errors: u8, skip: bool) -> (
        Machine,
        Halted,
    ) {
        if halt_on_error && errors != 0 {
            (self, Halted::Halted)
        } else {
            (self.advance(if skip { 6 } else { 3 }), Halted::Running)
        }
    }

    /// One instruction, carried out in full: its operands are loaded and its
    /// operation carried out, the outcome is stored, and the program counter
    /// moves or the machine halts.
    pub open spec fn execute(self, inst: Instruction, answer1: u8, answer2: u8) -> (
        Machine,
        Halted,
    ) {
        let (outcome, loads) = self.operate(inst, answer1, answer2);
        let (after, errors, skip) = self.settle(inst, outcome, loads);
        after.conclude(inst.options.halt_on_error, errors, skip)
    }
}

/// Why a set of devices cannot be attached.
#[derive(Debug, Clone, Copy, PartialEq, Eq, Structural)]
pub enum ConfigError {
    /// A device names the given address, which is below 194 and so outside
    /// the device slots.
    AddressOutOfRange(u8),
    /// A device names the given address, whose slot another device has taken.
    DuplicateAddress(u8),
}

/// The slot table after a device that names `address` is attached to the
/// table `mapped`, or the reason why it cannot be.
pub open spec fn spec_attach(mapped: Seq<bool>, address: u8) -> Result<Seq<bool>, ConfigError> {
    if address < 194 {
        Err(ConfigError::AddressOutOfRange(address))
    } else if mapped[address - 194] {
        Err(ConfigError::DuplicateAddress(address))
    } else {
        Ok(mapped.update(address - 194, true))
    }
}

/// The slot table after devices that name `addresses` are attached in order
/// to an empty table, or the reason why the first device that cannot be
/// attached is refused.
pub open spec fn spec_placement(addresses: Seq<u8>) -> Result<Seq<bool>, ConfigError>
    decreases addresses.len(),
{
    if addresses.len() == 0 {
        Ok(Seq::new(62, |slot: int| false))
    } else {
        match spec_placement(addresses.drop_last()) {
            Err(error) => Err(error),
            Ok(mapped) => spec_attach(mapped, addresses.last()),
        }
    }
}

/// Data banks are isolated: a byte written to data memory while bank `k` is
/// selected is read back unchanged after another bank `j` was selected, any
/// byte was stored anywhere but in the bank selection while `j` was selected,
/// and `k` was selected again.
pub proof fn lemma_data_banks_isolated(
    machine: Machine,
    k: u8,
    j: u8,
    addr: u8,
    value: u8,
    other: u8,
    noise: u8,
    answer: u8,
)
    requires
        machine.wf(),
        128 <= addr <= 191,
        j != k,
        other != 193,
    ensures
        ({
            let selected = machine.store(193, k).0;
            let written = selected.store(addr, value).0;
            let away = written.store(193, j).0;
            let disturbed = away.store(other, noise).0;
            let back = disturbed.store(193, k).0;
            back.load(addr, answer) == (value, 0u8)
        }),
{
}

/// Instruction banks are isolated in the same way: a byte written to
/// instruction memory while bank `k` is selected is read back unchanged after
/// another bank `j` was selected and written to and `k` was selected again.
pub proof fn lemma_instruction_banks_isolated(
    machine: Machine,
    k: u8,
    j: u8,
    addr: u8,
    value: u8,
    other: u8,
    noise: u8,
    answer: u8,
)
    requires
        machine.wf(),
        1 <= addr <= 126,
        j != k,
        other != 192,
    ensures
        ({
            let selected = machine.store(192, k).0;
            let written = selected.store(addr, value).0;
            let away = written.store(192, j).0;
            let disturbed = away.store(other, noise).0;
            let back = disturbed.store(192, k).0;
            back.load(addr, answer) == (value, 0u8)
        }),
{
}

/// Selecting a bank copies and clears nothing: every bank of both memories
/// holds after the selection what it held before.
pub proof fn lemma_select_keeps_banks(machine: Machine, bank: u8)
    ensures
        machine.store(192, bank).0.inst == machine.inst,
        machine.store(192, bank).0.data == machine.data,
        machine.store(193, bank).0.inst == machine.inst,
        machine.store(193, bank).0.data == machine.data,
{
}

/// A comparison that holds moves the program counter on by 3, and one that
/// does not hold moves it on by 6, wrapping at 256, so that the next
/// instruction is skipped. Nothing else in the machine changes. This is so
/// whenever the machine does not halt, that is when the instruction does not
/// ask to halt on error or both loads succeed.
pub proof fn lemma_comparison_skips(machine: Machine, inst: Instruction, answer1: u8, answer2: u8)
    requires
        inst.spec_is_resolved(),
        inst.code == OpCode::CompEq || inst.code == OpCode::CompGt || inst.code == OpCode::CompLt,
        !inst.options.halt_on_error || machine.operate(inst, answer1, answer2).1 == 0,
    ensures
        machine.operate(inst, answer1, answer2).0 is Compare,
        machine.execute(inst, answer1, answer2) == (
            machine.advance(
                if machine.operate(inst, answer1, answer2).0->Compare_0 {
                    3
                } else {
                    6
                },
            ),
            Halted::Running,
        ),
{
}

/// An instruction whose first operand leads to an empty device slot fails at
/// its first load. If it asks to halt on error, the machine halts and the
/// program counter is not moved on; if it does not, the machine runs on.
pub proof fn lemma_empty_slot_halts(machine: Machine, inst: Instruction, answer1: u8, answer2: u8)
    requires
        machine.wf(),
        inst.spec_is_resolved(),
        spec_reads_first(inst.code),
        inst.arg1.spec_address() >= 194,
        !machine.mapped[inst.arg1.spec_address() - 194],
    ensures
        machine.operate(inst, answer1, answer2).1 % 2 == 1,
        inst.options.halt_on_error ==> {
            &&& machine.execute(inst, answer1, answer2).1 == Halted::Halted
            &&& machine.execute(inst, answer1, answer2).0 == machine.settle(
                inst,
                machine.operate(inst, answer1, answer2).0,
                machine.operate(inst, answer1, answer2).1,
            ).0
            &&& Machine::target(inst) != 0 ==> machine.execute(inst, answer1, answer2).0.reg_zero
                == machine.reg_zero
        },
        !inst.options.halt_on_error ==> {
            &&& machine.execute(inst, answer1, answer2).1 == Halted::Running
            &&& Machine::target(inst) != 0 && !spec_is_arithmetic(inst.code) ==> machine.execute(
                inst,
                answer1,
                answer2,
            ).0.reg_zero == (machine.reg_zero + 3) % 256
        },
{
}

/// The machine: one register, two banked memories and 62 device slots.
pub struct CPU {
    pub reg_zero: u8,
    pub inst_mem: Banker<[u8; 127]>,
    pub data_mem: Banker<[u8; 64]>,
    pub devices: [Option<Box<dyn Device>>; 62],
}

impl View for CPU {
    type V = Machine;

    open spec fn view(&self) -> Machine {
        Machine {
            reg_zero: self.reg_zero,
            inst: Seq::new(256, |k: int| self.inst_mem.bank(k)@),
            inst_bank: self.inst_mem.pointer,
            data: Seq::new(256, |k: int| self.data_mem.bank(k)@),
            data_bank: self.data_mem.pointer,
            mapped: Seq::new(62, |slot: int| self.devices@[slot] is Some),
        }
    }
}

/// The memories and the slot table of a machine always have their fixed sizes.
pub proof fn lemma_machine_wf(cpu: CPU)
    ensures
        cpu@.wf(),
{
}

impl CPU {
    /// A machine with `inst_mem` in every instruction bank, zeros in every
    /// data bank, and the devices in the slots that they name.
    ///
    /// Each device is asked for its address once, in the order of the list,
    /// and attached by [`CPU::place`]. The machine is built when every address
    /// lies in 194 to 255 and no two devices name the same one; otherwise the
    /// first device that cannot be attached decides the error. A machine
    /// without devices is always built.
    pub fn new(inst_mem: [u8; 127], devices: Vec<Box<dyn Device>>) -> (made: Result<
        CPU,
        ConfigError,
    >)
        ensures
            match made {
                Ok(cpu) => exists|addresses: Seq<u8>|
                    {
                        &&& addresses.len() == devices.len()
                        &&& #[trigger] spec_placement(addresses) == Ok::<Seq<bool>, ConfigError>(
                            cpu@.mapped,
                        )
                        &&& cpu@ == Machine::spec_initial(inst_mem@, cpu@.mapped)
                    },
                Err(error) => exists|addresses: Seq<u8>|
                    {
                        &&& 0 < addresses.len() <= devices.len()
                        &&& #[trigger] spec_placement(addresses) == Err::<Seq<bool>, ConfigError>(
                            error,
                        )
                    },
            },
    {
        let zero: u8 = 0;
        let mut cpu = CPU {
            reg_zero: 0,
            inst_mem: Banker::new(inst_mem),
            data_mem: Banker::new([zero;64]),
            devices: CPU::empty_slots(),
        };
        let ghost mut addresses: Seq<u8> = Seq::empty();
        assert(cpu@.mapped =~= spec_placement(addresses)->Ok_0);
        assert(cpu@.inst =~= Machine::spec_initial(inst_mem@, cpu@.mapped).inst);
        assert(cpu@.data =~~= Machine::spec_initial(inst_mem@, cpu@.mapped).data);
        for device in it: devices
            invariant
                it.seq() == devices@,
                addresses.len() == it.index(),
                spec_placement(addresses) == Ok::<Seq<bool>, ConfigError>(cpu@.mapped),
                cpu@ == Machine::spec_initial(inst_mem@, cpu@.mapped),
        {
            let address = device.address();
            let ghost asked = addresses.push(address);
            assert(asked.drop_last() =~= addresses);
            let placed = cpu.place(device, address);
            match placed {
                Ok(()) => {
                    proof {
                        addresses = asked;
                    }
                },
                Err(error) => {
                    assert(spec_placement(asked) == Err::<Seq<bool>, ConfigError>(error));
                    return Err(error);
                },
            }
        }
        Ok(cpu)
    }

    /// Attaches `device` to the slot of `address`, the address that the device
    /// named. The slot must lie in 194 to 255 and be empty; otherwise nothing
    /// changes and the reason is returned.
    pub fn place(&mut self, device: Box<dyn Device>, address: u8) -> (placed: Result<
        (),
        ConfigError,
    >)
        ensures
            match placed {
                Ok(()) => {
                    &&& spec_attach(old(self)@.mapped, address) == Ok::<Seq<bool>, ConfigError>(
                        final(self)@.mapped,
                    )
                    &&& final(self)@ == (Machine { mapped: final(self)@.mapped, ..old(self)@ })
                    &&& forall|slot: int|
                        0 <= slot < 62 && slot != address - 194 ==> final(self).devices@[slot]
                            == old(self).devices@[slot]
                },
                Err(error) => {
                    &&& spec_attach(old(self)@.mapped, address) == Err::<Seq<bool>, ConfigError>(
                        error,
                    )
                    &&& *final(self) == *old(self)
                },
            },
    {
        match route(address) {
            Target::Device(slot) => {
                if self.devices[slot].is_some() {
                    return Err(ConfigError::DuplicateAddress(address));
                }
                let place = &mut self.devices[slot];
                *place = Some(device);
                assert(self@.mapped =~= old(self)@.mapped.update(address - 194, true));
                Ok(())
            },
            _ => Err(ConfigError::AddressOutOfRange(address)),
        }
    }

    /// 62 device slots with no device in them.
    fn empty_slots() -> (slots: [Option<Box<dyn Device>>; 62])
        ensures
            forall|slot: int| 0 <= slot < 62 ==> slots@[slot] is None,
    {
        [
            None, None, None, None, None, None, None, None, None, None,
            None, None, None, None, None, None, None, None, None, None,
            None, None, None, None, None, None, None, None, None, None,
            None, None, None, None, None, None, None, None, None, None,
            None, None, None, None, None, None, None, None, None, None,
            None, None, None, None, None, None, None, None, None, None,
            None, None,
        ]
    }

    /// Loads the byte at `addr`. Returns the byte and an error flag: `(0, 1)`
    /// where nothing can be loaded, the byte and 0 otherwise. A load from a
    /// device returns what the device answers. Nothing that the machine holds
    /// changes.
    pub fn load(&mut self, addr: &Symbol) -> (loaded: (u8, u8))
        requires
            addr is Resolved,
        ensures
            loaded == old(self)@.load(addr.spec_address(), loaded.0),
            final(self)@ == old(self)@,
            forall|slot: int|
                0 <= slot < 62 && spec_route(addr.spec_address()) != Target::Device(slot as usize)
                    ==> final(self).devices@[slot] == old(self).devices@[slot],
    {
        match route(addr.address()) {
            Target::Register => (self.reg_zero, 0),
            Target::Instruction(index) => {
                if index < 127 {
                    (self.inst_mem.get(index), 0)
                } else {
                    (0, 1)
                }
            },
            Target::Data(index) => (self.data_mem.get(index), 0),
            Target::InstructionBank => (self.inst_mem.pointer, 0),
            Target::DataBank => (self.data_mem.pointer, 0),
            Target::Device(slot) => {
                let loaded = match &mut self.devices[slot] {
                    Some(device) => (device.load(0), 0),
                    None => (0, 1),
                };
                assert(self@.mapped =~= old(self)@.mapped);
                loaded
            },
        }
    }

    /// Stores `data` at `addr`. Returns 0 when the byte was stored and 1 where
    /// nothing can be stored; then nothing changes. A store to a device hands
    /// the byte to the device.
    pub fn push(&mut self, addr: &Symbol, data: u8) -> (error: u8)
        requires
            addr is Resolved,
        ensures
            (final(self)@, error) == old(self)@.store(addr.spec_address(), data),
            forall|slot: int|
                0 <= slot < 62 && spec_route(addr.spec_address()) != Target::Device(slot as usize)
                    ==> final(self).devices@[slot] == old(self).devices@[slot],
    {
        match route(addr.address()) {
            Target::Register => {
                self.reg_zero = data;
                0
            },
            Target::Instruction(index) => {
                if index < 127 {
                    self.inst_mem.set(index, data);
                    assert(self@.inst =~= old(self)@.store(addr.spec_address(), data).0.inst);
                    0
                } else {
                    1
                }
            },
            Target::Data(index) => {
                self.data_mem.set(index, data);
                assert(self@.data =~= old(self)@.store(addr.spec_address(), data).0.data);
                0
            },
            Target::InstructionBank => {
                self.inst_mem.select(data);
                assert(self@.inst =~= old(self)@.inst);
                0
            },
            Target::DataBank => {
                self.data_mem.select(data);
                assert(self@.data =~= old(self)@.data);
                0
            },
            Target::Device(slot) => {
                let error: u8 = match &mut self.devices[slot] {
                    Some(device) => {
                        device.push(0, data);
                        0
                    },
                    None => 1,
                };
                assert(self@.mapped =~= old(self)@.mapped);
                error
            },
        }
    }

    /// Loads two operands, the first before the second.
    pub fn load_double(&mut self, addr1: &Symbol, addr2: &Symbol) -> (loaded: ((u8, u8), (u8, u8)))
        requires
            addr1 is Resolved,
            addr2 is Resolved,
        ensures
            loaded.0 == old(self)@.load(addr1.spec_address(), loaded.0.0),
            loaded.1 == old(self)@.load(addr2.spec_address(), loaded.1.0),
            final(self)@ == old(self)@,
    {
        let first = self.load(addr1);
        let second = self.load(addr2);
        (first, second)
    }

    /// Loads two operands, the first before the second, and reads each byte as
    /// signed or unsigned by the flag of its operand. Each number comes with
    /// the error flag of its load.
    pub fn load_double_signed(&mut self, addr1: &Symbol, addr2: &Symbol, options: &OpOptions) -> (loaded:
        ((i16, u8), (i16, u8)))
        requires
            addr1 is Resolved,
            addr2 is Resolved,
        ensures
            exists|data1: u8, data2: u8|
                {
                    &&& (data1, loaded.0.1) == old(self)@.load(addr1.spec_address(), data1)
                    &&& (data2, loaded.1.1) == old(self)@.load(addr2.spec_address(), data2)
                    &&& loaded.0.0 == #[trigger] spec_widen(data1, options.arg1_signed)
                    &&& loaded.1.0 == #[trigger] spec_widen(data2, options.arg2_signed)
                },
            final(self)@ == old(self)@,
    {
        let (data1, result1) = self.load(addr1);
        let (data2, result2) = self.load(addr2);
        let data1_signed = widen(data1, options.arg1_signed);
        let data2_signed = widen(data2, options.arg2_signed);
        ((data1_signed, result1), (data2_signed, result2))
    }

    /// Reads the instruction at the program counter. Nothing changes.
    pub fn fetch(&self) -> (inst: Instruction)
        ensures
            inst == self@.fetch(),
            inst.spec_is_resolved(),
    {
        let first: u16 = self.reg_zero as u16;
        let second: u16 = (first + 1) % 256;
        let third: u16 = (first + 2) % 256;
        let bytes: [u8; 3] = [
            self.code_byte(first as usize),
            self.code_byte(second as usize),
            self.code_byte(third as usize),
        ];
        let inst = Instruction::from_3bytes(bytes);
        assert(bytes@ =~= seq![
            self@.code_byte(self.reg_zero as int),
            self@.code_byte((self.reg_zero + 1) % 256),
            self@.code_byte((self.reg_zero + 2) % 256),
        ]);
        inst
    }

    /// The byte of the selected instruction bank at `index`, or 0 past its end.
    pub fn code_byte(&self, index: usize) -> (byte: u8)
        ensures
            byte == self@.code_byte(index as int),
    {
        if index < 127 {
            self.inst_mem.get(index)
        } else {
            0
        }
    }

    /// Loads the operands that `inst` reads and carries out its operation on
    /// them. Returns the outcome and the error bits of the loads. Nothing that
    /// the machine holds changes.
    pub fn operate(&mut self, inst: &Instruction) -> (worked: (Outcome, u8))
        requires
            inst.spec_is_resolved(),
        ensures
            exists|answer1: u8, answer2: u8|
                worked == #[trigger] old(self)@.operate(*inst, answer1, answer2),
            worked.1 < 4,
            final(self)@ == old(self)@,
    {
        let code = inst.code;
        if is_arithmetic(code) {
            let ((a, error1), (b, error2)) = self.load_double_signed(
                &inst.arg1,
                &inst.arg2,
                &inst.options,
            );
            let outcome = arithmetic(code, a, b);
            let loads: u8 = error1 * ERROR_LOAD_FIRST + error2 * ERROR_LOAD_SECOND;
            proof {
                let (data1, data2) = choose|data1: u8, data2: u8|
                    {
                        &&& (data1, error1) == old(self)@.load(inst.arg1.spec_address(), data1)
                        &&& (data2, error2) == old(self)@.load(inst.arg2.spec_address(), data2)
                        &&& a == #[trigger] spec_widen(data1, inst.options.arg1_signed)
                        &&& b == #[trigger] spec_widen(data2, inst.options.arg2_signed)
                    };
                assert((outcome, loads) == old(self)@.operate(*inst, data1, data2));
            }
            (outcome, loads)
        } else if reads_second(code) {
            let ((data1, error1), (data2, error2)) = self.load_double(&inst.arg1, &inst.arg2);
            let outcome = compute(code, inst.options, data1, data2);
            let loads: u8 = error1 * ERROR_LOAD_FIRST + error2 * ERROR_LOAD_SECOND;
            assert((outcome, loads) == old(self)@.operate(*inst, data1, data2));
            (outcome, loads)
        } else if reads_first(code) {
            let (data1, error1) = self.load(&inst.arg1);
            let outcome = compute(code, inst.options, data1, 0);
            let loads: u8 = error1 * ERROR_LOAD_FIRST;
            assert((outcome, loads) == old(self)@.operate(*inst, data1, 0));
            (outcome, loads)
        } else {
            assert((Outcome::Nothing, 0u8) == old(self)@.operate(*inst, 0, 0));
            (Outcome::Nothing, 0)
        }
    }

    /// Stores what the outcome of `inst` asks to store. Returns the
    /// instruction's result code and whether the next instruction is to be
    /// skipped. `loads` holds the error bits of the loads and no other bit.
    pub fn settle(&mut self, inst: &Instruction, outcome: Outcome, loads: u8) -> (settled: (u8, bool))
        requires
            inst.spec_is_resolved(),
            loads < 4,
        ensures
            (final(self)@, settled.0, settled.1) == old(self)@.settle(*inst, outcome, loads),
    {
        match outcome {
            Outcome::Nothing => (loads, false),
            Outcome::Write(value) => {
                let error = if inst.code == OpCode::Copy {
                    self.push(&inst.arg2, value)
                } else {
                    self.push(&inst.arg1, value)
                };
                (loads + error * ERROR_STORE, false)
            },
            Outcome::Compare(holds) => (loads, !holds),
            Outcome::DivideByZero => (loads + ERROR_ARITHMETIC, false),
        }
    }

    /// Ends an instruction: halts, or moves the program counter on.
    pub fn conclude(&mut self, halt_on_error: bool, errors: u8, skip: bool) -> (state: Halted)
        ensures
            (final(self)@, state) == old(self)@.conclude(halt_on_error, errors, skip),
    {
        if halt_on_error && errors != 0 {
            return Halted::Halted;
        }
        let step: u16 = if skip { 6 } else { 3 };
        self.reg_zero = ((self.reg_zero as u16 + step) % 256) as u8;
        Halted::Running
    }

    /// Carries out one instruction and moves the program counter.
    ///
    /// The result is that of [`Machine::execute`] for the bytes that the
    /// devices answered with; where the instruction loads from no device, it
    /// is fixed by the machine and the instruction alone.
    pub fn process(&mut self, inst: Instruction) -> (state: Halted)
        requires
            inst.spec_is_resolved(),
        ensures
            exists|answer1: u8, answer2: u8|
                (final(self)@, state) == #[trigger] old(self)@.execute(inst, answer1, answer2),
    {
        let (outcome, loads) = self.operate(&inst);
        let (errors, skip) = self.settle(&inst, outcome, loads);
        let state = self.conclude(inst.options.halt_on_error, errors, skip);
        proof {
            let (answer1, answer2) = choose|answer1: u8, answer2: u8|
                (outcome, loads) == #[trigger] old(self)@.operate(inst, answer1, answer2);
            assert((self@, state) == old(self)@.execute(inst, answer1, answer2));
        }
        state
    }

    /// One cycle: fetches the instruction at the program counter and carries
    /// it out.
    pub fn tick(&mut self) -> (state: Halted)
        ensures
            exists|answer1: u8, answer2: u8|
                (final(self)@, state) == #[trigger] old(self)@.execute(
                    old(self)@.fetch(),
                    answer1,
                    answer2,
                ),
    {
        let inst = self.fetch();
        self.process(inst)
    }
}

} // verus!
