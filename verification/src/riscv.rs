use vstd::prelude::*;
use crate::hashing::le32;
use crate::text::{decimal_chars, message_with_number};
use crate::vm_executor::VMExecutionError;
use crate::objects::VMType;

verus! {

/// Address of the input buffer that receives the serialized execution context.
pub const INPUT_BUFFER_ADDR: u32 = 0x10000000;

/// Address of the output buffer from which object effects are read.
pub const OUTPUT_BUFFER_ADDR: u32 = 0x20000000;

/// Largest input or output buffer, in bytes.
pub const MAX_BUFFER_SIZE: u32 = 1024 * 1024;

/// Address at which raw bytecode is loaded.
pub const CODE_BASE_ADDR: u32 = 0x1000;

/// Loadable segment type of an ELF program header.
pub const PT_LOAD: u32 = 1;

/// Size of a 32-bit ELF header.
pub const ELF32_HEADER_SIZE: usize = 52;

/// Size of a 32-bit ELF program header.
pub const ELF32_PHDR_SIZE: usize = 32;

/// Size of the 32-bit address space: no memory can usefully be larger.
pub const ADDRESS_SPACE: u64 = 0x1_0000_0000;

/// RISC-V executor configuration.
#[derive(Debug, Clone)]
pub struct RiscVExecutorConfig {
    /// Maximum memory size in bytes
    pub memory_limit: usize,
    /// Maximum number of instructions to execute
    pub instruction_limit: u64,
    /// Maximum execution time in milliseconds
    pub timeout_ms: u64,
}

impl Default for RiscVExecutorConfig {
    fn default() -> (c: Self)
        ensures
            c.memory_limit == 16 * 1024 * 1024,
            c.instruction_limit == 1_000_000,
            c.timeout_ms == 5000,
    {
        RiscVExecutorConfig {
            memory_limit: 16 * 1024 * 1024,
            instruction_limit: 1_000_000,
            timeout_ms: 5000,
        }
    }
}

/// The memory of the virtual machine: a flat byte array of `memory_limit` bytes.
pub struct RiscVMemory {
    pub data: Vec<u8>,
    pub memory_limit: usize,
}

/// `mem` with the bytes from `addr` on replaced by `bytes`.
pub open spec fn overwrite(mem: Seq<u8>, addr: int, bytes: Seq<u8>) -> Seq<u8> {
    Seq::new(mem.len(), |i: int| if addr <= i < addr + bytes.len() { bytes[i - addr] } else { mem[i] })
}

/// `n` zero bytes.
pub open spec fn zeros(n: nat) -> Seq<u8> {
    Seq::new(n, |i: int| 0u8)
}

/// The message of a write outside memory.
pub open spec fn write_oob_msg() -> Seq<char> {
    "Memory write out of bounds"@
}

/// The message of a read outside memory.
pub open spec fn read_oob_msg() -> Seq<char> {
    "Memory read out of bounds"@
}

/// `e` is the error of a write outside memory.
pub open spec fn is_write_oob(e: VMExecutionError) -> bool {
    e matches VMExecutionError::ExecutionFailed(s) && s@ == write_oob_msg()
}

impl RiscVMemory {
    /// The data array has exactly `memory_limit` bytes, which fit the address space.
    pub open spec fn wf(&self) -> bool {
        &&& self.data@.len() == self.memory_limit
        &&& self.memory_limit <= ADDRESS_SPACE
    }

    /// Whether the interpreter may access `size` bytes at `addr`: all of
    /// them lie within the memory.
    pub fn access(&self, addr: u32, size: usize) -> (r: bool)
        requires
            addr + size <= usize::MAX,
        ensures
            r == (addr + size <= self.memory_limit),
    {
        let a = addr as usize;
        !(a + size > self.memory_limit)
    }

    /// A zeroed memory of `memory_limit` bytes.
    pub fn new(memory_limit: usize) -> (m: Self)
        requires
            memory_limit <= ADDRESS_SPACE,
        ensures
            m.wf(),
            m.memory_limit == memory_limit,
            m.data@ == zeros(memory_limit as nat),
    {
        let data = vec![0u8; memory_limit];
        proof {
            assert forall|i: int| 0 <= i < memory_limit implies data@[i] == 0u8 by {
                assert(cloned(0u8, data@[i]));
            }
            assert(data@ =~= zeros(memory_limit as nat));
        }
        RiscVMemory { data, memory_limit }
    }

    /// Copy `len` bytes of `src`, from `start` on, to `addr`; refused when they
    /// would not all fit in memory.
    fn write_from(&mut self, addr: u32, src: &[u8], start: usize, len: usize) -> (r: Result<
        (),
        VMExecutionError,
    >)
        requires
            old(self).wf(),
            start + len <= src@.len(),
        ensures
            final(self).wf(),
            final(self).memory_limit == old(self).memory_limit,
            r is Ok <==> addr + len <= old(self).memory_limit,
            r is Ok ==> final(self).data@ == overwrite(
                old(self).data@,
                addr as int,
                src@.subrange(start as int, start + len),
            ),
            r matches Err(e) ==> is_write_oob(e) && final(self).data@ == old(self).data@,
    {
        let a = addr as usize;
        if a > self.memory_limit || len > self.memory_limit - a {
            return Err(VMExecutionError::ExecutionFailed("Memory write out of bounds".to_owned()));
        }
        let ghost d0 = self.data@;
        let mut i: usize = 0;
        while i < len
            invariant
                i <= len,
                a + len <= self.memory_limit,
                self.data@.len() == self.memory_limit,
                self.memory_limit <= ADDRESS_SPACE,
                d0.len() == self.memory_limit,
                start + len <= src.len(),
                forall|k: int|
                    0 <= k < d0.len() ==> #[trigger] self.data@[k] == if a <= k < a + i {
                        src@[start + k - a]
                    } else {
                        d0[k]
                    },
            decreases len - i,
        {
            self.data[a + i] = src[start + i];
            i = i + 1;
        }
        proof {
            assert(self.data@ =~= overwrite(d0, a as int, src@.subrange(start as int, start + len)));
        }
        Ok(())
    }

    /// Set `len` bytes from `addr` on to zero; refused when they would not all fit.
    fn zero_fill(&mut self, addr: u32, len: usize) -> (r: Result<(), VMExecutionError>)
        requires
            old(self).wf(),
        ensures
            final(self).wf(),
            final(self).memory_limit == old(self).memory_limit,
            r is Ok <==> addr + len <= old(self).memory_limit,
            r is Ok ==> final(self).data@ == overwrite(old(self).data@, addr as int, zeros(len as nat)),
            r matches Err(e) ==> is_write_oob(e) && final(self).data@ == old(self).data@,
    {
        let a = addr as usize;
        if a > self.memory_limit || len > self.memory_limit - a {
            return Err(VMExecutionError::ExecutionFailed("Memory write out of bounds".to_owned()));
        }
        let ghost d0 = self.data@;
        let mut i: usize = 0;
        while i < len
            invariant
                i <= len,
                a + len <= self.memory_limit,
                self.data@.len() == self.memory_limit,
                self.memory_limit <= ADDRESS_SPACE,
                d0.len() == self.memory_limit,
                forall|k: int|
                    0 <= k < d0.len() ==> #[trigger] self.data@[k] == if a <= k < a + i {
                        0u8
                    } else {
                        d0[k]
                    },
            decreases len - i,
        {
            self.data[a + i] = 0u8;
            i = i + 1;
        }
        proof {
            assert(self.data@ =~= overwrite(d0, a as int, zeros(len as nat)));
        }
        Ok(())
    }

    /// Write `bytes` to memory at `addr`.
    pub fn write_bytes(&mut self, addr: u32, bytes: &[u8]) -> (r: Result<(), VMExecutionError>)
        requires
            old(self).wf(),
        ensures
            final(self).wf(),
            final(self).memory_limit == old(self).memory_limit,
            r is Ok <==> addr + bytes@.len() <= old(self).memory_limit,
            r is Ok ==> final(self).data@ == overwrite(old(self).data@, addr as int, bytes@),
            r matches Err(e) ==> is_write_oob(e) && final(self).data@ == old(self).data@,
    {
        let r = self.write_from(addr, bytes, 0, bytes.len());
        proof {
            assert(bytes@.subrange(0, bytes@.len() as int) =~= bytes@);
        }
        r
    }

    /// Read `len` bytes of memory from `addr` on.
    pub fn read_bytes(&self, addr: u32, len: usize) -> (r: Result<Vec<u8>, VMExecutionError>)
        requires
            self.wf(),
        ensures
            r is Ok <==> addr + len <= self.memory_limit,
            r matches Ok(v) ==> v@ == self.data@.subrange(addr as int, addr + len),
            r matches Err(e) ==> e matches VMExecutionError::ExecutionFailed(s) && s@
                == read_oob_msg(),
    {
        let a = addr as usize;
        if a > self.memory_limit || len > self.memory_limit - a {
            return Err(VMExecutionError::ExecutionFailed("Memory read out of bounds".to_owned()));
        }
        let mut out: Vec<u8> = Vec::new();
        let mut i: usize = 0;
        while i < len
            invariant
                i <= len,
                a + len <= self.memory_limit,
                self.data@.len() == self.memory_limit,
                out@ == self.data@.subrange(a as int, a + i),
            decreases len - i,
        {
            out.push(self.data[a + i]);
            i = i + 1;
            proof {
                assert(out@ =~= self.data@.subrange(a as int, a + i));
            }
        }
        Ok(out)
    }
}

/// The little-endian 16-bit number at `off` in `b`.
pub open spec fn u16_at(b: Seq<u8>, off: int) -> int {
    b[off] + 256 * b[off + 1]
}

/// The little-endian 32-bit number at `off` in `b`.
pub open spec fn u32_at(b: Seq<u8>, off: int) -> int {
    b[off] + 256 * b[off + 1] + 65536 * b[off + 2] + 16777216 * b[off + 3]
}

/// Read the little-endian 16-bit number at `off`.
pub fn read_u16_le(b: &[u8], off: usize) -> (r: u16)
    requires
        off + 2 <= b@.len(),
    ensures
        r == u16_at(b@, off as int),
{
    (b[off] as u16) + (b[off + 1] as u16) * 256
}

/// Read the little-endian 32-bit number at `off`.
pub fn read_u32_le(b: &[u8], off: usize) -> (r: u32)
    requires
        off + 4 <= b@.len(),
    ensures
        r == u32_at(b@, off as int),
{
    (b[off] as u32) + (b[off + 1] as u32) * 256 + (b[off + 2] as u32) * 65536 + (b[off + 3] as u32)
        * 16777216
}

/// Why loading a program can fail, as a value to state contracts over.
pub enum Fault {
    /// `InvalidBytecode` with this message
    Invalid(Seq<char>),
    /// `MemoryLimitExceeded`
    MemoryLimit,
    /// `ExecutionFailed` with this message
    Failed(Seq<char>),
}

/// `e` is the error that `f` describes.
pub open spec fn fault_matches(e: VMExecutionError, f: Fault) -> bool {
    match f {
        Fault::Invalid(m) => e matches VMExecutionError::InvalidBytecode(s) && s@ == m,
        Fault::MemoryLimit => e is MemoryLimitExceeded,
        Fault::Failed(m) => e matches VMExecutionError::ExecutionFailed(s) && s@ == m,
    }
}

/// `r` is the outcome `o` describes.
pub open spec fn outcome_matches<T>(r: Result<T, VMExecutionError>, o: Result<T, Fault>) -> bool {
    match o {
        Ok(v) => r == Ok::<T, VMExecutionError>(v),
        Err(f) => r matches Err(e) && fault_matches(e, f),
    }
}

/// The four bytes of `b` from `off` on are `m0 m1 m2 m3`.
pub open spec fn has_magic(b: Seq<u8>, m0: u8, m1: u8, m2: u8, m3: u8) -> bool {
    b.len() >= 4 && b[0] == m0 && b[1] == m1 && b[2] == m2 && b[3] == m3
}

/// `b` starts with the ELF magic `\x7fELF`.
pub open spec fn is_elf(b: Seq<u8>) -> bool {
    has_magic(b, 0x7f, 0x45, 0x4c, 0x46)
}

/// `b` starts with the raw bytecode magic `RVBC`.
pub open spec fn is_raw_bytecode(b: Seq<u8>) -> bool {
    has_magic(b, 0x52, 0x56, 0x42, 0x43)
}

/// Why the ELF header of `b` is refused, if it is.
pub open spec fn elf_header_fault(b: Seq<u8>) -> Option<Seq<char>> {
    if !is_elf(b) {
        Some("Invalid ELF magic bytes"@)
    } else if b.len() < 52 {
        Some("ELF file too small"@)
    } else if b[4] != 1 {
        Some("Only 32-bit ELF files are supported"@)
    } else if b[5] != 1 {
        Some("Only little-endian ELF files are supported"@)
    } else if u32_at(b, 24) == 0 {
        Some("Invalid entry point (zero)"@)
    } else if u32_at(b, 24) % 4 != 0 {
        Some("Entry point must be 4-byte aligned"@)
    } else if u16_at(b, 42) != 32 {
        Some(
            "Invalid program header size: expected 32, got "@ + decimal_chars(
                u16_at(b, 42) as nat,
            ),
        )
    } else if u32_at(b, 28) == 0 || u16_at(b, 44) == 0 {
        Some("No program headers found"@)
    } else if u32_at(b, 28) + u16_at(b, 44) * 32 > b.len() {
        Some("Program headers extend beyond file"@)
    } else {
        None
    }
}

/// The message of a segment whose data lies beyond the file.
pub open spec fn segment_beyond_msg(i: int) -> Seq<char> {
    "Segment "@ + decimal_chars(i as nat) + " data extends beyond file"@
}

/// Loading the `i`-th program header into `mem`: the fault met, if any, the
/// memory afterwards, and whether it was a loadable segment that was loaded.
#[verifier::opaque]
pub open spec fn segment_step(b: Seq<u8>, limit: int, phoff: int, i: int, mem: Seq<u8>) -> (
    Option<Fault>,
    Seq<u8>,
    bool,
) {
    let ph = phoff + i * 32;
    if u32_at(b, ph) != 1 {
        (None, mem, false)
    } else {
        let off = u32_at(b, ph + 4);
        let vaddr = u32_at(b, ph + 8);
        let filesz = u32_at(b, ph + 16);
        let memsz = u32_at(b, ph + 20);
        if off + filesz > b.len() {
            (Some(Fault::Invalid(segment_beyond_msg(i))), mem, false)
        } else if vaddr + memsz > limit {
            (Some(Fault::MemoryLimit), mem, false)
        } else if filesz > 0 && vaddr + filesz > mem.len() {
            (Some(Fault::Failed(write_oob_msg())), mem, false)
        } else {
            let m1 = if filesz > 0 {
                overwrite(mem, vaddr, b.subrange(off, off + filesz))
            } else {
                mem
            };
            if memsz > filesz && vaddr + memsz > m1.len() {
                (Some(Fault::Failed(write_oob_msg())), m1, false)
            } else {
                let m2 = if memsz > filesz {
                    overwrite(m1, vaddr + filesz, zeros((memsz - filesz) as nat))
                } else {
                    m1
                };
                (None, m2, true)
            }
        }
    }
}

/// Loading the program headers from the `i`-th on into `mem`: the fault met, if
/// any, the memory afterwards, and whether a loadable segment was loaded.
pub open spec fn segments_load(
    b: Seq<u8>,
    limit: int,
    phoff: int,
    phnum: int,
    i: int,
    mem: Seq<u8>,
    loaded: bool,
) -> (Option<Fault>, Seq<u8>, bool)
    decreases phnum - i,
{
    if i >= phnum {
        (None, mem, loaded)
    } else {
        let (f, m, l) = segment_step(b, limit, phoff, i, mem);
        match f {
            Some(f) => (Some(f), m, loaded),
            None => segments_load(b, limit, phoff, phnum, i + 1, m, loaded || l),
        }
    }
}

/// Loading the ELF image `b` into `mem` under the memory limit `limit`: the entry
/// point or the fault, and the memory afterwards.
pub open spec fn elf_load(b: Seq<u8>, limit: int, mem: Seq<u8>) -> (Result<u32, Fault>, Seq<u8>) {
    match elf_header_fault(b) {
        Some(msg) => (Err(Fault::Invalid(msg)), mem),
        None => {
            let (f, m, loaded) = segments_load(b, limit, u32_at(b, 28), u16_at(b, 44), 0, mem, false);
            match f {
                Some(f) => (Err(f), m),
                None => if loaded {
                    (Ok(u32_at(b, 24) as u32), m)
                } else {
                    (Err(Fault::Invalid("No loadable segments found"@)), m)
                },
            }
        },
    }
}

/// Loading raw bytecode `b` into `mem`: the entry point or the fault, and the
/// memory afterwards.
pub open spec fn raw_load(b: Seq<u8>, mem: Seq<u8>) -> (Result<u32, Fault>, Seq<u8>) {
    if b.len() < 12 {
        (Err(Fault::Invalid("Bytecode too small"@)), mem)
    } else if !is_raw_bytecode(b) {
        (Err(Fault::Invalid("Invalid bytecode magic"@)), mem)
    } else if u32_at(b, 4) >= b.len() - 8 {
        (Err(Fault::Invalid("Entry offset out of bounds"@)), mem)
    } else if u32_at(b, 4) % 4 != 0 {
        (Err(Fault::Invalid("Entry offset must be 4-byte aligned"@)), mem)
    } else if CODE_BASE_ADDR + (b.len() - 8) > mem.len() {
        (Err(Fault::Failed(write_oob_msg())), mem)
    } else {
        (
            Ok((CODE_BASE_ADDR + u32_at(b, 4)) as u32),
            overwrite(mem, CODE_BASE_ADDR as int, b.subrange(8, b.len() as int)),
        )
    }
}

/// Writing the serialized context `ctx` to the input buffer of `mem`: the fault
/// met, if any, and the memory afterwards. The buffer is preceded by its length.
pub open spec fn input_setup(ctx: Seq<u8>, mem: Seq<u8>) -> (Option<Fault>, Seq<u8>) {
    if ctx.len() > MAX_BUFFER_SIZE {
        (
            Some(
                Fault::Failed(
                    "Execution context too large: "@ + decimal_chars(ctx.len()) + " bytes"@,
                ),
            ),
            mem,
        )
    } else if INPUT_BUFFER_ADDR + ctx.len() > mem.len() {
        (Some(Fault::Failed(write_oob_msg())), mem)
    } else {
        (
            None,
            overwrite(
                overwrite(mem, INPUT_BUFFER_ADDR as int, ctx),
                INPUT_BUFFER_ADDR - 4,
                le32(ctx.len() as u32),
            ),
        )
    }
}

/// Everything done before the program runs: the format is told by the magic, the
/// program is loaded into a zeroed memory of `limit` bytes, and the context is
/// written to the input buffer.
pub open spec fn prepared(b: Seq<u8>, ctx: Seq<u8>, limit: int) -> (Result<u32, Fault>, Seq<u8>) {
    let mem = zeros(limit as nat);
    let (loaded, m1) = if is_raw_bytecode(b) {
        raw_load(b, mem)
    } else if is_elf(b) {
        elf_load(b, limit, mem)
    } else {
        (Err(Fault::Invalid("Unknown bytecode format (expected RVBC or ELF)"@)), mem)
    };
    match loaded {
        Err(f) => (Err(f), m1),
        Ok(entry) => {
            let (f, m2) = input_setup(ctx, m1);
            match f {
                Some(f) => (Err(f), m2),
                None => (Ok(entry), m2),
            }
        },
    }
}

/// Reading the output buffer of `mem`: the raw bytes the program left there, or
/// the fault. Its length stands in the four bytes before it.
pub open spec fn output_read(mem: Seq<u8>) -> Result<Seq<u8>, Fault> {
    if OUTPUT_BUFFER_ADDR > mem.len() {
        Err(
            Fault::Failed(
                "Failed to read output size: VM execution failed: Memory read out of bounds"@,
            ),
        )
    } else {
        let size = u32_at(mem, OUTPUT_BUFFER_ADDR - 4);
        if size > MAX_BUFFER_SIZE {
            Err(
                Fault::Failed(
                    "Output buffer size too large: "@ + decimal_chars(size as nat) + " bytes"@,
                ),
            )
        } else if size == 0 {
            Ok(Seq::empty())
        } else if OUTPUT_BUFFER_ADDR + size > mem.len() {
            Err(
                Fault::Failed(
                    "Failed to read output buffer: VM execution failed: Memory read out of bounds"@,
                ),
            )
        } else {
            Ok(mem.subrange(OUTPUT_BUFFER_ADDR as int, OUTPUT_BUFFER_ADDR + size))
        }
    }
}

/// RISC-V VM executor: loads a program and its context into memory and reads
/// back what the program left in its output buffer.
pub struct RiscVExecutor {
    pub config: RiscVExecutorConfig,
}

impl RiscVExecutor {
    /// An executor with the default configuration.
    pub fn new() -> (e: Self)
        ensures
            e.config.memory_limit == 16 * 1024 * 1024,
            e.config.instruction_limit == 1_000_000,
            e.config.timeout_ms == 5000,
    {
        RiscVExecutor { config: RiscVExecutorConfig::default() }
    }

    /// The VM type this executor runs.
    pub fn vm_type(&self) -> (t: VMType)
        ensures
            t == VMType::RiscV,
    {
        VMType::RiscV
    }

    /// An executor with the given configuration.
    pub fn with_config(config: RiscVExecutorConfig) -> (e: Self)
        ensures
            e.config == config,
    {
        RiscVExecutor { config }
    }

    /// Check the ELF header of `elf_bytes` and return its entry point.
    pub fn check_elf_header(elf_bytes: &[u8]) -> (r: Result<u32, VMExecutionError>)
        ensures
            outcome_matches(
                r,
                match elf_header_fault(elf_bytes@) {
                    Some(m) => Err(Fault::Invalid(m)),
                    None => Ok(u32_at(elf_bytes@, 24) as u32),
                },
            ),
    {
        if elf_bytes.len() < 4 || elf_bytes[0] != 0x7f || elf_bytes[1] != 0x45 || elf_bytes[2] != 0x4c
            || elf_bytes[3] != 0x46 {
            return Err(VMExecutionError::InvalidBytecode("Invalid ELF magic bytes".to_owned()));
        }
        if elf_bytes.len() < ELF32_HEADER_SIZE {
            return Err(VMExecutionError::InvalidBytecode("ELF file too small".to_owned()));
        }
        if elf_bytes[4] != 1 {
            return Err(
                VMExecutionError::InvalidBytecode("Only 32-bit ELF files are supported".to_owned()),
            );
        }
        if elf_bytes[5] != 1 {
            return Err(
                VMExecutionError::InvalidBytecode(
                    "Only little-endian ELF files are supported".to_owned(),
                ),
            );
        }
        let entry_point = read_u32_le(elf_bytes, 24);
        let phoff = read_u32_le(elf_bytes, 28);
        let phentsize = read_u16_le(elf_bytes, 42);
        let phnum = read_u16_le(elf_bytes, 44);
        if entry_point == 0 {
            return Err(VMExecutionError::InvalidBytecode("Invalid entry point (zero)".to_owned()));
        }
        if entry_point % 4 != 0 {
            return Err(
                VMExecutionError::InvalidBytecode("Entry point must be 4-byte aligned".to_owned()),
            );
        }
        if phentsize as usize != ELF32_PHDR_SIZE {
            let msg = message_with_number(
                "Invalid program header size: expected 32, got ",
                phentsize as u64,
                "",
            );
            proof {
                reveal_strlit("");
                assert(msg@ =~= "Invalid program header size: expected 32, got "@ + decimal_chars(
                    phentsize as nat,
                ));
            }
            return Err(VMExecutionError::InvalidBytecode(msg));
        }
        if phoff == 0 || phnum == 0 {
            return Err(VMExecutionError::InvalidBytecode("No program headers found".to_owned()));
        }
        let ph_end: u64 = phoff as u64 + (phnum as u64) * 32;
        if ph_end > elf_bytes.len() as u64 {
            return Err(
                VMExecutionError::InvalidBytecode("Program headers extend beyond file".to_owned()),
            );
        }
        Ok(entry_point)
    }

    /// Load an ELF image into `memory` and return its entry point. Every loadable
    /// segment is copied to its address, and the rest of its memory size zeroed.
    pub fn load_elf(&self, elf_bytes: &[u8], memory: &mut RiscVMemory) -> (r: Result<
        u32,
        VMExecutionError,
    >)
        requires
            old(memory).wf(),
            self.config.memory_limit <= ADDRESS_SPACE,
        ensures
            final(memory).wf(),
            final(memory).memory_limit == old(memory).memory_limit,
            outcome_matches(r, elf_load(elf_bytes@, self.config.memory_limit as int, old(memory).data@).0),
            final(memory).data@ == elf_load(
                elf_bytes@,
                self.config.memory_limit as int,
                old(memory).data@,
            ).1,
    {
        let ghost b = elf_bytes@;
        let ghost limit = self.config.memory_limit as int;
        let ghost mem0 = memory.data@;
        let entry_point = match Self::check_elf_header(elf_bytes) {
            Ok(e) => e,
            Err(e) => {
                return Err(e);
            },
        };
        let phoff = read_u32_le(elf_bytes, 28) as usize;
        let phnum = read_u16_le(elf_bytes, 44) as usize;
        assert(elf_header_fault(b) is None);
        let mut loaded_any = false;
        let mut i: usize = 0;
        while i < phnum
            invariant
                b == elf_bytes@,
                elf_header_fault(b) is None,
                mem0 == old(memory).data@,
                limit == self.config.memory_limit,
                limit <= ADDRESS_SPACE,
                phoff == u32_at(b, 28),
                phnum == u16_at(b, 44),
                phoff + phnum * 32 <= elf_bytes.len(),
                i <= phnum,
                memory.wf(),
                memory.memory_limit == old(memory).memory_limit,
                segments_load(b, limit, phoff as int, phnum as int, 0, mem0, false)
                    == segments_load(b, limit, phoff as int, phnum as int, i as int, memory.data@, loaded_any),
            decreases phnum - i,
        {
            assert(i * 32 + 32 <= phnum * 32) by (nonlinear_arith)
                requires
                    i < phnum,
            ;
            let ghost cur = memory.data@;
            let ghost cl = loaded_any;
            let ghost step = segment_step(b, limit, phoff as int, i as int, cur);
            assert(segments_load(b, limit, phoff as int, phnum as int, i as int, cur, cl) == match step.0 {
                Some(f) => (Some(f), step.1, cl),
                None => segments_load(b, limit, phoff as int, phnum as int, i + 1, step.1, cl || step.2),
            });
            match self.load_segment(elf_bytes, memory, phoff, i) {
                Ok(l) => {
                    loaded_any = loaded_any || l;
                },
                Err(e) => {
                    return Err(e);
                },
            }
            i = i + 1;
        }
        if !loaded_any {
            return Err(VMExecutionError::InvalidBytecode("No loadable segments found".to_owned()));
        }
        Ok(entry_point)
    }

    /// Load the `i`-th program header, whose table starts at `phoff`: a loadable
    /// segment is copied to its address and the rest of its memory size zeroed.
    /// Returns whether it was a loadable segment.
    fn load_segment(&self, elf_bytes: &[u8], memory: &mut RiscVMemory, phoff: usize, i: usize) -> (r:
        Result<bool, VMExecutionError>)
        requires
            old(memory).wf(),
            self.config.memory_limit <= ADDRESS_SPACE,
            phoff + i * 32 + 32 <= elf_bytes.len(),
        ensures
            final(memory).wf(),
            final(memory).memory_limit == old(memory).memory_limit,
            ({
                let (f, m, l) = segment_step(
                    elf_bytes@,
                    self.config.memory_limit as int,
                    phoff as int,
                    i as int,
                    old(memory).data@,
                );
                &&& final(memory).data@ == m
                &&& match f {
                    Some(f) => r matches Err(e) && fault_matches(e, f),
                    None => r == Ok::<bool, VMExecutionError>(l),
                }
            }),
    {
        reveal(segment_step);
        let ph_offset = phoff + i * 32;
        let p_type = read_u32_le(elf_bytes, ph_offset);
        if p_type != PT_LOAD {
            return Ok(false);
        }
        let p_offset = read_u32_le(elf_bytes, ph_offset + 4) as usize;
        let p_vaddr = read_u32_le(elf_bytes, ph_offset + 8);
        let p_filesz = read_u32_le(elf_bytes, ph_offset + 16) as usize;
        let p_memsz = read_u32_le(elf_bytes, ph_offset + 20) as usize;
        if p_offset as u64 + p_filesz as u64 > elf_bytes.len() as u64 {
            let msg = message_with_number("Segment ", i as u64, " data extends beyond file");
            return Err(VMExecutionError::InvalidBytecode(msg));
        }
        if p_vaddr as u64 + p_memsz as u64 > self.config.memory_limit as u64 {
            return Err(VMExecutionError::MemoryLimitExceeded);
        }
        if p_filesz > 0 {
            match memory.write_from(p_vaddr, elf_bytes, p_offset, p_filesz) {
                Ok(()) => {},
                Err(e) => {
                    return Err(e);
                },
            }
        }
        if p_memsz > p_filesz {
            let zero_start = p_vaddr + p_filesz as u32;
            let zero_size = p_memsz - p_filesz;
            match memory.zero_fill(zero_start, zero_size) {
                Ok(()) => {},
                Err(e) => {
                    return Err(e);
                },
            }
        }
        Ok(true)
    }

    /// Load raw bytecode (`RVBC`, a little-endian entry offset, then the code) into
    /// `memory` at `CODE_BASE_ADDR` and return the absolute entry point.
    pub fn load_raw_bytecode(&self, bytecode: &[u8], memory: &mut RiscVMemory) -> (r: Result<
        u32,
        VMExecutionError,
    >)
        requires
            old(memory).wf(),
        ensures
            final(memory).wf(),
            final(memory).memory_limit == old(memory).memory_limit,
            outcome_matches(r, raw_load(bytecode@, old(memory).data@).0),
            final(memory).data@ == raw_load(bytecode@, old(memory).data@).1,
    {
        if bytecode.len() < 12 {
            return Err(VMExecutionError::InvalidBytecode("Bytecode too small".to_owned()));
        }
        if bytecode[0] != 0x52 || bytecode[1] != 0x56 || bytecode[2] != 0x42 || bytecode[3] != 0x43 {
            return Err(VMExecutionError::InvalidBytecode("Invalid bytecode magic".to_owned()));
        }
        let entry_offset = read_u32_le(bytecode, 4);
        let code_len = bytecode.len() - 8;
        if entry_offset as usize >= code_len {
            return Err(VMExecutionError::InvalidBytecode("Entry offset out of bounds".to_owned()));
        }
        if entry_offset % 4 != 0 {
            return Err(
                VMExecutionError::InvalidBytecode("Entry offset must be 4-byte aligned".to_owned()),
            );
        }
        match memory.write_from(CODE_BASE_ADDR, bytecode, 8, code_len) {
            Ok(()) => {},
            Err(e) => {
                return Err(e);
            },
        }
        Ok(CODE_BASE_ADDR + entry_offset)
    }

    /// Write the serialized execution context to the input buffer, preceded by
    /// its length.
    pub fn setup_input_buffer(&self, memory: &mut RiscVMemory, context_bytes: &[u8]) -> (r: Result<
        (),
        VMExecutionError,
    >)
        requires
            old(memory).wf(),
        ensures
            final(memory).wf(),
            final(memory).memory_limit == old(memory).memory_limit,
            match input_setup(context_bytes@, old(memory).data@).0 {
                Some(f) => r matches Err(e) && fault_matches(e, f),
                None => r is Ok,
            },
            final(memory).data@ == input_setup(context_bytes@, old(memory).data@).1,
    {
        if context_bytes.len() > MAX_BUFFER_SIZE as usize {
            let msg = message_with_number(
                "Execution context too large: ",
                context_bytes.len() as u64,
                " bytes",
            );
            return Err(VMExecutionError::ExecutionFailed(msg));
        }
        match memory.write_bytes(INPUT_BUFFER_ADDR, context_bytes) {
            Ok(()) => {},
            Err(e) => {
                return Err(e);
            },
        }
        let size_bytes = vstd::bytes::u32_to_le_bytes(context_bytes.len() as u32);
        let w = memory.write_bytes(INPUT_BUFFER_ADDR - 4, size_bytes.as_slice());
        assert(w is Ok);
        Ok(())
    }

    /// Read the raw bytes that the program left in the output buffer.
    pub fn read_output_buffer(&self, memory: &RiscVMemory) -> (r: Result<Vec<u8>, VMExecutionError>)
        requires
            memory.wf(),
        ensures
            match output_read(memory.data@) {
                Ok(v) => r matches Ok(w) && w@ == v,
                Err(f) => r matches Err(e) && fault_matches(e, f),
            },
    {
        let size_bytes = match memory.read_bytes(OUTPUT_BUFFER_ADDR - 4, 4) {
            Ok(v) => v,
            Err(_) => {
                return Err(
                    VMExecutionError::ExecutionFailed(
                        "Failed to read output size: VM execution failed: Memory read out of bounds".to_owned(),
                    ),
                );
            },
        };
        let output_size = read_u32_le(size_bytes.as_slice(), 0);
        assert(output_size == u32_at(memory.data@, OUTPUT_BUFFER_ADDR - 4));
        if output_size > MAX_BUFFER_SIZE {
            let msg = message_with_number(
                "Output buffer size too large: ",
                output_size as u64,
                " bytes",
            );
            return Err(VMExecutionError::ExecutionFailed(msg));
        }
        if output_size == 0 {
            return Ok(Vec::new());
        }
        match memory.read_bytes(OUTPUT_BUFFER_ADDR, output_size as usize) {
            Ok(v) => Ok(v),
            Err(_) => Err(
                VMExecutionError::ExecutionFailed(
                    "Failed to read output buffer: VM execution failed: Memory read out of bounds".to_owned(),
                ),
            ),
        }
    }

    /// Everything done before the program runs: a zeroed memory of the configured
    /// size is made, the format is told by the magic (`RVBC` or ELF), the program is
    /// loaded, and the serialized context is written to the input buffer.
    pub fn prepare(&self, bytecode: &[u8], context_bytes: &[u8]) -> (r: Result<
        (RiscVMemory, u32),
        VMExecutionError,
    >)
        requires
            self.config.memory_limit <= ADDRESS_SPACE,
        ensures
            match prepared(bytecode@, context_bytes@, self.config.memory_limit as int) {
                (Ok(entry), m) => r matches Ok((mem, e)) && e == entry && mem.wf() && mem.data@ == m
                    && mem.memory_limit == self.config.memory_limit,
                (Err(f), _) => r matches Err(e) && fault_matches(e, f),
            },
    {
        let mut memory = RiscVMemory::new(self.config.memory_limit);
        let loaded = if bytecode.len() >= 4 && bytecode[0] == 0x52 && bytecode[1] == 0x56 && bytecode[2]
            == 0x42 && bytecode[3] == 0x43 {
            self.load_raw_bytecode(bytecode, &mut memory)
        } else if bytecode.len() >= 4 && bytecode[0] == 0x7f && bytecode[1] == 0x45 && bytecode[2]
            == 0x4c && bytecode[3] == 0x46 {
            self.load_elf(bytecode, &mut memory)
        } else {
            Err(
                VMExecutionError::InvalidBytecode(
                    "Unknown bytecode format (expected RVBC or ELF)".to_owned(),
                ),
            )
        };
        let entry_point = match loaded {
            Ok(e) => e,
            Err(e) => {
                return Err(e);
            },
        };
        match self.setup_input_buffer(&mut memory, context_bytes) {
            Ok(()) => {},
            Err(e) => {
                return Err(e);
            },
        }
        Ok((memory, entry_point))
    }
}

/// Where the `i`-th program header of `b` starts.
pub open spec fn ph_at(b: Seq<u8>, i: int) -> int {
    u32_at(b, 28) + i * 32
}

/// The `i`-th program header of `b` is a loadable segment.
pub open spec fn seg_loadable(b: Seq<u8>, i: int) -> bool {
    u32_at(b, ph_at(b, i)) == 1
}

/// The file offset of the `i`-th segment's data.
pub open spec fn seg_offset(b: Seq<u8>, i: int) -> int {
    u32_at(b, ph_at(b, i) + 4)
}

/// The address the `i`-th segment is loaded at.
pub open spec fn seg_vaddr(b: Seq<u8>, i: int) -> int {
    u32_at(b, ph_at(b, i) + 8)
}

/// The size of the `i`-th segment's data in the file.
pub open spec fn seg_filesz(b: Seq<u8>, i: int) -> int {
    u32_at(b, ph_at(b, i) + 16)
}

/// The size of the `i`-th segment in memory.
pub open spec fn seg_memsz(b: Seq<u8>, i: int) -> int {
    u32_at(b, ph_at(b, i) + 20)
}

/// The end of the memory the `i`-th segment writes: its data, then zeros up to
/// its memory size.
pub open spec fn seg_end(b: Seq<u8>, i: int) -> int {
    seg_vaddr(b, i) + if seg_filesz(b, i) >= seg_memsz(b, i) {
        seg_filesz(b, i)
    } else {
        seg_memsz(b, i)
    }
}

/// The `i`-th program header writes no memory in `[lo, hi)`.
pub open spec fn seg_clear_of(b: Seq<u8>, i: int, lo: int, hi: int) -> bool {
    seg_loadable(b, i) ==> seg_end(b, i) <= lo || hi <= seg_vaddr(b, i)
}

proof fn lemma_step_keeps(b: Seq<u8>, limit: int, i: int, mem: Seq<u8>, lo: int, hi: int)
    requires
        segment_step(b, limit, u32_at(b, 28), i, mem).0 is None,
        seg_clear_of(b, i, lo, hi),
    ensures
        segment_step(b, limit, u32_at(b, 28), i, mem).1.len() == mem.len(),
        forall|a: int|
            lo <= a < hi && 0 <= a < mem.len() ==> #[trigger] segment_step(
                b,
                limit,
                u32_at(b, 28),
                i,
                mem,
            ).1[a] == mem[a],
{
    reveal(segment_step);
}

proof fn lemma_step_writes(b: Seq<u8>, limit: int, i: int, mem: Seq<u8>)
    requires
        segment_step(b, limit, u32_at(b, 28), i, mem).0 is None,
        seg_loadable(b, i),
    ensures
        segment_step(b, limit, u32_at(b, 28), i, mem).1.len() == mem.len(),
        seg_offset(b, i) + seg_filesz(b, i) <= b.len(),
        seg_filesz(b, i) > 0 ==> seg_vaddr(b, i) + seg_filesz(b, i) <= mem.len(),
        forall|a: int|
            seg_vaddr(b, i) <= a < seg_vaddr(b, i) + seg_filesz(b, i) ==> #[trigger] segment_step(
                b,
                limit,
                u32_at(b, 28),
                i,
                mem,
            ).1[a] == b[seg_offset(b, i) + (a - seg_vaddr(b, i))],
        seg_memsz(b, i) > seg_filesz(b, i) ==> seg_vaddr(b, i) + seg_memsz(b, i) <= mem.len(),
        forall|a: int|
            seg_vaddr(b, i) + seg_filesz(b, i) <= a < seg_vaddr(b, i) + seg_memsz(b, i)
                ==> #[trigger] segment_step(b, limit, u32_at(b, 28), i, mem).1[a] == 0u8,
{
    reveal(segment_step);
}

proof fn lemma_segments_keep(
    b: Seq<u8>,
    limit: int,
    k: int,
    mem: Seq<u8>,
    l: bool,
    lo: int,
    hi: int,
)
    requires
        segments_load(b, limit, u32_at(b, 28), u16_at(b, 44), k, mem, l).0 is None,
        forall|j: int| k <= j < u16_at(b, 44) ==> #[trigger] seg_clear_of(b, j, lo, hi),
    ensures
        segments_load(b, limit, u32_at(b, 28), u16_at(b, 44), k, mem, l).1.len() == mem.len(),
        forall|a: int|
            lo <= a < hi && 0 <= a < mem.len() ==> #[trigger] segments_load(
                b,
                limit,
                u32_at(b, 28),
                u16_at(b, 44),
                k,
                mem,
                l,
            ).1[a] == mem[a],
    decreases u16_at(b, 44) - k,
{
    if k < u16_at(b, 44) {
        let step = segment_step(b, limit, u32_at(b, 28), k, mem);
        assert(seg_clear_of(b, k, lo, hi));
        lemma_step_keeps(b, limit, k, mem, lo, hi);
        lemma_segments_keep(b, limit, k + 1, step.1, l || step.2, lo, hi);
    }
}

proof fn lemma_segments_place(b: Seq<u8>, limit: int, k: int, mem: Seq<u8>, l: bool, i: int)
    requires
        segments_load(b, limit, u32_at(b, 28), u16_at(b, 44), k, mem, l).0 is None,
        0 <= k <= i < u16_at(b, 44),
        seg_loadable(b, i),
        forall|j: int|
            i < j < u16_at(b, 44) ==> #[trigger] seg_clear_of(
                b,
                j,
                seg_vaddr(b, i),
                seg_vaddr(b, i) + seg_filesz(b, i),
            ),
    ensures
        seg_offset(b, i) + seg_filesz(b, i) <= b.len(),
        seg_filesz(b, i) > 0 ==> seg_vaddr(b, i) + seg_filesz(b, i) <= segments_load(
            b,
            limit,
            u32_at(b, 28),
            u16_at(b, 44),
            k,
            mem,
            l,
        ).1.len(),
        forall|a: int|
            seg_vaddr(b, i) <= a < seg_vaddr(b, i) + seg_filesz(b, i) ==> #[trigger] segments_load(
                b,
                limit,
                u32_at(b, 28),
                u16_at(b, 44),
                k,
                mem,
                l,
            ).1[a] == b[seg_offset(b, i) + (a - seg_vaddr(b, i))],
    decreases i - k,
{
    let step = segment_step(b, limit, u32_at(b, 28), k, mem);
    let res = segments_load(b, limit, u32_at(b, 28), u16_at(b, 44), k, mem, l);
    if k == i {
        lemma_step_writes(b, limit, i, mem);
        let lo = seg_vaddr(b, i);
        let hi = seg_vaddr(b, i) + seg_filesz(b, i);
        lemma_segments_keep(b, limit, i + 1, step.1, l || step.2, lo, hi);
        assert forall|a: int| lo <= a < hi implies #[trigger] res.1[a] == b[seg_offset(b, i) + (a
            - seg_vaddr(b, i))] by {
            assert(step.1[a] == b[seg_offset(b, i) + (a - seg_vaddr(b, i))]);
        }
    } else {
        lemma_step_keeps(b, limit, k, mem, 0, 0);
        lemma_segments_place(b, limit, k + 1, step.1, l || step.2, i);
    }
}

/// Loading an ELF image copies every loadable segment to its address, not only
/// the first: when the image loads, the memory at each loadable segment's
/// address holds that segment's data from the file, unless a later loadable
/// segment writes over it.
pub proof fn lemma_elf_load_places_segments(b: Seq<u8>, limit: int, mem: Seq<u8>, i: int)
    requires
        elf_load(b, limit, mem).0 is Ok,
        0 <= i < u16_at(b, 44),
        seg_loadable(b, i),
        forall|j: int|
            i < j < u16_at(b, 44) ==> #[trigger] seg_clear_of(
                b,
                j,
                seg_vaddr(b, i),
                seg_vaddr(b, i) + seg_filesz(b, i),
            ),
    ensures
        seg_filesz(b, i) > 0 ==> elf_load(b, limit, mem).1.subrange(
            seg_vaddr(b, i),
            seg_vaddr(b, i) + seg_filesz(b, i),
        ) == b.subrange(seg_offset(b, i), seg_offset(b, i) + seg_filesz(b, i)),
{
    lemma_segments_place(b, limit, 0, mem, false, i);
    let out = elf_load(b, limit, mem).1;
    if seg_filesz(b, i) > 0 {
        let v = seg_vaddr(b, i);
        let o = seg_offset(b, i);
        let f = seg_filesz(b, i);
        assert forall|x: int| 0 <= x < f implies #[trigger] out.subrange(v, v + f)[x] == b.subrange(
            o,
            o + f,
        )[x] by {
            assert(out[v + x] == b[o + ((v + x) - v)]);
        }
        assert(out.subrange(v, v + f) =~= b.subrange(o, o + f));
    }
}

proof fn lemma_segments_zero(b: Seq<u8>, limit: int, k: int, mem: Seq<u8>, l: bool, i: int)
    requires
        segments_load(b, limit, u32_at(b, 28), u16_at(b, 44), k, mem, l).0 is None,
        0 <= k <= i < u16_at(b, 44),
        seg_loadable(b, i),
        forall|j: int|
            i < j < u16_at(b, 44) ==> #[trigger] seg_clear_of(
                b,
                j,
                seg_vaddr(b, i) + seg_filesz(b, i),
                seg_vaddr(b, i) + seg_memsz(b, i),
            ),
    ensures
        forall|a: int|
            seg_vaddr(b, i) + seg_filesz(b, i) <= a < seg_vaddr(b, i) + seg_memsz(b, i)
                ==> #[trigger] segments_load(b, limit, u32_at(b, 28), u16_at(b, 44), k, mem, l).1[a]
                == 0u8,
    decreases i - k,
{
    let step = segment_step(b, limit, u32_at(b, 28), k, mem);
    let res = segments_load(b, limit, u32_at(b, 28), u16_at(b, 44), k, mem, l);
    if k == i {
        lemma_step_writes(b, limit, i, mem);
        let lo = seg_vaddr(b, i) + seg_filesz(b, i);
        let hi = seg_vaddr(b, i) + seg_memsz(b, i);
        lemma_segments_keep(b, limit, i + 1, step.1, l || step.2, lo, hi);
        assert forall|a: int| lo <= a < hi implies #[trigger] res.1[a] == 0u8 by {
            assert(step.1[a] == 0u8);
        }
    } else {
        lemma_step_keeps(b, limit, k, mem, 0, 0);
        lemma_segments_zero(b, limit, k + 1, step.1, l || step.2, i);
    }
}

/// Loading an ELF image zeroes the rest of every loadable segment: when the
/// image loads, the memory from the end of a loadable segment's file data up to
/// its memory size holds zeros, unless a later loadable segment writes over it.
pub proof fn lemma_elf_load_zero_fills(b: Seq<u8>, limit: int, mem: Seq<u8>, i: int)
    requires
        elf_load(b, limit, mem).0 is Ok,
        0 <= i < u16_at(b, 44),
        seg_loadable(b, i),
        forall|j: int|
            i < j < u16_at(b, 44) ==> #[trigger] seg_clear_of(
                b,
                j,
                seg_vaddr(b, i) + seg_filesz(b, i),
                seg_vaddr(b, i) + seg_memsz(b, i),
            ),
    ensures
        forall|a: int|
            seg_vaddr(b, i) + seg_filesz(b, i) <= a < seg_vaddr(b, i) + seg_memsz(b, i)
                ==> #[trigger] elf_load(b, limit, mem).1[a] == 0u8,
{
    lemma_segments_zero(b, limit, 0, mem, false, i);
}

proof fn lemma_segments_loaded(b: Seq<u8>, limit: int, k: int, mem: Seq<u8>, l: bool)
    requires
        segments_load(b, limit, u32_at(b, 28), u16_at(b, 44), k, mem, l).0 is None,
        segments_load(b, limit, u32_at(b, 28), u16_at(b, 44), k, mem, l).2,
        0 <= k,
    ensures
        l || exists|j: int| k <= j < u16_at(b, 44) && #[trigger] seg_loadable(b, j),
    decreases u16_at(b, 44) - k,
{
    if k < u16_at(b, 44) {
        let step = segment_step(b, limit, u32_at(b, 28), k, mem);
        if step.2 {
            reveal(segment_step);
            assert(seg_loadable(b, k));
        } else {
            lemma_segments_loaded(b, limit, k + 1, step.1, l || step.2);
        }
    }
}

/// A loaded ELF image starts at the entry point its header names, which is
/// nonzero and 4-byte aligned, and has at least one loadable segment.
pub proof fn lemma_elf_load_entry(b: Seq<u8>, limit: int, mem: Seq<u8>)
    ensures
        elf_load(b, limit, mem).0 matches Ok(e) ==> {
            &&& e == u32_at(b, 24)
            &&& e != 0
            &&& e % 4 == 0
            &&& exists|j: int| 0 <= j < u16_at(b, 44) && #[trigger] seg_loadable(b, j)
        },
{
    if elf_load(b, limit, mem).0 is Ok {
        assert(0 <= u32_at(b, 24) <= u32::MAX);
        lemma_segments_loaded(b, limit, 0, mem, false);
    }
}

/// Loading raw bytecode puts the code after its 8-byte header at the code base,
/// leaves the rest of memory as it was, and starts at the code base plus the
/// entry offset the header names. (Memory spans at most the 32-bit address space.)
pub proof fn lemma_raw_load_places_code(b: Seq<u8>, mem: Seq<u8>)
    requires
        mem.len() <= ADDRESS_SPACE,
    ensures
        raw_load(b, mem).0 matches Ok(e) ==> {
            &&& e == CODE_BASE_ADDR + u32_at(b, 4)
            &&& u32_at(b, 4) % 4 == 0
            &&& raw_load(b, mem).1.len() == mem.len()
            &&& raw_load(b, mem).1.subrange(
                CODE_BASE_ADDR as int,
                CODE_BASE_ADDR + (b.len() - 8),
            ) == b.subrange(8, b.len() as int)
            &&& forall|a: int|
                0 <= a < mem.len() && !(CODE_BASE_ADDR <= a < CODE_BASE_ADDR + (b.len() - 8))
                    ==> #[trigger] raw_load(b, mem).1[a] == mem[a]
        },
{
    if raw_load(b, mem).0 is Ok {
        let out = raw_load(b, mem).1;
        assert(0 <= u32_at(b, 4) <= u32::MAX);
        assert(CODE_BASE_ADDR + u32_at(b, 4) < ADDRESS_SPACE);
        assert(out.subrange(CODE_BASE_ADDR as int, CODE_BASE_ADDR + (b.len() - 8)) =~= b.subrange(
            8,
            b.len() as int,
        ));
    }
}

/// Setting up the input buffer writes the context at the input buffer address
/// and its length, little-endian, in the four bytes before it.
pub proof fn lemma_input_setup_writes(ctx: Seq<u8>, mem: Seq<u8>)
    ensures
        input_setup(ctx, mem).0 is None ==> {
            &&& input_setup(ctx, mem).1.len() == mem.len()
            &&& input_setup(ctx, mem).1.subrange(
                INPUT_BUFFER_ADDR as int,
                INPUT_BUFFER_ADDR + ctx.len(),
            ) == ctx
            &&& input_setup(ctx, mem).1.subrange(
                INPUT_BUFFER_ADDR - 4,
                INPUT_BUFFER_ADDR as int,
            ) == le32(ctx.len() as u32)
        },
{
    if input_setup(ctx, mem).0 is None {
        let out = input_setup(ctx, mem).1;
        let n = ctx.len() as u32;
        vstd::bytes::lemma_auto_spec_u32_to_from_le_bytes();
        assert(le32(n).len() == 4);
        assert(out.subrange(INPUT_BUFFER_ADDR as int, INPUT_BUFFER_ADDR + ctx.len()) =~= ctx);
        assert(out.subrange(INPUT_BUFFER_ADDR - 4, INPUT_BUFFER_ADDR as int) =~= le32(n));
    }
}

/// The four little-endian bytes of `n`.
pub open spec fn le_bytes4(n: u32) -> Seq<u8> {
    seq![(n & 0xff) as u8, ((n >> 8) & 0xff) as u8, ((n >> 16) & 0xff) as u8, ((n >> 24) & 0xff) as u8]
}

proof fn lemma_le_bytes4_value(n: u32)
    ensures
        le_bytes4(n)[0] + 256 * le_bytes4(n)[1] + 65536 * le_bytes4(n)[2] + 16777216 * le_bytes4(n)[3]
            == n,
{
    let b0 = (n & 0xff) as u8;
    let b1 = ((n >> 8) & 0xff) as u8;
    let b2 = ((n >> 16) & 0xff) as u8;
    let b3 = ((n >> 24) & 0xff) as u8;
    assert(b0 as u32 + 256 * (b1 as u32) + 65536 * (b2 as u32) + 16777216 * (b3 as u32) == n)
        by (bit_vector)
        requires
            b0 == (n & 0xff) as u8,
            b1 == ((n >> 8) & 0xff) as u8,
            b2 == ((n >> 16) & 0xff) as u8,
            b3 == ((n >> 24) & 0xff) as u8,
    ;
}

/// What a program leaves in the output buffer is read back: its bytes at the
/// output buffer address, preceded by their length in four little-endian bytes,
/// read as those bytes.
pub proof fn lemma_output_read_back(mem: Seq<u8>, data: Seq<u8>)
    requires
        0 < data.len() <= MAX_BUFFER_SIZE,
        OUTPUT_BUFFER_ADDR + data.len() <= mem.len(),
    ensures
        output_read(
            overwrite(
                overwrite(mem, OUTPUT_BUFFER_ADDR as int, data),
                OUTPUT_BUFFER_ADDR - 4,
                le_bytes4(data.len() as u32),
            ),
        ) == Ok::<Seq<u8>, Fault>(data),
{
    let n = data.len() as u32;
    let m = overwrite(
        overwrite(mem, OUTPUT_BUFFER_ADDR as int, data),
        OUTPUT_BUFFER_ADDR - 4,
        le_bytes4(n),
    );
    let p = OUTPUT_BUFFER_ADDR - 4;
    lemma_le_bytes4_value(n);
    assert(m[p] == le_bytes4(n)[0]);
    assert(m[p + 1] == le_bytes4(n)[1]);
    assert(m[p + 2] == le_bytes4(n)[2]);
    assert(m[p + 3] == le_bytes4(n)[3]);
    assert(u32_at(m, p) == n);
    assert(m.subrange(OUTPUT_BUFFER_ADDR as int, OUTPUT_BUFFER_ADDR + data.len()) =~= data);
}

} // verus!
