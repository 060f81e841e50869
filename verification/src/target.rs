//! Target descriptions and data-layout queries.

use vstd::prelude::*;

use vstd::string::StrSliceExecFns;
use vstd::string::StringExecFns;

verus! {

/// How aggressively a backend is asked to optimize.
#[derive(Clone, Copy, Debug, PartialEq, Eq, Structural)]
pub enum OptLevel {
    /// No optimization.
    NoOpt,
    /// Less optimization.
    Less,
    /// The standard optimization level.
    Standard,
    /// Aggressive optimization.
    Aggressive,
}

/// The kind of artifact an emission produces.
#[derive(Clone, Copy, Debug, PartialEq, Eq, Structural)]
pub enum FileType {
    /// A textual assembly file.
    Assembly,
    /// A binary object file.
    Object,
}

/// The stable numeric code of each optimization level.
pub open spec fn opt_level_code(level: OptLevel) -> u32 {
    match level {
        OptLevel::NoOpt => 0,
        OptLevel::Less => 1,
        OptLevel::Standard => 2,
        OptLevel::Aggressive => 3,
    }
}

impl OptLevel {
    /// The numeric code this optimization level is known by in emitted
    /// artifacts.
    pub fn inner(&self) -> (r: u32)
        ensures
            r == opt_level_code(*self),
    {
        match self {
            OptLevel::NoOpt => 0,
            OptLevel::Less => 1,
            OptLevel::Standard => 2,
            OptLevel::Aggressive => 3,
        }
    }
}

/// The stable numeric code of each artifact kind.
pub open spec fn file_type_code(kind: FileType) -> u32 {
    match kind {
        FileType::Assembly => 0,
        FileType::Object => 1,
    }
}

impl FileType {
    /// The numeric code this artifact kind is known by in emitted
    /// artifacts.
    pub fn inner(&self) -> (r: u32)
        ensures
            r == file_type_code(*self),
    {
        match self {
            FileType::Assembly => 0,
            FileType::Object => 1,
        }
    }
}

/// The number of characters before the first dash: the architecture
/// field of a target triple.
pub open spec fn arch_len(s: Seq<char>) -> nat
    decreases s.len(),
{
    if s.len() == 0 {
        0
    } else if s[0] == '-' {
        0
    } else {
        1 + arch_len(s.subrange(1, s.len() as int))
    }
}

/// The byte order and pointer width of a known architecture name, or
/// `None` when the architecture is not known.
pub open spec fn arch_info(a: Seq<char>) -> Option<(ByteOrdering, u32)> {
    if a == "x86_64"@ || a == "aarch64"@ || a == "riscv64"@ || a == "wasm64"@ || a
        == "powerpc64le"@ {
        Some((ByteOrdering::LittleEndian, 8u32))
    } else if a == "i686"@ || a == "arm"@ || a == "riscv32"@ || a == "wasm32"@ {
        Some((ByteOrdering::LittleEndian, 4u32))
    } else if a == "powerpc64"@ || a == "sparc64"@ || a == "s390x"@ || a == "mips64"@ {
        Some((ByteOrdering::BigEndian, 8u32))
    } else if a == "mips"@ || a == "sparc"@ || a == "powerpc"@ {
        Some((ByteOrdering::BigEndian, 4u32))
    } else {
        None
    }
}

/// A target: a known architecture with its byte order and pointer width.
#[derive(Clone, Debug)]
pub struct Target {
    /// The architecture name the target was resolved from.
    pub name: String,
    /// The byte order of the architecture.
    pub byte_order: ByteOrdering,
    /// The size of a pointer in bytes.
    pub ptr_bytes: u32,
}

impl Target {
    /// Resolves a target from a triple string: the architecture field —
    /// everything before the first dash — must name a known
    /// architecture; otherwise the triple itself is handed back as the
    /// error.
    pub fn from_triple(triple: String) -> (r: Result<Target, String>)
        ensures
            match r {
                Ok(t) => {
                    &&& arch_info(triple@.subrange(0, arch_len(triple@) as int)) == Some(
                        (t.byte_order, t.ptr_bytes),
                    )
                    &&& t.name@ == triple@.subrange(0, arch_len(triple@) as int)
                },
                Err(e) => {
                    &&& arch_info(triple@.subrange(0, arch_len(triple@) as int)) is None
                    &&& e@ == triple@
                },
            },
    {
        let s = triple.as_str();
        let i = dash_pos(s);
        proof {
            lemma_arch_len(s@, i as int);
        }
        let arch = s.substring_char(0, i);
        let info = arch_lookup(arch);
        match info {
            Some((byte_order, ptr_bytes)) => Ok(
                Target { name: arch.to_owned(), byte_order, ptr_bytes },
            ),
            None => Err(triple),
        }
    }

    /// Creates a machine for this target with the default options.
    pub fn create_machine(&self, triple: String) -> (m: TargetMachine)
        ensures
            m.target.name@ == self.name@,
            m.target.byte_order == self.byte_order,
            m.target.ptr_bytes == self.ptr_bytes,
            m.triple@ == triple@,
            m.cpu@ == "generic"@,
            m.features@.len() == 0,
            m.level == OptLevel::Standard,
    {
        self.create_machine_with_options(
            triple,
            String::from_str("generic"),
            String::new(),
            OptLevel::Standard,
        )
    }

    /// Creates a machine for this target with the given options.
    pub fn create_machine_with_options(
        &self,
        triple: String,
        cpu: String,
        features: String,
        level: OptLevel,
    ) -> (m: TargetMachine)
        ensures
            m.target.name@ == self.name@,
            m.target.byte_order == self.byte_order,
            m.target.ptr_bytes == self.ptr_bytes,
            m.triple@ == triple@,
            m.cpu@ == cpu@,
            m.features@ == features@,
            m.level == level,
    {
        TargetMachine {
            target: Target {
                name: self.name.clone(),
                byte_order: self.byte_order,
                ptr_bytes: self.ptr_bytes,
            },
            triple,
            cpu,
            features,
            level,
        }
    }

    /// The name of this target's architecture.
    pub fn name(&self) -> (r: String)
        ensures
            r@ == self.name@,
    {
        self.name.clone()
    }

    /// A short description of this target; the architecture name.
    pub fn description(&self) -> (r: String)
        ensures
            r@ == self.name@,
    {
        self.name.clone()
    }
}

/// A target machine: a resolved target with the options an emission
/// would use.
#[derive(Clone, Debug)]
pub struct TargetMachine {
    /// The resolved target.
    pub target: Target,
    /// The full target triple.
    pub triple: String,
    /// The processor variant.
    pub cpu: String,
    /// The feature string.
    pub features: String,
    /// The optimization level.
    pub level: OptLevel,
}

impl TargetMachine {
    /// Creates a machine for the given triple with the default options.
    pub fn new(triple: String) -> (r: Result<TargetMachine, String>)
        ensures
            match r {
                Ok(m) => {
                    &&& arch_info(triple@.subrange(0, arch_len(triple@) as int)) == Some(
                        (m.target.byte_order, m.target.ptr_bytes),
                    )
                    &&& m.triple@ == triple@
                    &&& m.level == OptLevel::Standard
                },
                Err(e) => {
                    &&& arch_info(triple@.subrange(0, arch_len(triple@) as int)) is None
                    &&& e@ == triple@
                },
            },
    {
        let copy = triple.clone();
        match Target::from_triple(triple) {
            Ok(t) => Ok(t.create_machine(copy)),
            Err(e) => Err(e),
        }
    }

    /// Creates a machine for the given triple with the given options.
    pub fn new_with_options(triple: String, cpu: String, features: String, level: OptLevel) -> (r:
        Result<TargetMachine, String>)
        ensures
            match r {
                Ok(m) => {
                    &&& arch_info(triple@.subrange(0, arch_len(triple@) as int)) == Some(
                        (m.target.byte_order, m.target.ptr_bytes),
                    )
                    &&& m.triple@ == triple@
                    &&& m.cpu@ == cpu@
                    &&& m.features@ == features@
                    &&& m.level == level
                },
                Err(e) => {
                    &&& arch_info(triple@.subrange(0, arch_len(triple@) as int)) is None
                    &&& e@ == triple@
                },
            },
    {
        let copy = triple.clone();
        match Target::from_triple(triple) {
            Ok(t) => Ok(t.create_machine_with_options(copy, cpu, features, level)),
            Err(e) => Err(e),
        }
    }

    /// The data layout of this machine's target.
    pub fn data_layout(&self) -> (r: TargetData)
        ensures
            r.byte_order == self.target.byte_order,
            r.ptr_bytes == self.target.ptr_bytes,
    {
        TargetData { byte_order: self.target.byte_order, ptr_bytes: self.target.ptr_bytes }
    }

    /// The target of this machine.
    pub fn target(&self) -> (r: Target)
        ensures
            r.name@ == self.target.name@,
            r.byte_order == self.target.byte_order,
            r.ptr_bytes == self.target.ptr_bytes,
    {
        Target {
            name: self.target.name.clone(),
            byte_order: self.target.byte_order,
            ptr_bytes: self.target.ptr_bytes,
        }
    }

    /// The full triple this machine was made for.
    pub fn triple(&self) -> (r: String)
        ensures
            r@ == self.triple@,
    {
        self.triple.clone()
    }

    /// The processor variant of this machine.
    pub fn cpu(&self) -> (r: String)
        ensures
            r@ == self.cpu@,
    {
        self.cpu.clone()
    }

    /// The feature string of this machine.
    pub fn features(&self) -> (r: String)
        ensures
            r@ == self.features@,
    {
        self.features.clone()
    }
}

impl TargetData {
    /// The byte order of this layout.
    pub fn byte_order(&self) -> (r: ByteOrdering)
        ensures
            r == self.byte_order,
    {
        self.byte_order
    }

    /// The size of a pointer in bytes.
    pub fn size_of_ptr(&self) -> (r: u64)
        ensures
            r == self.ptr_bytes as u64,
    {
        self.ptr_bytes as u64
    }

    /// The size of a pointer in bits.
    pub fn bit_size_of_ptr(&self) -> (r: u64)
        ensures
            r == self.ptr_bytes as u64 * 8,
    {
        self.ptr_bytes as u64 * 8
    }
}

/// A prefix that ends at the first dash, or at the end of the string, has
/// the architecture field's length.
proof fn lemma_arch_len(s: Seq<char>, i: int)
    requires
        0 <= i <= s.len(),
        forall|j: int| 0 <= j < i ==> s[j] != '-',
        i < s.len() ==> s[i] == '-',
    ensures
        arch_len(s) == i,
    decreases i,
{
    if s.len() == 0 {
    } else if i == 0 {
    } else {
        lemma_arch_len(s.subrange(1, s.len() as int), i - 1);
    }
}

/// Looks the architecture field up in the table of known architectures.
fn arch_lookup(a: &str) -> (r: Option<(ByteOrdering, u32)>)
    ensures
        r == arch_info(a@),
{
    if str_is(a, "x86_64") || str_is(a, "aarch64") || str_is(a, "riscv64") || str_is(a, "wasm64")
        || str_is(a, "powerpc64le") {
        Some((ByteOrdering::LittleEndian, 8))
    } else if str_is(a, "i686") || str_is(a, "arm") || str_is(a, "riscv32") || str_is(a, "wasm32") {
        Some((ByteOrdering::LittleEndian, 4))
    } else if str_is(a, "powerpc64") || str_is(a, "sparc64") || str_is(a, "s390x") || str_is(
        a,
        "mips64",
    ) {
        Some((ByteOrdering::BigEndian, 8))
    } else if str_is(a, "mips") || str_is(a, "sparc") || str_is(a, "powerpc") {
        Some((ByteOrdering::BigEndian, 4))
    } else {
        None
    }
}

/// The position of the first dash in the string, or its length.
fn dash_pos(s: &str) -> (i: usize)
    ensures
        i <= s@.len(),
        forall|j: int| 0 <= j < i ==> s@[j] != '-',
        i < s@.len() ==> s@[i as int] == '-',
{
    let n = s.unicode_len();
    let mut i: usize = 0;
    while i < n
        invariant
            i <= n,
            n == s@.len(),
            forall|j: int| 0 <= j < i ==> s@[j] != '-',
        decreases n - i,
    {
        if s.get_char(i) == '-' {
            return i;
        }
        i += 1;
    }
    i
}

/// Whether the two strings hold the same characters.
fn str_is(a: &str, b: &str) -> (r: bool)
    ensures
        r == (a@ == b@),
{
    let sa = a.to_owned();
    let sb = b.to_owned();
    sa.eq(&sb)
}

/// The byte order of a target.
#[derive(Clone, Copy, Debug, PartialEq, Eq, Structural)]
pub enum ByteOrdering {
    /// The most significant byte is stored first.
    BigEndian,
    /// The least significant byte is stored first.
    LittleEndian,
}

/// A data layout: the facts about a target that type layout depends on.
#[derive(Clone, Copy, Debug, PartialEq, Eq, Structural)]
pub struct TargetData {
    /// The byte order of the target.
    pub byte_order: ByteOrdering,
    /// The size of a pointer in bytes.
    pub ptr_bytes: u32,
}

} // verus!
