//! The closed enums among a node's attributes, and their numbers on the wire.

use vstd::prelude::*;

verus! {

/// The container format of a module's file.
#[derive(Clone, Copy, Debug, PartialEq, Eq, Structural, Hash)]
pub enum FileFormat {
    FormatUndefined,
    Coff,
    Elf,
    Pe,
    IdaProDb32,
    IdaProDb64,
    Xcoff,
    Macho,
    Raw,
}

/// The instruction set of a module.
#[derive(Clone, Copy, Debug, PartialEq, Eq, Structural, Hash)]
pub enum ISA {
    IsaUndefined,
    Ia32,
    Ppc32,
    X64,
    Arm,
    ValidButUnsupported,
    Ppc64,
    Arm64,
    Mips32,
    Mips64,
}

/// The byte order of a module.
#[derive(Clone, Copy, Debug, PartialEq, Eq, Structural, Hash)]
pub enum ByteOrder {
    Undefined,
    BigEndian,
    LittleEndian,
}

/// A property of a section.
#[derive(Clone, Copy, Debug, PartialEq, Eq, Structural, Hash)]
pub enum SectionFlag {
    SectionUndefined,
    Readable,
    Writable,
    Executable,
    Loaded,
    Initialized,
    ThreadLocal,
}

impl FileFormat {
    /// The number that stands for this format on the wire.
    pub open spec fn wire(self) -> i32 {
        match self {
            FileFormat::FormatUndefined => 0,
            FileFormat::Coff => 1,
            FileFormat::Elf => 2,
            FileFormat::Pe => 3,
            FileFormat::IdaProDb32 => 4,
            FileFormat::IdaProDb64 => 5,
            FileFormat::Xcoff => 6,
            FileFormat::Macho => 7,
            FileFormat::Raw => 8,
        }
    }

    /// The format that a wire number stands for, if any.
    pub open spec fn of_wire(value: i32) -> Option<FileFormat> {
        if value == 0 {
            Some(FileFormat::FormatUndefined)
        } else if value == 1 {
            Some(FileFormat::Coff)
        } else if value == 2 {
            Some(FileFormat::Elf)
        } else if value == 3 {
            Some(FileFormat::Pe)
        } else if value == 4 {
            Some(FileFormat::IdaProDb32)
        } else if value == 5 {
            Some(FileFormat::IdaProDb64)
        } else if value == 6 {
            Some(FileFormat::Xcoff)
        } else if value == 7 {
            Some(FileFormat::Macho)
        } else if value == 8 {
            Some(FileFormat::Raw)
        } else {
            None
        }
    }

    /// Reads a format from its wire number.
    pub fn from_i32(value: i32) -> (format: Option<FileFormat>)
        ensures
            format == FileFormat::of_wire(value),
    {
        match value {
            0 => Some(FileFormat::FormatUndefined),
            1 => Some(FileFormat::Coff),
            2 => Some(FileFormat::Elf),
            3 => Some(FileFormat::Pe),
            4 => Some(FileFormat::IdaProDb32),
            5 => Some(FileFormat::IdaProDb64),
            6 => Some(FileFormat::Xcoff),
            7 => Some(FileFormat::Macho),
            8 => Some(FileFormat::Raw),
            _ => None,
        }
    }

    /// Writes a format as its wire number.
    pub fn to_i32(self) -> (value: i32)
        ensures
            value == self.wire(),
    {
        match self {
            FileFormat::FormatUndefined => 0,
            FileFormat::Coff => 1,
            FileFormat::Elf => 2,
            FileFormat::Pe => 3,
            FileFormat::IdaProDb32 => 4,
            FileFormat::IdaProDb64 => 5,
            FileFormat::Xcoff => 6,
            FileFormat::Macho => 7,
            FileFormat::Raw => 8,
        }
    }
}

impl ISA {
    /// The number that stands for this instruction set on the wire.
    pub open spec fn wire(self) -> i32 {
        match self {
            ISA::IsaUndefined => 0,
            ISA::Ia32 => 1,
            ISA::Ppc32 => 2,
            ISA::X64 => 3,
            ISA::Arm => 4,
            ISA::ValidButUnsupported => 5,
            ISA::Ppc64 => 6,
            ISA::Arm64 => 7,
            ISA::Mips32 => 8,
            ISA::Mips64 => 9,
        }
    }

    /// The instruction set that a wire number stands for, if any.
    pub open spec fn of_wire(value: i32) -> Option<ISA> {
        if value == 0 {
            Some(ISA::IsaUndefined)
        } else if value == 1 {
            Some(ISA::Ia32)
        } else if value == 2 {
            Some(ISA::Ppc32)
        } else if value == 3 {
            Some(ISA::X64)
        } else if value == 4 {
            Some(ISA::Arm)
        } else if value == 5 {
            Some(ISA::ValidButUnsupported)
        } else if value == 6 {
            Some(ISA::Ppc64)
        } else if value == 7 {
            Some(ISA::Arm64)
        } else if value == 8 {
            Some(ISA::Mips32)
        } else if value == 9 {
            Some(ISA::Mips64)
        } else {
            None
        }
    }

    /// Reads an instruction set from its wire number.
    pub fn from_i32(value: i32) -> (isa: Option<ISA>)
        ensures
            isa == ISA::of_wire(value),
    {
        match value {
            0 => Some(ISA::IsaUndefined),
            1 => Some(ISA::Ia32),
            2 => Some(ISA::Ppc32),
            3 => Some(ISA::X64),
            4 => Some(ISA::Arm),
            5 => Some(ISA::ValidButUnsupported),
            6 => Some(ISA::Ppc64),
            7 => Some(ISA::Arm64),
            8 => Some(ISA::Mips32),
            9 => Some(ISA::Mips64),
            _ => None,
        }
    }

    /// Writes an instruction set as its wire number.
    pub fn to_i32(self) -> (value: i32)
        ensures
            value == self.wire(),
    {
        match self {
            ISA::IsaUndefined => 0,
            ISA::Ia32 => 1,
            ISA::Ppc32 => 2,
            ISA::X64 => 3,
            ISA::Arm => 4,
            ISA::ValidButUnsupported => 5,
            ISA::Ppc64 => 6,
            ISA::Arm64 => 7,
            ISA::Mips32 => 8,
            ISA::Mips64 => 9,
        }
    }
}

impl ByteOrder {
    /// The number that stands for this byte order on the wire.
    pub open spec fn wire(self) -> i32 {
        match self {
            ByteOrder::Undefined => 0,
            ByteOrder::BigEndian => 1,
            ByteOrder::LittleEndian => 2,
        }
    }

    /// The byte order that a wire number stands for, if any.
    pub open spec fn of_wire(value: i32) -> Option<ByteOrder> {
        if value == 0 {
            Some(ByteOrder::Undefined)
        } else if value == 1 {
            Some(ByteOrder::BigEndian)
        } else if value == 2 {
            Some(ByteOrder::LittleEndian)
        } else {
            None
        }
    }

    /// Reads a byte order from its wire number.
    pub fn from_i32(value: i32) -> (order: Option<ByteOrder>)
        ensures
            order == ByteOrder::of_wire(value),
    {
        match value {
            0 => Some(ByteOrder::Undefined),
            1 => Some(ByteOrder::BigEndian),
            2 => Some(ByteOrder::LittleEndian),
            _ => None,
        }
    }

    /// Writes a byte order as its wire number.
    pub fn to_i32(self) -> (value: i32)
        ensures
            value == self.wire(),
    {
        match self {
            ByteOrder::Undefined => 0,
            ByteOrder::BigEndian => 1,
            ByteOrder::LittleEndian => 2,
        }
    }
}

impl SectionFlag {
    /// The number that stands for this flag on the wire.
    pub open spec fn wire(self) -> i32 {
        match self {
            SectionFlag::SectionUndefined => 0,
            SectionFlag::Readable => 1,
            SectionFlag::Writable => 2,
            SectionFlag::Executable => 3,
            SectionFlag::Loaded => 4,
            SectionFlag::Initialized => 5,
            SectionFlag::ThreadLocal => 6,
        }
    }

    /// The flag that a wire number stands for, if any.
    pub open spec fn of_wire(value: i32) -> Option<SectionFlag> {
        if value == 0 {
            Some(SectionFlag::SectionUndefined)
        } else if value == 1 {
            Some(SectionFlag::Readable)
        } else if value == 2 {
            Some(SectionFlag::Writable)
        } else if value == 3 {
            Some(SectionFlag::Executable)
        } else if value == 4 {
            Some(SectionFlag::Loaded)
        } else if value == 5 {
            Some(SectionFlag::Initialized)
        } else if value == 6 {
            Some(SectionFlag::ThreadLocal)
        } else {
            None
        }
    }

    /// Reads a flag from its wire number.
    pub fn from_i32(value: i32) -> (flag: Option<SectionFlag>)
        ensures
            flag == SectionFlag::of_wire(value),
    {
        match value {
            0 => Some(SectionFlag::SectionUndefined),
            1 => Some(SectionFlag::Readable),
            2 => Some(SectionFlag::Writable),
            3 => Some(SectionFlag::Executable),
            4 => Some(SectionFlag::Loaded),
            5 => Some(SectionFlag::Initialized),
            6 => Some(SectionFlag::ThreadLocal),
            _ => None,
        }
    }

    /// Writes a flag as its wire number.
    pub fn to_i32(self) -> (value: i32)
        ensures
            value == self.wire(),
    {
        match self {
            SectionFlag::SectionUndefined => 0,
            SectionFlag::Readable => 1,
            SectionFlag::Writable => 2,
            SectionFlag::Executable => 3,
            SectionFlag::Loaded => 4,
            SectionFlag::Initialized => 5,
            SectionFlag::ThreadLocal => 6,
        }
    }
}

/// Every value of the closed enums is read back from its own wire number.
pub proof fn lemma_wire_round_trip(format: FileFormat, isa: ISA, order: ByteOrder, flag: SectionFlag)
    ensures
        FileFormat::of_wire(format.wire()) == Some(format),
        ISA::of_wire(isa.wire()) == Some(isa),
        ByteOrder::of_wire(order.wire()) == Some(order),
        SectionFlag::of_wire(flag.wire()) == Some(flag),
{
}

} // verus!
