//! The values that the HPROF grammar yields: top-level records and heap-dump sub-records.
use vstd::prelude::*;

verus! {

/// The type of a field or of the elements of a primitive array.
#[derive(Clone, Copy, Debug, PartialEq, Eq, Hash, Structural)]
pub enum FieldType {
    Object,
    Bool,
    Char,
    Float,
    Double,
    Byte,
    Short,
    Int,
    Long,
}

/// The field type that a type code of the dump stands for, if any.
pub open spec fn field_type_code(v: int) -> Option<FieldType> {
    if v == 2 {
        Some(FieldType::Object)
    } else if v == 4 {
        Some(FieldType::Bool)
    } else if v == 5 {
        Some(FieldType::Char)
    } else if v == 6 {
        Some(FieldType::Float)
    } else if v == 7 {
        Some(FieldType::Double)
    } else if v == 8 {
        Some(FieldType::Byte)
    } else if v == 9 {
        Some(FieldType::Short)
    } else if v == 10 {
        Some(FieldType::Int)
    } else if v == 11 {
        Some(FieldType::Long)
    } else {
        None
    }
}

/// The width in bytes of a value of the type; an object reference is one 64-bit id.
pub open spec fn field_width(t: FieldType) -> nat {
    match t {
        FieldType::Bool | FieldType::Byte => 1,
        FieldType::Char | FieldType::Short => 2,
        FieldType::Float | FieldType::Int => 4,
        FieldType::Double | FieldType::Long | FieldType::Object => 8,
    }
}

impl FieldType {
    /// The field type of a type code; the code must be one the dump format defines.
    pub fn from_value(v: i8) -> (r: FieldType)
        requires
            field_type_code(v as int) is Some,
        ensures
            field_type_code(v as int) == Some(r),
    {
        match v {
            2 => FieldType::Object,
            4 => FieldType::Bool,
            5 => FieldType::Char,
            6 => FieldType::Float,
            7 => FieldType::Double,
            8 => FieldType::Byte,
            9 => FieldType::Short,
            10 => FieldType::Int,
            _ => FieldType::Long,
        }
    }

    /// The width in bytes of one value of this type.
    pub fn width(&self) -> (r: usize)
        ensures
            r as nat == field_width(*self),
    {
        match self {
            FieldType::Bool | FieldType::Byte => 1,
            FieldType::Char | FieldType::Short => 2,
            FieldType::Float | FieldType::Int => 4,
            FieldType::Double | FieldType::Long | FieldType::Object => 8,
        }
    }
}

/// A constant-pool entry of a class dump.
#[derive(Clone, Copy, Debug, PartialEq, Eq, Structural)]
pub struct ConstFieldInfo {
    pub const_pool_idx: u16,
    pub const_type: FieldType,
}

/// A named field declaration of a class dump.
#[derive(Clone, Copy, Debug, PartialEq, Eq, Structural)]
pub struct FieldInfo {
    pub name_id: u64,
    pub field_type: FieldType,
}

/// A typed value; floating-point values are kept as their IEEE-754 bit patterns.
#[derive(Clone, Copy, Debug, PartialEq, Eq, Structural)]
pub enum FieldValue {
    Bool(bool),
    Byte(i8),
    Char(u16),
    Short(i16),
    Int(i32),
    Long(i64),
    Float(u32),
    Double(u64),
    Object(u64),
}

/// A sub-record of a heap-dump segment.
#[derive(Clone, Debug, PartialEq)]
pub enum GcRecord {
    RootUnknown { object_id: u64 },
    RootThreadObject {
        thread_object_id: u64,
        thread_sequence_number: u32,
        stack_sequence_number: u32,
    },
    RootJniGlobal { object_id: u64, jni_global_ref_id: u64 },
    RootJniLocal {
        object_id: u64,
        thread_serial_number: u32,
        frame_number_in_stack_trace: u32,
    },
    RootJavaFrame {
        object_id: u64,
        thread_serial_number: u32,
        frame_number_in_stack_trace: u32,
    },
    RootNativeStack { object_id: u64, thread_serial_number: u32 },
    RootStickyClass { object_id: u64 },
    RootThreadBlock { object_id: u64, thread_serial_number: u32 },
    RootMonitorUsed { object_id: u64 },
    InstanceDump {
        object_id: u64,
        stack_trace_serial_number: u32,
        class_object_id: u64,
        data_size: u32,
    },
    ObjectArrayDump {
        object_id: u64,
        stack_trace_serial_number: u32,
        number_of_elements: u32,
        array_class_id: u64,
    },
    PrimitiveArrayDump {
        object_id: u64,
        stack_trace_serial_number: u32,
        number_of_elements: u32,
        element_type: FieldType,
    },
    ClassDump {
        class_object_id: u64,
        stack_trace_serial_number: u32,
        super_class_object_id: u64,
        instance_size: u32,
        const_fields: Vec<(ConstFieldInfo, FieldValue)>,
        static_fields: Vec<(FieldInfo, FieldValue)>,
        instance_fields: Vec<FieldInfo>,
    },
}

/// The (timestamp, length) header that follows the tag of a top-level record.
#[derive(Clone, Copy, Debug, PartialEq, Eq, Structural)]
pub struct RecordHeader {
    pub timestamp: u32,
    pub length: u32,
}

#[derive(Clone, Copy, Debug, PartialEq, Eq, Structural)]
pub struct AllocationSite {
    pub is_array: u8,
    pub class_serial_number: u32,
    pub stack_trace_serial_number: u32,
    pub bytes_alive: u32,
    pub instances_alive: u32,
    pub bytes_allocated: u32,
    pub instances_allocated: u32,
}

#[derive(Clone, Copy, Debug, PartialEq, Eq, Structural)]
pub struct CpuSample {
    pub number_of_samples: u32,
    pub stack_trace_serial_number: u32,
}

#[derive(Clone, Copy, Debug, PartialEq, Eq, Structural)]
pub struct StackFrameData {
    pub stack_frame_id: u64,
    pub method_name_id: u64,
    pub method_signature_id: u64,
    pub source_file_name_id: u64,
    pub class_serial_number: u32,
    pub line_number: i32,
}

#[derive(Clone, Debug, PartialEq)]
pub struct StackTraceData {
    pub serial_number: u32,
    pub thread_serial_number: u32,
    pub number_of_frames: u32,
    pub stack_frame_ids: Vec<u64>,
}

#[derive(Clone, Copy, Debug, PartialEq, Eq, Structural)]
pub struct LoadClassData {
    pub serial_number: u32,
    pub class_object_id: u64,
    pub stack_trace_serial_number: u32,
    pub class_name_id: u64,
}

/// A top-level record, or one sub-record of a heap-dump segment.
#[derive(Clone, Debug, PartialEq)]
pub enum Record {
    Utf8String { id: u64, str: String },
    LoadClass(LoadClassData),
    UnloadClass { serial_number: u32 },
    StackFrame(StackFrameData),
    StackTrace(StackTraceData),
    AllocationSites {
        flags: u16,
        cutoff_ratio: u32,
        total_live_bytes: u32,
        total_live_instances: u32,
        total_bytes_allocated: u64,
        total_instances_allocated: u64,
        number_of_sites: u32,
        allocation_sites: Vec<AllocationSite>,
    },
    StartThread {
        thread_serial_number: u32,
        thread_object_id: u64,
        stack_trace_serial_number: u32,
        thread_name_id: u64,
        thread_group_name_id: u64,
        thread_group_parent_name_id: u64,
    },
    EndThread { thread_serial_number: u32 },
    HeapSummary {
        total_live_bytes: u32,
        total_live_instances: u32,
        total_bytes_allocated: u64,
        total_instances_allocated: u64,
    },
    HeapDumpStart { length: u32 },
    HeapDumpEnd { length: u32 },
    ControlSettings { flags: u32, stack_trace_depth: u16 },
    CpuSamples {
        total_number_of_samples: u32,
        number_of_traces: u32,
        cpu_samples: Vec<CpuSample>,
    },
    GcSegment(GcRecord),
}

} // verus!
