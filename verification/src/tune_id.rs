//! The identity of a just-in-time environment.

use crate::decimal::decimal;
use crate::ids::DeviceId;
use vstd::prelude::*;
use vstd::string::StringExecFns;

verus! {

use crate::decimal::{
    decimal_digits, is_digit, lemma_cut_first_number, lemma_cut_number, lemma_second_shown,
    lemma_shown, lemma_third_shown, shows,
};

/// What the hardware of a device offers.
#[derive(Clone, Copy, Debug, Hash, PartialEq, Eq)]
pub struct HardwareProperties {
    /// Width of a load, in bits.
    pub load_width: u32,
    /// The fewest units of a plane.
    pub plane_size_min: u32,
    /// The most units of a plane.
    pub plane_size_max: u32,
    /// The most bindings of a kernel.
    pub max_bindings: u32,
    /// Shared memory, in bytes.
    pub max_shared_memory_size: usize,
    /// The most cubes in each dimension.
    pub max_cube_count: (u32, u32, u32),
    /// The most units of a cube.
    pub max_units_per_cube: u32,
    /// The most units of a cube in each dimension.
    pub max_cube_dim: (u32, u32, u32),
    /// Number of streaming multiprocessors, if there are any.
    pub num_streaming_multiprocessors: Option<u32>,
    /// Number of cores, on a processor.
    pub num_cpu_cores: Option<u32>,
    /// Number of tensor cores of a streaming multiprocessor, if it is known.
    pub num_tensor_cores: Option<u32>,
    /// The smallest dimension that tensor cores take, if it is known.
    pub min_tensor_cores_dim: Option<u32>,
    /// The most elements of a vector.
    pub max_vector_size: usize,
    /// Shared memory that matrix instructions reserve, in bytes.
    pub cube_mma_reserved_shared_memory: usize,
}

/// ID used to identify a Just-in-Time environment.
#[derive(Debug)]
pub struct CubeTuneId {
    device: DeviceId,
    name: String,
    version: String,
    hardware: HardwareProperties,
}

/// What identifies an environment.
pub struct TuneIdView {
    /// The device.
    pub device: DeviceId,
    /// The name of the runtime.
    pub name: Seq<char>,
    /// The version of the library.
    pub version: Seq<char>,
    /// The hardware of the device.
    pub hardware: HardwareProperties,
}

impl View for CubeTuneId {
    type V = TuneIdView;

    closed spec fn view(&self) -> TuneIdView {
        TuneIdView {
            device: self.device,
            name: self.name@,
            version: self.version@,
            hardware: self.hardware,
        }
    }
}

/// A count, nothing where it is not known.
pub open spec fn count_or_zero(count: Option<u32>) -> nat {
    match count {
        Some(count) => count as nat,
        None => 0,
    }
}

fn or_zero(count: Option<u32>) -> (value: u64)
    ensures
        value == count_or_zero(count),
{
    match count {
        Some(count) => count as u64,
        None => 0,
    }
}

impl TuneIdView {
    /// What is written of the device, the runtime and the library.
    pub open spec fn head(self) -> Seq<char> {
        "device-"@ + decimal_digits(self.device.type_id as nat) + "-"@ + decimal_digits(
            self.device.index_id as nat,
        ) + "-"@ + self.name + "-v"@ + self.version
    }

    /// The identity as text.
    pub open spec fn text(self) -> Seq<char> {
        let h = self.hardware;
        "device-"@ + decimal_digits(self.device.type_id as nat)
            + "-"@ + decimal_digits(self.device.index_id as nat)
            + "-"@ + self.name
            + "-v"@ + self.version
            + "-lw"@ + decimal_digits(h.load_width as nat)
            + "-p"@ + decimal_digits(h.plane_size_min as nat)
            + "-"@ + decimal_digits(h.plane_size_max as nat)
            + "-bind"@ + decimal_digits(h.max_bindings as nat)
            + "-smem"@ + decimal_digits(h.max_shared_memory_size as nat)
            + "-cc"@ + decimal_digits(h.max_cube_count.0 as nat)
            + "x"@ + decimal_digits(h.max_cube_count.1 as nat)
            + "x"@ + decimal_digits(h.max_cube_count.2 as nat)
            + "-units"@ + decimal_digits(h.max_units_per_cube as nat)
            + "-cd"@ + decimal_digits(h.max_cube_dim.0 as nat)
            + "x"@ + decimal_digits(h.max_cube_dim.1 as nat)
            + "x"@ + decimal_digits(h.max_cube_dim.2 as nat)
            + "-sms"@ + decimal_digits(count_or_zero(h.num_streaming_multiprocessors))
            + "-cpu"@ + decimal_digits(count_or_zero(h.num_cpu_cores))
            + "-tc"@ + decimal_digits(count_or_zero(h.num_tensor_cores))
            + "-tcd"@ + decimal_digits(count_or_zero(h.min_tensor_cores_dim))
            + "-vec"@ + decimal_digits(h.max_vector_size as nat)
            + "-mma"@ + decimal_digits(h.cube_mma_reserved_shared_memory as nat)
    }
}

impl CubeTuneId {
    /// Create a new ID; `version` is that of the library.
    pub fn new(device: DeviceId, name: &str, version: &str, hardware: HardwareProperties) -> (id:
        Self)
        ensures
            id@ == (TuneIdView { device, name: name@, version: version@, hardware }),
    {
        CubeTuneId {
            device,
            name: String::from_str(name),
            version: String::from_str(version),
            hardware,
        }
    }

    /// Writes the identity.
    pub fn to_text(&self) -> (text: String)
        ensures
            text@ == self@.text(),
    {
        let mut text = String::from_str("device-");
        text.append(decimal(self.device.type_id as u64).as_str());
        text.append("-");
        text.append(decimal(self.device.index_id as u64).as_str());
        text.append("-");
        text.append(self.name.as_str());
        text.append("-v");
        text.append(self.version.as_str());
        text.append("-lw");
        text.append(decimal(self.hardware.load_width as u64).as_str());
        text.append("-p");
        text.append(decimal(self.hardware.plane_size_min as u64).as_str());
        text.append("-");
        text.append(decimal(self.hardware.plane_size_max as u64).as_str());
        text.append("-bind");
        text.append(decimal(self.hardware.max_bindings as u64).as_str());
        text.append("-smem");
        text.append(decimal(self.hardware.max_shared_memory_size as u64).as_str());
        text.append("-cc");
        text.append(decimal(self.hardware.max_cube_count.0 as u64).as_str());
        text.append("x");
        text.append(decimal(self.hardware.max_cube_count.1 as u64).as_str());
        text.append("x");
        text.append(decimal(self.hardware.max_cube_count.2 as u64).as_str());
        text.append("-units");
        text.append(decimal(self.hardware.max_units_per_cube as u64).as_str());
        text.append("-cd");
        text.append(decimal(self.hardware.max_cube_dim.0 as u64).as_str());
        text.append("x");
        text.append(decimal(self.hardware.max_cube_dim.1 as u64).as_str());
        text.append("x");
        text.append(decimal(self.hardware.max_cube_dim.2 as u64).as_str());
        text.append("-sms");
        text.append(decimal(or_zero(self.hardware.num_streaming_multiprocessors)).as_str());
        text.append("-cpu");
        text.append(decimal(or_zero(self.hardware.num_cpu_cores)).as_str());
        text.append("-tc");
        text.append(decimal(or_zero(self.hardware.num_tensor_cores)).as_str());
        text.append("-tcd");
        text.append(decimal(or_zero(self.hardware.min_tensor_cores_dim)).as_str());
        text.append("-vec");
        text.append(decimal(self.hardware.max_vector_size as u64).as_str());
        text.append("-mma");
        text.append(decimal(self.hardware.cube_mma_reserved_shared_memory as u64).as_str());
        text
    }
}

/// The identities have the same hardware, where a count that is not known is as good as none.
pub open spec fn same_hardware(a: HardwareProperties, b: HardwareProperties) -> bool {
    &&& a.load_width == b.load_width
    &&& a.plane_size_min == b.plane_size_min
    &&& a.plane_size_max == b.plane_size_max
    &&& a.max_bindings == b.max_bindings
    &&& a.max_shared_memory_size == b.max_shared_memory_size
    &&& a.max_cube_count.0 == b.max_cube_count.0
    &&& a.max_cube_count.1 == b.max_cube_count.1
    &&& a.max_cube_count.2 == b.max_cube_count.2
    &&& a.max_units_per_cube == b.max_units_per_cube
    &&& a.max_cube_dim.0 == b.max_cube_dim.0
    &&& a.max_cube_dim.1 == b.max_cube_dim.1
    &&& a.max_cube_dim.2 == b.max_cube_dim.2
    &&& same_count(a.num_streaming_multiprocessors, b.num_streaming_multiprocessors)
    &&& same_count(a.num_cpu_cores, b.num_cpu_cores)
    &&& same_count(a.num_tensor_cores, b.num_tensor_cores)
    &&& same_count(a.min_tensor_cores_dim, b.min_tensor_cores_dim)
    &&& a.max_vector_size == b.max_vector_size
    &&& a.cube_mma_reserved_shared_memory == b.cube_mma_reserved_shared_memory
}

/// Counts are equal, where none is as good as a count of zero.
pub open spec fn same_count(a: Option<u32>, b: Option<u32>) -> bool {
    a == b || (a is None && b == Some(0u32)) || (a == Some(0u32) && b is None)
}

/// The text tells the hardware: two identities with the same text have the same hardware. They are
/// of the same device, and what is written of name and version is the same too.
pub proof fn law_text_tells_hardware(a: TuneIdView, b: TuneIdView)
    requires
        a.text() == b.text(),
    ensures
        same_hardware(a.hardware, b.hardware),
        a.device == b.device,
        a.name + "-v"@ + a.version == b.name + "-v"@ + b.version,
        a.name.len() == b.name.len() ==> a.name == b.name && a.version == b.version,
{
    lemma_labels();
    let a0 = a.head();
    let a1 = a0 + "-lw"@ + decimal_digits(a.hardware.load_width as nat);
    let a2 = a1 + "-p"@ + decimal_digits(a.hardware.plane_size_min as nat);
    let a3 = a2 + "-"@ + decimal_digits(a.hardware.plane_size_max as nat);
    let a4 = a3 + "-bind"@ + decimal_digits(a.hardware.max_bindings as nat);
    let a5 = a4 + "-smem"@ + decimal_digits(a.hardware.max_shared_memory_size as nat);
    let a6 = a5 + "-cc"@ + decimal_digits(a.hardware.max_cube_count.0 as nat);
    let a7 = a6 + "x"@ + decimal_digits(a.hardware.max_cube_count.1 as nat);
    let a8 = a7 + "x"@ + decimal_digits(a.hardware.max_cube_count.2 as nat);
    let a9 = a8 + "-units"@ + decimal_digits(a.hardware.max_units_per_cube as nat);
    let a10 = a9 + "-cd"@ + decimal_digits(a.hardware.max_cube_dim.0 as nat);
    let a11 = a10 + "x"@ + decimal_digits(a.hardware.max_cube_dim.1 as nat);
    let a12 = a11 + "x"@ + decimal_digits(a.hardware.max_cube_dim.2 as nat);
    let a13 = a12 + "-sms"@ + decimal_digits(
        count_or_zero(a.hardware.num_streaming_multiprocessors),
    );
    let a14 = a13 + "-cpu"@ + decimal_digits(count_or_zero(a.hardware.num_cpu_cores));
    let a15 = a14 + "-tc"@ + decimal_digits(count_or_zero(a.hardware.num_tensor_cores));
    let a16 = a15 + "-tcd"@ + decimal_digits(count_or_zero(a.hardware.min_tensor_cores_dim));
    let a17 = a16 + "-vec"@ + decimal_digits(a.hardware.max_vector_size as nat);
    let a18 = a17 + "-mma"@ + decimal_digits(a.hardware.cube_mma_reserved_shared_memory as nat);
    let b0 = b.head();
    let b1 = b0 + "-lw"@ + decimal_digits(b.hardware.load_width as nat);
    let b2 = b1 + "-p"@ + decimal_digits(b.hardware.plane_size_min as nat);
    let b3 = b2 + "-"@ + decimal_digits(b.hardware.plane_size_max as nat);
    let b4 = b3 + "-bind"@ + decimal_digits(b.hardware.max_bindings as nat);
    let b5 = b4 + "-smem"@ + decimal_digits(b.hardware.max_shared_memory_size as nat);
    let b6 = b5 + "-cc"@ + decimal_digits(b.hardware.max_cube_count.0 as nat);
    let b7 = b6 + "x"@ + decimal_digits(b.hardware.max_cube_count.1 as nat);
    let b8 = b7 + "x"@ + decimal_digits(b.hardware.max_cube_count.2 as nat);
    let b9 = b8 + "-units"@ + decimal_digits(b.hardware.max_units_per_cube as nat);
    let b10 = b9 + "-cd"@ + decimal_digits(b.hardware.max_cube_dim.0 as nat);
    let b11 = b10 + "x"@ + decimal_digits(b.hardware.max_cube_dim.1 as nat);
    let b12 = b11 + "x"@ + decimal_digits(b.hardware.max_cube_dim.2 as nat);
    let b13 = b12 + "-sms"@ + decimal_digits(
        count_or_zero(b.hardware.num_streaming_multiprocessors),
    );
    let b14 = b13 + "-cpu"@ + decimal_digits(count_or_zero(b.hardware.num_cpu_cores));
    let b15 = b14 + "-tc"@ + decimal_digits(count_or_zero(b.hardware.num_tensor_cores));
    let b16 = b15 + "-tcd"@ + decimal_digits(count_or_zero(b.hardware.min_tensor_cores_dim));
    let b17 = b16 + "-vec"@ + decimal_digits(b.hardware.max_vector_size as nat);
    let b18 = b17 + "-mma"@ + decimal_digits(b.hardware.cube_mma_reserved_shared_memory as nat);
    assert(a.text() == a18 && b.text() == b18);
    lemma_cut_number(
        a17,
        b17,
        "-mma"@,
        a.hardware.cube_mma_reserved_shared_memory as nat,
        b.hardware.cube_mma_reserved_shared_memory as nat,
    );
    lemma_cut_number(
        a16,
        b16,
        "-vec"@,
        a.hardware.max_vector_size as nat,
        b.hardware.max_vector_size as nat,
    );
    lemma_cut_number(
        a15,
        b15,
        "-tcd"@,
        count_or_zero(a.hardware.min_tensor_cores_dim),
        count_or_zero(b.hardware.min_tensor_cores_dim),
    );
    lemma_cut_number(
        a14,
        b14,
        "-tc"@,
        count_or_zero(a.hardware.num_tensor_cores),
        count_or_zero(b.hardware.num_tensor_cores),
    );
    lemma_cut_number(
        a13,
        b13,
        "-cpu"@,
        count_or_zero(a.hardware.num_cpu_cores),
        count_or_zero(b.hardware.num_cpu_cores),
    );
    lemma_cut_number(
        a12,
        b12,
        "-sms"@,
        count_or_zero(a.hardware.num_streaming_multiprocessors),
        count_or_zero(b.hardware.num_streaming_multiprocessors),
    );
    lemma_cut_number(
        a11,
        b11,
        "x"@,
        a.hardware.max_cube_dim.2 as nat,
        b.hardware.max_cube_dim.2 as nat,
    );
    lemma_cut_number(
        a10,
        b10,
        "x"@,
        a.hardware.max_cube_dim.1 as nat,
        b.hardware.max_cube_dim.1 as nat,
    );
    lemma_cut_number(
        a9,
        b9,
        "-cd"@,
        a.hardware.max_cube_dim.0 as nat,
        b.hardware.max_cube_dim.0 as nat,
    );
    lemma_cut_number(
        a8,
        b8,
        "-units"@,
        a.hardware.max_units_per_cube as nat,
        b.hardware.max_units_per_cube as nat,
    );
    lemma_cut_number(
        a7,
        b7,
        "x"@,
        a.hardware.max_cube_count.2 as nat,
        b.hardware.max_cube_count.2 as nat,
    );
    lemma_cut_number(
        a6,
        b6,
        "x"@,
        a.hardware.max_cube_count.1 as nat,
        b.hardware.max_cube_count.1 as nat,
    );
    lemma_cut_number(
        a5,
        b5,
        "-cc"@,
        a.hardware.max_cube_count.0 as nat,
        b.hardware.max_cube_count.0 as nat,
    );
    lemma_cut_number(
        a4,
        b4,
        "-smem"@,
        a.hardware.max_shared_memory_size as nat,
        b.hardware.max_shared_memory_size as nat,
    );
    lemma_cut_number(
        a3,
        b3,
        "-bind"@,
        a.hardware.max_bindings as nat,
        b.hardware.max_bindings as nat,
    );
    lemma_cut_number(
        a2,
        b2,
        "-"@,
        a.hardware.plane_size_max as nat,
        b.hardware.plane_size_max as nat,
    );
    lemma_cut_number(
        a1,
        b1,
        "-p"@,
        a.hardware.plane_size_min as nat,
        b.hardware.plane_size_min as nat,
    );
    lemma_cut_number(a0, b0, "-lw"@, a.hardware.load_width as nat, b.hardware.load_width as nat);
    lemma_head_tells_device(a, b);
}

proof fn lemma_head_tells_device(a: TuneIdView, b: TuneIdView)
    requires
        a.head() == b.head(),
    ensures
        a.device == b.device,
        a.name + "-v"@ + a.version == b.name + "-v"@ + b.version,
        a.name.len() == b.name.len() ==> a.name == b.name && a.version == b.version,
{
    reveal_strlit("device-");
    reveal_strlit("-");
    let (x, y) = (a.name + "-v"@ + a.version, b.name + "-v"@ + b.version);
    let (u, v) = (
        decimal_digits(a.device.index_id as nat) + ("-"@ + x),
        decimal_digits(b.device.index_id as nat) + ("-"@ + y),
    );
    let (s, t) = (
        decimal_digits(a.device.type_id as nat) + ("-"@ + u),
        decimal_digits(b.device.type_id as nat) + ("-"@ + v),
    );
    assert(a.head() =~= "device-"@ + s);
    assert(b.head() =~= "device-"@ + t);
    assert(s =~= a.head().skip(7));
    assert(t =~= b.head().skip(7));
    lemma_cut_first_number(
        a.device.type_id as nat,
        b.device.type_id as nat,
        "-"@ + u,
        "-"@ + v,
    );
    assert(u =~= ("-"@ + u).skip(1));
    assert(v =~= ("-"@ + v).skip(1));
    lemma_cut_first_number(
        a.device.index_id as nat,
        b.device.index_id as nat,
        "-"@ + x,
        "-"@ + y,
    );
    assert(x =~= ("-"@ + x).skip(1));
    assert(y =~= ("-"@ + y).skip(1));
    if a.name.len() == b.name.len() {
        assert(a.name =~= x.take(a.name.len() as int));
        assert(b.name =~= y.take(b.name.len() as int));
        let rest = a.name.len() + "-v"@.len();
        assert(a.version =~= x.skip(rest as int));
        assert(b.version =~= y.skip(rest as int));
    }
}

proof fn lemma_labels()
    ensures
        "-lw"@.len() > 0 && !is_digit("-lw"@[0]) && !is_digit("-lw"@.last()),
        "-p"@.len() > 0 && !is_digit("-p"@[0]) && !is_digit("-p"@.last()),
        "-"@.len() > 0 && !is_digit("-"@[0]) && !is_digit("-"@.last()),
        "-bind"@.len() > 0 && !is_digit("-bind"@[0]) && !is_digit("-bind"@.last()),
        "-smem"@.len() > 0 && !is_digit("-smem"@[0]) && !is_digit("-smem"@.last()),
        "-cc"@.len() > 0 && !is_digit("-cc"@[0]) && !is_digit("-cc"@.last()),
        "x"@.len() > 0 && !is_digit("x"@[0]) && !is_digit("x"@.last()),
        "-units"@.len() > 0 && !is_digit("-units"@[0]) && !is_digit("-units"@.last()),
        "-cd"@.len() > 0 && !is_digit("-cd"@[0]) && !is_digit("-cd"@.last()),
        "-sms"@.len() > 0 && !is_digit("-sms"@[0]) && !is_digit("-sms"@.last()),
        "-cpu"@.len() > 0 && !is_digit("-cpu"@[0]) && !is_digit("-cpu"@.last()),
        "-tc"@.len() > 0 && !is_digit("-tc"@[0]) && !is_digit("-tc"@.last()),
        "-tcd"@.len() > 0 && !is_digit("-tcd"@[0]) && !is_digit("-tcd"@.last()),
        "-vec"@.len() > 0 && !is_digit("-vec"@[0]) && !is_digit("-vec"@.last()),
        "-mma"@.len() > 0 && !is_digit("-mma"@[0]) && !is_digit("-mma"@.last()),
{
    reveal_strlit("-lw");
    reveal_strlit("-p");
    reveal_strlit("-");
    reveal_strlit("-bind");
    reveal_strlit("-smem");
    reveal_strlit("-cc");
    reveal_strlit("x");
    reveal_strlit("-units");
    reveal_strlit("-cd");
    reveal_strlit("-sms");
    reveal_strlit("-cpu");
    reveal_strlit("-tc");
    reveal_strlit("-tcd");
    reveal_strlit("-vec");
    reveal_strlit("-mma");
}

/// The text shows every property of the hardware as a number of its own after a label of its own;
/// the sizes of a plane and the dimensions of a cube stand together, in their order.
pub proof fn law_text_shows_hardware(id: TuneIdView)
    ensures
        ({
            let h = id.hardware;
            let text = id.text();
            &&& id.head().is_prefix_of(text)
            &&& shows(text, "-lw"@, h.load_width as nat)
            &&& shows(text, "-p"@, h.plane_size_min as nat)
            &&& shows(
                text,
                "-p"@ + decimal_digits(h.plane_size_min as nat) + "-"@,
                h.plane_size_max as nat,
            )
            &&& shows(text, "-bind"@, h.max_bindings as nat)
            &&& shows(text, "-smem"@, h.max_shared_memory_size as nat)
            &&& shows(text, "-cc"@, h.max_cube_count.0 as nat)
            &&& shows(
                text,
                "-cc"@ + decimal_digits(h.max_cube_count.0 as nat) + "x"@,
                h.max_cube_count.1 as nat,
            )
            &&& shows(
                text,
                "-cc"@ + decimal_digits(h.max_cube_count.0 as nat) + "x"@
                    + decimal_digits(h.max_cube_count.1 as nat) + "x"@,
                h.max_cube_count.2 as nat,
            )
            &&& shows(text, "-units"@, h.max_units_per_cube as nat)
            &&& shows(text, "-cd"@, h.max_cube_dim.0 as nat)
            &&& shows(
                text,
                "-cd"@ + decimal_digits(h.max_cube_dim.0 as nat) + "x"@,
                h.max_cube_dim.1 as nat,
            )
            &&& shows(
                text,
                "-cd"@ + decimal_digits(h.max_cube_dim.0 as nat) + "x"@
                    + decimal_digits(h.max_cube_dim.1 as nat) + "x"@,
                h.max_cube_dim.2 as nat,
            )
            &&& shows(text, "-sms"@, count_or_zero(h.num_streaming_multiprocessors))
            &&& shows(text, "-cpu"@, count_or_zero(h.num_cpu_cores))
            &&& shows(text, "-tc"@, count_or_zero(h.num_tensor_cores))
            &&& shows(text, "-tcd"@, count_or_zero(h.min_tensor_cores_dim))
            &&& shows(text, "-vec"@, h.max_vector_size as nat)
            &&& shows(text, "-mma"@, h.cube_mma_reserved_shared_memory as nat)
        }),
{
    lemma_labels();
    let h = id.hardware;
    let text = id.text();
    let t0 = id.head();
    let t1 = t0 + "-lw"@ + decimal_digits(h.load_width as nat);
    let t2 = t1 + "-p"@ + decimal_digits(h.plane_size_min as nat);
    let t3 = t2 + "-"@ + decimal_digits(h.plane_size_max as nat);
    let t4 = t3 + "-bind"@ + decimal_digits(h.max_bindings as nat);
    let t5 = t4 + "-smem"@ + decimal_digits(h.max_shared_memory_size as nat);
    let t6 = t5 + "-cc"@ + decimal_digits(h.max_cube_count.0 as nat);
    let t7 = t6 + "x"@ + decimal_digits(h.max_cube_count.1 as nat);
    let t8 = t7 + "x"@ + decimal_digits(h.max_cube_count.2 as nat);
    let t9 = t8 + "-units"@ + decimal_digits(h.max_units_per_cube as nat);
    let t10 = t9 + "-cd"@ + decimal_digits(h.max_cube_dim.0 as nat);
    let t11 = t10 + "x"@ + decimal_digits(h.max_cube_dim.1 as nat);
    let t12 = t11 + "x"@ + decimal_digits(h.max_cube_dim.2 as nat);
    let t13 = t12 + "-sms"@ + decimal_digits(count_or_zero(h.num_streaming_multiprocessors));
    let t14 = t13 + "-cpu"@ + decimal_digits(count_or_zero(h.num_cpu_cores));
    let t15 = t14 + "-tc"@ + decimal_digits(count_or_zero(h.num_tensor_cores));
    let t16 = t15 + "-tcd"@ + decimal_digits(count_or_zero(h.min_tensor_cores_dim));
    let t17 = t16 + "-vec"@ + decimal_digits(h.max_vector_size as nat);
    let t18 = t17 + "-mma"@ + decimal_digits(h.cube_mma_reserved_shared_memory as nat);
    assert(text == t18);
    assert(t18.is_prefix_of(text)) by {
        assert(t18 =~= text.take(t18.len() as int));
    }
    lemma_shown(text, t17, "-mma"@, h.cube_mma_reserved_shared_memory as nat, t18);
    lemma_shown(text, t16, "-vec"@, h.max_vector_size as nat, t17);
    lemma_shown(text, t15, "-tcd"@, count_or_zero(h.min_tensor_cores_dim), t16);
    lemma_shown(text, t14, "-tc"@, count_or_zero(h.num_tensor_cores), t15);
    lemma_shown(text, t13, "-cpu"@, count_or_zero(h.num_cpu_cores), t14);
    lemma_shown(text, t12, "-sms"@, count_or_zero(h.num_streaming_multiprocessors), t13);
    lemma_third_shown(
        text,
        t9,
        "-cd"@,
        h.max_cube_dim.0 as nat,
        "x"@,
        h.max_cube_dim.1 as nat,
        "x"@,
        h.max_cube_dim.2 as nat,
        t12,
    );
    lemma_shown(text, t11, "x"@, h.max_cube_dim.2 as nat, t12);
    lemma_second_shown(
        text,
        t9,
        "-cd"@,
        h.max_cube_dim.0 as nat,
        "x"@,
        h.max_cube_dim.1 as nat,
        t11,
    );
    lemma_shown(text, t10, "x"@, h.max_cube_dim.1 as nat, t11);
    lemma_shown(text, t9, "-cd"@, h.max_cube_dim.0 as nat, t10);
    lemma_shown(text, t8, "-units"@, h.max_units_per_cube as nat, t9);
    lemma_third_shown(
        text,
        t5,
        "-cc"@,
        h.max_cube_count.0 as nat,
        "x"@,
        h.max_cube_count.1 as nat,
        "x"@,
        h.max_cube_count.2 as nat,
        t8,
    );
    lemma_shown(text, t7, "x"@, h.max_cube_count.2 as nat, t8);
    lemma_second_shown(
        text,
        t5,
        "-cc"@,
        h.max_cube_count.0 as nat,
        "x"@,
        h.max_cube_count.1 as nat,
        t7,
    );
    lemma_shown(text, t6, "x"@, h.max_cube_count.1 as nat, t7);
    lemma_shown(text, t5, "-cc"@, h.max_cube_count.0 as nat, t6);
    lemma_shown(text, t4, "-smem"@, h.max_shared_memory_size as nat, t5);
    lemma_shown(text, t3, "-bind"@, h.max_bindings as nat, t4);
    lemma_second_shown(text, t1, "-p"@, h.plane_size_min as nat, "-"@, h.plane_size_max as nat, t3);
    lemma_shown(text, t2, "-"@, h.plane_size_max as nat, t3);
    lemma_shown(text, t1, "-p"@, h.plane_size_min as nat, t2);
    lemma_shown(text, t0, "-lw"@, h.load_width as nat, t1);
}

} // verus!
