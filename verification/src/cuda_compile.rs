//! How a kernel is compiled for a CUDA device: from the cache, or with NVRTC.

use crate::decimal::{decimal, hex, signed_decimal};
use crate::text::split;
use std::collections::HashMap;
use vstd::prelude::*;
use vstd::string::StringExecFns;

verus! {

use crate::decimal::{decimal_digits, hex_digits, signed_digits};
use crate::text::{split_text, texts};

broadcast use vstd::std_specs::hash::group_hash_axioms;

/// The number of units of a cube in each dimension.
#[derive(Clone, Copy, Debug, PartialEq, Eq, Structural)]
pub struct CubeDim {
    /// Units in the first dimension.
    pub x: u32,
    /// Units in the second dimension.
    pub y: u32,
    /// Units in the third dimension.
    pub z: u32,
}

/// A kernel that was loaded into a context.
#[derive(Clone, Copy, Debug, PartialEq, Eq, Structural)]
pub struct CompiledKernel {
    /// The number of units of a cube.
    pub cube_dim: CubeDim,
    /// Shared memory that a launch reserves, in bytes.
    pub shared_mem_bytes: usize,
    /// The function in the loaded module.
    pub func: u64,
}

/// A compiled kernel in the cache.
#[derive(Debug)]
pub struct PtxCacheEntry {
    /// The entry point.
    pub entrypoint_name: String,
    /// Shared memory that a launch reserves, in bytes.
    pub shared_mem_bytes: usize,
    /// The compiled kernel.
    pub ptx: Vec<i8>,
}

/// What a compiled kernel is cached under.
#[derive(Debug)]
pub struct PtxCacheKey {
    /// What else the compiled kernel depends on.
    pub fingerprint: String,
    /// The hash of the kernel.
    pub kernel: u128,
}

/// Why a kernel cannot be launched.
#[derive(Debug)]
pub enum LaunchError {
    /// The kernel asks for more than the device has.
    Limit(String),
    /// The kernel asks for more shared memory than the device has.
    SharedMemory {
        /// What it asks for, in bytes.
        requested: usize,
        /// What the device has, in bytes.
        max: usize,
    },
    /// The kernel cannot be compiled.
    Compilation(String),
    /// The driver refused the launch.
    Unknown(String),
}

/// A kernel that was turned into source.
#[derive(Debug)]
pub struct CompiledSource {
    /// The source.
    pub source: String,
    /// The source, laid out for the log, where compilations are logged.
    pub formatted: Option<String>,
    /// The entry point.
    pub entrypoint_name: String,
    /// The number of units of a cube.
    pub cube_dim: CubeDim,
    /// Shared memory that a launch reserves, where the representation of the kernel is known.
    pub shared_mem_bytes: Option<usize>,
}

/// The error of a kernel that asks for more shared memory than the device has.
pub open spec fn exceeds_shared(requested: Option<usize>, max: usize) -> bool {
    requested matches Some(requested) && requested > max
}

/// Refuses a kernel that asks for more shared memory than the device has.
pub fn validate_shared(requested: Option<usize>, max: usize) -> (result: Result<(), LaunchError>)
    ensures
        result is Err <==> exceeds_shared(requested, max),
        result is Ok <==> requested is None || requested->0 <= max,
        result matches Err(error) ==> error == (LaunchError::SharedMemory {
            requested: requested->0,
            max,
        }),
{
    match requested {
        Some(requested) => {
            if requested > max {
                Err(LaunchError::SharedMemory { requested, max })
            } else {
                Ok(())
            }
        },
        None => Ok(()),
    }
}

/// The option that selects a device architecture; those from 90 on have a variant of their own.
pub open spec fn arch_option_spec(version: u32, arch: Seq<char>) -> Seq<char> {
    if version >= 90 {
        "--gpu-architecture=sm_"@ + arch + "a"@
    } else {
        "--gpu-architecture=sm_"@ + arch
    }
}

/// The options that a kernel is compiled with.
pub open spec fn options_spec(
    version: u32,
    arch: Seq<char>,
    include_path: Seq<char>,
    cccl_include_path: Seq<char>,
    cccl_exists: bool,
) -> Seq<Seq<char>> {
    let base = seq![
        arch_option_spec(version, arch),
        "--include-path="@ + include_path,
        "-lineinfo"@,
    ];
    if cccl_exists {
        base.push("--include-path="@ + cccl_include_path)
    } else {
        base
    }
}

/// Lists the options that a kernel is compiled with.
pub fn compile_options(
    version: u32,
    arch: &str,
    include_path: &str,
    cccl_include_path: &str,
    cccl_exists: bool,
) -> (options: Vec<String>)
    ensures
        texts(options@) == options_spec(
            version,
            arch@,
            include_path@,
            cccl_include_path@,
            cccl_exists,
        ),
        options@.len() == (if cccl_exists {
            4int
        } else {
            3int
        }),
        version < 90 ==> options@[0]@ == "--gpu-architecture=sm_"@ + arch@,
        version >= 90 ==> options@[0]@ == "--gpu-architecture=sm_"@ + arch@ + "a"@,
        options@[1]@ == "--include-path="@ + include_path@,
        options@[2]@ == "-lineinfo"@,
        cccl_exists ==> options@.last()@ == "--include-path="@ + cccl_include_path@,
{
    let mut arch_option = String::from_str("--gpu-architecture=sm_");
    arch_option.append(arch);
    if version >= 90 {
        arch_option.append("a");
    }
    let mut include_option = String::from_str("--include-path=");
    include_option.append(include_path);
    let mut options: Vec<String> = Vec::new();
    options.push(arch_option);
    options.push(include_option);
    options.push(String::from_str("-lineinfo"));
    if cccl_exists {
        let mut cccl_include_option = String::from_str("--include-path=");
        cccl_include_option.append(cccl_include_path);
        options.push(cccl_include_option);
    }
    assert(texts(options@) =~= options_spec(
        version,
        arch@,
        include_path@,
        cccl_include_path@,
        cccl_exists,
    ));
    options
}

/// The second include path is the last of four options if its directory is there, and there are
/// three options and no second include path otherwise, on every architecture.
pub proof fn law_second_include_path(
    version: u32,
    arch: Seq<char>,
    include_path: Seq<char>,
    cccl_include_path: Seq<char>,
    cccl_exists: bool,
)
    ensures
        ({
            let options = options_spec(version, arch, include_path, cccl_include_path, cccl_exists);
            &&& options.len() == 4 <==> cccl_exists
            &&& options.len() == 3 <==> !cccl_exists
            &&& options[1] == "--include-path="@ + include_path
            &&& cccl_exists ==> options.last() == "--include-path="@ + cccl_include_path
            &&& !cccl_exists ==> options.last() == "-lineinfo"@
        }),
{
}

/// The architecture is told to the compiler by the first option alone; the directories and the
/// second include path by the others alone.
pub proof fn law_options_are_independent(
    version: u32,
    arch: Seq<char>,
    include_path: Seq<char>,
    cccl_include_path: Seq<char>,
    cccl_exists: bool,
    other_version: u32,
    other_arch: Seq<char>,
    other_include_path: Seq<char>,
    other_cccl_include_path: Seq<char>,
    other_cccl_exists: bool,
)
    ensures
        options_spec(version, arch, include_path, cccl_include_path, cccl_exists).skip(1)
            == options_spec(
            other_version,
            other_arch,
            include_path,
            cccl_include_path,
            cccl_exists,
        ).skip(1),
        options_spec(version, arch, include_path, cccl_include_path, cccl_exists)[0]
            == options_spec(
            version,
            arch,
            other_include_path,
            other_cccl_include_path,
            other_cccl_exists,
        )[0],
        options_spec(version, arch, include_path, cccl_include_path, true).take(3) == options_spec(
            version,
            arch,
            include_path,
            other_cccl_include_path,
            false,
        ),
{
    let full = options_spec(version, arch, include_path, cccl_include_path, cccl_exists);
    assert(full.skip(1) =~= options_spec(
        other_version,
        other_arch,
        include_path,
        cccl_include_path,
        cccl_exists,
    ).skip(1));
    assert(options_spec(version, arch, include_path, cccl_include_path, true).take(3)
        =~= options_spec(version, arch, include_path, other_cccl_include_path, false));
}

/// The option of an architecture names it after `sm_`. From version 90 on the variant of the
/// architecture is asked for, by one letter more; below, never.
pub proof fn law_architecture_option(below: u32, from: u32, arch: Seq<char>)
    requires
        below < 90 <= from,
    ensures
        arch_option_spec(below, arch).len() == 22 + arch.len(),
        arch_option_spec(below, arch).take(22) == "--gpu-architecture=sm_"@,
        arch_option_spec(below, arch).skip(22) == arch,
        arch_option_spec(from, arch) == arch_option_spec(below, arch).push('a'),
{
    reveal_strlit("--gpu-architecture=sm_");
    reveal_strlit("a");
    assert(arch_option_spec(below, arch).take(22) =~= "--gpu-architecture=sm_"@);
    assert(arch_option_spec(below, arch).skip(22) =~= arch);
    assert(arch_option_spec(from, arch) =~= arch_option_spec(below, arch).push('a'));
}

/// Lines that are not empty, each indented on a line of its own.
pub open spec fn indented(lines: Seq<Seq<char>>) -> Seq<char>
    decreases lines.len(),
{
    if lines.len() == 0 {
        Seq::empty()
    } else if lines.last().len() == 0 {
        indented(lines.drop_last())
    } else {
        indented(lines.drop_last()) + "\n    "@ + lines.last()
    }
}

/// What is reported of a kernel that does not compile.
pub open spec fn compilation_message(log: Seq<char>, source: Seq<char>) -> Seq<char> {
    "[Compilation Error] "@ + indented(split_text('\n', log)) + "\n[Source]  \n"@ + source
}

/// Describes why a kernel does not compile: the log of the compiler, then the source.
pub fn compilation_error_message(log: &str, source: &str) -> (message: String)
    ensures
        message@ == compilation_message(log@, source@),
{
    let lines = split('\n', log);
    let mut message = String::from_str("[Compilation Error] ");
    let mut index: usize = 0;
    let ghost all = split_text('\n', log@);
    proof {
        assert(all.take(0) =~= Seq::<Seq<char>>::empty());
        assert(message@ =~= "[Compilation Error] "@ + indented(all.take(0)));
    }
    while index < lines.len()
        invariant
            index <= lines.len(),
            texts(lines@) == all,
            message@ == "[Compilation Error] "@ + indented(all.take(index as int)),
        decreases lines.len() - index,
    {
        let ghost next = all.take(index + 1);
        proof {
            assert(next.drop_last() =~= all.take(index as int));
            assert(texts(lines@)[index as int] == lines@[index as int]@);
            assert(next.last() == lines@[index as int]@);
        }
        if lines[index].as_str().unicode_len() > 0 {
            message.append("\n    ");
            message.append(lines[index].as_str());
            assert(message@ =~= "[Compilation Error] "@ + indented(next));
        }
        index = index + 1;
    }
    assert(all.take(index as int) =~= all);
    message.append("\n[Source]  \n");
    message.append(source);
    message
}

/// What a compiled kernel depends on besides its source.
#[derive(Debug)]
pub struct DeviceFingerprint {
    /// The namespace that the configuration asks for.
    pub namespace: Option<String>,
    /// The version of the CUDA headers.
    pub cuda_header: u32,
    /// The version of the driver.
    pub driver_version: i32,
    /// The version of NVRTC, if it is known.
    pub nvrtc_version: Option<(i32, i32)>,
    /// The architecture of the device.
    pub arch: String,
    /// The name of the device, if it is known.
    pub device_name: Option<String>,
    /// The identity of the device, if it is known.
    pub device_uuid: Option<Vec<u8>>,
    /// The options of the compiler.
    pub options: String,
    /// How kernels are checked.
    pub check_mode: String,
}

/// The version of NVRTC as text.
pub open spec fn nvrtc_text(version: Option<(i32, i32)>) -> Seq<char> {
    match version {
        Some((major, minor)) => signed_digits(major as int) + "."@ + signed_digits(minor as int),
        None => "unknown"@,
    }
}

/// Writes the version of NVRTC.
pub fn nvrtc_version(version: Option<(i32, i32)>) -> (text: String)
    ensures
        text@ == nvrtc_text(version),
{
    match version {
        Some((major, minor)) => {
            let mut text = signed_decimal(major);
            text.append(".");
            text.append(signed_decimal(minor).as_str());
            text
        },
        None => String::from_str("unknown"),
    }
}

/// A text, or a stand-in where there is none.
pub open spec fn text_or(text: Option<String>, other: Seq<char>) -> Seq<char> {
    match text {
        Some(text) => text@,
        None => other,
    }
}

/// The fingerprint of a device and its compiler as text.
pub open spec fn fingerprint_text(parts: DeviceFingerprint, version: Seq<char>) -> Seq<char> {
    "schema=1;namespace="@ + text_or(parts.namespace, "cubecl-cuda-"@ + version)
        + ";cuda_header="@ + decimal_digits(parts.cuda_header as nat) + ";driver="@
        + signed_digits(parts.driver_version as int) + ";nvrtc="@ + nvrtc_text(
        parts.nvrtc_version,
    ) + ";arch="@ + parts.arch@ + ";device_name="@ + text_or(parts.device_name, "unknown"@)
        + ";device_uuid="@ + (match parts.device_uuid {
        Some(bytes) => hex_digits(bytes@),
        None => "unknown"@,
    }) + ";options="@ + parts.options@ + ";check_mode="@ + parts.check_mode@
}

/// Writes the fingerprint of a device and its compiler; `version` is that of this library.
pub fn ptx_cache_fingerprint(parts: &DeviceFingerprint, version: &str) -> (text: String)
    ensures
        text@ == fingerprint_text(*parts, version@),
{
    let mut text = String::from_str("schema=1;namespace=");
    match &parts.namespace {
        Some(namespace) => {
            text.append(namespace.as_str());
        },
        None => {
            let mut namespace = String::from_str("cubecl-cuda-");
            namespace.append(version);
            text.append(namespace.as_str());
        },
    }
    text.append(";cuda_header=");
    text.append(decimal(parts.cuda_header as u64).as_str());
    text.append(";driver=");
    text.append(signed_decimal(parts.driver_version).as_str());
    text.append(";nvrtc=");
    text.append(nvrtc_version(parts.nvrtc_version).as_str());
    text.append(";arch=");
    text.append(parts.arch.as_str());
    text.append(";device_name=");
    match &parts.device_name {
        Some(name) => {
            text.append(name.as_str());
        },
        None => {
            text.append("unknown");
        },
    }
    text.append(";device_uuid=");
    match &parts.device_uuid {
        Some(bytes) => {
            text.append(hex(bytes).as_str());
        },
        None => {
            text.append("unknown");
        },
    }
    text.append(";options=");
    text.append(parts.options.as_str());
    text.append(";check_mode=");
    text.append(parts.check_mode.as_str());
    text
}

/// The kernels that were loaded into a context, by the numbers of the kernels.
pub struct LoadedModules {
    module_names: HashMap<u64, CompiledKernel>,
}

impl View for LoadedModules {
    type V = Map<u64, CompiledKernel>;

    closed spec fn view(&self) -> Map<u64, CompiledKernel> {
        self.module_names@
    }
}

/// How a kernel is launched.
#[derive(Debug)]
pub struct LaunchPlan {
    /// The function in the loaded module.
    pub func: u64,
    /// The most dynamic shared memory that the function may be given, in bytes.
    pub max_dynamic_shared: i32,
    /// The number of cubes in each dimension.
    pub grid: (u32, u32, u32),
    /// The number of units of a cube in each dimension.
    pub block: (u32, u32, u32),
    /// Dynamic shared memory, in bytes.
    pub shared_mem_bytes: u32,
    /// The arguments of the kernel, as addresses.
    pub bindings: Vec<u64>,
}

impl LoadedModules {
    /// No kernel is loaded.
    pub fn new() -> (modules: Self)
        ensures
            (modules@ == Map::<u64, CompiledKernel>::empty()),
    {
        LoadedModules { module_names: HashMap::new() }
    }

    /// Returns a loaded kernel.
    pub fn get(&self, kernel: u64) -> (found: Option<CompiledKernel>)
        ensures
            found == (if self@.contains_key(kernel) {
                Some(self@[kernel])
            } else {
                None
            }),
    {
        match self.module_names.get(&kernel) {
            Some(found) => Some(*found),
            None => None,
        }
    }

    pub(crate) fn insert(&mut self, kernel: u64, compiled: CompiledKernel)
        ensures
            final(self)@ == old(self)@.insert(kernel, compiled),
    {
        self.module_names.insert(kernel, compiled);
    }

    /// Plans the launch of a loaded kernel: its arguments are the tensor maps, then the resources,
    /// then the constants.
    pub fn execute_task(
        &self,
        kernel: u64,
        dispatch_count: (u32, u32, u32),
        tensor_maps: &Vec<u64>,
        resources: &Vec<u64>,
        const_info: Option<u64>,
    ) -> (plan: LaunchPlan)
        requires
            self@.contains_key(kernel),
        ensures
            plan.func == self@[kernel].func,
            plan.max_dynamic_shared == self@[kernel].shared_mem_bytes as i32,
            plan.shared_mem_bytes == self@[kernel].shared_mem_bytes as u32,
            plan.grid == dispatch_count,
            plan.block == (
                self@[kernel].cube_dim.x,
                self@[kernel].cube_dim.y,
                self@[kernel].cube_dim.z,
            ),
            plan.bindings@ == tensor_maps@ + resources@ + (match const_info {
                Some(info) => seq![info],
                None => Seq::<u64>::empty(),
            }),
    {
        let mut bindings: Vec<u64> = Vec::new();
        push_all(&mut bindings, tensor_maps);
        push_all(&mut bindings, resources);
        match const_info {
            Some(info) => {
                bindings.push(info);
            },
            None => {},
        }
        let compiled: CompiledKernel = *self.module_names.get(&kernel).unwrap();
        let cube_dim = compiled.cube_dim;
        assert(bindings@ =~= tensor_maps@ + resources@ + (match const_info {
            Some(info) => seq![info],
            None => Seq::<u64>::empty(),
        }));
        LaunchPlan {
            func: compiled.func,
            max_dynamic_shared: #[verifier::truncate]
            (compiled.shared_mem_bytes as i32),
            grid: dispatch_count,
            block: (cube_dim.x, cube_dim.y, cube_dim.z),
            shared_mem_bytes: #[verifier::truncate]
            (compiled.shared_mem_bytes as u32),
            bindings,
        }
    }
}

fn push_all(bindings: &mut Vec<u64>, more: &Vec<u64>)
    ensures
        final(bindings)@ == old(bindings)@ + more@,
{
    let mut index: usize = 0;
    assert(bindings@ =~= old(bindings)@ + more@.take(0));
    while index < more.len()
        invariant
            index <= more.len(),
            bindings@ == old(bindings)@ + more@.take(index as int),
        decreases more.len() - index,
    {
        bindings.push(more[index]);
        assert(bindings@ =~= old(bindings)@ + more@.take(index + 1));
        index = index + 1;
    }
    assert(more@.take(index as int) =~= more@);
}

/// The driver refused to prepare or to launch a kernel, or did neither.
pub fn launch_result(error: Option<String>) -> (result: Result<(), LaunchError>)
    ensures
        result is Ok <==> error is None,
        result matches Err(failure) ==> failure == LaunchError::Unknown(error->0),
{
    match error {
        Some(error) => Err(LaunchError::Unknown(error)),
        None => Ok(()),
    }
}

/// A launch gets its arguments in one order: each tensor map, each resource, and the constants
/// last, if there are any; and the cubes and units of each dimension in theirs. It gets the
/// function and the shared memory of its own kernel.
pub proof fn law_arguments_are_in_order(
    modules: &LoadedModules,
    kernel: u64,
    dispatch_count: (u32, u32, u32),
    tensor_maps: &Vec<u64>,
    resources: &Vec<u64>,
    const_info: Option<u64>,
    plan: LaunchPlan,
)
    requires
        modules@.contains_key(kernel),
        call_ensures(
            LoadedModules::execute_task,
            (modules, kernel, dispatch_count, tensor_maps, resources, const_info),
            plan,
        ),
    ensures
        plan.bindings@.len() == tensor_maps@.len() + resources@.len() + (if const_info is Some {
            1int
        } else {
            0int
        }),
        forall|i: int|
            0 <= i < tensor_maps@.len() ==> #[trigger] tensor_maps@[i] == plan.bindings@[i],
        forall|i: int|
            0 <= i < resources@.len() ==> #[trigger] resources@[i]
                == plan.bindings@[tensor_maps@.len() + i],
        const_info is Some ==> plan.bindings@.last() == const_info->0,
        plan.grid.0 == dispatch_count.0 && plan.grid.1 == dispatch_count.1 && plan.grid.2
            == dispatch_count.2,
        plan.block.0 == modules@[kernel].cube_dim.x,
        plan.block.1 == modules@[kernel].cube_dim.y,
        plan.block.2 == modules@[kernel].cube_dim.z,
        plan.func == modules@[kernel].func,
        modules@[kernel].shared_mem_bytes <= i32::MAX ==> plan.shared_mem_bytes
            == modules@[kernel].shared_mem_bytes && plan.max_dynamic_shared
            == modules@[kernel].shared_mem_bytes,
{
}

} // verus!
