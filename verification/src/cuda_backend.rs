//! Selecting between the CUDA C++ backend and the LLVM backend.

use vstd::prelude::*;
use vstd::string::StringExecFns;

verus! {

/// The PTX version that a driver loads, which only a backend that emits PTX itself would choose.
#[derive(Clone, Copy, Debug, PartialEq, Eq, Structural)]
pub struct PtxVersion;

impl PtxVersion {
    /// Returns the newest PTX version that a driver loads; the source backend chooses none.
    pub fn for_driver(_driver: i32) -> (version: Option<Self>)
        ensures
            version is None,
    {
        None
    }

    /// Describes the version.
    pub fn to_text(&self) -> (text: String)
        ensures
            text@ == "none"@,
    {
        String::from_str("none")
    }
}

/// Which backend turns a kernel into something the CUDA driver can load.
#[derive(Clone, Copy, Debug, PartialEq, Eq, Structural)]
pub enum CudaBackend {
    /// Transpile to CUDA C++ and hand the source to NVRTC.
    Cpp,
    /// Lower through LLVM to PTX.
    Llvm,
}

impl Default for CudaBackend {
    fn default() -> (backend: Self)
        ensures
            backend is Cpp,
    {
        CudaBackend::for_features(false, false)
    }
}

impl CudaBackend {
    /// Returns the backend that runs by default: the LLVM one where it is built in, unless the C++
    /// one is asked for.
    pub fn for_features(llvm: bool, cpp: bool) -> (backend: Self)
        ensures
            backend is Llvm <==> llvm && !cpp,
    {
        if llvm && !cpp {
            CudaBackend::Llvm
        } else {
            CudaBackend::Cpp
        }
    }
}

/// Options of the C++ backend that the other one reads too.
#[derive(Clone, Copy, Debug, PartialEq, Eq, Structural)]
pub struct CompilationOptions {
    /// Whether launch parameters are passed as grid constants.
    pub grid_constants: bool,
}

/// Options for whichever backend is selected.
///
/// One struct rather than an enum: the architecture is a device property, filled in regardless of
/// which backend reads it.
#[derive(Clone, Copy, Debug, PartialEq, Eq, Structural)]
pub struct CudaCompilationOptions {
    /// The options of the C++ backend.
    pub cpp: CompilationOptions,
    /// The device architecture, as the runtime read its compute capability.
    pub arch: Option<u32>,
    /// The newest PTX version the driver loads, which the LLVM backend emits.
    pub ptx_version: Option<PtxVersion>,
}

/// Options of the LLVM backend.
#[derive(Clone, Copy, Debug, PartialEq, Eq, Structural)]
pub struct PlironOptions {
    /// The device architecture.
    pub sm_arch: Option<u32>,
    /// The PTX version to emit.
    pub ptx_version: Option<PtxVersion>,
    /// Whether launch parameters are passed as grid constants.
    pub grid_constants: bool,
}

/// What a backend is asked to compile a kernel with.
#[derive(Clone, Copy, Debug, PartialEq, Eq, Structural)]
pub enum BackendRequest {
    /// The C++ backend compiles.
    Cpp(CompilationOptions),
    /// The LLVM backend compiles.
    Llvm(PlironOptions),
}

impl BackendRequest {
    /// Whether launch parameters are passed as grid constants.
    pub open spec fn grid_constants(self) -> bool {
        match self {
            BackendRequest::Cpp(options) => options.grid_constants,
            BackendRequest::Llvm(options) => options.grid_constants,
        }
    }
}

/// The compiler of one backend.
#[derive(Clone, Copy, Debug, PartialEq, Eq, Structural)]
pub enum CudaCompiler {
    /// The C++ backend.
    Cpp,
    /// The LLVM backend, for NVIDIA devices.
    Llvm,
}

impl Default for CudaCompiler {
    fn default() -> (compiler: Self)
        ensures
            compiler is Cpp,
    {
        CudaCompiler::new(CudaBackend::default())
    }
}

impl CudaCompiler {
    /// What a backend is asked for.
    pub open spec fn request(self, options: CudaCompilationOptions) -> BackendRequest {
        match self {
            CudaCompiler::Cpp => BackendRequest::Cpp(options.cpp),
            CudaCompiler::Llvm => BackendRequest::Llvm(
                PlironOptions {
                    sm_arch: options.arch,
                    ptx_version: options.ptx_version,
                    grid_constants: options.cpp.grid_constants,
                },
            ),
        }
    }

    /// The compiler of a backend.
    pub fn new(backend: CudaBackend) -> (compiler: Self)
        ensures
            compiler is Llvm <==> backend is Llvm,
    {
        match backend {
            CudaBackend::Cpp => CudaCompiler::Cpp,
            CudaBackend::Llvm => CudaCompiler::Llvm,
        }
    }

    /// Tells what the backend is asked to compile a kernel with.
    pub fn compile(&self, options: &CudaCompilationOptions) -> (request: BackendRequest)
        ensures
            request == self.request(*options),
            *self is Cpp ==> request == BackendRequest::Cpp(options.cpp),
            *self is Llvm ==> request is Llvm && request->Llvm_0.sm_arch == options.arch
                && request->Llvm_0.ptx_version == options.ptx_version
                && request->Llvm_0.grid_constants == options.cpp.grid_constants,
    {
        match self {
            CudaCompiler::Cpp => BackendRequest::Cpp(options.cpp),
            // The server pushes the launch parameters by the flag of the C++ backend, so both
            // halves have to agree on the shape.
            CudaCompiler::Llvm => BackendRequest::Llvm(
                PlironOptions {
                    sm_arch: options.arch,
                    ptx_version: options.ptx_version,
                    grid_constants: options.cpp.grid_constants,
                },
            ),
        }
    }

    /// Returns the extension of the files that the backend writes; `cpp` is that of the C++ one.
    pub fn extension<'a>(&self, cpp: &'a str) -> (extension: &'a str)
        ensures
            extension@ == (if self is Llvm {
                "ll"@
            } else {
                cpp@
            }),
    {
        match self {
            CudaCompiler::Cpp => cpp,
            CudaCompiler::Llvm => "ll",
        }
    }

    /// Returns the tag of the language that the backend writes; each backend brings its own.
    pub fn lang_tag<'a>(&self, cpp: &'a str, llvm: &'a str) -> (tag: &'a str)
        ensures
            tag@ == (if self is Llvm {
                llvm@
            } else {
                cpp@
            }),
    {
        match self {
            CudaCompiler::Cpp => cpp,
            CudaCompiler::Llvm => llvm,
        }
    }
}

/// What the C++ backend made of a kernel, as far as a launch reads it; an `I` says how a buffer is
/// used.
#[derive(Debug)]
pub struct ComputeKernel<I> {
    /// The source.
    pub source: String,
    /// Shared memory that a launch reserves, in bytes.
    pub shared_memory_size: usize,
    /// How each buffer is used, if that is known.
    pub io: Option<Vec<I>>,
}

/// What the LLVM backend made of a kernel, as far as a launch reads it; an `I` says how a buffer is
/// used.
#[derive(Debug)]
pub struct NvptxModule<I> {
    /// The code.
    pub ir: String,
    /// Shared memory that a launch reserves, in bytes.
    pub shared_memory_size: usize,
    /// How each buffer is used.
    pub io: Vec<I>,
}

/// What a backend made of a kernel.
#[derive(Debug)]
pub enum CudaRepresentation<I> {
    /// By the C++ backend.
    Cpp(ComputeKernel<I>),
    /// By the LLVM backend.
    Llvm(NvptxModule<I>),
}

impl<I> CudaRepresentation<I> {
    /// Shared memory that a launch reserves.
    pub open spec fn shared(self) -> usize {
        match self {
            CudaRepresentation::Cpp(kernel) => kernel.shared_memory_size,
            CudaRepresentation::Llvm(module) => module.shared_memory_size,
        }
    }

    /// Shared memory the launch must reserve.
    ///
    /// Both backends give their kernels one block of dynamic shared memory.
    pub fn shared_memory_size(&self) -> (size: usize)
        ensures
            size == self.shared(),
    {
        match self {
            CudaRepresentation::Cpp(kernel) => kernel.shared_memory_size,
            CudaRepresentation::Llvm(module) => module.shared_memory_size,
        }
    }

    /// Returns the source, or the code.
    pub fn text(&self) -> (text: &String)
        ensures
            text == (match self {
                CudaRepresentation::Cpp(kernel) => &kernel.source,
                CudaRepresentation::Llvm(module) => &module.ir,
            }),
    {
        match self {
            CudaRepresentation::Cpp(kernel) => &kernel.source,
            CudaRepresentation::Llvm(module) => &module.ir,
        }
    }

    /// Returns how each buffer is used. Where that is not known, every buffer counts as both read
    /// and written.
    pub fn buffer_io(&self) -> (io: Option<&Vec<I>>)
        ensures
            match self {
                CudaRepresentation::Cpp(kernel) => match kernel.io {
                    Some(known) => io == Some(&known),
                    None => io is None,
                },
                CudaRepresentation::Llvm(module) => io == Some(&module.io),
            },
    {
        match self {
            CudaRepresentation::Cpp(kernel) => match &kernel.io {
                Some(known) => Some(known),
                None => None,
            },
            CudaRepresentation::Llvm(module) => Some(&module.io),
        }
    }
}

/// Whichever backend compiles, launch parameters are passed the way the C++ options say.
pub proof fn law_backends_agree(
    a: CudaCompiler,
    b: CudaCompiler,
    options: CudaCompilationOptions,
)
    ensures
        a.request(options).grid_constants() == options.cpp.grid_constants,
        a.request(options).grid_constants() == b.request(options).grid_constants(),
{
}

/// Each compiler asks its own backend. The C++ options reach the C++ backend whole; the
/// architecture and the PTX version reach the LLVM backend and make no difference to the other.
pub proof fn law_each_backend_is_asked(
    options: CudaCompilationOptions,
    arch: Option<u32>,
    ptx_version: Option<PtxVersion>,
)
    ensures
        ({
            let changed = CudaCompilationOptions { arch, ptx_version, ..options };
            &&& CudaCompiler::Cpp.request(options) == BackendRequest::Cpp(options.cpp)
            &&& CudaCompiler::Cpp.request(changed) == CudaCompiler::Cpp.request(options)
            &&& CudaCompiler::Llvm.request(changed) is Llvm
            &&& CudaCompiler::Llvm.request(changed)->Llvm_0.sm_arch == arch
            &&& CudaCompiler::Llvm.request(changed)->Llvm_0.ptx_version == ptx_version
        }),
{
}

/// A launch reserves what its kernel asks for, whichever backend compiled it.
pub proof fn law_shared_memory_of_backends<I>(kernel: ComputeKernel<I>, module: NvptxModule<I>)
    ensures
        CudaRepresentation::Cpp(kernel).shared() == kernel.shared_memory_size,
        CudaRepresentation::Llvm(module).shared() == module.shared_memory_size,
{
}

} // verus!
