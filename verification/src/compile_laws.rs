//! What holds of the texts that compilation writes: the cache fingerprint and the report of a
//! kernel that does not compile.

use crate::cache_metrics::CacheCounters;
use crate::cuda_compile::{
    CompiledKernel, CompiledSource, DeviceFingerprint, LaunchError, PtxCacheEntry,
};
use crate::cuda_install::Platform;
use crate::duration::Duration;
use crate::kernel_compilation::{
    CompileAction, CompileEvent, CompilePhase, CompileRequest, KernelCompilation, LoadOutcome,
    NvrtcOutcome,
};
use vstd::prelude::*;

verus! {

use crate::cuda_compile::{compilation_message, fingerprint_text, indented, nvrtc_text, text_or};
use crate::cuda_install::headers;
use crate::decimal::{
    decimal_digits, hex_digits, hex_value, is_digit, law_decimal_reads_back, law_hex_reads_back,
    law_signed_reads_back, lemma_decimal_is_injective, lemma_hex_is_injective, signed_digits,
};
use crate::duration::counted_nanos;
use crate::joining::{are_parts_of, joined_by, lemma_whole_is_one_part};
use crate::kernel_compilation::{compile_counted, compile_loaded, compile_step};
use crate::path_laws::law_headers_are_below_installation;
use crate::text::{law_join_splits_back, law_split_of_joined, split_text, texts};

/// The identity of a device as text.
pub open spec fn uuid_text(uuid: Option<Vec<u8>>) -> Seq<char> {
    match uuid {
        Some(bytes) => hex_digits(bytes@),
        None => "unknown"@,
    }
}

/// The texts that a fingerprint is given hold no semicolon.
pub open spec fn has_no_semicolon(parts: DeviceFingerprint, version: Seq<char>) -> bool {
    &&& !text_or(parts.namespace, "cubecl-cuda-"@ + version).contains(';')
    &&& !parts.arch@.contains(';')
    &&& !text_or(parts.device_name, "unknown"@).contains(';')
    &&& !parts.options@.contains(';')
    &&& !parts.check_mode@.contains(';')
}

/// A fingerprint is a list of named values, one for each thing that a compiled kernel depends on,
/// each under its own name.
pub proof fn law_fingerprint_names_its_values(parts: DeviceFingerprint, version: Seq<char>)
    requires
        has_no_semicolon(parts, version),
    ensures
        split_text(';', fingerprint_text(parts, version)) == seq![
            "schema=1"@,
            "namespace="@ + text_or(parts.namespace, "cubecl-cuda-"@ + version),
            "cuda_header="@ + decimal_digits(parts.cuda_header as nat),
            "driver="@ + signed_digits(parts.driver_version as int),
            "nvrtc="@ + nvrtc_text(parts.nvrtc_version),
            "arch="@ + parts.arch@,
            "device_name="@ + text_or(parts.device_name, "unknown"@),
            "device_uuid="@ + uuid_text(parts.device_uuid),
            "options="@ + parts.options@,
            "check_mode="@ + parts.check_mode@,
        ],
{
    lemma_keys();
    lemma_numbers_have_no_mark(parts);
    let ns = text_or(parts.namespace, "cubecl-cuda-"@ + version);
    let header = decimal_digits(parts.cuda_header as nat);
    let driver = signed_digits(parts.driver_version as int);
    let nvrtc = nvrtc_text(parts.nvrtc_version);
    let arch = parts.arch@;
    let name = text_or(parts.device_name, "unknown"@);
    let uuid = uuid_text(parts.device_uuid);
    let options = parts.options@;
    let mode = parts.check_mode@;
    let q0 = seq!["schema=1"@];
    let q1 = q0.push("namespace="@ + ns);
    let q2 = q1.push("cuda_header="@ + header);
    let q3 = q2.push("driver="@ + driver);
    let q4 = q3.push("nvrtc="@ + nvrtc);
    let q5 = q4.push("arch="@ + arch);
    let q6 = q5.push("device_name="@ + name);
    let q7 = q6.push("device_uuid="@ + uuid);
    let q8 = q7.push("options="@ + options);
    let q9 = q8.push("check_mode="@ + mode);
    let t1 = "schema=1;namespace="@ + ns;
    let t2 = t1 + ";cuda_header="@ + header;
    let t3 = t2 + ";driver="@ + driver;
    let t4 = t3 + ";nvrtc="@ + nvrtc;
    let t5 = t4 + ";arch="@ + arch;
    let t6 = t5 + ";device_name="@ + name;
    let t7 = t6 + ";device_uuid="@ + uuid;
    let t8 = t7 + ";options="@ + options;
    let t9 = t8 + ";check_mode="@ + mode;
    assert(fingerprint_text(parts, version) == t9);
    assert(q1.drop_last() =~= q0);
    assert(joined_by(q0, ';') == "schema=1"@);
    assert(joined_by(q1, ';') =~= t1);
    lemma_field(q1, t1, ";cuda_header="@, "cuda_header="@, header);
    lemma_field(q2, t2, ";driver="@, "driver="@, driver);
    lemma_field(q3, t3, ";nvrtc="@, "nvrtc="@, nvrtc);
    lemma_field(q4, t4, ";arch="@, "arch="@, arch);
    lemma_field(q5, t5, ";device_name="@, "device_name="@, name);
    lemma_field(q6, t6, ";device_uuid="@, "device_uuid="@, uuid);
    lemma_field(q7, t7, ";options="@, "options="@, options);
    lemma_field(q8, t8, ";check_mode="@, "check_mode="@, mode);
    let all = seq![
        "schema=1"@,
        "namespace="@ + ns,
        "cuda_header="@ + header,
        "driver="@ + driver,
        "nvrtc="@ + nvrtc,
        "arch="@ + arch,
        "device_name="@ + name,
        "device_uuid="@ + uuid,
        "options="@ + options,
        "check_mode="@ + mode,
    ];
    assert(q9 =~= all);
    lemma_no_mark_in_field("namespace="@, ns);
    lemma_no_mark_in_field("cuda_header="@, header);
    lemma_no_mark_in_field("driver="@, driver);
    lemma_no_mark_in_field("nvrtc="@, nvrtc);
    lemma_no_mark_in_field("arch="@, arch);
    lemma_no_mark_in_field("device_name="@, name);
    lemma_no_mark_in_field("device_uuid="@, uuid);
    lemma_no_mark_in_field("options="@, options);
    lemma_no_mark_in_field("check_mode="@, mode);
    assert(are_parts_of(all, ';', t9));
    law_join_splits_back(';', t9, all);
}

proof fn lemma_field(
    parts: Seq<Seq<char>>,
    text: Seq<char>,
    marked_key: Seq<char>,
    key: Seq<char>,
    value: Seq<char>,
)
    requires
        parts.len() > 0,
        joined_by(parts, ';') == text,
        marked_key == seq![';'] + key,
    ensures
        joined_by(parts.push(key + value), ';') == text + marked_key + value,
{
    let longer = parts.push(key + value);
    assert(longer.drop_last() =~= parts);
    assert(joined_by(longer, ';') =~= text + marked_key + value);
}

proof fn lemma_no_mark_in_field(key: Seq<char>, value: Seq<char>)
    requires
        !key.contains(';'),
        !value.contains(';'),
    ensures
        !(key + value).contains(';'),
{
    let field = key + value;
    if field.contains(';') {
        let n = choose|n: int| 0 <= n < field.len() && field[n] == ';';
        if n < key.len() {
            assert(key[n] == ';');
        } else {
            assert(value[n - key.len()] == ';');
        }
    }
}

proof fn lemma_keys()
    ensures
        !"schema=1"@.contains(';'),
        "schema=1;namespace="@ == "schema=1"@.push(';') + "namespace="@,
        !"namespace="@.contains(';'),
        !"cuda_header="@.contains(';'),
        !"driver="@.contains(';'),
        !"nvrtc="@.contains(';'),
        !"arch="@.contains(';'),
        !"device_name="@.contains(';'),
        !"device_uuid="@.contains(';'),
        !"options="@.contains(';'),
        !"check_mode="@.contains(';'),
        ";cuda_header="@ == seq![';'] + "cuda_header="@,
        ";driver="@ == seq![';'] + "driver="@,
        ";nvrtc="@ == seq![';'] + "nvrtc="@,
        ";arch="@ == seq![';'] + "arch="@,
        ";device_name="@ == seq![';'] + "device_name="@,
        ";device_uuid="@ == seq![';'] + "device_uuid="@,
        ";options="@ == seq![';'] + "options="@,
        ";check_mode="@ == seq![';'] + "check_mode="@,
{
    reveal_strlit("schema=1");
    reveal_strlit("schema=1;namespace=");
    reveal_strlit("namespace=");
    reveal_strlit("cuda_header=");
    reveal_strlit("driver=");
    reveal_strlit("nvrtc=");
    reveal_strlit("arch=");
    reveal_strlit("device_name=");
    reveal_strlit("device_uuid=");
    reveal_strlit("options=");
    reveal_strlit("check_mode=");
    reveal_strlit(";cuda_header=");
    assert(";cuda_header="@ =~= seq![';'] + "cuda_header="@);
    reveal_strlit(";driver=");
    assert(";driver="@ =~= seq![';'] + "driver="@);
    reveal_strlit(";nvrtc=");
    assert(";nvrtc="@ =~= seq![';'] + "nvrtc="@);
    reveal_strlit(";arch=");
    assert(";arch="@ =~= seq![';'] + "arch="@);
    reveal_strlit(";device_name=");
    assert(";device_name="@ =~= seq![';'] + "device_name="@);
    reveal_strlit(";device_uuid=");
    assert(";device_uuid="@ =~= seq![';'] + "device_uuid="@);
    reveal_strlit(";options=");
    assert(";options="@ =~= seq![';'] + "options="@);
    reveal_strlit(";check_mode=");
    assert(";check_mode="@ =~= seq![';'] + "check_mode="@);
    assert("schema=1;namespace="@ =~= "schema=1"@.push(';') + "namespace="@);
}

proof fn lemma_numbers_have_no_mark(parts: DeviceFingerprint)
    ensures
        !decimal_digits(parts.cuda_header as nat).contains(';'),
        !signed_digits(parts.driver_version as int).contains(';'),
        !nvrtc_text(parts.nvrtc_version).contains(';'),
        !uuid_text(parts.device_uuid).contains(';'),
{
    reveal_strlit("unknown");
    reveal_strlit(".");
    law_decimal_reads_back(parts.cuda_header as nat);
    law_signed_reads_back(parts.driver_version as int);
    match parts.nvrtc_version {
        Some((major, minor)) => {
            law_signed_reads_back(major as int);
            law_signed_reads_back(minor as int);
            lemma_no_mark_in_field(signed_digits(major as int), "."@);
            lemma_no_mark_in_field(
                signed_digits(major as int) + "."@,
                signed_digits(minor as int),
            );
        },
        None => {},
    }
    match parts.device_uuid {
        Some(bytes) => {
            law_hex_reads_back(bytes@);
        },
        None => {},
    }
}

/// Different versions of NVRTC are written differently, and a version that is not known differently
/// from all of them.
pub proof fn law_nvrtc_text_tells_version(a: Option<(i32, i32)>, b: Option<(i32, i32)>)
    requires
        nvrtc_text(a) == nvrtc_text(b),
    ensures
        a == b,
{
    reveal_strlit("unknown");
    reveal_strlit(".");
    if a is Some {
        lemma_nvrtc_parts((a->0).0, (a->0).1);
    }
    if b is Some {
        lemma_nvrtc_parts((b->0).0, (b->0).1);
    }
    if a is Some && b is Some {
        let (x, y) = (split_text('.', nvrtc_text(a)), split_text('.', nvrtc_text(b)));
        assert(x[0] == y[0] && x[1] == y[1]);
        law_signed_reads_back((a->0).0 as int);
        law_signed_reads_back((a->0).1 as int);
        law_signed_reads_back((b->0).0 as int);
        law_signed_reads_back((b->0).1 as int);
    }
}

proof fn lemma_nvrtc_parts(major: i32, minor: i32)
    ensures
        split_text('.', nvrtc_text(Some((major, minor)))) == seq![
            signed_digits(major as int),
            signed_digits(minor as int),
        ],
        nvrtc_text(Some((major, minor)))[0] != 'u',
{
    reveal_strlit(".");
    let (x, y) = (signed_digits(major as int), signed_digits(minor as int));
    let text = nvrtc_text(Some((major, minor)));
    law_signed_reads_back(major as int);
    law_signed_reads_back(minor as int);
    assert(text[0] == x[0]);
    assert(seq![x, y].drop_last() =~= seq![x]);
    reveal_with_fuel(joined_by, 2);
    assert(joined_by(seq![x, y], '.') =~= text);
    assert(are_parts_of(seq![x, y], '.', text));
    law_join_splits_back('.', text, seq![x, y]);
}

/// The fingerprint tells what a compiled kernel depends on: where it is the same, everything that
/// it is made of is the same. A stand-in for a namespace or a name is as good as the same text.
pub proof fn law_fingerprint_tells_its_values(
    a: DeviceFingerprint,
    b: DeviceFingerprint,
    version: Seq<char>,
)
    requires
        has_no_semicolon(a, version),
        has_no_semicolon(b, version),
        fingerprint_text(a, version) == fingerprint_text(b, version),
    ensures
        text_or(a.namespace, "cubecl-cuda-"@ + version) == text_or(
            b.namespace,
            "cubecl-cuda-"@ + version,
        ),
        a.cuda_header == b.cuda_header,
        a.driver_version == b.driver_version,
        a.nvrtc_version == b.nvrtc_version,
        a.arch@ == b.arch@,
        text_or(a.device_name, "unknown"@) == text_or(b.device_name, "unknown"@),
        a.device_uuid is Some <==> b.device_uuid is Some,
        a.device_uuid is Some ==> (a.device_uuid->0)@ == (b.device_uuid->0)@,
        a.options@ == b.options@,
        a.check_mode@ == b.check_mode@,
{
    law_fingerprint_names_its_values(a, version);
    law_fingerprint_names_its_values(b, version);
    let (x, y) = (
        split_text(';', fingerprint_text(a, version)),
        split_text(';', fingerprint_text(b, version)),
    );
    assert(x[1] == y[1]);
    lemma_value_after_key(
        "namespace="@,
        text_or(a.namespace, "cubecl-cuda-"@ + version),
        text_or(b.namespace, "cubecl-cuda-"@ + version),
    );
    assert(x[2] == y[2]);
    lemma_value_after_key(
        "cuda_header="@,
        decimal_digits(a.cuda_header as nat),
        decimal_digits(b.cuda_header as nat),
    );
    assert(x[3] == y[3]);
    lemma_value_after_key(
        "driver="@,
        signed_digits(a.driver_version as int),
        signed_digits(b.driver_version as int),
    );
    assert(x[4] == y[4]);
    lemma_value_after_key("nvrtc="@, nvrtc_text(a.nvrtc_version), nvrtc_text(b.nvrtc_version));
    assert(x[5] == y[5]);
    lemma_value_after_key("arch="@, a.arch@, b.arch@);
    assert(x[6] == y[6]);
    lemma_value_after_key(
        "device_name="@,
        text_or(a.device_name, "unknown"@),
        text_or(b.device_name, "unknown"@),
    );
    assert(x[7] == y[7]);
    lemma_value_after_key("device_uuid="@, uuid_text(a.device_uuid), uuid_text(b.device_uuid));
    assert(x[8] == y[8]);
    lemma_value_after_key("options="@, a.options@, b.options@);
    assert(x[9] == y[9]);
    lemma_value_after_key("check_mode="@, a.check_mode@, b.check_mode@);
    lemma_decimal_is_injective(a.cuda_header as nat, b.cuda_header as nat);
    law_signed_reads_back(a.driver_version as int);
    law_signed_reads_back(b.driver_version as int);
    law_nvrtc_text_tells_version(a.nvrtc_version, b.nvrtc_version);
    reveal_strlit("unknown");
    if a.device_uuid is Some {
        law_hex_reads_back((a.device_uuid->0)@);
        assert(hex_value('u') == -1);
    }
    if b.device_uuid is Some {
        law_hex_reads_back((b.device_uuid->0)@);
        assert(hex_value('u') == -1);
    }
    if a.device_uuid is Some && b.device_uuid is Some {
        lemma_hex_is_injective((a.device_uuid->0)@, (b.device_uuid->0)@);
    }
}

proof fn lemma_value_after_key(key: Seq<char>, a: Seq<char>, b: Seq<char>)
    requires
        key + a == key + b,
    ensures
        a == b,
{
    assert((key + a).skip(key.len() as int) =~= a);
    assert((key + b).skip(key.len() as int) =~= b);
}

/// The lines of a log are indented one by one, in their order; an empty one leaves nothing.
pub proof fn law_lines_are_indented(lines: Seq<Seq<char>>, more: Seq<Seq<char>>, line: Seq<char>)
    ensures
        indented(lines + more) == indented(lines) + indented(more),
        line.len() > 0 ==> indented(seq![line]) == seq!['\n', ' ', ' ', ' ', ' '] + line,
        line.len() == 0 ==> indented(seq![line]) == Seq::<char>::empty(),
    decreases more.len(),
{
    reveal_strlit("\n    ");
    assert(seq![line].drop_last() =~= Seq::<Seq<char>>::empty());
    reveal_with_fuel(indented, 2);
    if line.len() > 0 {
        assert(indented(seq![line]) =~= seq!['\n', ' ', ' ', ' ', ' '] + line);
    } else {
        assert(indented(seq![line]) =~= Seq::<char>::empty());
    }
    if more.len() == 0 {
        assert(lines + more =~= lines);
        assert(indented(lines) + indented(more) =~= indented(lines));
    } else {
        law_lines_are_indented(lines, more.drop_last(), line);
        assert((lines + more).drop_last() =~= lines + more.drop_last());
        assert((lines + more).last() == more.last());
        assert(indented(lines + more) =~= indented(lines) + indented(more));
    }
}

/// A report is a heading, some text, and the source after a heading of its own.
pub open spec fn is_report(message: Seq<char>, text: Seq<char>, source: Seq<char>) -> bool {
    message == "[Compilation Error] "@ + text + "\n[Source]  \n"@ + source
}

/// The report of a kernel that does not compile shows the log, then the source, which is unchanged.
/// A log of one line is indented on a line of its own, and an empty log leaves nothing.
pub proof fn law_report_of_one_line(log: Seq<char>, source: Seq<char>)
    requires
        !log.contains('\n'),
    ensures
        log.len() > 0 ==> is_report(
            compilation_message(log, source),
            seq!['\n', ' ', ' ', ' ', ' '] + log,
            source,
        ),
        log.len() == 0 ==> is_report(compilation_message(log, source), Seq::empty(), source),
{
    lemma_whole_is_one_part('\n', log);
    law_join_splits_back('\n', log, seq![log]);
    law_lines_are_indented(Seq::empty(), Seq::empty(), log);
}

/// The report of a log that goes on shows its first lines, then the others.
pub proof fn law_report_of_more_lines(
    first: Seq<char>,
    second: Seq<char>,
    source: Seq<char>,
    a: Seq<char>,
    b: Seq<char>,
)
    requires
        is_report(compilation_message(first, source), a, source),
        is_report(compilation_message(second, source), b, source),
    ensures
        is_report(compilation_message(first.push('\n') + second, source), a + b, source),
{
    law_split_of_joined('\n', first, second);
    let (x, y) = (indented(split_text('\n', first)), indented(split_text('\n', second)));
    lemma_report_text(x, a, source);
    lemma_report_text(y, b, source);
    law_lines_are_indented(split_text('\n', first), split_text('\n', second), Seq::empty());
}

proof fn lemma_report_text(a: Seq<char>, b: Seq<char>, source: Seq<char>)
    requires
        "[Compilation Error] "@ + a + "\n[Source]  \n"@ + source == "[Compilation Error] "@ + b
            + "\n[Source]  \n"@ + source,
    ensures
        a == b,
{
    let head = "[Compilation Error] "@;
    let tail = "\n[Source]  \n"@;
    let (x, y) = (head + a + tail + source, head + b + tail + source);
    assert(x.len() == y.len());
    assert(x.subrange(head.len() as int, (head.len() + a.len()) as int) =~= a);
    assert(y.subrange(head.len() as int, (head.len() + b.len()) as int) =~= b);
}

/// Each thing that happens to a kernel is counted once, under its own name, and nothing else is
/// counted: an entry that was found, one that was not, a compilation with its time, a write that
/// succeeded, and a load that succeeded with its time.
pub proof fn law_each_event_is_counted_once(
    c: CacheCounters,
    phase: CompilePhase,
    event: CompileEvent,
)
    ensures
        ({
            let after = compile_counted(c, phase, event);
            let asked = phase is Cache && event is CacheEntry;
            let compiled = phase is Nvrtc && event is Nvrtc && event->Nvrtc_0 is Ptx;
            let written = phase is Store && event == CompileEvent::Stored(true);
            let loaded = phase is Load && event is Loaded && event->Loaded_0 is Loaded;
            &&& after.compilation_cache_hits == (if asked && event->CacheEntry_0 is Some {
                c.compilation_cache_hits.wrapping_add(1)
            } else {
                c.compilation_cache_hits
            })
            &&& after.compilation_cache_misses == (if asked && event->CacheEntry_0 is None {
                c.compilation_cache_misses.wrapping_add(1)
            } else {
                c.compilation_cache_misses
            })
            &&& after.compilation_cache_writes == (if written {
                c.compilation_cache_writes.wrapping_add(1)
            } else {
                c.compilation_cache_writes
            })
            &&& after.nvrtc_compilations == (if compiled {
                c.nvrtc_compilations.wrapping_add(1)
            } else {
                c.nvrtc_compilations
            })
            &&& after.nvrtc_compilation_nanos == (if compiled {
                c.nvrtc_compilation_nanos.wrapping_add(
                    counted_nanos(event->Nvrtc_0->Ptx_duration),
                )
            } else {
                c.nvrtc_compilation_nanos
            })
            &&& after.module_loads == (if loaded {
                c.module_loads.wrapping_add(1)
            } else {
                c.module_loads
            })
            &&& after.module_load_nanos == (if loaded {
                c.module_load_nanos.wrapping_add(counted_nanos(event->Loaded_0->Loaded_duration))
            } else {
                c.module_load_nanos
            })
            &&& after.autotune_hits == c.autotune_hits
            &&& after.autotune_misses == c.autotune_misses
            &&& after.autotune_writes == c.autotune_writes
            &&& after.autotune_seed_entries_loaded == c.autotune_seed_entries_loaded
            &&& after.autotune_writable_entries_loaded == c.autotune_writable_entries_loaded
        }),
{
}

/// A kernel that the cache holds is loaded with the dimensions that are asked for and the shared
/// memory that is stored with it, under its own number.
pub proof fn law_hit_is_loaded_as_stored(
    compilation: KernelCompilation,
    entry: PtxCacheEntry,
    func: u64,
    duration: Duration,
    load: CompilePhase,
    action: CompileAction,
    modules: Map<u64, CompiledKernel>,
)
    requires
        compilation.phase is Cache,
        compile_step(compilation, CompileEvent::CacheEntry(Some(entry)), load, action),
    ensures
        ({
            let after = compile_loaded(
                modules,
                KernelCompilation { phase: load, ..compilation },
                CompileEvent::Loaded(LoadOutcome::Loaded { func, duration }),
            );
            let kernel = after[compilation.request.kernel_id];
            &&& after.dom() == modules.dom().insert(compilation.request.kernel_id)
            &&& kernel.func == func
            &&& kernel.cube_dim == compilation.request.cube_dim
            &&& kernel.shared_mem_bytes == entry.shared_mem_bytes
        }),
{
    let after = compile_loaded(
        modules,
        KernelCompilation { phase: load, ..compilation },
        CompileEvent::Loaded(LoadOutcome::Loaded { func, duration }),
    );
    assert(after.dom() =~= modules.dom().insert(compilation.request.kernel_id));
}

/// A kernel that the cache lacks, or that is not cached at all, is validated before it is turned
/// into source, and turned into source before it is compiled; what an earlier step refuses reaches
/// no later one, and is reported as it is.
pub proof fn law_steps_before_compiling(
    compilation: KernelCompilation,
    event: CompileEvent,
    phase: CompilePhase,
    action: CompileAction,
)
    requires
        compile_step(compilation, event, phase, action),
    ensures
        action is LookUp ==> compilation.phase is Start && compilation.request.cached,
        action matches CompileAction::LookUp(key) ==> key.fingerprint@
            == compilation.request.fingerprint@ && key.kernel == compilation.request.kernel,
        compilation.phase is Load ==> (event matches CompileEvent::Loaded(
            LoadOutcome::ModuleFailed(text),
        ) ==> action is Done && action->Done_0 is Err && action->Done_0->Err_0 is Compilation
            && action->Done_0->Err_0->Compilation_0@ == "Unable to load the PTX: "@ + text@),
        compilation.phase is Load ==> (event matches CompileEvent::Loaded(
            LoadOutcome::FunctionFailed(text),
        ) ==> action is Done && action->Done_0 is Err && action->Done_0->Err_0 is Compilation
            && action->Done_0->Err_0->Compilation_0@
            == "Unable to fetch the function from the module: "@ + text@),
        compilation.phase is Nvrtc ==> (event matches CompileEvent::Nvrtc(
            NvrtcOutcome::Failed(text),
        ) ==> action is Done && action->Done_0 is Err && action->Done_0->Err_0 is Compilation
            && action->Done_0->Err_0->Compilation_0@ == text@),
        action is Done && action->Done_0 is Ok ==> compilation.phase is Load && event is Loaded
            && event->Loaded_0 is Loaded,
        action is Validate ==> (compilation.phase is Start && !compilation.request.cached) || (
        compilation.phase is Cache && event == CompileEvent::CacheEntry(None)),
        action is Compile ==> compilation.phase is Validate && event == CompileEvent::Validated(
            None,
        ),
        action is RunNvrtc ==> compilation.phase is Compile && event is Source && event->Source_0
            is Ok,
        action is Store ==> compilation.phase is Nvrtc && compilation.request.cached,
        compilation.phase is Validate ==> (event matches CompileEvent::Validated(Some(error))
            ==> action == CompileAction::Done(Err(error)) && phase is Over),
        compilation.phase is Compile ==> (event matches CompileEvent::Source(Err(error)) ==> action
            == CompileAction::Done(Err(error)) && phase is Over),
{
}

/// A source is compiled if and only if the device has the shared memory that the kernel asks for
/// and CUDA is installed. A kernel that asks for too much is refused with what it asks for and what
/// there is, whether or not CUDA is installed. The compiler gets the source as it was laid out, if
/// it was, and as many options as there are directories and settings.
pub proof fn law_source_is_compiled_if_it_fits(
    compilation: KernelCompilation,
    source: CompiledSource,
    phase: CompilePhase,
    action: CompileAction,
)
    requires
        compilation.phase is Compile,
        compile_step(compilation, CompileEvent::Source(Ok(source)), phase, action),
    ensures
        ({
            let request = compilation.request;
            let fits = source.shared_mem_bytes is None || source.shared_mem_bytes->0
                <= request.max_shared;
            &&& action is RunNvrtc <==> fits && request.installation is Some
            &&& action is MissingInstallation <==> fits && request.installation is None
            &&& !fits ==> action == CompileAction::Done(
                Err(
                    LaunchError::SharedMemory {
                        requested: source.shared_mem_bytes->0,
                        max: request.max_shared,
                    },
                ),
            )
            &&& action matches CompileAction::RunNvrtc { source: text, options } ==> {
                &&& source.formatted is Some ==> text == source.formatted->0
                &&& source.formatted is None ==> text == source.source
                &&& options@.len() == (if request.cccl_exists {
                    4int
                } else {
                    3int
                })
                &&& options@[1]@ == "--include-path="@ + headers(
                    (request.installation->0)@,
                    request.platform,
                )
                &&& request.cccl_exists && request.platform != Platform::Windows
                    ==> options@[3]@ == options@[1]@.push('/') + "cccl"@
                &&& phase is Nvrtc
                &&& phase->Nvrtc_entrypoint_name == source.entrypoint_name
                &&& phase->Nvrtc_cube_dim == source.cube_dim
                &&& phase->Nvrtc_reserved == source.shared_mem_bytes
            }
            &&& action !is RunNvrtc ==> phase is Over
        }),
{
    let request = compilation.request;
    match action {
        CompileAction::RunNvrtc { source: text, options } => {
            let all = texts(options@);
            assert(all.len() == options@.len());
            assert(all[1] == options@[1]@);
            if request.cccl_exists && request.platform != Platform::Windows {
                let directory = headers((request.installation->0)@, request.platform);
                assert(all[3] == options@[3]@);
                reveal_strlit("/");
                reveal_strlit("include");
                law_headers_are_below_installation(
                    (request.installation->0)@,
                    request.platform,
                );
                assert(directory.last() == 'e');
                assert(options@[3]@ =~= options@[1]@.push('/') + "cccl"@);
            }
        },
        _ => {},
    }
}

/// From its source on, a kernel that is compiled and loaded keeps what its source says: the
/// function of the entry point of the source is loaded from the code that the compiler made, and is
/// launched with the dimensions and the shared memory of the source. Where kernels are cached, the
/// same goes through the cache.
pub proof fn law_compiled_kernel_is_loaded(
    request: CompileRequest,
    source: CompiledSource,
    ptx: Vec<i8>,
    compiling: Duration,
    stored: bool,
    func: u64,
    loading: Duration,
    nvrtc: CompilePhase,
    run: CompileAction,
    kept: CompilePhase,
    keep: CompileAction,
    load: CompilePhase,
    fetch: CompileAction,
    modules: Map<u64, CompiledKernel>,
)
    requires
        source.shared_mem_bytes is Some,
        compile_step(
            KernelCompilation { request, phase: CompilePhase::Compile },
            CompileEvent::Source(Ok(source)),
            nvrtc,
            run,
        ),
        run is RunNvrtc,
        compile_step(
            KernelCompilation { request, phase: nvrtc },
            CompileEvent::Nvrtc(NvrtcOutcome::Ptx { ptx, duration: compiling }),
            kept,
            keep,
        ),
        request.cached ==> compile_step(
            KernelCompilation { request, phase: kept },
            CompileEvent::Stored(stored),
            load,
            fetch,
        ),
        !request.cached ==> load == kept && fetch == keep,
    ensures
        fetch is Load,
        fetch->Load_ptx == ptx,
        fetch->Load_entrypoint_name == source.entrypoint_name,
        request.cached ==> keep is Store && keep->Store_0.kernel == request.kernel
            && keep->Store_0.fingerprint@ == request.fingerprint@ && keep->Store_1.ptx@ == ptx@
            && keep->Store_1.shared_mem_bytes == source.shared_mem_bytes->0
            && keep->Store_1.entrypoint_name@ == source.entrypoint_name@,
        ({
            let kernel = compile_loaded(
                modules,
                KernelCompilation { request, phase: load },
                CompileEvent::Loaded(LoadOutcome::Loaded { func, duration: loading }),
            )[request.kernel_id];
            &&& kernel.func == func
            &&& kernel.cube_dim == source.cube_dim
            &&& kernel.shared_mem_bytes == source.shared_mem_bytes->0
        }),
{
}

} // verus!
