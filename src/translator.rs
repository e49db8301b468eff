//! The translation engine: from the flag model to a `rustc` invocation.

use vstd::prelude::*;
use crate::cli::{Args, OptLevel};
use crate::path::{file_stem, is_source_file, is_rust_source, path_file_stem};
use crate::text::{joined, join_words, push_word, push_words, text_eq};

verus! {

/// A ready-to-run `rustc` command line.
#[derive(Debug)]
pub struct RustcCommand {
    pub executable: String,
    pub args: Vec<String>,
    pub env_vars: Vec<(String, String)>,
    pub input_files: Vec<String>,
    pub output: Option<String>,
    /// Non-fatal notices about flags that could not be carried over.
    pub warnings: Vec<String>,
}

/// What the running machine offers, as far as translation needs to know.
#[derive(Debug)]
pub struct HostInfo {
    /// The operating system's name, as `std::env::consts::OS` gives it.
    pub os: String,
    pub avx512f: bool,
    pub avx2: bool,
    pub sse42: bool,
}

#[derive(Debug, Clone, Copy, PartialEq, Eq, Structural)]
pub enum TranslateError {
    /// An object file name could not be derived from the input file.
    InvalidInput,
    /// No Rust source file was given.
    NoInputFiles,
}

impl TranslateError {
    /// The message shown to the user.
    pub fn message(&self) -> (r: String)
        ensures
            r@ == error_message(*self),
    {
        match self {
            TranslateError::InvalidInput => String::from_str("Invalid input filename"),
            TranslateError::NoInputFiles => String::from_str("No input files specified"),
        }
    }
}

pub open spec fn error_message(e: TranslateError) -> Seq<char> {
    match e {
        TranslateError::InvalidInput => "Invalid input filename"@,
        TranslateError::NoInputFiles => "No input files specified"@,
    }
}

// ---------------------------------------------------------------------------
// The model of a translation.

pub open spec fn enum_level(l: OptLevel) -> int {
    match l {
        OptLevel::O0 => 0,
        OptLevel::O1 => 1,
        OptLevel::O2 => 2,
        OptLevel::O3 => 3,
        OptLevel::Ox => 3,
    }
}

/// The level a legacy `-O<level>` string stands for; unknown text means 2.
pub open spec fn legacy_level(s: Seq<char>) -> int {
    if s == "0"@ || s == "d"@ {
        0
    } else if s == "1"@ {
        1
    } else if s == "2"@ {
        2
    } else if s == "3"@ || s == "x"@ {
        3
    } else {
        2
    }
}

/// The one effective optimization level: the enumerated level, else the
/// legacy string, else the release shorthand (3), else 2.
pub open spec fn resolved_opt_level(a: Args) -> int {
    match a.opt_level {
        Some(l) => enum_level(l),
        None => match a.msvc_opt {
            Some(s) => legacy_level(s@),
            None => if a.release { 3 } else { 2 },
        },
    }
}

pub open spec fn opt_level_flag(level: int) -> Seq<char> {
    if level == 0 {
        "-Copt-level=0"@
    } else if level == 1 {
        "-Copt-level=1"@
    } else if level == 2 {
        "-Copt-level=2"@
    } else {
        "-Copt-level=3"@
    }
}

pub open spec fn optimization_flags(a: Args) -> Seq<Seq<char>> {
    let level = resolved_opt_level(a);
    if level == 3 {
        seq![opt_level_flag(level), "-Clto=fat"@]
    } else {
        seq![opt_level_flag(level)]
    }
}

/// The target features that a named architecture stands for.
pub open spec fn arch_features(name: Seq<char>) -> Option<Seq<char>> {
    if name == "AVX"@ {
        Some("+avx"@)
    } else if name == "AVX2"@ {
        Some("+avx2"@)
    } else if name == "AVX512"@ || name == "CORE-AVX512"@ {
        Some("+avx512f,+avx512vl,+avx512bw"@)
    } else if name == "SSE4.2"@ || name == "CORE-AVX"@ {
        Some("+sse4.2"@)
    } else if name == "SSE2"@ {
        Some("+sse2"@)
    } else {
        None
    }
}

pub open spec fn host_triple(os: Seq<char>) -> Option<Seq<char>> {
    if os == "windows"@ {
        Some("x86_64-pc-windows-msvc"@)
    } else if os == "linux"@ {
        Some("x86_64-unknown-linux-gnu"@)
    } else {
        None
    }
}

/// Static linking of the C runtime, then the widest instruction-set
/// extension that the host has.
pub open spec fn host_features(h: HostInfo) -> Seq<Seq<char>> {
    seq!["+crt-static"@] + if h.avx512f {
        seq!["+avx512f"@, "+avx512vl"@]
    } else if h.avx2 {
        seq!["+avx2"@]
    } else if h.sse42 {
        seq!["+sse4.2"@]
    } else {
        seq![]
    }
}

/// Whether the host has one of the instruction-set extensions looked for.
pub open spec fn host_has_extension(h: HostInfo) -> bool {
    h.avx512f || h.avx2 || h.sse42
}

pub open spec fn arch_flags(a: Args, h: HostInfo) -> Seq<Seq<char>> {
    if a.xhost {
        (match host_triple(h.os@) {
            Some(t) => seq!["--target="@ + t],
            None => seq![],
        }) + if host_has_extension(h) {
            seq!["-Ctarget-feature="@ + joined(host_features(h), ","@)]
        } else {
            seq![]
        }
    } else {
        match a.arch {
            Some(n) => match arch_features(n@) {
                Some(f) => seq!["-Ctarget-feature="@ + f],
                None => seq![],
            },
            None => seq![],
        }
    }
}

pub open spec fn arch_warnings(a: Args, h: HostInfo) -> Seq<Seq<char>> {
    if a.xhost {
        if host_triple(h.os@) is None {
            seq!["unknown host platform '"@ + h.os@ + "', no target set"@]
        } else {
            seq![]
        }
    } else {
        match a.arch {
            Some(n) => if arch_features(n@) is None {
                seq!["unknown arch '"@ + n@ + "', using default"@]
            } else {
                seq![]
            },
            None => seq![],
        }
    }
}

pub open spec fn compile_flags(a: Args) -> Seq<Seq<char>> {
    if a.compile_only {
        seq!["--emit=obj"@]
    } else {
        seq![]
    }
}

/// The output named by the caller: `-o`, else `/Fe`, else `/Fo`.
pub open spec fn explicit_output(a: Args) -> Option<Seq<char>> {
    match a.output {
        Some(o) => Some(o@),
        None => match a.msvc_exe {
            Some(o) => Some(o@),
            None => match a.msvc_obj {
                Some(o) => Some(o@),
                None => None,
            },
        },
    }
}

/// Whether the output is to be derived from the single input file.
pub open spec fn derives_output(a: Args) -> bool {
    explicit_output(a) is None && a.compile_only && a.files@.len() == 1
}

pub open spec fn resolved_output(a: Args) -> Option<Seq<char>> {
    if explicit_output(a) is Some {
        explicit_output(a)
    } else if derives_output(a) {
        match file_stem(a.files@[0]@) {
            Some(st) => Some(st + ".o"@),
            None => None,
        }
    } else {
        None
    }
}

pub open spec fn define_flags(d: Seq<Seq<char>>) -> Seq<Seq<char>> {
    d.map_values(|x: Seq<char>| "--cfg="@ + x)
}

pub open spec fn undefine_warnings(u: Seq<Seq<char>>) -> Seq<Seq<char>> {
    u.map_values(|x: Seq<char>| "/U"@ + x + " not fully supported in Rust"@)
}

pub open spec fn warn_level_flags(l: Seq<char>) -> Seq<Seq<char>> {
    if l == "0"@ {
        seq!["-Awarnings"@]
    } else if l == "1"@ {
        seq!["-Wwarnings"@, "-Adead_code"@]
    } else if l == "3"@ || l == "all"@ {
        seq!["-Wwarnings"@]
    } else {
        seq![]
    }
}

pub open spec fn warning_flags(a: Args) -> Seq<Seq<char>> {
    (if a.wx {
        seq!["-Dwarnings"@]
    } else {
        seq![]
    }) + match a.warn_level {
        Some(l) => warn_level_flags(l@),
        None => seq![],
    }
}

/// What `shlex::quote` makes of a string: a form that a POSIX shell reads
/// back as that one word.
pub uninterp spec fn shell_quoted(s: Seq<char>) -> Seq<char>;

pub open spec fn link_flags(a: Args) -> Seq<Seq<char>> {
    if a.link_args@.len() > 0 {
        seq!["-Clink-args="@ + shell_quoted(joined(a.link_args.deep_view(), " "@))]
    } else {
        seq![]
    }
}

pub open spec fn optional_flag(prefix: Seq<char>, v: Option<String>) -> Seq<Seq<char>> {
    match v {
        Some(s) => seq![prefix + s@],
        None => seq![],
    }
}

pub open spec fn rust_flags(a: Args) -> Seq<Seq<char>> {
    optional_flag("--edition="@, a.edition) + optional_flag("--crate-type="@, a.crate_type)
        + optional_flag("--target="@, a.target) + seq!["-Ccodegen-units=1"@, "-Cpanic=abort"@]
}

/// The Rust source files among `s`, in order.
pub open spec fn source_files(s: Seq<Seq<char>>) -> Seq<Seq<char>>
    decreases s.len(),
{
    if s.len() == 0 {
        seq![]
    } else if is_source_file(s.last()) {
        source_files(s.drop_last()).push(s.last())
    } else {
        source_files(s.drop_last())
    }
}

/// The other files among `s`, in order: they are passed on as they are.
pub open spec fn other_files(s: Seq<Seq<char>>) -> Seq<Seq<char>>
    decreases s.len(),
{
    if s.len() == 0 {
        seq![]
    } else if is_source_file(s.last()) {
        other_files(s.drop_last())
    } else {
        other_files(s.drop_last()).push(s.last())
    }
}

/// Why translation fails, if it does.
pub open spec fn translate_error(a: Args, h: HostInfo) -> Option<TranslateError> {
    if derives_output(a) && file_stem(a.files@[0]@) is None {
        Some(TranslateError::InvalidInput)
    } else if source_files(a.files.deep_view()).len() == 0 && !a.version && !a.help {
        Some(TranslateError::NoInputFiles)
    } else {
        None
    }
}

/// The flags that translation writes itself, before the files and raw
/// arguments that are passed on.
pub open spec fn synthesized_args(a: Args, h: HostInfo) -> Seq<Seq<char>> {
    optimization_flags(a) + arch_flags(a, h) + compile_flags(a) + define_flags(
        a.defines.deep_view(),
    ) + warning_flags(a) + link_flags(a) + rust_flags(a)
}

/// The arguments of the translated command, in the order they are emitted.
pub open spec fn translated_args(a: Args, h: HostInfo) -> Seq<Seq<char>> {
    synthesized_args(a, h) + other_files(a.files.deep_view()) + a.raw_args.deep_view()
}

pub open spec fn translation_warnings(a: Args, h: HostInfo) -> Seq<Seq<char>> {
    arch_warnings(a, h) + undefine_warnings(a.undefines.deep_view())
}

/// `new` differs from `old` in its arguments at most.
pub open spec fn same_but_args(old: RustcCommand, new: RustcCommand) -> bool {
    &&& new.executable == old.executable
    &&& new.env_vars == old.env_vars
    &&& new.input_files == old.input_files
    &&& new.output == old.output
    &&& new.warnings == old.warnings
}

/// The words of the command line that `display` shows.
pub open spec fn command_words(c: RustcCommand) -> Seq<Seq<char>> {
    seq![c.executable@] + c.args.deep_view() + c.input_files.deep_view() + match c.output {
        Some(o) => seq!["-o"@, o@],
        None => seq![],
    }
}

impl RustcCommand {
    /// An empty `rustc` command.
    pub fn new() -> (r: Self)
        ensures
            r.executable@ == "rustc"@,
            r.args@.len() == 0,
            r.env_vars@.len() == 0,
            r.input_files@.len() == 0,
            r.output is None,
            r.warnings@.len() == 0,
    {
        RustcCommand {
            executable: String::from_str("rustc"),
            args: Vec::new(),
            env_vars: Vec::new(),
            input_files: Vec::new(),
            output: None,
            warnings: Vec::new(),
        }
    }

    /// The command line as one line of text, words separated by spaces.
    pub fn display(&self) -> (r: String)
        ensures
            r@ == joined(command_words(*self), " "@),
    {
        let mut parts: Vec<String> = Vec::new();
        push_word(&mut parts, self.executable.clone());
        push_words(&mut parts, &self.args);
        push_words(&mut parts, &self.input_files);
        let ghost before = parts.deep_view();
        match &self.output {
            Some(out) => {
                push_word(&mut parts, String::from_str("-o"));
                push_word(&mut parts, out.clone());
                assert(parts.deep_view() =~= before + seq!["-o"@, out@]);
            },
            None => {
                assert(parts.deep_view() =~= before + seq![]);
            },
        }
        assert(parts.deep_view() =~= command_words(*self));
        join_words(&parts, " ")
    }
}

/// Relies on `shlex::quote`, which quotes a string for a POSIX shell and
/// never fails (nul bytes are let through).
#[verifier::external_body]
fn quote_for_shell(s: &str) -> (r: String)
    ensures
        r@ == shell_quoted(s@),
{
    #[allow(deprecated)]
    let q = shlex::quote(s);
    q.into_owned()
}

/// Appends the optimization level flag, and link-time optimization at level 3.
pub fn translate_optimization(cmd: &mut RustcCommand, args: &Args)
    ensures
        final(cmd).args.deep_view() == old(cmd).args.deep_view() + optimization_flags(*args),
        same_but_args(*old(cmd), *final(cmd)),
{
    let level: u8 = match &args.opt_level {
        Some(l) => match l {
            OptLevel::O0 => 0,
            OptLevel::O1 => 1,
            OptLevel::O2 => 2,
            OptLevel::O3 => 3,
            OptLevel::Ox => 3,
        },
        None => match &args.msvc_opt {
            Some(s) => {
                let t = s.as_str();
                if text_eq(t, "0") || text_eq(t, "d") {
                    0
                } else if text_eq(t, "1") {
                    1
                } else if text_eq(t, "2") {
                    2
                } else if text_eq(t, "3") || text_eq(t, "x") {
                    3
                } else {
                    2
                }
            },
            None => if args.release { 3 } else { 2 },
        },
    };
    assert(level == resolved_opt_level(*args));
    let flag = if level == 0 {
        String::from_str("-Copt-level=0")
    } else if level == 1 {
        String::from_str("-Copt-level=1")
    } else if level == 2 {
        String::from_str("-Copt-level=2")
    } else {
        String::from_str("-Copt-level=3")
    };
    let ghost before = cmd.args.deep_view();
    push_word(&mut cmd.args, flag);
    if level == 3 {
        push_word(&mut cmd.args, String::from_str("-Clto=fat"));
    }
    assert(cmd.args.deep_view() =~= before + optimization_flags(*args));
}

/// The `rustc` target triple for an operating system, where one is known.
pub fn detect_host_target(os: &str) -> (r: Option<String>)
    ensures
        match r {
            Some(t) => host_triple(os@) == Some(t@),
            None => host_triple(os@) is None,
        },
{
    if text_eq(os, "windows") {
        Some(String::from_str("x86_64-pc-windows-msvc"))
    } else if text_eq(os, "linux") {
        Some(String::from_str("x86_64-unknown-linux-gnu"))
    } else {
        None
    }
}

/// The target features to enable for the host, widest extension first.
pub fn detect_host_features(host: &HostInfo) -> (r: Vec<String>)
    ensures
        r.deep_view() == host_features(*host),
{
    let mut features: Vec<String> = Vec::new();
    push_word(&mut features, String::from_str("+crt-static"));
    if host.avx512f {
        push_word(&mut features, String::from_str("+avx512f"));
        push_word(&mut features, String::from_str("+avx512vl"));
    } else if host.avx2 {
        push_word(&mut features, String::from_str("+avx2"));
    } else if host.sse42 {
        push_word(&mut features, String::from_str("+sse4.2"));
    }
    assert(features.deep_view() =~= host_features(*host));
    features
}

/// Appends the target and target-feature flags. Host detection wins over a
/// named architecture: it sets the host's target, where one is known, and the
/// host's features, where it has an extension. An unknown host or an unknown
/// name gives a warning and no flag.
pub fn translate_architecture(cmd: &mut RustcCommand, args: &Args, host: &HostInfo)
    ensures
        final(cmd).args.deep_view() == old(cmd).args.deep_view() + arch_flags(*args, *host),
        final(cmd).warnings.deep_view() == old(cmd).warnings.deep_view() + arch_warnings(
            *args,
            *host,
        ),
        final(cmd).executable == old(cmd).executable,
        final(cmd).env_vars == old(cmd).env_vars,
        final(cmd).input_files == old(cmd).input_files,
        final(cmd).output == old(cmd).output,
{
    let ghost before = cmd.args.deep_view();
    let ghost warned = cmd.warnings.deep_view();
    if args.xhost {
        match detect_host_target(host.os.as_str()) {
            Some(target) => {
                push_word(&mut cmd.args, String::from_str("--target=").concat(target.as_str()));
            },
            None => {
                let w = String::from_str("unknown host platform '").concat(host.os.as_str()).concat(
                    "', no target set",
                );
                push_word(&mut cmd.warnings, w);
            },
        }
        let ghost mid = cmd.args.deep_view();
        if host.avx512f || host.avx2 || host.sse42 {
            let features = detect_host_features(host);
            let list = join_words(&features, ",");
            push_word(&mut cmd.args, String::from_str("-Ctarget-feature=").concat(list.as_str()));
        }
        assert(cmd.args.deep_view() =~= before + arch_flags(*args, *host));
        assert(cmd.warnings.deep_view() =~= warned + arch_warnings(*args, *host));
        return ;
    }
    match &args.arch {
        Some(arch) => {
            let a = arch.as_str();
            let features = if text_eq(a, "AVX") {
                Some("+avx")
            } else if text_eq(a, "AVX2") {
                Some("+avx2")
            } else if text_eq(a, "AVX512") || text_eq(a, "CORE-AVX512") {
                Some("+avx512f,+avx512vl,+avx512bw")
            } else if text_eq(a, "SSE4.2") || text_eq(a, "CORE-AVX") {
                Some("+sse4.2")
            } else if text_eq(a, "SSE2") {
                Some("+sse2")
            } else {
                None
            };
            match features {
                Some(f) => {
                    assert(arch_features(arch@) == Some(f@));
                    push_word(&mut cmd.args, String::from_str("-Ctarget-feature=").concat(f));
                },
                None => {
                    assert(arch_features(arch@) is None);
                    let w = String::from_str("unknown arch '").concat(a).concat("', using default");
                    push_word(&mut cmd.warnings, w);
                },
            }
        },
        None => {},
    }
    assert(cmd.args.deep_view() =~= before + arch_flags(*args, *host));
    assert(cmd.warnings.deep_view() =~= warned + arch_warnings(*args, *host));
}

/// Resolves the output path: `-o`, else `/Fe`, else `/Fo`; failing those, in
/// compile-only mode with one input, that input's stem with `.o` appended.
/// Where none of these applies the output is left as it was.
pub fn translate_output(cmd: &mut RustcCommand, args: &Args) -> (r: Result<(), TranslateError>)
    ensures
        r is Err <==> (derives_output(*args) && file_stem(args.files@[0]@) is None),
        r is Err ==> r == Err::<(), TranslateError>(TranslateError::InvalidInput),
        r is Ok && resolved_output(*args) is Some ==> final(cmd).output.deep_view()
            == resolved_output(*args),
        r is Err || resolved_output(*args) is None ==> final(cmd).output == old(cmd).output,
        final(cmd).executable == old(cmd).executable,
        final(cmd).args == old(cmd).args,
        final(cmd).env_vars == old(cmd).env_vars,
        final(cmd).input_files == old(cmd).input_files,
        final(cmd).warnings == old(cmd).warnings,
{
    let output = match &args.output {
        Some(o) => Some(o.clone()),
        None => match &args.msvc_exe {
            Some(o) => Some(o.clone()),
            None => match &args.msvc_obj {
                Some(o) => Some(o.clone()),
                None => None,
            },
        },
    };
    assert(output.deep_view() == explicit_output(*args));
    match output {
        Some(out) => {
            cmd.output = Some(out);
        },
        None => {
            if args.compile_only && args.files.len() == 1 {
                let stem = match path_file_stem(args.files[0].as_str()) {
                    Some(st) => st,
                    None => {
                        return Err(TranslateError::InvalidInput);
                    },
                };
                cmd.output = Some(stem.concat(".o"));
            }
        },
    }
    Ok(())
}

/// Appends a `--cfg` flag for each define, and a warning for each undefine.
pub fn translate_defines(cmd: &mut RustcCommand, args: &Args)
    ensures
        final(cmd).args.deep_view() == old(cmd).args.deep_view() + define_flags(
            args.defines.deep_view(),
        ),
        final(cmd).warnings.deep_view() == old(cmd).warnings.deep_view() + undefine_warnings(
            args.undefines.deep_view(),
        ),
        final(cmd).executable == old(cmd).executable,
        final(cmd).env_vars == old(cmd).env_vars,
        final(cmd).input_files == old(cmd).input_files,
        final(cmd).output == old(cmd).output,
{
    let ghost before = cmd.args.deep_view();
    let ghost warned = cmd.warnings.deep_view();
    let mut i: usize = 0;
    while i < args.defines.len()
        invariant
            i <= args.defines@.len(),
            cmd.args.deep_view() == before + define_flags(args.defines.deep_view().subrange(0, i as int)),
            cmd.warnings.deep_view() == warned,
            cmd.executable == old(cmd).executable,
            cmd.env_vars == old(cmd).env_vars,
            cmd.input_files == old(cmd).input_files,
            cmd.output == old(cmd).output,
        decreases args.defines@.len() - i,
    {
        push_word(&mut cmd.args, String::from_str("--cfg=").concat(args.defines[i].as_str()));
        assert(define_flags(args.defines.deep_view().subrange(0, i + 1)) =~= define_flags(
            args.defines.deep_view().subrange(0, i as int),
        ).push("--cfg="@ + args.defines[i as int]@));
        i = i + 1;
    }
    assert(args.defines.deep_view().subrange(0, args.defines@.len() as int) =~= args.defines.deep_view());
    let mut j: usize = 0;
    while j < args.undefines.len()
        invariant
            j <= args.undefines@.len(),
            cmd.args.deep_view() == before + define_flags(args.defines.deep_view()),
            cmd.warnings.deep_view() == warned + undefine_warnings(
                args.undefines.deep_view().subrange(0, j as int),
            ),
            cmd.executable == old(cmd).executable,
            cmd.env_vars == old(cmd).env_vars,
            cmd.input_files == old(cmd).input_files,
            cmd.output == old(cmd).output,
        decreases args.undefines@.len() - j,
    {
        let w = String::from_str("/U").concat(args.undefines[j].as_str()).concat(
            " not fully supported in Rust",
        );
        push_word(&mut cmd.warnings, w);
        assert(undefine_warnings(args.undefines.deep_view().subrange(0, j + 1)) =~= undefine_warnings(
            args.undefines.deep_view().subrange(0, j as int),
        ).push("/U"@ + args.undefines[j as int]@ + " not fully supported in Rust"@));
        j = j + 1;
    }
    assert(args.undefines.deep_view().subrange(0, args.undefines@.len() as int)
        =~= args.undefines.deep_view());
}

/// Appends the flags for warnings-as-errors and for the warning level.
pub fn translate_warnings(cmd: &mut RustcCommand, args: &Args)
    ensures
        final(cmd).args.deep_view() == old(cmd).args.deep_view() + warning_flags(*args),
        same_but_args(*old(cmd), *final(cmd)),
{
    let ghost before = cmd.args.deep_view();
    if args.wx {
        push_word(&mut cmd.args, String::from_str("-Dwarnings"));
    }
    let ghost mid = cmd.args.deep_view();
    match &args.warn_level {
        Some(l) => {
            let t = l.as_str();
            if text_eq(t, "0") {
                push_word(&mut cmd.args, String::from_str("-Awarnings"));
            } else if text_eq(t, "1") {
                push_word(&mut cmd.args, String::from_str("-Wwarnings"));
                push_word(&mut cmd.args, String::from_str("-Adead_code"));
            } else if text_eq(t, "3") || text_eq(t, "all") {
                push_word(&mut cmd.args, String::from_str("-Wwarnings"));
            }
            assert(cmd.args.deep_view() =~= mid + warn_level_flags(l@));
        },
        None => {},
    }
    assert(cmd.args.deep_view() =~= before + warning_flags(*args));
}

/// Passes the linker arguments on as one shell-quoted `-Clink-args` flag.
pub fn translate_linking(cmd: &mut RustcCommand, args: &Args)
    ensures
        final(cmd).args.deep_view() == old(cmd).args.deep_view() + link_flags(*args),
        same_but_args(*old(cmd), *final(cmd)),
{
    let ghost before = cmd.args.deep_view();
    if args.link_args.len() > 0 {
        let joined_args = join_words(&args.link_args, " ");
        let quoted = quote_for_shell(joined_args.as_str());
        push_word(&mut cmd.args, String::from_str("-Clink-args=").concat(quoted.as_str()));
    }
    assert(cmd.args.deep_view() =~= before + link_flags(*args));
}

fn push_optional(v: &mut Vec<String>, prefix: &str, value: &Option<String>)
    ensures
        final(v).deep_view() == old(v).deep_view() + optional_flag(prefix@, *value),
{
    let ghost before = v.deep_view();
    match value {
        Some(x) => {
            push_word(v, String::from_str(prefix).concat(x.as_str()));
        },
        None => {},
    }
    assert(v.deep_view() =~= before + optional_flag(prefix@, *value));
}

/// Appends the edition, crate type and target, then the two fixed flags
/// for a single codegen unit and abort on panic.
pub fn translate_rust_specific(cmd: &mut RustcCommand, args: &Args)
    ensures
        final(cmd).args.deep_view() == old(cmd).args.deep_view() + rust_flags(*args),
        same_but_args(*old(cmd), *final(cmd)),
{
    let ghost before = cmd.args.deep_view();
    push_optional(&mut cmd.args, "--edition=", &args.edition);
    push_optional(&mut cmd.args, "--crate-type=", &args.crate_type);
    push_optional(&mut cmd.args, "--target=", &args.target);
    push_word(&mut cmd.args, String::from_str("-Ccodegen-units=1"));
    push_word(&mut cmd.args, String::from_str("-Cpanic=abort"));
    assert(cmd.args.deep_view() =~= before + rust_flags(*args));
}

/// Records the Rust source files as inputs and passes every other file on.
pub fn classify_inputs(cmd: &mut RustcCommand, files: &Vec<String>)
    ensures
        final(cmd).args.deep_view() == old(cmd).args.deep_view() + other_files(files.deep_view()),
        final(cmd).input_files.deep_view() == old(cmd).input_files.deep_view() + source_files(
            files.deep_view(),
        ),
        final(cmd).executable == old(cmd).executable,
        final(cmd).env_vars == old(cmd).env_vars,
        final(cmd).output == old(cmd).output,
        final(cmd).warnings == old(cmd).warnings,
{
    let ghost before = cmd.args.deep_view();
    let ghost inputs = cmd.input_files.deep_view();
    let mut i: usize = 0;
    while i < files.len()
        invariant
            i <= files@.len(),
            cmd.args.deep_view() == before + other_files(files.deep_view().subrange(0, i as int)),
            cmd.input_files.deep_view() == inputs + source_files(
                files.deep_view().subrange(0, i as int),
            ),
            cmd.executable == old(cmd).executable,
            cmd.env_vars == old(cmd).env_vars,
            cmd.output == old(cmd).output,
            cmd.warnings == old(cmd).warnings,
        decreases files@.len() - i,
    {
        let ghost w = files.deep_view();
        assert(w.subrange(0, i + 1).drop_last() =~= w.subrange(0, i as int));
        if is_rust_source(files[i].as_str()) {
            push_word(&mut cmd.input_files, files[i].clone());
            assert(cmd.input_files.deep_view() =~= inputs + source_files(w.subrange(0, i + 1)));
        } else {
            push_word(&mut cmd.args, files[i].clone());
            assert(cmd.args.deep_view() =~= before + other_files(w.subrange(0, i + 1)));
        }
        i = i + 1;
    }
    assert(files.deep_view().subrange(0, files@.len() as int) =~= files.deep_view());
}

/// Translates the flag model into a `rustc` command, or says why it cannot.
pub fn translate(args: &Args, host: &HostInfo) -> (r: Result<RustcCommand, TranslateError>)
    ensures
        match r {
            Ok(cmd) => {
                &&& translate_error(*args, *host) is None
                &&& cmd.executable@ == "rustc"@
                &&& cmd.args.deep_view() == translated_args(*args, *host)
                &&& cmd.env_vars@.len() == 0
                &&& cmd.input_files.deep_view() == source_files(args.files.deep_view())
                &&& cmd.output.deep_view() == resolved_output(*args)
                &&& cmd.warnings.deep_view() == translation_warnings(*args, *host)
            },
            Err(e) => translate_error(*args, *host) == Some(e),
        },
{
    let mut cmd = RustcCommand::new();
    assert(cmd.args.deep_view() =~= seq![]);
    assert(cmd.warnings.deep_view() =~= seq![]);
    assert(cmd.input_files.deep_view() =~= seq![]);
    translate_optimization(&mut cmd, args);
    translate_architecture(&mut cmd, args, host);
    if args.compile_only {
        push_word(&mut cmd.args, String::from_str("--emit=obj"));
    }
    translate_output(&mut cmd, args)?;
    translate_defines(&mut cmd, args);
    translate_warnings(&mut cmd, args);
    translate_linking(&mut cmd, args);
    translate_rust_specific(&mut cmd, args);
    classify_inputs(&mut cmd, &args.files);
    if cmd.input_files.len() == 0 && !args.version && !args.help {
        return Err(TranslateError::NoInputFiles);
    }
    push_words(&mut cmd.args, &args.raw_args);
    assert(cmd.args.deep_view() =~= translated_args(*args, *host));
    assert(cmd.warnings.deep_view() =~= translation_warnings(*args, *host));
    Ok(cmd)
}

/// The warnings that translating `args` on `host` gives, whether or not the
/// translation itself succeeds.
pub fn translation_notices(args: &Args, host: &HostInfo) -> (r: Vec<String>)
    ensures
        r.deep_view() == translation_warnings(*args, *host),
{
    let mut cmd = RustcCommand::new();
    assert(cmd.warnings.deep_view() =~= seq![]);
    translate_architecture(&mut cmd, args, host);
    translate_defines(&mut cmd, args);
    assert(cmd.warnings.deep_view() =~= translation_warnings(*args, *host));
    cmd.warnings
}

// ---------------------------------------------------------------------------
// Laws.

/// With no optimization flag and no release shorthand, the level is 2, and
/// the translated arguments open with the level-2 flag and no link-time
/// optimization.
pub proof fn law_default_opt_level(a: Args, h: HostInfo)
    requires
        a.opt_level is None,
        a.msvc_opt is None,
        !a.release,
    ensures
        resolved_opt_level(a) == 2,
        optimization_flags(a) == seq!["-Copt-level=2"@],
        translated_args(a, h)[0] == "-Copt-level=2"@,
{
    assert(translated_args(a, h)[0] == optimization_flags(a)[0]);
}

/// Where the enumerated level and the legacy string are both given, the
/// enumerated level decides, whatever the string says.
pub proof fn law_enum_level_wins(a: Args, h: HostInfo)
    requires
        a.opt_level is Some,
        a.msvc_opt is Some,
    ensures
        resolved_opt_level(a) == enum_level(a.opt_level->0),
        optimization_flags(a) == optimization_flags(Args { msvc_opt: None, ..a }),
{
}

/// A flag that sets target features.
pub open spec fn is_feature_flag(x: Seq<char>) -> bool {
    "-Ctarget-feature="@.is_prefix_of(x)
}

/// A word whose second or third character differs from those of
/// `-Ctarget-feature=` is no feature flag.
proof fn lemma_not_feature_flag(x: Seq<char>)
    requires
        x.len() >= 3,
        x[1] != 'C' || x[2] != 't',
    ensures
        !is_feature_flag(x),
{
    reveal_strlit("-Ctarget-feature=");
    if is_feature_flag(x) {
        assert(x.subrange(0, 17)[1] == x[1]);
        assert(x.subrange(0, 17)[2] == x[2]);
    }
}

proof fn lemma_prefixed_not_feature_flag(p: Seq<char>, x: Seq<char>)
    requires
        p.len() >= 3,
        p[1] != 'C' || p[2] != 't',
    ensures
        !is_feature_flag(p + x),
{
    assert((p + x)[1] == p[1] && (p + x)[2] == p[2]);
    lemma_not_feature_flag(p + x);
}

/// An architecture name outside the table gives one warning and no target
/// feature flag, and does not change whether translation succeeds. Every
/// feature flag left among the translated arguments is one that the caller
/// passed on as a file or a raw argument.
pub proof fn law_unknown_arch_only_warns(a: Args, h: HostInfo)
    requires
        !a.xhost,
        a.arch is Some,
        arch_features(a.arch->0@) is None,
    ensures
        arch_flags(a, h) == Seq::<Seq<char>>::empty(),
        arch_warnings(a, h) == seq!["unknown arch '"@ + a.arch->0@ + "', using default"@],
        translate_error(a, h) == translate_error(Args { arch: None, ..a }, h),
        translated_args(a, h) == translated_args(Args { arch: None, ..a }, h),
        forall|k: int|
            0 <= k < translated_args(a, h).len() && is_feature_flag(#[trigger] translated_args(a, h)[k])
                ==> other_files(a.files.deep_view()).contains(translated_args(a, h)[k])
                || a.raw_args.deep_view().contains(translated_args(a, h)[k]),
{
    assert(arch_flags(Args { arch: None, ..a }, h) =~= Seq::<Seq<char>>::empty());
    reveal_strlit("-Copt-level=0");
    reveal_strlit("-Copt-level=1");
    reveal_strlit("-Copt-level=2");
    reveal_strlit("-Copt-level=3");
    reveal_strlit("-Clto=fat");
    reveal_strlit("--emit=obj");
    reveal_strlit("--cfg=");
    reveal_strlit("-Dwarnings");
    reveal_strlit("-Awarnings");
    reveal_strlit("-Wwarnings");
    reveal_strlit("-Adead_code");
    reveal_strlit("-Clink-args=");
    reveal_strlit("--edition=");
    reveal_strlit("--crate-type=");
    reveal_strlit("--target=");
    reveal_strlit("-Ccodegen-units=1");
    reveal_strlit("-Cpanic=abort");
    let opt = optimization_flags(a);
    assert forall|x: Seq<char>| opt.contains(x) implies !is_feature_flag(x) by {
        lemma_not_feature_flag(x);
    }
    let comp = compile_flags(a);
    assert forall|x: Seq<char>| comp.contains(x) implies !is_feature_flag(x) by {
        lemma_not_feature_flag(x);
    }
    let defs = define_flags(a.defines.deep_view());
    assert forall|x: Seq<char>| defs.contains(x) implies !is_feature_flag(x) by {
        let j = choose|j: int| 0 <= j < defs.len() && defs[j] == x;
        lemma_prefixed_not_feature_flag("--cfg="@, a.defines.deep_view()[j]);
    }
    let warns = warning_flags(a);
    assert forall|x: Seq<char>| warns.contains(x) implies !is_feature_flag(x) by {
        let j = choose|j: int| 0 <= j < warns.len() && warns[j] == x;
        if a.wx && j == 0 {
        } else {
            let l = a.warn_level->0@;
            assert(warn_level_flags(l).contains(x));
        }
        lemma_not_feature_flag(x);
    }
    let links = link_flags(a);
    assert forall|x: Seq<char>| links.contains(x) implies !is_feature_flag(x) by {
        lemma_prefixed_not_feature_flag(
            "-Clink-args="@,
            shell_quoted(joined(a.link_args.deep_view(), " "@)),
        );
    }
    let rust = rust_flags(a);
    assert forall|x: Seq<char>| rust.contains(x) implies !is_feature_flag(x) by {
        let j = choose|j: int| 0 <= j < rust.len() && rust[j] == x;
        let e = optional_flag("--edition="@, a.edition);
        let c = optional_flag("--crate-type="@, a.crate_type);
        let t = optional_flag("--target="@, a.target);
        assert(rust == e + c + t + seq!["-Ccodegen-units=1"@, "-Cpanic=abort"@]);
        if j < e.len() {
            lemma_prefixed_not_feature_flag("--edition="@, a.edition->0@);
        } else if j < e.len() + c.len() {
            lemma_prefixed_not_feature_flag("--crate-type="@, a.crate_type->0@);
        } else if j < e.len() + c.len() + t.len() {
            lemma_prefixed_not_feature_flag("--target="@, a.target->0@);
        } else {
            lemma_not_feature_flag(x);
        }
    }
    let syn = synthesized_args(a, h);
    assert(syn =~= opt + comp + defs + warns + links + rust);
    assert forall|x: Seq<char>| syn.contains(x) implies !is_feature_flag(x) by {
        let j = choose|j: int| 0 <= j < syn.len() && syn[j] == x;
        let n1 = opt.len() as int;
        let n2 = n1 + comp.len();
        let n3 = n2 + defs.len();
        let n4 = n3 + warns.len();
        let n5 = n4 + links.len();
        if j < n1 {
            assert(opt[j] == x);
        } else if j < n2 {
            assert(comp[j - n1] == x);
        } else if j < n3 {
            assert(defs[j - n2] == x);
        } else if j < n4 {
            assert(warns[j - n3] == x);
        } else if j < n5 {
            assert(links[j - n4] == x);
        } else {
            assert(rust[j - n5] == x);
        }
    }
    let others = other_files(a.files.deep_view());
    let raw = a.raw_args.deep_view();
    let all = translated_args(a, h);
    assert(all =~= syn + others + raw);
    assert forall|k: int|
        0 <= k < all.len() && is_feature_flag(#[trigger] all[k]) implies others.contains(all[k])
        || raw.contains(all[k]) by {
        if k < syn.len() {
            assert(syn.contains(all[k]));
        } else if k < syn.len() + others.len() {
            assert(others[k - syn.len()] == all[k]);
        } else {
            assert(raw[k - syn.len() - others.len()] == all[k]);
        }
    }
}

/// With no Rust source among the files and neither a version nor a help
/// request, translation fails; the failure is `NoInputFiles` unless naming
/// the object file from the one input failed first.
pub proof fn law_no_inputs_fails(a: Args, h: HostInfo)
    requires
        source_files(a.files.deep_view()).len() == 0,
        !a.version,
        !a.help,
    ensures
        translate_error(a, h) is Some,
        !(derives_output(a) && file_stem(a.files@[0]@) is None) ==> translate_error(a, h) == Some(
            TranslateError::NoInputFiles,
        ),
{
}

/// Translation fails in two cases only: the object file cannot be named from
/// the one input, or no Rust source was given without a version or help
/// request. Unknown values never make it fail.
pub proof fn law_only_two_failures(a: Args, h: HostInfo)
    ensures
        translate_error(a, h) is Some <==> ((derives_output(a) && file_stem(a.files@[0]@) is None)
            || (source_files(a.files.deep_view()).len() == 0 && !a.version && !a.help)),
        translate_error(a, h) == Some(TranslateError::InvalidInput) <==> (derives_output(a)
            && file_stem(a.files@[0]@) is None),
{
}

} // verus!
