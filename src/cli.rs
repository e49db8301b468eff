//! The flag model: what the caller asked for, in the foreign command-line style.

use vstd::prelude::*;

verus! {

/// An optimization level given in its enumerated form (`--O <level>`).
#[derive(Debug, Clone, Copy, PartialEq, Eq, Structural)]
pub enum OptLevel {
    O0,
    O1,
    O2,
    O3,
    Ox,
}

/// A warning level given in its enumerated form.
#[derive(Debug, Clone, Copy, PartialEq, Eq, Structural)]
pub enum WarnLevel {
    W0,
    W1,
    W2,
    W3,
    Wall,
    WX,
}

/// The parsed flag model. Paths are held as the text the caller wrote.
pub struct Args {
    pub files: Vec<String>,
    pub opt_level: Option<OptLevel>,
    pub msvc_opt: Option<String>,
    pub compile_only: bool,
    pub output: Option<String>,
    pub msvc_obj: Option<String>,
    pub msvc_exe: Option<String>,
    pub arch: Option<String>,
    pub xhost: bool,
    pub defines: Vec<String>,
    pub undefines: Vec<String>,
    pub includes: Vec<String>,
    pub warn_level: Option<String>,
    pub wx: bool,
    pub link_args: Vec<String>,
    pub verbose: bool,
    pub dry_run: bool,
    pub version: bool,
    pub help: bool,
    pub edition: Option<String>,
    pub crate_type: Option<String>,
    pub target: Option<String>,
    pub release: bool,
    pub optimize_diagnostics: bool,
    pub raw_args: Vec<String>,
}

impl Args {
    /// Nothing requested: no files, no flags, diagnostics post-processing on.
    pub open spec fn is_blank(&self) -> bool {
        &&& self.files@.len() == 0
        &&& self.opt_level is None
        &&& self.msvc_opt is None
        &&& !self.compile_only
        &&& self.output is None
        &&& self.msvc_obj is None
        &&& self.msvc_exe is None
        &&& self.arch is None
        &&& !self.xhost
        &&& self.defines@.len() == 0
        &&& self.undefines@.len() == 0
        &&& self.includes@.len() == 0
        &&& self.warn_level is None
        &&& !self.wx
        &&& self.link_args@.len() == 0
        &&& !self.verbose
        &&& !self.dry_run
        &&& !self.version
        &&& !self.help
        &&& self.edition is None
        &&& self.crate_type is None
        &&& self.target is None
        &&& !self.release
        &&& self.optimize_diagnostics
        &&& self.raw_args@.len() == 0
    }
}

impl Default for Args {
    fn default() -> (r: Self)
        ensures
            r.is_blank(),
    {
        Args {
            files: Vec::new(),
            opt_level: None,
            msvc_opt: None,
            compile_only: false,
            output: None,
            msvc_obj: None,
            msvc_exe: None,
            arch: None,
            xhost: false,
            defines: Vec::new(),
            undefines: Vec::new(),
            includes: Vec::new(),
            warn_level: None,
            wx: false,
            link_args: Vec::new(),
            verbose: false,
            dry_run: false,
            version: false,
            help: false,
            edition: None,
            crate_type: None,
            target: None,
            release: false,
            optimize_diagnostics: true,
            raw_args: Vec::new(),
        }
    }
}

/// The effect of the slash rewrite on the text after a leading `/`:
/// with a `:` in it, `--` and every `:` turned into `=`; else `-` and the text.
pub open spec fn slash_rewritten(rest: Seq<char>) -> Seq<char> {
    if rest.contains(':') {
        seq!['-', '-'] + rest.map_values(|c: char| if c == ':' { '=' } else { c })
    } else {
        seq!['-'] + rest
    }
}

/// A raw argument after normalization: one that starts with a single `/`
/// is rewritten into dash syntax; every other argument is left as it is.
pub open spec fn normalized(a: Seq<char>) -> Seq<char> {
    if a.len() >= 1 && a[0] == '/' && !(a.len() >= 2 && a[1] == '/') {
        slash_rewritten(a.drop_first())
    } else {
        a
    }
}

/// Rewrites one raw argument from slash syntax into dash syntax
/// (`/opt:val` becomes `--opt=val`, `/opt` becomes `-opt`).
pub fn normalize_arg(arg: &str) -> (r: String)
    ensures
        r@ == normalized(arg@),
{
    let n = arg.unicode_len();
    if n == 0 || arg.get_char(0) != '/' || (n >= 2 && arg.get_char(1) == '/') {
        return String::from_str(arg);
    }
    let rest = arg.substring_char(1, n);
    if !crate::text::contains_char(rest, ':') {
        let r = String::from_str("-").concat(rest);
        proof {
            reveal_strlit("-");
            assert(r@ =~= normalized(arg@));
        }
        return r;
    }
    let m = n - 1;
    let mut out = String::from_str("--");
    proof {
        reveal_strlit("--");
    }
    let mut start: usize = 0;
    let mut i: usize = 0;
    let ghost mapped = rest@.map_values(|c: char| if c == ':' { '=' } else { c });
    while i < m
        invariant
            m == rest@.len(),
            start <= i <= m,
            mapped == rest@.map_values(|c: char| if c == ':' { '=' } else { c }),
            out@ == seq!['-', '-'] + mapped.subrange(0, start as int),
            forall|j: int| start <= j < i ==> rest@[j] != ':',
        decreases m - i,
    {
        if rest.get_char(i) == ':' {
            let piece = rest.substring_char(start, i);
            out.append(piece);
            out.append("=");
            proof {
                reveal_strlit("=");
                assert(mapped.subrange(0, i + 1) =~= mapped.subrange(0, start as int)
                    + piece@ + seq!['=']);
            }
            start = i + 1;
        }
        i = i + 1;
    }
    let piece = rest.substring_char(start, m);
    out.append(piece);
    proof {
        assert(mapped.subrange(0, m as int) =~= mapped.subrange(0, start as int) + piece@);
        assert(mapped.subrange(0, m as int) =~= mapped);
        assert(out@ =~= normalized(arg@));
    }
    out
}

} // verus!
