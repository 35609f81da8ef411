//! Compiling a single C or C++ file: what the compiler is asked to do. The
//! compiler is looked up and run by the application.

use vstd::prelude::*;
use crate::protocol::{path_extension, path_extension_spec};
use crate::config_file::{path_file_stem, path_file_stem_spec};
use crate::text::{chars_of, has_prefix, lowercase, owned, push_str, starts_with_str, string_from, to_lowercase};

verus! {

/// The language of a source file.
#[derive(Debug, Clone, Copy, PartialEq, Eq, Structural)]
pub enum Language {
    C,
    Cpp,
}

/// Why a source file cannot be compiled.
#[derive(Debug)]
pub enum CompileError {
    /// The extension (lowercased) is neither `c` nor `cpp`.
    UnsupportedType(String),
}

impl CompileError {
    /// The message of the error.
    pub fn message(&self) -> (r: String)
        ensures
            match self {
                CompileError::UnsupportedType(e) => r@ == "unsupported file type '."@ + e@
                    + "'; only .c and .cpp files are supported"@,
            },
    {
        match self {
            CompileError::UnsupportedType(e) => {
                let mut v = chars_of("unsupported file type '.");
                push_str(&mut v, e.as_str());
                push_str(&mut v, "'; only .c and .cpp files are supported");
                string_from(v.as_slice())
            },
        }
    }
}

/// What a compilation runs: the language, the output file, the compilers
/// to try in order, and the arguments after the compiler.
#[derive(Debug)]
pub struct CompilePlan {
    pub language: Language,
    pub output: String,
    pub candidates: Vec<String>,
    pub args: Vec<String>,
}

/// The path with its last component replaced (`Path::with_file_name`).
pub uninterp spec fn with_file_name_spec(p: Seq<char>, name: Seq<char>) -> Seq<char>;

/// `Path::new(p).with_file_name(name)`, as text. The path rules are std's
/// and are only named.
#[verifier::external_body]
fn with_file_name(p: &str, name: &str) -> (r: String)
    ensures
        r@ == with_file_name_spec(p@, name@),
{
    std::path::Path::new(p).with_file_name(name).to_string_lossy().into_owned()
}

/// The lowercase extension of a path (empty without one).
pub open spec fn lower_ext(p: Seq<char>) -> Seq<char> {
    match path_extension_spec(p) {
        Some(e) => lowercase(e),
        None => Seq::empty(),
    }
}

/// The default output: the source's stem beside it, with `.exe` on
/// Windows.
pub open spec fn default_output(source: Seq<char>, windows: bool) -> Seq<char> {
    let stem = match path_file_stem_spec(source) {
        Some(s) => s,
        None => Seq::empty(),
    };
    with_file_name_spec(source, if windows { stem + ".exe"@ } else { stem })
}

/// Whether some option starts with `-O`.
pub open spec fn has_opt_level(options: Seq<Seq<char>>) -> bool {
    exists|i: int| 0 <= i < options.len() && has_prefix(#[trigger] options[i], "-O"@)
}

/// The arguments: the source, the options, `-o` and the output, and `-O2`
/// where no option sets a level.
pub open spec fn compile_args(source: Seq<char>, options: Seq<Seq<char>>, output: Seq<char>) -> Seq<Seq<char>> {
    seq![source] + options + seq!["-o"@, output] + if has_opt_level(options) {
        Seq::empty()
    } else {
        seq!["-O2"@]
    }
}

/// The plan for a source file, or why it is refused.
pub open spec fn compile_plan_spec(source: Seq<char>, output: Option<Seq<char>>, options: Seq<Seq<char>>, windows: bool) -> Result<(Language, Seq<char>, Seq<Seq<char>>, Seq<Seq<char>>), Seq<char>> {
    let ext = lower_ext(source);
    if ext != "c"@ && ext != "cpp"@ {
        Err(ext)
    } else {
        let out = match output {
            Some(o) => o,
            None => default_output(source, windows),
        };
        let lang = if ext == "cpp"@ {
            Language::Cpp
        } else {
            Language::C
        };
        let candidates = if ext == "cpp"@ {
            seq!["g++"@, "clang++"@, "c++"@]
        } else {
            seq!["gcc"@, "clang"@, "cc"@]
        };
        Ok((lang, out, candidates, compile_args(source, options, out)))
    }
}

/// Plans the compilation of `source` (to `output`, or beside it), with the
/// extra compiler options; `windows` says whether executables take `.exe`.
pub fn compile_plan(source: &str, output: Option<&str>, options: &Vec<String>, windows: bool) -> (r: Result<CompilePlan, CompileError>)
    ensures
        match compile_plan_spec(
            source@,
            match output {
                Some(o) => Some(o@),
                None => None,
            },
            crate::config::string_views(options@),
            windows,
        ) {
            Ok((lang, out, cands, args)) => r matches Ok(p) && p.language == lang && p.output@ == out
                && crate::config::string_views(p.candidates@) == cands && crate::config::string_views(p.args@)
                == args,
            Err(e) => r matches Err(CompileError::UnsupportedType(x)) && x@ == e,
        },
{
    let ext: Vec<char> = match path_extension(source) {
        Some(e) => {
            let ev = chars_of(e.as_str());
            to_lowercase(ev.as_slice())
        },
        None => Vec::new(),
    };
    assert(ext@ == lower_ext(source@));
    let is_c = crate::text::eq_str(ext.as_slice(), "c");
    let is_cpp = crate::text::eq_str(ext.as_slice(), "cpp");
    if !is_c && !is_cpp {
        return Err(CompileError::UnsupportedType(string_from(ext.as_slice())));
    }
    let out = match output {
        Some(o) => owned(o),
        None => {
            let stem = match path_file_stem(source) {
                Some(s) => s,
                None => String::new(),
            };
            let mut name = chars_of(stem.as_str());
            if windows {
                push_str(&mut name, ".exe");
            }
            let n = string_from(name.as_slice());
            with_file_name(source, n.as_str())
        },
    };
    let mut candidates: Vec<String> = Vec::new();
    if is_cpp {
        candidates.push(owned("g++"));
        candidates.push(owned("clang++"));
        candidates.push(owned("c++"));
    } else {
        candidates.push(owned("gcc"));
        candidates.push(owned("clang"));
        candidates.push(owned("cc"));
    }
    let mut args: Vec<String> = Vec::new();
    args.push(owned(source));
    let mut has_opt = false;
    let mut i: usize = 0;
    while i < options.len()
        invariant
            0 <= i <= options@.len(),
            crate::config::string_views(args@) == seq![source@] + crate::config::string_views(options@).take(i as int),
            has_opt == exists|k: int| 0 <= k < i && has_prefix(#[trigger] crate::config::string_views(options@)[k], "-O"@),
        decreases options@.len() - i,
    {
        let ov = chars_of(options[i].as_str());
        assert(crate::config::string_views(options@)[i as int] == options@[i as int]@);
        if starts_with_str(ov.as_slice(), "-O") {
            has_opt = true;
        }
        let ghost before = crate::config::string_views(args@);
        args.push(owned(options[i].as_str()));
        assert(crate::config::string_views(args@) =~= before.push(options@[i as int]@));
        assert(crate::config::string_views(options@).take(i + 1) =~= crate::config::string_views(options@).take(
            i as int,
        ).push(options@[i as int]@));
        i = i + 1;
    }
    assert(crate::config::string_views(options@).take(options@.len() as int) =~= crate::config::string_views(
        options@,
    ));
    args.push(owned("-o"));
    args.push(owned(out.as_str()));
    if !has_opt {
        args.push(owned("-O2"));
    }
    let ghost ov = match output {
        Some(o) => Some(o@),
        None => None::<Seq<char>>,
    };
    proof {
        if output is None {
            let stem = match path_file_stem_spec(source@) {
                Some(s) => s,
                None => Seq::<char>::empty(),
            };
            assert(out@ == default_output(source@, windows));
        }
    }
    let lang = if is_cpp {
        Language::Cpp
    } else {
        Language::C
    };
    let plan = CompilePlan { language: lang, output: out, candidates, args };
    assert(crate::config::string_views(plan.candidates@) =~= (if is_cpp {
        seq!["g++"@, "clang++"@, "c++"@]
    } else {
        seq!["gcc"@, "clang"@, "cc"@]
    }));
    assert(crate::config::string_views(plan.args@) =~= compile_args(
        source@,
        crate::config::string_views(options@),
        plan.output@,
    ));
    Ok(plan)
}

} // verus!
