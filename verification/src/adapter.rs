use vstd::prelude::*;
use crate::classify::{CompilerArguments, ParsedArguments, parse_arguments, spec_parse_arguments};
use crate::strutil::string_is;

verus! {

/// Which compiler family an adapter drives.
pub enum CCompilerKind {
    GCC,
}

/// Whether a finished compile may be stored in the cache.
pub enum Cacheable {
    Yes,
    No,
}

/// The GCC-family adapter.
pub struct GCC;

/// The family's tag for source that was already preprocessed, per language:
/// plain C becomes `cpp-output`, the C++ extensions become `c++-cpp-output`,
/// and anything else is not a language this adapter can compile from stdin.
pub open spec fn spec_preprocessed_language(ext: Seq<char>) -> Option<Seq<char>> {
    if ext == "c"@ {
        Some("cpp-output"@)
    } else if ext == "c++"@ || ext == "cc"@ || ext == "cpp"@ || ext == "cxx"@ {
        Some("c++-cpp-output"@)
    } else {
        None
    }
}

/// The command line that runs the preprocessor: `-E`, the preprocessor
/// flags, the common flags, then the input file.
pub fn preprocess_cmdline(parsed: &ParsedArguments) -> (r: Vec<String>)
    ensures
        r.deep_view() == seq!["-E"@] + parsed.preprocessor_args.deep_view()
            + parsed.common_args.deep_view() + seq![parsed.input@],
{
    let mut r: Vec<String> = Vec::new();
    r.push("-E".to_owned());
    proof {
        assert(r.deep_view() =~= seq!["-E"@]);
    }
    let mut r = append_all(r, &parsed.preprocessor_args);
    let mut r = append_all(r, &parsed.common_args);
    r.push(parsed.input.clone());
    proof {
        assert(r.deep_view() =~= seq!["-E"@] + parsed.preprocessor_args.deep_view()
            + parsed.common_args.deep_view() + seq![parsed.input@]);
    }
    r
}

/// The command line that compiles the preprocessed bytes read from stdin:
/// `-c -x <language> - -o <obj>` and the common flags. Fails when the
/// language tag has no preprocessed form.
pub fn compile_cmdline(parsed: &ParsedArguments) -> (r: Result<Vec<String>, &'static str>)
    ensures
        match r {
            Ok(v) => spec_preprocessed_language(parsed.extension@) matches Some(lang)
                && v.deep_view() == seq!["-c"@, "-x"@, lang, "-"@, "-o"@, parsed.outputs.obj@]
                + parsed.common_args.deep_view(),
            Err(e) => spec_preprocessed_language(parsed.extension@) is None && e@
                == "Unexpected file extension"@,
        },
{
    let lang: &str = if string_is(&parsed.extension, "c") {
        "cpp-output"
    } else if string_is(&parsed.extension, "c++") || string_is(&parsed.extension, "cc")
        || string_is(&parsed.extension, "cpp") || string_is(&parsed.extension, "cxx") {
        "c++-cpp-output"
    } else {
        return Err("Unexpected file extension");
    };
    let mut r: Vec<String> = Vec::new();
    r.push("-c".to_owned());
    r.push("-x".to_owned());
    r.push(lang.to_owned());
    r.push("-".to_owned());
    r.push("-o".to_owned());
    r.push(parsed.outputs.obj.clone());
    proof {
        assert(r.deep_view() =~= seq![
            "-c"@,
            "-x"@,
            lang@,
            "-"@,
            "-o"@,
            parsed.outputs.obj@,
        ]);
    }
    let r = append_all(r, &parsed.common_args);
    proof {
        assert(r.deep_view() =~= seq!["-c"@, "-x"@, lang@, "-"@, "-o"@, parsed.outputs.obj@]
            + parsed.common_args.deep_view());
    }
    Ok(r)
}

/// The vector extended with every element of `src`, in order.
pub fn append_all(dst: Vec<String>, src: &Vec<String>) -> (r: Vec<String>)
    ensures
        r.deep_view() == dst.deep_view() + src.deep_view(),
{
    let ghost orig = dst.deep_view();
    let mut out = dst;
    proof {
        assert(orig + src.deep_view().take(0) =~= orig);
    }
    let mut i: usize = 0;
    while i < src.len()
        invariant
            i <= src.len(),
            out.deep_view() == orig + src.deep_view().take(i as int),
        decreases src.len() - i,
    {
        let ghost prev_dv = out.deep_view();
        out.push(src[i].clone());
        proof {
            assert(out.deep_view() =~= prev_dv.push(src.deep_view()[i as int]));
            assert(prev_dv.push(src.deep_view()[i as int]) =~= orig + src.deep_view().take(
                i + 1,
            ));
        }
        i = i + 1;
    }
    proof {
        assert(orig + src.deep_view().take(src@.len() as int) =~= orig + src.deep_view());
    }
    out
}

impl GCC {
    /// The family tag the fingerprint records.
    pub fn kind(&self) -> (r: CCompilerKind)
        ensures
            r is GCC,
    {
        CCompilerKind::GCC
    }

    /// Classify a command line with the GCC-family token policy.
    pub fn parse_arguments(&self, arguments: &Vec<String>) -> (r: CompilerArguments)
        ensures
            r@ == spec_parse_arguments(arguments.deep_view()),
    {
        parse_arguments(arguments)
    }
}

} // verus!
