use vstd::prelude::*;
use crate::strutil::{chars_of, string_from_chars, string_is, starts_with_char, starts_with_and_longer};

verus! {

/// How one compiler invocation was classified.
#[derive(Debug, PartialEq)]
pub enum CompilerArguments {
    /// A cacheable compilation, with what was parsed from the command line.
    Parsed(ParsedArguments),
    /// The command line is not a compilation at all.
    NotCompilation,
    /// A compilation the cache must not serve, and the reason.
    CannotCache(&'static str),
}

/// The output paths a compilation writes, by kind tag: the object file is
/// always present; split debug info adds a companion `dwo` file.
#[derive(Debug, PartialEq)]
pub struct Outputs {
    pub obj: String,
    pub dwo: Option<String>,
}

impl Outputs {
    /// The path registered under a kind tag, if any.
    pub fn get(&self, name: &str) -> (r: Option<&String>)
        ensures
            name@ == "obj"@ ==> r == Some(&self.obj),
            name@ == "dwo"@ ==> (match (r, self.dwo) {
                (Option::Some(p), Option::Some(d)) => p@ == d@,
                (Option::None, Option::None) => true,
                _ => false,
            }),
            name@ != "obj"@ && name@ != "dwo"@ ==> r is None,
    {
        proof {
            vstd::prelude::reveal_strlit("obj");
            vstd::prelude::reveal_strlit("dwo");
            assert("obj"@.len() == 3 && "dwo"@.len() == 3);
            assert("obj"@[0] == 'o' && "dwo"@[0] == 'd');
            assert("obj"@ != "dwo"@);
        }
        if string_is(&name.to_owned(), "obj") {
            Some(&self.obj)
        } else if string_is(&name.to_owned(), "dwo") {
            match &self.dwo {
                Option::Some(d) => Some(d),
                Option::None => None,
            }
        } else {
            None
        }
    }

    /// How many outputs are registered.
    pub fn len(&self) -> (r: usize)
        ensures
            r == if self.dwo is Some {
                2int
            } else {
                1int
            },
    {
        if self.dwo.is_some() {
            2
        } else {
            1
        }
    }
}

/// What the classifier parsed out of a cacheable invocation.
#[derive(Debug, PartialEq)]
pub struct ParsedArguments {
    /// The single input source file.
    pub input: String,
    /// The source language tag: the input's extension, or the `-x` value.
    pub extension: String,
    /// A dependency file, unused by the GCC-family classifier.
    pub depfile: Option<String>,
    /// The declared outputs.
    pub outputs: Outputs,
    /// Flags that matter only when preprocessing.
    pub preprocessor_args: Vec<String>,
    /// Flags that matter to preprocessing and codegen both.
    pub common_args: Vec<String>,
    /// Whether the compiler emits header traces on stderr; never for GCC.
    pub msvc_show_includes: bool,
}

/// The mathematical image of `ParsedArguments`.
#[verifier::ext_equal]
pub struct ParsedV {
    pub input: Seq<char>,
    pub extension: Seq<char>,
    pub obj: Seq<char>,
    pub dwo: Option<Seq<char>>,
    pub preprocessor_args: Seq<Seq<char>>,
    pub common_args: Seq<Seq<char>>,
}

/// The mathematical image of `CompilerArguments`.
#[verifier::ext_equal]
pub enum ClassifiedV {
    Parsed(ParsedV),
    NotCompilation,
    CannotCache(Seq<char>),
}

impl View for ParsedArguments {
    type V = ParsedV;

    open spec fn view(&self) -> ParsedV {
        ParsedV {
            input: self.input@,
            extension: self.extension@,
            obj: self.outputs.obj@,
            dwo: match self.outputs.dwo {
                Option::Some(d) => Some(d@),
                Option::None => None,
            },
            preprocessor_args: self.preprocessor_args.deep_view(),
            common_args: self.common_args.deep_view(),
        }
    }
}

impl View for CompilerArguments {
    type V = ClassifiedV;

    open spec fn view(&self) -> ClassifiedV {
        match self {
            CompilerArguments::Parsed(p) => ClassifiedV::Parsed(p@),
            CompilerArguments::NotCompilation => ClassifiedV::NotCompilation,
            CompilerArguments::CannotCache(r) => ClassifiedV::CannotCache(r@),
        }
    }
}

/// Whether `t` is a GCC-family flag that consumes the following token.
pub open spec fn spec_takes_value(t: Seq<char>) -> bool {
    ||| t == "--param"@
    ||| t == "-A"@
    ||| t == "-D"@
    ||| t == "-F"@
    ||| t == "-G"@
    ||| t == "-I"@
    ||| t == "-L"@
    ||| t == "-U"@
    ||| t == "-V"@
    ||| t == "-Xassembler"@
    ||| t == "-Xlinker"@
    ||| t == "-Xpreprocessor"@
    ||| t == "-aux-info"@
    ||| t == "-b"@
    ||| t == "-idirafter"@
    ||| t == "-iframework"@
    ||| t == "-imacros"@
    ||| t == "-imultilib"@
    ||| t == "-include"@
    ||| t == "-install_name"@
    ||| t == "-iprefix"@
    ||| t == "-iquote"@
    ||| t == "-isysroot"@
    ||| t == "-isystem"@
    ||| t == "-iwithprefix"@
    ||| t == "-iwithprefixbefore"@
    ||| t == "-u"@
}

/// Return true if `arg` is a GCC commandline argument that takes a value.
pub fn argument_takes_value(arg: &str) -> (r: bool)
    ensures
        r == spec_takes_value(arg@),
{
    let a = arg;
    crate::strutil::str_eq(a, "--param") || crate::strutil::str_eq(a, "-A")
        || crate::strutil::str_eq(a, "-D") || crate::strutil::str_eq(a, "-F")
        || crate::strutil::str_eq(a, "-G") || crate::strutil::str_eq(a, "-I")
        || crate::strutil::str_eq(a, "-L") || crate::strutil::str_eq(a, "-U")
        || crate::strutil::str_eq(a, "-V") || crate::strutil::str_eq(a, "-Xassembler")
        || crate::strutil::str_eq(a, "-Xlinker") || crate::strutil::str_eq(a, "-Xpreprocessor")
        || crate::strutil::str_eq(a, "-aux-info") || crate::strutil::str_eq(a, "-b")
        || crate::strutil::str_eq(a, "-idirafter") || crate::strutil::str_eq(a, "-iframework")
        || crate::strutil::str_eq(a, "-imacros") || crate::strutil::str_eq(a, "-imultilib")
        || crate::strutil::str_eq(a, "-include") || crate::strutil::str_eq(a, "-install_name")
        || crate::strutil::str_eq(a, "-iprefix") || crate::strutil::str_eq(a, "-iquote")
        || crate::strutil::str_eq(a, "-isysroot") || crate::strutil::str_eq(a, "-isystem")
        || crate::strutil::str_eq(a, "-iwithprefix") || crate::strutil::str_eq(
        a,
        "-iwithprefixbefore",
    ) || crate::strutil::str_eq(a, "-u")
}

/// Index of the first character of the path's file name: right after the
/// last slash, or the start of the path when it has none.
pub open spec fn name_start(p: Seq<char>) -> int
    decreases p.len(),
{
    if p.len() == 0 {
        0
    } else if p.last() == '/' {
        p.len() as int
    } else {
        name_start(p.drop_last())
    }
}

/// Index of the last dot of a file name, skipping a dot in first position,
/// which marks a hidden file rather than an extension.
pub open spec fn last_dot_index(name: Seq<char>) -> Option<int>
    decreases name.len(),
{
    if name.len() <= 1 {
        None
    } else if name.last() == '.' {
        Some(name.len() - 1)
    } else {
        last_dot_index(name.drop_last())
    }
}

/// The path's extension: what follows the last qualifying dot of its file
/// name, or nothing when the name has no such dot.
pub open spec fn spec_extension_of(p: Seq<char>) -> Option<Seq<char>> {
    let ns = name_start(p);
    let name = p.subrange(ns, p.len() as int);
    match last_dot_index(name) {
        Option::Some(k) => Some(name.subrange(k + 1, name.len() as int)),
        Option::None => None,
    }
}

/// The path with its extension replaced by `dwo` (or `.dwo` appended when it
/// has none), as the split-debug-info output path.
pub open spec fn spec_with_dwo_extension(p: Seq<char>) -> Seq<char> {
    let ns = name_start(p);
    let name = p.subrange(ns, p.len() as int);
    match last_dot_index(name) {
        Option::Some(k) => p.take(ns + k + 1) + "dwo"@,
        Option::None => p + ".dwo"@,
    }
}

proof fn lemma_name_start_bounds(p: Seq<char>)
    ensures
        0 <= name_start(p) <= p.len(),
    decreases p.len(),
{
    if p.len() > 0 && p.last() != '/' {
        lemma_name_start_bounds(p.drop_last());
    }
}

proof fn lemma_last_dot_bounds(name: Seq<char>)
    ensures
        match last_dot_index(name) {
            Option::Some(k) => 1 <= k < name.len() && name[k] == '.',
            Option::None => true,
        },
    decreases name.len(),
{
    if name.len() > 1 && name.last() != '.' {
        lemma_last_dot_bounds(name.drop_last());
    }
}

/// Locate the start of the file name of `p`'s characters.
fn find_name_start(v: &Vec<char>) -> (ns: usize)
    ensures
        ns == name_start(v@),
{
    let mut j: usize = v.len();
    proof {
        assert(v@.take(v@.len() as int) =~= v@);
    }
    while j > 0
        invariant
            j <= v.len(),
            name_start(v@) == name_start(v@.take(j as int)),
        decreases j,
    {
        proof {
            assert(v@.take(j as int).last() == v@[j - 1]);
            assert(v@.take(j as int).drop_last() =~= v@.take(j - 1));
        }
        if v[j - 1] == '/' {
            return j;
        }
        j = j - 1;
    }
    proof {
        assert(v@.take(0) =~= Seq::<char>::empty());
    }
    0
}

/// Locate the last qualifying dot of the file name `v[ns..]`, as an absolute
/// index into `v`.
fn find_last_dot(v: &Vec<char>, ns: usize) -> (r: Option<usize>)
    requires
        ns <= v@.len(),
    ensures
        match r {
            Option::Some(i) => ns < i < v@.len() && last_dot_index(
                v@.subrange(ns as int, v@.len() as int),
            ) == Some(i - ns),
            Option::None => last_dot_index(v@.subrange(ns as int, v@.len() as int))
                is None,
        },
{
    let ghost name = v@.subrange(ns as int, v@.len() as int);
    let mut j: usize = v.len();
    proof {
        assert(name.take(v@.len() - ns) =~= name);
    }
    while j - ns > 1
        invariant
            ns <= j <= v@.len(),
            ns <= v@.len(),
            name == v@.subrange(ns as int, v@.len() as int),
            last_dot_index(name) == last_dot_index(name.take(j - ns)),
        decreases j,
    {
        proof {
            assert(name.take(j - ns).last() == v@[j - 1]);
            assert(name.take(j - ns).drop_last() =~= name.take(j - 1 - ns));
        }
        if v[j - 1] == '.' {
            return Some(j - 1);
        }
        j = j - 1;
    }
    proof {
        assert(name.take(j - ns).len() <= 1);
    }
    None
}

/// The split-debug-info companion path: the object path with a `dwo`
/// extension.
pub fn with_dwo_extension(p: &String) -> (r: String)
    ensures
        r@ == spec_with_dwo_extension(p@),
{
    let v = chars_of(p.as_str());
    let ns = find_name_start(&v);
    proof {
        lemma_name_start_bounds(v@);
    }
    match find_last_dot(&v, ns) {
        Option::Some(i) => {
            let mut prefix: Vec<char> = Vec::new();
            let mut k: usize = 0;
            while k < i
                invariant
                    k <= i < v@.len(),
                    prefix@ == v@.take(k as int),
                decreases i - k,
            {
                prefix.push(v[k]);
                proof {
                    assert(v@.take(k + 1 as int) =~= v@.take(k as int).push(v@[k as int]));
                }
                k = k + 1;
            }
            prefix.push(v[i]);
            proof {
                assert(v@.take(i + 1 as int) =~= v@.take(i as int).push(v@[i as int]));
            }
            let stem = string_from_chars(&prefix);
            stem.concat("dwo")
        },
        Option::None => p.clone().concat(".dwo"),
    }
}

/// The recognized source extensions, each with itself as language tag.
pub open spec fn spec_recognized_ext(e: Seq<char>) -> bool {
    e == "c"@ || e == "cc"@ || e == "cpp"@ || e == "cxx"@ || e == "c++"@
}

/// The extension of `p` when it is a recognized source extension.
pub fn recognized_extension_of(p: &String) -> (r: Option<String>)
    ensures
        match r {
            Option::Some(e) => spec_extension_of(p@) == Some(e@) && spec_recognized_ext(e@),
            Option::None => spec_extension_of(p@) is None || !spec_recognized_ext(
                spec_extension_of(p@).unwrap(),
            ),
        },
{
    let v = chars_of(p.as_str());
    let ns = find_name_start(&v);
    proof {
        lemma_name_start_bounds(v@);
    }
    match find_last_dot(&v, ns) {
        Option::Some(i) => {
            let n = v.len();
            assert(i < n);
            let mut ext: Vec<char> = Vec::new();
            let mut k: usize = i + 1;
            while k < v.len()
                invariant
                    i + 1 <= k <= v@.len(),
                    ext@ == v@.subrange(i + 1 as int, k as int),
                decreases v@.len() - k,
            {
                ext.push(v[k]);
                proof {
                    assert(v@.subrange(i + 1 as int, k + 1 as int) =~= v@.subrange(
                        i + 1 as int,
                        k as int,
                    ).push(v@[k as int]));
                }
                k = k + 1;
            }
            let ghost name = v@.subrange(ns as int, v@.len() as int);
            proof {
                assert(spec_extension_of(p@) == Some(
                    name.subrange(i - ns + 1 as int, name.len() as int),
                ));
                assert(name.subrange(i - ns + 1 as int, name.len() as int) =~= v@.subrange(
                    i + 1 as int,
                    v@.len() as int,
                ));
            }
            let e = string_from_chars(&ext);
            if string_is(&e, "c") || string_is(&e, "cc") || string_is(&e, "cpp") || string_is(
                &e,
                "cxx",
            ) || string_is(&e, "c++") {
                Some(e)
            } else {
                None
            }
        },
        Option::None => None,
    }
}

} // verus!
// The scan below mirrors the single pass the classifier makes over the
// tokens: a spec state machine consumes one or two tokens per step, and the
// executable loop is proved to agree with it step by step.

verus! {

/// The classifier's running state: everything the token scan gathers.
#[verifier::ext_equal]
pub struct ClassifyState {
    pub output_arg: Option<Seq<char>>,
    pub input_arg: Option<Seq<char>>,
    pub dep_target: Option<Seq<char>>,
    pub common_args: Seq<Seq<char>>,
    pub preprocessor_args: Seq<Seq<char>>,
    pub compilation: bool,
    pub split_dwarf: bool,
    pub need_explicit_dep_target: bool,
    pub force_input_type: Option<Seq<char>>,
}

pub open spec fn init_state() -> ClassifyState {
    ClassifyState {
        output_arg: None,
        input_arg: None,
        dep_target: None,
        common_args: Seq::empty(),
        preprocessor_args: Seq::empty(),
        compilation: false,
        split_dwarf: false,
        need_explicit_dep_target: false,
        force_input_type: None,
    }
}

pub open spec fn view_opt(o: Option<String>) -> Option<Seq<char>> {
    match o {
        Option::Some(s) => Some(s@),
        Option::None => None,
    }
}

pub open spec fn state_of(
    output_arg: Option<String>,
    input_arg: Option<String>,
    dep_target: Option<String>,
    common_args: Vec<String>,
    preprocessor_args: Vec<String>,
    compilation: bool,
    split_dwarf: bool,
    need_explicit_dep_target: bool,
    force_input_type: Option<String>,
) -> ClassifyState {
    ClassifyState {
        output_arg: view_opt(output_arg),
        input_arg: view_opt(input_arg),
        dep_target: view_opt(dep_target),
        common_args: common_args.deep_view(),
        preprocessor_args: preprocessor_args.deep_view(),
        compilation: compilation,
        split_dwarf: split_dwarf,
        need_explicit_dep_target: need_explicit_dep_target,
        force_input_type: view_opt(force_input_type),
    }
}

/// What the scan concludes once the tokens are exhausted: only compilations
/// are cacheable, they need a single input of known language and an output
/// path; split debug info and dependency targets complete the outputs and
/// the preprocessor line.
pub open spec fn spec_finalize(st: ClassifyState) -> ClassifiedV {
    if !st.compilation {
        ClassifiedV::NotCompilation
    } else {
        match st.input_arg {
            Option::None => ClassifiedV::CannotCache("no input file"@),
            Option::Some(input) => {
                let ext = match st.force_input_type {
                    Option::Some(t) => Option::Some(t),
                    Option::None => match spec_extension_of(input) {
                        Option::Some(e) => if spec_recognized_ext(e) {
                            Option::Some(e)
                        } else {
                            Option::None::<Seq<char>>
                        },
                        Option::None => Option::None::<Seq<char>>,
                    },
                };
                match ext {
                    Option::None => ClassifiedV::CannotCache("unknown source extension"@),
                    Option::Some(e) => match st.output_arg {
                        Option::None => ClassifiedV::CannotCache("no output file"@),
                        Option::Some(o) => ClassifiedV::Parsed(
                            ParsedV {
                                input: input,
                                extension: e,
                                obj: o,
                                dwo: if st.split_dwarf {
                                    Option::Some(spec_with_dwo_extension(o))
                                } else {
                                    Option::None
                                },
                                preprocessor_args: if st.need_explicit_dep_target {
                                    st.preprocessor_args + seq![
                                        "-MT"@,
                                        match st.dep_target {
                                            Option::Some(d) => d,
                                            Option::None => o,
                                        },
                                    ]
                                } else {
                                    st.preprocessor_args
                                },
                                common_args: st.common_args,
                            },
                        ),
                    },
                }
            },
        }
    }
}

/// One pass over the tokens from position `i` on: each step consumes a token
/// (and, for value-taking flags, its value) and updates the state, stopping
/// early on anything that rules caching out.
pub open spec fn spec_scan(st: ClassifyState, args: Seq<Seq<char>>, i: int) -> ClassifiedV
    decreases args.len() - i,
{
    if i < 0 || i >= args.len() {
        spec_finalize(st)
    } else {
        let t = args[i];
        if t == "-c"@ {
            spec_scan(ClassifyState { compilation: true, ..st }, args, i + 1)
        } else if t == "-o"@ {
            if i + 1 < args.len() {
                spec_scan(ClassifyState { output_arg: Some(args[i + 1]), ..st }, args, i + 2)
            } else {
                spec_scan(ClassifyState { output_arg: None, ..st }, args, i + 1)
            }
        } else if t == "-gsplit-dwarf"@ {
            spec_scan(
                ClassifyState { split_dwarf: true, common_args: st.common_args.push(t), ..st },
                args,
                i + 1,
            )
        } else if spec_takes_value(t) {
            if i + 1 < args.len() {
                spec_scan(
                    ClassifyState {
                        common_args: st.common_args.push(t).push(args[i + 1]),
                        ..st
                    },
                    args,
                    i + 2,
                )
            } else {
                spec_scan(ClassifyState { common_args: st.common_args.push(t), ..st }, args, i + 1)
            }
        } else if t == "-x"@ {
            if i + 1 < args.len() {
                spec_scan(
                    ClassifyState {
                        preprocessor_args: st.preprocessor_args.push(t).push(args[i + 1]),
                        force_input_type: Some(args[i + 1]),
                        ..st
                    },
                    args,
                    i + 2,
                )
            } else {
                ClassifiedV::CannotCache("malformed -x"@)
            }
        } else if t == "-MF"@ || t == "-MQ"@ {
            if i + 1 < args.len() {
                spec_scan(
                    ClassifyState {
                        preprocessor_args: st.preprocessor_args.push(t).push(args[i + 1]),
                        ..st
                    },
                    args,
                    i + 2,
                )
            } else {
                spec_scan(
                    ClassifyState { preprocessor_args: st.preprocessor_args.push(t), ..st },
                    args,
                    i + 1,
                )
            }
        } else if t == "-MT"@ {
            if i + 1 < args.len() {
                spec_scan(ClassifyState { dep_target: Some(args[i + 1]), ..st }, args, i + 2)
            } else {
                spec_scan(ClassifyState { dep_target: None, ..st }, args, i + 1)
            }
        } else if t == "-fcxx-modules"@ || t == "-fmodules"@ {
            ClassifiedV::CannotCache("clang modules"@)
        } else if t == "-fsyntax-only"@ {
            ClassifiedV::CannotCache("-fsyntax-only"@)
        } else if t == "-fprofile-use"@ {
            ClassifiedV::CannotCache("pgo"@)
        } else if t.len() > 0 && t[0] == '@' {
            ClassifiedV::CannotCache("@file"@)
        } else if t == "-M"@ || t == "-MM"@ || t == "-MD"@ || t == "-MMD"@ {
            spec_scan(
                ClassifyState {
                    need_explicit_dep_target: true,
                    preprocessor_args: st.preprocessor_args.push(t),
                    ..st
                },
                args,
                i + 1,
            )
        } else if t.len() > 1 && t[0] == '-' {
            spec_scan(ClassifyState { common_args: st.common_args.push(t), ..st }, args, i + 1)
        } else {
            if st.input_arg is Some || t == "-"@ {
                ClassifiedV::CannotCache("multiple input files"@)
            } else {
                spec_scan(ClassifyState { input_arg: Some(t), ..st }, args, i + 1)
            }
        }
    }
}

/// How the classifier reads a whole token sequence.
pub open spec fn spec_parse_arguments(args: Seq<Seq<char>>) -> ClassifiedV {
    spec_scan(init_state(), args, 0)
}

} // verus!

verus! {

/// Parse `arguments`, determining whether the invocation can be cached.
///
/// The tokens must already have response files expanded; a surviving `@`
/// token rules caching out. Returns `NotCompilation` for command lines that
/// do not compile, `CannotCache` with a reason for compilations the cache
/// must not serve, and otherwise everything parsed from the command line.
pub fn parse_arguments(arguments: &Vec<String>) -> (r: CompilerArguments)
    ensures
        r@ == spec_parse_arguments(arguments.deep_view()),
{
    let ghost args = arguments.deep_view();
    let mut output_arg: Option<String> = None;
    let mut input_arg: Option<String> = None;
    let mut dep_target: Option<String> = None;
    let mut common_args: Vec<String> = Vec::new();
    let mut preprocessor_args: Vec<String> = Vec::new();
    let mut compilation = false;
    let mut split_dwarf = false;
    let mut need_explicit_dep_target = false;
    let mut force_input_type: Option<String> = None;
    let mut i: usize = 0;
    proof {
        assert(state_of(
            output_arg,
            input_arg,
            dep_target,
            common_args,
            preprocessor_args,
            compilation,
            split_dwarf,
            need_explicit_dep_target,
            force_input_type,
        ) =~= init_state());
    }
    while i < arguments.len()
        invariant
            i <= arguments.len(),
            args == arguments.deep_view(),
            spec_scan(
                state_of(
                    output_arg,
                    input_arg,
                    dep_target,
                    common_args,
                    preprocessor_args,
                    compilation,
                    split_dwarf,
                    need_explicit_dep_target,
                    force_input_type,
                ),
                args,
                i as int,
            ) == spec_parse_arguments(args),
        decreases arguments.len() - i,
    {
        let ghost pre = state_of(
            output_arg,
            input_arg,
            dep_target,
            common_args,
            preprocessor_args,
            compilation,
            split_dwarf,
            need_explicit_dep_target,
            force_input_type,
        );
        let ghost i0 = i as int;
        let arg = &arguments[i];
        proof {
            assert(args[i0] == arg@);
        }
        if string_is(arg, "-c") {
            compilation = true;
            i = i + 1;
        } else if string_is(arg, "-o") {
            if i + 1 < arguments.len() {
                output_arg = Some(arguments[i + 1].clone());
                i = i + 2;
            } else {
                output_arg = None;
                i = i + 1;
            }
        } else if string_is(arg, "-gsplit-dwarf") {
            split_dwarf = true;
            common_args.push(arg.clone());
            proof {
                assert(common_args.deep_view() =~= pre.common_args.push(args[i0]));
            }
            i = i + 1;
        } else if argument_takes_value(arg.as_str()) {
            common_args.push(arg.clone());
            proof {
                assert(common_args.deep_view() =~= pre.common_args.push(args[i0]));
            }
            if i + 1 < arguments.len() {
                common_args.push(arguments[i + 1].clone());
                proof {
                    assert(common_args.deep_view() =~= pre.common_args.push(args[i0]).push(
                        args[i0 + 1],
                    ));
                }
                i = i + 2;
            } else {
                i = i + 1;
            }
        } else if string_is(arg, "-x") {
            if i + 1 < arguments.len() {
                let val = arguments[i + 1].clone();
                preprocessor_args.push(arg.clone());
                preprocessor_args.push(val.clone());
                force_input_type = Some(val);
                proof {
                    assert(preprocessor_args.deep_view() =~= pre.preprocessor_args.push(
                        args[i0],
                    ).push(args[i0 + 1]));
                }
                i = i + 2;
            } else {
                proof {
                    assert(spec_parse_arguments(args) == ClassifiedV::CannotCache(
                        "malformed -x"@,
                    ));
                }
                return CompilerArguments::CannotCache("malformed -x");
            }
        } else if string_is(arg, "-MF") || string_is(arg, "-MQ") {
            preprocessor_args.push(arg.clone());
            proof {
                assert(preprocessor_args.deep_view() =~= pre.preprocessor_args.push(args[i0]));
            }
            if i + 1 < arguments.len() {
                preprocessor_args.push(arguments[i + 1].clone());
                proof {
                    assert(preprocessor_args.deep_view() =~= pre.preprocessor_args.push(
                        args[i0],
                    ).push(args[i0 + 1]));
                }
                i = i + 2;
            } else {
                i = i + 1;
            }
        } else if string_is(arg, "-MT") {
            if i + 1 < arguments.len() {
                dep_target = Some(arguments[i + 1].clone());
                i = i + 2;
            } else {
                dep_target = None;
                i = i + 1;
            }
        } else if string_is(arg, "-fcxx-modules") || string_is(arg, "-fmodules") {
            proof {
                assert(spec_parse_arguments(args) == ClassifiedV::CannotCache("clang modules"@));
            }
            return CompilerArguments::CannotCache("clang modules");
        } else if string_is(arg, "-fsyntax-only") {
            proof {
                assert(spec_parse_arguments(args) == ClassifiedV::CannotCache("-fsyntax-only"@));
            }
            return CompilerArguments::CannotCache("-fsyntax-only");
        } else if string_is(arg, "-fprofile-use") {
            proof {
                assert(spec_parse_arguments(args) == ClassifiedV::CannotCache("pgo"@));
            }
            return CompilerArguments::CannotCache("pgo");
        } else if starts_with_char(arg, '@') {
            proof {
                assert(spec_parse_arguments(args) == ClassifiedV::CannotCache("@file"@));
            }
            return CompilerArguments::CannotCache("@file");
        } else if string_is(arg, "-M") || string_is(arg, "-MM") || string_is(arg, "-MD")
            || string_is(arg, "-MMD") {
            need_explicit_dep_target = true;
            preprocessor_args.push(arg.clone());
            proof {
                assert(preprocessor_args.deep_view() =~= pre.preprocessor_args.push(args[i0]));
            }
            i = i + 1;
        } else if starts_with_and_longer(arg, '-') {
            common_args.push(arg.clone());
            proof {
                assert(common_args.deep_view() =~= pre.common_args.push(args[i0]));
            }
            i = i + 1;
        } else {
            if input_arg.is_some() || string_is(arg, "-") {
                proof {
                    assert(seq!['-'] =~= "-"@) by {
                        vstd::prelude::reveal_strlit("-");
                    }
                    assert(spec_parse_arguments(args) == ClassifiedV::CannotCache(
                        "multiple input files"@,
                    ));
                }
                return CompilerArguments::CannotCache("multiple input files");
            } else {
                input_arg = Some(arg.clone());
                i = i + 1;
            }
        }
        proof {
            let post = state_of(
                output_arg,
                input_arg,
                dep_target,
                common_args,
                preprocessor_args,
                compilation,
                split_dwarf,
                need_explicit_dep_target,
                force_input_type,
            );
            assert(spec_scan(pre, args, i0) == spec_scan(post, args, i as int));
        }
    }
    let ghost st = state_of(
        output_arg,
        input_arg,
        dep_target,
        common_args,
        preprocessor_args,
        compilation,
        split_dwarf,
        need_explicit_dep_target,
        force_input_type,
    );
    proof {
        assert(spec_parse_arguments(args) == spec_finalize(st));
    }
    if !compilation {
        return CompilerArguments::NotCompilation;
    }
    let input: String = match input_arg {
        Option::Some(inp) => inp,
        Option::None => {
            return CompilerArguments::CannotCache("no input file");
        },
    };
    let extension: String = match force_input_type {
        Option::Some(t) => t,
        Option::None => {
            match recognized_extension_of(&input) {
                Option::Some(e) => e,
                Option::None => {
                    return CompilerArguments::CannotCache("unknown source extension");
                },
            }
        },
    };
    let obj: String = match output_arg {
        Option::Some(o) => o,
        Option::None => {
            return CompilerArguments::CannotCache("no output file");
        },
    };
    let dwo: Option<String> = if split_dwarf {
        Some(with_dwo_extension(&obj))
    } else {
        None
    };
    if need_explicit_dep_target {
        let ghost before = preprocessor_args.deep_view();
        preprocessor_args.push("-MT".to_owned());
        let dt: String = match dep_target {
            Option::Some(d) => d,
            Option::None => obj.clone(),
        };
        preprocessor_args.push(dt);
        proof {
            assert(preprocessor_args.deep_view() =~= before + seq![
                "-MT"@,
                match st.dep_target {
                    Option::Some(d) => d,
                    Option::None => st.output_arg.unwrap(),
                },
            ]);
        }
    }
    let r = CompilerArguments::Parsed(
        ParsedArguments {
            input,
            extension,
            depfile: None,
            outputs: Outputs { obj, dwo },
            preprocessor_args,
            common_args,
            msvc_show_includes: false,
        },
    );
    proof {
        assert(r@->Parsed_0 =~= spec_finalize(st)->Parsed_0);
    }
    r
}

} // verus!

verus! {

/// The special tokens the scan matches all start with a dash and have at
/// least two characters.
proof fn lemma_flag_tokens()
    ensures
        "-c"@.len() > 1 && "-c"@[0] == '-',
        "-o"@.len() > 1 && "-o"@[0] == '-',
        "-gsplit-dwarf"@.len() > 1 && "-gsplit-dwarf"@[0] == '-',
        "-x"@.len() > 1 && "-x"@[0] == '-',
        "-MF"@.len() > 1 && "-MF"@[0] == '-',
        "-MQ"@.len() > 1 && "-MQ"@[0] == '-',
        "-MT"@.len() > 1 && "-MT"@[0] == '-',
        "-fcxx-modules"@.len() > 1 && "-fcxx-modules"@[0] == '-',
        "-fmodules"@.len() > 1 && "-fmodules"@[0] == '-',
        "-fsyntax-only"@.len() > 1 && "-fsyntax-only"@[0] == '-',
        "-fprofile-use"@.len() > 1 && "-fprofile-use"@[0] == '-',
        "-M"@.len() > 1 && "-M"@[0] == '-',
        "-MM"@.len() > 1 && "-MM"@[0] == '-',
        "-MD"@.len() > 1 && "-MD"@[0] == '-',
        "-MMD"@.len() > 1 && "-MMD"@[0] == '-',
        "-"@.len() == 1 && "-"@[0] == '-',
        "-c"@ != "-o"@,
        forall|t: Seq<char>| spec_takes_value(t) ==> t.len() > 1 && #[trigger] t[0] == '-',
{
    vstd::prelude::reveal_strlit("-c");
    vstd::prelude::reveal_strlit("-o");
    vstd::prelude::reveal_strlit("-gsplit-dwarf");
    vstd::prelude::reveal_strlit("-x");
    vstd::prelude::reveal_strlit("-MF");
    vstd::prelude::reveal_strlit("-MQ");
    vstd::prelude::reveal_strlit("-MT");
    vstd::prelude::reveal_strlit("-fcxx-modules");
    vstd::prelude::reveal_strlit("-fmodules");
    vstd::prelude::reveal_strlit("-fsyntax-only");
    vstd::prelude::reveal_strlit("-fprofile-use");
    vstd::prelude::reveal_strlit("-M");
    vstd::prelude::reveal_strlit("-MM");
    vstd::prelude::reveal_strlit("-MD");
    vstd::prelude::reveal_strlit("-MMD");
    vstd::prelude::reveal_strlit("-");
    vstd::prelude::reveal_strlit("--param");
    vstd::prelude::reveal_strlit("-A");
    vstd::prelude::reveal_strlit("-D");
    vstd::prelude::reveal_strlit("-F");
    vstd::prelude::reveal_strlit("-G");
    vstd::prelude::reveal_strlit("-I");
    vstd::prelude::reveal_strlit("-L");
    vstd::prelude::reveal_strlit("-U");
    vstd::prelude::reveal_strlit("-V");
    vstd::prelude::reveal_strlit("-Xassembler");
    vstd::prelude::reveal_strlit("-Xlinker");
    vstd::prelude::reveal_strlit("-Xpreprocessor");
    vstd::prelude::reveal_strlit("-aux-info");
    vstd::prelude::reveal_strlit("-b");
    vstd::prelude::reveal_strlit("-idirafter");
    vstd::prelude::reveal_strlit("-iframework");
    vstd::prelude::reveal_strlit("-imacros");
    vstd::prelude::reveal_strlit("-imultilib");
    vstd::prelude::reveal_strlit("-include");
    vstd::prelude::reveal_strlit("-install_name");
    vstd::prelude::reveal_strlit("-iprefix");
    vstd::prelude::reveal_strlit("-iquote");
    vstd::prelude::reveal_strlit("-isysroot");
    vstd::prelude::reveal_strlit("-isystem");
    vstd::prelude::reveal_strlit("-iwithprefix");
    vstd::prelude::reveal_strlit("-iwithprefixbefore");
    vstd::prelude::reveal_strlit("-u");
    assert("-c"@[1] == 'c' && "-o"@[1] == 'o');
}

/// While `compilation` is unset and no remaining token is `-c`, the scan
/// never classifies the line as a cacheable compilation.
proof fn lemma_scan_no_c(st: ClassifyState, args: Seq<Seq<char>>, i: int)
    requires
        0 <= i,
        !st.compilation,
        forall|j: int| i <= j < args.len() ==> (#[trigger] args[j]) != "-c"@,
    ensures
        spec_scan(st, args, i) is NotCompilation || spec_scan(st, args, i) is CannotCache,
    decreases args.len() - i,
{
    if i < args.len() {
        let t = args[i];
        assert(t != "-c"@);
        if t == "-o"@ {
            if i + 1 < args.len() {
                lemma_scan_no_c(ClassifyState { output_arg: Some(args[i + 1]), ..st }, args, i + 2);
            } else {
                lemma_scan_no_c(ClassifyState { output_arg: None, ..st }, args, i + 1);
            }
        } else if t == "-gsplit-dwarf"@ {
            lemma_scan_no_c(
                ClassifyState { split_dwarf: true, common_args: st.common_args.push(t), ..st },
                args,
                i + 1,
            );
        } else if spec_takes_value(t) {
            if i + 1 < args.len() {
                lemma_scan_no_c(
                    ClassifyState { common_args: st.common_args.push(t).push(args[i + 1]), ..st },
                    args,
                    i + 2,
                );
            } else {
                lemma_scan_no_c(
                    ClassifyState { common_args: st.common_args.push(t), ..st },
                    args,
                    i + 1,
                );
            }
        } else if t == "-x"@ {
            if i + 1 < args.len() {
                lemma_scan_no_c(
                    ClassifyState {
                        preprocessor_args: st.preprocessor_args.push(t).push(args[i + 1]),
                        force_input_type: Some(args[i + 1]),
                        ..st
                    },
                    args,
                    i + 2,
                );
            }
        } else if t == "-MF"@ || t == "-MQ"@ {
            if i + 1 < args.len() {
                lemma_scan_no_c(
                    ClassifyState {
                        preprocessor_args: st.preprocessor_args.push(t).push(args[i + 1]),
                        ..st
                    },
                    args,
                    i + 2,
                );
            } else {
                lemma_scan_no_c(
                    ClassifyState { preprocessor_args: st.preprocessor_args.push(t), ..st },
                    args,
                    i + 1,
                );
            }
        } else if t == "-MT"@ {
            if i + 1 < args.len() {
                lemma_scan_no_c(ClassifyState { dep_target: Some(args[i + 1]), ..st }, args, i + 2);
            } else {
                lemma_scan_no_c(ClassifyState { dep_target: None, ..st }, args, i + 1);
            }
        } else if t == "-fcxx-modules"@ || t == "-fmodules"@ || t == "-fsyntax-only"@ || t
            == "-fprofile-use"@ {
        } else if t.len() > 0 && t[0] == '@' {
        } else if t == "-M"@ || t == "-MM"@ || t == "-MD"@ || t == "-MMD"@ {
            lemma_scan_no_c(
                ClassifyState {
                    need_explicit_dep_target: true,
                    preprocessor_args: st.preprocessor_args.push(t),
                    ..st
                },
                args,
                i + 1,
            );
        } else if t.len() > 1 && t[0] == '-' {
            lemma_scan_no_c(ClassifyState { common_args: st.common_args.push(t), ..st }, args, i + 1);
        } else {
            if !(st.input_arg is Some || t == "-"@) {
                lemma_scan_no_c(ClassifyState { input_arg: Some(t), ..st }, args, i + 1);
            }
        }
    }
}

/// A command line lacking `-c` is never classified as cacheable: it is not
/// a compilation, or caching was already ruled out for a stated reason.
pub proof fn lemma_no_compile_flag(args: Seq<Seq<char>>)
    requires
        forall|j: int| 0 <= j < args.len() ==> (#[trigger] args[j]) != "-c"@,
    ensures
        spec_parse_arguments(args) is NotCompilation || spec_parse_arguments(args)
            is CannotCache,
{
    lemma_scan_no_c(init_state(), args, 0);
}

} // verus!

verus! {

/// A flag the scan records as a common argument and nothing more: it starts
/// with a dash, is none of the tokens with their own meaning, and takes no
/// value.
pub open spec fn simple_flag(t: Seq<char>) -> bool {
    &&& t.len() > 1 && t[0] == '-'
    &&& t != "-c"@ && t != "-o"@ && t != "-gsplit-dwarf"@
    &&& !spec_takes_value(t)
    &&& t != "-x"@ && t != "-MF"@ && t != "-MQ"@ && t != "-MT"@
    &&& t != "-fcxx-modules"@ && t != "-fmodules"@ && t != "-fsyntax-only"@ && t
        != "-fprofile-use"@
    &&& t != "-M"@ && t != "-MM"@ && t != "-MD"@ && t != "-MMD"@
}

/// A token the scan takes as the single input file, with a recognized
/// source extension.
pub open spec fn plain_input(t: Seq<char>) -> bool {
    &&& t.len() > 0 && t[0] != '-' && t[0] != '@'
    &&& spec_extension_of(t) matches Some(e) && spec_recognized_ext(e)
}

proof fn lemma_scan_accepts(
    st: ClassifyState,
    args: Seq<Seq<char>>,
    i: int,
    k: int,
    m: int,
    c: int,
)
    requires
        0 <= i <= args.len(),
        i != k + 1,
        0 <= k && k + 1 < args.len() && args[k] == "-o"@,
        0 <= m < args.len() && plain_input(args[m]) && m != k && m != k + 1,
        0 <= c < args.len() && args[c] == "-c"@ && c != k + 1,
        forall|j: int|
            0 <= j < args.len() && j != k && j != k + 1 && j != m ==> ((#[trigger] args[j])
                == "-c"@ || simple_flag(args[j])),
        st.input_arg == if m < i {
            Some(args[m])
        } else {
            Option::<Seq<char>>::None
        },
        st.output_arg == if k + 2 <= i {
            Some(args[k + 1])
        } else {
            Option::<Seq<char>>::None
        },
        st.compilation || i <= c,
    ensures
        spec_scan(st, args, i) is Parsed,
        spec_scan(st, args, i)->Parsed_0.obj == args[k + 1],
        spec_scan(st, args, i)->Parsed_0.input == args[m],
    decreases args.len() - i,
{
    lemma_flag_tokens();
    if i >= args.len() {
        assert(st.compilation);
        assert(st.input_arg == Some(args[m]));
        assert(st.output_arg == Some(args[k + 1]));
        assert(spec_scan(st, args, i) == spec_finalize(st));
    } else {
        let t = args[i];
        if i == k {
            assert(t == "-o"@);
            assert(t != "-c"@);
            lemma_scan_accepts(
                ClassifyState { output_arg: Some(args[i + 1]), ..st },
                args,
                i + 2,
                k,
                m,
                c,
            );
        } else if i == m {
            assert(plain_input(t));
            assert(t != "-c"@ && t != "-o"@ && t != "-gsplit-dwarf"@ && t != "-x"@ && t != "-MF"@
                && t != "-MQ"@ && t != "-MT"@ && t != "-fcxx-modules"@ && t != "-fmodules"@ && t
                != "-fsyntax-only"@ && t != "-fprofile-use"@ && t != "-M"@ && t != "-MM"@ && t
                != "-MD"@ && t != "-MMD"@ && t != "-"@) by {
                assert(t[0] != '-');
            }
            assert(!spec_takes_value(t));
            assert(st.input_arg is None);
            lemma_scan_accepts(ClassifyState { input_arg: Some(t), ..st }, args, i + 1, k, m, c);
        } else if t == "-c"@ {
            lemma_scan_accepts(ClassifyState { compilation: true, ..st }, args, i + 1, k, m, c);
        } else {
            assert(simple_flag(t));
            lemma_scan_accepts(
                ClassifyState { common_args: st.common_args.push(t), ..st },
                args,
                i + 1,
                k,
                m,
                c,
            );
        }
    }
}

/// The classifier accepts every plain compile line. For a token sequence
/// holding `-c`, exactly one `-o` followed by a path, exactly one input
/// with a recognized source extension, and otherwise only plain flags, the
/// result is a cacheable parse whose object output is that path and whose
/// input is that file.
pub proof fn lemma_classifier_accepts(args: Seq<Seq<char>>, k: int, m: int, c: int)
    requires
        0 <= k && k + 1 < args.len() && args[k] == "-o"@,
        0 <= m < args.len() && plain_input(args[m]) && m != k && m != k + 1,
        0 <= c < args.len() && args[c] == "-c"@ && c != k + 1,
        forall|j: int|
            0 <= j < args.len() && j != k && j != k + 1 && j != m ==> ((#[trigger] args[j])
                == "-c"@ || simple_flag(args[j])),
    ensures
        spec_parse_arguments(args) is Parsed,
        spec_parse_arguments(args)->Parsed_0.obj == args[k + 1],
        spec_parse_arguments(args)->Parsed_0.input == args[m],
{
    lemma_scan_accepts(init_state(), args, 0, k, m, c);
}

} // verus!

verus! {

proof fn lemma_scan_not_compilation(
    st: ClassifyState,
    args: Seq<Seq<char>>,
    i: int,
    k: int,
    m: int,
)
    requires
        0 <= i <= args.len(),
        i != k + 1,
        0 <= k && k + 1 < args.len() && args[k] == "-o"@,
        0 <= m < args.len() && plain_input(args[m]) && m != k && m != k + 1,
        forall|j: int|
            0 <= j < args.len() && j != k && j != k + 1 && j != m ==> simple_flag(
                #[trigger] args[j],
            ),
        st.input_arg == if m < i {
            Some(args[m])
        } else {
            Option::<Seq<char>>::None
        },
        !st.compilation,
    ensures
        spec_scan(st, args, i) is NotCompilation,
    decreases args.len() - i,
{
    lemma_flag_tokens();
    if i >= args.len() {
        assert(spec_scan(st, args, i) == spec_finalize(st));
    } else {
        let t = args[i];
        if i == k {
            assert(t != "-c"@);
            lemma_scan_not_compilation(
                ClassifyState { output_arg: Some(args[i + 1]), ..st },
                args,
                i + 2,
                k,
                m,
            );
        } else if i == m {
            assert(t != "-c"@ && t != "-o"@ && t != "-gsplit-dwarf"@ && t != "-x"@ && t != "-MF"@
                && t != "-MQ"@ && t != "-MT"@ && t != "-fcxx-modules"@ && t != "-fmodules"@ && t
                != "-fsyntax-only"@ && t != "-fprofile-use"@ && t != "-M"@ && t != "-MM"@ && t
                != "-MD"@ && t != "-MMD"@ && t != "-"@) by {
                assert(t[0] != '-');
            }
            assert(!spec_takes_value(t));
            assert(st.input_arg is None);
            lemma_scan_not_compilation(
                ClassifyState { input_arg: Some(t), ..st },
                args,
                i + 1,
                k,
                m,
            );
        } else {
            assert(simple_flag(t));
            lemma_scan_not_compilation(
                ClassifyState { common_args: st.common_args.push(t), ..st },
                args,
                i + 1,
                k,
                m,
            );
        }
    }
}

/// The exact half of the missing-`-c` rule: a plain command line (one `-o`
/// and its path, one recognized input, otherwise only plain flags) that
/// lacks `-c` is classified as not a compilation at all. Together with
/// `lemma_no_compile_flag` this pins the classifier's behavior without
/// `-c`: never cacheable, and on plain lines exactly `NotCompilation`.
pub proof fn lemma_not_compilation_without_compile_flag(args: Seq<Seq<char>>, k: int, m: int)
    requires
        0 <= k && k + 1 < args.len() && args[k] == "-o"@,
        0 <= m < args.len() && plain_input(args[m]) && m != k && m != k + 1,
        forall|j: int|
            0 <= j < args.len() && j != k && j != k + 1 && j != m ==> simple_flag(
                #[trigger] args[j],
            ),
    ensures
        spec_parse_arguments(args) is NotCompilation,
{
    lemma_scan_not_compilation(init_state(), args, 0, k, m);
}

} // verus!
