use crate::text::{str_eq, string_of};
use vstd::prelude::*;

verus! {

/// What a compilation builds.
#[derive(Debug, Clone, Copy, PartialEq, Eq, Structural)]
pub enum BuildType {
    Binary,
    Library,
    Test,
}

impl BuildType {
    /// The names of the build types, as given on the command line.
    pub fn all_str() -> (r: Vec<&'static str>)
        ensures
            r@.map_values(|s: &str| s@) == seq!["bin"@, "lib"@, "test"@],
    {
        let r = vec!["bin", "lib", "test"];
        assert(r@.map_values(|s: &str| s@) =~= seq!["bin"@, "lib"@, "test"@]);
        r
    }

    /// The name of this build type.
    pub fn as_str(&self) -> (r: &'static str)
        ensures
            r@ == build_type_name(*self),
    {
        match self {
            BuildType::Binary => "bin",
            BuildType::Library => "lib",
            BuildType::Test => "test",
        }
    }

    /// The build type named `s`; the name must be one of `all_str`.
    pub fn from_name(s: &str) -> (r: Self)
        requires
            s@ == "bin"@ || s@ == "lib"@ || s@ == "test"@,
        ensures
            build_type_name(r) == s@,
    {
        if str_eq(s, "bin") {
            BuildType::Binary
        } else if str_eq(s, "lib") {
            BuildType::Library
        } else {
            BuildType::Test
        }
    }
}

pub open spec fn build_type_name(b: BuildType) -> Seq<char> {
    match b {
        BuildType::Binary => "bin"@,
        BuildType::Library => "lib"@,
        BuildType::Test => "test"@,
    }
}

/// What a compilation emits.
#[derive(Debug, Clone, Copy, PartialEq, Eq, Structural)]
pub enum Emit {
    LlvmIr,
    Assembly,
    Object,
    Binary,
}

pub open spec fn emit_name(e: Emit) -> Seq<char> {
    match e {
        Emit::LlvmIr => "llvm-ir"@,
        Emit::Assembly => "asm"@,
        Emit::Object => "object"@,
        Emit::Binary => "bin"@,
    }
}

impl Emit {
    /// The names of the kinds of output, as given on the command line.
    pub fn all_str() -> (r: Vec<&'static str>)
        ensures
            r@.map_values(|s: &str| s@) == seq!["llvm-ir"@, "object"@, "asm"@, "bin"@],
    {
        let r = vec!["llvm-ir", "object", "asm", "bin"];
        assert(r@.map_values(|s: &str| s@) =~= seq!["llvm-ir"@, "object"@, "asm"@, "bin"@]);
        r
    }

    /// The name of this kind of output.
    pub fn as_str(&self) -> (r: &'static str)
        ensures
            r@ == emit_name(*self),
    {
        match self {
            Emit::LlvmIr => "llvm-ir",
            Emit::Assembly => "asm",
            Emit::Object => "object",
            Emit::Binary => "bin",
        }
    }

    /// The kind of output named `value`; any other name means a binary.
    pub fn from_name(value: &str) -> (r: Self)
        ensures
            r == (if value@ == "llvm-ir"@ {
                Emit::LlvmIr
            } else if value@ == "asm"@ {
                Emit::Assembly
            } else if value@ == "object"@ {
                Emit::Object
            } else {
                Emit::Binary
            }),
    {
        if str_eq(value, "llvm-ir") {
            Emit::LlvmIr
        } else if str_eq(value, "asm") {
            Emit::Assembly
        } else if str_eq(value, "object") {
            Emit::Object
        } else {
            Emit::Binary
        }
    }
}

/// How messages are printed.
#[derive(Copy, Clone, PartialEq, Eq, Structural, Debug)]
pub enum MessageFormat {
    Normal,
    Json,
}

impl Default for MessageFormat {
    fn default() -> (r: Self)
        ensures
            r == MessageFormat::Normal,
    {
        MessageFormat::Normal
    }
}

impl MessageFormat {
    /// The format named `value`: `json`, or else normal.
    pub fn from_name(value: &str) -> (r: Self)
        ensures
            r == (if value@ == "json"@ {
                MessageFormat::Json
            } else {
                MessageFormat::Normal
            }),
    {
        if str_eq(value, "json") {
            MessageFormat::Json
        } else {
            MessageFormat::Normal
        }
    }

    /// The name of this format.
    pub fn as_str(&self) -> (r: &'static str)
        ensures
            r@ == (match *self {
                MessageFormat::Normal => "normal"@,
                MessageFormat::Json => "json"@,
            }),
    {
        match self {
            MessageFormat::Normal => "normal",
            MessageFormat::Json => "json",
        }
    }
}


/// The settings of one compilation.
#[derive(Debug, Clone)]
pub struct Config {
    pub input: String,
    pub name: Option<String>,
    pub type_: Option<BuildType>,
    pub output: Option<String>,
    pub out_dir: Option<String>,
    pub paths: Vec<String>,
    pub l: Option<String>,
    pub target_triple: Option<String>,
    pub libraries: Vec<String>,
    pub emit: Option<String>,
    pub message_format: Option<MessageFormat>,
}

impl Default for Config {
    /// No input, nothing set.
    fn default() -> (r: Self)
        ensures
            r.input@ == Seq::<char>::empty(),
            r.name is None,
            r.type_ is None,
            r.output is None,
            r.out_dir is None,
            r.paths@.len() == 0,
            r.l is None,
            r.target_triple is None,
            r.libraries@.len() == 0,
            r.emit is None,
            r.message_format is None,
    {
        Config {
            input: String::new(),
            name: None,
            type_: None,
            output: None,
            out_dir: None,
            paths: Vec::new(),
            l: None,
            target_triple: None,
            libraries: Vec::new(),
            emit: None,
            message_format: None,
        }
    }
}

fn copy_opt_string(o: &Option<String>) -> (r: Option<String>)
    ensures
        r == *o,
{
    match o {
        Some(s) => Some(s.clone()),
        None => None,
    }
}

fn copy_strings(v: &Vec<String>) -> (r: Vec<String>)
    ensures
        r@ == v@,
{
    let mut r: Vec<String> = Vec::new();
    let mut i: usize = 0;
    while i < v.len()
        invariant
            i <= v@.len(),
            r@ == v@.take(i as int),
        decreases v@.len() - i,
    {
        r.push(v[i].clone());
        assert(v@.take(i + 1) =~= v@.take(i as int).push(v@[i as int]));
        i = i + 1;
    }
    assert(v@.take(v@.len() as int) =~= v@);
    r
}

/// Read access to a configuration.
pub trait ConfigExt {
    fn input(&self) -> &str;
    fn name(&self) -> Option<&str>;
    fn type_(&self) -> BuildType;
    fn output(&self) -> Option<String>;
    fn out_dir(&self) -> Option<String>;
    fn paths(&self) -> Vec<String>;
    fn target_triple(&self) -> Option<String>;
    fn libraries(&self) -> Vec<String>;
    fn emit(&self) -> Option<String>;
    fn message_format(&self) -> MessageFormat;
}

impl ConfigExt for Config {
    fn input(&self) -> (r: &str)
        ensures
            r@ == self.input@,
    {
        self.input.as_str()
    }

    fn name(&self) -> (r: Option<&str>)
        ensures
            r is Some == self.name is Some,
            r matches Some(n) ==> n@ == self.name->0@,
    {
        match &self.name {
            Some(n) => Some(n.as_str()),
            None => None,
        }
    }

    /// The build type, a binary when none is set.
    fn type_(&self) -> (r: BuildType)
        ensures
            r == (match self.type_ {
                Some(t) => t,
                None => BuildType::Binary,
            }),
    {
        match self.type_ {
            Some(t) => t,
            None => BuildType::Binary,
        }
    }

    fn output(&self) -> (r: Option<String>)
        ensures
            r == self.output,
    {
        copy_opt_string(&self.output)
    }

    fn out_dir(&self) -> (r: Option<String>)
        ensures
            r == self.out_dir,
    {
        copy_opt_string(&self.out_dir)
    }

    fn paths(&self) -> (r: Vec<String>)
        ensures
            r@ == self.paths@,
    {
        copy_strings(&self.paths)
    }

    fn target_triple(&self) -> (r: Option<String>)
        ensures
            r == self.target_triple,
    {
        copy_opt_string(&self.target_triple)
    }

    fn libraries(&self) -> (r: Vec<String>)
        ensures
            r@ == self.libraries@,
    {
        copy_strings(&self.libraries)
    }

    fn emit(&self) -> (r: Option<String>)
        ensures
            r == self.emit,
    {
        copy_opt_string(&self.emit)
    }

    /// The message format, normal when none is set.
    fn message_format(&self) -> (r: MessageFormat)
        ensures
            r == (match self.message_format {
                Some(m) => m,
                None => MessageFormat::Normal,
            }),
    {
        match self.message_format {
            Some(m) => m,
            None => MessageFormat::default(),
        }
    }
}

/// The command-line arguments that give `c`: the input, then each setting
/// that is present, as a flag followed by its value.
pub open spec fn args_of(c: Config) -> Seq<Seq<char>> {
    seq![c.input@]
        + (if c.out_dir is Some { seq!["--out-dir"@, c.out_dir->0@] } else { seq![] })
        + (if c.name is Some { seq!["--name"@, c.name->0@] } else { seq![] })
        + (if c.type_ is Some { seq!["--type"@, build_type_name(c.type_->0)] } else { seq![] })
        + library_args(c.libraries@)
        + (if c.target_triple is Some { seq!["--target-triple"@, c.target_triple->0@] } else { seq![] })
        + (if c.message_format is Some {
            seq!["--message-format"@, if c.message_format->0 == MessageFormat::Json { "json"@ } else { "normal"@ }]
        } else {
            seq![]
        })
}

/// `--library` followed by each library, for every library.
pub open spec fn library_args(libs: Seq<String>) -> Seq<Seq<char>>
    decreases libs.len(),
{
    if libs.len() == 0 {
        seq![]
    } else {
        library_args(libs.drop_last()) + seq!["--library"@, libs.last()@]
    }
}

/// Building a configuration step by step.
pub trait ConfigBuilder: Sized {
    fn input(self, input: &str) -> Self;
    fn name(self, name: &str) -> Self;
    fn type_(self, build_type: BuildType) -> Self;
    fn output(self, output: &str) -> Self;
    fn out_dir(self, out_dir: &str) -> Self;
    fn path(self, path: &str) -> Self;
    fn paths(self, paths: &[&str]) -> Self;
    fn target_triple(self, target_triple: &str) -> Self;
    fn library(self, library: &str) -> Self;
    fn libraries(self, libraries: &[&str]) -> Self;
    fn emit(self, emit: &str) -> Self;
    fn message_format(self, message_format: MessageFormat) -> Self;
    fn as_args(&self) -> Vec<&str>;
}

fn push_all(v: &mut Vec<String>, items: &[&str])
    ensures
        final(v)@.map_values(|s: String| s@) == old(v)@.map_values(|s: String| s@) + items@.map_values(|s: &str| s@),
{
    let ghost start = v@.map_values(|s: String| s@);
    let mut i: usize = 0;
    while i < items.len()
        invariant
            i <= items@.len(),
            v@.map_values(|s: String| s@) == start + items@.take(i as int).map_values(|s: &str| s@),
        decreases items@.len() - i,
    {
        let ghost before = v@;
        let s = string_of(items[i]);
        v.push(s);
        assert(v@ == before.push(s));
        assert(v@.map_values(|s: String| s@) =~= before.map_values(|s: String| s@).push(s@));
        assert(items@.take(i + 1).map_values(|s: &str| s@) =~= items@.take(i as int).map_values(|s: &str| s@).push(items@[i as int]@));
        i = i + 1;
    }
    assert(items@.take(items@.len() as int) =~= items@);
}

impl ConfigBuilder for Config {
    fn input(self, input: &str) -> (r: Self)
        ensures
            r.input@ == input@,
            r.name == self.name && r.type_ == self.type_ && r.output == self.output && r.out_dir == self.out_dir
                && r.paths == self.paths && r.target_triple == self.target_triple && r.libraries == self.libraries
                && r.emit == self.emit && r.message_format == self.message_format,
    {
        let mut c = self;
        c.input = string_of(input);
        c
    }

    fn name(self, name: &str) -> (r: Self)
        ensures
            r.name is Some && r.name->0@ == name@,
            r.input == self.input && r.type_ == self.type_ && r.output == self.output && r.out_dir == self.out_dir
                && r.paths == self.paths && r.target_triple == self.target_triple && r.libraries == self.libraries
                && r.emit == self.emit && r.message_format == self.message_format,
    {
        let mut c = self;
        c.name = Some(string_of(name));
        c
    }

    fn type_(self, build_type: BuildType) -> (r: Self)
        ensures
            r.type_ == Some(build_type),
            r.input == self.input && r.name == self.name && r.output == self.output && r.out_dir == self.out_dir
                && r.paths == self.paths && r.target_triple == self.target_triple && r.libraries == self.libraries
                && r.emit == self.emit && r.message_format == self.message_format,
    {
        let mut c = self;
        c.type_ = Some(build_type);
        c
    }

    fn output(self, output: &str) -> (r: Self)
        ensures
            r.output is Some && r.output->0@ == output@,
            r.input == self.input && r.name == self.name && r.type_ == self.type_ && r.out_dir == self.out_dir
                && r.paths == self.paths && r.target_triple == self.target_triple && r.libraries == self.libraries
                && r.emit == self.emit && r.message_format == self.message_format,
    {
        let mut c = self;
        c.output = Some(string_of(output));
        c
    }

    fn out_dir(self, out_dir: &str) -> (r: Self)
        ensures
            r.out_dir is Some && r.out_dir->0@ == out_dir@,
            r.input == self.input && r.name == self.name && r.type_ == self.type_ && r.output == self.output
                && r.paths == self.paths && r.target_triple == self.target_triple && r.libraries == self.libraries
                && r.emit == self.emit && r.message_format == self.message_format,
    {
        let mut c = self;
        c.out_dir = Some(string_of(out_dir));
        c
    }

    fn path(self, path: &str) -> (r: Self)
        ensures
            r.paths@.map_values(|s: String| s@) == self.paths@.map_values(|s: String| s@).push(path@),
            r.input == self.input && r.name == self.name && r.type_ == self.type_ && r.output == self.output
                && r.out_dir == self.out_dir && r.target_triple == self.target_triple && r.libraries == self.libraries
                && r.emit == self.emit && r.message_format == self.message_format,
    {
        let mut c = self;
        let s = string_of(path);
        c.paths.push(s);
        assert(c.paths@.map_values(|s: String| s@) =~= self.paths@.map_values(|s: String| s@).push(path@));
        c
    }

    fn paths(self, paths: &[&str]) -> (r: Self)
        ensures
            r.paths@.map_values(|s: String| s@) == self.paths@.map_values(|s: String| s@) + paths@.map_values(|s: &str| s@),
            r.input == self.input && r.name == self.name && r.type_ == self.type_ && r.output == self.output
                && r.out_dir == self.out_dir && r.target_triple == self.target_triple && r.libraries == self.libraries
                && r.emit == self.emit && r.message_format == self.message_format,
    {
        let mut c = self;
        push_all(&mut c.paths, paths);
        c
    }

    fn target_triple(self, target_triple: &str) -> (r: Self)
        ensures
            r.target_triple is Some && r.target_triple->0@ == target_triple@,
            r.input == self.input && r.name == self.name && r.type_ == self.type_ && r.output == self.output
                && r.out_dir == self.out_dir && r.paths == self.paths && r.libraries == self.libraries
                && r.emit == self.emit && r.message_format == self.message_format,
    {
        let mut c = self;
        c.target_triple = Some(string_of(target_triple));
        c
    }

    fn library(self, library: &str) -> (r: Self)
        ensures
            r.libraries@.map_values(|s: String| s@) == self.libraries@.map_values(|s: String| s@).push(library@),
            r.input == self.input && r.name == self.name && r.type_ == self.type_ && r.output == self.output
                && r.out_dir == self.out_dir && r.paths == self.paths && r.target_triple == self.target_triple
                && r.emit == self.emit && r.message_format == self.message_format,
    {
        let mut c = self;
        let s = string_of(library);
        c.libraries.push(s);
        assert(c.libraries@.map_values(|s: String| s@) =~= self.libraries@.map_values(|s: String| s@).push(library@));
        c
    }

    fn libraries(self, libraries: &[&str]) -> (r: Self)
        ensures
            r.libraries@.map_values(|s: String| s@) == self.libraries@.map_values(|s: String| s@) + libraries@.map_values(|s: &str| s@),
            r.input == self.input && r.name == self.name && r.type_ == self.type_ && r.output == self.output
                && r.out_dir == self.out_dir && r.paths == self.paths && r.target_triple == self.target_triple
                && r.emit == self.emit && r.message_format == self.message_format,
    {
        let mut c = self;
        push_all(&mut c.libraries, libraries);
        c
    }

    fn emit(self, emit: &str) -> (r: Self)
        ensures
            r.emit is Some && r.emit->0@ == emit@,
            r.input == self.input && r.name == self.name && r.type_ == self.type_ && r.output == self.output
                && r.out_dir == self.out_dir && r.paths == self.paths && r.target_triple == self.target_triple
                && r.libraries == self.libraries && r.message_format == self.message_format,
    {
        let mut c = self;
        c.emit = Some(string_of(emit));
        c
    }

    fn message_format(self, message_format: MessageFormat) -> (r: Self)
        ensures
            r.message_format == Some(message_format),
            r.input == self.input && r.name == self.name && r.type_ == self.type_ && r.output == self.output
                && r.out_dir == self.out_dir && r.paths == self.paths && r.target_triple == self.target_triple
                && r.libraries == self.libraries && r.emit == self.emit,
    {
        let mut c = self;
        c.message_format = Some(message_format);
        c
    }

    /// The command-line arguments that give this configuration.
    fn as_args(&self) -> (r: Vec<&str>)
        ensures
            r@.map_values(|s: &str| s@) == args_of(*self),
    {
        let mut args: Vec<&str> = Vec::new();
        args.push(self.input.as_str());
        let ghost mut expect: Seq<Seq<char>> = seq![self.input@];
        assert(args@.map_values(|s: &str| s@) =~= expect);
        if let Some(out_dir) = &self.out_dir {
            args.push("--out-dir");
            args.push(out_dir.as_str());
        }
        proof {
            expect = expect + (if self.out_dir is Some { seq!["--out-dir"@, self.out_dir->0@] } else { seq![] });
        }
        assert(args@.map_values(|s: &str| s@) =~= expect);
        if let Some(name) = &self.name {
            args.push("--name");
            args.push(name.as_str());
        }
        proof {
            expect = expect + (if self.name is Some { seq!["--name"@, self.name->0@] } else { seq![] });
        }
        assert(args@.map_values(|s: &str| s@) =~= expect);
        if let Some(type_) = self.type_ {
            args.push("--type");
            args.push(type_.as_str());
        }
        proof {
            expect = expect + (if self.type_ is Some { seq!["--type"@, build_type_name(self.type_->0)] } else { seq![] });
        }
        assert(args@.map_values(|s: &str| s@) =~= expect);
        let ghost base = expect;
        let mut i: usize = 0;
        while i < self.libraries.len()
            invariant
                i <= self.libraries@.len(),
                args@.map_values(|s: &str| s@) == base + library_args(self.libraries@.take(i as int)),
            decreases self.libraries@.len() - i,
        {
            let ghost before = args@;
            let lib = self.libraries[i].as_str();
            args.push("--library");
            args.push(lib);
            assert(self.libraries@.take(i + 1).drop_last() =~= self.libraries@.take(i as int));
            assert(self.libraries@.take(i + 1).last() == self.libraries@[i as int]);
            assert(args@ == before.push("--library").push(lib));
            assert(args@.map_values(|s: &str| s@) =~= before.map_values(|s: &str| s@) + seq!["--library"@, lib@]);
            assert(args@.map_values(|s: &str| s@) =~= base + library_args(self.libraries@.take(i + 1)));
            i = i + 1;
        }
        assert(self.libraries@.take(self.libraries@.len() as int) =~= self.libraries@);
        proof {
            expect = base + library_args(self.libraries@);
        }
        if let Some(target_triple) = &self.target_triple {
            args.push("--target-triple");
            args.push(target_triple.as_str());
        }
        proof {
            expect = expect + (if self.target_triple is Some { seq!["--target-triple"@, self.target_triple->0@] } else { seq![] });
        }
        assert(args@.map_values(|s: &str| s@) =~= expect);
        if let Some(message_format) = &self.message_format {
            args.push("--message-format");
            args.push(message_format.as_str());
        }
        assert(args@.map_values(|s: &str| s@) =~= args_of(*self));
        args
    }
}

} // verus!
