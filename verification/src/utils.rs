use crate::cli::{emit_name, BuildType, Emit};
use crate::text::{append_str, string_of};
use std::path::Path;
use vstd::prelude::*;

verus! {

/// The position of the last `c` in `s`, or -1 when there is none.
pub open spec fn last_index_of(s: Seq<char>, c: char) -> int
    decreases s.len(),
{
    if s.len() == 0 {
        -1
    } else if s.last() == c {
        s.len() - 1
    } else {
        last_index_of(s.drop_last(), c)
    }
}

/// The last position of `c` lies in `s`.
pub proof fn lemma_last_index_bounds(s: Seq<char>, c: char)
    ensures
        -1 <= last_index_of(s, c) < s.len(),
        last_index_of(s, c) >= 0 ==> s[last_index_of(s, c)] == c,
        forall|j: int| last_index_of(s, c) < j < s.len() ==> s[j] != c,
    decreases s.len(),
{
    if s.len() > 0 && s.last() != c {
        lemma_last_index_bounds(s.drop_last(), c);
        assert forall|j: int| last_index_of(s, c) < j < s.len() implies s[j] != c by {
            if j < s.len() - 1 {
                assert(s.drop_last()[j] == s[j]);
            }
        }
    }
}

/// The final component of a path, as `Path::file_name` reads it on Unix:
/// separators at the end and `.` components are passed over; a path whose
/// last component is `..`, the root or the current directory, and the empty
/// path, have none.
pub open spec fn file_name_of(p: Seq<char>) -> Option<Seq<char>>
    decreases p.len(),
{
    if p.len() == 0 {
        None
    } else if p.last() == '/' {
        file_name_of(p.drop_last())
    } else {
        proof {
            lemma_last_index_bounds(p, '/');
        }
        let k = last_index_of(p, '/');
        let seg = p.subrange(k + 1, p.len() as int);
        if seg == "."@ {
            if k < 0 {
                None
            } else {
                file_name_of(p.subrange(0, k + 1))
            }
        } else if seg == ".."@ {
            None
        } else {
            Some(seg)
        }
    }
}

/// The stem of a file name: what comes before its last `.`, or the whole
/// name when it has no `.` but at its start.
pub open spec fn stem_of_name(name: Seq<char>) -> Seq<char> {
    let d = last_index_of(name, '.');
    if d <= 0 {
        name
    } else {
        name.subrange(0, d)
    }
}

/// What `Path::file_stem` gives for the path `path` on Unix: the stem of its
/// final component, if it has one.
pub open spec fn file_stem_of(path: Seq<char>) -> Option<Seq<char>> {
    match file_name_of(path) {
        Some(n) => Some(stem_of_name(n)),
        None => None,
    }
}

/// `Path::file_stem` of the path `path`, read back as text: the stem of the
/// final component, as `file_stem_of` states it for Unix paths. Splitting
/// happens at the ASCII characters `/` and `.`, so the stem is always valid
/// text.
#[verifier::external_body]
fn path_file_stem(path: &str) -> (r: Option<&str>)
    ensures
        (match r {
            Some(s) => Some(s@),
            None => None,
        }) == file_stem_of(path@),
{
    Path::new(path).file_stem().and_then(|s| s.to_str())
}

/// The page name given a file stem: the stem, or empty when there is none.
pub fn page_name_of_stem(stem: Option<&str>) -> (r: &str)
    ensures
        r@ == (match stem {
            Some(s) => s@,
            None => Seq::<char>::empty(),
        }),
{
    match stem {
        Some(s) => s,
        None => {
            proof {
                reveal_strlit("");
            }
            ""
        },
    }
}

/// The page name of a source path: its file stem, or empty when it has none.
pub fn path_string_to_page_name(path: &str) -> (r: &str)
    ensures
        r@ == (match file_stem_of(path@) {
            Some(s) => s,
            None => Seq::<char>::empty(),
        }),
{
    page_name_of_stem(path_file_stem(path))
}

/// `base` with `part` appended as a further path component: a separator is
/// put between them unless `base` is empty or already ends in one.
pub open spec fn join_path(base: Seq<char>, part: Seq<char>) -> Seq<char> {
    if base.len() == 0 || base.last() == '/' {
        base + part
    } else {
        base + seq!['/'] + part
    }
}

/// Appends the relative component `part` to the path `base`.
pub fn push_component(base: &mut String, part: &str)
    ensures
        final(base)@ == join_path(old(base)@, part@),
{
    let n = base.as_str().unicode_len();
    if n > 0 && base.as_str().get_char(n - 1) != '/' {
        append_str(base, "/");
        proof {
            reveal_strlit("/");
        }
    }
    append_str(base, part);
    proof {
        assert(old(base)@.len() == n);
    }
}

/// The directory holding the builtin libraries, below the home directory
/// `home`: `home/.wiz/lib/src`.
pub fn get_builtin_find_path(home: &str) -> (r: String)
    ensures
        r@ == join_path(join_path(join_path(home@, ".wiz"@), "lib"@), "src"@),
{
    let mut p = string_of(home);
    push_component(&mut p, ".wiz");
    push_component(&mut p, "lib");
    push_component(&mut p, "src");
    p
}

/// The directories searched for libraries when no library is given: the
/// builtin one below `home`.
pub fn get_find_paths(home: &str) -> (r: Vec<String>)
    ensures
        r@.len() == 1,
        r@[0]@ == join_path(join_path(join_path(home@, ".wiz"@), "lib"@), "src"@),
{
    let mut r: Vec<String> = Vec::new();
    r.push(get_builtin_find_path(home));
    r
}

/// The extension given to a compilation's output: `wlib` for a library,
/// otherwise `ll`, `asm` or `o` for LLVM IR, assembly or an object file,
/// and none for a binary.
pub open spec fn output_extension_of(build_type: BuildType, emit: Emit) -> Option<Seq<char>> {
    if build_type == BuildType::Library {
        Some("wlib"@)
    } else {
        match emit {
            Emit::LlvmIr => Some("ll"@),
            Emit::Assembly => Some("asm"@),
            Emit::Object => Some("o"@),
            Emit::Binary => None,
        }
    }
}

/// The extension of the output of a compilation of type `build_type` that
/// emits `emit`.
pub fn output_extension(build_type: BuildType, emit: Emit) -> (r: Option<&'static str>)
    ensures
        (match r {
            Some(x) => Some(x@),
            None => None,
        }) == output_extension_of(build_type, emit),
{
    proof {
        reveal_strlit("wlib");
        reveal_strlit("ll");
        reveal_strlit("asm");
        reveal_strlit("o");
    }
    match build_type {
        BuildType::Library => Some("wlib"),
        _ => match emit {
            Emit::LlvmIr => Some("ll"),
            Emit::Assembly => Some("asm"),
            Emit::Object => Some("o"),
            Emit::Binary => None,
        },
    }
}

/// The file name, before its extension, of a compilation's output: the
/// name given, or else, for a library, nothing, and otherwise the file stem
/// of the input.
pub fn output_stem<'a>(build_type: BuildType, name: Option<&'a str>, input: &'a str) -> (r: &'a str)
    ensures
        r@ == (match name {
            Some(n) => n@,
            None => if build_type == BuildType::Library {
                Seq::<char>::empty()
            } else {
                match file_stem_of(input@) {
                    Some(s) => s,
                    None => Seq::<char>::empty(),
                }
            },
        }),
{
    match name {
        Some(n) => n,
        None => match build_type {
            BuildType::Library => {
                proof {
                    reveal_strlit("");
                }
                ""
            },
            _ => path_string_to_page_name(input),
        },
    }
}

/// The output of a compilation that emits assembly or an object file takes
/// an extension derived from the kind's name on the command line: assembly
/// keeps its name, `asm`, and an object file its first letter, `o`; a
/// library is always a `wlib`, a binary has no extension, and two kinds of
/// output never share an extension.
pub proof fn law_output_extension_follows_emit_names(b: BuildType, e1: Emit, e2: Emit)
    ensures
        b != BuildType::Library ==> output_extension_of(b, Emit::Assembly) == Some(emit_name(Emit::Assembly)),
        b != BuildType::Library ==> output_extension_of(b, Emit::Object) == Some(emit_name(Emit::Object).take(1)),
        b != BuildType::Library ==> output_extension_of(b, Emit::Binary) is None,
        output_extension_of(BuildType::Library, e1) == Some("wlib"@),
        b != BuildType::Library && e1 != e2 ==> output_extension_of(b, e1) != output_extension_of(b, e2),
{
    reveal_strlit("asm");
    reveal_strlit("ll");
    reveal_strlit("o");
    reveal_strlit("object");
    assert("object"@.take(1) =~= "o"@);
    assert("ll"@ != "asm"@) by {
        assert("ll"@.len() != "asm"@.len());
    }
    assert("ll"@ != "o"@) by {
        assert("ll"@.len() != "o"@.len());
    }
    assert("asm"@ != "o"@) by {
        assert("asm"@.len() != "o"@.len());
    }
}

} // verus!
