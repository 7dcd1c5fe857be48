//! The files `ordo new` and `ordo init` create: the manifest, a starting
//! source, header and test, and what is shown of the new project.
use vstd::prelude::*;
use crate::cli::ProjectLang;
use crate::features::{to_uppercase, uppercase};
use crate::manifest::{package_type_name, PackageType};
use crate::text::{contains_str, str_eq, strs};

verus! {

/// A file of a new project: its path under the project's directory, and
/// what it holds.
#[derive(Debug)]
pub struct ProjectFile {
    pub path: String,
    pub content: String,
}

pub open spec fn files_view(v: Seq<ProjectFile>) -> Seq<(Seq<char>, Seq<char>)> {
    v.map_values(|f: ProjectFile| (f.path@, f.content@))
}

/// Source and header extensions of a language.
pub open spec fn src_ext(lang: ProjectLang) -> Seq<char> {
    match lang {
        ProjectLang::C => "c"@,
        ProjectLang::Cpp => "cpp"@,
    }
}

pub open spec fn hdr_ext(lang: ProjectLang) -> Seq<char> {
    match lang {
        ProjectLang::C => "h"@,
        ProjectLang::Cpp => "hpp"@,
    }
}

fn exts(lang: ProjectLang) -> (r: (&'static str, &'static str))
    ensures
        r.0@ == src_ext(lang),
        r.1@ == hdr_ext(lang),
{
    match lang {
        ProjectLang::C => ("c", "h"),
        ProjectLang::Cpp => ("cpp", "hpp"),
    }
}

/// The manifest of a new project.
pub open spec fn new_manifest(name: Seq<char>, package_type: Seq<char>, lang: ProjectLang) -> Seq<char> {
    "[package]\nname = \""@ + name + "\"\nversion = \"0.1.0\"\ntype = \""@ + package_type + "\"\n"@ + (
    match lang {
        ProjectLang::C => "\n[language]\nc = \"c23\"\n"@,
        ProjectLang::Cpp => "\n[language]\ncpp = \"c++20\"\n"@,
    })
}

pub fn manifest_text(name: &str, package_type: &str, lang: ProjectLang) -> (r: String)
    ensures
        r@ == new_manifest(name@, package_type@, lang),
{
    let mut r = "[package]\nname = \"".to_string();
    r.append(name);
    r.append("\"\nversion = \"0.1.0\"\ntype = \"");
    r.append(package_type);
    r.append("\"\n");
    match lang {
        ProjectLang::C => r.append("\n[language]\nc = \"c23\"\n"),
        ProjectLang::Cpp => r.append("\n[language]\ncpp = \"c++20\"\n"),
    }
    assert(r@ =~= new_manifest(name@, package_type@, lang));
    r
}

/// The include guard of a library's header: the name upper-cased, with
/// `-` turned into `_`.
pub open spec fn guard_of(name: Seq<char>) -> Seq<char> {
    uppercase(name).map_values(|c: char| if c == '-' { '_' } else { c })
}

pub fn header_guard(name: &str) -> (r: String)
    ensures
        r@ == guard_of(name@),
{
    let up = to_uppercase(name);
    let mut r = String::new();
    let mut i: usize = 0;
    let n = up.as_str().unicode_len();
    while i < n
        invariant
            i <= n == up@.len(),
            up@ == uppercase(name@),
            r@ == up@.take(i as int).map_values(|c: char| if c == '-' { '_' } else { c }),
        decreases n - i,
    {
        let c = up.as_str().get_char(i);
        let d = if c == '-' {
            '_'
        } else {
            c
        };
        crate::text::push_char(&mut r, d);
        assert(up@.take(i + 1) =~= up@.take(i as int).push(c));
        assert(r@ =~= up@.take(i + 1).map_values(|c: char| if c == '-' { '_' } else { c }));
        i += 1;
    }
    assert(up@.take(n as int) =~= up@);
    r
}

/// `src/main.*` of a new executable.
pub open spec fn main_source(lang: ProjectLang) -> Seq<char> {
    match lang {
        ProjectLang::C => "#include <stdio.h>\n\nint main(void) {\n    printf(\"Hello, world!\\n\");\n    return 0;\n}\n"@,
        ProjectLang::Cpp => "#include <iostream>\n\nint main() {\n    std::cout << \"Hello, world!\" << std::endl;\n    return 0;\n}\n"@,
    }
}

/// `tests/main_test.*` of a new executable.
pub open spec fn main_test(name: Seq<char>, lang: ProjectLang) -> Seq<char> {
    match lang {
        ProjectLang::C => "#include <assert.h>\n\nint main(void) {\n    /* "@ + name
            + " tests */\n    assert(1 + 1 == 2);\n    return 0;\n}\n"@,
        ProjectLang::Cpp => "#include <cassert>\n\nint main() {\n    // "@ + name
            + " tests\n    assert(1 + 1 == 2);\n    return 0;\n}\n"@,
    }
}

/// The header of a new library.
pub open spec fn library_header(name: Seq<char>, guard: Seq<char>, lang: ProjectLang) -> Seq<char> {
    match lang {
        ProjectLang::C => "#ifndef "@ + guard + "_H\n#define "@ + guard + "_H\n\nint "@ + name
            + "_version(void);\n\n#endif /* "@ + guard + "_H */\n"@,
        ProjectLang::Cpp => "#ifndef "@ + guard + "_HPP\n#define "@ + guard + "_HPP\n\nnamespace "@ + name
            + " {\n\nint version();\n\n} // namespace "@ + name + "\n\n#endif // "@ + guard + "_HPP\n"@,
    }
}

/// The source of a new library.
pub open spec fn library_source(name: Seq<char>, lang: ProjectLang) -> Seq<char> {
    match lang {
        ProjectLang::C => "#include \""@ + name + "/"@ + name + ".h\"\n\nint "@ + name
            + "_version(void) {\n    return 1;\n}\n"@,
        ProjectLang::Cpp => "#include \""@ + name + "/"@ + name + ".hpp\"\n\nnamespace "@ + name
            + " {\n\nint version() {\n    return 1;\n}\n\n} // namespace "@ + name + "\n"@,
    }
}

/// The test of a new library.
pub open spec fn library_test(name: Seq<char>, lang: ProjectLang) -> Seq<char> {
    match lang {
        ProjectLang::C => "#include <assert.h>\n#include \""@ + name + "/"@ + name
            + ".h\"\n\nint main(void) {\n    assert("@ + name + "_version() == 1);\n    return 0;\n}\n"@,
        ProjectLang::Cpp => "#include <cassert>\n#include \""@ + name + "/"@ + name
            + ".hpp\"\n\nint main() {\n    assert("@ + name + "::version() == 1);\n    return 0;\n}\n"@,
    }
}

/// Every file of a new project, in the order written: the manifest, the
/// sources (header, source and test of a library; main and its test of an
/// executable), then `.gitignore`.
pub open spec fn new_project_files(name: Seq<char>, lib: bool, lang: ProjectLang) -> Seq<
    (Seq<char>, Seq<char>),
> {
    let ext = src_ext(lang);
    let body = if lib {
        seq![
            ("Ordo.toml"@, new_manifest(name, "static-library"@, lang)),
            ("include/"@ + name + "/"@ + name + "."@ + hdr_ext(lang), library_header(name, guard_of(name), lang)),
            ("src/"@ + name + "."@ + ext, library_source(name, lang)),
            ("tests/"@ + name + "_test."@ + ext, library_test(name, lang)),
        ]
    } else {
        seq![
            ("Ordo.toml"@, new_manifest(name, "executable"@, lang)),
            ("src/main."@ + ext, main_source(lang)),
            ("tests/main_test."@ + ext, main_test(name, lang)),
        ]
    };
    body.push((".gitignore"@, "target/\n"@))
}

/// The files of a new project lie at distinct paths, so none is written
/// over another.
pub proof fn lemma_project_paths_distinct(name: Seq<char>, lib: bool, lang: ProjectLang)
    ensures
        forall|i: int, j: int|
            0 <= i < j < new_project_files(name, lib, lang).len() ==> new_project_files(name, lib, lang)[i].0
                != new_project_files(name, lib, lang)[j].0,
{
    reveal_strlit("Ordo.toml");
    reveal_strlit("include/");
    reveal_strlit("src/");
    reveal_strlit("tests/");
    reveal_strlit(".gitignore");
    reveal_strlit("src/main.");
    reveal_strlit("tests/main_test.");
    let f = new_project_files(name, lib, lang);
    assert forall|i: int, j: int| 0 <= i < j < f.len() implies f[i].0 != f[j].0 by {
        assert(f[i].0[0] != f[j].0[0]);
    }
}

fn file(path: String, content: String) -> (f: ProjectFile)
    ensures
        f.path@ == path@,
        f.content@ == content@,
{
    ProjectFile { path, content }
}

fn main_source_text(lang: ProjectLang) -> (r: String)
    ensures
        r@ == main_source(lang),
{
    match lang {
        ProjectLang::C => "#include <stdio.h>\n\nint main(void) {\n    printf(\"Hello, world!\\n\");\n    return 0;\n}\n".to_string(),
        ProjectLang::Cpp => "#include <iostream>\n\nint main() {\n    std::cout << \"Hello, world!\" << std::endl;\n    return 0;\n}\n".to_string(),
    }
}

fn main_test_text(name: &str, lang: ProjectLang) -> (r: String)
    ensures
        r@ == main_test(name@, lang),
{
    let mut r = String::new();
    match lang {
        ProjectLang::C => {
            r.append("#include <assert.h>\n\nint main(void) {\n    /* ");
            r.append(name);
            r.append(" tests */\n    assert(1 + 1 == 2);\n    return 0;\n}\n");
        },
        ProjectLang::Cpp => {
            r.append("#include <cassert>\n\nint main() {\n    // ");
            r.append(name);
            r.append(" tests\n    assert(1 + 1 == 2);\n    return 0;\n}\n");
        },
    }
    assert(r@ =~= main_test(name@, lang));
    r
}

fn library_header_text(name: &str, guard: &str, lang: ProjectLang) -> (r: String)
    ensures
        r@ == library_header(name@, guard@, lang),
{
    let mut r = "#ifndef ".to_string();
    r.append(guard);
    match lang {
        ProjectLang::C => {
            r.append("_H\n#define ");
            r.append(guard);
            r.append("_H\n\nint ");
            r.append(name);
            r.append("_version(void);\n\n#endif /* ");
            r.append(guard);
            r.append("_H */\n");
        },
        ProjectLang::Cpp => {
            r.append("_HPP\n#define ");
            r.append(guard);
            r.append("_HPP\n\nnamespace ");
            r.append(name);
            r.append(" {\n\nint version();\n\n} // namespace ");
            r.append(name);
            r.append("\n\n#endif // ");
            r.append(guard);
            r.append("_HPP\n");
        },
    }
    assert(r@ =~= library_header(name@, guard@, lang));
    r
}

fn library_source_text(name: &str, lang: ProjectLang) -> (r: String)
    ensures
        r@ == library_source(name@, lang),
{
    let mut r = "#include \"".to_string();
    r.append(name);
    r.append("/");
    r.append(name);
    match lang {
        ProjectLang::C => {
            r.append(".h\"\n\nint ");
            r.append(name);
            r.append("_version(void) {\n    return 1;\n}\n");
        },
        ProjectLang::Cpp => {
            r.append(".hpp\"\n\nnamespace ");
            r.append(name);
            r.append(" {\n\nint version() {\n    return 1;\n}\n\n} // namespace ");
            r.append(name);
            r.append("\n");
        },
    }
    assert(r@ =~= library_source(name@, lang));
    r
}

fn library_test_text(name: &str, lang: ProjectLang) -> (r: String)
    ensures
        r@ == library_test(name@, lang),
{
    let mut r = String::new();
    match lang {
        ProjectLang::C => r.append("#include <assert.h>\n#include \""),
        ProjectLang::Cpp => r.append("#include <cassert>\n#include \""),
    }
    r.append(name);
    r.append("/");
    r.append(name);
    match lang {
        ProjectLang::C => {
            r.append(".h\"\n\nint main(void) {\n    assert(");
            r.append(name);
            r.append("_version() == 1);\n    return 0;\n}\n");
        },
        ProjectLang::Cpp => {
            r.append(".hpp\"\n\nint main() {\n    assert(");
            r.append(name);
            r.append("::version() == 1);\n    return 0;\n}\n");
        },
    }
    assert(r@ =~= library_test(name@, lang));
    r
}

fn path_of(parts: &[&str]) -> (r: String)
    ensures
        r@ == parts@.fold_left(Seq::<char>::empty(), |acc: Seq<char>, p: &str| acc + p@),
{
    let mut r = String::new();
    let mut i: usize = 0;
    while i < parts.len()
        invariant
            i <= parts@.len(),
            r@ == parts@.take(i as int).fold_left(Seq::<char>::empty(), |acc: Seq<char>, p: &str| acc + p@),
        decreases parts.len() - i,
    {
        let ghost before = r@;
        r.append(parts[i]);
        proof {
            let f = |acc: Seq<char>, p: &str| acc + p@;
            assert(parts@.take(i + 1).drop_last() =~= parts@.take(i as int));
        }
        i += 1;
    }
    assert(parts@.take(parts@.len() as int) =~= parts@);
    r
}

/// The files of a new project named `name`.
pub fn project_files(name: &str, lib: bool, lang: ProjectLang) -> (r: Vec<ProjectFile>)
    ensures
        files_view(r@) == new_project_files(name@, lib, lang),
{
    let (ext, hdr) = exts(lang);
    let mut r: Vec<ProjectFile> = Vec::new();
    if lib {
        let guard = header_guard(name);
        r.push(file("Ordo.toml".to_string(), manifest_text(name, "static-library", lang)));
        let hp = path_of(&["include/", name, "/", name, ".", hdr]);
        r.push(file(hp, library_header_text(name, guard.as_str(), lang)));
        let sp = path_of(&["src/", name, ".", ext]);
        r.push(file(sp, library_source_text(name, lang)));
        let tp = path_of(&["tests/", name, "_test.", ext]);
        r.push(file(tp, library_test_text(name, lang)));
        proof {
            reveal_with_fuel(Seq::fold_left, 7);
        }
        assert(hp@ =~= "include/"@ + name@ + "/"@ + name@ + "."@ + hdr_ext(lang));
        assert(sp@ =~= "src/"@ + name@ + "."@ + src_ext(lang));
        assert(tp@ =~= "tests/"@ + name@ + "_test."@ + src_ext(lang));
    } else {
        r.push(file("Ordo.toml".to_string(), manifest_text(name, "executable", lang)));
        let sp = path_of(&["src/main.", ext]);
        r.push(file(sp, main_source_text(lang)));
        let tp = path_of(&["tests/main_test.", ext]);
        r.push(file(tp, main_test_text(name, lang)));
        proof {
            reveal_with_fuel(Seq::fold_left, 3);
        }
        assert(sp@ =~= "src/main."@ + src_ext(lang));
        assert(tp@ =~= "tests/main_test."@ + src_ext(lang));
    }
    r.push(file(".gitignore".to_string(), "target/\n".to_string()));
    assert(files_view(r@) =~= new_project_files(name@, lib, lang));
    r
}

/// The layout shown after `ordo new`, one line each, under the directory's
/// name.
pub open spec fn new_project_tree(dir: Seq<char>, lib: bool, lang: ProjectLang) -> Seq<Seq<char>> {
    let ext = src_ext(lang);
    if lib {
        seq![
            dir + "/"@,
            "├── Ordo.toml"@,
            "├── include/"@,
            "│   └── "@ + dir + "/"@,
            "│       └── "@ + dir + "."@ + hdr_ext(lang),
            "├── src/"@,
            "│   └── "@ + dir + "."@ + ext,
            "├── tests/"@,
            "│   └── "@ + dir + "_test."@ + ext,
            "└── .gitignore"@,
        ]
    } else {
        seq![
            dir + "/"@,
            "├── Ordo.toml"@,
            "├── src/"@,
            "│   └── main."@ + ext,
            "├── tests/"@,
            "│   └── main_test."@ + ext,
            "└── .gitignore"@,
        ]
    }
}

fn push_line(r: &mut Vec<String>, s: String)
    ensures
        strs(final(r)@) == strs(old(r)@).push(s@),
{
    let ghost before = strs(r@);
    r.push(s);
    assert(strs(r@) =~= before.push(s@));
}

pub fn project_tree(dir_name: &str, lib: bool, lang: ProjectLang) -> (r: Vec<String>)
    ensures
        strs(r@) == new_project_tree(dir_name@, lib, lang),
{
    let (ext, hdr) = exts(lang);
    let mut r: Vec<String> = Vec::new();
    push_line(&mut r, path_of(&[dir_name, "/"]));
    push_line(&mut r, "├── Ordo.toml".to_string());
    if lib {
        push_line(&mut r, "├── include/".to_string());
        push_line(&mut r, path_of(&["│   └── ", dir_name, "/"]));
        push_line(&mut r, path_of(&["│       └── ", dir_name, ".", hdr]));
        push_line(&mut r, "├── src/".to_string());
        push_line(&mut r, path_of(&["│   └── ", dir_name, ".", ext]));
        push_line(&mut r, "├── tests/".to_string());
        push_line(&mut r, path_of(&["│   └── ", dir_name, "_test.", ext]));
    } else {
        push_line(&mut r, "├── src/".to_string());
        push_line(&mut r, path_of(&["│   └── main.", ext]));
        push_line(&mut r, "├── tests/".to_string());
        push_line(&mut r, path_of(&["│   └── main_test.", ext]));
    }
    push_line(&mut r, "└── .gitignore".to_string());
    proof {
        reveal_with_fuel(Seq::fold_left, 5);
    }
    assert(strs(r@) =~= new_project_tree(dir_name@, lib, lang));
    r
}

/// What `ordo new` reports: `C++ executable project `name``.
pub open spec fn created_text(name: Seq<char>, lib: bool, lang: ProjectLang) -> Seq<char> {
    (match lang {
        ProjectLang::C => "C"@,
        ProjectLang::Cpp => "C++"@,
    }) + " "@ + (if lib {
        "library"@
    } else {
        "executable"@
    }) + " project `"@ + name + "`"@
}

pub fn created_message(name: &str, lib: bool, lang: ProjectLang) -> (r: String)
    ensures
        r@ == created_text(name@, lib, lang),
{
    let label = match lang {
        ProjectLang::C => "C",
        ProjectLang::Cpp => "C++",
    };
    let kind = if lib {
        "library"
    } else {
        "executable"
    };
    let r = path_of(&[label, " ", kind, " project `", name, "`"]);
    proof {
        reveal_with_fuel(Seq::fold_left, 7);
    }
    assert(r@ =~= created_text(name@, lib, lang));
    r
}

/// The package type `ordo init` gives a directory: an executable when its
/// `src` holds `main.cpp`, `main.c` or `main.cc`, else a static library.
pub open spec fn init_type(src_files: Seq<Seq<char>>) -> PackageType {
    if src_files.contains("main.cpp"@) || src_files.contains("main.c"@) || src_files.contains("main.cc"@) {
        PackageType::Executable
    } else {
        PackageType::StaticLibrary
    }
}

/// `src_files` are the names of the files in the directory's `src`.
pub fn init_package_type(src_files: &Vec<String>) -> (r: PackageType)
    ensures
        r == init_type(strs(src_files@)),
{
    if contains_str(src_files, "main.cpp") || contains_str(src_files, "main.c") || contains_str(
        src_files,
        "main.cc",
    ) {
        PackageType::Executable
    } else {
        PackageType::StaticLibrary
    }
}

/// The manifest `ordo init` writes.
pub open spec fn init_manifest(name: Seq<char>, t: PackageType) -> Seq<char> {
    "[package]\nname = \""@ + name + "\"\nversion = \"0.1.0\"\ntype = \""@ + package_type_name(t) + "\"\n"@
}

pub fn init_manifest_text(name: &str, package_type: PackageType) -> (r: String)
    ensures
        r@ == init_manifest(name@, package_type),
{
    let t = package_type.name();
    let r = path_of(&["[package]\nname = \"", name, "\"\nversion = \"0.1.0\"\ntype = \"", t, "\"\n"]);
    proof {
        reveal_with_fuel(Seq::fold_left, 6);
    }
    assert(r@ =~= init_manifest(name@, package_type));
    r
}

} // verus!
