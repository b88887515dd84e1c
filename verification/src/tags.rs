//! The file type tags that `types`, `types_or` and `exclude_types` accept:
//! the tags of the `identify` file classification that pre-commit uses
//! (kinds of file such as `file`, `text`, `executable`, and file types by
//! extension, name and interpreter), in alphabetical order after the kinds.

use vstd::prelude::*;

use crate::text::{owned, string_views};

verus! {
/// Tags 1 to 28 of the known tags, in order.
pub open spec fn tag_group_0() -> Seq<Seq<char>> {
    seq![
        "file"@,
        "directory"@,
        "symlink"@,
        "socket"@,
        "executable"@,
        "non-executable"@,
        "text"@,
        "binary"@,
        "adobe-illustrator"@,
        "alpm"@,
        "asar"@,
        "asciidoc"@,
        "asm"@,
        "audio"@,
        "awk"@,
        "bash"@,
        "batch"@,
        "bazel"@,
        "bib"@,
        "bitmap"@,
        "c"@,
        "c#"@,
        "c++"@,
        "c2hs"@,
        "cbsd"@,
        "cfg"@,
        "cmake"@,
        "coffee"@,
    ]
}

fn push_tag_group_0(tags: &mut Vec<String>)
    ensures
        string_views(final(tags)@) == string_views(old(tags)@) + tag_group_0(),
{
    let ghost start = string_views(tags@);
    tags.push(owned("file"));
    tags.push(owned("directory"));
    tags.push(owned("symlink"));
    tags.push(owned("socket"));
    tags.push(owned("executable"));
    tags.push(owned("non-executable"));
    tags.push(owned("text"));
    tags.push(owned("binary"));
    tags.push(owned("adobe-illustrator"));
    tags.push(owned("alpm"));
    tags.push(owned("asar"));
    tags.push(owned("asciidoc"));
    tags.push(owned("asm"));
    tags.push(owned("audio"));
    tags.push(owned("awk"));
    tags.push(owned("bash"));
    tags.push(owned("batch"));
    tags.push(owned("bazel"));
    tags.push(owned("bib"));
    tags.push(owned("bitmap"));
    tags.push(owned("c"));
    tags.push(owned("c#"));
    tags.push(owned("c++"));
    tags.push(owned("c2hs"));
    tags.push(owned("cbsd"));
    tags.push(owned("cfg"));
    tags.push(owned("cmake"));
    tags.push(owned("coffee"));
    assert(string_views(tags@) =~= start + tag_group_0());
}

/// Tags 29 to 56 of the known tags, in order.
pub open spec fn tag_group_1() -> Seq<Seq<char>> {
    seq![
        "conf"@,
        "crystal"@,
        "csh"@,
        "csproj"@,
        "css"@,
        "csv"@,
        "cuda"@,
        "cython"@,
        "dart"@,
        "dash"@,
        "diff"@,
        "dockerfile"@,
        "dockerignore"@,
        "dotenv"@,
        "dtd"@,
        "edn"@,
        "ejs"@,
        "elixir"@,
        "elm"@,
        "erlang"@,
        "expect"@,
        "fish"@,
        "fits"@,
        "font"@,
        "fortran"@,
        "fsharp"@,
        "gemfile"@,
        "gemspec"@,
    ]
}

fn push_tag_group_1(tags: &mut Vec<String>)
    ensures
        string_views(final(tags)@) == string_views(old(tags)@) + tag_group_1(),
{
    let ghost start = string_views(tags@);
    tags.push(owned("conf"));
    tags.push(owned("crystal"));
    tags.push(owned("csh"));
    tags.push(owned("csproj"));
    tags.push(owned("css"));
    tags.push(owned("csv"));
    tags.push(owned("cuda"));
    tags.push(owned("cython"));
    tags.push(owned("dart"));
    tags.push(owned("dash"));
    tags.push(owned("diff"));
    tags.push(owned("dockerfile"));
    tags.push(owned("dockerignore"));
    tags.push(owned("dotenv"));
    tags.push(owned("dtd"));
    tags.push(owned("edn"));
    tags.push(owned("ejs"));
    tags.push(owned("elixir"));
    tags.push(owned("elm"));
    tags.push(owned("erlang"));
    tags.push(owned("expect"));
    tags.push(owned("fish"));
    tags.push(owned("fits"));
    tags.push(owned("font"));
    tags.push(owned("fortran"));
    tags.push(owned("fsharp"));
    tags.push(owned("gemfile"));
    tags.push(owned("gemspec"));
    assert(string_views(tags@) =~= start + tag_group_1());
}

/// Tags 57 to 84 of the known tags, in order.
pub open spec fn tag_group_2() -> Seq<Seq<char>> {
    seq![
        "geojson"@,
        "gherkin"@,
        "gif"@,
        "gitattributes"@,
        "gitignore"@,
        "gitmodules"@,
        "go"@,
        "go-mod"@,
        "go-sum"@,
        "gotmpl"@,
        "gradle"@,
        "graphql"@,
        "groovy"@,
        "gyp"@,
        "gzip"@,
        "handlebars"@,
        "haskell"@,
        "hcl"@,
        "header"@,
        "hlsl"@,
        "html"@,
        "icalendar"@,
        "icns"@,
        "icon"@,
        "idl"@,
        "idris"@,
        "inc"@,
        "ini"@,
    ]
}

fn push_tag_group_2(tags: &mut Vec<String>)
    ensures
        string_views(final(tags)@) == string_views(old(tags)@) + tag_group_2(),
{
    let ghost start = string_views(tags@);
    tags.push(owned("geojson"));
    tags.push(owned("gherkin"));
    tags.push(owned("gif"));
    tags.push(owned("gitattributes"));
    tags.push(owned("gitignore"));
    tags.push(owned("gitmodules"));
    tags.push(owned("go"));
    tags.push(owned("go-mod"));
    tags.push(owned("go-sum"));
    tags.push(owned("gotmpl"));
    tags.push(owned("gradle"));
    tags.push(owned("graphql"));
    tags.push(owned("groovy"));
    tags.push(owned("gyp"));
    tags.push(owned("gzip"));
    tags.push(owned("handlebars"));
    tags.push(owned("haskell"));
    tags.push(owned("hcl"));
    tags.push(owned("header"));
    tags.push(owned("hlsl"));
    tags.push(owned("html"));
    tags.push(owned("icalendar"));
    tags.push(owned("icns"));
    tags.push(owned("icon"));
    tags.push(owned("idl"));
    tags.push(owned("idris"));
    tags.push(owned("inc"));
    tags.push(owned("ini"));
    assert(string_views(tags@) =~= start + tag_group_2());
}

/// Tags 85 to 112 of the known tags, in order.
pub open spec fn tag_group_3() -> Seq<Seq<char>> {
    seq![
        "inl"@,
        "ino"@,
        "inx"@,
        "ipxe"@,
        "jade"@,
        "jar"@,
        "java"@,
        "java-properties"@,
        "javascript"@,
        "jenkins"@,
        "jinja"@,
        "jpeg"@,
        "json"@,
        "json5"@,
        "jsonld"@,
        "jsonnet"@,
        "jsx"@,
        "julia"@,
        "jupyter"@,
        "kotlin"@,
        "ksh"@,
        "kustomize"@,
        "lean"@,
        "less"@,
        "license"@,
        "lisp"@,
        "literate-haskell"@,
        "lua"@,
    ]
}

fn push_tag_group_3(tags: &mut Vec<String>)
    ensures
        string_views(final(tags)@) == string_views(old(tags)@) + tag_group_3(),
{
    let ghost start = string_views(tags@);
    tags.push(owned("inl"));
    tags.push(owned("ino"));
    tags.push(owned("inx"));
    tags.push(owned("ipxe"));
    tags.push(owned("jade"));
    tags.push(owned("jar"));
    tags.push(owned("java"));
    tags.push(owned("java-properties"));
    tags.push(owned("javascript"));
    tags.push(owned("jenkins"));
    tags.push(owned("jinja"));
    tags.push(owned("jpeg"));
    tags.push(owned("json"));
    tags.push(owned("json5"));
    tags.push(owned("jsonld"));
    tags.push(owned("jsonnet"));
    tags.push(owned("jsx"));
    tags.push(owned("julia"));
    tags.push(owned("jupyter"));
    tags.push(owned("kotlin"));
    tags.push(owned("ksh"));
    tags.push(owned("kustomize"));
    tags.push(owned("lean"));
    tags.push(owned("less"));
    tags.push(owned("license"));
    tags.push(owned("lisp"));
    tags.push(owned("literate-haskell"));
    tags.push(owned("lua"));
    assert(string_views(tags@) =~= start + tag_group_3());
}

/// Tags 113 to 140 of the known tags, in order.
pub open spec fn tag_group_4() -> Seq<Seq<char>> {
    seq![
        "m4"@,
        "makefile"@,
        "manifest"@,
        "markdown"@,
        "mdx"@,
        "meson"@,
        "modulemap"@,
        "mojo"@,
        "msbuild"@,
        "mustache"@,
        "nim"@,
        "nimble"@,
        "nix"@,
        "ocaml"@,
        "otf"@,
        "pdf"@,
        "perl"@,
        "php"@,
        "php7"@,
        "php8"@,
        "pkgbuild"@,
        "plain-text"@,
        "plist"@,
        "png"@,
        "pofile"@,
        "powershell"@,
        "prisma"@,
        "pom"@,
    ]
}

fn push_tag_group_4(tags: &mut Vec<String>)
    ensures
        string_views(final(tags)@) == string_views(old(tags)@) + tag_group_4(),
{
    let ghost start = string_views(tags@);
    tags.push(owned("m4"));
    tags.push(owned("makefile"));
    tags.push(owned("manifest"));
    tags.push(owned("markdown"));
    tags.push(owned("mdx"));
    tags.push(owned("meson"));
    tags.push(owned("modulemap"));
    tags.push(owned("mojo"));
    tags.push(owned("msbuild"));
    tags.push(owned("mustache"));
    tags.push(owned("nim"));
    tags.push(owned("nimble"));
    tags.push(owned("nix"));
    tags.push(owned("ocaml"));
    tags.push(owned("otf"));
    tags.push(owned("pdf"));
    tags.push(owned("perl"));
    tags.push(owned("php"));
    tags.push(owned("php7"));
    tags.push(owned("php8"));
    tags.push(owned("pkgbuild"));
    tags.push(owned("plain-text"));
    tags.push(owned("plist"));
    tags.push(owned("png"));
    tags.push(owned("pofile"));
    tags.push(owned("powershell"));
    tags.push(owned("prisma"));
    tags.push(owned("pom"));
    assert(string_views(tags@) =~= start + tag_group_4());
}

/// Tags 141 to 168 of the known tags, in order.
pub open spec fn tag_group_5() -> Seq<Seq<char>> {
    seq![
        "proto"@,
        "puppet"@,
        "purescript"@,
        "pyi"@,
        "pyproj"@,
        "pyz"@,
        "python"@,
        "python2"@,
        "python3"@,
        "qml"@,
        "r"@,
        "rake"@,
        "raku"@,
        "rdoc"@,
        "rego"@,
        "rst"@,
        "rtf"@,
        "ruby"@,
        "rust"@,
        "salt"@,
        "sass"@,
        "sbt"@,
        "scala"@,
        "scheme"@,
        "scss"@,
        "sh"@,
        "shell"@,
        "sln"@,
    ]
}

fn push_tag_group_5(tags: &mut Vec<String>)
    ensures
        string_views(final(tags)@) == string_views(old(tags)@) + tag_group_5(),
{
    let ghost start = string_views(tags@);
    tags.push(owned("proto"));
    tags.push(owned("puppet"));
    tags.push(owned("purescript"));
    tags.push(owned("pyi"));
    tags.push(owned("pyproj"));
    tags.push(owned("pyz"));
    tags.push(owned("python"));
    tags.push(owned("python2"));
    tags.push(owned("python3"));
    tags.push(owned("qml"));
    tags.push(owned("r"));
    tags.push(owned("rake"));
    tags.push(owned("raku"));
    tags.push(owned("rdoc"));
    tags.push(owned("rego"));
    tags.push(owned("rst"));
    tags.push(owned("rtf"));
    tags.push(owned("ruby"));
    tags.push(owned("rust"));
    tags.push(owned("salt"));
    tags.push(owned("sass"));
    tags.push(owned("sbt"));
    tags.push(owned("scala"));
    tags.push(owned("scheme"));
    tags.push(owned("scss"));
    tags.push(owned("sh"));
    tags.push(owned("shell"));
    tags.push(owned("sln"));
    assert(string_views(tags@) =~= start + tag_group_5());
}

/// Tags 169 to 196 of the known tags, in order.
pub open spec fn tag_group_6() -> Seq<Seq<char>> {
    seq![
        "solidity"@,
        "spec"@,
        "sql"@,
        "starlark"@,
        "svelte"@,
        "svg"@,
        "swift"@,
        "swiftdeps"@,
        "sys"@,
        "tar"@,
        "tcsh"@,
        "terraform"@,
        "tex"@,
        "textproto"@,
        "tiff"@,
        "toml"@,
        "ts"@,
        "tsv"@,
        "tsx"@,
        "ttf"@,
        "twig"@,
        "twisted"@,
        "txsprofile"@,
        "urdf"@,
        "vb"@,
        "vbproj"@,
        "vcxproj"@,
        "vdx"@,
    ]
}

fn push_tag_group_6(tags: &mut Vec<String>)
    ensures
        string_views(final(tags)@) == string_views(old(tags)@) + tag_group_6(),
{
    let ghost start = string_views(tags@);
    tags.push(owned("solidity"));
    tags.push(owned("spec"));
    tags.push(owned("sql"));
    tags.push(owned("starlark"));
    tags.push(owned("svelte"));
    tags.push(owned("svg"));
    tags.push(owned("swift"));
    tags.push(owned("swiftdeps"));
    tags.push(owned("sys"));
    tags.push(owned("tar"));
    tags.push(owned("tcsh"));
    tags.push(owned("terraform"));
    tags.push(owned("tex"));
    tags.push(owned("textproto"));
    tags.push(owned("tiff"));
    tags.push(owned("toml"));
    tags.push(owned("ts"));
    tags.push(owned("tsv"));
    tags.push(owned("tsx"));
    tags.push(owned("ttf"));
    tags.push(owned("twig"));
    tags.push(owned("twisted"));
    tags.push(owned("txsprofile"));
    tags.push(owned("urdf"));
    tags.push(owned("vb"));
    tags.push(owned("vbproj"));
    tags.push(owned("vcxproj"));
    tags.push(owned("vdx"));
    assert(string_views(tags@) =~= start + tag_group_6());
}

/// Tags 197 to 221 of the known tags, in order.
pub open spec fn tag_group_7() -> Seq<Seq<char>> {
    seq![
        "verilog"@,
        "vhdl"@,
        "vim"@,
        "vue"@,
        "wav"@,
        "webp"@,
        "wheel"@,
        "woff"@,
        "woff2"@,
        "wsgi"@,
        "xcconfig"@,
        "xcscheme"@,
        "xhtml"@,
        "xml"@,
        "xquery"@,
        "xsd"@,
        "xsl"@,
        "yaml"@,
        "yang"@,
        "yin"@,
        "zcml"@,
        "zig"@,
        "zip"@,
        "zpt"@,
        "zsh"@,
    ]
}

fn push_tag_group_7(tags: &mut Vec<String>)
    ensures
        string_views(final(tags)@) == string_views(old(tags)@) + tag_group_7(),
{
    let ghost start = string_views(tags@);
    tags.push(owned("verilog"));
    tags.push(owned("vhdl"));
    tags.push(owned("vim"));
    tags.push(owned("vue"));
    tags.push(owned("wav"));
    tags.push(owned("webp"));
    tags.push(owned("wheel"));
    tags.push(owned("woff"));
    tags.push(owned("woff2"));
    tags.push(owned("wsgi"));
    tags.push(owned("xcconfig"));
    tags.push(owned("xcscheme"));
    tags.push(owned("xhtml"));
    tags.push(owned("xml"));
    tags.push(owned("xquery"));
    tags.push(owned("xsd"));
    tags.push(owned("xsl"));
    tags.push(owned("yaml"));
    tags.push(owned("yang"));
    tags.push(owned("yin"));
    tags.push(owned("zcml"));
    tags.push(owned("zig"));
    tags.push(owned("zip"));
    tags.push(owned("zpt"));
    tags.push(owned("zsh"));
    assert(string_views(tags@) =~= start + tag_group_7());
}

/// The known file type tags, in order.
pub open spec fn known_type_tags() -> Seq<Seq<char>> {
    tag_group_0() + tag_group_1() + tag_group_2() + tag_group_3() + tag_group_4() + tag_group_5() + tag_group_6() + tag_group_7()
}

/// The known file type tags, in order.
pub fn all_tags() -> (r: Vec<String>)
    ensures
        string_views(r@) == known_type_tags(),
{
    let mut tags: Vec<String> = Vec::new();
    push_tag_group_0(&mut tags);
    push_tag_group_1(&mut tags);
    push_tag_group_2(&mut tags);
    push_tag_group_3(&mut tags);
    push_tag_group_4(&mut tags);
    push_tag_group_5(&mut tags);
    push_tag_group_6(&mut tags);
    push_tag_group_7(&mut tags);
    assert(string_views(tags@) =~= known_type_tags());
    tags
}

} // verus!
