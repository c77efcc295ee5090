//! What a file holds, told from its first bytes and its name.

use vstd::prelude::*;
use vstd::utf8::{decode_utf8, valid_utf8};

use crate::text::{
    after_last, after_last_of, ascii_lower, ascii_lower_of, contains, first_word, first_word_of,
    last_word, last_word_of, occurs, same, starts, starts_with, trim, trim_of, trim_start,
    trim_start_of, utf8_text,
};

verus! {

/// What `infer::get` says of a buffer: the MIME type and the file extension of
/// the first of its matchers that takes the bytes, if one does.
pub uninterp spec fn magic_kind(bytes: Seq<u8>) -> Option<(Seq<char>, Seq<char>)>;

/// `infer::get` on the buffer, with `Type::mime_type` and `Type::extension` of
/// what it finds. Which types it knows, and by which bytes, is left unsaid: the
/// result is only named, as a function of the bytes. But for one thing: its matcher
/// for ELF, the only one with that extension, takes no buffer of 52 bytes or fewer.
#[verifier::external_body]
fn sniff_magic(buf: &[u8]) -> (r: Option<(String, String)>)
    ensures
        r is Some <==> magic_kind(buf@) is Some,
        r matches Some(k) ==> magic_kind(buf@) == Some((k.0@, k.1@)),
        r matches Some(k) ==> k.1@ == "elf"@ ==> buf@.len() > 52,
{
    infer::get(buf).map(|kind| (kind.mime_type().to_owned(), kind.extension().to_owned()))
}

/// The number of two bytes, the first one low where `little` is set.
pub open spec fn word16(a: u8, b: u8, little: bool) -> int {
    if little {
        a + 256 * b
    } else {
        b + 256 * a
    }
}

/// The number of four bytes, the first one lowest where `little` is set.
pub open spec fn word32(a: u8, b: u8, c: u8, d: u8, little: bool) -> int {
    if little {
        a + 256 * b + 65536 * c + 16777216 * d
    } else {
        d + 256 * c + 65536 * b + 16777216 * a
    }
}

fn read16(a: u8, b: u8, little: bool) -> (r: u16)
    ensures
        r == word16(a, b, little),
{
    if little {
        a as u16 + 256 * (b as u16)
    } else {
        b as u16 + 256 * (a as u16)
    }
}

fn read32(a: u8, b: u8, c: u8, d: u8, little: bool) -> (r: u32)
    ensures
        r == word32(a, b, c, d, little),
{
    if little {
        a as u32 + 256 * (b as u32) + 65536 * (c as u32) + 16777216 * (d as u32)
    } else {
        d as u32 + 256 * (c as u32) + 65536 * (b as u32) + 16777216 * (a as u32)
    }
}

/// Whether the buffer begins with the four bytes given.
pub open spec fn begins4(buf: Seq<u8>, a: u8, b: u8, c: u8, d: u8) -> bool {
    buf.len() >= 4 && buf[0] == a && buf[1] == b && buf[2] == c && buf[3] == d
}

fn has_magic(buf: &[u8], a: u8, b: u8, c: u8, d: u8) -> (r: bool)
    ensures
        r == begins4(buf@, a, b, c, d),
{
    buf.len() >= 4 && buf[0] == a && buf[1] == b && buf[2] == c && buf[3] == d
}

/// Whether the buffer begins as an ELF file does.
pub open spec fn is_elf(buf: Seq<u8>) -> bool {
    begins4(buf, 0x7F, 0x45, 0x4C, 0x46)
}

pub open spec fn elf_class(b: u8) -> Seq<char> {
    if b == 1 {
        "32-bit"@
    } else if b == 2 {
        "64-bit"@
    } else {
        "unknown-class"@
    }
}

pub open spec fn elf_endian(b: u8) -> Seq<char> {
    if b == 1 {
        "LSB"@
    } else if b == 2 {
        "MSB"@
    } else {
        "unknown-endian"@
    }
}

pub open spec fn elf_type(v: int) -> Seq<char> {
    if v == 1 {
        "relocatable"@
    } else if v == 2 {
        "executable"@
    } else if v == 3 {
        "shared object"@
    } else if v == 4 {
        "core dump"@
    } else {
        "object"@
    }
}

pub open spec fn elf_machine(v: int) -> Seq<char> {
    if v == 0x03 {
        "x86"@
    } else if v == 0x08 {
        "MIPS"@
    } else if v == 0x14 {
        "PowerPC"@
    } else if v == 0x15 {
        "PowerPC64"@
    } else if v == 0x28 {
        "ARM"@
    } else if v == 0x2A {
        "SuperH"@
    } else if v == 0x32 {
        "IA-64"@
    } else if v == 0x3E {
        "x86-64"@
    } else if v == 0xB7 {
        "AArch64"@
    } else if v == 0xF3 {
        "RISC-V"@
    } else if v == 0xF7 {
        "BPF"@
    } else {
        "unknown-arch"@
    }
}

/// An ELF header in words: its class, byte order, type and machine. The words
/// of the header are little-endian only where it says so.
pub open spec fn elf_description(buf: Seq<u8>) -> Option<Seq<char>> {
    if buf.len() < 20 {
        None
    } else {
        let little = buf[5] == 1;
        Some(
            "ELF "@ + elf_class(buf[4]) + " "@ + elf_endian(buf[5]) + " "@ + elf_type(
                word16(buf[16], buf[17], little),
            ) + ", "@ + elf_machine(word16(buf[18], buf[19], little)),
        )
    }
}

/// An ELF file in words: by its header, where it has a whole one.
pub open spec fn elf_words(buf: Seq<u8>) -> Seq<char> {
    match elf_description(buf) {
        Some(d) => d,
        None => "ELF binary"@,
    }
}

/// The header fields of an ELF file, or `None` where the buffer is too short.
pub fn describe_elf(buf: &[u8]) -> (r: Option<String>)
    ensures
        r is Some <==> elf_description(buf@) is Some,
        r matches Some(s) ==> elf_description(buf@) == Some(s@),
{
    if buf.len() < 20 {
        return None;
    }
    let class = match buf[4] {
        1 => "32-bit",
        2 => "64-bit",
        _ => "unknown-class",
    };
    let endian = match buf[5] {
        1 => "LSB",
        2 => "MSB",
        _ => "unknown-endian",
    };
    let little = buf[5] == 1;
    let etype = match read16(buf[16], buf[17], little) {
        1 => "relocatable",
        2 => "executable",
        3 => "shared object",
        4 => "core dump",
        _ => "object",
    };
    let arch = match read16(buf[18], buf[19], little) {
        0x03 => "x86",
        0x08 => "MIPS",
        0x14 => "PowerPC",
        0x15 => "PowerPC64",
        0x28 => "ARM",
        0x2A => "SuperH",
        0x32 => "IA-64",
        0x3E => "x86-64",
        0xB7 => "AArch64",
        0xF3 => "RISC-V",
        0xF7 => "BPF",
        _ => "unknown-arch",
    };
    let mut s = "ELF ".to_owned();
    s.append(class);
    s.append(" ");
    s.append(endian);
    s.append(" ");
    s.append(etype);
    s.append(", ");
    s.append(arch);
    Some(s)
}

/// The class and byte order that a Mach-O magic number stands for.
pub open spec fn macho_class(buf: Seq<u8>) -> Option<(Seq<char>, bool)> {
    if begins4(buf, 0xCF, 0xFA, 0xED, 0xFE) {
        Some(("64-bit"@, true))
    } else if begins4(buf, 0xFE, 0xED, 0xFA, 0xCF) {
        Some(("64-bit"@, false))
    } else if begins4(buf, 0xCE, 0xFA, 0xED, 0xFE) {
        Some(("32-bit"@, true))
    } else if begins4(buf, 0xFE, 0xED, 0xFA, 0xCE) {
        Some(("32-bit"@, false))
    } else {
        None
    }
}

pub open spec fn macho_cpu(v: int) -> Seq<char> {
    if v == 7 {
        "x86"@
    } else if v == 0x0100_0007 {
        "x86-64"@
    } else if v == 12 {
        "ARM"@
    } else if v == 0x0100_000C {
        "ARM64"@
    } else if v == 18 {
        "PowerPC"@
    } else if v == 0x0100_0012 {
        "PowerPC64"@
    } else {
        "unknown-arch"@
    }
}

pub open spec fn macho_filetype(v: int) -> Seq<char> {
    if v == 1 {
        "object"@
    } else if v == 2 {
        "executable"@
    } else if v == 3 {
        "fixed VM shared library"@
    } else if v == 4 {
        "core dump"@
    } else if v == 5 {
        "preloaded executable"@
    } else if v == 6 {
        "dylib"@
    } else if v == 7 {
        "dynamic linker"@
    } else if v == 8 {
        "bundle"@
    } else {
        "binary"@
    }
}

/// A Mach-O header in words: its class, file type and processor. A header that
/// breaks off before the file type is a "binary".
pub open spec fn macho_description(buf: Seq<u8>) -> Option<Seq<char>> {
    if buf.len() < 8 {
        None
    } else {
        match macho_class(buf) {
            None => None,
            Some((class, little)) => {
                let kind = if buf.len() >= 16 {
                    macho_filetype(word32(buf[12], buf[13], buf[14], buf[15], little))
                } else {
                    "binary"@
                };
                Some(
                    "Mach-O "@ + class + " "@ + kind + ", "@ + macho_cpu(
                        word32(buf[4], buf[5], buf[6], buf[7], little),
                    ),
                )
            },
        }
    }
}

/// The header fields of a Mach-O file, or `None` where the buffer is too short
/// or begins otherwise.
pub fn describe_macho(buf: &[u8]) -> (r: Option<String>)
    ensures
        r is Some <==> macho_description(buf@) is Some,
        r matches Some(s) ==> macho_description(buf@) == Some(s@),
{
    if buf.len() < 8 {
        return None;
    }
    let (class, little) = if has_magic(buf, 0xCF, 0xFA, 0xED, 0xFE) {
        ("64-bit", true)
    } else if has_magic(buf, 0xFE, 0xED, 0xFA, 0xCF) {
        ("64-bit", false)
    } else if has_magic(buf, 0xCE, 0xFA, 0xED, 0xFE) {
        ("32-bit", true)
    } else if has_magic(buf, 0xFE, 0xED, 0xFA, 0xCE) {
        ("32-bit", false)
    } else {
        return None;
    };
    let arch = match read32(buf[4], buf[5], buf[6], buf[7], little) {
        7 => "x86",
        0x0100_0007 => "x86-64",
        12 => "ARM",
        0x0100_000C => "ARM64",
        18 => "PowerPC",
        0x0100_0012 => "PowerPC64",
        _ => "unknown-arch",
    };
    let ftype = if buf.len() >= 16 {
        match read32(buf[12], buf[13], buf[14], buf[15], little) {
            1 => "object",
            2 => "executable",
            3 => "fixed VM shared library",
            4 => "core dump",
            5 => "preloaded executable",
            6 => "dylib",
            7 => "dynamic linker",
            8 => "bundle",
            _ => "binary",
        }
    } else {
        "binary"
    };
    let mut s = "Mach-O ".to_owned();
    s.append(class);
    s.append(" ");
    s.append(ftype);
    s.append(", ");
    s.append(arch);
    Some(s)
}

/// How many bytes stand before the first `b`.
pub open spec fn until_byte(s: Seq<u8>, b: u8) -> int
    decreases s.len(),
{
    if s.len() > 0 && s[0] != b {
        1 + until_byte(s.drop_first(), b)
    } else {
        0
    }
}

/// The position of the first line feed, or `limit` where there is none.
pub open spec fn line_end(buf: Seq<u8>, limit: int) -> int {
    let n = until_byte(buf, 10);
    if n < buf.len() {
        n
    } else {
        limit
    }
}

/// Where the first line of a script ends: at its line feed, or after at most
/// 256 bytes where it has none.
pub open spec fn shebang_end(buf: Seq<u8>) -> int {
    line_end(
        buf,
        if buf.len() < 256 {
            buf.len() as int
        } else {
            256
        },
    )
}

/// The program that a shebang line names: behind `env` its last word, otherwise
/// the file name of its first.
pub open spec fn interpreter(line: Seq<char>) -> Seq<char> {
    if occurs(line, "env "@) || occurs(line, "env\t"@) {
        last_word(line)
    } else {
        after_last(first_word(line), '/')
    }
}

/// The scripts that have a name of their own, by interpreter.
pub open spec fn script_kind(i: Seq<char>) -> Option<Seq<char>> {
    if i == "bash"@ {
        Some("Bash script"@)
    } else if i == "sh"@ {
        Some("POSIX shell script"@)
    } else if i == "zsh"@ {
        Some("Zsh script"@)
    } else if i == "fish"@ {
        Some("Fish script"@)
    } else if i == "dash"@ {
        Some("Dash script"@)
    } else if starts(i, "python"@) {
        Some("Python script"@)
    } else if i == "perl"@ {
        Some("Perl script"@)
    } else if i == "ruby"@ {
        Some("Ruby script"@)
    } else if i == "node"@ || i == "nodejs"@ {
        Some("Node.js script"@)
    } else if i == "Rscript"@ {
        Some("R script"@)
    } else if i == "lua"@ {
        Some("Lua script"@)
    } else if i == "php"@ {
        Some("PHP script"@)
    } else if i == "awk"@ || i == "gawk"@ || i == "mawk"@ {
        Some("AWK script"@)
    } else if i == "sed"@ {
        Some("Sed script"@)
    } else if i == "tclsh"@ || i == "wish"@ {
        Some("Tcl script"@)
    } else {
        None
    }
}

/// What the trimmed text behind `#!` says, `None` where nothing is left of it.
pub open spec fn shebang_line_description(line: Seq<char>) -> Option<Seq<char>> {
    if line.len() == 0 {
        None
    } else {
        let i = interpreter(line);
        match script_kind(i) {
            Some(kind) => Some(kind + ", UTF-8 text"@),
            None => Some("Script (#!"@ + i + "), UTF-8 text"@),
        }
    }
}

/// A script in words, from its first line.
pub open spec fn shebang_description(buf: Seq<u8>) -> Option<Seq<char>> {
    let bytes = buf.subrange(2, shebang_end(buf));
    if valid_utf8(bytes) {
        shebang_line_description(trim(decode_utf8(bytes)))
    } else {
        None
    }
}

fn find_line_end(buf: &[u8], limit: usize) -> (r: usize)
    ensures
        r == line_end(buf@, limit as int),
{
    let mut i: usize = 0;
    assert(buf@.skip(0) =~= buf@);
    while i < buf.len() && buf[i] != 10
        invariant
            i <= buf@.len(),
            until_byte(buf@, 10) == i + until_byte(buf@.skip(i as int), 10),
        decreases buf@.len() - i,
    {
        assert(buf@.skip(i as int).drop_first() =~= buf@.skip(i + 1));
        i += 1;
    }
    if i < buf.len() {
        i
    } else {
        limit
    }
}

fn script_kind_of(i: &str) -> (r: Option<&'static str>)
    ensures
        r is Some <==> script_kind(i@) is Some,
        r matches Some(s) ==> script_kind(i@) == Some(s@),
{
    if same(i, "bash") {
        Some("Bash script")
    } else if same(i, "sh") {
        Some("POSIX shell script")
    } else if same(i, "zsh") {
        Some("Zsh script")
    } else if same(i, "fish") {
        Some("Fish script")
    } else if same(i, "dash") {
        Some("Dash script")
    } else if starts_with(i, "python") {
        Some("Python script")
    } else if same(i, "perl") {
        Some("Perl script")
    } else if same(i, "ruby") {
        Some("Ruby script")
    } else if same(i, "node") || same(i, "nodejs") {
        Some("Node.js script")
    } else if same(i, "Rscript") {
        Some("R script")
    } else if same(i, "lua") {
        Some("Lua script")
    } else if same(i, "php") {
        Some("PHP script")
    } else if same(i, "awk") || same(i, "gawk") || same(i, "mawk") {
        Some("AWK script")
    } else if same(i, "sed") {
        Some("Sed script")
    } else if same(i, "tclsh") || same(i, "wish") {
        Some("Tcl script")
    } else {
        None
    }
}

/// The script type that a shebang line names, or `None` where the line is not
/// text or names nothing.
pub fn describe_shebang(buf: &[u8]) -> (r: Option<String>)
    requires
        2 <= shebang_end(buf@) <= buf@.len(),
    ensures
        r is Some <==> shebang_description(buf@) is Some,
        r matches Some(s) ==> shebang_description(buf@) == Some(s@),
{
    let limit: usize = if buf.len() < 256 {
        buf.len()
    } else {
        256
    };
    let end = find_line_end(buf, limit);
    let bytes = vstd::slice::slice_subrange(buf, 2, end);
    let text = match utf8_text(bytes) {
        Some(t) => t,
        None => return None,
    };
    let line = trim_of(text);
    if line.as_str().is_empty() {
        return None;
    }
    let program = if contains(line.as_str(), "env ") || contains(line.as_str(), "env\t") {
        last_word_of(line.as_str())
    } else {
        let word = first_word_of(line.as_str());
        after_last_of(word.as_str(), '/')
    };
    match script_kind_of(program.as_str()) {
        Some(kind) => {
            let mut s = kind.to_owned();
            s.append(", UTF-8 text");
            Some(s)
        },
        None => {
            let mut s = "Script (#!".to_owned();
            s.append(program.as_str());
            s.append("), UTF-8 text");
            Some(s)
        },
    }
}

/// A buffer that begins with `#!` has a first line to read.
pub proof fn lemma_shebang_end(buf: Seq<u8>)
    requires
        buf.len() >= 2,
        buf[0] == 35,
        buf[1] == 33,
    ensures
        2 <= shebang_end(buf) <= buf.len(),
{
    reveal_with_fuel(until_byte, 3);
    lemma_until_byte_bound(buf.drop_first().drop_first(), 10);
}

proof fn lemma_until_byte_bound(s: Seq<u8>, b: u8)
    ensures
        0 <= until_byte(s, b) <= s.len(),
    decreases s.len(),
{
    if s.len() > 0 && s[0] != b {
        lemma_until_byte_bound(s.drop_first(), b);
    }
}

/// The kinds of text that have a name of their own, by file extension in lower
/// case.
pub open spec fn extension_kind(e: Seq<char>) -> Option<Seq<char>> {
    if e == "csv"@ {
        Some("CSV text"@)
    } else if e == "tsv"@ {
        Some("TSV text"@)
    } else if e == "json"@ {
        Some("JSON text"@)
    } else if e == "jsonl"@ || e == "ndjson"@ {
        Some("JSON Lines text"@)
    } else if e == "yaml"@ || e == "yml"@ {
        Some("YAML text"@)
    } else if e == "toml"@ {
        Some("TOML text"@)
    } else if e == "xml"@ {
        Some("XML text"@)
    } else if e == "html"@ || e == "htm"@ {
        Some("HTML text"@)
    } else if e == "css"@ {
        Some("CSS text"@)
    } else if e == "md"@ || e == "markdown"@ {
        Some("Markdown text"@)
    } else if e == "rst"@ {
        Some("reStructuredText"@)
    } else if e == "tex"@ || e == "latex"@ {
        Some("LaTeX text"@)
    } else if e == "py"@ {
        Some("Python source"@)
    } else if e == "rs"@ {
        Some("Rust source"@)
    } else if e == "c"@ {
        Some("C source"@)
    } else if e == "h"@ {
        Some("C header"@)
    } else if e == "cpp"@ || e == "cc"@ || e == "cxx"@ {
        Some("C++ source"@)
    } else if e == "hpp"@ || e == "hh"@ || e == "hxx"@ {
        Some("C++ header"@)
    } else if e == "java"@ {
        Some("Java source"@)
    } else if e == "go"@ {
        Some("Go source"@)
    } else if e == "js"@ || e == "mjs"@ || e == "cjs"@ {
        Some("JavaScript source"@)
    } else if e == "ts"@ || e == "mts"@ || e == "cts"@ {
        Some("TypeScript source"@)
    } else if e == "rb"@ {
        Some("Ruby source"@)
    } else if e == "pl"@ || e == "pm"@ {
        Some("Perl source"@)
    } else if e == "php"@ {
        Some("PHP source"@)
    } else if e == "r"@ {
        Some("R source"@)
    } else if e == "jl"@ {
        Some("Julia source"@)
    } else if e == "lua"@ {
        Some("Lua source"@)
    } else if e == "swift"@ {
        Some("Swift source"@)
    } else if e == "kt"@ || e == "kts"@ {
        Some("Kotlin source"@)
    } else if e == "scala"@ {
        Some("Scala source"@)
    } else if e == "hs"@ {
        Some("Haskell source"@)
    } else if e == "ml"@ || e == "mli"@ {
        Some("OCaml source"@)
    } else if e == "ex"@ || e == "exs"@ {
        Some("Elixir source"@)
    } else if e == "erl"@ || e == "hrl"@ {
        Some("Erlang source"@)
    } else if e == "f"@ || e == "f90"@ || e == "f95"@ || e == "f03"@ || e == "f08"@ || e == "for"@ {
        Some("Fortran source"@)
    } else if e == "sh"@ || e == "bash"@ {
        Some("Shell script"@)
    } else if e == "zsh"@ {
        Some("Zsh script"@)
    } else if e == "fish"@ {
        Some("Fish script"@)
    } else if e == "ps1"@ {
        Some("PowerShell script"@)
    } else if e == "sql"@ {
        Some("SQL text"@)
    } else if e == "graphql"@ || e == "gql"@ {
        Some("GraphQL text"@)
    } else if e == "proto"@ {
        Some("Protocol Buffers text"@)
    } else if e == "ini"@ || e == "cfg"@ || e == "conf"@ {
        Some("Configuration text"@)
    } else if e == "env"@ {
        Some("Environment file"@)
    } else if e == "txt"@ || e == "text"@ || e == "log"@ {
        Some("Plain text"@)
    } else if e == "makefile"@ {
        Some("Makefile"@)
    } else {
        None
    }
}

/// The kind of text that the extension of `path` stands for: what follows its
/// last dot, in lower case, or all of it where it has no dot.
pub open spec fn text_kind(path: Seq<char>) -> Option<Seq<char>> {
    extension_kind(ascii_lower(after_last(path, '.')))
}

/// A description of a text file by its extension.
pub fn describe_text_by_extension(path: &str) -> (r: Option<&'static str>)
    ensures
        r is Some <==> text_kind(path@) is Some,
        r matches Some(s) ==> text_kind(path@) == Some(s@),
{
    let tail = after_last_of(path, '.');
    let ext = ascii_lower_of(tail.as_str());
    let e = ext.as_str();
    if same(e, "csv") {
        Some("CSV text")
    } else if same(e, "tsv") {
        Some("TSV text")
    } else if same(e, "json") {
        Some("JSON text")
    } else if same(e, "jsonl") || same(e, "ndjson") {
        Some("JSON Lines text")
    } else if same(e, "yaml") || same(e, "yml") {
        Some("YAML text")
    } else if same(e, "toml") {
        Some("TOML text")
    } else if same(e, "xml") {
        Some("XML text")
    } else if same(e, "html") || same(e, "htm") {
        Some("HTML text")
    } else if same(e, "css") {
        Some("CSS text")
    } else if same(e, "md") || same(e, "markdown") {
        Some("Markdown text")
    } else if same(e, "rst") {
        Some("reStructuredText")
    } else if same(e, "tex") || same(e, "latex") {
        Some("LaTeX text")
    } else if same(e, "py") {
        Some("Python source")
    } else if same(e, "rs") {
        Some("Rust source")
    } else if same(e, "c") {
        Some("C source")
    } else if same(e, "h") {
        Some("C header")
    } else if same(e, "cpp") || same(e, "cc") || same(e, "cxx") {
        Some("C++ source")
    } else if same(e, "hpp") || same(e, "hh") || same(e, "hxx") {
        Some("C++ header")
    } else if same(e, "java") {
        Some("Java source")
    } else if same(e, "go") {
        Some("Go source")
    } else if same(e, "js") || same(e, "mjs") || same(e, "cjs") {
        Some("JavaScript source")
    } else if same(e, "ts") || same(e, "mts") || same(e, "cts") {
        Some("TypeScript source")
    } else if same(e, "rb") {
        Some("Ruby source")
    } else if same(e, "pl") || same(e, "pm") {
        Some("Perl source")
    } else if same(e, "php") {
        Some("PHP source")
    } else if same(e, "r") {
        Some("R source")
    } else if same(e, "jl") {
        Some("Julia source")
    } else if same(e, "lua") {
        Some("Lua source")
    } else if same(e, "swift") {
        Some("Swift source")
    } else if same(e, "kt") || same(e, "kts") {
        Some("Kotlin source")
    } else if same(e, "scala") {
        Some("Scala source")
    } else if same(e, "hs") {
        Some("Haskell source")
    } else if same(e, "ml") || same(e, "mli") {
        Some("OCaml source")
    } else if same(e, "ex") || same(e, "exs") {
        Some("Elixir source")
    } else if same(e, "erl") || same(e, "hrl") {
        Some("Erlang source")
    } else if same(e, "f") || same(e, "f90") || same(e, "f95") || same(e, "f03") || same(e, "f08") || same(e, "for") {
        Some("Fortran source")
    } else if same(e, "sh") || same(e, "bash") {
        Some("Shell script")
    } else if same(e, "zsh") {
        Some("Zsh script")
    } else if same(e, "fish") {
        Some("Fish script")
    } else if same(e, "ps1") {
        Some("PowerShell script")
    } else if same(e, "sql") {
        Some("SQL text")
    } else if same(e, "graphql") || same(e, "gql") {
        Some("GraphQL text")
    } else if same(e, "proto") {
        Some("Protocol Buffers text")
    } else if same(e, "ini") || same(e, "cfg") || same(e, "conf") {
        Some("Configuration text")
    } else if same(e, "env") {
        Some("Environment file")
    } else if same(e, "txt") || same(e, "text") || same(e, "log") {
        Some("Plain text")
    } else if same(e, "makefile") {
        Some("Makefile")
    } else {
        None
    }
}

/// What a buffer that is valid UTF-8 holds, from its first visible characters or
/// the extension of its path.
pub open spec fn utf8_kind(text: Seq<char>, path: Seq<char>) -> Seq<char> {
    let t = trim_start(text);
    if t.len() > 0 && (t[0] == '{' || t[0] == '[') {
        "JSON text, UTF-8"@
    } else if starts(t, "<?xml"@) || starts(t, "<!DOCTYPE"@) {
        "XML text, UTF-8"@
    } else {
        match text_kind(path) {
            Some(kind) => kind + ", UTF-8"@,
            None => "text/plain; UTF-8"@,
        }
    }
}

/// What a buffer holds where its magic number settles nothing: the description,
/// and whether it is text to scroll through.
pub open spec fn layered_kind(buf: Seq<u8>, path: Seq<char>) -> (Seq<char>, bool) {
    if is_elf(buf) {
        match elf_description(buf) {
            Some(d) => (d, false),
            None => ("ELF binary"@, false),
        }
    } else if buf.len() >= 8 && macho_class(buf) is Some {
        match macho_description(buf) {
            Some(d) => (d, false),
            None => ("Mach-O binary"@, false),
        }
    } else if buf.len() >= 8 && (begins4(buf, 0xCA, 0xFE, 0xBA, 0xBE) || begins4(
        buf,
        0xBE,
        0xBA,
        0xFE,
        0xCA,
    )) {
        ("Mach-O universal binary"@, false)
    } else if buf.len() >= 2 && buf[0] == 35 && buf[1] == 33 && shebang_description(buf) is Some {
        (shebang_description(buf)->0, true)
    } else if valid_utf8(buf) {
        (utf8_kind(decode_utf8(buf), path), true)
    } else {
        ("application/octet-stream (binary data)"@, false)
    }
}

/// Whether the ELF reading applies: by the MIME type, or by the magic number.
pub open spec fn elf_candidate(buf: Seq<u8>, mime: Seq<char>) -> bool {
    mime == "application/x-executable"@ || mime == "application/x-sharedlib"@ || is_elf(buf)
}

/// What a buffer holds, given the MIME type and extension that its magic number
/// stands for: the description, and whether it is text to scroll through. A
/// magic number decides, except that executables are described by their header
/// and that text is looked at more closely.
pub open spec fn content_kind(
    buf: Seq<u8>,
    path: Seq<char>,
    magic: Option<(Seq<char>, Seq<char>)>,
) -> (Seq<char>, bool) {
    match magic {
        Some((mime, extension)) => {
            if elf_candidate(buf, mime) && elf_description(buf) is Some {
                (elf_description(buf)->0, false)
            } else if !starts(mime, "text/"@) {
                (mime + " ("@ + extension + ")"@, false)
            } else {
                layered_kind(buf, path)
            }
        },
        None => layered_kind(buf, path),
    }
}

fn layered_type(buf: &[u8], path: &str) -> (r: (String, bool))
    ensures
        (r.0@, r.1) == layered_kind(buf@, path@),
{
    if has_magic(buf, 0x7F, 0x45, 0x4C, 0x46) {
        return match describe_elf(buf) {
            Some(d) => (d, false),
            None => ("ELF binary".to_owned(), false),
        };
    }
    if buf.len() >= 8 {
        if has_magic(buf, 0xCF, 0xFA, 0xED, 0xFE) || has_magic(buf, 0xFE, 0xED, 0xFA, 0xCF)
            || has_magic(buf, 0xCE, 0xFA, 0xED, 0xFE) || has_magic(buf, 0xFE, 0xED, 0xFA, 0xCE) {
            return match describe_macho(buf) {
                Some(d) => (d, false),
                None => ("Mach-O binary".to_owned(), false),
            };
        }
        if has_magic(buf, 0xCA, 0xFE, 0xBA, 0xBE) || has_magic(buf, 0xBE, 0xBA, 0xFE, 0xCA) {
            return ("Mach-O universal binary".to_owned(), false);
        }
    }
    if buf.len() >= 2 && buf[0] == 35 && buf[1] == 33 {
        proof {
            lemma_shebang_end(buf@);
        }
        match describe_shebang(buf) {
            Some(d) => return (d, true),
            None => {},
        }
    }
    match utf8_text(buf) {
        Some(text) => {
            let trimmed = trim_start_of(text);
            let t = trimmed.as_str();
            proof {
                reveal_strlit("{");
                reveal_strlit("[");
                if t@.len() > 0 {
                    assert(t@.take(1)[0] == t@[0]);
                    assert("{"@ =~= seq!['{']);
                    assert("["@ =~= seq!['[']);
                    assert(t@.take(1) =~= seq![t@[0]]);
                }
            }
            let d = if starts_with(t, "{") || starts_with(t, "[") {
                "JSON text, UTF-8".to_owned()
            } else if starts_with(t, "<?xml") || starts_with(t, "<!DOCTYPE") {
                "XML text, UTF-8".to_owned()
            } else {
                match describe_text_by_extension(path) {
                    Some(kind) => {
                        let mut s = kind.to_owned();
                        s.append(", UTF-8");
                        s
                    },
                    None => "text/plain; UTF-8".to_owned(),
                }
            };
            (d, true)
        },
        None => ("application/octet-stream (binary data)".to_owned(), false),
    }
}

/// What a buffer holds, given the MIME type and extension that its magic number
/// stands for.
pub fn describe_content(buf: &[u8], path: &str, magic: Option<(String, String)>) -> (r: (
    String,
    bool,
))
    ensures
        magic matches Some(k) ==> (r.0@, r.1) == content_kind(buf@, path@, Some((k.0@, k.1@))),
        magic is None ==> (r.0@, r.1) == content_kind(buf@, path@, None),
{
    match magic {
        Some((mime, extension)) => {
            let m = mime.as_str();
            if same(m, "application/x-executable") || same(m, "application/x-sharedlib")
                || has_magic(buf, 0x7F, 0x45, 0x4C, 0x46) {
                match describe_elf(buf) {
                    Some(d) => return (d, false),
                    None => {},
                }
            }
            if !starts_with(m, "text/") {
                let mut s = mime;
                s.append(" (");
                s.append(extension.as_str());
                s.append(")");
                return (s, false);
            }
            layered_type(buf, path)
        },
        None => layered_type(buf, path),
    }
}

/// The type of a file, from its first bytes and its path: a description, and
/// whether it should be treated as text to scroll through.
pub fn detect_file_type(sniff_buf: &[u8], file_path: &str) -> (r: (String, bool))
    ensures
        (r.0@, r.1) == content_kind(sniff_buf@, file_path@, magic_kind(sniff_buf@)),
        is_elf(sniff_buf@) && (magic_kind(sniff_buf@) is None || (magic_kind(sniff_buf@)->0).1
            == "elf"@) ==> (r.0@, r.1) == (elf_words(sniff_buf@), false),
{
    describe_content(sniff_buf, file_path, sniff_magic(sniff_buf))
}

/// An ELF file is described by its header, where it has a whole one, and is never
/// shown as text, whatever its name and whatever its magic number says. A buffer
/// shorter than a header with the magic number of something else would break this.
pub proof fn law_elf_by_its_header(
    buf: Seq<u8>,
    path: Seq<char>,
    magic: Option<(Seq<char>, Seq<char>)>,
)
    requires
        is_elf(buf),
        magic is None || buf.len() >= 20,
    ensures
        content_kind(buf, path, magic) == (elf_words(buf), false),
{
}

/// What is shown as text is valid UTF-8, or begins like a script; and what has the
/// magic number of something other than text is never shown as text.
pub proof fn law_text(buf: Seq<u8>, path: Seq<char>, magic: Option<(Seq<char>, Seq<char>)>)
    ensures
        content_kind(buf, path, magic).1 ==> valid_utf8(buf) || (buf.len() >= 2 && buf[0] == 0x23
            && buf[1] == 0x21),
        magic matches Some(m) && !starts(m.0, "text/"@) ==> !content_kind(buf, path, magic).1,
{
}

} // verus!
