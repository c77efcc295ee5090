//! What files are told to be: by the fields of their headers, the programs that run
//! them, and their names.

use vstd::prelude::*;
use vstd::utf8::{decode_utf8, encode_utf8, valid_utf8};

use crate::filetype::{
    content_kind, elf_description, extension_kind, interpreter, is_elf, macho_description,
    script_kind, shebang_end, shebang_line_description, text_kind, until_byte, utf8_kind,
};
use crate::text::{ascii_lower, lemma_rfind_join, occurs, starts, trim, trim_start, white};
use crate::wording::{law_without_separator, law_words, lemma_leading};

verus! {

/// The number of two bytes of a header, the lower one first where `little` is set.
pub open spec fn number16(a: u8, b: u8, little: bool) -> int {
    if little {
        b * 256 + a
    } else {
        a * 256 + b
    }
}

/// The number of four bytes of a header, the lowest one first where `little` is set.
pub open spec fn number32(a: u8, b: u8, c: u8, d: u8, little: bool) -> int {
    if little {
        d * 16777216 + c * 65536 + b * 256 + a
    } else {
        a * 16777216 + b * 65536 + c * 256 + d
    }
}

/// An ELF header tells its class, its byte order, its type and its machine, in words
/// for each number that has one.
pub proof fn law_elf_fields(buf: Seq<u8>)
    requires
        buf.len() >= 20,
    ensures
        ({
            let class = if buf[4] == 1 {
                "32-bit"@
            } else if buf[4] == 2 {
                "64-bit"@
            } else {
                "unknown-class"@
            };
            let order = if buf[5] == 1 {
                "LSB"@
            } else if buf[5] == 2 {
                "MSB"@
            } else {
                "unknown-endian"@
            };
            let t = number16(buf[16], buf[17], buf[5] == 1);
            let m = number16(buf[18], buf[19], buf[5] == 1);
            let kind = if t == 1 {
                "relocatable"@
            } else if t == 2 {
                "executable"@
            } else if t == 3 {
                "shared object"@
            } else if t == 4 {
                "core dump"@
            } else {
                "object"@
            };
            let machine = if m == 3 {
                "x86"@
            } else if m == 8 {
                "MIPS"@
            } else if m == 20 {
                "PowerPC"@
            } else if m == 21 {
                "PowerPC64"@
            } else if m == 40 {
                "ARM"@
            } else if m == 42 {
                "SuperH"@
            } else if m == 50 {
                "IA-64"@
            } else if m == 62 {
                "x86-64"@
            } else if m == 183 {
                "AArch64"@
            } else if m == 243 {
                "RISC-V"@
            } else if m == 247 {
                "BPF"@
            } else {
                "unknown-arch"@
            };
            elf_description(buf) == Some(
                "ELF "@ + class + " "@ + order + " "@ + kind + ", "@ + machine,
            )
        }),
{
}

/// A Mach-O header tells its class and its byte order by the first four bytes, and
/// then its type and its processor, in words for each number that has one.
pub proof fn law_macho_fields(buf: Seq<u8>, wide: bool, little: bool)
    requires
        buf.len() >= 8,
        ({
            let last = if wide {
                0xCFu8
            } else {
                0xCEu8
            };
            if little {
                buf[0] == last && buf[1] == 0xFA && buf[2] == 0xED && buf[3] == 0xFE
            } else {
                buf[0] == 0xFE && buf[1] == 0xED && buf[2] == 0xFA && buf[3] == last
            }
        }),
    ensures
        ({
            let class = if wide {
                "64-bit"@
            } else {
                "32-bit"@
            };
            let c = number32(buf[4], buf[5], buf[6], buf[7], little);
            let t = number32(buf[12], buf[13], buf[14], buf[15], little);
            let processor = if c == 7 {
                "x86"@
            } else if c == 7 + 16777216 {
                "x86-64"@
            } else if c == 12 {
                "ARM"@
            } else if c == 12 + 16777216 {
                "ARM64"@
            } else if c == 18 {
                "PowerPC"@
            } else if c == 18 + 16777216 {
                "PowerPC64"@
            } else {
                "unknown-arch"@
            };
            let kind = if buf.len() < 16 {
                "binary"@
            } else if t == 1 {
                "object"@
            } else if t == 2 {
                "executable"@
            } else if t == 3 {
                "fixed VM shared library"@
            } else if t == 4 {
                "core dump"@
            } else if t == 5 {
                "preloaded executable"@
            } else if t == 6 {
                "dylib"@
            } else if t == 7 {
                "dynamic linker"@
            } else if t == 8 {
                "bundle"@
            } else {
                "binary"@
            };
            &&& macho_description(buf) == Some(
                "Mach-O "@ + class + " "@ + kind + ", "@ + processor,
            )
            &&& forall|path: Seq<char>| #[trigger]
                content_kind(buf, path, None) == (macho_description(buf)->0, false)
        }),
{
}

/// A buffer with the magic number of something other than text, and no ELF header, is
/// told by its MIME type and its extension.
pub proof fn law_magic_words(
    buf: Seq<u8>,
    path: Seq<char>,
    mime: Seq<char>,
    extension: Seq<char>,
)
    requires
        !starts(mime, "text/"@),
        !is_elf(buf),
        mime != "application/x-executable"@,
        mime != "application/x-sharedlib"@,
    ensures
        content_kind(buf, path, Some((mime, extension))) == (
            mime + " ("@ + extension + ")"@,
            false,
        ),
{
}

/// A buffer with the magic number of text is told as if it had none.
pub proof fn law_magic_of_text(
    buf: Seq<u8>,
    path: Seq<char>,
    mime: Seq<char>,
    extension: Seq<char>,
)
    requires
        starts(mime, "text/"@),
    ensures
        content_kind(buf, path, Some((mime, extension))) == content_kind(buf, path, None),
{
    reveal_strlit("text/");
    reveal_strlit("application/x-executable");
    reveal_strlit("application/x-sharedlib");
    assert(mime.take(5)[0] == "text/"@[0]);
    assert(mime[0] == 't');
    assert("application/x-executable"@[0] == 'a');
    assert("application/x-sharedlib"@[0] == 'a');
}

/// A universal Mach-O binary is told by its first four bytes, in either order.
pub proof fn law_universal_binary(buf: Seq<u8>, path: Seq<char>)
    requires
        buf.len() >= 8,
        (buf[0] == 0xCA && buf[1] == 0xFE && buf[2] == 0xBA && buf[3] == 0xBE) || (buf[0] == 0xBE
            && buf[1] == 0xBA && buf[2] == 0xFE && buf[3] == 0xCA),
    ensures
        content_kind(buf, path, None) == ("Mach-O universal binary"@, false),
{
}

/// Without any of these marks, bytes that are UTF-8 are told as the text that they
/// are, and others as binary data.
pub proof fn law_without_marks(buf: Seq<u8>, path: Seq<char>)
    requires
        buf.len() > 0,
        buf[0] != 0x7F,
        buf[0] != 0x23,
        buf[0] != 0xFE,
        buf[0] != 0xCE,
        buf[0] != 0xCF,
        buf[0] != 0xCA,
        buf[0] != 0xBE,
    ensures
        valid_utf8(buf) ==> content_kind(buf, path, None) == (
            utf8_kind(decode_utf8(buf), path),
            true,
        ),
        !valid_utf8(buf) ==> content_kind(buf, path, None) == (
            "application/octet-stream (binary data)"@,
            false,
        ),
{
}

/// The program behind `env` is the last word of the line, and otherwise the file name
/// of the first.
pub proof fn law_interpreter(
    dir: Seq<char>,
    name: Seq<char>,
    space: char,
    arguments: Seq<char>,
    before: Seq<char>,
)
    requires
        white(space),
        forall|i: int| 0 <= i < dir.len() ==> !white(#[trigger] dir[i]),
        forall|i: int| 0 <= i < name.len() ==> !white(#[trigger] name[i]),
        !name.contains('/'),
    ensures
        ({
            let program = dir.push('/') + name;
            let line = program + seq![space] + arguments;
            &&& !occurs(program, "env "@) && !occurs(program, "env\t"@) ==> interpreter(program)
                == name
            &&& !occurs(line, "env "@) && !occurs(line, "env\t"@) ==> interpreter(line) == name
            &&& interpreter(before + "env "@ + name) == name
        }),
{
    let program = dir.push('/') + name;
    assert forall|i: int| 0 <= i < program.len() implies !white(#[trigger] program[i]) by {
        if i < dir.len() {
            assert(!white(dir[i]));
        } else if i > dir.len() {
            assert(!white(name[i - dir.len() - 1]));
        }
    }
    law_words(program, space, arguments, name);
    lemma_rfind_join(dir, '/', name);
    reveal_strlit("env ");
    let line = before + "env "@ + name;
    assert(line.subrange(before.len() as int, before.len() as int + 4) =~= "env "@);
    assert(occurs(line, "env "@));
    let head = before + seq!['e', 'n', 'v'];
    law_words(name, ' ', head, name);
    assert(line =~= head + seq![' '] + name);
}

/// The programs that have a word of their own; any whose name begins with `python`
/// runs Python.
pub proof fn law_script_words(behind: Seq<char>)
    ensures
        script_kind("bash"@) == Some("Bash script"@),
        script_kind("sh"@) == Some("POSIX shell script"@),
        script_kind("zsh"@) == Some("Zsh script"@),
        script_kind("fish"@) == Some("Fish script"@),
        script_kind("dash"@) == Some("Dash script"@),
        script_kind("perl"@) == Some("Perl script"@),
        script_kind("ruby"@) == Some("Ruby script"@),
        script_kind("node"@) == Some("Node.js script"@),
        script_kind("nodejs"@) == Some("Node.js script"@),
        script_kind("Rscript"@) == Some("R script"@),
        script_kind("lua"@) == Some("Lua script"@),
        script_kind("php"@) == Some("PHP script"@),
        script_kind("awk"@) == Some("AWK script"@),
        script_kind("gawk"@) == Some("AWK script"@),
        script_kind("mawk"@) == Some("AWK script"@),
        script_kind("sed"@) == Some("Sed script"@),
        script_kind("tclsh"@) == Some("Tcl script"@),
        script_kind("wish"@) == Some("Tcl script"@),
        script_kind("python"@ + behind) == Some("Python script"@),
{
    reveal_strlit("bash");
    assert("bash"@.len() == 4 && "bash"@[0] == 'b' && "bash"@[1] == 'a' && "bash"@[2] == 's' && "bash"@[3] == 'h');
    reveal_strlit("sh");
    assert("sh"@.len() == 2 && "sh"@[0] == 's' && "sh"@[1] == 'h');
    reveal_strlit("zsh");
    assert("zsh"@.len() == 3 && "zsh"@[0] == 'z' && "zsh"@[1] == 's' && "zsh"@[2] == 'h');
    reveal_strlit("fish");
    assert("fish"@.len() == 4 && "fish"@[0] == 'f' && "fish"@[1] == 'i' && "fish"@[2] == 's' && "fish"@[3] == 'h');
    reveal_strlit("dash");
    assert("dash"@.len() == 4 && "dash"@[0] == 'd' && "dash"@[1] == 'a' && "dash"@[2] == 's' && "dash"@[3] == 'h');
    reveal_strlit("perl");
    assert("perl"@.len() == 4 && "perl"@[0] == 'p' && "perl"@[1] == 'e' && "perl"@[2] == 'r' && "perl"@[3] == 'l');
    reveal_strlit("ruby");
    assert("ruby"@.len() == 4 && "ruby"@[0] == 'r' && "ruby"@[1] == 'u' && "ruby"@[2] == 'b' && "ruby"@[3] == 'y');
    reveal_strlit("node");
    assert("node"@.len() == 4 && "node"@[0] == 'n' && "node"@[1] == 'o' && "node"@[2] == 'd' && "node"@[3] == 'e');
    reveal_strlit("nodejs");
    assert("nodejs"@.len() == 6 && "nodejs"@[0] == 'n' && "nodejs"@[1] == 'o' && "nodejs"@[2] == 'd' && "nodejs"@[3] == 'e' && "nodejs"@[4] == 'j' && "nodejs"@[5] == 's');
    reveal_strlit("Rscript");
    assert("Rscript"@.len() == 7 && "Rscript"@[0] == 'R' && "Rscript"@[1] == 's' && "Rscript"@[2] == 'c' && "Rscript"@[3] == 'r' && "Rscript"@[4] == 'i' && "Rscript"@[5] == 'p' && "Rscript"@[6] == 't');
    reveal_strlit("lua");
    assert("lua"@.len() == 3 && "lua"@[0] == 'l' && "lua"@[1] == 'u' && "lua"@[2] == 'a');
    reveal_strlit("php");
    assert("php"@.len() == 3 && "php"@[0] == 'p' && "php"@[1] == 'h' && "php"@[2] == 'p');
    reveal_strlit("awk");
    assert("awk"@.len() == 3 && "awk"@[0] == 'a' && "awk"@[1] == 'w' && "awk"@[2] == 'k');
    reveal_strlit("gawk");
    assert("gawk"@.len() == 4 && "gawk"@[0] == 'g' && "gawk"@[1] == 'a' && "gawk"@[2] == 'w' && "gawk"@[3] == 'k');
    reveal_strlit("mawk");
    assert("mawk"@.len() == 4 && "mawk"@[0] == 'm' && "mawk"@[1] == 'a' && "mawk"@[2] == 'w' && "mawk"@[3] == 'k');
    reveal_strlit("sed");
    assert("sed"@.len() == 3 && "sed"@[0] == 's' && "sed"@[1] == 'e' && "sed"@[2] == 'd');
    reveal_strlit("tclsh");
    assert("tclsh"@.len() == 5 && "tclsh"@[0] == 't' && "tclsh"@[1] == 'c' && "tclsh"@[2] == 'l' && "tclsh"@[3] == 's' && "tclsh"@[4] == 'h');
    reveal_strlit("wish");
    assert("wish"@.len() == 4 && "wish"@[0] == 'w' && "wish"@[1] == 'i' && "wish"@[2] == 's' && "wish"@[3] == 'h');
    reveal_strlit("python");
    let p = "python"@ + behind;
    assert(p.take(6) =~= "python"@);
    assert(p[0] == 'p' && p[1] == 'y');
}

/// A script is told by the word of its program, or by the program where that has
/// none, and is text; a line that names no program tells nothing.
pub proof fn law_script_line(line: Seq<char>)
    ensures
        line.len() == 0 ==> shebang_line_description(line) is None,
        line.len() > 0 ==> match script_kind(interpreter(line)) {
            Some(word) => shebang_line_description(line) == Some(word + ", UTF-8 text"@),
            None => shebang_line_description(line) == Some(
                "Script (#!"@ + interpreter(line) + "), UTF-8 text"@,
            ),
        },
{
}

proof fn lemma_until_byte(a: Seq<u8>, b: u8, rest: Seq<u8>)
    requires
        !a.contains(b),
    ensures
        until_byte(a.push(b) + rest, b) == a.len(),
    decreases a.len(),
{
    let s = a.push(b) + rest;
    if a.len() > 0 {
        assert(a.contains(a[0]));
        let t = a.drop_first();
        assert forall|i: int| 0 <= i < t.len() implies t[i] != b by {
            assert(a.contains(a[i + 1]));
        }
        lemma_until_byte(t, b, rest);
        assert(s.drop_first() =~= t.push(b) + rest);
    }
}

/// What begins with `#!` is told by its first line, without the white space around
/// that, and is text even where what follows is not.
pub proof fn law_script(line: Seq<char>, rest: Seq<u8>, path: Seq<char>)
    requires
        !encode_utf8(line).contains(10),
        shebang_line_description(trim(line)) is Some,
    ensures
        content_kind((seq![35u8, 33] + encode_utf8(line)).push(10) + rest, path, None) == (
            shebang_line_description(trim(line))->0,
            true,
        ),
        encode_utf8(line).len() < 254 ==> content_kind(
            seq![35u8, 33] + encode_utf8(line),
            path,
            None,
        ) == (shebang_line_description(trim(line))->0, true),
{
    let bytes = encode_utf8(line);
    let first = seq![35u8, 33] + bytes;
    let buf = first.push(10) + rest;
    assert forall|i: int| 0 <= i < first.len() implies first[i] != 10 by {
        if i >= 2 {
            assert(bytes.contains(bytes[i - 2]));
        }
    }
    lemma_until_byte(first, 10, rest);
    assert(shebang_end(buf) == first.len());
    assert(buf.subrange(2, first.len() as int) =~= bytes);
    vstd::utf8::encode_utf8_valid_utf8(line);
    vstd::utf8::encode_utf8_decode_utf8(line);
    assert(buf[0] == 35 && buf[1] == 33);
    lemma_no_byte(first, 10);
    assert(first.subrange(2, first.len() as int) =~= bytes);
}

proof fn lemma_no_byte(a: Seq<u8>, b: u8)
    requires
        !a.contains(b),
    ensures
        until_byte(a, b) == a.len(),
    decreases a.len(),
{
    if a.len() > 0 {
        assert(a.contains(a[0]));
        let t = a.drop_first();
        assert forall|i: int| 0 <= i < t.len() implies t[i] != b by {
            assert(a.contains(a[i + 1]));
        }
        lemma_no_byte(t, b);
    }
}

proof fn lemma_trim_start(space: Seq<char>, s: Seq<char>)
    requires
        forall|i: int| 0 <= i < space.len() ==> white(#[trigger] space[i]),
        s.len() > 0,
        !white(s[0]),
    ensures
        trim_start(space + s) == s,
{
    lemma_leading(space, s);
    assert((space + s).skip(space.len() as int) =~= s);
}

/// Text that begins with a brace or a bracket, behind any white space, is JSON; with
/// an XML declaration or a document type, XML; whatever its name.
pub proof fn law_text_by_its_beginning(space: Seq<char>, rest: Seq<char>, path: Seq<char>)
    requires
        forall|i: int| 0 <= i < space.len() ==> white(#[trigger] space[i]),
    ensures
        utf8_kind(space + (seq!['{'] + rest), path) == "JSON text, UTF-8"@,
        utf8_kind(space + (seq!['['] + rest), path) == "JSON text, UTF-8"@,
        utf8_kind(space + ("<?xml"@ + rest), path) == "XML text, UTF-8"@,
        utf8_kind(space + ("<!DOCTYPE"@ + rest), path) == "XML text, UTF-8"@,
{
    reveal_strlit("<?xml");
    reveal_strlit("<!DOCTYPE");
    lemma_trim_start(space, seq!['{'] + rest);
    lemma_trim_start(space, seq!['['] + rest);
    lemma_trim_start(space, "<?xml"@ + rest);
    lemma_trim_start(space, "<!DOCTYPE"@ + rest);
    assert(("<?xml"@ + rest).take(5) =~= "<?xml"@);
    assert(("<!DOCTYPE"@ + rest).take(9) =~= "<!DOCTYPE"@);
}

/// Other text is told by the extension of its name, where that has a word, and as
/// plain text otherwise.
pub proof fn law_text_by_its_name(text: Seq<char>, path: Seq<char>)
    requires
        text.len() > 0,
        !white(text[0]),
        text[0] != '{',
        text[0] != '[',
        text[0] != '<',
    ensures
        match text_kind(path) {
            Some(word) => utf8_kind(text, path) == word + ", UTF-8"@,
            None => utf8_kind(text, path) == "text/plain; UTF-8"@,
        },
{
    lemma_trim_start(Seq::empty(), text);
    assert(Seq::<char>::empty() + text =~= text);
    reveal_strlit("<?xml");
    reveal_strlit("<!DOCTYPE");
    assert(text.len() >= 5 ==> text.take(5)[0] == text[0]);
    assert(text.len() >= 9 ==> text.take(9)[0] == text[0]);
}

/// The extension is what stands behind the last dot of a path, in capitals or not; a
/// path without a dot is its own extension.
pub proof fn law_extension(stem: Seq<char>, extension: Seq<char>)
    requires
        !extension.contains('.'),
    ensures
        text_kind(stem.push('.') + extension) == extension_kind(ascii_lower(extension)),
        text_kind(extension) == extension_kind(ascii_lower(extension)),
{
    lemma_rfind_join(stem, '.', extension);
    law_without_separator(extension, '.');
}

proof fn lemma_extension_letters()
    ensures
        "csv"@.len() == 3 && "csv"@[0] == 'c' && "csv"@[1] == 's' && "csv"@[2] == 'v',
        "tsv"@.len() == 3 && "tsv"@[0] == 't' && "tsv"@[1] == 's' && "tsv"@[2] == 'v',
        "json"@.len() == 4 && "json"@[0] == 'j' && "json"@[1] == 's' && "json"@[2] == 'o' && "json"@[3] == 'n',
        "jsonl"@.len() == 5 && "jsonl"@[0] == 'j' && "jsonl"@[1] == 's' && "jsonl"@[2] == 'o' && "jsonl"@[3] == 'n' && "jsonl"@[4] == 'l',
        "ndjson"@.len() == 6 && "ndjson"@[0] == 'n' && "ndjson"@[1] == 'd' && "ndjson"@[2] == 'j' && "ndjson"@[3] == 's' && "ndjson"@[4] == 'o' && "ndjson"@[5] == 'n',
        "yaml"@.len() == 4 && "yaml"@[0] == 'y' && "yaml"@[1] == 'a' && "yaml"@[2] == 'm' && "yaml"@[3] == 'l',
        "yml"@.len() == 3 && "yml"@[0] == 'y' && "yml"@[1] == 'm' && "yml"@[2] == 'l',
        "toml"@.len() == 4 && "toml"@[0] == 't' && "toml"@[1] == 'o' && "toml"@[2] == 'm' && "toml"@[3] == 'l',
        "xml"@.len() == 3 && "xml"@[0] == 'x' && "xml"@[1] == 'm' && "xml"@[2] == 'l',
        "html"@.len() == 4 && "html"@[0] == 'h' && "html"@[1] == 't' && "html"@[2] == 'm' && "html"@[3] == 'l',
        "htm"@.len() == 3 && "htm"@[0] == 'h' && "htm"@[1] == 't' && "htm"@[2] == 'm',
        "css"@.len() == 3 && "css"@[0] == 'c' && "css"@[1] == 's' && "css"@[2] == 's',
        "md"@.len() == 2 && "md"@[0] == 'm' && "md"@[1] == 'd',
        "markdown"@.len() == 8 && "markdown"@[0] == 'm' && "markdown"@[1] == 'a' && "markdown"@[2] == 'r' && "markdown"@[3] == 'k' && "markdown"@[4] == 'd' && "markdown"@[5] == 'o' && "markdown"@[6] == 'w' && "markdown"@[7] == 'n',
        "rst"@.len() == 3 && "rst"@[0] == 'r' && "rst"@[1] == 's' && "rst"@[2] == 't',
        "tex"@.len() == 3 && "tex"@[0] == 't' && "tex"@[1] == 'e' && "tex"@[2] == 'x',
        "latex"@.len() == 5 && "latex"@[0] == 'l' && "latex"@[1] == 'a' && "latex"@[2] == 't' && "latex"@[3] == 'e' && "latex"@[4] == 'x',
        "py"@.len() == 2 && "py"@[0] == 'p' && "py"@[1] == 'y',
        "rs"@.len() == 2 && "rs"@[0] == 'r' && "rs"@[1] == 's',
        "c"@.len() == 1 && "c"@[0] == 'c',
        "h"@.len() == 1 && "h"@[0] == 'h',
        "cpp"@.len() == 3 && "cpp"@[0] == 'c' && "cpp"@[1] == 'p' && "cpp"@[2] == 'p',
        "cc"@.len() == 2 && "cc"@[0] == 'c' && "cc"@[1] == 'c',
        "cxx"@.len() == 3 && "cxx"@[0] == 'c' && "cxx"@[1] == 'x' && "cxx"@[2] == 'x',
        "hpp"@.len() == 3 && "hpp"@[0] == 'h' && "hpp"@[1] == 'p' && "hpp"@[2] == 'p',
        "hh"@.len() == 2 && "hh"@[0] == 'h' && "hh"@[1] == 'h',
        "hxx"@.len() == 3 && "hxx"@[0] == 'h' && "hxx"@[1] == 'x' && "hxx"@[2] == 'x',
        "java"@.len() == 4 && "java"@[0] == 'j' && "java"@[1] == 'a' && "java"@[2] == 'v' && "java"@[3] == 'a',
        "go"@.len() == 2 && "go"@[0] == 'g' && "go"@[1] == 'o',
        "js"@.len() == 2 && "js"@[0] == 'j' && "js"@[1] == 's',
        "mjs"@.len() == 3 && "mjs"@[0] == 'm' && "mjs"@[1] == 'j' && "mjs"@[2] == 's',
        "cjs"@.len() == 3 && "cjs"@[0] == 'c' && "cjs"@[1] == 'j' && "cjs"@[2] == 's',
        "ts"@.len() == 2 && "ts"@[0] == 't' && "ts"@[1] == 's',
        "mts"@.len() == 3 && "mts"@[0] == 'm' && "mts"@[1] == 't' && "mts"@[2] == 's',
        "cts"@.len() == 3 && "cts"@[0] == 'c' && "cts"@[1] == 't' && "cts"@[2] == 's',
        "rb"@.len() == 2 && "rb"@[0] == 'r' && "rb"@[1] == 'b',
        "pl"@.len() == 2 && "pl"@[0] == 'p' && "pl"@[1] == 'l',
        "pm"@.len() == 2 && "pm"@[0] == 'p' && "pm"@[1] == 'm',
        "php"@.len() == 3 && "php"@[0] == 'p' && "php"@[1] == 'h' && "php"@[2] == 'p',
        "r"@.len() == 1 && "r"@[0] == 'r',
        "jl"@.len() == 2 && "jl"@[0] == 'j' && "jl"@[1] == 'l',
        "lua"@.len() == 3 && "lua"@[0] == 'l' && "lua"@[1] == 'u' && "lua"@[2] == 'a',
        "swift"@.len() == 5 && "swift"@[0] == 's' && "swift"@[1] == 'w' && "swift"@[2] == 'i' && "swift"@[3] == 'f' && "swift"@[4] == 't',
        "kt"@.len() == 2 && "kt"@[0] == 'k' && "kt"@[1] == 't',
        "kts"@.len() == 3 && "kts"@[0] == 'k' && "kts"@[1] == 't' && "kts"@[2] == 's',
        "scala"@.len() == 5 && "scala"@[0] == 's' && "scala"@[1] == 'c' && "scala"@[2] == 'a' && "scala"@[3] == 'l' && "scala"@[4] == 'a',
        "hs"@.len() == 2 && "hs"@[0] == 'h' && "hs"@[1] == 's',
        "ml"@.len() == 2 && "ml"@[0] == 'm' && "ml"@[1] == 'l',
        "mli"@.len() == 3 && "mli"@[0] == 'm' && "mli"@[1] == 'l' && "mli"@[2] == 'i',
        "ex"@.len() == 2 && "ex"@[0] == 'e' && "ex"@[1] == 'x',
        "exs"@.len() == 3 && "exs"@[0] == 'e' && "exs"@[1] == 'x' && "exs"@[2] == 's',
        "erl"@.len() == 3 && "erl"@[0] == 'e' && "erl"@[1] == 'r' && "erl"@[2] == 'l',
        "hrl"@.len() == 3 && "hrl"@[0] == 'h' && "hrl"@[1] == 'r' && "hrl"@[2] == 'l',
        "f"@.len() == 1 && "f"@[0] == 'f',
        "f90"@.len() == 3 && "f90"@[0] == 'f' && "f90"@[1] == '9' && "f90"@[2] == '0',
        "f95"@.len() == 3 && "f95"@[0] == 'f' && "f95"@[1] == '9' && "f95"@[2] == '5',
        "f03"@.len() == 3 && "f03"@[0] == 'f' && "f03"@[1] == '0' && "f03"@[2] == '3',
        "f08"@.len() == 3 && "f08"@[0] == 'f' && "f08"@[1] == '0' && "f08"@[2] == '8',
        "for"@.len() == 3 && "for"@[0] == 'f' && "for"@[1] == 'o' && "for"@[2] == 'r',
        "sh"@.len() == 2 && "sh"@[0] == 's' && "sh"@[1] == 'h',
        "bash"@.len() == 4 && "bash"@[0] == 'b' && "bash"@[1] == 'a' && "bash"@[2] == 's' && "bash"@[3] == 'h',
        "zsh"@.len() == 3 && "zsh"@[0] == 'z' && "zsh"@[1] == 's' && "zsh"@[2] == 'h',
        "fish"@.len() == 4 && "fish"@[0] == 'f' && "fish"@[1] == 'i' && "fish"@[2] == 's' && "fish"@[3] == 'h',
        "ps1"@.len() == 3 && "ps1"@[0] == 'p' && "ps1"@[1] == 's' && "ps1"@[2] == '1',
        "sql"@.len() == 3 && "sql"@[0] == 's' && "sql"@[1] == 'q' && "sql"@[2] == 'l',
        "graphql"@.len() == 7 && "graphql"@[0] == 'g' && "graphql"@[1] == 'r' && "graphql"@[2] == 'a' && "graphql"@[3] == 'p' && "graphql"@[4] == 'h' && "graphql"@[5] == 'q' && "graphql"@[6] == 'l',
        "gql"@.len() == 3 && "gql"@[0] == 'g' && "gql"@[1] == 'q' && "gql"@[2] == 'l',
        "proto"@.len() == 5 && "proto"@[0] == 'p' && "proto"@[1] == 'r' && "proto"@[2] == 'o' && "proto"@[3] == 't' && "proto"@[4] == 'o',
        "ini"@.len() == 3 && "ini"@[0] == 'i' && "ini"@[1] == 'n' && "ini"@[2] == 'i',
        "cfg"@.len() == 3 && "cfg"@[0] == 'c' && "cfg"@[1] == 'f' && "cfg"@[2] == 'g',
        "conf"@.len() == 4 && "conf"@[0] == 'c' && "conf"@[1] == 'o' && "conf"@[2] == 'n' && "conf"@[3] == 'f',
        "env"@.len() == 3 && "env"@[0] == 'e' && "env"@[1] == 'n' && "env"@[2] == 'v',
        "txt"@.len() == 3 && "txt"@[0] == 't' && "txt"@[1] == 'x' && "txt"@[2] == 't',
        "text"@.len() == 4 && "text"@[0] == 't' && "text"@[1] == 'e' && "text"@[2] == 'x' && "text"@[3] == 't',
        "log"@.len() == 3 && "log"@[0] == 'l' && "log"@[1] == 'o' && "log"@[2] == 'g',
        "makefile"@.len() == 8 && "makefile"@[0] == 'm' && "makefile"@[1] == 'a' && "makefile"@[2] == 'k' && "makefile"@[3] == 'e' && "makefile"@[4] == 'f' && "makefile"@[5] == 'i' && "makefile"@[6] == 'l' && "makefile"@[7] == 'e',
{
    reveal_strlit("csv");
    reveal_strlit("tsv");
    reveal_strlit("json");
    reveal_strlit("jsonl");
    reveal_strlit("ndjson");
    reveal_strlit("yaml");
    reveal_strlit("yml");
    reveal_strlit("toml");
    reveal_strlit("xml");
    reveal_strlit("html");
    reveal_strlit("htm");
    reveal_strlit("css");
    reveal_strlit("md");
    reveal_strlit("markdown");
    reveal_strlit("rst");
    reveal_strlit("tex");
    reveal_strlit("latex");
    reveal_strlit("py");
    reveal_strlit("rs");
    reveal_strlit("c");
    reveal_strlit("h");
    reveal_strlit("cpp");
    reveal_strlit("cc");
    reveal_strlit("cxx");
    reveal_strlit("hpp");
    reveal_strlit("hh");
    reveal_strlit("hxx");
    reveal_strlit("java");
    reveal_strlit("go");
    reveal_strlit("js");
    reveal_strlit("mjs");
    reveal_strlit("cjs");
    reveal_strlit("ts");
    reveal_strlit("mts");
    reveal_strlit("cts");
    reveal_strlit("rb");
    reveal_strlit("pl");
    reveal_strlit("pm");
    reveal_strlit("php");
    reveal_strlit("r");
    reveal_strlit("jl");
    reveal_strlit("lua");
    reveal_strlit("swift");
    reveal_strlit("kt");
    reveal_strlit("kts");
    reveal_strlit("scala");
    reveal_strlit("hs");
    reveal_strlit("ml");
    reveal_strlit("mli");
    reveal_strlit("ex");
    reveal_strlit("exs");
    reveal_strlit("erl");
    reveal_strlit("hrl");
    reveal_strlit("f");
    reveal_strlit("f90");
    reveal_strlit("f95");
    reveal_strlit("f03");
    reveal_strlit("f08");
    reveal_strlit("for");
    reveal_strlit("sh");
    reveal_strlit("bash");
    reveal_strlit("zsh");
    reveal_strlit("fish");
    reveal_strlit("ps1");
    reveal_strlit("sql");
    reveal_strlit("graphql");
    reveal_strlit("gql");
    reveal_strlit("proto");
    reveal_strlit("ini");
    reveal_strlit("cfg");
    reveal_strlit("conf");
    reveal_strlit("env");
    reveal_strlit("txt");
    reveal_strlit("text");
    reveal_strlit("log");
    reveal_strlit("makefile");
}

/// The extensions that have a word of their own.
#[verifier::rlimit(60)]
#[verifier::spinoff_prover]
pub proof fn law_extension_words()
    ensures
        extension_kind("csv"@) == Some("CSV text"@),
        extension_kind("tsv"@) == Some("TSV text"@),
        extension_kind("json"@) == Some("JSON text"@),
        extension_kind("jsonl"@) == Some("JSON Lines text"@),
        extension_kind("ndjson"@) == Some("JSON Lines text"@),
        extension_kind("yaml"@) == Some("YAML text"@),
        extension_kind("yml"@) == Some("YAML text"@),
        extension_kind("toml"@) == Some("TOML text"@),
        extension_kind("xml"@) == Some("XML text"@),
        extension_kind("html"@) == Some("HTML text"@),
        extension_kind("htm"@) == Some("HTML text"@),
        extension_kind("css"@) == Some("CSS text"@),
        extension_kind("md"@) == Some("Markdown text"@),
        extension_kind("markdown"@) == Some("Markdown text"@),
        extension_kind("rst"@) == Some("reStructuredText"@),
        extension_kind("tex"@) == Some("LaTeX text"@),
        extension_kind("latex"@) == Some("LaTeX text"@),
        extension_kind("py"@) == Some("Python source"@),
        extension_kind("rs"@) == Some("Rust source"@),
        extension_kind("c"@) == Some("C source"@),
        extension_kind("h"@) == Some("C header"@),
        extension_kind("cpp"@) == Some("C++ source"@),
        extension_kind("cc"@) == Some("C++ source"@),
        extension_kind("cxx"@) == Some("C++ source"@),
        extension_kind("hpp"@) == Some("C++ header"@),
        extension_kind("hh"@) == Some("C++ header"@),
        extension_kind("hxx"@) == Some("C++ header"@),
        extension_kind("java"@) == Some("Java source"@),
        extension_kind("go"@) == Some("Go source"@),
        extension_kind("js"@) == Some("JavaScript source"@),
        extension_kind("mjs"@) == Some("JavaScript source"@),
        extension_kind("cjs"@) == Some("JavaScript source"@),
        extension_kind("ts"@) == Some("TypeScript source"@),
        extension_kind("mts"@) == Some("TypeScript source"@),
        extension_kind("cts"@) == Some("TypeScript source"@),
        extension_kind("rb"@) == Some("Ruby source"@),
        extension_kind("pl"@) == Some("Perl source"@),
        extension_kind("pm"@) == Some("Perl source"@),
        extension_kind("php"@) == Some("PHP source"@),
        extension_kind("r"@) == Some("R source"@),
        extension_kind("jl"@) == Some("Julia source"@),
        extension_kind("lua"@) == Some("Lua source"@),
        extension_kind("swift"@) == Some("Swift source"@),
        extension_kind("kt"@) == Some("Kotlin source"@),
        extension_kind("kts"@) == Some("Kotlin source"@),
        extension_kind("scala"@) == Some("Scala source"@),
        extension_kind("hs"@) == Some("Haskell source"@),
        extension_kind("ml"@) == Some("OCaml source"@),
        extension_kind("mli"@) == Some("OCaml source"@),
        extension_kind("ex"@) == Some("Elixir source"@),
        extension_kind("exs"@) == Some("Elixir source"@),
        extension_kind("erl"@) == Some("Erlang source"@),
        extension_kind("hrl"@) == Some("Erlang source"@),
        extension_kind("f"@) == Some("Fortran source"@),
        extension_kind("f90"@) == Some("Fortran source"@),
        extension_kind("f95"@) == Some("Fortran source"@),
        extension_kind("f03"@) == Some("Fortran source"@),
        extension_kind("f08"@) == Some("Fortran source"@),
        extension_kind("for"@) == Some("Fortran source"@),
        extension_kind("sh"@) == Some("Shell script"@),
        extension_kind("bash"@) == Some("Shell script"@),
        extension_kind("zsh"@) == Some("Zsh script"@),
        extension_kind("fish"@) == Some("Fish script"@),
        extension_kind("ps1"@) == Some("PowerShell script"@),
        extension_kind("sql"@) == Some("SQL text"@),
        extension_kind("graphql"@) == Some("GraphQL text"@),
        extension_kind("gql"@) == Some("GraphQL text"@),
        extension_kind("proto"@) == Some("Protocol Buffers text"@),
        extension_kind("ini"@) == Some("Configuration text"@),
        extension_kind("cfg"@) == Some("Configuration text"@),
        extension_kind("conf"@) == Some("Configuration text"@),
        extension_kind("env"@) == Some("Environment file"@),
        extension_kind("txt"@) == Some("Plain text"@),
        extension_kind("text"@) == Some("Plain text"@),
        extension_kind("log"@) == Some("Plain text"@),
        extension_kind("makefile"@) == Some("Makefile"@),
{
    lemma_extension_letters();
}

} // verus!
