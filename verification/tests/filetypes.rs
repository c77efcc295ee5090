use xdu_view::filetype::{
    describe_content, describe_elf, describe_macho, describe_shebang, describe_text_by_extension,
    detect_file_type,
};

fn elf(class: u8, endian: u8, kind: u16, machine: u16) -> Vec<u8> {
    let mut b = vec![0x7F, b'E', b'L', b'F', class, endian, 1, 0, 0, 0, 0, 0, 0, 0, 0, 0];
    for v in [kind, machine] {
        b.extend(if endian == 1 { v.to_le_bytes() } else { v.to_be_bytes() });
    }
    b
}

#[test]
fn elf_headers() {
    assert_eq!(
        describe_elf(&elf(2, 1, 2, 0x3E)).as_deref(),
        Some("ELF 64-bit LSB executable, x86-64")
    );
    assert_eq!(
        describe_elf(&elf(1, 2, 3, 0x08)).as_deref(),
        Some("ELF 32-bit MSB shared object, MIPS")
    );
    assert_eq!(
        describe_elf(&elf(9, 9, 4, 0xFFFF)).as_deref(),
        Some("ELF unknown-class unknown-endian core dump, unknown-arch")
    );
    assert_eq!(describe_elf(&[0x7F, b'E', b'L', b'F']), None);
}

#[test]
fn elf_is_told_by_its_header_whatever_the_magic() {
    let b = elf(2, 1, 3, 0xB7);
    let expected = ("ELF 64-bit LSB shared object, AArch64".to_string(), false);
    assert_eq!(detect_file_type(&b, "/x/lib.txt"), expected);
    let magic = Some(("text/html".to_string(), "html".to_string()));
    assert_eq!(describe_content(&b, "/x/lib.txt", magic), expected);
    assert_eq!(describe_content(&b, "/x/lib.txt", None), expected);
    assert_eq!(
        describe_content(&[0x7F, b'E', b'L', b'F'], "x", None),
        ("ELF binary".to_string(), false)
    );
    assert_eq!(detect_file_type(b"\x7FELF", "x.txt"), ("ELF binary".to_string(), false));
    let mut long = b.clone();
    long.resize(64, 0);
    assert_eq!(detect_file_type(&long, "/x/lib.txt"), expected);
}

fn macho(magic: [u8; 4], cpu: [u8; 4], kind: [u8; 4]) -> Vec<u8> {
    let mut b = magic.to_vec();
    b.extend(cpu);
    b.extend([0, 0, 0, 0]);
    b.extend(kind);
    b
}

#[test]
fn macho_headers() {
    let b = macho([0xCF, 0xFA, 0xED, 0xFE], [7, 0, 0, 1], [2, 0, 0, 0]);
    assert_eq!(describe_macho(&b).as_deref(), Some("Mach-O 64-bit executable, x86-64"));
    let b = macho([0xFE, 0xED, 0xFA, 0xCE], [0, 0, 0, 12], [0, 0, 0, 6]);
    assert_eq!(describe_macho(&b).as_deref(), Some("Mach-O 32-bit dylib, ARM"));
    let b = [0xCA, 0xFE, 0xBA, 0xBE, 0, 0, 0, 2];
    assert_eq!(
        describe_content(&b, "x", None),
        ("Mach-O universal binary".to_string(), false)
    );
    let b = [0xCE, 0xFA, 0xED, 0xFE, 0, 0, 0, 2];
    assert_eq!(
        describe_content(&b, "x", None),
        ("Mach-O 32-bit binary, unknown-arch".to_string(), false)
    );
    assert_eq!(describe_macho(b"\xCF\xFA\xED\xFE"), None);
    assert_eq!(describe_macho(b"abcdefgh"), None);
}

#[test]
fn scripts() {
    assert_eq!(
        describe_shebang(b"#!/usr/bin/env python3\nprint()").as_deref(),
        Some("Python script, UTF-8 text")
    );
    assert_eq!(
        describe_shebang(b"#!/bin/bash -e\n").as_deref(),
        Some("Bash script, UTF-8 text")
    );
    assert_eq!(
        describe_shebang(b"#!/opt/tool\n").as_deref(),
        Some("Script (#!tool), UTF-8 text")
    );
    assert_eq!(describe_shebang(b"#!  \n"), None);
    assert_eq!(describe_shebang(b"#!\xFF\n"), None);
    assert_eq!(
        describe_content(b"#!/bin/sh\n\xFF", "x", None),
        ("POSIX shell script, UTF-8 text".to_string(), true)
    );
    assert_eq!(describe_content(b"#!\n", "x", None), ("text/plain; UTF-8".to_string(), true));
}

#[test]
fn extensions() {
    assert_eq!(describe_text_by_extension("/a/b.rs"), Some("Rust source"));
    assert_eq!(describe_text_by_extension("/a/b.PY"), Some("Python source"));
    assert_eq!(describe_text_by_extension("Makefile"), Some("Makefile"));
    assert_eq!(describe_text_by_extension("/a/b.unknown"), None);
}

#[test]
fn texts() {
    assert_eq!(detect_file_type(b"  {\"a\": 1}", "x"), ("JSON text, UTF-8".to_string(), true));
    assert_eq!(detect_file_type(b"[1]", "x.rs"), ("JSON text, UTF-8".to_string(), true));
    assert_eq!(describe_content(b"<?xml ?>", "x", None), ("XML text, UTF-8".to_string(), true));
    assert_eq!(
        describe_content(b"<!DOCTYPE html>", "x", None),
        ("XML text, UTF-8".to_string(), true)
    );
    assert_eq!(detect_file_type(b"fn main() {}", "m.rs"), ("Rust source, UTF-8".to_string(), true));
    assert_eq!(detect_file_type(b"hello", "hello"), ("text/plain; UTF-8".to_string(), true));
    assert_eq!(
        detect_file_type(&[0xFF, 0xFE, 0xFD, 0x80], "x"),
        ("application/octet-stream (binary data)".to_string(), false)
    );
}

#[test]
fn magic_numbers() {
    let png = [0x89, b'P', b'N', b'G', 0x0D, 0x0A, 0x1A, 0x0A, 0, 0, 0, 0];
    assert_eq!(detect_file_type(&png, "x.txt"), ("image/png (png)".to_string(), false));
    let gzip = [0x1F, 0x8B, 0x08, 0, 0, 0];
    assert_eq!(detect_file_type(&gzip, "x"), ("application/gzip (gz)".to_string(), false));
    let magic = Some(("image/png".to_string(), "png".to_string()));
    assert_eq!(describe_content(b"hello", "x", magic), ("image/png (png)".to_string(), false));
    let magic = Some(("text/html".to_string(), "html".to_string()));
    assert_eq!(
        describe_content(b"hello", "x.md", magic),
        ("Markdown text, UTF-8".to_string(), true)
    );
}
