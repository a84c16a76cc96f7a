use std::io::{Cursor, Write};

use cab::{CabinetBuilder, CompressionType};
use psf_expand::container::{find_inner, list_nested, open_inner, open_update, ContainerError};

fn cabinet(files: &[(&str, &[u8])]) -> Vec<u8> {
    cabinet_with(CompressionType::MsZip, files)
}

fn cabinet_with(ctype: CompressionType, files: &[(&str, &[u8])]) -> Vec<u8> {
    let mut builder = CabinetBuilder::new();
    {
        let folder = builder.add_folder(ctype);
        for (name, _) in files {
            folder.add_file(name.to_string());
        }
    }
    let mut writer = builder.build(Cursor::new(Vec::new())).unwrap();
    let mut i = 0;
    while let Some(mut file) = writer.next_file().unwrap() {
        file.write_all(files[i].1).unwrap();
        i += 1;
    }
    writer.finish().unwrap().into_inner()
}

fn inner_cab() -> Vec<u8> {
    cabinet(&[
        ("update.mum", b"mum"),
        ("express.psf.cix.xml", b"<Container/>"),
        ("Windows10.0-KB5022842-x64.psf", b"blob bytes"),
    ])
}

fn package() -> Vec<u8> {
    let inner = inner_cab();
    cabinet(&[
        ("WSUSSCAN.cab", b"not this one"),
        ("Windows10.0-KB5022842-x64.cab", &inner),
    ])
}

#[test]
fn update_parts_found() {
    let parts = open_update(&package()).unwrap();
    assert_eq!(parts.cab_name, "Windows10.0-KB5022842-x64.cab");
    assert_eq!(parts.manifest_document, b"<Container/>".to_vec());
    assert_eq!(parts.patch_blob, b"blob bytes".to_vec());
}

#[test]
fn inner_container_selected() {
    let (name, bytes) = find_inner(&package()).unwrap();
    assert_eq!(name, "Windows10.0-KB5022842-x64.cab");
    assert_eq!(bytes, inner_cab());
}

#[test]
fn not_a_cabinet() {
    assert_eq!(open_update(b"plain text").err(), Some(ContainerError::Malformed));
    assert_eq!(find_inner(&[]).err(), Some(ContainerError::Malformed));
}

#[test]
fn no_update_in_package() {
    let p = cabinet(&[("readme.txt", b"hi")]);
    assert_eq!(open_update(&p).err(), Some(ContainerError::PackageNotFound));
    assert_eq!(list_nested(&p).err(), Some(ContainerError::PackageNotFound));
}

#[test]
fn missing_patch_blob() {
    let inner = cabinet(&[("a.psf.cix.xml", b"<Container/>")]);
    assert_eq!(
        open_inner("Windows10.0-KB1-x64.cab", &inner).err(),
        Some(ContainerError::EntryNotFound)
    );
    let inner = cabinet(&[("Windows10.0-KB1-x64.psf", b"x")]);
    assert_eq!(
        open_inner("Windows10.0-KB1-x64.cab", &inner).err(),
        Some(ContainerError::EntryNotFound)
    );
    let inner = cabinet(&[("x.psf.cix.xml", b"doc"), ("Windows10.0-KB1-x64.psf", b"x")]);
    assert_eq!(
        open_inner("Windows10.0-KB1-x64.cab", &inner),
        Ok((b"doc".to_vec(), b"x".to_vec()))
    );
}

#[test]
fn nested_container_listed() {
    let nested = cabinet(&[("one.dll", b"1"), ("two.dll", b"2")]);
    let inner = cabinet(&[("Windows11.0-KB9-arm64.cab", &nested)]);
    let p = cabinet(&[("Windows11.0-KB9-arm64.cab", &inner)]);
    let (name, entries) = list_nested(&p).unwrap();
    assert_eq!(name, "Windows11.0-KB9-arm64.cab");
    assert_eq!(entries, vec!["one.dll".to_string(), "two.dll".to_string()]);
    assert_eq!(list_nested(&package()).err(), Some(ContainerError::EntryNotFound));
}

#[test]
fn stored_cabinets_read() {
    let inner = cabinet_with(
        CompressionType::None,
        &[("express.psf.cix.xml", b"<Container/>"), ("Windows10.0-KB7-x64.psf", b"0123456789")],
    );
    let p = cabinet_with(CompressionType::None, &[("Windows10.0-KB7-x64.cab", &inner)]);
    let parts = open_update(&p).unwrap();
    assert_eq!(parts.patch_blob, b"0123456789".to_vec());
}

#[test]
fn short_data_block_refused() {
    let mut inner = cabinet_with(
        CompressionType::None,
        &[("x.psf.cix.xml", b"ab"), ("Windows10.0-KB7-x64.psf", b"cdefgh")],
    );
    let first_block = u32::from_le_bytes([inner[36], inner[37], inner[38], inner[39]]) as usize;
    let declared = u16::from_le_bytes([inner[first_block + 4], inner[first_block + 5]]);
    let longer = (declared + 5).to_le_bytes();
    inner[first_block + 6] = longer[0];
    inner[first_block + 7] = longer[1];
    assert_eq!(
        open_inner("Windows10.0-KB7-x64.cab", &inner).err(),
        Some(ContainerError::Malformed)
    );
}

#[test]
fn inner_entry_not_a_cabinet() {
    let p = cabinet(&[("Windows10.0-KB7-x64.cab", b"not a cabinet at all, just text")]);
    assert_eq!(open_update(&p).err(), Some(ContainerError::Malformed));
    assert_eq!(list_nested(&p).err(), Some(ContainerError::Malformed));
}
