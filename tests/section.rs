use dotnet_bindgen::section::{LoadedSection, LoadedSections, Relocation, RelocationError, SectionRef};

fn sections() -> LoadedSections {
    LoadedSections {
        data_section: LoadedSection { vm_start: 0x2000, data: vec![0xAA; 8] },
        bindgen_section: LoadedSection { vm_start: 0x1000, data: vec![0; 16] },
    }
}

#[test]
fn addresses_map_to_section_offsets() {
    let s = sections();
    assert_eq!(s.map_addr(0x1004), Some((SectionRef::Bindgen, 4)));
    assert_eq!(s.map_addr(0x2007), Some((SectionRef::Data, 7)));
    assert_eq!(s.map_addr(0x2008), None);
    assert_eq!(s.map_addr(0x0fff), None);
}

#[test]
fn relocation_writes_resolved_address_little_endian() {
    let mut s = sections();
    let relocs = vec![
        Relocation { r_offset: 0x1008, r_sym: 0, r_addend: Some(4) },
        Relocation { r_offset: 0x9000, r_sym: 7, r_addend: None },
    ];
    assert_eq!(s.perform_relocs(&relocs, &vec![0x2000]), Ok(()));
    assert_eq!(&s.bindgen_section.data[8..16], &[0x04, 0x20, 0, 0, 0, 0, 0, 0]);
    assert_eq!(&s.bindgen_section.data[..8], &[0; 8]);
    assert_eq!(s.data_section.data, vec![0xAA; 8]);
}

#[test]
fn negative_addend_and_no_addend() {
    let mut s = sections();
    let relocs = vec![
        Relocation { r_offset: 0x1000, r_sym: 0, r_addend: Some(-1) },
        Relocation { r_offset: 0x2000, r_sym: 1, r_addend: None },
    ];
    assert_eq!(s.perform_relocs(&relocs, &vec![0x2001, 0x1000]), Ok(()));
    assert_eq!(&s.bindgen_section.data[..8], &[0x00, 0x20, 0, 0, 0, 0, 0, 0]);
    assert_eq!(s.data_section.data, vec![0x00, 0x10, 0, 0, 0, 0, 0, 0]);
}

#[test]
fn relocation_errors() {
    let mut s = sections();
    let missing = vec![Relocation { r_offset: 0x1000, r_sym: 3, r_addend: None }];
    assert_eq!(s.perform_relocs(&missing, &vec![0x2000]), Err(RelocationError::MissingSymbol));
    let outside = vec![Relocation { r_offset: 0x1000, r_sym: 0, r_addend: None }];
    assert_eq!(s.perform_relocs(&outside, &vec![0x5000]), Err(RelocationError::SymbolOutsideSections));
    let short = vec![Relocation { r_offset: 0x100C, r_sym: 0, r_addend: None }];
    assert_eq!(s.perform_relocs(&short, &vec![0x2000]), Err(RelocationError::TargetTooShort));
}
