use kparams::catalog::Catalog;
use kparams::error::Error;
use kparams::extract::extract;
use kparams::section::SysctlSection;

fn text_for(section: SysctlSection) -> String {
    format!("{}_first, {}_second\n    Belongs to {}.\n", section.as_str(), section.as_str(), section.as_str())
}

#[test]
fn a_new_catalog_awaits_the_first_section() {
    let catalog = Catalog::new();
    assert_eq!(catalog.pending(), Some(SysctlSection::Abi));
    assert!(catalog.finish().is_none());
}

#[test]
fn sections_are_awaited_in_their_fixed_order() {
    let mut catalog = Catalog::new();
    let mut asked = Vec::new();
    while let Some(section) = catalog.pending() {
        asked.push(section);
        catalog = match catalog.supply(Ok(String::new())) {
            Ok(next) => next,
            Err(_) => panic!("an empty text is a text"),
        };
    }
    assert_eq!(asked, SysctlSection::variants().to_vec());
    assert_eq!(catalog.finish().map(|records| records.len()), Some(0));
}

#[test]
fn the_catalog_is_the_sections_records_one_after_the_other() {
    let mut catalog = Catalog::new();
    let mut expected = Vec::new();
    for section in SysctlSection::variants() {
        assert_eq!(catalog.pending(), Some(*section));
        let text = text_for(*section);
        expected.extend(extract(&text, *section));
        catalog = match catalog.supply(Ok(text)) {
            Ok(next) => next,
            Err(_) => panic!("a text is taken in"),
        };
    }
    assert_eq!(catalog.pending(), None);
    let records = match catalog.finish() {
        Some(records) => records,
        None => panic!("the catalog is complete"),
    };
    assert_eq!(records.len(), 14);
    assert_eq!(records.len(), expected.len());
    for (got, want) in records.iter().zip(expected.iter()) {
        assert_eq!(got.name, want.name);
        assert_eq!(got.description, want.description);
        assert_eq!(got.section, want.section);
    }
    assert_eq!(records[0].name, "abi_first");
    assert_eq!(records[0].section, SysctlSection::Abi);
    assert_eq!(records[5].name, "kernel_second");
    assert_eq!(records[5].description, "Belongs to kernel.");
    assert_eq!(records[13].name, "vm_second");
    assert_eq!(records[13].section, SysctlSection::Vm);
}

#[test]
fn a_failed_reading_ends_the_assembly_with_its_error() {
    let catalog = Catalog::new();
    let catalog = match catalog.supply(Ok("first\n    Words.\n".to_string())) {
        Ok(next) => next,
        Err(_) => panic!("a text is taken in"),
    };
    assert_eq!(catalog.pending(), Some(SysctlSection::Fs));
    match catalog.supply(Err(Error::IoError("entity not found".to_string()))) {
        Ok(_) => panic!("a failure is no text"),
        Err(Error::IoError(words)) => assert_eq!(words, "entity not found"),
        Err(_) => panic!("the failure comes back as it came"),
    }
}

#[test]
fn an_incomplete_catalog_hands_out_nothing() {
    let mut catalog = Catalog::new();
    for _ in 0..6 {
        catalog = match catalog.supply(Ok("param\n    Words.\n".to_string())) {
            Ok(next) => next,
            Err(_) => panic!("a text is taken in"),
        };
    }
    assert_eq!(catalog.pending(), Some(SysctlSection::Vm));
    assert!(catalog.finish().is_none());
}

#[test]
fn a_complete_catalog_takes_no_further_text() {
    let mut catalog = Catalog::new();
    for _ in 0..9 {
        catalog = match catalog.supply(Ok("param\n    Words.\n".to_string())) {
            Ok(next) => next,
            Err(_) => panic!("a text is taken in"),
        };
    }
    assert_eq!(catalog.pending(), None);
    let records = match catalog.finish() {
        Some(records) => records,
        None => panic!("the catalog is complete"),
    };
    assert_eq!(records.len(), 7);
    let sections: Vec<SysctlSection> = records.iter().map(|r| r.section).collect();
    assert_eq!(sections, SysctlSection::variants().to_vec());
}
