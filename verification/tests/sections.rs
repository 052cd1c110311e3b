use kparams::section::SysctlSection;

#[test]
fn variants_are_the_seven_sections_in_order() {
    assert_eq!(
        SysctlSection::variants(),
        &[
            SysctlSection::Abi,
            SysctlSection::Fs,
            SysctlSection::Kernel,
            SysctlSection::Net,
            SysctlSection::Sunrpc,
            SysctlSection::User,
            SysctlSection::Vm,
        ]
    );
    assert!(!SysctlSection::variants().contains(&SysctlSection::Unknown));
}

#[test]
fn sections_are_shown_in_lower_case() {
    let shown: Vec<String> = SysctlSection::variants().iter().map(|s| s.to_string()).collect();
    assert_eq!(shown, vec!["abi", "fs", "kernel", "net", "sunrpc", "user", "vm"]);
    assert_eq!(SysctlSection::Unknown.to_string(), "unknown");
    assert_eq!(SysctlSection::Sunrpc.as_str(), "sunrpc");
}

#[test]
fn path_ending_in_vm_is_the_vm_section() {
    assert_eq!(
        SysctlSection::from_path("/usr/share/doc/linux/admin-guide/sysctl/vm"),
        SysctlSection::Vm
    );
    assert_eq!(SysctlSection::from_path("vm"), SysctlSection::Vm);
    assert_eq!(SysctlSection::from_path("sysctl/kernel.rst"), SysctlSection::Kernel);
}

#[test]
fn path_ending_in_xyz_is_unknown() {
    assert_eq!(SysctlSection::from_path("xyz"), SysctlSection::Unknown);
    assert_eq!(SysctlSection::from_path("/usr/share/doc/xyz"), SysctlSection::Unknown);
}

#[test]
fn file_stems_are_compared_with_regard_to_case() {
    assert_eq!(SysctlSection::from_path("docs/VM"), SysctlSection::Unknown);
    assert_eq!(SysctlSection::from_path("docs/Net.rst"), SysctlSection::Unknown);
    assert_eq!(SysctlSection::from_stem(Some("Vm")), SysctlSection::Unknown);
}

#[test]
fn a_section_directory_is_not_its_file() {
    assert_eq!(SysctlSection::from_path("vm/index.rst"), SysctlSection::Unknown);
    assert_eq!(SysctlSection::from_path(""), SysctlSection::Unknown);
    assert_eq!(SysctlSection::from_path("net/.."), SysctlSection::Unknown);
}

#[test]
fn stems_name_their_sections() {
    for section in SysctlSection::variants() {
        assert_eq!(SysctlSection::from_stem(Some(section.as_str())), *section);
    }
    assert_eq!(SysctlSection::from_stem(Some("unknown")), SysctlSection::Unknown);
    assert_eq!(SysctlSection::from_stem(Some("")), SysctlSection::Unknown);
    assert_eq!(SysctlSection::from_stem(None), SysctlSection::Unknown);
}

#[test]
fn dotted_name_under_net_is_the_net_section() {
    assert_eq!(
        SysctlSection::from("net.ipv4.ip_forward".to_string()),
        SysctlSection::Net
    );
    assert_eq!(SysctlSection::from_dotted_name("net.ipv4.ip_forward"), SysctlSection::Net);
}

#[test]
fn dotted_name_under_no_section_is_unknown() {
    assert_eq!(SysctlSection::from("totally.custom".to_string()), SysctlSection::Unknown);
    assert_eq!(SysctlSection::from_dotted_name("totally.custom"), SysctlSection::Unknown);
}

#[test]
fn a_dotted_name_needs_the_dot_after_the_section() {
    assert_eq!(SysctlSection::from_dotted_name("vm"), SysctlSection::Unknown);
    assert_eq!(SysctlSection::from_dotted_name("vmx.y"), SysctlSection::Unknown);
    assert_eq!(SysctlSection::from_dotted_name("vm."), SysctlSection::Vm);
    assert_eq!(SysctlSection::from_dotted_name("Vm.swappiness"), SysctlSection::Unknown);
    assert_eq!(SysctlSection::from_dotted_name("x.vm.swappiness"), SysctlSection::Unknown);
    assert_eq!(SysctlSection::from_dotted_name(""), SysctlSection::Unknown);
}

#[test]
fn every_section_claims_its_own_dotted_names() {
    for section in SysctlSection::variants() {
        let name = format!("{}.some.parameter", section.to_string());
        assert_eq!(SysctlSection::from(name), *section);
    }
    assert_eq!(SysctlSection::from_dotted_name("unknown.parameter"), SysctlSection::Unknown);
}

#[test]
fn a_path_without_a_stem_is_unknown() {
    assert_eq!(SysctlSection::from_path("/"), SysctlSection::Unknown);
    assert_eq!(SysctlSection::from_path("vm/.."), SysctlSection::Unknown);
    assert_eq!(SysctlSection::from_path(".."), SysctlSection::Unknown);
}

#[test]
fn a_path_that_is_a_section_name_is_that_section() {
    for section in SysctlSection::variants() {
        assert_eq!(SysctlSection::from_path(section.as_str()), *section);
        let nested = format!("/usr/share/doc/{}.rst", section.as_str());
        assert_eq!(SysctlSection::from_path(&nested), *section);
    }
}
