use kparams::config::{Color, Config, DisplayType};
use kparams::parameter::{display_line, one_line, tree_leaf, Parameter};
use kparams::section::SysctlSection;

fn config(display_type: DisplayType, quiet: bool) -> Config {
    colored::control::set_override(false);
    Config {
        display_type,
        section_colors: vec![(SysctlSection::Vm, Color::Red), (SysctlSection::Vm, Color::Blue)],
        default_color: Color::White,
        quiet,
    }
}

fn swappiness() -> Parameter {
    Parameter::new("vm.swappiness".to_string(), "60".to_string(), Some("[N/A]".to_string()))
}

#[test]
fn a_new_parameter_belongs_to_the_section_of_its_name() {
    let parameter = swappiness();
    assert_eq!(parameter.name, "vm.swappiness");
    assert_eq!(parameter.value, "60");
    assert_eq!(parameter.section, SysctlSection::Vm);
    assert_eq!(parameter.description, None);
    assert_eq!(parameter.docs_path, "");
    assert_eq!(parameter.docs_title, "");
    let other = Parameter::new(
        "totally.custom".to_string(),
        "1".to_string(),
        Some("What the kernel says.".to_string()),
    );
    assert_eq!(other.section, SysctlSection::Unknown);
    assert_eq!(other.description, None);
}

#[test]
fn the_absolute_name_is_the_last_field() {
    assert_eq!(swappiness().absolute_name(), Some("swappiness"));
    let deep = Parameter::new("net.ipv4.conf.all.forwarding".to_string(), "0".to_string(), None);
    assert_eq!(deep.absolute_name(), Some("forwarding"));
    let flat = Parameter::new("hostname".to_string(), "box".to_string(), None);
    assert_eq!(flat.absolute_name(), Some("hostname"));
    let open = Parameter::new("vm.".to_string(), String::new(), None);
    assert_eq!(open.absolute_name(), Some(""));
    let wide = Parameter::new("vm.größe".to_string(), String::new(), None);
    assert_eq!(wide.absolute_name(), Some("größe"));
}

#[test]
fn without_styles_the_colored_name_is_the_name() {
    let config = config(DisplayType::Default, false);
    assert_eq!(swappiness().colored_name(&config), "vm.swappiness");
    let deep = Parameter::new("net.ipv4.conf.all.forwarding".to_string(), "0".to_string(), None);
    assert_eq!(deep.colored_name(&config), "net.ipv4.conf.all.forwarding");
}

#[test]
fn without_styles_the_tree_components_are_the_fields() {
    let config = config(DisplayType::Default, false);
    let parameter =
        Parameter::new("kernel.sched.latency".to_string(), "1\n2\n".to_string(), None);
    assert_eq!(
        parameter.get_tree_components(&config),
        vec!["kernel", "sched", "latency = 1 2 "]
    );
}

#[test]
fn without_styles_each_display_shows_its_part() {
    let parameter = swappiness();
    assert_eq!(parameter.display_value(&config(DisplayType::Name, false)), "vm.swappiness\n");
    assert_eq!(parameter.display_value(&config(DisplayType::Value, false)), "60\n");
    assert_eq!(parameter.display_value(&config(DisplayType::Binary, false)), "60");
    assert_eq!(
        parameter.display_value(&config(DisplayType::Default, false)),
        "vm.swappiness = 60\n"
    );
}

#[test]
fn lines_are_put_together_by_kind() {
    assert_eq!(display_line(DisplayType::Name, "n", "=", "v"), "n\n");
    assert_eq!(display_line(DisplayType::Value, "n", "=", "v"), "v\n");
    assert_eq!(display_line(DisplayType::Binary, "n", "=", "v"), "v");
    assert_eq!(display_line(DisplayType::Default, "n", "=", "v"), "n = v\n");
    assert_eq!(tree_leaf("latency", "=", "12"), "latency = 12");
    assert_eq!(one_line("a\nb\n\nc"), "a b  c");
    assert_eq!(one_line(""), "");
}

#[test]
fn documentation_is_the_title_the_description_and_the_source() {
    let mut parameter = swappiness();
    assert_eq!(parameter.get_documentation(), None);
    assert_eq!(parameter.display_documentation(), "No documentation available\n");
    parameter.description = Some("How eagerly the kernel swaps.".to_string());
    parameter.docs_title = "swappiness".to_string();
    parameter.docs_path = "/usr/share/doc/linux/admin-guide/sysctl/vm.rst".to_string();
    let expected = "swappiness\n==========\nHow eagerly the kernel swaps.\n-\nParameter: vm.swappiness\nReference: /usr/share/doc/linux/admin-guide/sysctl/vm.rst";
    assert_eq!(parameter.get_documentation(), Some(expected.to_string()));
    assert_eq!(parameter.display_documentation(), format!("{}\n\n", expected));
}

#[test]
fn the_rule_under_a_title_is_as_long_as_the_title_in_bytes() {
    let mut parameter = swappiness();
    parameter.description = Some(String::new());
    parameter.docs_title = "größe".to_string();
    assert_eq!(
        parameter.get_documentation(),
        Some("größe\n=======\n\n-\nParameter: vm.swappiness\nReference: ".to_string())
    );
    parameter.docs_title = String::new();
    assert_eq!(
        parameter.get_documentation(),
        Some("\n\n\n-\nParameter: vm.swappiness\nReference: ".to_string())
    );
}

#[test]
fn a_new_value_is_kept_and_shown_unless_quiet() {
    let mut parameter = swappiness();
    let shown = parameter.update_value("10".to_string(), &config(DisplayType::Default, false));
    assert_eq!(shown, Some("vm.swappiness = 10\n".to_string()));
    assert_eq!(parameter.value, "10");
    let silent = parameter.update_value("20".to_string(), &config(DisplayType::Default, true));
    assert_eq!(silent, None);
    assert_eq!(parameter.value, "20");
    assert_eq!(parameter.name, "vm.swappiness");
}
