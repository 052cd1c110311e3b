use kparams::docs::Documentation;
use kparams::extract::extract;
use kparams::section::SysctlSection;

fn triples(docs: &[Documentation]) -> Vec<(String, String, SysctlSection)> {
    docs.iter()
        .map(|d| (d.name.clone(), d.description.clone(), d.section))
        .collect()
}

fn triple(name: &str, description: &str, section: SysctlSection) -> (String, String, SysctlSection) {
    (name.to_string(), description.to_string(), section)
}

#[test]
fn empty_text_gives_no_records() {
    assert!(extract("", SysctlSection::Vm).is_empty());
}

#[test]
fn titles_and_comments_alone_give_no_records() {
    let text = "Net Parameters\n==============\n\n.. note::\n   this is not a parameter\n\n.. a comment\n";
    assert!(extract(text, SysctlSection::Net).is_empty());
}

#[test]
fn indented_text_without_heading_gives_no_records() {
    assert!(extract("   stray words\n\t more of them\n\n", SysctlSection::Fs).is_empty());
}

#[test]
fn every_record_carries_the_given_section() {
    let text = "vm.swappiness\n    Named after another section.\nnet.core\n    So is this.\n";
    let docs = extract(text, SysctlSection::Kernel);
    assert_eq!(docs.len(), 2);
    for doc in &docs {
        assert_eq!(doc.section, SysctlSection::Kernel);
    }
    assert_eq!(docs[0].name, "vm.swappiness");
    assert_eq!(docs[1].name, "net.core");
}

#[test]
fn aliases_on_one_heading_share_the_description() {
    let docs = extract("foo, bar\n    First line.\n    Second line.\n", SysctlSection::Fs);
    assert_eq!(
        triples(&docs),
        vec![
            triple("foo", "First line. Second line.", SysctlSection::Fs),
            triple("bar", "First line. Second line.", SysctlSection::Fs),
        ]
    );
}

#[test]
fn aliases_may_be_separated_by_a_slash() {
    let docs = extract("dirty_ratio / dirty_bytes\n    Limits.\n", SysctlSection::Vm);
    assert_eq!(
        triples(&docs),
        vec![
            triple("dirty_ratio", "Limits.", SysctlSection::Vm),
            triple("dirty_bytes", "Limits.", SysctlSection::Vm),
        ]
    );
}

#[test]
fn a_repeated_alias_is_recorded_once() {
    let docs = extract("foo, bar,foo,, bar\n    Text.\n", SysctlSection::Abi);
    assert_eq!(
        triples(&docs),
        vec![
            triple("foo", "Text.", SysctlSection::Abi),
            triple("bar", "Text.", SysctlSection::Abi),
        ]
    );
}

#[test]
fn title_block_gives_no_records() {
    let docs = extract("Net Parameters\n==============\n", SysctlSection::Net);
    assert!(docs.is_empty());
    let dashed = extract("Net Parameters\n--------------------\n", SysctlSection::Net);
    assert!(dashed.is_empty());
}

#[test]
fn title_block_between_entries_is_left_out() {
    let text = "first\n    One.\n\nNet Parameters\n==============\n\nsecond\n    Two.\n";
    let docs = extract(text, SysctlSection::Net);
    assert_eq!(
        triples(&docs),
        vec![
            triple("first", "One.", SysctlSection::Net),
            triple("second", "Two.", SysctlSection::Net),
        ]
    );
}

#[test]
fn a_rule_shorter_than_the_line_above_is_no_underline() {
    let docs = extract("Net Parameters\n====\n", SysctlSection::Net);
    assert_eq!(
        triples(&docs),
        vec![
            triple("Net Parameters", "", SysctlSection::Net),
            triple("====", "", SysctlSection::Net),
        ]
    );
}

#[test]
fn heading_at_end_of_input_has_empty_description() {
    let docs = extract("lonely", SysctlSection::User);
    assert_eq!(triples(&docs), vec![triple("lonely", "", SysctlSection::User)]);
    let with_break = extract("lonely\n", SysctlSection::User);
    assert_eq!(triples(&with_break), vec![triple("lonely", "", SysctlSection::User)]);
}

#[test]
fn heading_followed_by_heading_has_empty_description() {
    let docs = extract("first\nsecond\n    Words.\n", SysctlSection::Sunrpc);
    assert_eq!(
        triples(&docs),
        vec![
            triple("first", "", SysctlSection::Sunrpc),
            triple("second", "Words.", SysctlSection::Sunrpc),
        ]
    );
}

#[test]
fn extracting_twice_gives_the_same_records() {
    let text = "a, b\n    One.\n\n    Two.\nc\n\nThree.\n";
    let first = extract(text, SysctlSection::Vm);
    let second = extract(text, SysctlSection::Vm);
    assert_eq!(triples(&first), triples(&second));
    assert_eq!(first.len(), 3);
}

#[test]
fn swappiness_and_overcommit_scenario() {
    let text = "swappiness\n\nThis control is used to define how aggressive the kernel will swap.\n\novercommit_memory, overcommit_ratio\n    Controls overcommit of memory.\n";
    let docs = extract(text, SysctlSection::Vm);
    assert_eq!(
        triples(&docs),
        vec![
            triple(
                "swappiness",
                "This control is used to define how aggressive the kernel will swap.",
                SysctlSection::Vm
            ),
            triple("overcommit_memory", "Controls overcommit of memory.", SysctlSection::Vm),
            triple("overcommit_ratio", "Controls overcommit of memory.", SysctlSection::Vm),
        ]
    );
}

#[test]
fn paragraphs_are_joined_by_one_line_break() {
    let text = "param\n    First paragraph,\n    still the first.\n\n\n\n    Second paragraph.\n\n\n";
    let docs = extract(text, SysctlSection::Kernel);
    assert_eq!(
        triples(&docs),
        vec![triple(
            "param",
            "First paragraph, still the first.\nSecond paragraph.",
            SysctlSection::Kernel
        )]
    );
}

#[test]
fn a_paragraph_at_the_margin_runs_until_a_blank_line() {
    let text = "param\n\nWords at the margin\nthat go on here\n   and here.\n\nnext\n";
    let docs = extract(text, SysctlSection::Kernel);
    assert_eq!(
        triples(&docs),
        vec![
            triple("param", "Words at the margin that go on here and here.", SysctlSection::Kernel),
            triple("next", "", SysctlSection::Kernel),
        ]
    );
}

#[test]
fn directive_lines_are_left_out_of_a_description() {
    let text = "param\n    Before.\n.. note::\n    Inside.\n";
    let docs = extract(text, SysctlSection::Fs);
    assert_eq!(triples(&docs), vec![triple("param", "Before. Inside.", SysctlSection::Fs)]);
}

#[test]
fn a_directive_block_outside_an_entry_is_skipped() {
    let text = ".. toctree::\n   :maxdepth: 1\n\n   index\n\nparam\n    Words.\n";
    let docs = extract(text, SysctlSection::Fs);
    assert_eq!(triples(&docs), vec![triple("param", "Words.", SysctlSection::Fs)]);
}

#[test]
fn carriage_returns_are_trimmed() {
    let text = "alpha, beta\r\n    Words.\r\n\r\nTitle\r\n=====\r\n";
    let docs = extract(text, SysctlSection::Abi);
    assert_eq!(
        triples(&docs),
        vec![
            triple("alpha", "Words.", SysctlSection::Abi),
            triple("beta", "Words.", SysctlSection::Abi),
        ]
    );
}

#[test]
fn a_heading_of_separators_names_nothing() {
    let docs = extract("first\n    One.\n, /\n    Lost.\n", SysctlSection::Abi);
    assert_eq!(triples(&docs), vec![triple("first", "One.", SysctlSection::Abi)]);
}

#[test]
fn the_section_tags_the_records_and_decides_nothing_else() {
    let text = "net.core, vm.swappiness\n    First.\n\n    Second.\nkernel\n\nThird.\n";
    let under_vm = extract(text, SysctlSection::Vm);
    let under_net = extract(text, SysctlSection::Net);
    assert_eq!(under_vm.len(), 3);
    assert_eq!(under_vm.len(), under_net.len());
    for (one, other) in under_vm.iter().zip(under_net.iter()) {
        assert_eq!(one.name, other.name);
        assert_eq!(one.description, other.description);
        assert_eq!(one.section, SysctlSection::Vm);
        assert_eq!(other.section, SysctlSection::Net);
    }
}

#[test]
fn names_and_descriptions_have_no_whitespace_at_their_ends() {
    let text = "  \n\t one ,two\t/ three  \r\n\n   \t Words here. \t\r\n\n\n";
    let docs = extract(text, SysctlSection::User);
    assert!(docs.is_empty());
    let text = "one ,two\t/ three  \r\n\n   \t Words here. \t\r\n\n\n";
    let docs = extract(text, SysctlSection::User);
    assert_eq!(
        triples(&docs),
        vec![
            triple("one", "Words here.", SysctlSection::User),
            triple("two", "Words here.", SysctlSection::User),
            triple("three", "Words here.", SysctlSection::User),
        ]
    );
}
