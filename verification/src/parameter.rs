//! A kernel parameter, and how it is shown.

use crate::config::{embolden, is_bold, is_colored, paint, Color, Config, DisplayType};
use crate::section::SysctlSection;
use crate::text::{
    concat, join_painted, lemma_last_piece, lemma_split_pieces, rows, split, split_chars,
    string_from_chars, texts, to_chars,
};
use vstd::prelude::*;
use vstd::utf8::encode_utf8;

verus! {

/// Representation of a kernel parameter.
#[derive(Clone, Debug)]
pub struct Parameter {
    /// Name of the kernel parameter.
    pub name: String,
    /// Value of the kernel parameter.
    pub value: String,
    /// Description of the kernel parameter
    pub description: Option<String>,
    /// Section of the kernel parameter.
    pub section: SysctlSection,
    /// Documentation path.
    pub docs_path: String,
    /// Title of the kernel parameter taken from the documentation.
    pub docs_title: String,
}

/// The fields of a dotted name: what stands between its dots.
pub open spec fn fields_of(name: Seq<char>) -> Seq<Seq<char>> {
    split(name, '.', '.')
}

/// `parts` holds, for each field but the last, the field painted in
/// `field_color` and then a dot painted in `dot_color`.
pub open spec fn paints_fields(
    fields: Seq<Seq<char>>,
    parts: Seq<Seq<char>>,
    field_color: Color,
    dot_color: Color,
) -> bool {
    &&& parts.len() == 2 * (fields.len() - 1)
    &&& forall|i: int|
        0 <= i < fields.len() - 1 ==> {
            &&& is_colored(fields[i], field_color, #[trigger] parts[2 * i])
            &&& is_colored("."@, dot_color, parts[2 * i + 1])
        }
}

/// A name shown in colors: each field but the last painted in
/// `field_color`, a dot painted in `dot_color` after each of those, and the
/// last field as it is.
pub open spec fn is_colored_name(
    name: Seq<char>,
    field_color: Color,
    dot_color: Color,
    shown: Seq<char>,
) -> bool {
    exists|parts: Seq<Seq<char>>| #[trigger]
        paints_fields(fields_of(name), parts, field_color, dot_color) && shown == concat(parts)
            + fields_of(name).last()
}

/// `text` with a space for every line break.
pub open spec fn on_one_line(text: Seq<char>) -> Seq<char> {
    Seq::new(
        text.len(),
        |i: int|
            if text[i] == '\n' {
                ' '
            } else {
                text[i]
            },
    )
}

/// The last component of a tree: the field, the sign and the value, with a
/// space between them.
pub open spec fn leaf_of(field: Seq<char>, sign: Seq<char>, value: Seq<char>) -> Seq<char> {
    field + " "@ + sign + " "@ + value
}

/// A rule of `n` equals signs.
pub open spec fn ruled(n: nat) -> Seq<char> {
    Seq::new(n, |i: int| '=')
}

/// The line that shows a parameter, from the name, the sign and the value
/// as they are to be shown.
pub open spec fn line_of(
    display_type: DisplayType,
    name: Seq<char>,
    sign: Seq<char>,
    value: Seq<char>,
) -> Seq<char> {
    match display_type {
        DisplayType::Name => name + "\n"@,
        DisplayType::Value => value + "\n"@,
        DisplayType::Binary => value,
        DisplayType::Default => name + " "@ + sign + " "@ + value + "\n"@,
    }
}

/// The last component of a tree, from its three parts.
pub fn tree_leaf(field: &str, sign: &str, value: &str) -> (leaf: String)
    ensures
        leaf@ == leaf_of(field@, sign@, value@),
{
    let mut leaf = String::from_str(field);
    leaf.append(" ");
    leaf.append(sign);
    leaf.append(" ");
    leaf.append(value);
    leaf
}

/// The line that shows a parameter, from the name, the sign and the value
/// as they are to be shown. What a kind of display does not show is not
/// looked at.
pub fn display_line(display_type: DisplayType, name: &str, sign: &str, value: &str) -> (line:
    String)
    ensures
        line@ == line_of(display_type, name@, sign@, value@),
{
    match display_type {
        DisplayType::Name => {
            let mut line = String::from_str(name);
            line.append("\n");
            line
        },
        DisplayType::Value => {
            let mut line = String::from_str(value);
            line.append("\n");
            line
        },
        DisplayType::Binary => String::from_str(value),
        DisplayType::Default => {
            let mut line = String::from_str(name);
            line.append(" ");
            line.append(sign);
            line.append(" ");
            line.append(value);
            line.append("\n");
            line
        },
    }
}

/// `text` with a space for every line break.
pub fn one_line(text: &str) -> (flat: String)
    ensures
        flat@ == on_one_line(text@),
{
    let chars = to_chars(text);
    let mut flat: Vec<char> = Vec::new();
    let mut i: usize = 0;
    while i < chars.len()
        invariant
            i <= chars.len(),
            chars@ == text@,
            flat@ == on_one_line(text@).take(i as int),
        decreases chars.len() - i,
    {
        let c = chars[i];
        flat.push(
            if c == '\n' {
                ' '
            } else {
                c
            },
        );
        i += 1;
        assert(flat@ =~= on_one_line(text@).take(i as int));
    }
    assert(on_one_line(text@).take(chars.len() as int) =~= on_one_line(text@));
    string_from_chars(&flat)
}

impl Parameter {
    /// The documentation of the parameter with the given description: the
    /// title over a rule of its length in bytes, the description, and after
    /// a dash the name and the path of the documentation.
    pub open spec fn documented(&self, description: Seq<char>) -> Seq<char> {
        self.docs_title@ + "\n"@ + ruled(encode_utf8(self.docs_title@).len()) + "\n"@
            + description + "\n-\nParameter: "@ + self.name@ + "\nReference: "@
            + self.docs_path@
    }

    /// What shows the documentation, or says that there is none.
    pub open spec fn documentation_shown(&self) -> Seq<char> {
        match self.description {
            Some(description) => self.documented(description@) + "\n\n"@,
            None => "No documentation available\n"@,
        }
    }

    /// What `components` is when it holds the parts of the tree that the
    /// parameter is a leaf of: one for each field of the name, each but the
    /// last painted in the color of the parameter's section, and the last
    /// with the sign in the default color and the value, on one line, in
    /// bold.
    pub open spec fn is_tree(&self, config: &Config, components: Seq<Seq<char>>) -> bool {
        let fields = fields_of(self.name@);
        &&& components.len() == fields.len()
        &&& forall|i: int|
            0 <= i < fields.len() - 1 ==> is_colored(
                fields[i],
                config.color_of(self.section),
                #[trigger] components[i],
            )
        &&& exists|sign: Seq<char>, value: Seq<char>|
            {
                &&& is_colored("="@, config.default_color, sign)
                &&& is_bold(on_one_line(self.value@), value)
                &&& #[trigger] leaf_of(fields.last(), sign, value) == components.last()
            }
    }

    /// What `text` is when it shows the parameter as the settings ask: the
    /// line of the name in the colors of the settings, the sign in the
    /// default color and the value in bold.
    pub open spec fn is_shown(&self, config: &Config, text: Seq<char>) -> bool {
        exists|name: Seq<char>, sign: Seq<char>, value: Seq<char>|
            {
                &&& config.display_type == DisplayType::Name || config.display_type
                    == DisplayType::Default ==> is_colored_name(
                    self.name@,
                    config.color_of(self.section),
                    config.default_color,
                    name,
                )
                &&& config.display_type == DisplayType::Default ==> is_colored(
                    "="@,
                    config.default_color,
                    sign,
                )
                &&& config.display_type != DisplayType::Name ==> is_bold(self.value@, value)
                &&& #[trigger] line_of(config.display_type, name, sign, value) == text
            }
    }

    /// A parameter as the kernel gives it: its name and its value. It
    /// belongs to the section that its name begins with. The kernel's own
    /// description is not kept, and there is no documentation yet.
    pub fn new(name: String, value: String, description: Option<String>) -> (parameter: Parameter)
        ensures
            parameter.name == name,
            parameter.value == value,
            parameter.description is None,
            parameter.section == SysctlSection::of_dotted(name@),
            parameter.docs_path@ == Seq::<char>::empty(),
            parameter.docs_title@ == Seq::<char>::empty(),
    {
        let section = SysctlSection::from_dotted_name(name.as_str());
        Parameter {
            name,
            value,
            description: None,
            section,
            docs_path: String::new(),
            docs_title: String::new(),
        }
    }

    /// Returns the absolute name of the parameter, without the sections.
    pub fn absolute_name(&self) -> (last: Option<&str>)
        ensures
            last matches Some(text) && text@ == fields_of(self.name@).last(),
    {
        let chars = to_chars(self.name.as_str());
        let mut from: usize = chars.len();
        while from > 0 && chars[from - 1] != '.'
            invariant
                from <= chars.len(),
                forall|i: int| from <= i < chars.len() ==> #[trigger] chars@[i] != '.',
            decreases from,
        {
            from -= 1;
        }
        proof {
            lemma_last_piece(self.name@, '.', '.', from as int);
        }
        Some(self.name.as_str().substring_char(from, chars.len()))
    }

    /// Returns the parameter name with corresponding section colors.
    pub fn colored_name(&self, config: &Config) -> (shown: String)
        ensures
            is_colored_name(
                self.name@,
                config.color_of(self.section),
                config.default_color,
                shown@,
            ),
    {
        let section_color = config.section_color(self.section);
        let fields = split_chars(&to_chars(self.name.as_str()), '.', '.');
        proof {
            lemma_split_pieces(self.name@, '.', '.');
        }
        let n = fields.len();
        let mut parts: Vec<String> = Vec::new();
        let mut i: usize = 0;
        while i + 1 < n
            invariant
                1 <= n == fields.len(),
                i + 1 <= n,
                parts.len() == 2 * i,
                section_color == config.color_of(self.section),
                forall|j: int|
                    0 <= j < i ==> {
                        &&& is_colored(
                            rows(fields@)[j],
                            section_color,
                            #[trigger] texts(parts@)[2 * j],
                        )
                        &&& is_colored("."@, config.default_color, texts(parts@)[2 * j + 1])
                    },
            decreases n - i,
        {
            let field = string_from_chars(&fields[i]);
            let ghost before = texts(parts@);
            let painted = paint(field.as_str(), section_color);
            let dot = paint(".", config.default_color);
            parts.push(painted);
            parts.push(dot);
            proof {
                assert(texts(parts@) =~= before.push(painted@).push(dot@));
                assert forall|j: int| 0 <= j < i + 1 implies {
                    &&& is_colored(
                        rows(fields@)[j],
                        section_color,
                        #[trigger] texts(parts@)[2 * j],
                    )
                    &&& is_colored("."@, config.default_color, texts(parts@)[2 * j + 1])
                } by {
                    if j < i {
                        assert(texts(parts@)[2 * j] == before[2 * j]);
                        assert(texts(parts@)[2 * j + 1] == before[2 * j + 1]);
                    }
                }
            }
            i += 1;
        }
        let last = string_from_chars(&fields[n - 1]);
        let shown = join_painted(&parts, last.as_str());
        proof {
            assert(rows(fields@).last() == fields@[n - 1]@);
            assert(paints_fields(
                fields_of(self.name@),
                texts(parts@),
                config.color_of(self.section),
                config.default_color,
            ));
        }
        shown
    }

    /// Returns the components of the parameter to construct a tree.
    pub fn get_tree_components(&self, config: &Config) -> (components: Vec<String>)
        ensures
            self.is_tree(config, texts(components@)),
    {
        let section_color = config.section_color(self.section);
        let fields = split_chars(&to_chars(self.name.as_str()), '.', '.');
        proof {
            lemma_split_pieces(self.name@, '.', '.');
        }
        let n = fields.len();
        let mut components: Vec<String> = Vec::new();
        let mut i: usize = 0;
        while i + 1 < n
            invariant
                1 <= n == fields.len(),
                i + 1 <= n,
                components.len() == i,
                section_color == config.color_of(self.section),
                forall|j: int|
                    0 <= j < i ==> is_colored(
                        rows(fields@)[j],
                        section_color,
                        #[trigger] texts(components@)[j],
                    ),
            decreases n - i,
        {
            let field = string_from_chars(&fields[i]);
            let ghost before = texts(components@);
            let painted = paint(field.as_str(), section_color);
            components.push(painted);
            proof {
                assert(texts(components@) =~= before.push(painted@));
                assert forall|j: int| 0 <= j < i + 1 implies is_colored(
                    rows(fields@)[j],
                    section_color,
                    #[trigger] texts(components@)[j],
                ) by {
                    if j < i {
                        assert(texts(components@)[j] == before[j]);
                    }
                }
            }
            i += 1;
        }
        let last = string_from_chars(&fields[n - 1]);
        let sign = paint("=", config.default_color);
        let flat = one_line(self.value.as_str());
        let value = embolden(flat.as_str());
        let ghost before = texts(components@);
        let leaf = tree_leaf(last.as_str(), sign.as_str(), value.as_str());
        components.push(leaf);
        proof {
            assert(texts(components@) =~= before.push(leaf@));
            assert(rows(fields@).last() == fields@[n - 1]@);
            assert(leaf_of(fields_of(self.name@).last(), sign@, value@) == texts(
                components@,
            ).last());
            assert forall|j: int| 0 <= j < n - 1 implies is_colored(
                fields_of(self.name@)[j],
                config.color_of(self.section),
                #[trigger] texts(components@)[j],
            ) by {
                assert(texts(components@)[j] == before[j]);
            }
        }
        components
    }

    /// The text that shows the kernel parameter, as the settings ask.
    pub fn display_value(&self, config: &Config) -> (text: String)
        ensures
            self.is_shown(config, text@),
    {
        let text = match config.display_type {
            DisplayType::Name => {
                let name = self.colored_name(config);
                let line = display_line(DisplayType::Name, name.as_str(), "", "");
                assert(line_of(DisplayType::Name, name@, ""@, ""@) == line@);
                line
            },
            DisplayType::Value => {
                let value = embolden(self.value.as_str());
                let line = display_line(DisplayType::Value, "", "", value.as_str());
                assert(line_of(DisplayType::Value, ""@, ""@, value@) == line@);
                line
            },
            DisplayType::Binary => {
                let value = embolden(self.value.as_str());
                let line = display_line(DisplayType::Binary, "", "", value.as_str());
                assert(line_of(DisplayType::Binary, ""@, ""@, value@) == line@);
                line
            },
            DisplayType::Default => {
                let name = self.colored_name(config);
                let sign = paint("=", config.default_color);
                let value = embolden(self.value.as_str());
                let line = display_line(
                    DisplayType::Default,
                    name.as_str(),
                    sign.as_str(),
                    value.as_str(),
                );
                assert(line_of(DisplayType::Default, name@, sign@, value@) == line@);
                line
            },
        };
        text
    }

    /// Returns the parameter documentation if it exists.
    pub fn get_documentation(&self) -> (documentation: Option<String>)
        ensures
            match self.description {
                Some(description) => documentation matches Some(text) && text@ == self.documented(
                    description@,
                ),
                None => documentation is None,
            },
    {
        match &self.description {
            None => None,
            Some(description) => {
                let mut text = self.docs_title.clone();
                text.append("\n");
                let length = self.docs_title.as_str().as_bytes().len();
                let ghost before = text@;
                let mut drawn: usize = 0;
                proof {
                    reveal_strlit("=");
                    assert(text@ =~= before + ruled(0));
                }
                while drawn < length
                    invariant
                        drawn <= length,
                        text@ == before + ruled(drawn as nat),
                        "="@ == seq!['='],
                    decreases length - drawn,
                {
                    text.append("=");
                    drawn += 1;
                    assert(text@ =~= before + ruled(drawn as nat));
                }
                text.append("\n");
                text.append(description.as_str());
                text.append("\n-\nParameter: ");
                text.append(self.name.as_str());
                text.append("\nReference: ");
                text.append(self.docs_path.as_str());
                Some(text)
            },
        }
    }

    /// The text that shows the description of the kernel parameter.
    pub fn display_documentation(&self) -> (text: String)
        ensures
            text@ == self.documentation_shown(),
    {
        match self.get_documentation() {
            Some(documentation) => {
                let mut text = documentation;
                text.append("\n\n");
                text
            },
            None => String::from_str("No documentation available\n"),
        }
    }

    /// Takes the new value of the kernel parameter, as it was set, and gives
    /// the text that shows the parameter with it, unless the settings ask
    /// for quiet.
    pub fn update_value(&mut self, new_value: String, config: &Config) -> (text: Option<String>)
        ensures
            final(self).value == new_value,
            final(self).name == old(self).name,
            final(self).description == old(self).description,
            final(self).section == old(self).section,
            final(self).docs_path == old(self).docs_path,
            final(self).docs_title == old(self).docs_title,
            config.quiet ==> text is None,
            !config.quiet ==> (text matches Some(line) && final(self).is_shown(config, line@)),
    {
        self.value = new_value;
        if !config.quiet {
            Some(self.display_value(config))
        } else {
            None
        }
    }
}

} // verus!
