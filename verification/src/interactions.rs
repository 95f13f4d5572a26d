//! Slash commands and interactions: which command an interaction is for,
//! the option types a plugin declares, the choices an autocomplete handler
//! offers, and the text inputs of a modal.
use vstd::prelude::*;
use crate::components::or_text;
use crate::text::{decimal_string, push_decimal, same_text};
use crate::vecs::push_deep;

verus! {

/// The command an interaction is for and whether its options are those of
/// a subcommand: a grouped command arrives as the group's name with the
/// subcommand as its first option.
pub open spec fn command_target_spec(top: Seq<char>, first: Option<(Seq<char>, bool)>) -> (Seq<char>, bool) {
    match first {
        Some((name, true)) => (name, true),
        _ => (top, false),
    }
}

/// Resolves the command an interaction is for from the top-level name and
/// the name of the first option with whether it is a subcommand. Returns
/// the command's name and whether to read the subcommand's options.
pub fn command_target(top: &str, first: Option<(&str, bool)>) -> (r: (String, bool))
    ensures
        (r.0@, r.1) == command_target_spec(top@, match first {
            Some((n, b)) => Some((n@, b)),
            None => None,
        }),
{
    match first {
        Some((name, true)) => (name.to_owned(), true),
        _ => (top.to_owned(), false),
    }
}

/// The types of a slash command option.
#[derive(Debug, Clone, Copy, PartialEq, Eq, Structural)]
pub enum OptionKind {
    String,
    Integer,
    Boolean,
    User,
    Channel,
    Role,
    Number,
}

/// The option type a type name stands for; unknown names mean a string.
pub open spec fn option_kind_named(s: Seq<char>) -> OptionKind {
    if s == "integer"@ {
        OptionKind::Integer
    } else if s == "boolean"@ {
        OptionKind::Boolean
    } else if s == "user"@ {
        OptionKind::User
    } else if s == "channel"@ {
        OptionKind::Channel
    } else if s == "role"@ {
        OptionKind::Role
    } else if s == "number"@ {
        OptionKind::Number
    } else {
        OptionKind::String
    }
}

/// The option type a plugin's type name stands for.
pub fn option_kind(s: &str) -> (r: OptionKind)
    ensures
        r == option_kind_named(s@),
{
    if same_text(s, "integer") {
        OptionKind::Integer
    } else if same_text(s, "boolean") {
        OptionKind::Boolean
    } else if same_text(s, "user") {
        OptionKind::User
    } else if same_text(s, "channel") {
        OptionKind::Channel
    } else if same_text(s, "role") {
        OptionKind::Role
    } else if same_text(s, "number") {
        OptionKind::Number
    } else {
        OptionKind::String
    }
}

/// The most choices Discord takes in an autocomplete response.
pub const MAX_CHOICES: usize = 25;

/// The choices an autocomplete handler's rows give: name defaults to empty,
/// value to the name; at most the first 25 rows count.
pub open spec fn choices_spec(rows: Seq<(Option<Seq<char>>, Option<Seq<char>>)>) -> Seq<(Seq<char>, Seq<char>)> {
    let kept = if rows.len() > MAX_CHOICES {
        rows.take(MAX_CHOICES as int)
    } else {
        rows
    };
    kept.map_values(
        |r: (Option<Seq<char>>, Option<Seq<char>>)|
            (or_text(r.0, Seq::empty()), or_text(r.1, or_text(r.0, Seq::empty()))),
    )
}

/// Builds the choices of an autocomplete response from the handler's rows
/// of (name, value).
pub fn autocomplete_choices(rows: &Vec<(Option<String>, Option<String>)>) -> (r: Vec<(String, String)>)
    ensures
        r.deep_view() == choices_spec(rows.deep_view()),
{
    let ghost rv = rows.deep_view();
    let n = if rows.len() > MAX_CHOICES {
        MAX_CHOICES
    } else {
        rows.len()
    };
    let ghost kept = if rv.len() > MAX_CHOICES { rv.take(MAX_CHOICES as int) } else { rv };
    let mut r: Vec<(String, String)> = Vec::new();
    let mut i: usize = 0;
    proof {
        reveal_strlit("");
        assert(""@ =~= Seq::<char>::empty());
    }
    while i < n
        invariant
            i <= n,
            n == kept.len(),
            rv == rows.deep_view(),
            kept == (if rv.len() > MAX_CHOICES { rv.take(MAX_CHOICES as int) } else { rv }),
            ""@ == Seq::<char>::empty(),
            r.deep_view() == kept.take(i as int).map_values(
                |r: (Option<Seq<char>>, Option<Seq<char>>)|
                    (or_text(r.0, Seq::empty()), or_text(r.1, or_text(r.0, Seq::empty()))),
            ),
        decreases n - i,
    {
        assert(kept[i as int] == rv[i as int]);
        assert(rv[i as int] == rows@[i as int].deep_view());
        let name = match &rows[i].0 {
            Some(t) => t.clone(),
            None => String::new(),
        };
        let value = match &rows[i].1 {
            Some(t) => t.clone(),
            None => name.clone(),
        };
        push_deep(&mut r, (name, value));
        assert(r.deep_view() =~= kept.take(i + 1).map_values(
            |r: (Option<Seq<char>>, Option<Seq<char>>)|
                (or_text(r.0, Seq::empty()), or_text(r.1, or_text(r.0, Seq::empty()))),
        ));
        i = i + 1;
    }
    assert(kept.take(n as int) =~= kept);
    r
}

/// A text input of a modal as a plugin describes it.
#[derive(Debug)]
pub struct InputSpec {
    pub id: Option<String>,
    pub label: Option<String>,
    pub placeholder: Option<String>,
    pub required: Option<bool>,
    pub style: Option<String>,
}

/// A text input of a modal.
#[derive(Debug)]
pub struct TextInput {
    pub id: String,
    pub label: String,
    pub placeholder: String,
    pub required: bool,
    pub paragraph: bool,
}

impl DeepView for InputSpec {
    type V = (Option<Seq<char>>, Option<Seq<char>>, Option<Seq<char>>, Option<bool>, Option<Seq<char>>);

    open spec fn deep_view(&self) -> Self::V {
        (self.id.deep_view(), self.label.deep_view(), self.placeholder.deep_view(), self.required, self.style.deep_view())
    }
}

impl DeepView for TextInput {
    type V = (Seq<char>, Seq<char>, Seq<char>, bool, bool);

    open spec fn deep_view(&self) -> Self::V {
        (self.id@, self.label@, self.placeholder@, self.required, self.paragraph)
    }
}

/// The text input a description stands for: texts default to empty, an
/// input is required unless it says otherwise, and it is a paragraph
/// exactly when its style is `paragraph`.
pub open spec fn input_of(
    i: (Option<Seq<char>>, Option<Seq<char>>, Option<Seq<char>>, Option<bool>, Option<Seq<char>>),
) -> (Seq<char>, Seq<char>, Seq<char>, bool, bool) {
    (
        or_text(i.0, Seq::empty()),
        or_text(i.1, Seq::empty()),
        or_text(i.2, Seq::empty()),
        match i.3 {
            Some(b) => b,
            None => true,
        },
        or_text(i.4, "short"@) == "paragraph"@,
    )
}

/// The text inputs of a modal, one per row, in the order described.
pub fn modal_inputs(specs: &Vec<InputSpec>) -> (r: Vec<TextInput>)
    ensures
        r.deep_view() == specs.deep_view().map_values(
            |i: (Option<Seq<char>>, Option<Seq<char>>, Option<Seq<char>>, Option<bool>, Option<Seq<char>>)|
                input_of(i),
        ),
{
    let ghost sv = specs.deep_view();
    let mut r: Vec<TextInput> = Vec::new();
    let mut i: usize = 0;
    proof {
        reveal_strlit("");
        assert(""@ =~= Seq::<char>::empty());
    }
    while i < specs.len()
        invariant
            i <= specs.len(),
            sv == specs.deep_view(),
            ""@ == Seq::<char>::empty(),
            r.deep_view() == sv.take(i as int).map_values(
                |i: (Option<Seq<char>>, Option<Seq<char>>, Option<Seq<char>>, Option<bool>, Option<Seq<char>>)|
                    input_of(i),
            ),
        decreases specs.len() - i,
    {
        let s = &specs[i];
        assert(sv[i as int] == s.deep_view());
        let style = match &s.style {
            Some(t) => t.clone(),
            None => "short".to_owned(),
        };
        let input = TextInput {
            id: text_or_empty(&s.id),
            label: text_or_empty(&s.label),
            placeholder: text_or_empty(&s.placeholder),
            required: match s.required {
                Some(b) => b,
                None => true,
            },
            paragraph: same_text(style.as_str(), "paragraph"),
        };
        push_deep(&mut r, input);
        assert(r.deep_view() =~= sv.take(i + 1).map_values(
            |i: (Option<Seq<char>>, Option<Seq<char>>, Option<Seq<char>>, Option<bool>, Option<Seq<char>>)|
                input_of(i),
        ));
        i = i + 1;
    }
    assert(sv.take(i as int) =~= sv);
    r
}

fn text_or_empty(o: &Option<String>) -> (r: String)
    ensures
        r@ == or_text(o.deep_view(), Seq::empty()),
{
    match o {
        Some(t) => t.clone(),
        None => String::new(),
    }
}

/// The report after uploading the slash commands to `guilds` guilds.
pub fn sync_report(guilds: usize) -> (r: String)
    ensures
        r@ == "✅ Synced slash commands to "@ + decimal_string(guilds as nat) + " guilds."@,
{
    let mut r = "✅ Synced slash commands to ".to_owned();
    push_decimal(&mut r, guilds as u64);
    r.append(" guilds.");
    r
}

/// Law: an autocomplete response never offers more than 25 choices.
pub proof fn law_choices_capped(rows: Seq<(Option<Seq<char>>, Option<Seq<char>>)>)
    ensures
        choices_spec(rows).len() <= MAX_CHOICES,
        rows.len() <= MAX_CHOICES ==> choices_spec(rows).len() == rows.len(),
{
}

} // verus!
