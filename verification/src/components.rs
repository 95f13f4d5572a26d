//! Message layout: the embed and the rows of buttons and select menus that
//! a plugin's message description asks for, with the defaults that fill in
//! what the description leaves out.
use vstd::prelude::*;
use crate::text::same_text;
use crate::vecs::push_deep;

verus! {

/// An option of a select menu as a plugin describes it.
#[derive(Debug)]
pub struct OptionSpec {
    pub label: Option<String>,
    pub value: Option<String>,
    pub description: Option<String>,
    pub emoji: Option<String>,
}

/// A component as a plugin describes it: a button or a select menu.
#[derive(Debug)]
pub struct ComponentSpec {
    pub kind: Option<String>,
    pub label: Option<String>,
    pub style: Option<String>,
    pub url: Option<String>,
    pub id: Option<String>,
    pub placeholder: Option<String>,
    pub options: Vec<OptionSpec>,
}

/// The colour scheme of a button that is not a link.
#[derive(Debug, Clone, Copy, PartialEq, Eq, Structural)]
pub enum ButtonStyle {
    Primary,
    Secondary,
    Success,
    Danger,
}

/// A button: a link, or one that reports its id when pressed.
#[derive(Debug)]
pub enum Button {
    Link { url: String, label: String },
    Action { id: String, style: ButtonStyle, label: String },
}

/// An option of a select menu.
#[derive(Debug)]
pub struct MenuOption {
    pub label: String,
    pub value: String,
    pub description: Option<String>,
    pub emoji: Option<String>,
}

/// A row of a message: buttons side by side, or one select menu.
#[derive(Debug)]
pub enum ActionRow {
    Buttons(Vec<Button>),
    Menu { id: String, placeholder: String, options: Vec<MenuOption> },
}

pub struct OptionSpecView {
    pub label: Option<Seq<char>>,
    pub value: Option<Seq<char>>,
    pub description: Option<Seq<char>>,
    pub emoji: Option<Seq<char>>,
}

pub struct ComponentSpecView {
    pub kind: Option<Seq<char>>,
    pub label: Option<Seq<char>>,
    pub style: Option<Seq<char>>,
    pub url: Option<Seq<char>>,
    pub id: Option<Seq<char>>,
    pub placeholder: Option<Seq<char>>,
    pub options: Seq<OptionSpecView>,
}

pub enum ButtonView {
    Link { url: Seq<char>, label: Seq<char> },
    Action { id: Seq<char>, style: ButtonStyle, label: Seq<char> },
}

pub struct MenuOptionView {
    pub label: Seq<char>,
    pub value: Seq<char>,
    pub description: Option<Seq<char>>,
    pub emoji: Option<Seq<char>>,
}

pub enum RowView {
    Buttons(Seq<ButtonView>),
    Menu { id: Seq<char>, placeholder: Seq<char>, options: Seq<MenuOptionView> },
}

impl DeepView for OptionSpec {
    type V = OptionSpecView;

    open spec fn deep_view(&self) -> OptionSpecView {
        OptionSpecView {
            label: self.label.deep_view(),
            value: self.value.deep_view(),
            description: self.description.deep_view(),
            emoji: self.emoji.deep_view(),
        }
    }
}

impl DeepView for ComponentSpec {
    type V = ComponentSpecView;

    open spec fn deep_view(&self) -> ComponentSpecView {
        ComponentSpecView {
            kind: self.kind.deep_view(),
            label: self.label.deep_view(),
            style: self.style.deep_view(),
            url: self.url.deep_view(),
            id: self.id.deep_view(),
            placeholder: self.placeholder.deep_view(),
            options: self.options.deep_view(),
        }
    }
}

impl DeepView for Button {
    type V = ButtonView;

    open spec fn deep_view(&self) -> ButtonView {
        match self {
            Button::Link { url, label } => ButtonView::Link { url: url@, label: label@ },
            Button::Action { id, style, label } => ButtonView::Action { id: id@, style: *style, label: label@ },
        }
    }
}

impl DeepView for MenuOption {
    type V = MenuOptionView;

    open spec fn deep_view(&self) -> MenuOptionView {
        MenuOptionView {
            label: self.label@,
            value: self.value@,
            description: self.description.deep_view(),
            emoji: self.emoji.deep_view(),
        }
    }
}

impl DeepView for ActionRow {
    type V = RowView;

    open spec fn deep_view(&self) -> RowView {
        match self {
            ActionRow::Buttons(bs) => RowView::Buttons(bs.deep_view()),
            ActionRow::Menu { id, placeholder, options } => RowView::Menu {
                id: id@,
                placeholder: placeholder@,
                options: options.deep_view(),
            },
        }
    }
}

/// `o`'s text, or `d` where there is none.
pub open spec fn or_text(o: Option<Seq<char>>, d: Seq<char>) -> Seq<char> {
    match o {
        Some(t) => t,
        None => d,
    }
}

/// The style a style name stands for; unknown names mean primary.
pub open spec fn style_named(s: Seq<char>) -> ButtonStyle {
    if s == "secondary"@ || s == "gray"@ {
        ButtonStyle::Secondary
    } else if s == "success"@ || s == "green"@ {
        ButtonStyle::Success
    } else if s == "danger"@ || s == "red"@ {
        ButtonStyle::Danger
    } else {
        ButtonStyle::Primary
    }
}

/// Law: each documented style name gives its own style, and the colour
/// names give the same style as the names they stand beside: `secondary`
/// and `gray`, `success` and `green`, `danger` and `red`; `primary` is the
/// primary style. The four styles so named are pairwise different.
pub proof fn law_style_names()
    ensures
        style_named("primary"@) == ButtonStyle::Primary,
        style_named("secondary"@) == ButtonStyle::Secondary,
        style_named("success"@) == ButtonStyle::Success,
        style_named("danger"@) == ButtonStyle::Danger,
        style_named("gray"@) == style_named("secondary"@),
        style_named("green"@) == style_named("success"@),
        style_named("red"@) == style_named("danger"@),
        style_named("primary"@) != style_named("secondary"@),
        style_named("primary"@) != style_named("success"@),
        style_named("primary"@) != style_named("danger"@),
        style_named("secondary"@) != style_named("success"@),
        style_named("secondary"@) != style_named("danger"@),
        style_named("success"@) != style_named("danger"@),
{
    reveal_strlit("primary");
    reveal_strlit("secondary");
    reveal_strlit("gray");
    reveal_strlit("success");
    reveal_strlit("green");
    reveal_strlit("danger");
    reveal_strlit("red");
    assert("primary"@.len() == 7 && "secondary"@.len() == 9 && "gray"@.len() == 4);
    assert("success"@.len() == 7 && "green"@.len() == 5 && "danger"@.len() == 6);
    assert("red"@.len() == 3);
    assert("primary"@[0] == 'p' && "success"@[0] == 's');
}

/// The button a description stands for; a link takes `link_default` as its
/// address where the description gives none.
pub open spec fn button_of(c: ComponentSpecView, link_default: Seq<char>) -> ButtonView {
    let style = or_text(c.style, "primary"@);
    let label = or_text(c.label, "Button"@);
    if style == "link"@ || style == "url"@ {
        ButtonView::Link { url: or_text(c.url, link_default), label }
    } else {
        ButtonView::Action { id: or_text(c.id, "unknown"@), style: style_named(style), label }
    }
}

/// The menu option a description stands for; its emoji is kept only where
/// `emoji` is set.
pub open spec fn option_of(o: OptionSpecView, emoji: bool) -> MenuOptionView {
    let label = or_text(o.label, "Option"@);
    MenuOptionView {
        label,
        value: or_text(o.value, label),
        description: o.description,
        emoji: if emoji {
            o.emoji
        } else {
            None
        },
    }
}

/// The select menu a description stands for.
pub open spec fn menu_of(c: ComponentSpecView, emoji: bool) -> RowView {
    RowView::Menu {
        id: or_text(c.id, "select_menu"@),
        placeholder: or_text(c.placeholder, "Select an option..."@),
        options: c.options.map_values(|o: OptionSpecView| option_of(o, emoji)),
    }
}

/// The rows so far, with the pending buttons closed into a row if any.
pub open spec fn flushed(rows: Seq<RowView>, pending: Seq<ButtonView>) -> Seq<RowView> {
    if pending.len() > 0 {
        rows.push(RowView::Buttons(pending))
    } else {
        rows
    }
}

/// The rows and pending buttons after the components `cs`, taken in order:
/// a button joins the pending buttons; a select menu closes them into a
/// row and takes a row of its own; any other kind is ignored. A component
/// with no kind is a button.
pub open spec fn layout_state(cs: Seq<ComponentSpecView>, link_default: Seq<char>, emoji: bool) -> (
    Seq<RowView>,
    Seq<ButtonView>,
)
    decreases cs.len(),
{
    if cs.len() == 0 {
        (Seq::empty(), Seq::empty())
    } else {
        let (rows, pending) = layout_state(cs.drop_last(), link_default, emoji);
        let c = cs.last();
        let kind = or_text(c.kind, "button"@);
        if kind == "button"@ {
            (rows, pending.push(button_of(c, link_default)))
        } else if kind == "select"@ {
            (flushed(rows, pending).push(menu_of(c, emoji)), Seq::empty())
        } else {
            (rows, pending)
        }
    }
}

/// The rows of a message whose components are described by `cs`.
pub open spec fn layout(cs: Seq<ComponentSpecView>, link_default: Seq<char>, emoji: bool) -> Seq<RowView> {
    let (rows, pending) = layout_state(cs, link_default, emoji);
    flushed(rows, pending)
}

fn text_or(o: &Option<String>, d: &str) -> (r: String)
    ensures
        r@ == or_text(o.deep_view(), d@),
{
    match o {
        Some(t) => t.clone(),
        None => d.to_owned(),
    }
}

fn copy_text(o: &Option<String>) -> (r: Option<String>)
    ensures
        r.deep_view() == o.deep_view(),
{
    match o {
        Some(t) => Some(t.clone()),
        None => None,
    }
}

/// The style a style name stands for.
pub fn button_style(s: &str) -> (r: ButtonStyle)
    ensures
        r == style_named(s@),
{
    if same_text(s, "secondary") || same_text(s, "gray") {
        ButtonStyle::Secondary
    } else if same_text(s, "success") || same_text(s, "green") {
        ButtonStyle::Success
    } else if same_text(s, "danger") || same_text(s, "red") {
        ButtonStyle::Danger
    } else {
        ButtonStyle::Primary
    }
}

/// The button a description stands for.
pub fn make_button(c: &ComponentSpec, link_default: &str) -> (b: Button)
    ensures
        b.deep_view() == button_of(c.deep_view(), link_default@),
{
    let style = text_or(&c.style, "primary");
    let label = text_or(&c.label, "Button");
    if same_text(style.as_str(), "link") || same_text(style.as_str(), "url") {
        Button::Link { url: text_or(&c.url, link_default), label }
    } else {
        Button::Action { id: text_or(&c.id, "unknown"), style: button_style(style.as_str()), label }
    }
}

fn make_option(o: &OptionSpec, emoji: bool) -> (m: MenuOption)
    ensures
        m.deep_view() == option_of(o.deep_view(), emoji),
{
    let label = text_or(&o.label, "Option");
    let value = match &o.value {
        Some(v) => v.clone(),
        None => label.clone(),
    };
    MenuOption {
        label,
        value,
        description: copy_text(&o.description),
        emoji: if emoji {
            copy_text(&o.emoji)
        } else {
            None
        },
    }
}

/// The select menu a description stands for.
pub fn make_menu(c: &ComponentSpec, emoji: bool) -> (r: ActionRow)
    ensures
        r.deep_view() == menu_of(c.deep_view(), emoji),
{
    let ghost ov = c.options.deep_view();
    let mut options: Vec<MenuOption> = Vec::new();
    let mut i: usize = 0;
    while i < c.options.len()
        invariant
            i <= c.options.len(),
            ov == c.options.deep_view(),
            options.deep_view() == ov.subrange(0, i as int).map_values(|o: OptionSpecView| option_of(o, emoji)),
        decreases c.options.len() - i,
    {
        assert(ov[i as int] == c.options@[i as int].deep_view());
        push_deep(&mut options, make_option(&c.options[i], emoji));
        assert(options.deep_view() =~= ov.subrange(0, i + 1).map_values(|o: OptionSpecView| option_of(o, emoji)));
        i = i + 1;
    }
    assert(ov.subrange(0, i as int) =~= ov);
    ActionRow::Menu {
        id: text_or(&c.id, "select_menu"),
        placeholder: text_or(&c.placeholder, "Select an option..."),
        options,
    }
}

fn flush(rows: &mut Vec<ActionRow>, pending: &mut Vec<Button>)
    ensures
        final(rows).deep_view() == flushed(old(rows).deep_view(), old(pending).deep_view()),
        final(pending).deep_view().len() == 0,
{
    if pending.len() > 0 {
        let mut row: Vec<Button> = Vec::new();
        std::mem::swap(&mut row, pending);
        push_deep(rows, ActionRow::Buttons(row));
    }
    assert(pending.deep_view() =~= Seq::<ButtonView>::empty());
}

/// Lays out the components a plugin describes into the rows of a message:
/// consecutive buttons share a row, each select menu has a row of its own.
/// A link button without an address gets `link_default`; menu options keep
/// their emoji only where `emoji` is set.
pub fn layout_components(cs: &Vec<ComponentSpec>, link_default: &str, emoji: bool) -> (rows: Vec<ActionRow>)
    ensures
        rows.deep_view() == layout(cs.deep_view(), link_default@, emoji),
{
    let ghost all = cs.deep_view();
    let mut rows: Vec<ActionRow> = Vec::new();
    let mut pending: Vec<Button> = Vec::new();
    let mut i: usize = 0;
    while i < cs.len()
        invariant
            i <= cs.len(),
            all == cs.deep_view(),
            (rows.deep_view(), pending.deep_view()) == layout_state(all.subrange(0, i as int), link_default@, emoji),
        decreases cs.len() - i,
    {
        let c = &cs[i];
        assert(all[i as int] == c.deep_view());
        assert(all.subrange(0, i + 1).drop_last() =~= all.subrange(0, i as int));
        let kind = text_or(&c.kind, "button");
        if same_text(kind.as_str(), "button") {
            push_deep(&mut pending, make_button(c, link_default));
        } else if same_text(kind.as_str(), "select") {
            flush(&mut rows, &mut pending);
            push_deep(&mut rows, make_menu(c, emoji));
            assert(pending.deep_view() =~= Seq::<ButtonView>::empty());
        }
        i = i + 1;
    }
    assert(all.subrange(0, i as int) =~= all);
    flush(&mut rows, &mut pending);
    rows
}

/// A field of an embed as a plugin describes it.
#[derive(Debug)]
pub struct FieldSpec {
    pub name: Option<String>,
    pub value: Option<String>,
    pub inline: Option<bool>,
}

/// A message as a plugin describes it: the parts of its embed and its
/// components.
#[derive(Debug)]
pub struct MessageSpec {
    pub title: Option<String>,
    pub description: Option<String>,
    pub color: Option<u32>,
    pub image: Option<String>,
    pub fields: Vec<FieldSpec>,
    pub components: Vec<ComponentSpec>,
}

/// A field of an embed.
#[derive(Debug)]
pub struct EmbedField {
    pub name: String,
    pub value: String,
    pub inline: bool,
}

/// An embed.
#[derive(Debug)]
pub struct Embed {
    pub title: Option<String>,
    pub description: Option<String>,
    pub color: Option<u32>,
    pub fields: Vec<EmbedField>,
    pub image: Option<String>,
}

/// A message sent to a channel: an embed where there is one, and rows.
#[derive(Debug)]
pub struct MessagePlan {
    pub embed: Option<Embed>,
    pub rows: Vec<ActionRow>,
}

/// A reply to an interaction: always an embed, possibly only for the user.
#[derive(Debug)]
pub struct ReplyPlan {
    pub embed: Embed,
    pub ephemeral: bool,
    pub rows: Vec<ActionRow>,
}

pub struct MessageSpecView {
    pub title: Option<Seq<char>>,
    pub description: Option<Seq<char>>,
    pub color: Option<u32>,
    pub image: Option<Seq<char>>,
    pub fields: Seq<(Option<Seq<char>>, Option<Seq<char>>, Option<bool>)>,
    pub components: Seq<ComponentSpecView>,
}

pub struct EmbedView {
    pub title: Option<Seq<char>>,
    pub description: Option<Seq<char>>,
    pub color: Option<u32>,
    pub fields: Seq<(Seq<char>, Seq<char>, bool)>,
    pub image: Option<Seq<char>>,
}

impl DeepView for FieldSpec {
    type V = (Option<Seq<char>>, Option<Seq<char>>, Option<bool>);

    open spec fn deep_view(&self) -> (Option<Seq<char>>, Option<Seq<char>>, Option<bool>) {
        (self.name.deep_view(), self.value.deep_view(), self.inline)
    }
}

impl DeepView for MessageSpec {
    type V = MessageSpecView;

    open spec fn deep_view(&self) -> MessageSpecView {
        MessageSpecView {
            title: self.title.deep_view(),
            description: self.description.deep_view(),
            color: self.color,
            image: self.image.deep_view(),
            fields: self.fields.deep_view(),
            components: self.components.deep_view(),
        }
    }
}

impl DeepView for EmbedField {
    type V = (Seq<char>, Seq<char>, bool);

    open spec fn deep_view(&self) -> (Seq<char>, Seq<char>, bool) {
        (self.name@, self.value@, self.inline)
    }
}

impl DeepView for Embed {
    type V = EmbedView;

    open spec fn deep_view(&self) -> EmbedView {
        EmbedView {
            title: self.title.deep_view(),
            description: self.description.deep_view(),
            color: self.color,
            fields: self.fields.deep_view(),
            image: self.image.deep_view(),
        }
    }
}

/// An embed field as described: name and value default to empty, inline
/// to false.
pub open spec fn field_of(f: (Option<Seq<char>>, Option<Seq<char>>, Option<bool>)) -> (Seq<char>, Seq<char>, bool) {
    (
        or_text(f.0, Seq::empty()),
        or_text(f.1, Seq::empty()),
        match f.2 {
            Some(b) => b,
            None => false,
        },
    )
}

/// The image of an embed: an empty address counts as none.
pub open spec fn image_of(i: Option<Seq<char>>) -> Option<Seq<char>> {
    match i {
        Some(t) => if t.len() > 0 {
            Some(t)
        } else {
            None
        },
        None => None,
    }
}

/// The embed a message description stands for, with colour `color`.
pub open spec fn embed_of(m: MessageSpecView, color: Option<u32>) -> EmbedView {
    EmbedView {
        title: m.title,
        description: m.description,
        color,
        fields: m.fields.map_values(|f: (Option<Seq<char>>, Option<Seq<char>>, Option<bool>)| field_of(f)),
        image: image_of(m.image),
    }
}

/// The colour of a sent embed: black where none is given.
pub fn parse_color(c: Option<u32>) -> (r: u32)
    ensures
        r == (match c {
            Some(v) => v,
            None => 0,
        }),
{
    match c {
        Some(v) => v,
        None => 0,
    }
}

fn make_embed(m: &MessageSpec, color: Option<u32>) -> (e: Embed)
    ensures
        e.deep_view() == embed_of(m.deep_view(), color),
{
    let ghost fv = m.fields.deep_view();
    let mut fields: Vec<EmbedField> = Vec::new();
    let mut i: usize = 0;
    while i < m.fields.len()
        invariant
            i <= m.fields.len(),
            fv == m.fields.deep_view(),
            fields.deep_view() == fv.subrange(0, i as int).map_values(
                |f: (Option<Seq<char>>, Option<Seq<char>>, Option<bool>)| field_of(f),
            ),
        decreases m.fields.len() - i,
    {
        let f = &m.fields[i];
        assert(fv[i as int] == f.deep_view());
        let field = EmbedField {
            name: text_or(&f.name, ""),
            value: text_or(&f.value, ""),
            inline: match f.inline {
                Some(b) => b,
                None => false,
            },
        };
        proof {
            reveal_strlit("");
            assert(""@ =~= Seq::<char>::empty());
        }
        push_deep(&mut fields, field);
        assert(fields.deep_view() =~= fv.subrange(0, i + 1).map_values(
            |f: (Option<Seq<char>>, Option<Seq<char>>, Option<bool>)| field_of(f),
        ));
        i = i + 1;
    }
    assert(fv.subrange(0, i as int) =~= fv);
    let image = match &m.image {
        Some(t) => if !t.as_str().is_empty() {
            Some(t.clone())
        } else {
            None
        },
        None => None,
    };
    Embed {
        title: copy_text(&m.title),
        description: copy_text(&m.description),
        color,
        fields,
        image,
    }
}

/// Plans a message sent to a channel: an embed only where a title or a
/// description is given, coloured black unless a colour is given; link
/// buttons without an address point at Discord, and menu options keep
/// their emoji.
pub fn plan_message(m: &MessageSpec) -> (p: MessagePlan)
    ensures
        p.embed.deep_view() == (if m.title is Some || m.description is Some {
            Some(embed_of(m.deep_view(), Some(match m.color {
                Some(v) => v,
                None => 0u32,
            })))
        } else {
            None
        }),
        p.rows.deep_view() == layout(m.deep_view().components, "https://discord.com"@, true),
{
    let embed = if m.title.is_some() || m.description.is_some() {
        Some(make_embed(m, Some(parse_color(m.color))))
    } else {
        None
    };
    MessagePlan { embed, rows: layout_components(&m.components, "https://discord.com", true) }
}

/// Plans a reply to an interaction: always an embed, coloured only where a
/// colour is given; link buttons without an address get an empty one, and
/// menu options carry no emoji.
pub fn build_reply_embed(m: &MessageSpec, ephemeral: bool) -> (p: ReplyPlan)
    ensures
        p.embed.deep_view() == embed_of(m.deep_view(), m.color),
        p.ephemeral == ephemeral,
        p.rows.deep_view() == layout(m.deep_view().components, ""@, false),
{
    ReplyPlan {
        embed: make_embed(m, m.color),
        ephemeral,
        rows: layout_components(&m.components, "", false),
    }
}

/// Rows in which every row of buttons has a button and no two rows of
/// buttons are next to each other.
pub open spec fn rows_grouped(rows: Seq<RowView>) -> bool {
    &&& forall|i: int| 0 <= i < rows.len() ==> (#[trigger] rows[i] matches RowView::Buttons(bs) ==> bs.len() > 0)
    &&& forall|i: int| 0 <= i < rows.len() - 1 ==> !(#[trigger] rows[i] is Buttons && rows[i + 1] is Buttons)
}

proof fn lemma_layout_state_grouped(cs: Seq<ComponentSpecView>, link_default: Seq<char>, emoji: bool)
    ensures
        rows_grouped(layout_state(cs, link_default, emoji).0),
        layout_state(cs, link_default, emoji).0.len() > 0 ==> layout_state(cs, link_default, emoji).0.last() is Menu,
    decreases cs.len(),
{
    if cs.len() > 0 {
        lemma_layout_state_grouped(cs.drop_last(), link_default, emoji);
        let (rows, pending) = layout_state(cs.drop_last(), link_default, emoji);
        let f = flushed(rows, pending);
        let r = f.push(menu_of(cs.last(), emoji));
        assert forall|i: int| 0 <= i < r.len() - 1 implies !(#[trigger] r[i] is Buttons && r[i + 1] is Buttons) by {
            if i + 1 < f.len() {
                assert(r[i] == f[i] && r[i + 1] == f[i + 1]);
                if pending.len() > 0 && i + 1 == rows.len() {
                    assert(f[i] == rows[i]);
                } else {
                    assert(f[i] == rows[i] && f[i + 1] == rows[i + 1]);
                }
            }
        }
        assert forall|i: int| 0 <= i < r.len() implies (#[trigger] r[i] matches RowView::Buttons(bs) ==> bs.len() > 0) by {
            if i < f.len() {
                assert(r[i] == f[i]);
                if i < rows.len() {
                    assert(f[i] == rows[i]);
                }
            }
        }
    }
}

/// Law: in the rows of a message, consecutive buttons share one row: no row
/// of buttons is empty and no two rows of buttons are next to each other.
pub proof fn law_buttons_grouped(cs: Seq<ComponentSpecView>, link_default: Seq<char>, emoji: bool)
    ensures
        rows_grouped(layout(cs, link_default, emoji)),
{
    lemma_layout_state_grouped(cs, link_default, emoji);
    let (rows, pending) = layout_state(cs, link_default, emoji);
    let f = flushed(rows, pending);
    assert forall|i: int| 0 <= i < f.len() - 1 implies !(#[trigger] f[i] is Buttons && f[i + 1] is Buttons) by {
        if pending.len() > 0 && i + 1 == rows.len() {
            assert(f[i] == rows[i]);
        } else {
            assert(f[i] == rows[i] && f[i + 1] == rows[i + 1]);
        }
    }
    assert forall|i: int| 0 <= i < f.len() implies (#[trigger] f[i] matches RowView::Buttons(bs) ==> bs.len() > 0) by {
        if i < rows.len() {
            assert(f[i] == rows[i]);
        }
    }
}

} // verus!
