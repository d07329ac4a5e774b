//! What a panel shows: rows of text, bars and buttons, in order.

use vstd::prelude::*;
use vstd::string::*;

verus! {

/// The colour of a text.
#[derive(Clone, Copy, Debug, PartialEq, Eq, Structural)]
pub enum Tone {
    Plain,
    /// Less conspicuous than plain.
    Weak,
    Gray(u8),
    Rgb(u8, u8, u8),
    /// The worse, the redder.
    Severity(u8),
}

/// The kind of lettering.
#[derive(Clone, Copy, Debug, PartialEq, Eq, Structural)]
pub enum Style {
    Normal,
    Small,
    /// Eleven points.
    Fine,
    /// So many points.
    Points(u8),
    Heading,
    Strong,
    StrongSmall,
    Italic,
    Mono,
}

/// A kind of row.
#[derive(Clone, Copy, Debug, PartialEq, Eq, Structural)]
pub enum Widget {
    Label(Tone, Style),
    Button(Tone),
    SmallButton,
    /// A button that can be pressed only if the flag says so.
    Switch(Tone, bool),
    /// A text that leads somewhere; the flag says whether it still does.
    Link(bool),
    /// A choice; the flag says whether it is taken.
    Choice(bool),
    /// A box that is ticked or not.
    Check(bool),
    /// A number that can be slid or dragged between two bounds; the text is its value.
    Slider(u32, u32),
    Drag(u32, u32),
    /// A line that the player can edit.
    Edit,
    /// What follows stands in the next column.
    Column,
    /// A list of choices to pick from follows, up to the end; the text is what is picked.
    Pick,
    /// A line across.
    Rule,
    /// What follows, up to the end, stands side by side.
    Begin,
    End,
    /// A part that can be folded away; the flag says whether it starts open.
    Section(Tone, bool),
    EndSection,
    /// A bar, filled by the first number out of the second.
    Bar(Fill, u32, u32),
    /// A bar, filled by the fraction that is its text.
    Meter(Fill),
    /// What is told of the row before, while the pointer rests on it.
    Hint,
}

/// How a bar changes its colour as it fills.
#[derive(Clone, Copy, Debug, PartialEq, Eq, Structural)]
pub enum Fill {
    Neutral,
    GreenWhenFull,
    RedWhenFull,
    /// Green above the middle, red below it.
    Affinity,
}

/// A row of a panel. Pressing it asks for its action.
#[derive(Debug)]
pub struct Row<A> {
    pub widget: Widget,
    pub text: String,
    pub action: Option<A>,
}

/// The rows of a panel.
#[derive(Debug)]
pub struct Page<A> {
    pub rows: Vec<Row<A>>,
}

/// A row, as it is shown.
pub type Shown<A> = (Widget, Seq<char>, Option<A>);

/// A plain line of text.
pub open spec fn line<A>(text: Seq<char>) -> Shown<A> {
    (Widget::Label(Tone::Plain, Style::Normal), text, None)
}

/// A line of text in a colour and a style.
pub open spec fn styled<A>(tone: Tone, style: Style, text: Seq<char>) -> Shown<A> {
    (Widget::Label(tone, style), text, None)
}

/// What is told of the row before.
pub open spec fn hint<A>(text: Seq<char>) -> Shown<A> {
    (Widget::Hint, text, None)
}

/// A row without text.
pub open spec fn mark<A>(widget: Widget) -> Shown<A> {
    (widget, ""@, None)
}

impl<A> Page<A> {
    /// The rows as they are shown.
    pub open spec fn shown(self) -> Seq<Shown<A>> {
        Seq::new(
            self.rows@.len(),
            |i: int| (self.rows@[i].widget, self.rows@[i].text@, self.rows@[i].action),
        )
    }

    pub fn new() -> (p: Page<A>)
        ensures
            p.shown() == Seq::<Shown<A>>::empty(),
    {
        let p = Page { rows: Vec::new() };
        assert(p.shown() =~= Seq::<Shown<A>>::empty());
        p
    }

    /// Adds a row.
    pub fn put(&mut self, widget: Widget, text: String, action: Option<A>)
        ensures
            final(self).shown() == old(self).shown().push((widget, text@, action)),
    {
        self.rows.push(Row { widget, text, action });
        assert(self.shown() =~= old(self).shown().push((widget, text@, action)));
    }

    /// Adds a plain line of text.
    pub fn say(&mut self, text: String)
        ensures
            final(self).shown() == old(self).shown().push(line(text@)),
    {
        self.put(Widget::Label(Tone::Plain, Style::Normal), text, None);
    }

    /// Adds a plain line that is always the same.
    pub fn note(&mut self, text: &str)
        ensures
            final(self).shown() == old(self).shown().push(line(text@)),
    {
        self.put(Widget::Label(Tone::Plain, Style::Normal), text.to_owned(), None);
    }

    /// Adds what is told of the row before.
    pub fn explain(&mut self, text: &str)
        ensures
            final(self).shown() == old(self).shown().push(hint(text@)),
    {
        self.put(Widget::Hint, text.to_owned(), None);
    }

    /// Adds a line in a colour and a style.
    pub fn say_in(&mut self, tone: Tone, style: Style, text: String)
        ensures
            final(self).shown() == old(self).shown().push(styled(tone, style, text@)),
    {
        self.put(Widget::Label(tone, style), text, None);
    }

    /// Adds a line in a colour and a style that is always the same.
    pub fn note_in(&mut self, tone: Tone, style: Style, text: &str)
        ensures
            final(self).shown() == old(self).shown().push(styled(tone, style, text@)),
    {
        self.put(Widget::Label(tone, style), text.to_owned(), None);
    }

    /// Adds a row without text.
    pub fn place(&mut self, widget: Widget)
        ensures
            final(self).shown() == old(self).shown().push(mark(widget)),
    {
        self.put(widget, "".to_owned(), None);
    }

    /// Starts a part that can be folded away.
    pub fn section(&mut self, tone: Tone, open: bool, title: &str)
        ensures
            final(self).shown() == old(self).shown().push(
                (Widget::Section(tone, open), title@, None),
            ),
    {
        self.put(Widget::Section(tone, open), title.to_owned(), None);
    }

    /// Adds something to press.
    pub fn offer(&mut self, widget: Widget, text: &str, action: A)
        ensures
            final(self).shown() == old(self).shown().push((widget, text@, Some(action))),
    {
        self.put(widget, text.to_owned(), Some(action));
    }
}

} // verus!
