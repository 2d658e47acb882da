//! The cells of the grid, the events, the layered objects and the compositor that owns them.
use vstd::prelude::*;
use vstd::string::*;
use crate::layout::{caption_cell, draw_caption, draw_caption_spec};

verus! {

/// Number of layers a terminal holds.
pub const MAX_LAYERS: usize = 256;

/// A colour for the foreground or background of a cell.
#[derive(Clone, Copy, Debug, PartialEq, Eq, Structural, PartialOrd, Ord, Hash)]
pub enum Colour {
    U8(u8),
    Rgb(u8, u8, u8),
    Default,
}

impl Default for Colour {
    fn default() -> (r: Self)
        ensures
            r == Colour::Default,
    {
        Colour::Default
    }
}

/// One displayable cell of the grid.
#[derive(Clone, Copy, Debug, PartialEq, Eq, Structural, PartialOrd, Ord, Hash)]
pub enum ColourChar {
    Colour(Colour, Colour, char),
    Monochrome(char),
    Empty,
}

impl Default for ColourChar {
    fn default() -> (r: Self)
        ensures
            r == ColourChar::Empty,
    {
        ColourChar::Empty
    }
}

/// The glyph a cell shows; an empty cell shows a space.
pub open spec fn glyph(c: ColourChar) -> char {
    match c {
        ColourChar::Colour(_, _, ch) => ch,
        ColourChar::Monochrome(ch) => ch,
        ColourChar::Empty => ' ',
    }
}

impl From<ColourChar> for char {
    fn from(value: ColourChar) -> (r: char)
        ensures
            r == glyph(value),
    {
        match value {
            ColourChar::Colour(_, _, character) => character,
            ColourChar::Monochrome(character) => character,
            ColourChar::Empty => ' ',
        }
    }
}

impl vstd::std_specs::convert::FromSpecImpl<ColourChar> for char {
    open spec fn obeys_from_spec() -> bool {
        true
    }

    open spec fn from_spec(v: ColourChar) -> char {
        glyph(v)
    }
}

impl From<char> for ColourChar {
    fn from(value: char) -> (r: ColourChar)
        ensures
            r == ColourChar::Monochrome(value),
    {
        ColourChar::Monochrome(value)
    }
}

impl vstd::std_specs::convert::FromSpecImpl<char> for ColourChar {
    open spec fn obeys_from_spec() -> bool {
        true
    }

    open spec fn from_spec(v: char) -> ColourChar {
        ColourChar::Monochrome(v)
    }
}

/// What an object reports after it has seen an event.
#[derive(Clone, Copy, Debug, PartialEq, Eq, Structural)]
pub enum LifecycleEvent {
    NoEvent,
    Death,
}

#[verifier::external_type_specification]
#[verifier::external_body]
pub struct ExKeyboardEvent(keyboard_types::KeyboardEvent);

/// Relies on the `Clone` that keyboard_types derives for `KeyboardEvent`; nothing is assumed of
/// the copy.
pub assume_specification[ <keyboard_types::KeyboardEvent as Clone>::clone ](
    e: &keyboard_types::KeyboardEvent,
) -> keyboard_types::KeyboardEvent;

/// An event handed to every layer of a terminal.
#[derive(Clone)]
pub enum TerminalUpdate {
    KeyboardEvent(keyboard_types::KeyboardEvent),
    MouseClick(usize, usize),
    Arbitrary(&'static str),
    Ping,
    ForceUpdate,
}

/// The named event that removes a screen cleaner.
pub const KILL_SCREEN_CLEANER: &'static str = "kill screen cleaner";

/// Whether two strings hold the same characters.
pub fn same_text(a: &str, b: &str) -> (r: bool)
    ensures
        r == (a@ == b@),
{
    let n = a.unicode_len();
    if n != b.unicode_len() {
        return false;
    }
    let mut i: usize = 0;
    while i < n
        invariant
            n == a@.len(),
            n == b@.len(),
            i <= n,
            a@.subrange(0, i as int) == b@.subrange(0, i as int),
        decreases n - i,
    {
        if a.get_char(i) != b.get_char(i) {
            return false;
        }
        assert(a@.subrange(0, i + 1) =~= a@.subrange(0, i as int).push(a@[i as int]));
        assert(b@.subrange(0, i + 1) =~= b@.subrange(0, i as int).push(b@[i as int]));
        i = i + 1;
    }
    assert(a@ =~= a@.subrange(0, n as int));
    assert(b@ =~= b@.subrange(0, n as int));
    true
}

/// The kinds of object a layer can hold, each with its own data.
#[derive(Clone, Debug, PartialEq, Eq)]
pub enum ObjectKind {
    /// Draws nothing and never dies.
    Empty,
    /// Fills the whole grid with spaces on the given background colour.
    ScreenCleaner(Colour),
    /// A plain caption centred on the grid.
    Prompt(Vec<char>),
    /// A caption centred on the grid, in a foreground and a background colour.
    ColourPrompt(Colour, Colour, Vec<char>),
}

/// What one layer of a terminal holds.
#[derive(Clone, Debug, PartialEq, Eq)]
pub struct TerminalObject {
    pub kind: ObjectKind,
}

/// What `obj` writes into cell `j` of a `width` by `height` grid, if anything.
pub open spec fn object_cell(obj: TerminalObject, width: int, height: int, j: int) -> Option<ColourChar> {
    match obj.kind {
        ObjectKind::Empty => None,
        ObjectKind::ScreenCleaner(bg) => Some(ColourChar::Colour(Colour::U8(0), bg, ' ')),
        ObjectKind::Prompt(text) => caption_cell(text@, None, width, height, j),
        ObjectKind::ColourPrompt(fg, bg, text) => caption_cell(text@, Some((fg, bg)), width, height, j),
    }
}

/// The grid after `obj` has drawn on `grid`.
pub open spec fn draw_object(obj: TerminalObject, grid: Seq<ColourChar>, width: int, height: int) -> Seq<ColourChar> {
    Seq::new(
        grid.len(),
        |j: int|
            match object_cell(obj, width, height, j) {
                Some(c) => c,
                None => grid[j],
            },
    )
}

/// Whether `obj` dies on `event`.
pub open spec fn dies_on(obj: TerminalObject, event: TerminalUpdate) -> bool {
    match obj.kind {
        ObjectKind::Empty => false,
        ObjectKind::ScreenCleaner(_) => event matches TerminalUpdate::Arbitrary(tag) && tag@
            == KILL_SCREEN_CLEANER@,
        ObjectKind::Prompt(_) | ObjectKind::ColourPrompt(_, _, _) => event is KeyboardEvent
            || event is MouseClick,
    }
}

/// The object of an unused layer.
pub open spec fn empty_object() -> TerminalObject {
    TerminalObject { kind: ObjectKind::Empty }
}

/// The characters of `text`, in order.
pub(crate) fn caption_chars(text: &str) -> (r: Vec<char>)
    ensures
        r@ == text@,
{
    let n = text.unicode_len();
    let mut r: Vec<char> = Vec::new();
    let mut i: usize = 0;
    while i < n
        invariant
            n == text@.len(),
            i <= n,
            r@ == text@.subrange(0, i as int),
        decreases n - i,
    {
        r.push(text.get_char(i));
        assert(r@ =~= text@.subrange(0, i + 1));
        i = i + 1;
    }
    assert(r@ =~= text@);
    r
}

impl TerminalObject {
    /// A plain caption centred on the grid that any key press or click dismisses.
    pub fn prompt(text: &str) -> (r: Self)
        ensures
            r.kind matches ObjectKind::Prompt(t) && t@ == text@,
    {
        TerminalObject { kind: ObjectKind::Prompt(caption_chars(text)) }
    }

    /// The object of an unused layer.
    pub fn empty() -> (r: Self)
        ensures
            r == empty_object(),
    {
        TerminalObject { kind: ObjectKind::Empty }
    }

    /// Draws this object onto `screen`, a `width` by `height` grid stored row by row.
    pub fn on_draw(&self, screen: &mut Vec<ColourChar>, width: usize, height: usize)
        requires
            old(screen)@.len() == width * height,
        ensures
            final(screen)@ == draw_object(*self, old(screen)@, width as int, height as int),
    {
        match &self.kind {
            ObjectKind::Empty => {
                assert(screen@ =~= draw_object(*self, screen@, width as int, height as int));
            },
            ObjectKind::ScreenCleaner(bg) => {
                let cell = ColourChar::Colour(Colour::U8(0), *bg, ' ');
                let n = screen.len();
                let mut i: usize = 0;
                while i < n
                    invariant
                        n == screen@.len(),
                        i <= n,
                        forall|j: int| 0 <= j < i ==> #[trigger] screen@[j] == cell,
                    decreases n - i,
                {
                    screen.set(i, cell);
                    i = i + 1;
                }
                assert(screen@ =~= draw_object(*self, old(screen)@, width as int, height as int));
            },
            ObjectKind::Prompt(text) => {
                draw_caption(screen, text, None, width, height);
                assert(screen@ =~= draw_object(*self, old(screen)@, width as int, height as int));
            },
            ObjectKind::ColourPrompt(fg, bg, text) => {
                draw_caption(screen, text, Some((*fg, *bg)), width, height);
                assert(screen@ =~= draw_object(*self, old(screen)@, width as int, height as int));
            },
        }
    }

    /// Tells whether this object dies on `event`.
    pub fn on_update(&self, event: &TerminalUpdate) -> (r: LifecycleEvent)
        ensures
            r == (if dies_on(*self, *event) {
                LifecycleEvent::Death
            } else {
                LifecycleEvent::NoEvent
            }),
    {
        match &self.kind {
            ObjectKind::Empty => LifecycleEvent::NoEvent,
            ObjectKind::ScreenCleaner(_) => match event {
                TerminalUpdate::Arbitrary(tag) => {
                    if same_text(tag, KILL_SCREEN_CLEANER) {
                        LifecycleEvent::Death
                    } else {
                        LifecycleEvent::NoEvent
                    }
                },
                _ => LifecycleEvent::NoEvent,
            },
            ObjectKind::Prompt(_) | ObjectKind::ColourPrompt(_, _, _) => match event {
                TerminalUpdate::KeyboardEvent(_) | TerminalUpdate::MouseClick(_, _) => {
                    LifecycleEvent::Death
                },
                _ => LifecycleEvent::NoEvent,
            },
        }
    }
}

/// The grid after the first `n` layers of `layers` have drawn on `grid`, in order.
pub open spec fn draw_layers(
    layers: Seq<TerminalObject>,
    n: int,
    grid: Seq<ColourChar>,
    width: int,
    height: int,
) -> Seq<ColourChar>
    decreases n,
{
    if n <= 0 {
        grid
    } else {
        draw_object(layers[n - 1], draw_layers(layers, n - 1, grid, width, height), width, height)
    }
}

/// The layers after `event` has been handed to each: those that die become empty.
pub open spec fn dispatch(layers: Seq<TerminalObject>, event: TerminalUpdate) -> Seq<TerminalObject> {
    Seq::new(
        layers.len(),
        |i: int|
            if dies_on(layers[i], event) {
                empty_object()
            } else {
                layers[i]
            },
    )
}

/// A `WIDTH` by `HEIGHT` grid of cells and the layers of objects that draw on it.
pub struct Terminal<const WIDTH: usize, const HEIGHT: usize> {
    characters: Vec<ColourChar>,
    objects: Vec<TerminalObject>,
}

impl<const WIDTH: usize, const HEIGHT: usize> Terminal<WIDTH, HEIGHT> {
    /// The cells, row by row: column `x` of row `y` is at `y * WIDTH + x`.
    pub closed spec fn grid(&self) -> Seq<ColourChar> {
        self.characters@
    }

    /// The objects, by layer.
    pub closed spec fn layers(&self) -> Seq<TerminalObject> {
        self.objects@
    }

    /// The grid holds `WIDTH * HEIGHT` cells and there are `MAX_LAYERS` layers.
    pub open spec fn wf(&self) -> bool {
        &&& self.grid().len() == WIDTH * HEIGHT
        &&& self.layers().len() == MAX_LAYERS
    }

    /// A terminal whose cells are all spaces and whose layers are all empty.
    pub fn new() -> (t: Self)
        requires
            WIDTH * HEIGHT <= usize::MAX,
        ensures
            t.wf(),
            t.grid() == Seq::new((WIDTH * HEIGHT) as nat, |j: int| ColourChar::Monochrome(' ')),
            t.layers() == Seq::new(MAX_LAYERS as nat, |i: int| empty_object()),
    {
        let n = WIDTH * HEIGHT;
        let mut characters: Vec<ColourChar> = Vec::new();
        let mut i: usize = 0;
        while i < n
            invariant
                i <= n,
                characters@ == Seq::new(i as nat, |j: int| ColourChar::Monochrome(' ')),
            decreases n - i,
        {
            characters.push(ColourChar::from(' '));
            assert(characters@ =~= Seq::new((i + 1) as nat, |j: int| ColourChar::Monochrome(' ')));
            i = i + 1;
        }
        let mut objects: Vec<TerminalObject> = Vec::new();
        let mut l: usize = 0;
        while l < MAX_LAYERS
            invariant
                l <= MAX_LAYERS,
                objects@ == Seq::new(l as nat, |i: int| empty_object()),
            decreases MAX_LAYERS - l,
        {
            objects.push(TerminalObject::empty());
            assert(objects@ =~= Seq::new((l + 1) as nat, |i: int| empty_object()));
            l = l + 1;
        }
        Terminal { characters, objects }
    }

    /// Has every layer draw on the grid, from the lowest layer up.
    pub fn frame(&mut self)
        requires
            old(self).wf(),
        ensures
            final(self).wf(),
            final(self).layers() == old(self).layers(),
            final(self).grid() == draw_layers(
                old(self).layers(),
                MAX_LAYERS as int,
                old(self).grid(),
                WIDTH as int,
                HEIGHT as int,
            ),
    {
        let ghost g0 = self.grid();
        let mut i: usize = 0;
        while i < MAX_LAYERS
            invariant
                self.wf(),
                self.layers() == old(self).layers(),
                g0 == old(self).grid(),
                i <= MAX_LAYERS,
                self.grid() == draw_layers(self.layers(), i as int, g0, WIDTH as int, HEIGHT as int),
            decreases MAX_LAYERS - i,
        {
            self.objects[i].on_draw(&mut self.characters, WIDTH, HEIGHT);
            i = i + 1;
        }
    }

    /// Hands `update_payload` to every layer, from the lowest up; a layer whose object dies
    /// becomes empty.
    pub fn update(&mut self, update_payload: TerminalUpdate)
        requires
            old(self).wf(),
        ensures
            final(self).wf(),
            final(self).grid() == old(self).grid(),
            final(self).layers() == dispatch(old(self).layers(), update_payload),
    {
        let mut i: usize = 0;
        while i < MAX_LAYERS
            invariant
                self.wf(),
                old(self).wf(),
                self.grid() == old(self).grid(),
                i <= MAX_LAYERS,
                forall|l: int|
                    0 <= l < MAX_LAYERS ==> #[trigger] self.layers()[l] == if l < i {
                        dispatch(old(self).layers(), update_payload)[l]
                    } else {
                        old(self).layers()[l]
                    },
            decreases MAX_LAYERS - i,
        {
            match self.objects[i].on_update(&update_payload) {
                LifecycleEvent::NoEvent => {},
                LifecycleEvent::Death => {
                    self.objects.set(i, TerminalObject::empty());
                },
            }
            i = i + 1;
        }
        assert(self.layers() =~= dispatch(old(self).layers(), update_payload));
    }

    /// Puts `object` in layer `layer`, in place of what was there; hands it back when there
    /// is no such layer.
    pub fn insert_object(&mut self, object: TerminalObject, layer: usize) -> (r: Result<
        (),
        TerminalObject,
    >)
        requires
            old(self).wf(),
        ensures
            final(self).wf(),
            final(self).grid() == old(self).grid(),
            layer < MAX_LAYERS ==> r is Ok && final(self).layers() == old(self).layers().update(
                layer as int,
                object,
            ),
            layer >= MAX_LAYERS ==> r == Err::<(), TerminalObject>(object) && final(self).layers()
                == old(self).layers(),
    {
        if layer >= self.objects.len() {
            return Err(object);
        }
        self.objects.set(layer, object);
        Ok(())
    }

    /// The cell at column `x` of row `y`.
    pub fn cell(&self, x: usize, y: usize) -> (r: ColourChar)
        requires
            self.wf(),
            x < WIDTH,
            y < HEIGHT,
        ensures
            r == self.grid()[y * WIDTH + x],
    {
        let n = self.characters.len();
        proof {
            crate::layout::lemma_cell_index(WIDTH as int, HEIGHT as int, x as int, y as int);
        }
        self.characters[y * WIDTH + x]
    }
}

/// Whether one of the first `n` layers writes cell `j`.
pub open spec fn written(layers: Seq<TerminalObject>, n: int, width: int, height: int, j: int) -> bool
    decreases n,
{
    if n <= 0 {
        false
    } else {
        object_cell(layers[n - 1], width, height, j) is Some || written(layers, n - 1, width, height, j)
    }
}

/// A cell that some layer writes ends the same whatever the grid was before; a cell that no
/// layer writes keeps its value.
proof fn lemma_draw_layers_cell(
    layers: Seq<TerminalObject>,
    n: int,
    g1: Seq<ColourChar>,
    g2: Seq<ColourChar>,
    width: int,
    height: int,
    j: int,
)
    requires
        0 <= n <= layers.len(),
        g1.len() == g2.len(),
        0 <= j < g1.len(),
    ensures
        written(layers, n, width, height, j) ==> draw_layers(layers, n, g1, width, height)[j]
            == draw_layers(layers, n, g2, width, height)[j],
        !written(layers, n, width, height, j) ==> draw_layers(layers, n, g1, width, height)[j]
            == g1[j],
    decreases n,
{
    if n > 0 {
        lemma_draw_layers_len(layers, n - 1, g1, width, height);
        lemma_draw_layers_len(layers, n - 1, g2, width, height);
        lemma_draw_layers_cell(layers, n - 1, g1, g2, width, height, j);
        lemma_draw_layers_cell(layers, n - 1, g2, g1, width, height, j);
    }
}

/// Drawing the layers a second time, with nothing changed in between, leaves the grid as the
/// first drawing left it.
pub proof fn lemma_frame_idempotent(
    layers: Seq<TerminalObject>,
    n: int,
    grid: Seq<ColourChar>,
    width: int,
    height: int,
)
    requires
        0 <= n <= layers.len(),
    ensures
        draw_layers(layers, n, draw_layers(layers, n, grid, width, height), width, height)
            == draw_layers(layers, n, grid, width, height),
{
    let once = draw_layers(layers, n, grid, width, height);
    let twice = draw_layers(layers, n, once, width, height);
    lemma_draw_layers_len(layers, n, grid, width, height);
    lemma_draw_layers_len(layers, n, once, width, height);
    assert forall|j: int| 0 <= j < once.len() implies #[trigger] twice[j] == once[j] by {
        lemma_draw_layers_cell(layers, n, grid, grid, width, height, j);
        lemma_draw_layers_cell(layers, n, once, grid, width, height, j);
    }
    assert(twice =~= once);
}

/// Drawing keeps the number of cells.
proof fn lemma_draw_layers_len(
    layers: Seq<TerminalObject>,
    n: int,
    grid: Seq<ColourChar>,
    width: int,
    height: int,
)
    requires
        0 <= n <= layers.len(),
    ensures
        draw_layers(layers, n, grid, width, height).len() == grid.len(),
    decreases n,
{
    if n > 0 {
        lemma_draw_layers_len(layers, n - 1, grid, width, height);
    }
}

/// A click removes a prompt: its layer becomes empty, draws nothing, and stays empty through
/// any later event.
pub proof fn lemma_click_dismisses_prompt(
    layers: Seq<TerminalObject>,
    i: int,
    x: usize,
    y: usize,
    later: TerminalUpdate,
    width: int,
    height: int,
)
    requires
        0 <= i < layers.len(),
        layers[i].kind is Prompt || layers[i].kind is ColourPrompt,
    ensures
        ({
            let after = dispatch(layers, TerminalUpdate::MouseClick(x, y));
            &&& after[i] == empty_object()
            &&& forall|j: int| #[trigger] object_cell(after[i], width, height, j) is None
            &&& dispatch(after, later)[i] == after[i]
        }),
{
}

} // verus!
