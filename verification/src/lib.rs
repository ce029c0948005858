//! Immediate-mode user interface toolkit for character-grid displays.
//!
//! Each frame the host redeclares the whole widget tree; the toolkit
//! computes layout, tracks focus/hover/press across frames by stable
//! widget identities, and emits an ordered list of draw commands for
//! an external renderer.

use std::collections::HashMap;
use vstd::prelude::*;

pub mod color;
pub mod button;
pub mod container;
pub mod slider;
pub mod text;
pub mod layout;

pub use color::Color;
pub use color::ColorCode;
pub use color::ColorManager;
pub use layout::Layout;
pub use layout::LayoutMode;

use color::COLOR_COUNT;
use color::spec_color_index;
use layout::LayoutM;
use layout::commit_child_m;
use layout::commit_parent_m;
use layout::default_layout_m;
use layout::wf_m;

verus! {

/// Coordinate unit of the character grid.
pub type Coord = i64;

/// Stable widget identity, derived from the container path and the
/// widget's local name.
pub type Id = u64;

/// The identity that no widget has; hover/focus rest here when no
/// control holds them.
pub const NULL_ID: Id = 0;

/// Coordinates are kept inside this bound; arithmetic on them
/// saturates here instead of overflowing.
pub const COORD_LIMIT: i64 = 0x2000_0000;

/// Left mouse button mask.
pub const MOUSE_BUTTON_LEFT: usize = 1;

/// Right mouse button mask.
pub const MOUSE_BUTTON_RIGHT: usize = 2;

/// Middle mouse button mask.
pub const MOUSE_BUTTON_MIDDLE: usize = 4;

/// Horizontal anchoring of a text run inside its rectangle.
#[derive(Clone, Copy, Debug, PartialEq, Eq, Structural)]
pub enum TextAlign {
    Left,
    Center,
    Right,
}

impl Default for TextAlign {
    fn default() -> (r: Self)
        ensures
            r == TextAlign::Left,
    {
        TextAlign::Left
    }
}

/// A position on the character grid.
#[derive(Clone, Copy, Debug, PartialEq, Eq, Structural)]
pub struct Pos {
    pub x: Coord,
    pub y: Coord,
}

/// An axis-aligned rectangle on the character grid.
#[derive(Clone, Copy, Debug, PartialEq, Eq, Structural)]
pub struct Rect {
    pub x: Coord,
    pub y: Coord,
    pub w: Coord,
    pub h: Coord,
}

impl Rect {
    pub fn new(x: Coord, y: Coord, w: Coord, h: Coord) -> (r: Rect)
        ensures
            r == (Rect { x, y, w, h }),
    {
        Rect { x, y, w, h }
    }

    /// Whether the point lies inside the rectangle.
    pub open spec fn spec_contains(self, p: Pos) -> bool {
        p.x >= self.x && p.y >= self.y && p.x < self.x + self.w && p.y < self.y + self.h
    }

    pub fn contains(&self, p: Pos) -> (b: bool)
        requires
            in_coord_range(self.x as int),
            in_coord_range(self.y as int),
            in_coord_range(self.w as int),
            in_coord_range(self.h as int),
        ensures
            b == self.spec_contains(p),
    {
        p.x >= self.x && p.y >= self.y && p.x < self.x + self.w && p.y < self.y + self.h
    }

    /// The rectangle's origin.
    pub fn origin(&self) -> (p: Pos)
        ensures
            p == (Pos { x: self.x, y: self.y }),
    {
        Pos { x: self.x, y: self.y }
    }
}

/// A draw intent handed to the renderer; colors are already resolved
/// and text already truncated when a command is appended. The
/// progress coefficient is in thousandths of the full bar.
#[derive(Debug)]
pub enum Command {
    Rect(Rect, Color),
    Text(String, Pos, Color),
    TextColor(String, Pos, TextAlign),
    Frame(String, Rect, Color, Color),
    Line(Pos, Pos, Color),
    CheckBox(Pos, bool, Color),
    DropDown(Pos, bool, Color),
    Progress(Rect, u32, Color, Color),
}

/// Decoration attached to a layout frame at open time and resolved
/// into concrete commands once the frame's rectangle is final.
#[derive(Debug)]
pub enum DeferedCommand {
    Frame(String, Color, Color),
    Button(String, Color, Color),
    CheckBox(bool, Color),
    DropDown(bool, Color),
    Label(Rect, String, Color, Color),
    LabelColor(Rect, String, Color),
}

/// A discrete editing key routed to the focused text box.
#[derive(Clone, Copy, Debug, PartialEq, Eq, Structural)]
pub enum SpecialKey {
    Backspace,
    Delete,
    Left,
    Right,
    Home,
    End,
}

/// Primitive drawing operations a display backend must provide; the
/// command list is replayed against these in emission order.
pub trait Renderer {
    fn line(&mut self, p1: Pos, p2: Pos, col: Color);

    fn rectangle(&mut self, rect: &Rect, col: Color);

    fn text(&mut self, pos: Pos, txt: &str, col: Color);

    fn text_color(&mut self, pos: Pos, txt: &str, align: TextAlign);

    fn frame(&mut self, txt: &str, rect: &Rect, col: Color, coltxt: Color);

    fn checkbox(&mut self, pos: Pos, checked: bool, col: Color);

    fn dropdown(&mut self, pos: Pos, checked: bool, col: Color);

    fn progress(&mut self, rect: &Rect, permille: u32, back: Color, fore: Color);
}

/// Whether a coordinate lies inside the saturation bound.
pub open spec fn in_coord_range(v: int) -> bool {
    -COORD_LIMIT <= v <= COORD_LIMIT
}

/// A looser bound for text anchoring arithmetic: holds of any sum of
/// a few in-range coordinates.
pub open spec fn text_coord_ok(v: int) -> bool {
    -0x1000_0000_0000 <= v <= 0x1000_0000_0000
}

/// Clip a value into the coordinate bound.
pub open spec fn clip_coord(v: int) -> int {
    if v > COORD_LIMIT as int {
        COORD_LIMIT as int
    } else if v < -COORD_LIMIT as int {
        -COORD_LIMIT as int
    } else {
        v
    }
}

/// Sum clipped into the coordinate bound.
pub open spec fn sat_add(a: int, b: int) -> int {
    clip_coord(a + b)
}

/// Difference clipped into the coordinate bound.
pub open spec fn sat_sub(a: int, b: int) -> int {
    clip_coord(a - b)
}

/// Product clipped into the coordinate bound.
pub open spec fn sat_mul(a: int, b: int) -> int {
    clip_coord(a * b)
}

/// Larger of two values.
pub open spec fn imax(a: int, b: int) -> int {
    if a >= b {
        a
    } else {
        b
    }
}

/// Smaller of two values.
pub open spec fn imin(a: int, b: int) -> int {
    if a <= b {
        a
    } else {
        b
    }
}

/// Saturating coordinate addition.
pub fn cadd(a: Coord, b: Coord) -> (r: Coord)
    requires
        in_coord_range(a as int),
        in_coord_range(b as int),
    ensures
        r as int == sat_add(a as int, b as int),
        in_coord_range(r as int),
{
    clamp_coord(a + b)
}

/// Saturating coordinate subtraction.
pub fn csub(a: Coord, b: Coord) -> (r: Coord)
    requires
        in_coord_range(a as int),
        in_coord_range(b as int),
    ensures
        r as int == sat_sub(a as int, b as int),
        in_coord_range(r as int),
{
    clamp_coord(a - b)
}

/// Saturating coordinate multiplication.
pub fn cmul(a: Coord, b: Coord) -> (r: Coord)
    requires
        in_coord_range(a as int),
        in_coord_range(b as int),
    ensures
        r as int == sat_mul(a as int, b as int),
        in_coord_range(r as int),
{
    proof {
        assert((a as int) * (b as int) <= COORD_LIMIT * COORD_LIMIT && (a as int) * (b as int)
            >= -(COORD_LIMIT * COORD_LIMIT)) by (nonlinear_arith)
            requires
                -COORD_LIMIT <= a as int <= COORD_LIMIT,
                -COORD_LIMIT <= b as int <= COORD_LIMIT,
        ;
    }
    clamp_coord(a * b)
}

/// Larger of two coordinates.
pub fn cmax(a: Coord, b: Coord) -> (r: Coord)
    ensures
        r as int == imax(a as int, b as int),
{
    if a >= b {
        a
    } else {
        b
    }
}

/// Smaller of two coordinates.
pub fn cmin(a: Coord, b: Coord) -> (r: Coord)
    ensures
        r as int == imin(a as int, b as int),
{
    if a <= b {
        a
    } else {
        b
    }
}

fn clamp_coord(v: i64) -> (r: Coord)
    ensures
        r as int == clip_coord(v as int),
        in_coord_range(r as int),
{
    if v > COORD_LIMIT {
        COORD_LIMIT
    } else if v < -COORD_LIMIT {
        -COORD_LIMIT
    } else {
        v
    }
}

// ===================================================================
//
// Widget identity: a stable hash of the container path and the
// widget's local name
//
// ===================================================================
/// Offset basis of the 64-bit string hash.
pub const ID_HASH_OFFSET: u64 = 0xcbf29ce484222325;

/// Multiplier of the 64-bit string hash.
pub const ID_HASH_PRIME: u64 = 0x100000001b3;

/// One step of the identity hash: fold one character into the state.
pub open spec fn id_hash_step(h: u64, c: char) -> u64 {
    (h ^ (c as u64)).wrapping_mul(ID_HASH_PRIME)
}

/// Fold a character sequence into the identity hash state.
pub open spec fn id_hash_chars(h: u64, s: Seq<char>) -> u64
    decreases s.len(),
{
    if s.len() == 0 {
        h
    } else {
        id_hash_chars(id_hash_step(h, s[0]), s.drop_first())
    }
}

/// The container path joined with `/` between segments.
pub open spec fn joined_path(prefix: Seq<Seq<char>>) -> Seq<char>
    decreases prefix.len(),
{
    if prefix.len() == 0 {
        Seq::empty()
    } else if prefix.len() == 1 {
        prefix[0]
    } else {
        joined_path(prefix.drop_last()) + seq!['/'] + prefix.last()
    }
}

/// The identity of a widget: the hash of the joined container path,
/// a `/`, and the widget's local name. A pure function of the path
/// and the name, which is what keeps identities stable across
/// full-tree-rebuild frames.
pub open spec fn id_of(prefix: Seq<Seq<char>>, name: Seq<char>) -> u64 {
    id_hash_chars(ID_HASH_OFFSET, joined_path(prefix) + seq!['/'] + name)
}

/// Identities are stable across full-tree-rebuild frames: a widget
/// declared under the same container path with the same local name
/// gets the same identity on every frame, because the identity is a
/// pure function of the path and the name.
pub proof fn lemma_identity_stable(
    prefix1: Seq<Seq<char>>,
    name1: Seq<char>,
    prefix2: Seq<Seq<char>>,
    name2: Seq<char>,
)
    requires
        prefix1 == prefix2,
        name1 == name2,
    ensures
        id_of(prefix1, name1) == id_of(prefix2, name2),
{
}

/// Folding a concatenation equals folding the parts in order.
pub proof fn lemma_id_hash_append(h: u64, a: Seq<char>, b: Seq<char>)
    ensures
        id_hash_chars(h, a + b) == id_hash_chars(id_hash_chars(h, a), b),
    decreases a.len(),
{
    if a.len() == 0 {
        assert(a + b =~= b);
    } else {
        assert((a + b).drop_first() =~= a.drop_first() + b);
        lemma_id_hash_append(id_hash_step(h, a[0]), a.drop_first(), b);
    }
}

/// Folding a single character is one hash step.
pub proof fn lemma_id_hash_singleton(h: u64, c: char)
    ensures
        id_hash_chars(h, seq![c]) == id_hash_step(h, c),
{
    assert(seq![c].drop_first() =~= Seq::<char>::empty());
    assert(id_hash_chars(id_hash_step(h, c), Seq::<char>::empty()) == id_hash_step(h, c));
}

/// Fold one string into the identity hash state.
fn id_hash_str(h0: u64, s: &str) -> (r: u64)
    ensures
        r == id_hash_chars(h0, s@),
{
    let n = s.unicode_len();
    let mut h = h0;
    let mut i: usize = 0;
    while i < n
        invariant
            n == s@.len(),
            0 <= i <= n,
            h == id_hash_chars(h0, s@.take(i as int)),
        decreases n - i,
    {
        let c = s.get_char(i);
        proof {
            lemma_id_hash_append(h0, s@.take(i as int), seq![s@[i as int]]);
            assert(s@.take(i as int) + seq![s@[i as int]] =~= s@.take(i as int + 1));
            assert(seq![s@[i as int]].drop_first() =~= Seq::<char>::empty());
            assert(id_hash_chars(id_hash_step(h, s@[i as int]), Seq::<char>::empty())
                == id_hash_step(h, s@[i as int]));
            assert(id_hash_chars(h, seq![s@[i as int]]) == id_hash_step(h, s@[i as int]));
        }
        h = (h ^ (c as u64)).wrapping_mul(ID_HASH_PRIME);
        i = i + 1;
    }
    proof {
        assert(s@.take(n as int) =~= s@);
    }
    h
}

/// Fold one character into the identity hash state.
fn id_hash_char(h: u64, c: char) -> (r: u64)
    ensures
        r == id_hash_step(h, c),
{
    (h ^ (c as u64)).wrapping_mul(ID_HASH_PRIME)
}

// ===================================================================
//
// Character-level string helpers
//
// ===================================================================
/// The characters of a string, as a vector.
pub fn chars_vec(s: &str) -> (r: Vec<char>)
    ensures
        r@ == s@,
{
    let n = s.unicode_len();
    let mut r: Vec<char> = Vec::new();
    let mut i: usize = 0;
    while i < n
        invariant
            n == s@.len(),
            0 <= i <= n,
            r@ == s@.take(i as int),
        decreases n - i,
    {
        r.push(s.get_char(i));
        proof {
            assert(s@.take(i as int).push(s@[i as int]) =~= s@.take(i as int + 1));
        }
        i = i + 1;
    }
    proof {
        assert(s@.take(n as int) =~= s@);
    }
    r
}

/// Relies on `String`'s `FromIterator<char>`: collecting characters
/// yields the string made of exactly those characters, in order.
#[verifier::external_body]
pub fn string_from_chars(v: &Vec<char>) -> (r: String)
    ensures
        r@ == v@,
{
    v.iter().collect()
}

/// Relies on `doryen_rs::Console::text_color_len`: the visible
/// length of a string with embedded color directives, computed from
/// the text alone.
#[verifier::external_body]
pub fn text_color_len(txt: &str) -> (r: usize)
    ensures
        r as nat == color_text_len(txt@),
{
    doryen_rs::Console::text_color_len(txt)
}

// ===================================================================
//
// Matchers for the emitted commands
//
// ===================================================================
/// The command is a rectangle fill with this geometry and color.
pub open spec fn cmd_is_rect(c: Command, r: Rect, col: Color) -> bool {
    match c {
        Command::Rect(r2, col2) => r2 == r && col2 == col,
        _ => false,
    }
}

/// The command is a text run with these characters, position, color.
pub open spec fn cmd_is_text(c: Command, txt: Seq<char>, p: Pos, col: Color) -> bool {
    match c {
        Command::Text(s, p2, col2) => s@ == txt && p2 == p && col2 == col,
        _ => false,
    }
}

/// The command is a color-coded text run.
pub open spec fn cmd_is_text_color(c: Command, txt: Seq<char>, p: Pos, align: TextAlign) -> bool {
    match c {
        Command::TextColor(s, p2, a2) => s@ == txt && p2 == p && a2 == align,
        _ => false,
    }
}

/// The command is a line between these positions.
pub open spec fn cmd_is_line(c: Command, p1: Pos, p2: Pos, col: Color) -> bool {
    match c {
        Command::Line(q1, q2, col2) => q1 == p1 && q2 == p2 && col2 == col,
        _ => false,
    }
}

/// The command is a checkbox glyph.
pub open spec fn cmd_is_checkbox(c: Command, p: Pos, checked: bool, col: Color) -> bool {
    match c {
        Command::CheckBox(p2, b2, col2) => p2 == p && b2 == checked && col2 == col,
        _ => false,
    }
}

/// The command is a dropdown indicator glyph.
pub open spec fn cmd_is_dropdown(c: Command, p: Pos, open_: bool, col: Color) -> bool {
    match c {
        Command::DropDown(p2, b2, col2) => p2 == p && b2 == open_ && col2 == col,
        _ => false,
    }
}

/// The command is a titled frame border.
pub open spec fn cmd_is_frame(c: Command, title: Seq<char>, r: Rect, col: Color, coltxt: Color) -> bool {
    match c {
        Command::Frame(s, r2, col2, coltxt2) => s@ == title && r2 == r && col2 == col && coltxt2
            == coltxt,
        _ => false,
    }
}

/// The command is a progress-bar fill with this coefficient (in
/// thousandths).
pub open spec fn cmd_is_progress(c: Command, r: Rect, permille: u32, back: Color, fore: Color) -> bool {
    match c {
        Command::Progress(r2, k, b2, f2) => r2 == r && k == permille && b2 == back && f2 == fore,
        _ => false,
    }
}

// ===================================================================
//
// Text truncation and alignment
//
// ===================================================================
/// The characters of a text run that fit its rectangle: left
/// alignment keeps the head, right alignment keeps the tail, center
/// alignment trims both ends.
pub open spec fn truncated_text(r: Rect, txt: Seq<char>, align: TextAlign) -> Seq<char> {
    let len = txt.len() as int;
    let w = imax(r.w as int, 0);
    match align {
        TextAlign::Left => txt.take(imin(w, len)),
        TextAlign::Right => if len > r.w as int {
            txt.skip(len - w)
        } else {
            txt
        },
        TextAlign::Center => if len > r.w as int {
            txt.subrange((len - w) / 2, w + (len - w) / 2)
        } else {
            txt
        },
    }
}

/// Where a text run is anchored inside its rectangle.
pub open spec fn text_pos(r: Rect, txt: Seq<char>, align: TextAlign) -> Pos {
    let len = txt.len() as int;
    match align {
        TextAlign::Left => Pos { x: r.x, y: r.y },
        TextAlign::Right => if len > r.w as int {
            Pos { x: r.x, y: r.y }
        } else {
            Pos { x: (r.x + r.w - len) as i64, y: r.y }
        },
        TextAlign::Center => if len > r.w as int {
            Pos { x: r.x, y: r.y }
        } else {
            Pos { x: (r.x as int + r.w as int / 2 - len / 2) as i64, y: r.y }
        },
    }
}

/// A right-aligned text run longer than its rectangle keeps exactly
/// the trailing characters that fit, anchored at the rectangle's
/// left edge (so it ends flush with the right edge).
pub proof fn lemma_right_truncation(r: Rect, txt: Seq<char>)
    requires
        r.w >= 0,
        txt.len() > r.w,
    ensures
        truncated_text(r, txt, TextAlign::Right) == txt.skip(txt.len() - r.w as int),
        truncated_text(r, txt, TextAlign::Right).len() == r.w,
        text_pos(r, txt, TextAlign::Right).x == r.x,
{
}

/// Copy of a character range.
pub(crate) fn sub_chars(v: &Vec<char>, from: usize, to: usize) -> (r: Vec<char>)
    requires
        from <= to <= v@.len(),
    ensures
        r@ == v@.subrange(from as int, to as int),
{
    let mut r: Vec<char> = Vec::new();
    let mut i: usize = from;
    while i < to
        invariant
            from <= i <= to <= v@.len(),
            r@ == v@.subrange(from as int, i as int),
        decreases to - i,
    {
        r.push(v[i]);
        proof {
            assert(v@.subrange(from as int, i as int).push(v@[i as int]) =~= v@.subrange(
                from as int,
                i as int + 1,
            ));
        }
        i = i + 1;
    }
    r
}

/// Truncate and anchor a text run inside a rectangle.
fn format_text(r: Rect, txt: &Vec<char>, align: TextAlign) -> (res: (Pos, Vec<char>))
    requires
        text_coord_ok(r.x as int),
        text_coord_ok(r.y as int),
        text_coord_ok(r.w as int),
        txt@.len() <= 2 * COORD_LIMIT,
    ensures
        res.0 == text_pos(r, txt@, align),
        res.1@ == truncated_text(r, txt@, align),
{
    let len: i64 = txt.len() as i64;
    match align {
        TextAlign::Left => {
            let keep: i64 = if r.w < 0 {
                0
            } else if r.w < len {
                r.w
            } else {
                len
            };
            let t = sub_chars(txt, 0, keep as usize);
            proof {
                assert(txt@.subrange(0, keep as int) =~= txt@.take(
                    imin(imax(r.w as int, 0), len as int),
                ));
            }
            (Pos { x: r.x, y: r.y }, t)
        },
        TextAlign::Right => {
            if len > r.w {
                let w0: i64 = if r.w < 0 {
                    0
                } else {
                    r.w
                };
                let t = sub_chars(txt, (len - w0) as usize, txt.len());
                proof {
                    assert(txt@.subrange(len - w0 as int, txt@.len() as int) =~= txt@.skip(
                        len - imax(r.w as int, 0),
                    ));
                }
                (Pos { x: r.x, y: r.y }, t)
            } else {
                (Pos { x: r.x + r.w - len, y: r.y }, clone_chars(txt))
            }
        },
        TextAlign::Center => {
            if len > r.w {
                let w0: i64 = if r.w < 0 {
                    0
                } else {
                    r.w
                };
                let start: i64 = (len - w0) / 2;
                let t = sub_chars(txt, start as usize, (start + w0) as usize);
                (Pos { x: r.x, y: r.y }, t)
            } else {
                (Pos { x: r.x + r.w / 2 - len / 2, y: r.y }, clone_chars(txt))
            }
        },
    }
}

// ===================================================================
//
// The context: all cross-frame state of the toolkit
//
// ===================================================================
/// Per-identity persistent state of a text box. The content is kept
/// as its sequence of grapheme clusters so cursor movement and
/// deletion work on user-perceived characters.
pub struct TextBoxState {
    pub bkgnd_text: String,
    pub value: Vec<String>,
    pub offset: usize,
    pub cursor_pos: usize,
}

/// The toolkit's single mutable session object: layout stack,
/// identity path, interaction state, persistent widget state, and
/// the frame's command list.
pub struct Context {
    pub color_manager: ColorManager,
    // identity generation
    pub last_id: Id,
    pub id_prefix: Vec<String>,
    // user input for the current frame
    pub mouse_pos: Pos,
    pub mouse_pressed: usize,
    pub mouse_down: usize,
    pub text_input: String,
    pub special_keys: Vec<SpecialKey>,
    // rendering
    pub commands: Vec<Command>,
    pub layouts: Vec<Layout>,
    // deferred widget creation
    pub next_layout: Option<Layout>,
    pub next_align: Option<TextAlign>,
    // interaction state
    pub focus: Id,
    pub hover: Id,
    pub button_state: HashMap<Id, i64>,
    pub slider_state: HashMap<Id, i64>,
    pub textbox_state: HashMap<Id, TextBoxState>,
    pub toggle_groups: Vec<(usize, Id)>,
    pub cur_toggle_group: usize,
    pub pressed: bool,
    pub active: bool,
    // list buttons
    pub list_button_index: i64,
    pub list_button_width: Coord,
    pub list_button_label: Vec<char>,
    pub list_button_align: TextAlign,
    // slider dragging
    pub dnd_on: bool,
    pub dnd_start: Pos,
    pub dnd_value: i64,
    // frame counter driving the text cursor blink
    pub timer: usize,
}

/// The models of a stack of layout frames.
pub open spec fn layouts_of(s: Seq<Layout>) -> Seq<LayoutM> {
    s.map(|i: int, l: Layout| l@)
}

/// All four rectangle coordinates lie inside the saturation bound.
pub open spec fn rect_in_range(r: Rect) -> bool {
    &&& in_coord_range(r.x as int)
    &&& in_coord_range(r.y as int)
    &&& in_coord_range(r.w as int)
    &&& in_coord_range(r.h as int)
}

/// A stored decoration that the deferred-rendering pass can handle:
/// its rectangle is in range and any text it truncates is of
/// tractable length.
pub open spec fn defered_cmd_ok(c: DeferedCommand) -> bool {
    match c {
        DeferedCommand::Frame(t, _, _) => t@.len() <= COORD_LIMIT,
        DeferedCommand::Button(t, _, _) => t@.len() <= COORD_LIMIT,
        DeferedCommand::CheckBox(_, _) => true,
        DeferedCommand::DropDown(_, _) => true,
        DeferedCommand::Label(r, t, _, _) => rect_in_range(r) && t@.len() <= COORD_LIMIT,
        DeferedCommand::LabelColor(r, _, _) => rect_in_range(r),
    }
}

/// Every decoration attached to this frame is renderable.
pub open spec fn defered_ok_l(l: Layout) -> bool {
    forall|i: int|
        0 <= i < l.defered_seq().len() ==> defered_cmd_ok(#[trigger] l.defered_seq()[i])
}

/// The decoration is a label with this rectangle, text and colors.
pub open spec fn defered_is_label(
    d: DeferedCommand,
    r: Rect,
    txt: Seq<char>,
    col: Color,
    coltxt: Color,
) -> bool {
    match d {
        DeferedCommand::Label(r2, t, c2, ct2) => r2 == r && t@ == txt && c2 == col && ct2
            == coltxt,
        _ => false,
    }
}

/// The decoration is a color-coded label.
pub open spec fn defered_is_label_color(d: DeferedCommand, r: Rect, txt: Seq<char>, col: Color) -> bool {
    match d {
        DeferedCommand::LabelColor(r2, t, c2) => r2 == r && t@ == txt && c2 == col,
        _ => false,
    }
}

/// The decoration is a checkbox glyph with this state and color.
pub open spec fn defered_is_checkbox(d: DeferedCommand, checked: bool, col: Color) -> bool {
    match d {
        DeferedCommand::CheckBox(b, c2) => b == checked && c2 == col,
        _ => false,
    }
}

/// The decoration is a button face with this caption and colors.
pub open spec fn defered_is_button(d: DeferedCommand, txt: Seq<char>, col: Color, coltxt: Color) -> bool {
    match d {
        DeferedCommand::Button(t, c2, ct2) => t@ == txt && c2 == col && ct2 == coltxt,
        _ => false,
    }
}

/// The decoration is a frame border with this title and colors.
pub open spec fn defered_is_frame(d: DeferedCommand, txt: Seq<char>, col: Color, coltxt: Color) -> bool {
    match d {
        DeferedCommand::Frame(t, c2, ct2) => t@ == txt && c2 == col && ct2 == coltxt,
        _ => false,
    }
}

/// How many commands one deferred decoration resolves into.
pub open spec fn emitted_len(d: DeferedCommand) -> int {
    match d {
        DeferedCommand::Frame(_, _, _) => 0,
        DeferedCommand::CheckBox(_, _) => 1,
        DeferedCommand::DropDown(_, _) => 1,
        _ => 2,
    }
}

/// What one decoration leaves of the pending alignment: a rendered
/// text face (button or label) consumes it.
pub open spec fn align_step(d: DeferedCommand, a0: Option<TextAlign>) -> Option<TextAlign> {
    match d {
        DeferedCommand::Frame(_, _, _) => a0,
        DeferedCommand::CheckBox(_, _) => a0,
        DeferedCommand::DropDown(_, _) => a0,
        _ => None,
    }
}

/// The alignment left pending after resolving these decorations in
/// order.
pub open spec fn align_after(ds: Seq<DeferedCommand>, a0: Option<TextAlign>) -> Option<TextAlign>
    decreases ds.len(),
{
    if ds.len() == 0 {
        a0
    } else {
        align_after(ds.drop_first(), align_step(ds[0], a0))
    }
}

/// The commands one decoration resolves into, against the frame's
/// final rectangle `r` and the container's most recent placement
/// spot `lc`. A frame border resolves to nothing here; it is drawn
/// when its container closes.
pub open spec fn renders_one(
    out: Seq<Command>,
    d: DeferedCommand,
    r: Rect,
    lc: Pos,
    a0: Option<TextAlign>,
) -> bool {
    match d {
        DeferedCommand::Frame(_, _, _) => out.len() == 0,
        DeferedCommand::Button(t, col, coltxt) => {
            let a = if a0 is Some {
                a0->0
            } else {
                TextAlign::Center
            };
            &&& out.len() == 2
            &&& cmd_is_rect(out[0], r, col)
            &&& cmd_is_text(out[1], truncated_text(r, t@, a), text_pos(r, t@, a), coltxt)
        },
        DeferedCommand::CheckBox(b, col) => out.len() == 1 && cmd_is_checkbox(out[0], lc, b, col),
        DeferedCommand::DropDown(b, col) => out.len() == 1 && cmd_is_dropdown(
            out[0],
            Pos { x: (lc.x + 1) as i64, y: lc.y },
            b,
            col,
        ),
        DeferedCommand::Label(r2, t, col, coltxt) => {
            let a = if a0 is Some {
                a0->0
            } else {
                TextAlign::Left
            };
            &&& out.len() == 2
            &&& cmd_is_rect(out[0], r2, col)
            &&& cmd_is_text(out[1], truncated_text(r2, t@, a), text_pos(r2, t@, a), coltxt)
        },
        DeferedCommand::LabelColor(r2, t, col) => {
            let a = if a0 is Some {
                a0->0
            } else {
                TextAlign::Left
            };
            &&& out.len() == 2
            &&& cmd_is_rect(out[0], r2, col)
            &&& cmd_is_text_color(out[1], t@, Pos { x: r2.x, y: r2.y }, a)
        },
    }
}

/// The commands a queue of decorations resolves into, in order,
/// threading the pending alignment through the text faces.
pub open spec fn renders_defered(
    out: Seq<Command>,
    ds: Seq<DeferedCommand>,
    r: Rect,
    lc: Pos,
    a0: Option<TextAlign>,
) -> bool
    decreases ds.len(),
{
    if ds.len() == 0 {
        out.len() == 0
    } else {
        let k = emitted_len(ds[0]);
        &&& out.len() >= k
        &&& renders_one(out.take(k), ds[0], r, lc, a0)
        &&& renders_defered(out.skip(k), ds.drop_first(), r, lc, align_step(ds[0], a0))
    }
}

/// Resolving one more decoration extends the emitted commands at the
/// tail.
proof fn lemma_renders_snoc(
    out1: Seq<Command>,
    out2: Seq<Command>,
    ds: Seq<DeferedCommand>,
    d: DeferedCommand,
    r: Rect,
    lc: Pos,
    a0: Option<TextAlign>,
)
    requires
        renders_defered(out1, ds, r, lc, a0),
        renders_one(out2, d, r, lc, align_after(ds, a0)),
        out2.len() == emitted_len(d),
    ensures
        renders_defered(out1 + out2, ds.push(d), r, lc, a0),
    decreases ds.len(),
{
    if ds.len() == 0 {
        assert(out1.len() == 0);
        assert(out1 + out2 =~= out2);
        let k = emitted_len(d);
        assert(ds.push(d)[0] == d);
        assert(ds.push(d).drop_first() =~= Seq::<DeferedCommand>::empty());
        assert(out2.take(k) =~= out2);
        assert(out2.skip(k) =~= Seq::<Command>::empty());
        assert(renders_defered(out2.skip(k), Seq::<DeferedCommand>::empty(), r, lc, align_step(d, a0)));
    } else {
        let k0 = emitted_len(ds[0]);
        assert(ds.push(d)[0] == ds[0]);
        assert(ds.push(d).drop_first() =~= ds.drop_first().push(d));
        assert((out1 + out2).take(k0) =~= out1.take(k0));
        assert((out1 + out2).skip(k0) =~= out1.skip(k0) + out2);
        lemma_renders_snoc(out1.skip(k0), out2, ds.drop_first(), d, r, lc, align_step(ds[0], a0));
    }
}

/// The pending alignment folds one step per decoration.
proof fn lemma_align_after_snoc(ds: Seq<DeferedCommand>, d: DeferedCommand, a0: Option<TextAlign>)
    ensures
        align_after(ds.push(d), a0) == align_step(d, align_after(ds, a0)),
    decreases ds.len(),
{
    if ds.len() == 0 {
        assert(ds.push(d).drop_first() =~= Seq::<DeferedCommand>::empty());
        assert(ds.push(d)[0] == d);
        assert(align_after(Seq::<DeferedCommand>::empty(), align_step(d, a0)) == align_step(
            d,
            a0,
        ));
    } else {
        assert(ds.push(d).drop_first() =~= ds.drop_first().push(d));
        assert(ds.push(d)[0] == ds[0]);
        lemma_align_after_snoc(ds.drop_first(), d, align_step(ds[0], a0));
    }
}

/// The visible length of a doryen color-coded string: the characters
/// outside its color directives. A function of the text alone.
pub uninterp spec fn color_text_len(s: Seq<char>) -> nat;

/// Which control the pointer rests on after one control's update:
/// this control when the pointer is inside its rectangle; when the
/// pointer is outside, only the control that itself holds hover
/// clears it — another control's hover is left untouched.
pub open spec fn hover_next(over: bool, id: Id, prev: Id) -> Id {
    if over {
        id
    } else if prev == id {
        NULL_ID
    } else {
        prev
    }
}

/// Which control holds focus after one control's update: a press
/// inside takes focus; a press outside releases it from a plain
/// control, while a focus-holding control (slider, text box) keeps
/// it until the button is no longer down.
pub open spec fn focus_next(
    over: bool,
    pressed: bool,
    down: usize,
    hold_focus: bool,
    id: Id,
    old_focus: Id,
) -> Id {
    if over {
        if pressed {
            id
        } else {
            old_focus
        }
    } else {
        if old_focus == id && ((!hold_focus && pressed) || (hold_focus && down == 0)) {
            NULL_ID
        } else {
            old_focus
        }
    }
}

/// A pointer inside a control's rectangle sets hover to it on the
/// same frame, with no click required; a pointer outside clears
/// hover only from the control that holds it, so a later-declared
/// control never wipes an earlier control's hover. With the pointer
/// outside every rectangle, each declared control either holds no
/// hover or clears its own, so hover ends the frame null.
pub proof fn lemma_hover_tracks_pointer(over: bool, id: Id, prev: Id)
    ensures
        over ==> hover_next(over, id, prev) == id,
        !over && prev == id ==> hover_next(over, id, prev) == NULL_ID,
        !over && prev != id ==> hover_next(over, id, prev) == prev,
{
}

/// The press signal is edge-triggered: `end` clears the one-shot
/// pressed flag, so on a frame with no new button-down input a
/// button's press condition is false however long the button has
/// been held down (the level-sensitive down flag plays no part in
/// it).
pub proof fn lemma_press_edge(over: bool, id: Id, prev: Id, mouse_pressed: usize)
    requires
        mouse_pressed == 0,
    ensures
        !(hover_next(over, id, prev) == id && mouse_pressed == MOUSE_BUTTON_LEFT),
{
}

/// The model of a fresh terminal frame of the given size.
pub open spec fn single_m(w: int, h: int) -> LayoutM {
    LayoutM { mode: LayoutMode::Single, w: w, h: h, ..default_layout_m() }
}

impl Context {
    /// The container path as a sequence of segment names.
    pub open spec fn prefix_m(self) -> Seq<Seq<char>> {
        self.id_prefix.deep_view()
    }

    /// The layout stack after resolving a still-pending deferred
    /// frame: a pending uncommitted frame is committed into the top
    /// of the stack, and pushed onto it if it is a container.
    pub open spec fn resolved_layouts(self) -> Seq<LayoutM> {
        let st = layouts_of(self.layouts@);
        match self.next_layout {
            None => st,
            Some(nl) => if !nl@.commited {
                let p = st.last();
                let st2 = st.update(st.len() - 1, commit_parent_m(p, nl@));
                if commit_child_m(p, nl@).mode != LayoutMode::Single {
                    st2.push(commit_child_m(p, nl@))
                } else {
                    st2
                }
            } else {
                if nl@.mode != LayoutMode::Single {
                    st.push(nl@)
                } else {
                    st
                }
            },
        }
    }

    /// The rectangle the next leaf widget of the given size will be
    /// placed at, as the model of its committed terminal frame.
    pub open spec fn widget_rect_m(self, w: int, h: int) -> LayoutM {
        commit_child_m(self.resolved_layouts().last(), single_m(w, h))
    }

    /// The decorations attached to each frame on the layout stack.
    pub open spec fn defered_stack(self) -> Seq<Seq<DeferedCommand>> {
        self.layouts@.map(|i: int, l: Layout| l.defered_seq())
    }

    /// The decoration stack after resolving a pending frame: a
    /// pending container brings its decorations onto the stack.
    pub open spec fn resolved_defered(self) -> Seq<Seq<DeferedCommand>> {
        match self.next_layout {
            None => self.defered_stack(),
            Some(nl) => if nl@.mode != LayoutMode::Single {
                self.defered_stack().push(nl.defered_seq())
            } else {
                self.defered_stack()
            },
        }
    }

    /// The rectangle the pending frame's decorations resolve
    /// against: its own once placed, else the one the commit will
    /// give it.
    pub open spec fn pending_rect(self) -> Rect {
        match self.next_layout {
            Some(nl) => {
                let m = if nl@.commited {
                    nl@
                } else {
                    commit_child_m(layouts_of(self.layouts@).last(), nl@)
                };
                Rect { x: m.x as i64, y: m.y as i64, w: m.w as i64, h: m.h as i64 }
            },
            None => Rect { x: 0, y: 0, w: 0, h: 0 },
        }
    }

    /// The spot the innermost container most recently placed a
    /// child at, once the pending frame is resolved.
    pub open spec fn pending_lc(self) -> Pos {
        match self.next_layout {
            Some(nl) => {
                let m = if nl@.commited {
                    layouts_of(self.layouts@).last()
                } else {
                    commit_parent_m(layouts_of(self.layouts@).last(), nl@)
                };
                Pos { x: m.lcx as i64, y: m.lcy as i64 }
            },
            None => Pos { x: 0, y: 0 },
        }
    }

    /// Every frame on the layout stack is a well-formed container.
    pub open spec fn layouts_ok(self) -> bool {
        &&& forall|i: int|
            0 <= i < self.layouts@.len() ==> wf_m((#[trigger] self.layouts@[i])@)
        &&& forall|i: int|
            0 <= i < self.layouts@.len() ==> (#[trigger] self.layouts@[i])@.mode
                != LayoutMode::Single
    }

    /// Every decoration stored in the layout stack is renderable.
    pub open spec fn defered_ok(self) -> bool {
        &&& forall|i: int|
            0 <= i < self.layouts@.len() ==> defered_ok_l(#[trigger] self.layouts@[i])
        &&& (self.next_layout is Some ==> defered_ok_l(self.next_layout->0))
    }

    /// The context's structural invariant.
    pub open spec fn wf(self) -> bool {
        &&& self.color_manager.wf()
        &&& self.layouts_ok()
        &&& (self.next_layout is Some ==> wf_m(self.next_layout->0@))
        &&& self.defered_ok()
        &&& in_coord_range(self.mouse_pos.x as int)
        &&& in_coord_range(self.mouse_pos.y as int)
        &&& in_coord_range(self.dnd_start.x as int)
        &&& in_coord_range(self.dnd_start.y as int)
        &&& in_coord_range(self.list_button_width as int)
        &&& 0 <= self.list_button_index
        &&& self.list_button_label@.len() <= COORD_LIMIT
    }

    /// A frame is being built: `begin` has set up the root layout.
    pub open spec fn in_frame(self) -> bool {
        self.layouts@.len() >= 1
    }

    /// Every semantic color token still has a color in effect.
    pub open spec fn colors_ok(self) -> bool {
        forall|i: int| 0 <= i < COLOR_COUNT ==> (#[trigger] self.color_manager@[i]).len() >= 1
    }

    /// Everything a widget call needs of the context.
    pub open spec fn ready(self) -> bool {
        self.wf() && self.in_frame() && self.colors_ok()
    }

    /// The color currently in effect for a token.
    pub open spec fn color_of(self, code: ColorCode) -> Color {
        self.color_manager@[spec_color_index(code)].last()
    }

    /// A fresh context: no frame under construction, no focus, no
    /// persisted widget state, the default palette.
    pub fn new() -> (r: Self)
        ensures
            r.wf(),
            r.colors_ok(),
            r.layouts@.len() == 0,
            r.focus == NULL_ID,
            r.hover == NULL_ID,
            r.button_state@ == Map::<Id, i64>::empty(),
            r.slider_state@ == Map::<Id, i64>::empty(),
            r.textbox_state@ == Map::<Id, TextBoxState>::empty(),
            r.mouse_pressed == 0,
            r.mouse_down == 0,
            r.timer == 0,
            r.prefix_m() == Seq::<Seq<char>>::empty(),
            r.last_id == NULL_ID,
            r.commands@.len() == 0,
            r.next_layout is None,
    {
        broadcast use vstd::std_specs::hash::group_hash_axioms;

        let r = Context {
            color_manager: ColorManager::default(),
            last_id: NULL_ID,
            id_prefix: Vec::new(),
            mouse_pos: Pos { x: 0, y: 0 },
            mouse_pressed: 0,
            mouse_down: 0,
            text_input: String::new(),
            special_keys: Vec::new(),
            commands: Vec::new(),
            layouts: Vec::new(),
            next_layout: None,
            next_align: None,
            focus: NULL_ID,
            hover: NULL_ID,
            button_state: HashMap::new(),
            slider_state: HashMap::new(),
            textbox_state: HashMap::new(),
            toggle_groups: Vec::new(),
            cur_toggle_group: 0,
            pressed: false,
            active: false,
            list_button_index: 0,
            list_button_width: 0,
            list_button_label: Vec::new(),
            list_button_align: TextAlign::Left,
            dnd_on: false,
            dnd_start: Pos { x: 0, y: 0 },
            dnd_value: 0,
            timer: 0,
        };
        proof {
            assert(r.prefix_m() =~= Seq::<Seq<char>>::empty());
        }
        r
    }

    // =======================================================
    //
    // Color stack
    //
    // =======================================================
    /// Push an override for a color token.
    pub fn push_color(&mut self, code: ColorCode, c: Color)
        requires
            old(self).wf(),
        ensures
            *final(self) == (Context { color_manager: final(self).color_manager, ..*old(self) }),
            final(self).color_manager@ == old(self).color_manager@.update(
                spec_color_index(code),
                old(self).color_manager@[spec_color_index(code)].push(c),
            ),
            final(self).wf(),
            old(self).colors_ok() ==> final(self).colors_ok(),
    {
        self.color_manager.push(code, c);
        proof {
            if old(self).colors_ok() {
                assert forall|i: int| 0 <= i < COLOR_COUNT implies (
                #[trigger] self.color_manager@[i]).len() >= 1 by {
                    assert(old(self).color_manager@[i].len() >= 1);
                }
            }
        }
    }

    /// Drop the innermost override for a color token.
    pub fn pop_color(&mut self, code: ColorCode)
        requires
            old(self).wf(),
        ensures
            *final(self) == (Context { color_manager: final(self).color_manager, ..*old(self) }),
            old(self).color_manager@[spec_color_index(code)].len() > 0
                ==> final(self).color_manager@ == old(self).color_manager@.update(
                spec_color_index(code),
                old(self).color_manager@[spec_color_index(code)].drop_last(),
            ),
            old(self).color_manager@[spec_color_index(code)].len() == 0
                ==> final(self).color_manager@ == old(self).color_manager@,
            final(self).wf(),
    {
        self.color_manager.pop(code);
    }

    /// The color currently in effect for a token.
    pub fn get_color(&self, code: ColorCode) -> (c: Color)
        requires
            self.wf(),
            self.colors_ok(),
        ensures
            c == self.color_of(code),
    {
        self.color_manager.get(code)
    }

    // =======================================================
    //
    // Input
    //
    // =======================================================
    /// Set the pointer position for this frame, in grid units.
    pub fn input_mouse_pos(&mut self, x: Coord, y: Coord)
        requires
            in_coord_range(x as int),
            in_coord_range(y as int),
        ensures
            *final(self) == (Context { mouse_pos: Pos { x, y }, ..*old(self) }),
    {
        self.mouse_pos = Pos { x, y };
    }

    /// Signal that a mouse button went down: sets both the one-shot
    /// pressed flag and the level-sensitive down flag for its mask.
    pub fn input_mouse_down(&mut self, button: usize)
        ensures
            *final(self) == (Context {
                mouse_down: final(self).mouse_down,
                mouse_pressed: final(self).mouse_pressed,
                ..*old(self)
            }),
            final(self).mouse_down == (old(self).mouse_down | button),
            final(self).mouse_pressed == (old(self).mouse_pressed | button),
    {
        self.mouse_down = self.mouse_down | button;
        self.mouse_pressed = self.mouse_pressed | button;
    }

    /// Signal that a mouse button went up: clears only the
    /// level-sensitive down flag.
    pub fn input_mouse_up(&mut self, button: usize)
        ensures
            *final(self) == (Context { mouse_down: final(self).mouse_down, ..*old(self) }),
            final(self).mouse_down == (old(self).mouse_down & !button),
    {
        self.mouse_down = self.mouse_down & !button;
    }

    /// Queue literal text input for the focused text box.
    pub fn input_text(&mut self, txt: &str)
        ensures
            *final(self) == (Context { text_input: final(self).text_input, ..*old(self) }),
            final(self).text_input@ == old(self).text_input@ + txt@,
    {
        self.text_input.append(txt);
    }

    /// Queue one editing key for the focused text box.
    pub fn input_special_key(&mut self, key: SpecialKey)
        ensures
            *final(self) == (Context { special_keys: final(self).special_keys, ..*old(self) }),
            final(self).special_keys@ == old(self).special_keys@.push(key),
    {
        self.special_keys.push(key);
    }

    // =======================================================
    //
    // Frame lifecycle
    //
    // =======================================================
    /// Start a frame: reset the layout stack to one root frame and
    /// clear the command list.
    pub fn begin(&mut self)
        requires
            old(self).wf(),
        ensures
            *final(self) == (Context {
                layouts: final(self).layouts,
                commands: final(self).commands,
                ..*old(self)
            }),
            layouts_of(final(self).layouts@) == seq![default_layout_m()],
            final(self).commands@.len() == 0,
            final(self).wf(),
            final(self).in_frame(),
            old(self).colors_ok() ==> final(self).ready(),
    {
        self.layouts.clear();
        self.commands.clear();
        self.layouts.push(Layout::new(LayoutMode::Vertical));
        proof {
            assert(layouts_of(self.layouts@) =~= seq![default_layout_m()]);
        }
    }

    /// End a frame: resolve any pending deferred frame, clear the
    /// one-shot press flag and queued text input, reset the identity
    /// path, and advance the blink timer.
    pub fn end(&mut self)
        requires
            old(self).ready(),
        ensures
            final(self).mouse_pressed == 0,
            final(self).last_id == NULL_ID,
            final(self).prefix_m() == Seq::<Seq<char>>::empty(),
            final(self).text_input@ == Seq::<char>::empty(),
            final(self).timer == if old(self).timer < usize::MAX {
                old(self).timer + 1
            } else {
                0
            },
            layouts_of(final(self).layouts@) == old(self).resolved_layouts(),
            old(self).commands@.is_prefix_of(final(self).commands@),
            old(self).next_layout is None ==> final(self).commands@ == old(self).commands@,
            old(self).next_layout is Some ==> renders_defered(
                final(self).commands@.skip(old(self).commands@.len() as int),
                old(self).next_layout->0.defered_seq(),
                old(self).pending_rect(),
                old(self).pending_lc(),
                old(self).next_align,
            ),
            final(self).focus == old(self).focus,
            final(self).hover == old(self).hover,
            final(self).mouse_down == old(self).mouse_down,
            final(self).button_state@ == old(self).button_state@,
            final(self).slider_state@ == old(self).slider_state@,
            final(self).textbox_state@ == old(self).textbox_state@,
            *final(self) == (Context {
                mouse_pressed: 0,
                last_id: NULL_ID,
                id_prefix: final(self).id_prefix,
                text_input: final(self).text_input,
                timer: final(self).timer,
                layouts: final(self).layouts,
                commands: final(self).commands,
                next_layout: None,
                next_align: final(self).next_align,
                ..*old(self)
            }),
            final(self).wf(),
            final(self).colors_ok(),
    {
        self.try_commit();
        self.mouse_pressed = 0;
        self.last_id = NULL_ID;
        self.id_prefix.clear();
        self.text_input = String::new();
        if self.timer < usize::MAX {
            self.timer = self.timer + 1;
        } else {
            self.timer = 0;
        }
        proof {
            assert(self.prefix_m() =~= Seq::<Seq<char>>::empty());
        }
    }

    /// Hand the one-shot "pressed" result of the last declared
    /// widget to the caller, clearing it.
    pub fn pressed(&mut self) -> (r: bool)
        ensures
            r == old(self).pressed,
            *final(self) == (Context { pressed: false, ..*old(self) }),
    {
        let r = self.pressed;
        self.pressed = false;
        r
    }

    /// Hand the "active" result (checked / toggled on / open) of the
    /// last declared widget to the caller, clearing it.
    pub fn active(&mut self) -> (r: bool)
        ensures
            r == old(self).active,
            *final(self) == (Context { active: false, ..*old(self) }),
    {
        let r = self.active;
        self.active = false;
        r
    }

    /// The identity of the most recently declared widget.
    pub fn last_id(&self) -> (r: Id)
        ensures
            r == self.last_id,
    {
        self.last_id
    }

    /// Replay the frame's commands against a renderer, in emission
    /// order; later commands paint over earlier ones.
    pub fn render(&self, renderer: &mut impl Renderer) {
        let mut i: usize = 0;
        while i < self.commands.len()
            decreases self.commands@.len() - i,
        {
            match &self.commands[i] {
                Command::Rect(r, col) => renderer.rectangle(r, *col),
                Command::Text(txt, pos, col) => renderer.text(*pos, txt.as_str(), *col),
                Command::TextColor(txt, pos, align) => renderer.text_color(
                    *pos,
                    txt.as_str(),
                    *align,
                ),
                Command::Frame(txt, r, col, coltxt) => renderer.frame(
                    txt.as_str(),
                    r,
                    *col,
                    *coltxt,
                ),
                Command::Line(p1, p2, col) => renderer.line(*p1, *p2, *col),
                Command::CheckBox(pos, checked, col) => renderer.checkbox(*pos, *checked, *col),
                Command::DropDown(pos, checked, col) => renderer.dropdown(*pos, *checked, *col),
                Command::Progress(r, permille, back, fore) => renderer.progress(
                    r,
                    *permille,
                    *back,
                    *fore,
                ),
            }
            i = i + 1;
        }
    }

    /// The frame's accumulated command list.
    pub fn get_render_commands(&self) -> (r: &Vec<Command>)
        ensures
            r@ == self.commands@,
    {
        &self.commands
    }

    // =======================================================
    //
    // Pending-widget configuration
    //
    // =======================================================
    /// Set both paddings of the pending container.
    pub fn padding(&mut self, padding: Coord)
        requires
            old(self).wf(),
            in_coord_range(padding as int),
        ensures
            old(self).next_layout is None ==> *final(self) == *old(self),
            old(self).next_layout is Some ==> {
                &&& final(self).next_layout is Some
                &&& final(self).next_layout->0@ == (LayoutM {
                    vpadding: padding as int,
                    hpadding: padding as int,
                    ..old(self).next_layout->0@
                })
                &&& final(self).next_layout->0.defered_seq() == old(self).next_layout->0.defered_seq()
                &&& *final(self) == (Context {
                    next_layout: final(self).next_layout,
                    ..*old(self)
                })
            },
            final(self).wf(),
    {
        match &mut self.next_layout {
            Some(layout) => layout.padding(padding),
            None => {},
        }
    }

    /// Set the vertical padding of the pending container.
    pub fn vpadding(&mut self, padding: Coord)
        requires
            old(self).wf(),
            in_coord_range(padding as int),
        ensures
            old(self).next_layout is None ==> *final(self) == *old(self),
            old(self).next_layout is Some ==> {
                &&& final(self).next_layout is Some
                &&& final(self).next_layout->0@ == (LayoutM {
                    vpadding: padding as int,
                    ..old(self).next_layout->0@
                })
                &&& final(self).next_layout->0.defered_seq() == old(self).next_layout->0.defered_seq()
                &&& *final(self) == (Context {
                    next_layout: final(self).next_layout,
                    ..*old(self)
                })
            },
            final(self).wf(),
    {
        match &mut self.next_layout {
            Some(layout) => layout.vpadding(padding),
            None => {},
        }
    }

    /// Set the horizontal padding of the pending container.
    pub fn hpadding(&mut self, padding: Coord)
        requires
            old(self).wf(),
            in_coord_range(padding as int),
        ensures
            old(self).next_layout is None ==> *final(self) == *old(self),
            old(self).next_layout is Some ==> {
                &&& final(self).next_layout is Some
                &&& final(self).next_layout->0@ == (LayoutM {
                    hpadding: padding as int,
                    ..old(self).next_layout->0@
                })
                &&& final(self).next_layout->0.defered_seq() == old(self).next_layout->0.defered_seq()
                &&& *final(self) == (Context {
                    next_layout: final(self).next_layout,
                    ..*old(self)
                })
            },
            final(self).wf(),
    {
        match &mut self.next_layout {
            Some(layout) => layout.hpadding(padding),
            None => {},
        }
    }

    /// Set the text alignment consumed by the next rendered label,
    /// button or progress message.
    pub fn align(&mut self, align: TextAlign)
        ensures
            *final(self) == (Context { next_align: Some(align), ..*old(self) }),
    {
        self.next_align = Some(align);
    }

    /// Displace the cursor of the innermost open container.
    pub fn move_cursor(&mut self, deltax: Coord, deltay: Coord)
        requires
            old(self).wf(),
            in_coord_range(deltax as int),
            in_coord_range(deltay as int),
        ensures
            old(self).layouts@.len() == 0 ==> *final(self) == *old(self),
            old(self).layouts@.len() > 0 ==> {
                &&& layouts_of(final(self).layouts@) == layouts_of(old(self).layouts@).update(
                    old(self).layouts@.len() - 1,
                    (LayoutM {
                        cx: sat_add(layouts_of(old(self).layouts@).last().cx, deltax as int),
                        cy: sat_add(layouts_of(old(self).layouts@).last().cy, deltay as int),
                        ..layouts_of(old(self).layouts@).last()
                    }),
                )
                &&& *final(self) == (Context { layouts: final(self).layouts, ..*old(self) })
            },
            final(self).wf(),
    {
        let n = self.layouts.len();
        if n > 0 {
            let layout = &mut self.layouts[n - 1];
            layout.move_cursor(deltax, deltay);
            proof {
                assert(layouts_of(self.layouts@) =~= layouts_of(old(self).layouts@).update(
                    old(self).layouts@.len() - 1,
                    (LayoutM {
                        cx: sat_add(layouts_of(old(self).layouts@).last().cx, deltax as int),
                        cy: sat_add(layouts_of(old(self).layouts@).last().cy, deltay as int),
                        ..layouts_of(old(self).layouts@).last()
                    }),
                ));
            }
        }
    }

    /// Leave one empty row in the innermost open container.
    pub fn spacing(&mut self)
        requires
            old(self).wf(),
        ensures
            old(self).layouts@.len() == 0 ==> *final(self) == *old(self),
            old(self).layouts@.len() > 0 ==> {
                &&& layouts_of(final(self).layouts@) == layouts_of(old(self).layouts@).update(
                    old(self).layouts@.len() - 1,
                    (LayoutM {
                        cy: sat_add(layouts_of(old(self).layouts@).last().cy, 1),
                        ..layouts_of(old(self).layouts@).last()
                    }),
                )
                &&& *final(self) == (Context { layouts: final(self).layouts, ..*old(self) })
            },
            final(self).wf(),
    {
        self.move_cursor(0, 1);
        proof {
            if old(self).layouts@.len() > 0 {
                assert(layouts_of(self.layouts@) =~= layouts_of(old(self).layouts@).update(
                    old(self).layouts@.len() - 1,
                    (LayoutM {
                        cy: sat_add(layouts_of(old(self).layouts@).last().cy, 1),
                        ..layouts_of(old(self).layouts@).last()
                    }),
                ));
            }
        }
    }

    /// Grow the margin of the pending container.
    pub fn margin(&mut self, margin: Coord)
        requires
            old(self).wf(),
            in_coord_range(margin as int),
        ensures
            old(self).next_layout is None ==> *final(self) == *old(self),
            old(self).next_layout is Some ==> {
                &&& final(self).next_layout is Some
                &&& final(self).next_layout->0@ == (LayoutM {
                    margin: sat_add(old(self).next_layout->0@.margin, margin as int),
                    cx: sat_add(old(self).next_layout->0@.cx, margin as int),
                    cy: sat_add(old(self).next_layout->0@.cy, margin as int),
                    ..old(self).next_layout->0@
                })
                &&& final(self).next_layout->0.defered_seq() == old(self).next_layout->0.defered_seq()
                &&& *final(self) == (Context {
                    next_layout: final(self).next_layout,
                    ..*old(self)
                })
            },
            final(self).wf(),
    {
        match &mut self.next_layout {
            Some(layout) => layout.margin(margin),
            None => {},
        }
    }

    /// Set the minimum width of the pending container. May only be
    /// called right after a container begin.
    pub fn min_width(&mut self, value: Coord)
        requires
            old(self).wf(),
            old(self).next_layout is Some,
        ensures
            final(self).next_layout is Some,
            final(self).next_layout->0@ == (LayoutM {
                min_width: value as int,
                w: imax(old(self).next_layout->0@.w, value as int),
                ..old(self).next_layout->0@
            }),
            final(self).next_layout->0.defered_seq() == old(self).next_layout->0.defered_seq(),
            *final(self) == (Context { next_layout: final(self).next_layout, ..*old(self) }),
            in_coord_range(value as int) ==> final(self).wf(),
    {
        match &mut self.next_layout {
            Some(layout) => layout.min_width(value),
            None => {},
        }
    }

    /// Set the maximum width of the pending container.
    pub fn max_width(&mut self, value: Coord)
        requires
            old(self).wf(),
        ensures
            old(self).next_layout is None ==> *final(self) == *old(self),
            old(self).next_layout is Some ==> {
                &&& final(self).next_layout is Some
                &&& final(self).next_layout->0@ == (LayoutM {
                    max_width: value as int,
                    ..old(self).next_layout->0@
                })
                &&& final(self).next_layout->0.defered_seq() == old(self).next_layout->0.defered_seq()
                &&& *final(self) == (Context {
                    next_layout: final(self).next_layout,
                    ..*old(self)
                })
            },
            in_coord_range(value as int) ==> final(self).wf(),
    {
        match &mut self.next_layout {
            Some(layout) => layout.max_width(value),
            None => {},
        }
    }

    /// Set the minimum height of the pending container.
    pub fn min_height(&mut self, value: Coord)
        requires
            old(self).wf(),
        ensures
            old(self).next_layout is None ==> *final(self) == *old(self),
            old(self).next_layout is Some ==> {
                &&& final(self).next_layout is Some
                &&& final(self).next_layout->0@ == (LayoutM {
                    min_height: value as int,
                    h: imax(old(self).next_layout->0@.h, value as int),
                    ..old(self).next_layout->0@
                })
                &&& final(self).next_layout->0.defered_seq() == old(self).next_layout->0.defered_seq()
                &&& *final(self) == (Context {
                    next_layout: final(self).next_layout,
                    ..*old(self)
                })
            },
            in_coord_range(value as int) ==> final(self).wf(),
    {
        match &mut self.next_layout {
            Some(layout) => layout.min_height(value),
            None => {},
        }
    }

    /// Set the maximum height of the pending container.
    pub fn max_height(&mut self, value: Coord)
        requires
            old(self).wf(),
        ensures
            old(self).next_layout is None ==> *final(self) == *old(self),
            old(self).next_layout is Some ==> {
                &&& final(self).next_layout is Some
                &&& final(self).next_layout->0@ == (LayoutM {
                    max_height: value as int,
                    ..old(self).next_layout->0@
                })
                &&& final(self).next_layout->0.defered_seq() == old(self).next_layout->0.defered_seq()
                &&& *final(self) == (Context {
                    next_layout: final(self).next_layout,
                    ..*old(self)
                })
            },
            in_coord_range(value as int) ==> final(self).wf(),
    {
        match &mut self.next_layout {
            Some(layout) => layout.max_height(value),
            None => {},
        }
    }

    /// Attach a deferred decoration to the pending frame.
    pub fn defered(&mut self, cmd: DeferedCommand)
        requires
            old(self).wf(),
            defered_cmd_ok(cmd),
        ensures
            old(self).next_layout is None ==> *final(self) == *old(self),
            old(self).next_layout is Some ==> {
                &&& final(self).next_layout is Some
                &&& final(self).next_layout->0@ == old(self).next_layout->0@
                &&& final(self).next_layout->0.defered_seq() == old(self).next_layout->0.defered_seq().push(cmd)
                &&& *final(self) == (Context {
                    next_layout: final(self).next_layout,
                    ..*old(self)
                })
            },
            final(self).wf(),
    {
        match &mut self.next_layout {
            Some(layout) => layout.defered(cmd),
            None => {},
        }
    }
}

impl Context {
    // =======================================================
    //
    // Internal machinery: deferred commit, placement, identity
    //
    // =======================================================
    /// Stage a fresh frame as the pending widget.
    pub(crate) fn new_layout(&mut self, mode: LayoutMode)
        ensures
            final(self).next_layout is Some,
            final(self).next_layout->0@ == (LayoutM { mode, ..default_layout_m() }),
            final(self).next_layout->0.defered_seq() == Seq::<DeferedCommand>::empty(),
            *final(self) == (Context { next_layout: final(self).next_layout, ..*old(self) }),
    {
        self.next_layout = Some(Layout::new(mode));
    }

    /// Resolve the pending frame, if any: commit it into the top of
    /// the layout stack (unless already placed), render its deferred
    /// decorations against its final rectangle, and push it onto the
    /// stack if it is a container. This runs before any sibling can
    /// be placed, so siblings never observe a stale rectangle.
    pub(crate) fn try_commit(&mut self)
        requires
            old(self).ready(),
        ensures
            final(self).ready(),
            final(self).next_layout is None,
            layouts_of(final(self).layouts@) == old(self).resolved_layouts(),
            final(self).defered_stack() == old(self).resolved_defered(),
            old(self).commands@.is_prefix_of(final(self).commands@),
            final(self).next_align == old(self).next_align || final(self).next_align is None,
            old(self).next_layout is None ==> final(self).commands@ == old(self).commands@,
            old(self).next_layout is Some ==> renders_defered(
                final(self).commands@.skip(old(self).commands@.len() as int),
                old(self).next_layout->0.defered_seq(),
                old(self).pending_rect(),
                old(self).pending_lc(),
                old(self).next_align,
            ),
            old(self).next_layout is Some ==> final(self).next_align == align_after(
                old(self).next_layout->0.defered_seq(),
                old(self).next_align,
            ),
            *final(self) == (Context {
                layouts: final(self).layouts,
                commands: final(self).commands,
                next_layout: None,
                next_align: final(self).next_align,
                ..*old(self)
            }),
    {
        match self.next_layout.take() {
            None => {
                proof {
                    assert(layouts_of(self.layouts@) =~= old(self).resolved_layouts());
                    assert(self.defered_stack() =~= old(self).resolved_defered());
                    assert(old(self).commands@.is_prefix_of(self.commands@));
                }
            },
            Some(mut layout) => {
                if !layout.commited() {
                    let n = self.layouts.len();
                    let parent = &mut self.layouts[n - 1];
                    parent.commit(&mut layout);
                    proof {
                        assert(layouts_of(self.layouts@) =~= layouts_of(
                            old(self).layouts@,
                        ).update(
                            old(self).layouts@.len() - 1,
                            commit_parent_m(
                                layouts_of(old(self).layouts@).last(),
                                old(self).next_layout->0@,
                            ),
                        ));
                        assert(self.defered_stack() =~= old(self).defered_stack());
                    }
                }
                let r = layout.area();
                proof {
                    assert(r == old(self).pending_rect());
                    assert(Pos {
                        x: layouts_of(self.layouts@).last().lcx as i64,
                        y: layouts_of(self.layouts@).last().lcy as i64,
                    } == old(self).pending_lc());
                }
                let mut i: usize = 0;
                let ghost mid = *self;
                let ghost lay = layout;
                while i < layout.defered_iter().len()
                    invariant
                        self.ready(),
                        layout == lay,
                        defered_ok_l(layout),
                        rect_in_range(Rect { x: r.x, y: r.y, w: r.w, h: r.h }),
                        r.x as int == layout@.x,
                        r.y as int == layout@.y,
                        r.w as int == layout@.w,
                        r.h as int == layout@.h,
                        0 <= i <= layout.defered_seq().len(),
                        mid.commands@.is_prefix_of(self.commands@),
                        self.next_align == mid.next_align || self.next_align is None,
                        renders_defered(
                            self.commands@.skip(mid.commands@.len() as int),
                            lay.defered_seq().take(i as int),
                            r,
                            Pos {
                                x: layouts_of(mid.layouts@).last().lcx as i64,
                                y: layouts_of(mid.layouts@).last().lcy as i64,
                            },
                            mid.next_align,
                        ),
                        self.next_align == align_after(
                            lay.defered_seq().take(i as int),
                            mid.next_align,
                        ),
                        *self == (Context {
                            commands: self.commands,
                            next_align: self.next_align,
                            ..mid
                        }),
                    decreases layout.defered_seq().len() - i,
                {
                    let ghost cpre = self.commands@;
                    let ghost apre = self.next_align;
                    let cmds = layout.defered_iter();
                    self.render_defered(r, &cmds[i]);
                    proof {
                        let ds = lay.defered_seq();
                        let lcp = Pos {
                            x: layouts_of(mid.layouts@).last().lcx as i64,
                            y: layouts_of(mid.layouts@).last().lcy as i64,
                        };
                        let piece = self.commands@.skip(cpre.len() as int);
                        assert(cpre.is_prefix_of(self.commands@));
                        assert(self.commands@.skip(mid.commands@.len() as int) =~= cpre.skip(
                            mid.commands@.len() as int,
                        ) + piece);
                        lemma_renders_snoc(
                            cpre.skip(mid.commands@.len() as int),
                            piece,
                            ds.take(i as int),
                            ds[i as int],
                            r,
                            lcp,
                            mid.next_align,
                        );
                        assert(ds.take(i as int).push(ds[i as int]) =~= ds.take(i as int + 1));
                        lemma_align_after_snoc(ds.take(i as int), ds[i as int], mid.next_align);
                    }
                    i = i + 1;
                }
                proof {
                    assert(lay.defered_seq().take(lay.defered_seq().len() as int)
                        =~= lay.defered_seq());
                }
                if !layout.is_single() {
                    self.layouts.push(layout);
                }
                proof {
                    assert(layouts_of(self.layouts@) =~= old(self).resolved_layouts());
                    assert(self.defered_stack() =~= old(self).resolved_defered());
                    assert(mid.commands@ == old(self).commands@);
                    assert(mid.next_align == old(self).next_align);
                }
            },
        }
    }

    /// Close the innermost container: resolve anything pending, pop
    /// its frame and its identity segment.
    pub(crate) fn end_container(&mut self)
        requires
            old(self).ready(),
        ensures
            final(self).wf(),
            final(self).colors_ok(),
            layouts_of(final(self).layouts@) == old(self).resolved_layouts().drop_last(),
            final(self).layouts@.len() + 1 == old(self).resolved_layouts().len(),
            final(self).defered_stack() == old(self).resolved_defered().drop_last(),
            final(self).prefix_m() == if old(self).prefix_m().len() > 0 {
                old(self).prefix_m().drop_last()
            } else {
                old(self).prefix_m()
            },
            old(self).commands@.is_prefix_of(final(self).commands@),
            final(self).next_layout is None,
            *final(self) == (Context {
                layouts: final(self).layouts,
                commands: final(self).commands,
                next_layout: None,
                next_align: final(self).next_align,
                id_prefix: final(self).id_prefix,
                ..*old(self)
            }),
    {
        self.try_commit();
        self.layouts.pop();
        self.id_prefix.pop();
        proof {
            assert(layouts_of(self.layouts@) =~= old(self).resolved_layouts().drop_last());
            assert(layouts_of(self.layouts@).len() == self.layouts@.len());
            assert(self.defered_stack() =~= old(self).resolved_defered().drop_last());
            if old(self).prefix_m().len() > 0 {
                assert(self.prefix_m() =~= old(self).prefix_m().drop_last());
            } else {
                assert(self.prefix_m() =~= old(self).prefix_m());
            }
        }
    }

    /// Place a leaf widget of the given size in the innermost open
    /// container and hand back its rectangle. The placed terminal
    /// frame stays pending so decorations can still be attached to
    /// it.
    pub(crate) fn next_rectangle(&mut self, width: Coord, height: Coord) -> (r: Rect)
        requires
            old(self).ready(),
            old(self).next_layout is None,
            in_coord_range(width as int),
            in_coord_range(height as int),
        ensures
            final(self).ready(),
            r.x as int == old(self).widget_rect_m(width as int, height as int).x,
            r.y as int == old(self).widget_rect_m(width as int, height as int).y,
            r.w as int == old(self).widget_rect_m(width as int, height as int).w,
            r.h as int == old(self).widget_rect_m(width as int, height as int).h,
            rect_in_range(r),
            final(self).next_layout is Some,
            final(self).next_layout->0@ == old(self).widget_rect_m(width as int, height as int),
            final(self).next_layout->0@.mode == LayoutMode::Single,
            final(self).next_layout->0.defered_seq() == Seq::<DeferedCommand>::empty(),
            layouts_of(final(self).layouts@) == layouts_of(old(self).layouts@).update(
                old(self).layouts@.len() - 1,
                commit_parent_m(
                    layouts_of(old(self).layouts@).last(),
                    single_m(width as int, height as int),
                ),
            ),
            final(self).defered_stack() == old(self).defered_stack(),
            *final(self) == (Context {
                layouts: final(self).layouts,
                next_layout: final(self).next_layout,
                ..*old(self)
            }),
    {
        let mut single = Layout::new(LayoutMode::Single);
        single.size(width, height);
        let n = self.layouts.len();
        let parent = &mut self.layouts[n - 1];
        let r = parent.commit(&mut single);
        self.next_layout = Some(single);
        proof {
            assert(single_m(width as int, height as int) =~= (LayoutM {
                mode: LayoutMode::Single,
                w: width as int,
                h: height as int,
                ..default_layout_m()
            }));
            assert(layouts_of(self.layouts@) =~= layouts_of(old(self).layouts@).update(
                old(self).layouts@.len() - 1,
                commit_parent_m(
                    layouts_of(old(self).layouts@).last(),
                    single_m(width as int, height as int),
                ),
            ));
            assert(self.defered_stack() =~= old(self).defered_stack());
        }
        r
    }

    /// Where the innermost open container placed its most recent
    /// child.
    pub(crate) fn last_cursor(&self) -> (p: Pos)
        requires
            self.in_frame(),
        ensures
            p.x as int == layouts_of(self.layouts@).last().lcx,
            p.y as int == layouts_of(self.layouts@).last().lcy,
    {
        let n = self.layouts.len();
        self.layouts[n - 1].last_cursor()
    }

    // =======================================================
    //
    // Identity management
    //
    // =======================================================
    /// Open one segment of the container path.
    pub(crate) fn prefix_id(&mut self, id: &str)
        ensures
            final(self).prefix_m() == old(self).prefix_m().push(id@),
            *final(self) == (Context { id_prefix: final(self).id_prefix, ..*old(self) }),
    {
        self.id_prefix.push(id.to_owned());
        proof {
            assert(self.prefix_m() =~= old(self).prefix_m().push(id@));
        }
    }

    /// The identity of a widget with this local name under the
    /// current container path: a pure function of the path and the
    /// name, remembered as the most recent identity.
    pub(crate) fn generate_id(&mut self, name: &str) -> (id: Id)
        ensures
            id == id_of(old(self).prefix_m(), name@),
            *final(self) == (Context { last_id: id, ..*old(self) }),
    {
        let ghost prefix = self.prefix_m();
        let mut h: u64 = ID_HASH_OFFSET;
        let mut i: usize = 0;
        let n = self.id_prefix.len();
        while i < n
            invariant
                n == self.id_prefix@.len(),
                prefix == self.prefix_m(),
                0 <= i <= n,
                h == id_hash_chars(ID_HASH_OFFSET, joined_path(prefix.take(i as int))),
            decreases n - i,
        {
            if i > 0 {
                h = id_hash_char(h, '/');
            }
            h = id_hash_str(h, self.id_prefix[i].as_str());
            proof {
                assert(prefix[i as int] == self.id_prefix@[i as int]@);
                if i == 0 {
                    assert(joined_path(prefix.take(1)) == prefix.take(1)[0]);
                    assert(prefix.take(1)[0] == prefix[0]);
                    assert(joined_path(prefix.take(0)) == Seq::<char>::empty());
                    lemma_id_hash_append(ID_HASH_OFFSET, Seq::empty(), prefix[0]);
                    assert(Seq::<char>::empty() + prefix[0] =~= prefix[0]);
                } else {
                    let t1 = prefix.take(i as int + 1);
                    assert(t1.drop_last() =~= prefix.take(i as int));
                    assert(t1.last() == prefix[i as int]);
                    assert(joined_path(t1) == joined_path(prefix.take(i as int)) + seq!['/']
                        + prefix[i as int]);
                    lemma_id_hash_append(
                        ID_HASH_OFFSET,
                        joined_path(prefix.take(i as int)),
                        seq!['/'] + prefix[i as int],
                    );
                    lemma_id_hash_append(
                        id_hash_chars(ID_HASH_OFFSET, joined_path(prefix.take(i as int))),
                        seq!['/'],
                        prefix[i as int],
                    );
                    lemma_id_hash_singleton(
                        id_hash_chars(ID_HASH_OFFSET, joined_path(prefix.take(i as int))),
                        '/',
                    );
                    assert(joined_path(prefix.take(i as int)) + (seq!['/'] + prefix[i as int])
                        =~= joined_path(prefix.take(i as int)) + seq!['/'] + prefix[i as int]);
                }
            }
            i = i + 1;
        }
        proof {
            assert(prefix.take(n as int) =~= prefix);
        }
        h = id_hash_char(h, '/');
        h = id_hash_str(h, name);
        proof {
            lemma_id_hash_append(ID_HASH_OFFSET, joined_path(prefix), seq!['/'] + name@);
            lemma_id_hash_append(id_hash_chars(ID_HASH_OFFSET, joined_path(prefix)), seq!['/'], name@);
            lemma_id_hash_singleton(id_hash_chars(ID_HASH_OFFSET, joined_path(prefix)), '/');
            assert(joined_path(prefix) + (seq!['/'] + name@) =~= joined_path(prefix) + seq!['/']
                + name@);
        }
        self.last_id = h;
        h
    }

    // =======================================================
    //
    // Interaction state machine
    //
    // =======================================================
    /// Update hover and focus for one control, given its committed
    /// rectangle: a pointer inside takes hover, and only the control
    /// that holds hover clears it when the pointer is outside; a
    /// press inside takes focus; a press outside releases a plain
    /// control, while a focus-holding control keeps focus until
    /// button-up.
    pub(crate) fn update_control(&mut self, id: Id, r: &Rect, hold_focus: bool)
        requires
            rect_in_range(*r),
        ensures
            final(self).hover == hover_next(
                r.spec_contains(old(self).mouse_pos),
                id,
                old(self).hover,
            ),
            final(self).focus == focus_next(
                r.spec_contains(old(self).mouse_pos),
                old(self).mouse_pressed != 0,
                old(self).mouse_down,
                hold_focus,
                id,
                old(self).focus,
            ),
            *final(self) == (Context {
                hover: final(self).hover,
                focus: final(self).focus,
                ..*old(self)
            }),
    {
        let mouse_over = r.contains(self.mouse_pos);
        let pressed = self.mouse_pressed != 0;
        if mouse_over {
            self.hover = id;
            if pressed {
                self.set_focus(id);
            }
        } else {
            if self.hover == id {
                self.hover = NULL_ID;
            }
            if self.focus == id && ((!hold_focus && pressed) || (hold_focus && self.mouse_down
                == 0)) {
                self.set_focus(NULL_ID);
            }
        }
    }

    /// Begin a drag: remember the grabbed value and where the
    /// pointer was when it was grabbed.
    pub(crate) fn start_dnd(&mut self, value: i64)
        ensures
            *final(self) == (Context {
                dnd_on: true,
                dnd_value: value,
                dnd_start: old(self).mouse_pos,
                ..*old(self)
            }),
    {
        self.dnd_on = true;
        self.dnd_value = value;
        self.dnd_start = self.mouse_pos;
    }

    fn set_focus(&mut self, id: Id)
        ensures
            *final(self) == (Context { focus: id, ..*old(self) }),
    {
        self.focus = id;
    }

    // =======================================================
    //
    // Basic drawing
    //
    // =======================================================
    pub(crate) fn draw_rect(&mut self, r: Rect, col: Color)
        ensures
            final(self).commands@ == old(self).commands@.push(Command::Rect(r, col)),
            *final(self) == (Context { commands: final(self).commands, ..*old(self) }),
    {
        self.commands.push(Command::Rect(r, col));
    }

    pub(crate) fn draw_line(&mut self, x1: Coord, y1: Coord, x2: Coord, y2: Coord, col: Color)
        ensures
            final(self).commands@ == old(self).commands@.push(
                Command::Line(Pos { x: x1, y: y1 }, Pos { x: x2, y: y2 }, col),
            ),
            *final(self) == (Context { commands: final(self).commands, ..*old(self) }),
    {
        self.commands.push(Command::Line(Pos { x: x1, y: y1 }, Pos { x: x2, y: y2 }, col));
    }

    pub(crate) fn draw_checkbox(&mut self, p: Pos, checked: bool, col: Color)
        ensures
            final(self).commands@ == old(self).commands@.push(Command::CheckBox(p, checked, col)),
            *final(self) == (Context { commands: final(self).commands, ..*old(self) }),
    {
        self.commands.push(Command::CheckBox(p, checked, col));
    }

    pub(crate) fn draw_dropdown(&mut self, p: Pos, checked: bool, col: Color)
        requires
            in_coord_range(p.x as int),
        ensures
            final(self).commands@ == old(self).commands@.push(
                Command::DropDown(Pos { x: (p.x + 1) as i64, y: p.y }, checked, col),
            ),
            *final(self) == (Context { commands: final(self).commands, ..*old(self) }),
    {
        self.commands.push(Command::DropDown(Pos { x: p.x + 1, y: p.y }, checked, col));
    }

    pub(crate) fn draw_progress(&mut self, r: Rect, permille: u32, back: Color, fore: Color)
        ensures
            final(self).commands@ == old(self).commands@.push(
                Command::Progress(r, permille, back, fore),
            ),
            *final(self) == (Context { commands: final(self).commands, ..*old(self) }),
    {
        self.commands.push(Command::Progress(r, permille, back, fore));
    }

    pub(crate) fn draw_frame(&mut self, r: Rect, title: &Vec<char>, col: Color, coltxt: Color)
        ensures
            final(self).commands@.len() == old(self).commands@.len() + 1,
            old(self).commands@.is_prefix_of(final(self).commands@),
            cmd_is_frame(final(self).commands@.last(), title@, r, col, coltxt),
            *final(self) == (Context { commands: final(self).commands, ..*old(self) }),
    {
        let s = string_from_chars(title);
        self.commands.push(Command::Frame(s, r, col, coltxt));
    }

    pub(crate) fn draw_text(&mut self, r: Rect, txt: &Vec<char>, align: TextAlign, col: Color)
        requires
            text_coord_ok(r.x as int),
            text_coord_ok(r.y as int),
            text_coord_ok(r.w as int),
            txt@.len() <= 2 * COORD_LIMIT,
        ensures
            final(self).commands@.len() == old(self).commands@.len() + 1,
            old(self).commands@.is_prefix_of(final(self).commands@),
            cmd_is_text(
                final(self).commands@.last(),
                truncated_text(r, txt@, align),
                text_pos(r, txt@, align),
                col,
            ),
            *final(self) == (Context { commands: final(self).commands, ..*old(self) }),
    {
        let (pos, truncated) = format_text(r, txt, align);
        let s = string_from_chars(&truncated);
        self.commands.push(Command::Text(s, pos, col));
    }

    pub(crate) fn draw_text_color(&mut self, r: Rect, txt: &str, align: TextAlign)
        ensures
            final(self).commands@.len() == old(self).commands@.len() + 1,
            old(self).commands@.is_prefix_of(final(self).commands@),
            cmd_is_text_color(
                final(self).commands@.last(),
                txt@,
                Pos { x: r.x, y: r.y },
                align,
            ),
            *final(self) == (Context { commands: final(self).commands, ..*old(self) }),
    {
        self.commands.push(Command::TextColor(txt.to_owned(), Pos { x: r.x, y: r.y }, align));
    }

    // =======================================================
    //
    // Deferred rendering
    //
    // =======================================================
    /// Resolve one stored decoration against the frame's final
    /// rectangle into concrete commands, consuming the pending
    /// alignment if a text face is drawn.
    pub(crate) fn render_defered(&mut self, r: Rect, c: &DeferedCommand)
        requires
            old(self).ready(),
            defered_cmd_ok(*c),
            rect_in_range(r),
        ensures
            final(self).ready(),
            old(self).commands@.is_prefix_of(final(self).commands@),
            final(self).commands@.len() == old(self).commands@.len() + emitted_len(*c),
            renders_one(
                final(self).commands@.skip(old(self).commands@.len() as int),
                *c,
                r,
                Pos {
                    x: layouts_of(old(self).layouts@).last().lcx as i64,
                    y: layouts_of(old(self).layouts@).last().lcy as i64,
                },
                old(self).next_align,
            ),
            final(self).next_align == align_step(*c, old(self).next_align),
            final(self).next_align == old(self).next_align || final(self).next_align is None,
            *final(self) == (Context {
                commands: final(self).commands,
                next_align: final(self).next_align,
                ..*old(self)
            }),
    {
        let ghost n0 = self.commands@.len() as int;
        match c {
            DeferedCommand::Button(label, col, coltxt) => {
                let align = match self.next_align.take() {
                    Some(a) => a,
                    None => TextAlign::Center,
                };
                let chars = chars_vec(label.as_str());
                self.draw_rect(r, *col);
                let ghost c1 = self.commands@;
                self.draw_text(r, &chars, align, *coltxt);
                proof {
                    assert(c1.is_prefix_of(self.commands@));
                    assert(c1 =~= self.commands@.subrange(0, c1.len() as int));
                    assert(self.commands@.subrange(0, c1.len() as int)[c1.len() - 1]
                        == self.commands@[c1.len() - 1]);
                    let tail = self.commands@.skip(n0);
                    assert(tail.take(2) =~= tail);
                    assert(tail[0] == self.commands@[n0]);
                    assert(tail[1] == self.commands@[n0 + 1]);
                }
            },
            DeferedCommand::CheckBox(checked, col) => {
                let p = self.last_cursor();
                self.draw_checkbox(p, *checked, *col);
                proof {
                    let tail = self.commands@.skip(n0);
                    assert(tail.take(1) =~= tail);
                    assert(tail[0] == self.commands@[n0]);
                }
            },
            DeferedCommand::DropDown(checked, col) => {
                let p = self.last_cursor();
                self.draw_dropdown(p, *checked, *col);
                proof {
                    let tail = self.commands@.skip(n0);
                    assert(tail.take(1) =~= tail);
                    assert(tail[0] == self.commands@[n0]);
                }
            },
            DeferedCommand::Label(r2, label, col, coltxt) => {
                let align = match self.next_align.take() {
                    Some(a) => a,
                    None => TextAlign::Left,
                };
                let chars = chars_vec(label.as_str());
                self.draw_rect(*r2, *col);
                let ghost c1 = self.commands@;
                self.draw_text(*r2, &chars, align, *coltxt);
                proof {
                    assert(c1.is_prefix_of(self.commands@));
                    assert(c1 =~= self.commands@.subrange(0, c1.len() as int));
                    assert(self.commands@.subrange(0, c1.len() as int)[c1.len() - 1]
                        == self.commands@[c1.len() - 1]);
                    let tail = self.commands@.skip(n0);
                    assert(tail.take(2) =~= tail);
                    assert(tail[0] == self.commands@[n0]);
                    assert(tail[1] == self.commands@[n0 + 1]);
                }
            },
            DeferedCommand::LabelColor(r2, label, col) => {
                let align = match self.next_align.take() {
                    Some(a) => a,
                    None => TextAlign::Left,
                };
                self.draw_rect(*r2, *col);
                let ghost c1 = self.commands@;
                let owned = label.clone();
                self.draw_text_color(*r2, owned.as_str(), align);
                proof {
                    assert(c1.is_prefix_of(self.commands@));
                    assert(c1 =~= self.commands@.subrange(0, c1.len() as int));
                    assert(self.commands@.subrange(0, c1.len() as int)[c1.len() - 1]
                        == self.commands@[c1.len() - 1]);
                    let tail = self.commands@.skip(n0);
                    assert(tail.take(2) =~= tail);
                    assert(tail[0] == self.commands@[n0]);
                    assert(tail[1] == self.commands@[n0 + 1]);
                }
            },
            DeferedCommand::Frame(_, _, _) => {
                proof {
                    assert(self.commands@.skip(n0) =~= Seq::<Command>::empty());
                }
            },
        }
    }

    // =======================================================
    //
    // Basic widgets
    //
    // =======================================================
    /// A horizontal separator line spanning a zero-sized placement
    /// in the current container.
    pub fn separator(&mut self)
        requires
            old(self).ready(),
        ensures
            final(self).ready(),
            old(self).commands@.is_prefix_of(final(self).commands@),
            final(self).commands@.len() >= old(self).commands@.len() + 2,
            ({
                let rm = old(self).widget_rect_m(0, 0);
                let n = final(self).commands@.len();
                &&& cmd_is_rect(
                    final(self).commands@[n - 2],
                    Rect { x: rm.x as i64, y: rm.y as i64, w: rm.w as i64, h: rm.h as i64 },
                    old(self).color_of(ColorCode::Background),
                )
                &&& cmd_is_line(
                    final(self).commands@[n - 1],
                    Pos { x: rm.x as i64, y: rm.y as i64 },
                    Pos { x: (rm.x + rm.w) as i64, y: (rm.y + rm.h) as i64 },
                    old(self).color_of(ColorCode::Foreground),
                )
            }),
            final(self).next_layout is Some,
            final(self).next_layout->0@ == old(self).widget_rect_m(0, 0),
            *final(self) == (Context {
                layouts: final(self).layouts,
                commands: final(self).commands,
                next_layout: final(self).next_layout,
                next_align: final(self).next_align,
                ..*old(self)
            }),
    {
        self.try_commit();
        let r = self.next_rectangle(0, 0);
        let back = self.get_color(ColorCode::Background);
        let fore = self.get_color(ColorCode::Foreground);
        self.draw_rect(r, back);
        self.draw_line(r.x, r.y, r.x + r.w, r.y + r.h, fore);
    }

    /// A static text label, one row high and as wide as its text.
    /// Its face is rendered (and any pending alignment consumed)
    /// when the next sibling is declared or the container closes.
    pub fn label(&mut self, label: &str)
        requires
            old(self).ready(),
            label@.len() <= COORD_LIMIT,
        ensures
            final(self).ready(),
            old(self).commands@.is_prefix_of(final(self).commands@),
            final(self).next_layout is Some,
            final(self).next_layout->0@ == old(self).widget_rect_m(label@.len() as int, 1),
            final(self).next_layout->0.defered_seq().len() == 1,
            ({
                let rm = old(self).widget_rect_m(label@.len() as int, 1);
                defered_is_label(
                    final(self).next_layout->0.defered_seq()[0],
                    Rect { x: rm.x as i64, y: rm.y as i64, w: rm.w as i64, h: rm.h as i64 },
                    label@,
                    old(self).color_of(ColorCode::Background),
                    old(self).color_of(ColorCode::Text),
                )
            }),
            *final(self) == (Context {
                layouts: final(self).layouts,
                commands: final(self).commands,
                next_layout: final(self).next_layout,
                next_align: final(self).next_align,
                ..*old(self)
            }),
    {
        self.try_commit();
        let chars = chars_vec(label);
        let r = self.next_rectangle(chars.len() as i64, 1);
        let back = self.get_color(ColorCode::Background);
        let fore = self.get_color(ColorCode::Text);
        self.defered(DeferedCommand::Label(r, label.to_owned(), back, fore));
    }

    /// A static label whose text embeds doryen color directives; its
    /// width is the text's visible length (clipped to the coordinate
    /// bound).
    pub fn label_color(&mut self, label: &str)
        requires
            old(self).ready(),
        ensures
            final(self).ready(),
            old(self).commands@.is_prefix_of(final(self).commands@),
            final(self).next_layout is Some,
            ({
                let len = imin(color_text_len(label@) as int, COORD_LIMIT as int);
                let rm = old(self).widget_rect_m(len, 1);
                &&& final(self).next_layout->0@ == rm
                &&& final(self).next_layout->0.defered_seq().len() == 1
                &&& defered_is_label_color(
                    final(self).next_layout->0.defered_seq()[0],
                    Rect { x: rm.x as i64, y: rm.y as i64, w: rm.w as i64, h: rm.h as i64 },
                    label@,
                    old(self).color_of(ColorCode::Background),
                )
            }),
            *final(self) == (Context {
                layouts: final(self).layouts,
                commands: final(self).commands,
                next_layout: final(self).next_layout,
                next_align: final(self).next_align,
                ..*old(self)
            }),
    {
        self.try_commit();
        let raw = text_color_len(label);
        let len: i64 = if raw >= COORD_LIMIT as usize {
            COORD_LIMIT
        } else {
            raw as i64
        };
        let r = self.next_rectangle(len, 1);
        let back = self.get_color(ColorCode::Background);
        self.defered(DeferedCommand::LabelColor(r, label.to_owned(), back));
    }

    // =======================================================
    //
    // Persistent integer state, keyed by widget identity
    //
    // =======================================================
    /// The stored value for this identity, or the default if none
    /// is stored; seeds the store with it on first encounter.
    pub(crate) fn bstate_ensure(&mut self, id: Id, default: i64) -> (v: i64)
        ensures
            v == if old(self).button_state@.contains_key(id) {
                old(self).button_state@[id]
            } else {
                default
            },
            final(self).button_state@ == old(self).button_state@.insert(id, v),
            *final(self) == (Context { button_state: final(self).button_state, ..*old(self) }),
    {
        broadcast use vstd::std_specs::hash::group_hash_axioms;

        let v = match self.button_state.get(&id) {
            Some(x) => *x,
            None => default,
        };
        self.button_state.insert(id, v);
        v
    }

    /// The stored value for this identity, or the default if none is
    /// stored, without seeding the store.
    pub(crate) fn bstate_read(&self, id: Id, default: i64) -> (v: i64)
        ensures
            v == if self.button_state@.contains_key(id) {
                self.button_state@[id]
            } else {
                default
            },
    {
        broadcast use vstd::std_specs::hash::group_hash_axioms;

        match self.button_state.get(&id) {
            Some(x) => *x,
            None => default,
        }
    }

    /// Store a value for this identity.
    pub(crate) fn bstate_set(&mut self, id: Id, v: i64)
        ensures
            final(self).button_state@ == old(self).button_state@.insert(id, v),
            *final(self) == (Context { button_state: final(self).button_state, ..*old(self) }),
    {
        broadcast use vstd::std_specs::hash::group_hash_axioms;

        self.button_state.insert(id, v);
    }

    /// The stored slider value for this identity, or the default;
    /// seeds the store with it on first encounter.
    pub(crate) fn sstate_ensure(&mut self, id: Id, default: i64) -> (v: i64)
        ensures
            v == if old(self).slider_state@.contains_key(id) {
                old(self).slider_state@[id]
            } else {
                default
            },
            final(self).slider_state@ == old(self).slider_state@.insert(id, v),
            *final(self) == (Context { slider_state: final(self).slider_state, ..*old(self) }),
    {
        broadcast use vstd::std_specs::hash::group_hash_axioms;

        let v = match self.slider_state.get(&id) {
            Some(x) => *x,
            None => default,
        };
        self.slider_state.insert(id, v);
        v
    }

    /// Store a slider value for this identity.
    pub(crate) fn sstate_set(&mut self, id: Id, v: i64)
        ensures
            final(self).slider_state@ == old(self).slider_state@.insert(id, v),
            *final(self) == (Context { slider_state: final(self).slider_state, ..*old(self) }),
    {
        broadcast use vstd::std_specs::hash::group_hash_axioms;

        self.slider_state.insert(id, v);
    }

    /// Truncate a frame title to its rectangle and emit the border.
    pub(crate) fn render_frame(&mut self, title: &Vec<char>, col: Color, coltxt: Color, r: Rect)
        requires
            rect_in_range(r),
            title@.len() <= COORD_LIMIT,
        ensures
            final(self).commands@.len() == old(self).commands@.len() + 1,
            old(self).commands@.is_prefix_of(final(self).commands@),
            cmd_is_frame(
                final(self).commands@.last(),
                if title@.len() > r.w - 2 {
                    title@.take(imax(r.w as int - 2, 0))
                } else {
                    title@
                },
                r,
                col,
                coltxt,
            ),
            *final(self) == (Context { commands: final(self).commands, ..*old(self) }),
    {
        let len: i64 = title.len() as i64;
        if len > r.w - 2 {
            let keep: i64 = if r.w - 2 < 0 {
                0
            } else {
                r.w - 2
            };
            let t = sub_chars(title, 0, keep as usize);
            proof {
                assert(title@.subrange(0, keep as int) =~= title@.take(imax(r.w as int - 2, 0)));
            }
            self.draw_frame(r, &t, col, coltxt);
        } else {
            self.draw_frame(r, title, col, coltxt);
        }
    }
}

/// The decimal digit character for a value below ten.
pub open spec fn digit_char(d: int) -> char {
    (48 + d) as char
}

/// The decimal rendering of a non-negative integer.
pub open spec fn dec_chars_nat(n: int) -> Seq<char>
    decreases n,
{
    if n < 10 {
        seq![digit_char(if n < 0 {
            0
        } else {
            n
        })]
    } else {
        dec_chars_nat(n / 10).push(digit_char(n % 10))
    }
}

/// The decimal rendering of an integer, with a leading minus sign
/// when negative.
pub open spec fn dec_chars(n: int) -> Seq<char> {
    if n < 0 {
        seq!['-'] + dec_chars_nat(-n)
    } else {
        dec_chars_nat(n)
    }
}

/// Render a value in decimal.
pub fn i64_to_chars(n: i64) -> (r: Vec<char>)
    ensures
        r@ == dec_chars(n as int),
{
    let neg = n < 0;
    let mut m: u64 = if neg {
        (-(n as i128)) as u64
    } else {
        n as u64
    };
    let ghost m0 = m as int;
    let mut low: Vec<char> = Vec::new();
    loop
        invariant
            0 <= m,
            neg == (n < 0),
            m0 == if neg {
                -(n as int)
            } else {
                n as int
            },
            dec_chars_nat(m0) == dec_chars_nat(m as int) + low@,
        decreases m,
    {
        proof {
            assert(dec_chars_nat(m as int) == if m < 10 {
                seq![digit_char(m as int)]
            } else {
                dec_chars_nat(m as int / 10).push(digit_char(m as int % 10))
            });
        }
        let d: u64 = m % 10;
        let c: char = (48 + d as u8) as char;
        if m < 10 {
            proof {
                assert(dec_chars_nat(m as int) + low@ =~= (seq![digit_char(m as int)] + low@));
            }
            let mut r: Vec<char> = Vec::new();
            if neg {
                r.push('-');
            }
            r.push(c);
            let mut i: usize = 0;
            while i < low.len()
                invariant
                    0 <= i <= low@.len(),
                    neg ==> r@ == seq!['-', digit_char(m as int)] + low@.take(i as int),
                    !neg ==> r@ == seq![digit_char(m as int)] + low@.take(i as int),
                decreases low@.len() - i,
            {
                r.push(low[i]);
                proof {
                    assert(low@.take(i as int).push(low@[i as int]) =~= low@.take(i as int + 1));
                    if neg {
                        assert((seq!['-', digit_char(m as int)] + low@.take(i as int)).push(
                            low@[i as int],
                        ) =~= seq!['-', digit_char(m as int)] + low@.take(i as int + 1));
                    } else {
                        assert((seq![digit_char(m as int)] + low@.take(i as int)).push(
                            low@[i as int],
                        ) =~= seq![digit_char(m as int)] + low@.take(i as int + 1));
                    }
                }
                i = i + 1;
            }
            proof {
                assert(low@.take(low@.len() as int) =~= low@);
                if neg {
                    assert(seq!['-', digit_char(m as int)] + low@ =~= seq!['-'] + (seq![
                        digit_char(m as int),
                    ] + low@));
                    assert(r@ =~= seq!['-'] + dec_chars_nat(m0));
                } else {
                    assert(r@ =~= dec_chars_nat(m0));
                }
                if neg {
                    assert(m0 == -(n as int));
                    assert(dec_chars(n as int) == seq!['-'] + dec_chars_nat(-(n as int)));
                } else {
                    assert(m0 == n as int);
                }
            }
            return r;
        } else {
            let mut nl: Vec<char> = Vec::new();
            nl.push(c);
            let mut i: usize = 0;
            while i < low.len()
                invariant
                    0 <= i <= low@.len(),
                    nl@ == seq![digit_char(m as int % 10)] + low@.take(i as int),
                decreases low@.len() - i,
            {
                nl.push(low[i]);
                proof {
                    assert(low@.take(i as int).push(low@[i as int]) =~= low@.take(i as int + 1));
                    assert((seq![digit_char(m as int % 10)] + low@.take(i as int)).push(
                        low@[i as int],
                    ) =~= seq![digit_char(m as int % 10)] + low@.take(i as int + 1));
                }
                i = i + 1;
            }
            proof {
                assert(low@.take(low@.len() as int) =~= low@);
                assert(dec_chars_nat(m as int / 10) + (seq![digit_char(m as int % 10)] + low@)
                    =~= dec_chars_nat(m as int / 10).push(digit_char(m as int % 10)) + low@);
            }
            low = nl;
            m = m / 10;
        }
    }
}

/// Copy of a character vector.
pub(crate) fn clone_chars(v: &Vec<char>) -> (r: Vec<char>)
    ensures
        r@ == v@,
{
    let mut r: Vec<char> = Vec::new();
    let mut i: usize = 0;
    while i < v.len()
        invariant
            0 <= i <= v@.len(),
            r@ == v@.take(i as int),
        decreases v@.len() - i,
    {
        r.push(v[i]);
        proof {
            assert(v@.take(i as int).push(v@[i as int]) =~= v@.take(i as int + 1));
        }
        i = i + 1;
    }
    proof {
        assert(v@.take(v@.len() as int) =~= v@);
    }
    r
}

} // verus!
