//! Semantic color tokens and the per-token stack of overrides.

use vstd::prelude::*;

verus! {

/// A concrete color: red, green, blue, alpha.
pub type Color = (u8, u8, u8, u8);

/// Semantic color token; widgets pick their colors by token and the
/// host may override any token with a stack discipline.
#[derive(Clone, Copy, PartialEq, Eq, Debug, Hash, Structural)]
pub enum ColorCode {
    Background,
    Foreground,
    ButtonBackground,
    ButtonBackgroundHover,
    ButtonBackgroundFocus,
    ButtonText,
    ButtonTextHover,
    ButtonTextFocus,
    ButtonTextDisabled,
    ProgressBack,
    ProgressFore,
    ProgressText,
    Text,
}

/// Number of semantic color tokens.
pub const COLOR_COUNT: usize = 13;

/// Stack index of a color token.
pub open spec fn spec_color_index(code: ColorCode) -> int {
    match code {
        ColorCode::Background => 0,
        ColorCode::Foreground => 1,
        ColorCode::ButtonBackground => 2,
        ColorCode::ButtonBackgroundHover => 3,
        ColorCode::ButtonBackgroundFocus => 4,
        ColorCode::ButtonText => 5,
        ColorCode::ButtonTextHover => 6,
        ColorCode::ButtonTextFocus => 7,
        ColorCode::ButtonTextDisabled => 8,
        ColorCode::Text => 9,
        ColorCode::ProgressBack => 10,
        ColorCode::ProgressFore => 11,
        ColorCode::ProgressText => 12,
    }
}

pub fn color_index(code: ColorCode) -> (i: usize)
    ensures
        i as int == spec_color_index(code),
        i < COLOR_COUNT,
{
    match code {
        ColorCode::Background => 0,
        ColorCode::Foreground => 1,
        ColorCode::ButtonBackground => 2,
        ColorCode::ButtonBackgroundHover => 3,
        ColorCode::ButtonBackgroundFocus => 4,
        ColorCode::ButtonText => 5,
        ColorCode::ButtonTextHover => 6,
        ColorCode::ButtonTextFocus => 7,
        ColorCode::ButtonTextDisabled => 8,
        ColorCode::Text => 9,
        ColorCode::ProgressBack => 10,
        ColorCode::ProgressFore => 11,
        ColorCode::ProgressText => 12,
    }
}

/// One stack of concrete colors per semantic token; the top of a
/// token's stack is the color currently in effect for it.
pub struct ColorManager {
    stacks: Vec<Vec<Color>>,
}

impl ColorManager {
    /// The stacks, one sequence of colors per token, innermost
    /// override last.
    pub closed spec fn view(&self) -> Seq<Seq<Color>> {
        self.stacks@.map(|i: int, s: Vec<Color>| s@)
    }

    /// A manager always holds one stack per token.
    pub open spec fn wf(&self) -> bool {
        self@.len() == COLOR_COUNT
    }

    /// Push an override for a token; it takes effect immediately.
    pub fn push(&mut self, code: ColorCode, c: Color)
        requires
            old(self).wf(),
        ensures
            final(self).wf(),
            final(self)@ == old(self)@.update(
                spec_color_index(code),
                old(self)@[spec_color_index(code)].push(c),
            ),
    {
        let i = color_index(code);
        let stack: &mut Vec<Color> = &mut self.stacks[i];
        stack.push(c);
        proof {
            assert(self@ =~= old(self)@.update(
                spec_color_index(code),
                old(self)@[spec_color_index(code)].push(c),
            ));
        }
    }

    /// Drop the innermost override for a token; the previous color
    /// takes effect again. Popping a token whose stack is already
    /// empty leaves it empty.
    pub fn pop(&mut self, code: ColorCode)
        requires
            old(self).wf(),
        ensures
            final(self).wf(),
            old(self)@[spec_color_index(code)].len() == 0 ==> final(self)@ == old(self)@,
            old(self)@[spec_color_index(code)].len() > 0 ==> final(self)@ == old(self)@.update(
                spec_color_index(code),
                old(self)@[spec_color_index(code)].drop_last(),
            ),
    {
        let i = color_index(code);
        let stack: &mut Vec<Color> = &mut self.stacks[i];
        let popped = stack.pop();
        proof {
            if old(self)@[spec_color_index(code)].len() == 0 {
                assert(self@ =~= old(self)@);
            } else {
                assert(self@ =~= old(self)@.update(
                    spec_color_index(code),
                    old(self)@[spec_color_index(code)].drop_last(),
                ));
            }
        }
    }

    /// The color currently in effect for a token: the top of its
    /// stack. Reading a token whose stack was popped empty is a
    /// caller error and is excluded here.
    pub fn get(&self, code: ColorCode) -> (c: Color)
        requires
            self.wf(),
            self@[spec_color_index(code)].len() > 0,
        ensures
            c == self@[spec_color_index(code)].last(),
    {
        let i = color_index(code);
        let stack: &Vec<Color> = &self.stacks[i];
        stack[stack.len() - 1]
    }
}

impl Default for ColorManager {
    /// The default palette: every token starts with exactly one
    /// concrete color on its stack.
    fn default() -> (r: Self)
        ensures
            r.wf(),
            forall|i: int| 0 <= i < COLOR_COUNT ==> #[trigger] r@[i].len() == 1,
    {
        let mut stacks: Vec<Vec<Color>> = Vec::new();
        stacks.push(one_color((245, 245, 245, 255)));
        stacks.push(one_color((200, 200, 255, 255)));
        stacks.push(one_color((201, 201, 201, 255)));
        stacks.push(one_color((201, 239, 254, 255)));
        stacks.push(one_color((151, 232, 235, 255)));
        stacks.push(one_color((104, 104, 104, 255)));
        stacks.push(one_color((154, 154, 154, 255)));
        stacks.push(one_color((255, 255, 255, 255)));
        stacks.push(one_color((180, 180, 180, 255)));
        stacks.push(one_color((104, 104, 104, 255)));
        stacks.push(one_color((50, 50, 154, 255)));
        stacks.push(one_color((120, 120, 200, 255)));
        stacks.push(one_color((180, 180, 220, 255)));
        let r = ColorManager { stacks };
        proof {
            assert forall|i: int| 0 <= i < COLOR_COUNT implies #[trigger] r@[i].len() == 1 by {
            }
        }
        r
    }
}

fn one_color(c: Color) -> (v: Vec<Color>)
    ensures
        v@ =~= seq![c],
{
    let mut v: Vec<Color> = Vec::new();
    v.push(c);
    v
}

} // verus!
