//! Frame-level tests: widgets declared against a context and
//! rendered into a character buffer.

use doryen_ui::Color;
use doryen_ui::Context;
use doryen_ui::Pos;
use doryen_ui::Rect;
use doryen_ui::Renderer;
use doryen_ui::TextAlign;

const SCREEN_WIDTH: usize = 80;
const SCREEN_HEIGHT: usize = 25;

struct AsciiRenderer {
    character: Vec<Vec<char>>,
}

impl AsciiRenderer {
    pub fn new() -> Self {
        Self { character: vec![vec![' '; SCREEN_HEIGHT]; SCREEN_WIDTH] }
    }

    pub fn shows(&self, t: &str, x: usize, y: usize) -> bool {
        let mut cx = x;
        for c in t.chars() {
            if self.character[cx][y] != c {
                return false;
            }
            cx += 1;
        }
        true
    }
}

impl Renderer for AsciiRenderer {
    fn line(&mut self, _p1: Pos, _p2: Pos, _col: Color) {}

    fn rectangle(&mut self, rect: &Rect, _col: Color) {
        for cx in rect.x as usize..(rect.x + rect.w) as usize {
            for cy in rect.y as usize..(rect.y + rect.h) as usize {
                self.character[cx][cy] = ' ';
            }
        }
    }

    fn text(&mut self, pos: Pos, txt: &str, _col: Color) {
        let mut x = pos.x as usize;
        let y = pos.y as usize;
        for c in txt.chars() {
            self.character[x][y] = c;
            x += 1;
        }
    }

    fn text_color(&mut self, pos: Pos, txt: &str, _align: TextAlign) {
        let mut x = pos.x as usize;
        let y = pos.y as usize;
        for c in txt.chars() {
            self.character[x][y] = c;
            x += 1;
        }
    }

    fn progress(&mut self, _r: &Rect, _permille: u32, _back: Color, _fore: Color) {}

    fn frame(&mut self, txt: &str, rect: &Rect, _col: Color, coltxt: Color) {
        let rx = rect.x as usize;
        let ry = rect.y as usize;
        let rx2 = rx + rect.w as usize - 1;
        let ry2 = ry + rect.h as usize - 1;
        self.character[rx][ry] = '1';
        self.character[rx2][ry] = '2';
        self.character[rx][ry2] = '3';
        self.character[rx2][ry2] = '4';
        self.text(Pos { x: rect.x, y: rect.y }, txt, coltxt);
    }

    fn checkbox(&mut self, pos: Pos, _checked: bool, _col: Color) {
        self.character[pos.x as usize][pos.y as usize] = '5';
    }

    fn dropdown(&mut self, pos: Pos, _checked: bool, _col: Color) {
        self.character[pos.x as usize][pos.y as usize] = '>';
    }
}

#[test]
fn test_button() {
    let mut rend = AsciiRenderer::new();
    let mut ctx = Context::new();
    ctx.begin();
    ctx.button("0", "test");
    ctx.align(TextAlign::Left);
    ctx.end();
    ctx.render(&mut rend);
    assert!(rend.shows("test", 0, 0));
}

#[test]
fn lib_test_vbox() {
    let mut rend = AsciiRenderer::new();
    let mut ctx = Context::new();
    ctx.begin();
    ctx.vbox_begin("0", 2);
    ctx.label("1");
    ctx.label("2");
    ctx.vbox_end();
    ctx.end();
    ctx.render(&mut rend);
    assert!(rend.shows("1", 0, 0));
    assert!(rend.shows("2", 0, 1));
}

#[test]
fn lib_test_hbox() {
    let mut rend = AsciiRenderer::new();
    let mut ctx = Context::new();
    ctx.begin();
    ctx.hbox_begin("0");
    ctx.label("1");
    ctx.label("2");
    ctx.hbox_end();
    ctx.end();
    ctx.render(&mut rend);
    assert!(rend.shows("12", 0, 0));
}

#[test]
fn test_margin() {
    let mut rend = AsciiRenderer::new();
    let mut ctx = Context::new();
    ctx.begin();
    ctx.vbox_begin("0", 2);
    ctx.margin(1);
    ctx.label("1");
    ctx.label("2");
    ctx.vbox_end();
    ctx.end();
    ctx.render(&mut rend);
    assert!(rend.shows("1", 1, 1));
    assert!(rend.shows("2", 1, 2));
}

#[test]
fn test_padding() {
    let mut rend = AsciiRenderer::new();
    let mut ctx = Context::new();
    ctx.begin();
    ctx.vbox_begin("0", 2);
    ctx.padding(1);
    ctx.label("1");
    ctx.label("2");
    ctx.vbox_end();
    ctx.end();
    ctx.render(&mut rend);
    assert!(rend.shows("1", 0, 0));
    assert!(rend.shows("2", 0, 2));
}
