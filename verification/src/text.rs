//! Formatted text for the console: a bounded line buffer that formatting
//! writes into, and strings with colours that are written in them and then
//! put the console's colours back.
use vstd::prelude::*;
use vstd::string::StringSliceAdditionalSpecFns;
use crate::console::{
    cursor_ok, write_text_spec, ConsoleState, ScrollingTextRenderer, BLACK, BLUE, CYAN, GRAY, GREEN, MAGENTA,
    ORANGE, PINK, RED, WHITE, YELLOW,
};

verus! {

/// The capacity of a line buffer.
pub const LINE_BUFFER_SIZE: usize = 512;

/// A buffer that keeps the first 512 bytes written to it.
pub struct LineWriter {
    buf: Vec<u8>,
}

impl LineWriter {
    pub closed spec fn view(&self) -> Seq<u8> {
        self.buf@
    }

    pub fn new() -> (r: Self)
        ensures
            r@ == Seq::<u8>::empty(),
    {
        LineWriter { buf: Vec::new() }
    }

    /// Appends the bytes of `s` that still fit.
    pub fn write_str(&mut self, s: &str)
        requires
            old(self)@.len() <= LINE_BUFFER_SIZE,
        ensures
            final(self)@.len() <= LINE_BUFFER_SIZE,
            final(self)@ == old(self)@ + s.spec_bytes().take(
                if s.spec_bytes().len() < LINE_BUFFER_SIZE - old(self)@.len() {
                    s.spec_bytes().len() as int
                } else {
                    LINE_BUFFER_SIZE - old(self)@.len()
                },
            ),
    {
        let bytes = s.as_bytes();
        let remaining = LINE_BUFFER_SIZE - self.buf.len();
        let to_copy = if bytes.len() < remaining { bytes.len() } else { remaining };
        let ghost before = self.buf@;
        let mut i: usize = 0;
        while i < to_copy
            invariant
                i <= to_copy <= bytes@.len(),
                bytes@ == s.spec_bytes(),
                self.buf@ == before + bytes@.take(i as int),
            decreases to_copy - i,
        {
            self.buf.push(bytes[i]);
            assert(self.buf@ =~= before + bytes@.take(i + 1));
            i = i + 1;
        }
    }

    /// The bytes written so far.
    pub fn finish(&self) -> (r: &[u8])
        ensures
            r@ == self@,
    {
        self.buf.as_slice()
    }
}

/// A string with the colours it is to be written in.
pub struct ColoredStr<'a> {
    pub text: &'a str,
    pub fg: u32,
    pub bg: u32,
}

impl<'a> ColoredStr<'a> {
    /// Writes the text in its colours, then puts the console's colours back.
    pub fn print(&self, r: &mut ScrollingTextRenderer)
        requires
            old(r).wf(),
            cursor_ok(old(r).state()),
        ensures
            final(r).wf(),
            cursor_ok(final(r).state()),
            final(r).state() == (ConsoleState {
                fg: old(r).state().fg,
                bg: old(r).state().bg,
                ..write_text_spec(ConsoleState { fg: self.fg, bg: self.bg, ..old(r).state() }, self.text.spec_bytes())
            }),
    {
        let (prev_fg, prev_bg) = r.colors();
        r.set_colors(self.fg, self.bg);
        r.write_text(self.text.as_bytes());
        r.set_colors(prev_fg, prev_bg);
    }
}

/// Colouring a string.
pub trait Colorize {
    fn colored(&self, fg: u32, bg: u32) -> ColoredStr<'_>;
}

impl Colorize for str {
    fn colored(&self, fg: u32, bg: u32) -> (r: ColoredStr<'_>)
        ensures
            r.text@ == self@ && r.fg == fg && r.bg == bg,
    {
        ColoredStr { text: self, fg, bg }
    }
}

/// `text` in `fg` on `bg`.
pub fn colored(text: &str, fg: u32, bg: u32) -> (r: ColoredStr<'_>)
    ensures
        r.text@ == text@ && r.fg == fg && r.bg == bg,
{
    ColoredStr { text, fg, bg }
}

pub fn red(text: &str) -> (r: ColoredStr<'_>)
    ensures
        r.text@ == text@ && r.fg == RED && r.bg == BLACK,
{
    colored(text, RED, BLACK)
}

pub fn green(text: &str) -> (r: ColoredStr<'_>)
    ensures
        r.text@ == text@ && r.fg == GREEN && r.bg == BLACK,
{
    colored(text, GREEN, BLACK)
}

pub fn blue(text: &str) -> (r: ColoredStr<'_>)
    ensures
        r.text@ == text@ && r.fg == BLUE && r.bg == BLACK,
{
    colored(text, BLUE, BLACK)
}

pub fn yellow(text: &str) -> (r: ColoredStr<'_>)
    ensures
        r.text@ == text@ && r.fg == YELLOW && r.bg == BLACK,
{
    colored(text, YELLOW, BLACK)
}

pub fn cyan(text: &str) -> (r: ColoredStr<'_>)
    ensures
        r.text@ == text@ && r.fg == CYAN && r.bg == BLACK,
{
    colored(text, CYAN, BLACK)
}

pub fn magenta(text: &str) -> (r: ColoredStr<'_>)
    ensures
        r.text@ == text@ && r.fg == MAGENTA && r.bg == BLACK,
{
    colored(text, MAGENTA, BLACK)
}

pub fn orange(text: &str) -> (r: ColoredStr<'_>)
    ensures
        r.text@ == text@ && r.fg == ORANGE && r.bg == BLACK,
{
    colored(text, ORANGE, BLACK)
}

pub fn pink(text: &str) -> (r: ColoredStr<'_>)
    ensures
        r.text@ == text@ && r.fg == PINK && r.bg == BLACK,
{
    colored(text, PINK, BLACK)
}

pub fn white(text: &str) -> (r: ColoredStr<'_>)
    ensures
        r.text@ == text@ && r.fg == WHITE && r.bg == BLACK,
{
    colored(text, WHITE, BLACK)
}

pub fn gray(text: &str) -> (r: ColoredStr<'_>)
    ensures
        r.text@ == text@ && r.fg == GRAY && r.bg == BLACK,
{
    colored(text, GRAY, BLACK)
}

pub fn on_red(text: &str) -> (r: ColoredStr<'_>)
    ensures
        r.text@ == text@ && r.fg == WHITE && r.bg == RED,
{
    colored(text, WHITE, RED)
}

pub fn on_green(text: &str) -> (r: ColoredStr<'_>)
    ensures
        r.text@ == text@ && r.fg == BLACK && r.bg == GREEN,
{
    colored(text, BLACK, GREEN)
}

pub fn on_blue(text: &str) -> (r: ColoredStr<'_>)
    ensures
        r.text@ == text@ && r.fg == WHITE && r.bg == BLUE,
{
    colored(text, WHITE, BLUE)
}

pub fn on_yellow(text: &str) -> (r: ColoredStr<'_>)
    ensures
        r.text@ == text@ && r.fg == BLACK && r.bg == YELLOW,
{
    colored(text, BLACK, YELLOW)
}

pub fn on_black(text: &str) -> (r: ColoredStr<'_>)
    ensures
        r.text@ == text@ && r.fg == WHITE && r.bg == BLACK,
{
    colored(text, WHITE, BLACK)
}

} // verus!
