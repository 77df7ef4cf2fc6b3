//! The terminal line discipline: an editing line filled by the keyboard,
//! with backspace, handed over as a cooked line on Enter, and echoed to the
//! console.
use vstd::prelude::*;
use vstd::string::StringSliceAdditionalSpecFns;
use crate::console::{ScrollingTextRenderer, write_text_spec, cursor_ok};

verus! {

/// Capacity of the line buffers; a line holds at most `LINE_CAP - 1` bytes.
pub const LINE_CAP: usize = 256;

/// The editing line after the byte `ch` is typed: Enter is handled apart,
/// backspace and delete remove the last byte, printable ASCII is appended
/// while fewer than 255 bytes are held, anything else is ignored.
pub open spec fn edit(line: Seq<u8>, ch: u8) -> Seq<u8> {
    if ch == 8 || ch == 0x7F {
        if line.len() > 0 { line.drop_last() } else { line }
    } else if 0x20 <= ch <= 0x7E {
        if line.len() < 255 { line.push(ch) } else { line }
    } else {
        line
    }
}

/// The editing line after typing the bytes of `keys` on `line`.
pub open spec fn edit_all(line: Seq<u8>, keys: Seq<u8>) -> Seq<u8>
    decreases keys.len(),
{
    if keys.len() == 0 {
        line
    } else {
        edit(edit_all(line, keys.drop_last()), keys.last())
    }
}

/// Typing printable characters on an empty line, at most 255 of them, gives
/// the line of those characters; a backspace then takes the last one back.
pub proof fn law_typed_line(keys: Seq<u8>)
    requires
        keys.len() <= 255,
        forall|i: int| 0 <= i < keys.len() ==> 0x20 <= #[trigger] keys[i] <= 0x7E,
    ensures
        edit_all(Seq::empty(), keys) == keys,
        keys.len() > 0 ==> edit(edit_all(Seq::empty(), keys), 8) == keys.drop_last(),
    decreases keys.len(),
{
    if keys.len() > 0 {
        law_typed_line(keys.drop_last());
        assert(keys.drop_last().push(keys.last()) =~= keys);
    }
}

/// What is echoed to the console for the byte `ch` typed on `line`.
pub open spec fn echo(line: Seq<u8>, ch: u8) -> Seq<u8> {
    if ch == 13 || ch == 10 {
        seq![10u8, 62u8, 32u8]
    } else if ch == 8 || ch == 0x7F {
        if line.len() > 0 { seq![8u8] } else { Seq::empty() }
    } else if 0x20 <= ch <= 0x7E {
        if line.len() < 255 { seq![ch] } else { Seq::empty() }
    } else {
        Seq::empty()
    }
}

/// The terminal state.
pub struct Tty {
    initialized: bool,
    line_buf: Vec<u8>,
    line_len: usize,
    cooked_buf: Vec<u8>,
    cooked_len: usize,
    line_ready: bool,
}

impl Tty {
    pub closed spec fn initialized(&self) -> bool {
        self.initialized
    }

    /// The line being edited.
    pub closed spec fn line(&self) -> Seq<u8> {
        self.line_buf@.take(self.line_len as int)
    }

    /// The last completed line.
    pub closed spec fn cooked(&self) -> Seq<u8> {
        self.cooked_buf@.take(self.cooked_len as int)
    }

    /// A completed line waits to be read.
    pub closed spec fn line_ready(&self) -> bool {
        self.line_ready
    }

    /// Both buffers have `LINE_CAP` bytes and the lines fit in them.
    pub closed spec fn wf(&self) -> bool {
        &&& self.line_buf@.len() == LINE_CAP
        &&& self.cooked_buf@.len() == LINE_CAP
        &&& self.line_len < LINE_CAP
        &&& self.cooked_len < LINE_CAP
    }

    pub fn new() -> (r: Self)
        ensures
            r.wf(),
            !r.initialized(),
            r.line() == Seq::<u8>::empty(),
            r.cooked() == Seq::<u8>::empty(),
            !r.line_ready(),
    {
        let mut a: Vec<u8> = Vec::new();
        let mut b: Vec<u8> = Vec::new();
        let mut i: usize = 0;
        while i < LINE_CAP
            invariant
                i <= LINE_CAP,
                a@.len() == i,
                b@.len() == i,
            decreases LINE_CAP - i,
        {
            a.push(0);
            b.push(0);
            i = i + 1;
        }
        let r = Tty { initialized: false, line_buf: a, line_len: 0, cooked_buf: b, cooked_len: 0, line_ready: false };
        assert(r.line() =~= Seq::<u8>::empty());
        assert(r.cooked() =~= Seq::<u8>::empty());
        r
    }

    /// Marks the terminal initialised; the caller clears the screen to black.
    pub fn tty_init(&mut self)
        requires
            old(self).wf(),
        ensures
            final(self).wf(),
            final(self).initialized(),
            final(self).line() == old(self).line(),
            final(self).cooked() == old(self).cooked(),
            final(self).line_ready() == old(self).line_ready(),
    {
        self.initialized = true;
    }

    /// Writes `data` to the console once the terminal is initialised.
    pub fn tty_write(&self, console: &mut ScrollingTextRenderer, data: &[u8])
        requires
            old(console).wf(),
            cursor_ok(old(console).state()),
        ensures
            final(console).wf(),
            cursor_ok(final(console).state()),
            final(console).state() == if self.initialized() {
                write_text_spec(old(console).state(), data@)
            } else {
                old(console).state()
            },
            final(console).visible_lines() == old(console).visible_lines(),
    {
        if !self.initialized {
            return;
        }
        console.write_text(data);
    }

    /// Writes the UTF-8 bytes of `s` (see `tty_write`).
    pub fn tty_write_str(&self, console: &mut ScrollingTextRenderer, s: &str)
        requires
            old(console).wf(),
            cursor_ok(old(console).state()),
        ensures
            final(console).wf(),
            cursor_ok(final(console).state()),
            final(console).state() == if self.initialized() {
                write_text_spec(old(console).state(), s.spec_bytes())
            } else {
                old(console).state()
            },
            final(console).visible_lines() == old(console).visible_lines(),
    {
        self.tty_write(console, s.as_bytes());
    }

    /// Handles a byte from the keyboard: Enter moves the editing line to the
    /// cooked line and marks it ready; backspace, delete and printable bytes
    /// edit the line (see `edit`). The effect is echoed (see `echo`). Nothing
    /// happens before initialisation.
    pub fn tty_handle_char(&mut self, console: &mut ScrollingTextRenderer, ch: u8)
        requires
            old(self).wf(),
            old(console).wf(),
            cursor_ok(old(console).state()),
        ensures
            final(self).wf(),
            final(console).wf(),
            cursor_ok(final(console).state()),
            final(self).initialized() == old(self).initialized(),
            final(console).visible_lines() == old(console).visible_lines(),
            !old(self).initialized() ==> final(self).line() == old(self).line() && final(self).cooked()
                == old(self).cooked() && final(self).line_ready() == old(self).line_ready()
                && final(console).state() == old(console).state(),
            old(self).initialized() ==> final(console).state() == write_text_spec(
                old(console).state(),
                echo(old(self).line(), ch),
            ),
            old(self).initialized() && (ch == 13 || ch == 10) ==> final(self).cooked() == old(self).line()
                && final(self).line() == Seq::<u8>::empty() && final(self).line_ready(),
            old(self).initialized() && !(ch == 13 || ch == 10) ==> final(self).line() == edit(old(self).line(), ch)
                && final(self).cooked() == old(self).cooked() && final(self).line_ready() == old(self).line_ready(),
    {
        if !self.initialized {
            return;
        }
        let ghost line0 = self.line();
        if ch == 13 || ch == 10 {
            let len = self.line_len;
            let mut i: usize = 0;
            while i < len
                invariant
                    self.wf(),
                    len == self.line_len,
                    i <= len,
                    self.line() == line0,
                    self.initialized,
                    forall|k: int| 0 <= k < i ==> self.cooked_buf@[k] == self.line_buf@[k],
                decreases len - i,
            {
                let b = self.line_buf[i];
                self.cooked_buf.set(i, b);
                i = i + 1;
            }
            self.cooked_len = len;
            self.line_len = 0;
            self.line_ready = true;
            proof {
                assert(self.cooked() =~= line0);
                assert(self.line() =~= Seq::<u8>::empty());
            }
            let e: [u8; 3] = [10, 62, 32];
            assert(e@ =~= echo(line0, ch));
            console.write_text(&e);
        } else if ch == 8 || ch == 0x7F {
            let len = self.line_len;
            if len > 0 {
                self.line_len = len - 1;
                assert(self.line() =~= line0.drop_last());
                let e: [u8; 1] = [8];
                assert(e@ =~= echo(line0, ch));
                console.write_text(&e);
            } else {
                proof { lemma_write_text_empty(console.state()); }
            }
        } else if 0x20 <= ch && ch <= 0x7E {
            let len = self.line_len;
            if len < 255 {
                self.line_buf.set(len, ch);
                self.line_len = len + 1;
                assert(self.line() =~= line0.push(ch));
                let e: [u8; 1] = [ch];
                assert(e@ =~= echo(line0, ch));
                console.write_text(&e);
            } else {
                proof { lemma_write_text_empty(console.state()); }
            }
        } else {
            proof { lemma_write_text_empty(console.state()); }
        }
    }

    /// Reads the completed line into `buf`: `Some(0)` when `buf` is empty or
    /// the terminal is not initialised, `None` while no line is ready (the
    /// caller halts and retries), otherwise the number of bytes copied (the
    /// line cut to `buf`'s length), and the line is consumed.
    pub fn tty_read_line(&mut self, buf: &mut [u8]) -> (r: Option<usize>)
        requires
            old(self).wf(),
        ensures
            final(self).wf(),
            final(self).initialized() == old(self).initialized(),
            final(self).line() == old(self).line(),
            final(self).cooked() == old(self).cooked(),
            final(buf)@.len() == old(buf)@.len(),
            (old(buf)@.len() == 0 || !old(self).initialized()) ==> r == Some(0usize) && final(buf)@ == old(buf)@
                && final(self).line_ready() == old(self).line_ready(),
            (old(buf)@.len() > 0 && old(self).initialized() && !old(self).line_ready()) ==> r is None
                && final(buf)@ == old(buf)@ && !final(self).line_ready(),
            (old(buf)@.len() > 0 && old(self).initialized() && old(self).line_ready()) ==> {
                let n = if old(self).cooked().len() < old(buf)@.len() {
                    old(self).cooked().len() as int
                } else {
                    old(buf)@.len() as int
                };
                &&& r == Some(n as usize)
                &&& final(buf)@ == old(self).cooked().take(n) + old(buf)@.skip(n)
                &&& !final(self).line_ready()
            },
    {
        if buf.len() == 0 || !self.initialized {
            return Some(0);
        }
        if !self.line_ready {
            return None;
        }
        let len = if self.cooked_len < buf.len() { self.cooked_len } else { buf.len() };
        let ghost b0 = buf@;
        let mut i: usize = 0;
        while i < len
            invariant
                self.wf(),
                *self == *old(self),
                len <= self.cooked_len,
                len <= buf@.len(),
                buf@.len() == b0.len(),
                i <= len,
                forall|k: int| 0 <= k < i ==> buf@[k] == self.cooked_buf@[k],
                forall|k: int| i <= k < buf@.len() ==> buf@[k] == b0[k],
            decreases len - i,
        {
            buf[i] = self.cooked_buf[i];
            i = i + 1;
        }
        self.line_ready = false;
        assert(buf@ =~= old(self).cooked().take(len as int) + b0.skip(len as int));
        Some(len)
    }
}

proof fn lemma_write_text_empty(st: crate::console::ConsoleState)
    ensures
        write_text_spec(st, Seq::empty()) == st,
{
}

} // verus!
