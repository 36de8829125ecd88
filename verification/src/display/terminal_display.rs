//! The text that shows a frame on a terminal: an asterisk for each pixel
//! that is on, a blank for each that is off, a line for each row, and the
//! escape sequences that `termion` has for clearing the screen, placing the
//! cursor and colouring the pixels.

use vstd::prelude::*;
use crate::bit_utils::get_bit_from_byte;
use crate::machine::display_state::frame_bit;

verus! {

/// The escape sequences that go into the text of a frame.
pub struct Style {
    /// Clears the screen.
    pub clear: Seq<char>,
    /// Moves the cursor to the top left corner.
    pub home: Seq<char>,
    /// Sets the colour of the pixels.
    pub foreground: Seq<char>,
    /// Sets the colour behind the pixels.
    pub background: Seq<char>,
    /// Hides the cursor.
    pub hide: Seq<char>,
}

/// The sequence that clears the whole screen.
pub open spec fn clear_sequence() -> Seq<char> {
    "\x1B[2J"@
}

/// The sequence that moves the cursor to column 1 of line 1.
pub open spec fn home_sequence() -> Seq<char> {
    "\x1B[1;1H"@
}

/// The sequence that hides the cursor.
pub open spec fn hide_sequence() -> Seq<char> {
    "\x1B[?25l"@
}

/// The sequence that makes the foreground green.
pub open spec fn green_sequence() -> Seq<char> {
    "\x1B[38;5;2m"@
}

/// The sequence that makes the background black.
pub open spec fn black_sequence() -> Seq<char> {
    "\x1B[48;5;0m"@
}

/// The text for the pixel at position `k` of the packed frame `bytes`: the
/// colours, the hidden cursor, an asterisk or a blank, and the end of the
/// line if the pixel is the last of a row of `cols` pixels.
pub open spec fn cell_text(style: Style, bytes: Seq<u8>, cols: int, k: int) -> Seq<char> {
    style.foreground + style.background + style.hide + (if frame_bit(bytes, k) {
        "*"@
    } else {
        " "@
    }) + (if (k + 1) % cols == 0 {
        style.hide + "\r\n"@
    } else {
        Seq::empty()
    })
}

/// The text for the first `k` pixels of the packed frame `bytes`.
pub open spec fn cells_text(style: Style, bytes: Seq<u8>, cols: int, k: int) -> Seq<char>
    decreases k,
{
    if k <= 0 {
        Seq::empty()
    } else {
        cells_text(style, bytes, cols, k - 1) + cell_text(style, bytes, cols, k - 1)
    }
}

/// The text that shows the packed frame `bytes` in rows of `cols` pixels:
/// the screen is cleared, the cursor goes to the top left corner, then come
/// the pixels.
pub open spec fn frame_text(style: Style, bytes: Seq<u8>, cols: int) -> Seq<char> {
    style.clear + style.home + cells_text(style, bytes, cols, 8 * (bytes.len() as int))
}

/// What `termion::clear::All` is displayed as. By `termion`'s source, the
/// control sequence introducer followed by `2J`.
#[verifier::external_body]
fn clear_screen() -> (text: String)
    ensures
        text@ == clear_sequence(),
{
    format!("{}", termion::clear::All)
}

/// What `termion::cursor::Goto(1, 1)` is displayed as. By `termion`'s
/// source, the control sequence introducer, the line, a semicolon, the
/// column and `H`.
#[verifier::external_body]
fn cursor_home() -> (text: String)
    ensures
        text@ == home_sequence(),
{
    format!("{}", termion::cursor::Goto(1, 1))
}

/// What `termion::cursor::Hide` is displayed as. By `termion`'s source, the
/// control sequence introducer followed by `?25l`.
#[verifier::external_body]
fn hide_cursor() -> (text: String)
    ensures
        text@ == hide_sequence(),
{
    format!("{}", termion::cursor::Hide)
}

/// What `termion::color::Fg(termion::color::Green)` is displayed as. By
/// `termion`'s source, nothing where the environment switches colours off
/// (`NO_COLOR`), else the control sequence introducer followed by
/// `38;5;2m`.
#[verifier::external_body]
fn green_foreground() -> (text: String)
    ensures
        text@ == Seq::<char>::empty() || text@ == green_sequence(),
{
    format!("{}", termion::color::Fg(termion::color::Green))
}

/// What `termion::color::Bg(termion::color::Black)` is displayed as. By
/// `termion`'s source, nothing where the environment switches colours off
/// (`NO_COLOR`), else the control sequence introducer followed by
/// `48;5;0m`.
#[verifier::external_body]
fn black_background() -> (text: String)
    ensures
        text@ == Seq::<char>::empty() || text@ == black_sequence(),
{
    format!("{}", termion::color::Bg(termion::color::Black))
}

/// A screen of `cols` by `rows` pixels that is shown as text.
pub struct TerminalDisplay {
    cols: usize,
    rows: usize,
}

impl TerminalDisplay {
    /// Number of pixels in a row.
    pub closed spec fn cols(&self) -> int {
        self.cols as int
    }

    /// Number of rows.
    pub closed spec fn rows(&self) -> int {
        self.rows as int
    }

    /// A terminal screen of `cols` by `rows` pixels.
    pub fn new(cols: usize, rows: usize) -> (display: TerminalDisplay)
        ensures
            display.cols() == cols,
            display.rows() == rows,
    {
        TerminalDisplay { cols, rows }
    }

    /// Number of pixels in a row, and number of rows.
    pub fn dimensions(&self) -> (size: (usize, usize))
        ensures
            size.0 == self.cols(),
            size.1 == self.rows(),
    {
        (self.cols, self.rows)
    }

    /// The text that shows the packed frame `bytes`, made with the given
    /// escape sequences.
    pub fn render_with(
        &self,
        bytes: &[u8],
        clear: &str,
        home: &str,
        foreground: &str,
        background: &str,
        hide: &str,
    ) -> (text: String)
        requires
            self.cols() > 0,
        ensures
            text@ == frame_text(
                Style {
                    clear: clear@,
                    home: home@,
                    foreground: foreground@,
                    background: background@,
                    hide: hide@,
                },
                bytes@,
                self.cols(),
            ),
    {
        let ghost style = Style {
            clear: clear@,
            home: home@,
            foreground: foreground@,
            background: background@,
            hide: hide@,
        };
        let mut text = String::new();
        text.append(clear);
        text.append(home);
        let ghost head = text@;
        assert(head == style.clear + style.home);
        assert(text@ == head + cells_text(style, bytes@, self.cols(), 0));
        let mut col: usize = 0;
        let mut index: usize = 0;
        proof {
            vstd::arithmetic::div_mod::lemma_small_mod(0, self.cols() as nat);
        }
        while index < bytes.len()
            invariant
                index <= bytes@.len(),
                self.cols() > 0,
                col < self.cols(),
                col == (8 * index) % self.cols(),
                text@ == head + cells_text(style, bytes@, self.cols(), 8 * index),
                style == (Style {
                    clear: clear@,
                    home: home@,
                    foreground: foreground@,
                    background: background@,
                    hide: hide@,
                }),
            decreases bytes@.len() - index,
        {
            let byte: u8 = bytes[index];
            let mut bit: usize = 0;
            while bit < 8
                invariant
                    index < bytes@.len(),
                    byte == bytes@[index as int],
                    bit <= 8,
                    self.cols() > 0,
                    col < self.cols(),
                    col == (8 * index + bit) % self.cols(),
                    text@ == head + cells_text(style, bytes@, self.cols(), 8 * index + bit),
                    style == (Style {
                        clear: clear@,
                        home: home@,
                        foreground: foreground@,
                        background: background@,
                        hide: hide@,
                    }),
                decreases 8 - bit,
            {
                let ghost k = 8 * index + bit;
                let ghost before = text@;
                let is_on: bool = get_bit_from_byte(bit, &byte);
                assert(is_on == frame_bit(bytes@, k)) by {
                    assert(k / 8 == index && k % 8 == bit);
                }
                text.append(foreground);
                text.append(background);
                text.append(hide);
                text.append(if is_on { "*" } else { " " });
                col += 1;
                assert(col == self.cols() <==> (k + 1) % self.cols() == 0) by {
                    lemma_next_column(k, self.cols());
                }
                if col == self.cols {
                    text.append(hide);
                    text.append("\r\n");
                    col = 0;
                }
                assert(col == (k + 1) % self.cols()) by {
                    lemma_next_column(k, self.cols());
                }
                assert(text@ =~= before + cell_text(style, bytes@, self.cols(), k));
                assert(text@ =~= head + cells_text(style, bytes@, self.cols(), k + 1));
                bit += 1;
            }
            index += 1;
        }
        text
    }

    /// The text that shows the packed frame `bytes`, with `termion`'s escape
    /// sequences: green on black, unless the environment has the colours
    /// switched off, in which case the text holds no colour sequences.
    pub fn render(&self, bytes: &[u8]) -> (text: String)
        requires
            self.cols() > 0,
        ensures
            exists|foreground: Seq<char>, background: Seq<char>|
                {
                    &&& foreground == Seq::<char>::empty() || foreground == green_sequence()
                    &&& background == Seq::<char>::empty() || background == black_sequence()
                    &&& text@ == #[trigger] frame_text(
                        Style {
                            clear: clear_sequence(),
                            home: home_sequence(),
                            foreground,
                            background,
                            hide: hide_sequence(),
                        },
                        bytes@,
                        self.cols(),
                    )
                },
    {
        let clear = clear_screen();
        let home = cursor_home();
        let foreground = green_foreground();
        let background = black_background();
        let hide = hide_cursor();
        let text = self.render_with(
            bytes,
            clear.as_str(),
            home.as_str(),
            foreground.as_str(),
            background.as_str(),
            hide.as_str(),
        );
        assert(text@ == frame_text(
            Style {
                clear: clear_sequence(),
                home: home_sequence(),
                foreground: foreground@,
                background: background@,
                hide: hide_sequence(),
            },
            bytes@,
            self.cols(),
        ));
        text
    }
}

/// The column after column `k % cols` is `(k + 1) % cols`: the next one, or
/// the first where the row is full.
proof fn lemma_next_column(k: int, cols: int)
    requires
        0 <= k,
        0 < cols,
    ensures
        (k + 1) % cols == if k % cols + 1 == cols {
            0
        } else {
            k % cols + 1
        },
{
    vstd::arithmetic::div_mod::lemma_fundamental_div_mod(k, cols);
    let q = k / cols;
    let r = k % cols;
    assert(q * cols == cols * q) by (nonlinear_arith);
    if r + 1 == cols {
        assert(k + 1 == (q + 1) * cols + 0) by (nonlinear_arith)
            requires
                k == q * cols + r,
                r + 1 == cols,
        ;
        vstd::arithmetic::div_mod::lemma_fundamental_div_mod_converse(k + 1, cols, q + 1, 0);
    } else {
        vstd::arithmetic::div_mod::lemma_fundamental_div_mod_converse(k + 1, cols, q, r + 1);
    }
}

} // verus!
