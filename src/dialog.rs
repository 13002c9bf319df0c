//! Status labels and the fixed-width status line shown while work is in progress.
use vstd::prelude::*;

verus! {

/// Outcome shown at the end of a status line.
pub enum Status {
    Unknown,
    Passed,
    Failed,
    Warning,
}

/// The plain label of each status.
pub open spec fn status_label(s: Status) -> Seq<char> {
    match s {
        Status::Unknown => "[?]"@,
        Status::Passed => "[OK]"@,
        Status::Failed => "[FAILED]"@,
        Status::Warning => "[WAR]"@,
    }
}

/// The ANSI foreground colour code of each status, `None` for the plain one.
pub open spec fn status_color(s: Status) -> Option<Seq<char>> {
    match s {
        Status::Unknown => None,
        Status::Passed => Some("32"@),
        Status::Failed => Some("31"@),
        Status::Warning => Some("33"@),
    }
}

/// `text` in the foreground colour `code`, then reset.
pub open spec fn ansi_colored(code: Seq<char>, text: Seq<char>) -> Seq<char> {
    "\x1b["@ + code + "m"@ + text + "\x1b[0m"@
}

/// Relies on console's Style::green: the text, coloured when the terminal
/// takes colours and plain otherwise.
#[verifier::external_body]
fn paint_green(text: &str) -> (r: String)
    ensures
        r@ == text@ || r@ == ansi_colored("32"@, text@),
{
    console::Style::new().green().apply_to(text).to_string()
}

/// Relies on console's Style::red: the text, coloured when the terminal takes
/// colours and plain otherwise.
#[verifier::external_body]
fn paint_red(text: &str) -> (r: String)
    ensures
        r@ == text@ || r@ == ansi_colored("31"@, text@),
{
    console::Style::new().red().apply_to(text).to_string()
}

/// Relies on console's Style::yellow: the text, coloured when the terminal
/// takes colours and plain otherwise.
#[verifier::external_body]
fn paint_yellow(text: &str) -> (r: String)
    ensures
        r@ == text@ || r@ == ansi_colored("33"@, text@),
{
    console::Style::new().yellow().apply_to(text).to_string()
}

impl Status {
    pub fn to_string(&self) -> (r: &'static str)
        ensures
            r@ == status_label(*self),
    {
        match self {
            Status::Unknown => "[?]",
            Status::Passed => "[OK]",
            Status::Failed => "[FAILED]",
            Status::Warning => "[WAR]",
        }
    }

    /// The label, in the status's colour when the terminal takes colours.
    pub fn colorized(&self) -> (r: String)
        ensures
            match status_color(*self) {
                None => r@ == status_label(*self),
                Some(code) => r@ == status_label(*self) || r@ == ansi_colored(
                    code,
                    status_label(*self),
                ),
            },
    {
        match self {
            Status::Unknown => "[?]".to_string(),
            Status::Passed => paint_green("[OK]"),
            Status::Failed => paint_red("[FAILED]"),
            Status::Warning => paint_yellow("[WAR]"),
        }
    }
}

/// A status line: a message and the frame counter of its spinner.
pub struct Dialog {
    pub msg: String,
    pub frames: usize,
}

/// Number of frames in the spinner animation.
pub const SPINNER_FRAMES: usize = 10;

/// Widest status line, in columns.
pub const MAX_WIDTH: usize = 80;

/// Columns left for the message on a terminal `term_width` columns wide (80
/// when unknown, never more than 80) once `suffix_len` columns are reserved.
pub open spec fn width_of(term_width: Option<u16>, suffix_len: int) -> int {
    let w: int = match term_width {
        Some(w) => if (w as int) < MAX_WIDTH as int {
            w as int
        } else {
            MAX_WIDTH as int
        },
        None => MAX_WIDTH as int,
    };
    if suffix_len <= w {
        w - suffix_len
    } else {
        0
    }
}

/// Relies on terminal_size::terminal_size: the width of the terminal on the
/// standard streams, when there is one.
#[verifier::external_body]
fn terminal_columns() -> (r: Option<u16>) {
    terminal_size::terminal_size().map(|(w, _)| w.0)
}

impl Dialog {
    /// The first `n` characters of `s`, or all of `s` when it is shorter.
    pub fn first_n_chars(s: &str, n: usize) -> (r: &str)
        ensures
            r@ == s@.take(if n < s@.len() { n as int } else { s@.len() as int }),
    {
        let len = s.unicode_len();
        let end = if n < len { n } else { len };
        s.substring_char(0, end)
    }

    pub fn new(msg: String) -> (r: Self)
        ensures
            r.msg == msg,
            r.frames == 0,
    {
        Dialog { msg, frames: 0 }
    }

    pub fn set_msg(&mut self, msg: String)
        ensures
            final(self).msg == msg,
            final(self).frames == old(self).frames,
    {
        self.msg = msg;
    }

    /// Columns left for the message once `suffix_len` columns of suffix are
    /// reserved, on a terminal `term_width` columns wide (80 when unknown),
    /// never wider than 80.
    pub fn width_for(term_width: Option<u16>, suffix_len: usize) -> (r: usize)
        ensures
            r == width_of(term_width, suffix_len as int),
    {
        let w: usize = match term_width {
            Some(w) => if (w as usize) < MAX_WIDTH { w as usize } else { MAX_WIDTH },
            None => MAX_WIDTH,
        };
        w.saturating_sub(suffix_len)
    }

    /// Columns left for the message before `suffix` on the current terminal.
    pub fn get_width(&self, suffix: &str) -> (r: usize)
        ensures
            exists|t: Option<u16>| r == width_of(t, suffix.len() as int),
    {
        let t = terminal_columns();
        let r = Dialog::width_for(t, suffix.len());
        assert(r == width_of(t, suffix.len() as int));
        r
    }

    /// Moves the spinner on by one frame, back to the first after the last.
    pub fn advance_frame(&mut self)
        requires
            old(self).frames < SPINNER_FRAMES,
        ensures
            final(self).msg == old(self).msg,
            final(self).frames == (old(self).frames + 1) % (SPINNER_FRAMES as int),
    {
        self.frames = (self.frames + 1) % SPINNER_FRAMES;
    }
}

} // verus!
