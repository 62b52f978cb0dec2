//! What the visualizer overlay shows and where it goes.

use vstd::prelude::*;
use crate::text::{chars_of, eq_lit, string_of, utf8_len, utf8_width, char_utf8_len, is_byte_boundary};

verus! {

broadcast use vstd::string::group_string_axioms;

/// Width of the overlay window in pixels.
pub const WINDOW_WIDTH: i32 = 200;

/// Gap between the overlay and the screen edges in pixels.
pub const EDGE_PADDING: i32 = 16;

/// The line shown next to the orb: "Processing…" while transcribing,
/// "Listening…" when there is no preview, else the preview.
pub open spec fn status_text(preview: Seq<char>) -> Seq<char> {
    if preview == "Processing\u{2026}"@ {
        "Processing\u{2026}"@
    } else if preview.len() == 0 {
        "Listening\u{2026}"@
    } else {
        preview
    }
}

/// The longest prefix of `s` whose UTF-8 encoding takes at most `n` bytes.
pub open spec fn take_bytes(s: Seq<char>, n: int) -> Seq<char>
    decreases s.len(),
{
    if s.len() == 0 || char_utf8_len(s[0]) > n {
        Seq::empty()
    } else {
        seq![s[0]] + take_bytes(s.drop_first(), n - char_utf8_len(s[0]))
    }
}

/// The status line as drawn: texts longer than 22 bytes are cut to their
/// first 19 bytes followed by "...".
pub open spec fn display_text(preview: Seq<char>) -> Seq<char> {
    let s = status_text(preview);
    if utf8_len(s) > 22 {
        take_bytes(s, 19) + "..."@
    } else {
        s
    }
}

/// Whether the cut after 19 bytes of a long preview falls between two
/// characters.
pub open spec fn preview_cuttable(preview: Seq<char>) -> bool {
    utf8_len(preview) > 22 ==> is_byte_boundary(preview, 19)
}

/// The UTF-8 length of a prefix grows by the width of the next character.
proof fn lemma_utf8_len_prefix(s: Seq<char>, i: int)
    requires
        0 <= i < s.len(),
    ensures
        utf8_len(s.subrange(0, i + 1)) == utf8_len(s.subrange(0, i)) + char_utf8_len(s[i]),
{
    assert(s.subrange(0, i + 1).drop_last() =~= s.subrange(0, i));
}

/// A prefix takes no more bytes than the whole.
proof fn lemma_utf8_len_mono(s: Seq<char>, i: int)
    requires
        0 <= i <= s.len(),
    ensures
        utf8_len(s.subrange(0, i)) <= utf8_len(s),
    decreases s.len() - i,
{
    if i < s.len() {
        lemma_utf8_len_prefix(s, i);
        lemma_utf8_len_mono(s, i + 1);
    } else {
        assert(s.subrange(0, i) =~= s);
    }
}

/// The status line that the overlay draws for a preview text.
pub fn status_label(preview_text: &str) -> (label: String)
    requires
        preview_cuttable(preview_text@),
    ensures
        label@ == display_text(preview_text@),
{
    let p = chars_of(preview_text);
    let s: Vec<char> = if eq_lit(&p, "Processing\u{2026}") {
        chars_of("Processing\u{2026}")
    } else if p.len() == 0 {
        chars_of("Listening\u{2026}")
    } else {
        p
    };
    assert(s@ == status_text(preview_text@));
    // byte length of the status text
    let mut total: usize = 0;
    let mut i: usize = 0;
    assert(s@.subrange(0, 0) =~= Seq::<char>::empty());
    while i < s.len() && total <= 22
        invariant
            i <= s@.len(),
            total == utf8_len(s@.subrange(0, i as int)),
            total <= 26,
        decreases s@.len() - i,
    {
        proof { lemma_utf8_len_prefix(s@, i as int); }
        total = total + utf8_width(s[i]);
        i = i + 1;
    }
    proof { lemma_utf8_len_mono(s@, i as int); }
    assert(s@.subrange(0, s@.len() as int) =~= s@);
    if total <= 22 {
        return string_of(&s);
    }
    let mut out: Vec<char> = Vec::new();
    let mut used: usize = 0;
    let mut j: usize = 0;
    assert(s@.subrange(0, 0) =~= Seq::<char>::empty());
    assert(s@.subrange(0, s@.len() as int) =~= s@);
    while j < s.len() && used + utf8_width(s[j]) <= 19
        invariant
            j <= s@.len(),
            used <= 19,
            out@ == s@.subrange(0, j as int),
            take_bytes(s@, 19) == out@ + take_bytes(s@.subrange(j as int, s@.len() as int), 19 - used),
        decreases s@.len() - j,
    {
        let w = utf8_width(s[j]);
        proof {
            let rest = s@.subrange(j as int, s@.len() as int);
            assert(rest.drop_first() =~= s@.subrange(j + 1, s@.len() as int));
            assert(rest[0] == s@[j as int]);
            assert(out@.push(s@[j as int]) =~= s@.subrange(0, j + 1));
            assert(out@ + take_bytes(rest, 19 - used) =~= out@.push(s@[j as int]) + take_bytes(rest.drop_first(), 19 - used - w));
        }
        out.push(s[j]);
        used = used + w;
        j = j + 1;
    }
    proof {
        let rest = s@.subrange(j as int, s@.len() as int);
        assert(take_bytes(rest, 19 - used) =~= Seq::<char>::empty());
        assert(out@ + Seq::<char>::empty() =~= out@);
    }
    out.push('.');
    out.push('.');
    out.push('.');
    proof {
        reveal_strlit("...");
        assert(out@ =~= take_bytes(s@, 19) + "..."@);
    }
    string_of(&out)
}

/// Where the overlay goes on a monitor whose area starts at
/// (`monitor_x`, `monitor_y`) and is `monitor_width` wide: its top right
/// corner, inset by the padding.
pub fn top_right_position(monitor_x: i32, monitor_y: i32, monitor_width: i32) -> (pos: (i32, i32))
    requires
        i32::MIN <= monitor_x + monitor_width - WINDOW_WIDTH - EDGE_PADDING <= i32::MAX,
        monitor_x + monitor_width <= i32::MAX,
        monitor_y + EDGE_PADDING <= i32::MAX,
    ensures
        pos.0 == monitor_x + monitor_width - WINDOW_WIDTH - EDGE_PADDING,
        pos.1 == monitor_y + EDGE_PADDING,
{
    (monitor_x + monitor_width - WINDOW_WIDTH - EDGE_PADDING, monitor_y + EDGE_PADDING)
}


/// Commands from the dictation loop to the visualizer.
pub enum VisualCommand {
    /// Show the overlay (listening started).
    Show,
    /// Hide the overlay (done).
    Hide,
    /// Replace the text shown under the orb.
    SetPreviewText(String),
    /// Stop the visualizer.
    Shutdown,
}

/// What the visualizer loop does after a command.
#[derive(Clone, Copy, Debug, PartialEq, Eq, Structural)]
pub enum Flow {
    Continue,
    Quit,
}

/// What the overlay shows.
pub struct Overlay {
    /// Whether the window is on screen.
    pub visible: bool,
    /// The text under the orb.
    pub preview: String,
}

impl Overlay {
    /// A hidden overlay with no text.
    pub fn new() -> (o: Self)
        ensures
            !o.visible,
            o.preview@ == Seq::<char>::empty(),
    {
        Overlay { visible: false, preview: String::new() }
    }

    /// Carries out a command: `Hide` also clears the text (and the caller
    /// drops the level to zero); `Shutdown` hides the window and ends the
    /// loop.
    pub fn handle(&mut self, cmd: VisualCommand) -> (flow: Flow)
        ensures
            match cmd {
                VisualCommand::Show => final(self).visible && final(self).preview@ == old(self).preview@
                    && flow == Flow::Continue,
                VisualCommand::Hide => !final(self).visible && final(self).preview@ == Seq::<char>::empty()
                    && flow == Flow::Continue,
                VisualCommand::SetPreviewText(t) => final(self).visible == old(self).visible
                    && final(self).preview@ == t@ && flow == Flow::Continue,
                VisualCommand::Shutdown => !final(self).visible && final(self).preview@ == old(self).preview@
                    && flow == Flow::Quit,
            },
    {
        match cmd {
            VisualCommand::Show => {
                self.visible = true;
                Flow::Continue
            },
            VisualCommand::Hide => {
                self.visible = false;
                self.preview = String::new();
                Flow::Continue
            },
            VisualCommand::SetPreviewText(t) => {
                self.preview = t;
                Flow::Continue
            },
            VisualCommand::Shutdown => {
                self.visible = false;
                Flow::Quit
            },
        }
    }
}

} // verus!
