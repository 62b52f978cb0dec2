//! The decisions of the interactive settings menu: its entries, what a
//! selected entry means, where the cursor starts, which inputs are
//! accepted, and what is reported after a change.

use vstd::prelude::*;
use vstd::string::StringExecFns;
use crate::text::{chars_of, eq_lit, string_of};
use crate::config::{Applied, ConfigError, ConfigView, apply_spec};

verus! {

broadcast use vstd::string::group_string_axioms;

/// `s` + `t` as a new `String`.
fn joined(s: &str, t: &str) -> (r: String)
    ensures
        r@ == s@ + t@,
{
    let mut r = s.to_string();
    r.append(t);
    r
}

/// Whether `s` begins with `prefix`.
pub open spec fn starts_with(s: Seq<char>, prefix: Seq<char>) -> bool {
    prefix.len() <= s.len() && s.subrange(0, prefix.len() as int) == prefix
}

/// Executable `starts_with`.
fn has_prefix(s: &[char], prefix: &str) -> (b: bool)
    ensures
        b == starts_with(s@, prefix@),
{
    let p = chars_of(prefix);
    if p.len() > s.len() {
        return false;
    }
    let mut i: usize = 0;
    while i < p.len()
        invariant
            p@ == prefix@,
            p@.len() <= s@.len(),
            i <= p@.len(),
            forall|j: int| 0 <= j < i ==> s@[j] == p@[j],
        decreases p@.len() - i,
    {
        if s[i] != p[i] {
            assert(s@.subrange(0, p@.len() as int)[i as int] != p@[i as int]);
            return false;
        }
        i = i + 1;
    }
    assert(s@.subrange(0, p@.len() as int) =~= p@);
    true
}

/// "ON " or "OFF", as the menus show a switch (three characters wide).
pub open spec fn switch_label(on: bool) -> Seq<char> {
    if on { "ON "@ } else { "OFF"@ }
}

/// Executable `switch_label`.
pub fn switch_text(on: bool) -> (s: &'static str)
    ensures
        s@ == switch_label(on),
{
    if on { "ON " } else { "OFF" }
}

/// The top-level categories of the menu.
#[derive(Clone, Copy, Debug, PartialEq, Eq, Structural)]
pub enum Category {
    Audio,
    Asr,
    Output,
    Visual,
    Hotkey,
    SaveAndExit,
    ExitWithoutSaving,
}

/// The label of each category, in menu order.
pub open spec fn category_label(c: Category) -> Seq<char> {
    match c {
        Category::Audio => "Audio"@,
        Category::Asr => "Speech Recognition (ASR)"@,
        Category::Output => "Output"@,
        Category::Visual => "Visualizer"@,
        Category::Hotkey => "Hotkey"@,
        Category::SaveAndExit => "\u{26a0}  Save & Exit"@,
        Category::ExitWithoutSaving => "\u{2716}  Exit without saving"@,
    }
}

/// The category menu, in order.
pub open spec fn category_menu() -> Seq<Category> {
    seq![
        Category::Audio,
        Category::Asr,
        Category::Output,
        Category::Visual,
        Category::Hotkey,
        Category::SaveAndExit,
        Category::ExitWithoutSaving,
    ]
}

/// The labels of the category menu, in order.
pub fn category_labels() -> (labels: Vec<&'static str>)
    ensures
        labels@.len() == category_menu().len(),
        forall|i: int| 0 <= i < labels@.len() ==> (#[trigger] labels@[i])@ == category_label(category_menu()[i]),
{
    let labels = vec![
        "Audio",
        "Speech Recognition (ASR)",
        "Output",
        "Visualizer",
        "Hotkey",
        "\u{26a0}  Save & Exit",
        "\u{2716}  Exit without saving",
    ];
    labels
}

/// The category whose label was selected.
pub open spec fn category_named(label: Seq<char>) -> Option<Category> {
    if label == "Audio"@ {
        Some(Category::Audio)
    } else if label == "Speech Recognition (ASR)"@ {
        Some(Category::Asr)
    } else if label == "Output"@ {
        Some(Category::Output)
    } else if label == "Visualizer"@ {
        Some(Category::Visual)
    } else if label == "Hotkey"@ {
        Some(Category::Hotkey)
    } else if label == "\u{26a0}  Save & Exit"@ {
        Some(Category::SaveAndExit)
    } else if label == "\u{2716}  Exit without saving"@ {
        Some(Category::ExitWithoutSaving)
    } else {
        None
    }
}

/// The category whose label was selected (`None` for any other text).
pub fn category_of(label: &str) -> (c: Option<Category>)
    ensures
        c == category_named(label@),
{
    let l = chars_of(label);
    if eq_lit(&l, "Audio") {
        Some(Category::Audio)
    } else if eq_lit(&l, "Speech Recognition (ASR)") {
        Some(Category::Asr)
    } else if eq_lit(&l, "Output") {
        Some(Category::Output)
    } else if eq_lit(&l, "Visualizer") {
        Some(Category::Visual)
    } else if eq_lit(&l, "Hotkey") {
        Some(Category::Hotkey)
    } else if eq_lit(&l, "\u{26a0}  Save & Exit") {
        Some(Category::SaveAndExit)
    } else if eq_lit(&l, "\u{2716}  Exit without saving") {
        Some(Category::ExitWithoutSaving)
    } else {
        None
    }
}

/// The entry that leaves a category menu.
pub open spec fn back_label() -> Seq<char> {
    "\u{2190} Back to main menu"@
}

/// The entries of the settings menus.
#[derive(Clone, Copy, Debug, PartialEq, Eq, Structural)]
pub enum Entry {
    NoiseSuppression,
    SuppressionLevel,
    GpuAcceleration,
    Model,
    CpuThreads,
    Capitalize,
    TrailingSpace,
    TypingDelay,
    Visualizer,
    Color,
    Opacity,
    Key,
    Mode,
    Back,
}

/// The audio menu for the current switch and level.
pub fn audio_menu(noise_suppression: bool, level: &str) -> (m: Vec<String>)
    ensures
        m@.len() == 3,
        m@[0]@ == "Noise Suppression:  "@ + switch_label(noise_suppression),
        m@[1]@ == "Suppression Level: "@ + level@,
        m@[2]@ == back_label(),
{
    let mut m: Vec<String> = Vec::new();
    m.push(joined("Noise Suppression:  ", switch_text(noise_suppression)));
    m.push(joined("Suppression Level: ", level));
    m.push("\u{2190} Back to main menu".to_string());
    m
}

/// What a selected audio menu entry is.
pub open spec fn audio_entry(sel: Seq<char>) -> Entry {
    if starts_with(sel, "Noise Suppression"@) {
        Entry::NoiseSuppression
    } else if starts_with(sel, "Suppression Level"@) {
        Entry::SuppressionLevel
    } else {
        Entry::Back
    }
}

/// Executable `audio_entry`.
pub fn audio_entry_of(sel: &str) -> (e: Entry)
    ensures
        e == audio_entry(sel@),
{
    let s = chars_of(sel);
    if has_prefix(&s, "Noise Suppression") {
        Entry::NoiseSuppression
    } else if has_prefix(&s, "Suppression Level") {
        Entry::SuppressionLevel
    } else {
        Entry::Back
    }
}

/// The speech recognition menu for the current settings; the thread
/// count is given as its decimal text.
pub fn asr_menu(gpu_offload: bool, model: &str, threads: &str) -> (m: Vec<String>)
    ensures
        m@.len() == 4,
        m@[0]@ == "GPU Acceleration: "@ + switch_label(gpu_offload),
        m@[1]@ == "Model: "@ + model@,
        m@[2]@ == "CPU Threads: "@ + threads@,
        m@[3]@ == back_label(),
{
    let mut m: Vec<String> = Vec::new();
    m.push(joined("GPU Acceleration: ", switch_text(gpu_offload)));
    m.push(joined("Model: ", model));
    m.push(joined("CPU Threads: ", threads));
    m.push("\u{2190} Back to main menu".to_string());
    m
}

/// What a selected speech recognition menu entry is.
pub open spec fn asr_entry(sel: Seq<char>) -> Entry {
    if starts_with(sel, "GPU Acceleration"@) {
        Entry::GpuAcceleration
    } else if starts_with(sel, "Model"@) {
        Entry::Model
    } else if starts_with(sel, "CPU Threads"@) {
        Entry::CpuThreads
    } else {
        Entry::Back
    }
}

/// Executable `asr_entry`.
pub fn asr_entry_of(sel: &str) -> (e: Entry)
    ensures
        e == asr_entry(sel@),
{
    let s = chars_of(sel);
    if has_prefix(&s, "GPU Acceleration") {
        Entry::GpuAcceleration
    } else if has_prefix(&s, "Model") {
        Entry::Model
    } else if has_prefix(&s, "CPU Threads") {
        Entry::CpuThreads
    } else {
        Entry::Back
    }
}

/// The output menu for the current settings; the delay is given as its
/// decimal text.
pub fn output_menu(capitalize: bool, trailing_space: bool, delay: &str) -> (m: Vec<String>)
    ensures
        m@.len() == 4,
        m@[0]@ == "Capitalize: "@ + switch_label(capitalize),
        m@[1]@ == "Trailing Space: "@ + switch_label(trailing_space),
        m@[2]@ == "Typing Delay: "@ + delay@ + " ms"@,
        m@[3]@ == back_label(),
{
    let mut m: Vec<String> = Vec::new();
    m.push(joined("Capitalize: ", switch_text(capitalize)));
    m.push(joined("Trailing Space: ", switch_text(trailing_space)));
    let mut d = joined("Typing Delay: ", delay);
    d.append(" ms");
    m.push(d);
    m.push("\u{2190} Back to main menu".to_string());
    m
}

/// What a selected output menu entry is.
pub open spec fn output_entry(sel: Seq<char>) -> Entry {
    if starts_with(sel, "Capitalize"@) {
        Entry::Capitalize
    } else if starts_with(sel, "Trailing Space"@) {
        Entry::TrailingSpace
    } else if starts_with(sel, "Typing Delay"@) {
        Entry::TypingDelay
    } else {
        Entry::Back
    }
}

/// Executable `output_entry`.
pub fn output_entry_of(sel: &str) -> (e: Entry)
    ensures
        e == output_entry(sel@),
{
    let s = chars_of(sel);
    if has_prefix(&s, "Capitalize") {
        Entry::Capitalize
    } else if has_prefix(&s, "Trailing Space") {
        Entry::TrailingSpace
    } else if has_prefix(&s, "Typing Delay") {
        Entry::TypingDelay
    } else {
        Entry::Back
    }
}

/// The visualizer menu for the current settings; the opacity is given as
/// its text with two decimals.
pub fn visual_menu(enabled: bool, color: &str, opacity: &str) -> (m: Vec<String>)
    ensures
        m@.len() == 4,
        m@[0]@ == "Visualizer: "@ + switch_label(enabled),
        m@[1]@ == "Color: "@ + color@,
        m@[2]@ == "Opacity: "@ + opacity@,
        m@[3]@ == back_label(),
{
    let mut m: Vec<String> = Vec::new();
    m.push(joined("Visualizer: ", switch_text(enabled)));
    m.push(joined("Color: ", color));
    m.push(joined("Opacity: ", opacity));
    m.push("\u{2190} Back to main menu".to_string());
    m
}

/// What a selected visualizer menu entry is.
pub open spec fn visual_entry(sel: Seq<char>) -> Entry {
    if starts_with(sel, "Visualizer:"@) {
        Entry::Visualizer
    } else if starts_with(sel, "Color"@) {
        Entry::Color
    } else if starts_with(sel, "Opacity"@) {
        Entry::Opacity
    } else {
        Entry::Back
    }
}

/// Executable `visual_entry`.
pub fn visual_entry_of(sel: &str) -> (e: Entry)
    ensures
        e == visual_entry(sel@),
{
    let s = chars_of(sel);
    if has_prefix(&s, "Visualizer:") {
        Entry::Visualizer
    } else if has_prefix(&s, "Color") {
        Entry::Color
    } else if has_prefix(&s, "Opacity") {
        Entry::Opacity
    } else {
        Entry::Back
    }
}

/// The hotkey menu for the current settings.
pub fn hotkey_menu(key: &str, mode: &str) -> (m: Vec<String>)
    ensures
        m@.len() == 3,
        m@[0]@ == "Key: "@ + key@,
        m@[1]@ == "Mode: "@ + mode@,
        m@[2]@ == back_label(),
{
    let mut m: Vec<String> = Vec::new();
    m.push(joined("Key: ", key));
    m.push(joined("Mode: ", mode));
    m.push("\u{2190} Back to main menu".to_string());
    m
}

/// What a selected hotkey menu entry is.
pub open spec fn hotkey_entry(sel: Seq<char>) -> Entry {
    if starts_with(sel, "Key"@) {
        Entry::Key
    } else if starts_with(sel, "Mode"@) {
        Entry::Mode
    } else {
        Entry::Back
    }
}

/// Executable `hotkey_entry`.
pub fn hotkey_entry_of(sel: &str) -> (e: Entry)
    ensures
        e == hotkey_entry(sel@),
{
    let s = chars_of(sel);
    if has_prefix(&s, "Key") {
        Entry::Key
    } else if has_prefix(&s, "Mode") {
        Entry::Mode
    } else {
        Entry::Back
    }
}

/// Where the cursor starts in `options`: on the first option equal to
/// `current`, else on `fallback`.
pub fn starting_cursor(options: &[&str], current: &str, fallback: usize) -> (pos: usize)
    ensures
        ({
            let opts = options@.map_values(|o: &str| o@);
            &&& (exists|i: int| 0 <= i < opts.len() && opts[i] == current@) ==> {
                &&& pos < opts.len()
                &&& opts[pos as int] == current@
                &&& forall|j: int| 0 <= j < pos ==> opts[j] != current@
            }
            &&& !(exists|i: int| 0 <= i < opts.len() && opts[i] == current@) ==> pos == fallback
        }),
{
    let ghost opts = options@.map_values(|o: &str| o@);
    let cur = chars_of(current);
    let mut i: usize = 0;
    while i < options.len()
        invariant
            opts == options@.map_values(|o: &str| o@),
            cur@ == current@,
            i <= options@.len(),
            forall|j: int| 0 <= j < i ==> opts[j] != current@,
        decreases options@.len() - i,
    {
        if eq_lit(&cur, options[i]) {
            assert(opts[i as int] == options@[i as int]@);
            return i;
        }
        assert(opts[i as int] == options@[i as int]@);
        i = i + 1;
    }
    fallback
}

/// The thread counts the menu accepts: 1 to 32.
pub fn thread_count_ok(v: i32) -> (ok: bool)
    ensures
        ok == (1 <= v && v <= 32),
{
    1 <= v && v <= 32
}

/// The typing delays the menu accepts: at most 1000 ms.
pub fn typing_delay_ok(v: u64) -> (ok: bool)
    ensures
        ok == (v <= 1000),
{
    v <= 1000
}

/// The JSON pointer of a dotted setting key: "/" and the key with every
/// "." turned into "/".
pub open spec fn pointer_of(key: Seq<char>) -> Seq<char> {
    seq!['/'] + key.map_values(|c: char| if c == '.' { '/' } else { c })
}

/// The JSON pointer of a dotted setting key.
pub fn setting_pointer(key: &str) -> (p: String)
    ensures
        p@ == pointer_of(key@),
{
    let k = chars_of(key);
    let mut out: Vec<char> = Vec::new();
    out.push('/');
    let mut i: usize = 0;
    while i < k.len()
        invariant
            k@ == key@,
            i <= k@.len(),
            out@ == seq!['/'] + k@.subrange(0, i as int).map_values(|c: char| if c == '.' { '/' } else { c }),
        decreases k@.len() - i,
    {
        out.push(if k[i] == '.' { '/' } else { k[i] });
        i = i + 1;
        assert(out@ =~= seq!['/'] + k@.subrange(0, i as int).map_values(|c: char| if c == '.' { '/' } else { c }));
    }
    assert(k@.subrange(0, k@.len() as int) =~= k@);
    string_of(&out)
}

/// The question that offers to flip a switch.
pub open spec fn toggle_question(label: Seq<char>, current: bool) -> Seq<char> {
    label + " (currently "@ + (if current { "ON"@ } else { "OFF"@ }) + ")"@
}

/// The question that offers to flip a switch.
pub fn toggle_prompt(label: &str, current: bool) -> (q: String)
    ensures
        q@ == toggle_question(label@, current),
{
    let mut q = joined(label, " (currently ");
    q.append(if current { "ON" } else { "OFF" });
    q.append(")");
    q
}

/// The value sent for a switch that was answered: `None` when the answer
/// keeps the current state, else "true" or "false".
pub open spec fn toggle_value(current: bool, answer: bool) -> Option<Seq<char>> {
    if answer == current {
        None
    } else if answer {
        Some("true"@)
    } else {
        Some("false"@)
    }
}

/// The value to send for a switch that was answered, if it changed.
pub fn toggled_value(current: bool, answer: bool) -> (v: Option<&'static str>)
    ensures
        match v {
            Some(t) => toggle_value(current, answer) == Some(t@),
            None => toggle_value(current, answer) is None,
        },
{
    if answer == current {
        None
    } else if answer {
        Some("true")
    } else {
        Some("false")
    }
}

/// The line shown after the daemon accepted `key` = `value`.
pub open spec fn set_report(key: Seq<char>, value: Seq<char>, restart_required: bool) -> Seq<char> {
    if restart_required {
        "  \u{26a0}  Setting '"@ + key + "' requires restart: systemctl --user restart dictatord"@
    } else {
        "  \u{2713} "@ + key + " = "@ + value
    }
}

/// The line shown after the daemon accepted `key` = `value`.
pub fn set_feedback(key: &str, value: &str, restart_required: bool) -> (line: String)
    ensures
        line@ == set_report(key@, value@, restart_required),
{
    if restart_required {
        let mut line = joined("  \u{26a0}  Setting '", key);
        line.append("' requires restart: systemctl --user restart dictatord");
        line
    } else {
        let mut line = joined("  \u{2713} ", key);
        line.append(" = ");
        line.append(value);
        line
    }
}

/// The setting key that an entry edits; `Back` edits none.
pub open spec fn entry_key(e: Entry) -> Option<Seq<char>> {
    match e {
        Entry::NoiseSuppression => Some("audio.noise_suppression"@),
        Entry::SuppressionLevel => Some("audio.suppression_level"@),
        Entry::GpuAcceleration => Some("asr.gpu_offload"@),
        Entry::Model => Some("asr.model"@),
        Entry::CpuThreads => Some("asr.num_threads"@),
        Entry::Capitalize => Some("output.capitalize"@),
        Entry::TrailingSpace => Some("output.add_trailing_space"@),
        Entry::TypingDelay => Some("output.typing_delay_ms"@),
        Entry::Visualizer => Some("visual.enabled"@),
        Entry::Color => Some("visual.color_hex"@),
        Entry::Opacity => Some("visual.opacity"@),
        Entry::Key => Some("hotkey.key"@),
        Entry::Mode => Some("hotkey.mode"@),
        Entry::Back => None,
    }
}

/// The setting key that an entry edits.
pub fn setting_key(e: Entry) -> (k: Option<&'static str>)
    ensures
        match k {
            Some(t) => entry_key(e) == Some(t@),
            None => entry_key(e) is None,
        },
{
    match e {
        Entry::NoiseSuppression => Some("audio.noise_suppression"),
        Entry::SuppressionLevel => Some("audio.suppression_level"),
        Entry::GpuAcceleration => Some("asr.gpu_offload"),
        Entry::Model => Some("asr.model"),
        Entry::CpuThreads => Some("asr.num_threads"),
        Entry::Capitalize => Some("output.capitalize"),
        Entry::TrailingSpace => Some("output.add_trailing_space"),
        Entry::TypingDelay => Some("output.typing_delay_ms"),
        Entry::Visualizer => Some("visual.enabled"),
        Entry::Color => Some("visual.color_hex"),
        Entry::Opacity => Some("visual.opacity"),
        Entry::Key => Some("hotkey.key"),
        Entry::Mode => Some("hotkey.mode"),
        Entry::Back => None,
    }
}

/// The entries whose change the menu announces as needing a restart: the
/// model, the hotkey and its mode.
pub open spec fn announces_restart(e: Entry) -> bool {
    e == Entry::Model || e == Entry::Key || e == Entry::Mode
}

/// What the menu does with an answer to an entry's prompt.
pub enum Edit {
    /// Nothing is sent ("No change").
    NoChange,
    /// The new value is sent under `key`; then, when `restart_notice`, the
    /// restart notice is shown.
    Send { key: &'static str, restart_notice: bool },
}

/// `Edit` with its key as a value.
pub enum EditView {
    NoChange,
    Send { key: Seq<char>, restart_notice: bool },
}

impl View for Edit {
    type V = EditView;

    open spec fn view(&self) -> EditView {
        match self {
            Edit::NoChange => EditView::NoChange,
            Edit::Send { key, restart_notice } => EditView::Send { key: key@, restart_notice: *restart_notice },
        }
    }
}

/// The edit for an answer to the prompt of `e`: a setting is sent only when
/// the answer differs from the current value, under the entry's key.
pub open spec fn edit_spec(e: Entry, changed: bool) -> EditView {
    match entry_key(e) {
        Some(key) => if changed {
            EditView::Send { key, restart_notice: announces_restart(e) }
        } else {
            EditView::NoChange
        },
        None => EditView::NoChange,
    }
}

/// What to do with an answer to the prompt of `e`, given whether it
/// differs from the current value.
pub fn edit_outcome(e: Entry, changed: bool) -> (r: Edit)
    ensures
        r@ == edit_spec(e, changed),
{
    match setting_key(e) {
        Some(key) => if changed {
            Edit::Send { key, restart_notice: e == Entry::Model || e == Entry::Key || e == Entry::Mode }
        } else {
            Edit::NoChange
        },
        None => Edit::NoChange,
    }
}

/// Whether a text answer differs from the current text.
pub fn text_changed(current: &str, chosen: &str) -> (b: bool)
    ensures
        b == (current@ != chosen@),
{
    let c = chars_of(chosen);
    !eq_lit(&c, current)
}

/// Whether a thread count answer differs from the current count, compared
/// as 32-bit integers.
pub fn threads_changed(current: i64, chosen: i32) -> (b: bool)
    ensures
        b == (chosen != current as i32),
{
    chosen != current as i32
}

/// Whether a typing delay answer differs from the current delay, compared
/// as unsigned 64-bit integers.
pub fn delay_changed(current: i64, chosen: u64) -> (b: bool)
    ensures
        b == (chosen != current as u64),
{
    chosen != current as u64
}

/// The line shown after an edit that needs a restart.
pub fn restart_notice() -> (s: &'static str)
    ensures
        s@ == "  \u{26a0}  Restart required: systemctl --user restart dictatord"@,
{
    "  \u{26a0}  Restart required: systemctl --user restart dictatord"
}

/// The line shown when an answer changes nothing.
pub fn no_change_notice() -> (s: &'static str)
    ensures
        s@ == "  \u{2013} No change"@,
{
    "  \u{2013} No change"
}

/// An answer equal to the current value sends nothing; a different one is
/// sent under the entry's own key, with the restart notice exactly for the
/// model, the hotkey and its mode.
pub proof fn lemma_send_only_changes(e: Entry, changed: bool)
    ensures
        !changed ==> edit_spec(e, changed) == EditView::NoChange,
        changed && e != Entry::Back ==> (edit_spec(e, changed) matches EditView::Send { key, restart_notice }
            && entry_key(e) == Some(key) && restart_notice == announces_restart(e)),
{
}

/// Every entry of the menus but `Back` edits a setting that the daemon
/// knows: sending any value under its key is never refused as an unknown
/// key, and the switch entries' keys take the answers "true" and "false".
pub proof fn lemma_entry_keys_are_settings(c: ConfigView, e: Entry, value: Seq<char>)
    ensures
        e != Entry::Back ==> entry_key(e) is Some,
        e != Entry::Back ==> apply_spec(c, entry_key(e)->0, value).1 != Err::<Applied, ConfigError>(ConfigError::UnknownKey),
        (e == Entry::NoiseSuppression || e == Entry::GpuAcceleration || e == Entry::Capitalize
            || e == Entry::TrailingSpace || e == Entry::Visualizer) ==> {
            &&& apply_spec(c, entry_key(e)->0, "true"@).1 == Ok::<Applied, ConfigError>(Applied::Stored)
            &&& apply_spec(c, entry_key(e)->0, "false"@).1 == Ok::<Applied, ConfigError>(Applied::Stored)
        },
{
    crate::config::lemma_key_spelling();
    crate::config::lemma_bool_words(value);
}

} // verus!
