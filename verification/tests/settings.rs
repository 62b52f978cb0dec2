use dictatord::settings::{
    asr_entry_of, asr_menu, audio_entry_of, audio_menu, category_labels, category_of, hotkey_entry_of, hotkey_menu,
    output_entry_of, output_menu, set_feedback, setting_pointer, starting_cursor, switch_text, thread_count_ok,
    toggle_prompt, toggled_value, typing_delay_ok, visual_entry_of, visual_menu, Category, Entry,
};
use dictatord::settings::{
    delay_changed, edit_outcome, no_change_notice, restart_notice, setting_key, text_changed, threads_changed, Edit,
};

#[test]
fn categories() {
    let labels = category_labels();
    assert_eq!(labels.len(), 7);
    assert_eq!(category_of(labels[0]), Some(Category::Audio));
    assert_eq!(category_of(labels[1]), Some(Category::Asr));
    assert_eq!(category_of(labels[2]), Some(Category::Output));
    assert_eq!(category_of(labels[3]), Some(Category::Visual));
    assert_eq!(category_of(labels[4]), Some(Category::Hotkey));
    assert_eq!(category_of(labels[5]), Some(Category::SaveAndExit));
    assert_eq!(category_of(labels[6]), Some(Category::ExitWithoutSaving));
    assert_eq!(category_of("audio"), None);
}

#[test]
fn menus_and_entries() {
    let m = audio_menu(true, "high");
    assert_eq!(m, vec!["Noise Suppression:  ON ", "Suppression Level: high", "\u{2190} Back to main menu"]);
    assert_eq!(audio_entry_of(&m[0]), Entry::NoiseSuppression);
    assert_eq!(audio_entry_of(&m[1]), Entry::SuppressionLevel);
    assert_eq!(audio_entry_of(&m[2]), Entry::Back);

    let m = asr_menu(false, "small", "4");
    assert_eq!(m, vec!["GPU Acceleration: OFF", "Model: small", "CPU Threads: 4", "\u{2190} Back to main menu"]);
    assert_eq!(asr_entry_of(&m[0]), Entry::GpuAcceleration);
    assert_eq!(asr_entry_of(&m[1]), Entry::Model);
    assert_eq!(asr_entry_of(&m[2]), Entry::CpuThreads);
    assert_eq!(asr_entry_of(&m[3]), Entry::Back);

    let m = output_menu(true, false, "5");
    assert_eq!(m, vec!["Capitalize: ON ", "Trailing Space: OFF", "Typing Delay: 5 ms", "\u{2190} Back to main menu"]);
    assert_eq!(output_entry_of(&m[0]), Entry::Capitalize);
    assert_eq!(output_entry_of(&m[1]), Entry::TrailingSpace);
    assert_eq!(output_entry_of(&m[2]), Entry::TypingDelay);
    assert_eq!(output_entry_of(&m[3]), Entry::Back);

    let m = visual_menu(true, "#00CCFF", "0.85");
    assert_eq!(m, vec!["Visualizer: ON ", "Color: #00CCFF", "Opacity: 0.85", "\u{2190} Back to main menu"]);
    assert_eq!(visual_entry_of(&m[0]), Entry::Visualizer);
    assert_eq!(visual_entry_of(&m[1]), Entry::Color);
    assert_eq!(visual_entry_of(&m[2]), Entry::Opacity);
    assert_eq!(visual_entry_of(&m[3]), Entry::Back);

    let m = hotkey_menu("Super+D", "both");
    assert_eq!(m, vec!["Key: Super+D", "Mode: both", "\u{2190} Back to main menu"]);
    assert_eq!(hotkey_entry_of(&m[0]), Entry::Key);
    assert_eq!(hotkey_entry_of(&m[1]), Entry::Mode);
    assert_eq!(hotkey_entry_of(&m[2]), Entry::Back);
}

#[test]
fn cursors() {
    let levels = ["low", "moderate", "high", "very_high"];
    assert_eq!(starting_cursor(&levels, "high", 1), 2);
    assert_eq!(starting_cursor(&levels, "loud", 1), 1);
    let models = ["tiny", "base", "small", "medium"];
    assert_eq!(starting_cursor(&models, "tiny", 2), 0);
    assert_eq!(starting_cursor(&models, "large", 2), 2);
}

#[test]
fn validators_and_texts() {
    assert!(thread_count_ok(1));
    assert!(thread_count_ok(32));
    assert!(!thread_count_ok(0));
    assert!(!thread_count_ok(33));
    assert!(typing_delay_ok(1000));
    assert!(!typing_delay_ok(1001));
    assert_eq!(switch_text(true), "ON ");
    assert_eq!(switch_text(false), "OFF");
    assert_eq!(setting_pointer("audio.noise_suppression"), "/audio/noise_suppression");
    assert_eq!(setting_pointer(""), "/");
    assert_eq!(toggle_prompt("Noise Suppression", true), "Noise Suppression (currently ON)");
    assert_eq!(toggle_prompt("Visualizer", false), "Visualizer (currently OFF)");
    assert_eq!(toggled_value(true, true), None);
    assert_eq!(toggled_value(true, false), Some("false"));
    assert_eq!(toggled_value(false, true), Some("true"));
    assert_eq!(set_feedback("asr.num_threads", "8", false), "  \u{2713} asr.num_threads = 8");
    assert_eq!(
        set_feedback("asr.model", "base", true),
        "  \u{26a0}  Setting 'asr.model' requires restart: systemctl --user restart dictatord"
    );
}

#[test]
fn edits_send_only_changes_under_the_entry_key() {
    assert!(matches!(edit_outcome(Entry::SuppressionLevel, false), Edit::NoChange));
    match edit_outcome(Entry::SuppressionLevel, true) {
        Edit::Send { key, restart_notice } => {
            assert_eq!(key, "audio.suppression_level");
            assert!(!restart_notice);
        }
        Edit::NoChange => panic!("a changed level is sent"),
    }
    match edit_outcome(Entry::Model, true) {
        Edit::Send { key, restart_notice } => {
            assert_eq!(key, "asr.model");
            assert!(restart_notice);
        }
        Edit::NoChange => panic!("a changed model is sent"),
    }
    match edit_outcome(Entry::Mode, true) {
        Edit::Send { key, restart_notice } => {
            assert_eq!(key, "hotkey.mode");
            assert!(restart_notice);
        }
        Edit::NoChange => panic!("a changed mode is sent"),
    }
    assert!(matches!(edit_outcome(Entry::Back, true), Edit::NoChange));
    assert_eq!(setting_key(Entry::TypingDelay), Some("output.typing_delay_ms"));
    assert_eq!(setting_key(Entry::Opacity), Some("visual.opacity"));
    assert_eq!(setting_key(Entry::Key), Some("hotkey.key"));
    assert_eq!(setting_key(Entry::Back), None);
}

#[test]
fn answers_are_compared_with_the_current_value() {
    assert!(!text_changed("small", "small"));
    assert!(text_changed("small", "medium"));
    assert!(!threads_changed(4, 4));
    assert!(threads_changed(4, 8));
    assert!(!delay_changed(5, 5));
    assert!(delay_changed(5, 0));
}

#[test]
fn notices_read_as_the_menu_prints_them() {
    assert_eq!(restart_notice(), "  \u{26a0}  Restart required: systemctl --user restart dictatord");
    assert_eq!(no_change_notice(), "  \u{2013} No change");
}
