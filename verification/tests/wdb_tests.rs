//! Configuration paths, the word-output shapes, and the planned `lexurgy`
//! invocations.

use lsc::text::normalize_text;
use lsc::wdb::{
    Config, LangEntry, LexurgyCmd, LexurgyInput, LexurgyOutput, OutputError, Settings,
    WordOutput,
};

fn settings() -> Settings {
    Settings {
        db_file: "words.db".to_string(),
        db_dev_file: "words-dev.db".to_string(),
        word_list_folder: "wordlists".to_string(),
        rule_list_folder: "rules".to_string(),
        dictionary_file_template: "{lang.id}.md".to_string(),
        dictionary_template: "{lang.name}".to_string(),
        auto_dump: false,
    }
}

fn lang() -> LangEntry {
    LangEntry {
        id: "onu".to_string(),
        name: "Old Onu".to_string(),
        origin: None,
        rule: "onu".to_string(),
    }
}

#[test]
fn config_joins_folders_under_root() {
    let cfg = Config::new("/vault".to_string(), settings(), false);
    assert_eq!(cfg.word_list_folder(), "/vault/wordlists");
    assert_eq!(cfg.rule_list_folder(), "/vault/rules");
    assert_eq!(cfg.root, "/vault");
    assert!(!cfg.debug_mode);
}

#[test]
fn normalize_text_trims_both_ends() {
    assert_eq!(normalize_text("  pa ta\t\n"), "pa ta");
    assert_eq!(normalize_text("word"), "word");
    assert_eq!(normalize_text("   \t"), "");
    assert_eq!(normalize_text(""), "");
}

#[test]
fn word_output_single_value() {
    assert_eq!(WordOutput::Phon("pa".to_string()).get_value().unwrap(), "pa");
    assert_eq!(WordOutput::Rom("pa".to_string()).get_value().unwrap(), "pa");
    assert_eq!(
        WordOutput::PhonRom("pa".to_string(), "ba".to_string()).get_value(),
        Err(OutputError::ExpectedSingle)
    );
    assert_eq!(WordOutput::Phon("pa".to_string()).get_value_ref().unwrap(), "pa");
    assert_eq!(
        WordOutput::PhonRom("pa".to_string(), "ba".to_string()).get_value_ref(),
        Err(OutputError::ExpectedSingle)
    );
}

#[test]
fn word_output_romanized() {
    assert_eq!(
        WordOutput::Phon("pa".to_string()).get_rom(),
        Err(OutputError::ExpectedRomanized)
    );
    assert_eq!(WordOutput::Rom("ba".to_string()).get_rom().unwrap(), "ba");
    assert_eq!(
        WordOutput::PhonRom("pa".to_string(), "ba".to_string()).get_rom().unwrap(),
        "ba"
    );
    assert_eq!(
        WordOutput::PhonRom("pa".to_string(), "ba".to_string()).get_rom_ref().unwrap(),
        "ba"
    );
}

#[test]
fn word_output_phonetic() {
    assert_eq!(WordOutput::Phon("pa".to_string()).get_phon().unwrap(), "pa");
    assert_eq!(
        WordOutput::Rom("ba".to_string()).get_phon(),
        Err(OutputError::ExpectedPhonetic)
    );
    assert_eq!(
        WordOutput::PhonRom("pa".to_string(), "ba".to_string()).get_phon().unwrap(),
        "pa"
    );
    assert_eq!(
        WordOutput::Rom("ba".to_string()).get_phon_ref(),
        Err(OutputError::ExpectedPhonetic)
    );
}

#[test]
fn word_output_both_shapes() {
    let both = WordOutput::PhonRom("pa".to_string(), "ba".to_string());
    assert_eq!(both.get_phon_rom_ref().unwrap(), ("pa", "ba"));
    assert_eq!(both.get_phon_rom().unwrap(), ("pa".to_string(), "ba".to_string()));
    assert_eq!(
        WordOutput::Phon("pa".to_string()).get_phon_rom(),
        Err(OutputError::ExpectedBoth)
    );
}

#[test]
fn evolve_command_carries_formats() {
    let cmd = LexurgyCmd::evolve(lang(), LexurgyInput::Phonetic, LexurgyOutput::Both);
    assert!(cmd.evolve);
    assert_eq!(cmd.input_format, LexurgyInput::Phonetic);
    assert_eq!(cmd.output_format, LexurgyOutput::Both);
    assert_eq!(cmd.target_lang.id, "onu");
    assert!(cmd.output.is_none());
    assert!(cmd.stop_before.is_none());
    assert!(cmd.start_at.is_none());
}

#[test]
fn deromanize_command_reads_romanized_writes_phonetic() {
    let cmd = LexurgyCmd::deromanize(lang());
    assert!(!cmd.evolve);
    assert_eq!(cmd.input_format, LexurgyInput::Romanized);
    assert_eq!(cmd.output_format, LexurgyOutput::Phonetic);
    assert!(cmd.stop_before.is_none());
    assert!(cmd.start_at.is_none());
}
