//! The word-database front: configuration paths, language records, and the
//! request and result shapes of the external `lexurgy` rule runner. The
//! surrounding program does the file, database and process work and hands
//! plain values in and out; everything decided here is decided on those
//! values.

use vstd::prelude::*;
use vstd::string::StringExecFns;

verus! {

/// The settings file's contents, as plain values.
#[derive(Debug)]
pub struct Settings {
    pub db_file: String,
    pub db_dev_file: String,
    pub word_list_folder: String,
    pub rule_list_folder: String,
    pub dictionary_file_template: String,
    pub dictionary_template: String,
    pub auto_dump: bool,
}

/// `root` and `sub`, joined by one path separator.
pub open spec fn spec_path_join(root: Seq<char>, sub: Seq<char>) -> Seq<char> {
    root + "/"@ + sub
}

/// `root` and `sub`, joined by one path separator.
pub fn join_path(root: &String, sub: &String) -> (r: String)
    ensures
        r@ == spec_path_join(root@, sub@),
{
    let mut r = root.clone();
    r.append("/");
    r.append(sub.as_str());
    r
}

/// The program's configuration: the vault root, the settings, and the two
/// folder paths derived from them once at construction.
#[derive(Debug)]
pub struct Config {
    pub root: String,
    pub debug_mode: bool,
    pub settings: Settings,
    pub word_list_path: String,
    pub rule_list_path: String,
}

impl Config {
    /// The cached folder paths agree with the root and the settings.
    pub open spec fn wf(&self) -> bool {
        &&& self.word_list_path@ == spec_path_join(
            self.root@,
            self.settings.word_list_folder@,
        )
        &&& self.rule_list_path@ == spec_path_join(self.root@, self.settings.rule_list_folder@)
    }

    pub fn new(root: String, settings: Settings, debug_mode: bool) -> (r: Config)
        ensures
            r.root@ == root@,
            r.settings == settings,
            r.debug_mode == debug_mode,
            r.wf(),
    {
        let word_list_path = join_path(&root, &settings.word_list_folder);
        let rule_list_path = join_path(&root, &settings.rule_list_folder);
        Config { root, debug_mode, settings, word_list_path, rule_list_path }
    }

    /// The folder that word-list files are written to.
    pub fn word_list_folder(&self) -> (r: &str)
        requires
            self.wf(),
        ensures
            r@ == spec_path_join(self.root@, self.settings.word_list_folder@),
    {
        self.word_list_path.as_str()
    }

    /// The folder that sound-change rule files are read from.
    pub fn rule_list_folder(&self) -> (r: &str)
        requires
            self.wf(),
        ensures
            r@ == spec_path_join(self.root@, self.settings.rule_list_folder@),
    {
        self.rule_list_path.as_str()
    }
}

/// One language's database record.
#[derive(Debug)]
pub struct LangEntry {
    pub id: String,
    pub name: String,
    pub origin: Option<String>,
    pub rule: String,
}

/// What shape of words a `lexurgy` run takes in.
#[derive(Clone, Copy, Debug, PartialEq, Eq, Structural)]
pub enum LexurgyInput {
    Romanized,
    Phonetic,
}

/// What shape of words a `lexurgy` run hands back.
#[derive(Clone, Copy, Debug, PartialEq, Eq, Structural)]
pub enum LexurgyOutput {
    Romanized,
    Phonetic,
    Both,
}

/// A word asked for in a shape the output does not have.
#[derive(Clone, Copy, Debug, PartialEq, Eq, Structural)]
pub enum OutputError {
    /// Two values where a single one was expected.
    ExpectedSingle,
    /// A phonetic value where a romanized one was expected.
    ExpectedRomanized,
    /// A romanized value where a phonetic one was expected.
    ExpectedPhonetic,
    /// A single value where both shapes were expected.
    ExpectedBoth,
}

/// One word as it came back from a `lexurgy` run: phonetic, romanized, or
/// both.
#[derive(Debug)]
pub enum WordOutput {
    Phon(String),
    Rom(String),
    PhonRom(String, String),
}

impl WordOutput {
    /// The single value, of whichever shape; an output holding both shapes
    /// has no single value.
    pub fn get_value_ref(&self) -> (r: Result<&str, OutputError>)
        ensures
            *self matches WordOutput::Phon(x) ==> (r matches Ok(v) && v@ == x@),
            *self matches WordOutput::Rom(x) ==> (r matches Ok(v) && v@ == x@),
            *self matches WordOutput::PhonRom(_, _) ==> (r matches Err(e) && e == OutputError::ExpectedSingle),
    {
        match self {
            WordOutput::Phon(x) => Ok(x.as_str()),
            WordOutput::Rom(x) => Ok(x.as_str()),
            WordOutput::PhonRom(_, _) => Err(OutputError::ExpectedSingle),
        }
    }

    /// The romanized value, if the output has one.
    pub fn get_rom_ref(&self) -> (r: Result<&str, OutputError>)
        ensures
            *self matches WordOutput::Phon(_) ==> (r matches Err(e) && e == OutputError::ExpectedRomanized),
            *self matches WordOutput::Rom(x) ==> (r matches Ok(v) && v@ == x@),
            *self matches WordOutput::PhonRom(_, x) ==> (r matches Ok(v) && v@ == x@),
    {
        match self {
            WordOutput::Phon(_) => Err(OutputError::ExpectedRomanized),
            WordOutput::Rom(x) => Ok(x.as_str()),
            WordOutput::PhonRom(_, x) => Ok(x.as_str()),
        }
    }

    /// The phonetic value, if the output has one.
    pub fn get_phon_ref(&self) -> (r: Result<&str, OutputError>)
        ensures
            *self matches WordOutput::Phon(x) ==> (r matches Ok(v) && v@ == x@),
            *self matches WordOutput::Rom(_) ==> (r matches Err(e) && e == OutputError::ExpectedPhonetic),
            *self matches WordOutput::PhonRom(x, _) ==> (r matches Ok(v) && v@ == x@),
    {
        match self {
            WordOutput::Phon(x) => Ok(x.as_str()),
            WordOutput::Rom(_) => Err(OutputError::ExpectedPhonetic),
            WordOutput::PhonRom(x, _) => Ok(x.as_str()),
        }
    }

    /// Both shapes, if the output has both.
    pub fn get_phon_rom_ref(&self) -> (r: Result<(&str, &str), OutputError>)
        ensures
            *self matches WordOutput::PhonRom(p, q) ==> (r matches Ok(v) && v.0@ == p@ && v.1@ == q@),
            !(*self matches WordOutput::PhonRom(_, _)) ==> (r matches Err(e) && e == OutputError::ExpectedBoth),
    {
        match self {
            WordOutput::PhonRom(p, q) => Ok((p.as_str(), q.as_str())),
            _ => Err(OutputError::ExpectedBoth),
        }
    }

    /// The single value, of whichever shape; an output holding both shapes
    /// has no single value.
    pub fn get_value(self) -> (r: Result<String, OutputError>)
        ensures
            self matches WordOutput::Phon(x) ==> (r matches Ok(v) && v@ == x@),
            self matches WordOutput::Rom(x) ==> (r matches Ok(v) && v@ == x@),
            self matches WordOutput::PhonRom(_, _) ==> (r matches Err(e) && e == OutputError::ExpectedSingle),
    {
        match self {
            WordOutput::Phon(x) => Ok(x),
            WordOutput::Rom(x) => Ok(x),
            WordOutput::PhonRom(_, _) => Err(OutputError::ExpectedSingle),
        }
    }

    /// The romanized value, if the output has one.
    pub fn get_rom(self) -> (r: Result<String, OutputError>)
        ensures
            self matches WordOutput::Phon(_) ==> (r matches Err(e) && e == OutputError::ExpectedRomanized),
            self matches WordOutput::Rom(x) ==> (r matches Ok(v) && v@ == x@),
            self matches WordOutput::PhonRom(_, x) ==> (r matches Ok(v) && v@ == x@),
    {
        match self {
            WordOutput::Phon(_) => Err(OutputError::ExpectedRomanized),
            WordOutput::Rom(x) => Ok(x),
            WordOutput::PhonRom(_, x) => Ok(x),
        }
    }

    /// The phonetic value, if the output has one.
    pub fn get_phon(self) -> (r: Result<String, OutputError>)
        ensures
            self matches WordOutput::Phon(x) ==> (r matches Ok(v) && v@ == x@),
            self matches WordOutput::Rom(_) ==> (r matches Err(e) && e == OutputError::ExpectedPhonetic),
            self matches WordOutput::PhonRom(x, _) ==> (r matches Ok(v) && v@ == x@),
    {
        match self {
            WordOutput::Phon(x) => Ok(x),
            WordOutput::Rom(_) => Err(OutputError::ExpectedPhonetic),
            WordOutput::PhonRom(x, _) => Ok(x),
        }
    }

    /// Both shapes, if the output has both.
    pub fn get_phon_rom(self) -> (r: Result<(String, String), OutputError>)
        ensures
            self matches WordOutput::PhonRom(p, q) ==> (r matches Ok(v) && v.0@ == p@ && v.1@ == q@),
            !(self matches WordOutput::PhonRom(_, _)) ==> (r matches Err(e) && e == OutputError::ExpectedBoth),
    {
        match self {
            WordOutput::PhonRom(p, q) => Ok((p, q)),
            _ => Err(OutputError::ExpectedBoth),
        }
    }
}

/// One planned invocation of the external `lexurgy` rule runner.
#[derive(Debug)]
pub struct LexurgyCmd {
    pub target_lang: LangEntry,
    pub output: Option<String>,
    pub evolve: bool,
    pub input_format: LexurgyInput,
    pub output_format: LexurgyOutput,
    pub stop_before: Option<String>,
    pub start_at: Option<String>,
}

impl LexurgyCmd {
    /// An evolution run into `to`, with the given input and output shapes.
    pub fn evolve(to: LangEntry, inp: LexurgyInput, out: LexurgyOutput) -> (r: LexurgyCmd)
        ensures
            r.target_lang == to,
            r.output is None,
            r.evolve == true,
            r.input_format == inp,
            r.output_format == out,
            r.stop_before is None,
            r.start_at is None,
    {
        LexurgyCmd {
            target_lang: to,
            output: None,
            evolve: true,
            input_format: inp,
            output_format: out,
            stop_before: None,
            start_at: None,
        }
    }

    /// A pure deromanization run for `lang`: romanized words in, phonetic
    /// words out, no evolution.
    pub fn deromanize(lang: LangEntry) -> (r: LexurgyCmd)
        ensures
            r.target_lang == lang,
            r.output is None,
            r.evolve == false,
            r.input_format == LexurgyInput::Romanized,
            r.output_format == LexurgyOutput::Phonetic,
            r.stop_before is None,
            r.start_at is None,
    {
        LexurgyCmd {
            target_lang: lang,
            output: None,
            evolve: false,
            input_format: LexurgyInput::Romanized,
            output_format: LexurgyOutput::Phonetic,
            stop_before: None,
            start_at: None,
        }
    }
}

} // verus!
