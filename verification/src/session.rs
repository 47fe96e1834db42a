//! Session-level choices: the interface language and the kinds of question
//! the installer asks.

use vstd::prelude::*;
use crate::text::{chars_eq, chars_of};

verus! {

/// The language of user-visible strings.
#[derive(Clone, Copy, Debug, PartialEq, Eq, Structural)]
pub enum Lang {
    Zh,
    En,
}

/// The process's language setting.
#[derive(Clone, Copy, Debug, PartialEq, Eq, Structural)]
pub struct LangSetting {
    pub lang: Lang,
}

impl LangSetting {
    /// The setting at startup: Chinese.
    pub fn new() -> (r: LangSetting)
        ensures
            r.lang == Lang::Zh,
    {
        LangSetting { lang: Lang::Zh }
    }
}

/// The language in effect.
pub fn current(setting: &LangSetting) -> (r: Lang)
    ensures
        r == setting.lang,
{
    setting.lang
}

/// Switches the language.
pub fn set(setting: &mut LangSetting, lang: Lang)
    ensures
        final(setting).lang == lang,
{
    setting.lang = lang;
}

/// The language of a Windows UI language id: Chinese when its primary
/// language is Chinese (`0x04`), else English.
pub open spec fn system_lang(ui_language: u16) -> Lang {
    if ui_language % 1024 == 4 {
        Lang::Zh
    } else {
        Lang::En
    }
}

/// Picks the language from the system's UI language, once at startup.
pub fn init_from_system(setting: &mut LangSetting, ui_language: u16)
    ensures
        final(setting).lang == system_lang(ui_language),
{
    let is_zh = ui_language % 1024 == 4;
    set(setting, if is_zh { Lang::Zh } else { Lang::En });
}

/// The language a config value asks for: `zh`, `en`, or anything else for
/// the system's language.
pub open spec fn config_lang(v: Seq<char>, ui_language: u16) -> Lang {
    if v == seq!['z', 'h'] {
        Lang::Zh
    } else if v == seq!['e', 'n'] {
        Lang::En
    } else {
        system_lang(ui_language)
    }
}

/// Sets the language from a config value; `ui_language` is the system's UI
/// language, used for `auto` and unknown values.
pub fn set_from_config(setting: &mut LangSetting, v: &str, ui_language: u16)
    ensures
        final(setting).lang == config_lang(v@, ui_language),
{
    proof {
        reveal_strlit("zh");
        reveal_strlit("en");
        assert("zh"@ =~= seq!['z', 'h']);
        assert("en"@ =~= seq!['e', 'n']);
    }
    let cs = chars_of(v);
    if chars_eq(&cs, &chars_of("zh")) {
        set(setting, Lang::Zh);
    } else if chars_eq(&cs, &chars_of("en")) {
        set(setting, Lang::En);
    } else {
        init_from_system(setting, ui_language);
    }
}

/// The string of the language in effect.
pub fn tr<'a>(setting: &LangSetting, zh: &'a str, en: &'a str) -> (r: &'a str)
    ensures
        r == (if setting.lang == Lang::Zh { zh } else { en }),
{
    match setting.lang {
        Lang::Zh => zh,
        Lang::En => en,
    }
}

/// The questions the installer may put to the user.
#[derive(Clone, Copy, Debug, PartialEq, Eq, Structural)]
pub enum PromptKind {
    ProcessRunning,
    OccupiedFiles,
    VersionMismatch,
}

impl PromptKind {
    pub fn as_str(self) -> (r: &'static str)
        ensures
            r@ == prompt_kind_name(self),
    {
        match self {
            PromptKind::ProcessRunning => "process_running",
            PromptKind::OccupiedFiles => "occupied_files",
            PromptKind::VersionMismatch => "version_mismatch",
        }
    }
}

pub open spec fn prompt_kind_name(k: PromptKind) -> Seq<char> {
    match k {
        PromptKind::ProcessRunning => "process_running"@,
        PromptKind::OccupiedFiles => "occupied_files"@,
        PromptKind::VersionMismatch => "version_mismatch"@,
    }
}

} // verus!
