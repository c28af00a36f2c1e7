//! Languages and formality, as the translation service names them.

use vstd::prelude::*;
use crate::text::{chars_of, string_of};

verus! {

/// A language that the translation service knows.
#[derive(Clone, Copy, Debug, PartialEq, Eq, Structural)]
pub enum Language {
    /// Arabic.
    Ar,
    /// Bulgarian.
    Bg,
    /// Czech.
    Cs,
    /// Danish.
    Da,
    /// German.
    De,
    /// Greek.
    El,
    /// English, variant not given.
    En,
    /// English, British.
    EnGb,
    /// English, American.
    EnUs,
    /// Spanish.
    Es,
    /// Estonian.
    Et,
    /// Finnish.
    Fi,
    /// French.
    Fr,
    /// Hungarian.
    Hu,
    /// Indonesian.
    Id,
    /// Italian.
    It,
    /// Japanese.
    Ja,
    /// Korean.
    Ko,
    /// Lithuanian.
    Lt,
    /// Latvian.
    Lv,
    /// Norwegian Bokmål.
    Nb,
    /// Dutch.
    Nl,
    /// Polish.
    Pl,
    /// Portuguese, variant not given.
    Pt,
    /// Portuguese, Brazilian.
    PtBr,
    /// Portuguese, European.
    PtPt,
    /// Romanian.
    Ro,
    /// Russian.
    Ru,
    /// Slovak.
    Sk,
    /// Slovenian.
    Sl,
    /// Swedish.
    Sv,
    /// Turkish.
    Tr,
    /// Ukrainian.
    Uk,
    /// Chinese, variant not given.
    Zh,
    /// Chinese, simplified.
    ZhHans,
    /// Chinese, traditional.
    ZhHant,
}

/// Why a name was not understood.
#[derive(Clone, Copy, Debug, PartialEq, Eq, Structural)]
pub enum NameError {
    /// The name is none of the known ones.
    InvalidInput,
}

/// The lower-case form of an ASCII capital letter, and any other character
/// as it is.
pub open spec fn lower_char(c: char) -> char {
    if 65 <= c as u32 <= 90 {
        ((c as u32 + 32) as u8) as char
    } else {
        c
    }
}

/// A text with its ASCII capital letters in lower case.
pub open spec fn lower_text(text: Seq<char>) -> Seq<char> {
    Seq::new(text.len(), |i: int| lower_char(text[i]))
}

/// A text with its ASCII capital letters in lower case.
pub fn ascii_lowercase(text: &str) -> (lower: String)
    ensures
        lower@ == lower_text(text@),
{
    let chars = chars_of(text);
    let mut lower: Vec<char> = Vec::new();
    let mut i: usize = 0;
    while i < chars.len()
        invariant
            i <= chars.len(),
            chars@ == text@,
            lower@ == lower_text(text@.take(i as int)),
        decreases chars.len() - i,
    {
        let c = chars[i];
        let code: u32 = c as u32;
        let low = if 65 <= code && code <= 90 {
            ((code + 32) as u8) as char
        } else {
            c
        };
        lower.push(low);
        assert(lower@ =~= lower_text(text@.take(i + 1)));
        i += 1;
    }
    assert(text@.take(i as int) =~= text@);
    string_of(&lower)
}

impl Language {
    /// The code under which the service takes this language as the target
    /// of a translation. A language whose variant is not given stands for
    /// American English, Brazilian Portuguese, simplified Chinese.
    pub open spec fn target_code(self) -> Seq<char> {
        match self {
            Language::Ar => "ar"@,
            Language::Bg => "bg"@,
            Language::Cs => "cs"@,
            Language::Da => "da"@,
            Language::De => "de"@,
            Language::El => "el"@,
            Language::En => "en-us"@,
            Language::EnGb => "en-gb"@,
            Language::EnUs => "en-us"@,
            Language::Es => "es"@,
            Language::Et => "et"@,
            Language::Fi => "fi"@,
            Language::Fr => "fr"@,
            Language::Hu => "hu"@,
            Language::Id => "id"@,
            Language::It => "it"@,
            Language::Ja => "ja"@,
            Language::Ko => "ko"@,
            Language::Lt => "lt"@,
            Language::Lv => "lv"@,
            Language::Nb => "nb"@,
            Language::Nl => "nl"@,
            Language::Pl => "pl"@,
            Language::Pt => "pt-br"@,
            Language::PtBr => "pt-br"@,
            Language::PtPt => "pt-pt"@,
            Language::Ro => "ro"@,
            Language::Ru => "ru"@,
            Language::Sk => "sk"@,
            Language::Sl => "sl"@,
            Language::Sv => "sv"@,
            Language::Tr => "tr"@,
            Language::Uk => "uk"@,
            Language::Zh => "zh-hans"@,
            Language::ZhHans => "zh-hans"@,
            Language::ZhHant => "zh-hant"@,
        }
    }

    /// The code under which the service takes this language as the source
    /// of a translation: without the variant.
    pub open spec fn source_code(self) -> Seq<char> {
        match self {
            Language::Ar => "ar"@,
            Language::Bg => "bg"@,
            Language::Cs => "cs"@,
            Language::Da => "da"@,
            Language::De => "de"@,
            Language::El => "el"@,
            Language::En => "en"@,
            Language::EnGb => "en"@,
            Language::EnUs => "en"@,
            Language::Es => "es"@,
            Language::Et => "et"@,
            Language::Fi => "fi"@,
            Language::Fr => "fr"@,
            Language::Hu => "hu"@,
            Language::Id => "id"@,
            Language::It => "it"@,
            Language::Ja => "ja"@,
            Language::Ko => "ko"@,
            Language::Lt => "lt"@,
            Language::Lv => "lv"@,
            Language::Nb => "nb"@,
            Language::Nl => "nl"@,
            Language::Pl => "pl"@,
            Language::Pt => "pt"@,
            Language::PtBr => "pt"@,
            Language::PtPt => "pt"@,
            Language::Ro => "ro"@,
            Language::Ru => "ru"@,
            Language::Sk => "sk"@,
            Language::Sl => "sl"@,
            Language::Sv => "sv"@,
            Language::Tr => "tr"@,
            Language::Uk => "uk"@,
            Language::Zh => "zh"@,
            Language::ZhHans => "zh"@,
            Language::ZhHant => "zh"@,
        }
    }

    /// The language that a lower-case name stands for.
    pub open spec fn named(name: Seq<char>) -> Option<Language> {
        if name == "ar"@ {
            Some(Language::Ar)
        } else if name == "bg"@ {
            Some(Language::Bg)
        } else if name == "cs"@ {
            Some(Language::Cs)
        } else if name == "da"@ {
            Some(Language::Da)
        } else if name == "de"@ {
            Some(Language::De)
        } else if name == "el"@ {
            Some(Language::El)
        } else if name == "en"@ {
            Some(Language::En)
        } else if name == "en-gb"@ {
            Some(Language::EnGb)
        } else if name == "en-us"@ {
            Some(Language::EnUs)
        } else if name == "es"@ {
            Some(Language::Es)
        } else if name == "et"@ {
            Some(Language::Et)
        } else if name == "fi"@ {
            Some(Language::Fi)
        } else if name == "fr"@ {
            Some(Language::Fr)
        } else if name == "hu"@ {
            Some(Language::Hu)
        } else if name == "id"@ {
            Some(Language::Id)
        } else if name == "it"@ {
            Some(Language::It)
        } else if name == "ja"@ {
            Some(Language::Ja)
        } else if name == "ko"@ {
            Some(Language::Ko)
        } else if name == "lt"@ {
            Some(Language::Lt)
        } else if name == "lv"@ {
            Some(Language::Lv)
        } else if name == "nb"@ {
            Some(Language::Nb)
        } else if name == "nl"@ {
            Some(Language::Nl)
        } else if name == "pl"@ {
            Some(Language::Pl)
        } else if name == "pt"@ {
            Some(Language::Pt)
        } else if name == "pt-br"@ {
            Some(Language::PtBr)
        } else if name == "pt-pt"@ {
            Some(Language::PtPt)
        } else if name == "ro"@ {
            Some(Language::Ro)
        } else if name == "ru"@ {
            Some(Language::Ru)
        } else if name == "sk"@ {
            Some(Language::Sk)
        } else if name == "sl"@ {
            Some(Language::Sl)
        } else if name == "sv"@ {
            Some(Language::Sv)
        } else if name == "tr"@ {
            Some(Language::Tr)
        } else if name == "uk"@ {
            Some(Language::Uk)
        } else if name == "zh"@ {
            Some(Language::Zh)
        } else if name == "zh-hans"@ {
            Some(Language::ZhHans)
        } else if name == "zh-hant"@ {
            Some(Language::ZhHant)
        } else {
            None
        }
    }

    /// The code of this language as the target of a translation.
    pub fn as_langcode(&self) -> (code: &'static str)
        ensures
            code@ == self.target_code(),
    {
        match self {
            Language::Ar => "ar",
            Language::Bg => "bg",
            Language::Cs => "cs",
            Language::Da => "da",
            Language::De => "de",
            Language::El => "el",
            Language::En => "en-us",
            Language::EnGb => "en-gb",
            Language::EnUs => "en-us",
            Language::Es => "es",
            Language::Et => "et",
            Language::Fi => "fi",
            Language::Fr => "fr",
            Language::Hu => "hu",
            Language::Id => "id",
            Language::It => "it",
            Language::Ja => "ja",
            Language::Ko => "ko",
            Language::Lt => "lt",
            Language::Lv => "lv",
            Language::Nb => "nb",
            Language::Nl => "nl",
            Language::Pl => "pl",
            Language::Pt => "pt-br",
            Language::PtBr => "pt-br",
            Language::PtPt => "pt-pt",
            Language::Ro => "ro",
            Language::Ru => "ru",
            Language::Sk => "sk",
            Language::Sl => "sl",
            Language::Sv => "sv",
            Language::Tr => "tr",
            Language::Uk => "uk",
            Language::Zh => "zh-hans",
            Language::ZhHans => "zh-hans",
            Language::ZhHant => "zh-hant",
        }
    }

    /// The code of this language as the source of a translation.
    pub fn as_src_langcode(&self) -> (code: &'static str)
        ensures
            code@ == self.source_code(),
    {
        match self {
            Language::En | Language::EnGb | Language::EnUs => "en",
            Language::Pt | Language::PtBr | Language::PtPt => "pt",
            Language::Zh | Language::ZhHans | Language::ZhHant => "zh",
            _ => self.as_langcode(),
        }
    }

    /// The language of a name such as `de` or `en-GB`; capital letters
    /// count as their lower-case forms.
    pub fn parse(s: &str) -> (r: Result<Language, NameError>)
        ensures
            match r {
                Ok(language) => Language::named(lower_text(s@)) == Some(language),
                Err(e) => Language::named(lower_text(s@)) is None && e == NameError::InvalidInput,
            },
    {
        let lower = ascii_lowercase(s);
        let name = lower.as_str();
        if name.eq("ar") {
            Ok(Language::Ar)
        } else if name.eq("bg") {
            Ok(Language::Bg)
        } else if name.eq("cs") {
            Ok(Language::Cs)
        } else if name.eq("da") {
            Ok(Language::Da)
        } else if name.eq("de") {
            Ok(Language::De)
        } else if name.eq("el") {
            Ok(Language::El)
        } else if name.eq("en") {
            Ok(Language::En)
        } else if name.eq("en-gb") {
            Ok(Language::EnGb)
        } else if name.eq("en-us") {
            Ok(Language::EnUs)
        } else if name.eq("es") {
            Ok(Language::Es)
        } else if name.eq("et") {
            Ok(Language::Et)
        } else if name.eq("fi") {
            Ok(Language::Fi)
        } else if name.eq("fr") {
            Ok(Language::Fr)
        } else if name.eq("hu") {
            Ok(Language::Hu)
        } else if name.eq("id") {
            Ok(Language::Id)
        } else if name.eq("it") {
            Ok(Language::It)
        } else if name.eq("ja") {
            Ok(Language::Ja)
        } else if name.eq("ko") {
            Ok(Language::Ko)
        } else if name.eq("lt") {
            Ok(Language::Lt)
        } else if name.eq("lv") {
            Ok(Language::Lv)
        } else if name.eq("nb") {
            Ok(Language::Nb)
        } else if name.eq("nl") {
            Ok(Language::Nl)
        } else if name.eq("pl") {
            Ok(Language::Pl)
        } else if name.eq("pt") {
            Ok(Language::Pt)
        } else if name.eq("pt-br") {
            Ok(Language::PtBr)
        } else if name.eq("pt-pt") {
            Ok(Language::PtPt)
        } else if name.eq("ro") {
            Ok(Language::Ro)
        } else if name.eq("ru") {
            Ok(Language::Ru)
        } else if name.eq("sk") {
            Ok(Language::Sk)
        } else if name.eq("sl") {
            Ok(Language::Sl)
        } else if name.eq("sv") {
            Ok(Language::Sv)
        } else if name.eq("tr") {
            Ok(Language::Tr)
        } else if name.eq("uk") {
            Ok(Language::Uk)
        } else if name.eq("zh") {
            Ok(Language::Zh)
        } else if name.eq("zh-hans") {
            Ok(Language::ZhHans)
        } else if name.eq("zh-hant") {
            Ok(Language::ZhHant)
        } else {
            Err(NameError::InvalidInput)
        }
    }
}

impl std::str::FromStr for Language {
    type Err = NameError;

    /// The language of a name such as `de` or `en-GB`; capital letters
    /// count as their lower-case forms.
    fn from_str(s: &str) -> (r: Result<Language, NameError>)
        ensures
            match r {
                Ok(language) => Language::named(lower_text(s@)) == Some(language),
                Err(e) => Language::named(lower_text(s@)) is None && e == NameError::InvalidInput,
            },
    {
        Language::parse(s)
    }
}

/// How formal the translation is to be.
#[derive(Clone, Copy, Debug, PartialEq, Eq, Structural)]
pub enum Formality {
    /// As the service chooses.
    Default,
    /// More formal, where the target language can tell.
    Formal,
    /// Less formal, where the target language can tell.
    Informal,
}

impl Formality {
    /// The name of this formality in a request to the service.
    pub open spec fn request_name(self) -> Seq<char> {
        match self {
            Formality::Default => "default"@,
            Formality::Formal => "prefer_more"@,
            Formality::Informal => "prefer_less"@,
        }
    }

    /// The formality that a lower-case name stands for.
    pub open spec fn named(name: Seq<char>) -> Option<Formality> {
        if name == "default"@ {
            Some(Formality::Default)
        } else if name == "formal"@ {
            Some(Formality::Formal)
        } else if name == "informal"@ {
            Some(Formality::Informal)
        } else {
            None
        }
    }

    /// The name of this formality in a request to the service.
    pub fn to_str(&self) -> (name: &'static str)
        ensures
            name@ == self.request_name(),
    {
        match self {
            Formality::Default => "default",
            Formality::Formal => "prefer_more",
            Formality::Informal => "prefer_less",
        }
    }

    /// The formality of one of the names `default`, `formal` and
    /// `informal`; capital letters count as their lower-case forms.
    pub fn parse(s: &str) -> (r: Result<Formality, NameError>)
        ensures
            match r {
                Ok(formality) => Formality::named(lower_text(s@)) == Some(formality),
                Err(e) => Formality::named(lower_text(s@)) is None && e
                    == NameError::InvalidInput,
            },
    {
        let lower = ascii_lowercase(s);
        let name = lower.as_str();
        if name.eq("default") {
            Ok(Formality::Default)
        } else if name.eq("formal") {
            Ok(Formality::Formal)
        } else if name.eq("informal") {
            Ok(Formality::Informal)
        } else {
            Err(NameError::InvalidInput)
        }
    }
}

impl Default for Formality {
    fn default() -> (formality: Formality)
        ensures
            formality == Formality::Default,
    {
        Formality::Default
    }
}

impl std::str::FromStr for Formality {
    type Err = NameError;

    /// The formality of one of the names `default`, `formal` and
    /// `informal`; capital letters count as their lower-case forms.
    fn from_str(s: &str) -> (r: Result<Formality, NameError>)
        ensures
            match r {
                Ok(formality) => Formality::named(lower_text(s@)) == Some(formality),
                Err(e) => Formality::named(lower_text(s@)) is None && e
                    == NameError::InvalidInput,
            },
    {
        Formality::parse(s)
    }
}

} // verus!
