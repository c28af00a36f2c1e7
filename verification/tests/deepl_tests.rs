use md_translate::deepl::first_translation;
use md_translate::glossary::{chars_in_order, glossary_tsv, trim_chars};
use md_translate::{
    ConfigError, Deepl, DeeplConfig, DeeplGlossary, Formality, Language, Method, NameError, Request,
};
use std::str::FromStr;

fn config(api_key: &str, glossaries: &[(&str, &str)]) -> DeeplConfig {
    DeeplConfig {
        api_key: api_key.to_string(),
        glossaries: glossaries.iter().map(|(k, v)| (k.to_string(), v.to_string())).collect(),
    }
}

fn client(api_key: &str, glossaries: &[(&str, &str)]) -> Deepl {
    Deepl { config: config(api_key, glossaries) }
}

fn pairs(params: &[(&str, &str)]) -> Vec<(String, String)> {
    params.iter().map(|(k, v)| (k.to_string(), v.to_string())).collect()
}

const ALL: [Language; 36] = [
    Language::Ar,
    Language::Bg,
    Language::Cs,
    Language::Da,
    Language::De,
    Language::El,
    Language::En,
    Language::EnGb,
    Language::EnUs,
    Language::Es,
    Language::Et,
    Language::Fi,
    Language::Fr,
    Language::Hu,
    Language::Id,
    Language::It,
    Language::Ja,
    Language::Ko,
    Language::Lt,
    Language::Lv,
    Language::Nb,
    Language::Nl,
    Language::Pl,
    Language::Pt,
    Language::PtBr,
    Language::PtPt,
    Language::Ro,
    Language::Ru,
    Language::Sk,
    Language::Sl,
    Language::Sv,
    Language::Tr,
    Language::Uk,
    Language::Zh,
    Language::ZhHans,
    Language::ZhHant,
];

#[test]
fn target_codes() {
    let codes: Vec<&str> = ALL.iter().map(|l| l.as_langcode()).collect();
    assert_eq!(
        codes,
        vec![
            "ar", "bg", "cs", "da", "de", "el", "en-us", "en-gb", "en-us", "es", "et", "fi", "fr",
            "hu", "id", "it", "ja", "ko", "lt", "lv", "nb", "nl", "pl", "pt-br", "pt-br", "pt-pt",
            "ro", "ru", "sk", "sl", "sv", "tr", "uk", "zh-hans", "zh-hans", "zh-hant"
        ]
    );
}

#[test]
fn source_codes() {
    let codes: Vec<&str> = ALL.iter().map(|l| l.as_src_langcode()).collect();
    assert_eq!(
        codes,
        vec![
            "ar", "bg", "cs", "da", "de", "el", "en", "en", "en", "es", "et", "fi", "fr", "hu",
            "id", "it", "ja", "ko", "lt", "lv", "nb", "nl", "pl", "pt", "pt", "pt", "ro", "ru",
            "sk", "sl", "sv", "tr", "uk", "zh", "zh", "zh"
        ]
    );
}

#[test]
fn languages_by_name() {
    let names = [
        "ar", "bg", "cs", "da", "de", "el", "en", "en-gb", "en-us", "es", "et", "fi", "fr", "hu",
        "id", "it", "ja", "ko", "lt", "lv", "nb", "nl", "pl", "pt", "pt-br", "pt-pt", "ro", "ru",
        "sk", "sl", "sv", "tr", "uk", "zh", "zh-hans", "zh-hant",
    ];
    for (name, language) in names.iter().zip(ALL.iter()) {
        assert_eq!(Language::parse(name), Ok(*language));
        assert_eq!(Language::from_str(&name.to_uppercase()), Ok(*language));
    }
    assert_eq!(Language::parse("EN-gb"), Ok(Language::EnGb));
    assert_eq!(Language::parse("Zh-Hant"), Ok(Language::ZhHant));
}

#[test]
fn unknown_language_names() {
    for name in ["", "xx", "en_gb", " de", "de ", "deu", "ＤＥ", "english"] {
        assert_eq!(Language::parse(name), Err(NameError::InvalidInput));
    }
}

#[test]
fn formality_names() {
    assert_eq!(Formality::Default.to_str(), "default");
    assert_eq!(Formality::Formal.to_str(), "prefer_more");
    assert_eq!(Formality::Informal.to_str(), "prefer_less");
    assert_eq!(Formality::parse("default"), Ok(Formality::Default));
    assert_eq!(Formality::parse("Formal"), Ok(Formality::Formal));
    assert_eq!(Formality::from_str("INFORMAL"), Ok(Formality::Informal));
    assert_eq!(Formality::parse("prefer_more"), Err(NameError::InvalidInput));
    assert_eq!(Formality::parse(""), Err(NameError::InvalidInput));
    assert_eq!(Formality::default(), Formality::Default);
}

#[test]
fn endpoints_of_the_two_plans() {
    assert_eq!(config("abc:fx", &[]).endpoint("translate"), "https://api-free.deepl.com/v2/translate");
    assert_eq!(config("abc", &[]).endpoint("translate"), "https://api.deepl.com/v2/translate");
    assert_eq!(config("abc:fx ", &[]).endpoint("usage"), "https://api.deepl.com/v2/usage");
    assert_eq!(config(":fx", &[]).endpoint(""), "https://api-free.deepl.com/v2/");
    assert_eq!(config("fx", &[]).endpoint("glossaries"), "https://api.deepl.com/v2/glossaries");
    assert_eq!(config("", &[]).endpoint("x"), "https://api.deepl.com/v2/x");
}

#[test]
fn glossary_of_a_language_pair() {
    let c = config("k", &[("en_de", "g1"), ("en_ja", "g2"), ("en_de", "g3"), ("zh_en-us", "g4")]);
    assert_eq!(c.glossary(Language::En, Language::De), Some("g1"));
    assert_eq!(c.glossary(Language::EnGb, Language::De), Some("g1"));
    assert_eq!(c.glossary(Language::EnUs, Language::Ja), Some("g2"));
    assert_eq!(c.glossary(Language::ZhHant, Language::En), Some("g4"));
    assert_eq!(c.glossary(Language::De, Language::En), None);
    assert_eq!(c.glossary(Language::En, Language::Fr), None);
    assert_eq!(config("k", &[]).glossary(Language::En, Language::De), None);
}

#[test]
fn the_first_file_that_is_there_decides() {
    let found = Deepl::new(vec![Err(ConfigError::NotFound), Ok(config("second", &[]))]);
    assert_eq!(found, Ok(client("second", &[])));
    let found = Deepl::new(vec![Ok(config("first", &[])), Ok(config("second", &[]))]);
    assert_eq!(found, Ok(client("first", &[])));
    let found = Deepl::new(vec![Ok(config("first", &[])), Err(ConfigError::InvalidData)]);
    assert_eq!(found, Ok(client("first", &[])));
}

#[test]
fn a_broken_file_ends_the_search() {
    let found = Deepl::new(vec![Err(ConfigError::InvalidData), Ok(config("second", &[]))]);
    assert_eq!(found, Err(ConfigError::InvalidData));
    let found = Deepl::new(vec![
        Err(ConfigError::NotFound),
        Err(ConfigError::Unreadable),
        Ok(config("third", &[])),
    ]);
    assert_eq!(found, Err(ConfigError::Unreadable));
}

#[test]
fn no_file_at_all() {
    assert_eq!(Deepl::new(vec![]), Err(ConfigError::NotFound));
    assert_eq!(
        Deepl::new(vec![Err(ConfigError::NotFound), Err(ConfigError::NotFound)]),
        Err(ConfigError::NotFound)
    );
}

#[test]
fn a_client_from_one_file() {
    assert_eq!(Deepl::with_config(Ok(config("k", &[("a", "b")]))), Ok(client("k", &[("a", "b")])));
    assert_eq!(Deepl::with_config(Err(ConfigError::NotFound)), Err(ConfigError::NotFound));
    assert_eq!(Deepl::with_config(Err(ConfigError::InvalidData)), Err(ConfigError::InvalidData));
}

#[test]
fn request_for_texts() {
    let deepl = client("key:fx", &[("en_de", "gloss")]);
    let request = deepl.translate_strings_request(
        Language::En,
        Language::De,
        Formality::Default,
        &vec!["Hello, World!".to_string(), "Bye".to_string()],
    );
    assert_eq!(
        request,
        Request {
            method: Method::Post,
            url: "https://api-free.deepl.com/v2/translate".to_string(),
            authorization: "DeepL-Auth-Key key:fx".to_string(),
            params: pairs(&[
                ("source_lang", "en"),
                ("target_lang", "de"),
                ("preserve_formatting", "1"),
                ("formality", "default"),
                ("glossary_id", "gloss"),
                ("text", "Hello, World!"),
                ("text", "Bye"),
            ]),
        }
    );
}

#[test]
fn request_for_no_text() {
    let deepl = client("key", &[]);
    let request =
        deepl.translate_strings_request(Language::Ja, Language::En, Formality::Formal, &vec![]);
    assert_eq!(
        request.params,
        pairs(&[
            ("source_lang", "ja"),
            ("target_lang", "en-us"),
            ("preserve_formatting", "1"),
            ("formality", "prefer_more"),
        ])
    );
    assert_eq!(request.url, "https://api.deepl.com/v2/translate");
}

#[test]
fn request_for_xml() {
    let deepl = client("key", &[("pt_zh-hans", "g")]);
    let request = deepl.translate_xml_request(
        Language::PtBr,
        Language::Zh,
        Formality::Informal,
        "<body xmlns='markdown'/>",
    );
    assert_eq!(
        request,
        Request {
            method: Method::Post,
            url: "https://api.deepl.com/v2/translate".to_string(),
            authorization: "DeepL-Auth-Key key".to_string(),
            params: pairs(&[
                ("source_lang", "pt"),
                ("target_lang", "zh-hans"),
                ("preserve_formatting", "1"),
                ("formality", "prefer_less"),
                ("tag_handling", "xml"),
                ("ignore_tags", "header,embed,object"),
                ("splitting_tags", "blockquote,li,dt,dd,p,h1,h2,h3,h4,h5,h6,th,td"),
                ("non_splitting_tags", "embed,em,strong,del,a,img"),
                ("glossary_id", "g"),
                ("text", "<body xmlns='markdown'/>"),
            ]),
        }
    );
}

#[test]
fn request_for_xml_without_glossary() {
    let deepl = client("key", &[("en_de", "g")]);
    let request =
        deepl.translate_xml_request(Language::En, Language::Fr, Formality::Default, "<a/>");
    assert_eq!(request.params.len(), 9);
    assert_eq!(request.params[8], ("text".to_string(), "<a/>".to_string()));
    assert!(request.params.iter().all(|(name, _)| name != "glossary_id"));
}

#[test]
fn requests_without_fields() {
    let deepl = client("k:fx", &[]);
    assert_eq!(
        deepl.list_glossaries_request(),
        Request {
            method: Method::Get,
            url: "https://api-free.deepl.com/v2/glossaries".to_string(),
            authorization: "DeepL-Auth-Key k:fx".to_string(),
            params: vec![],
        }
    );
    assert_eq!(
        deepl.remove_glossary_request("abc-123"),
        Request {
            method: Method::Delete,
            url: "https://api-free.deepl.com/v2/glossaries/abc-123".to_string(),
            authorization: "DeepL-Auth-Key k:fx".to_string(),
            params: vec![],
        }
    );
    assert_eq!(
        deepl.usage_request(),
        Request {
            method: Method::Get,
            url: "https://api-free.deepl.com/v2/usage".to_string(),
            authorization: "DeepL-Auth-Key k:fx".to_string(),
            params: vec![],
        }
    );
}

#[test]
fn request_for_a_glossary() {
    let deepl = client("k", &[]);
    let entries = pairs(&[(" b ", "B"), ("a", " A\n"), ("", "x"), ("c", "  ")]);
    let request =
        deepl.register_glossaries_request("mine", Language::EnGb, Language::Pt, &entries);
    assert_eq!(
        request,
        Request {
            method: Method::Post,
            url: "https://api.deepl.com/v2/glossaries".to_string(),
            authorization: "DeepL-Auth-Key k".to_string(),
            params: pairs(&[
                ("name", "mine"),
                ("source_lang", "en"),
                ("target_lang", "pt-br"),
                ("entries_format", "tsv"),
                ("entries", "a\tA\nb\tB"),
            ]),
        }
    );
}

#[test]
fn the_first_translation_counts() {
    assert_eq!(first_translation(vec!["Hallo, Welt!".to_string(), "x".to_string()]), "Hallo, Welt!");
    assert_eq!(first_translation(vec!["only".to_string()]), "only");
    assert_eq!(first_translation(vec![]), "");
}

#[test]
fn glossary_tables() {
    assert_eq!(glossary_tsv(&vec![]), "");
    assert_eq!(glossary_tsv(&pairs(&[("", ""), (" ", "x")])), "");
    assert_eq!(glossary_tsv(&pairs(&[("one", "eins")])), "one\teins");
    assert_eq!(
        glossary_tsv(&pairs(&[("b", "2"), ("a", "1"), ("c", "3"), ("ab", "4"), ("B", "5")])),
        "B\t5\na\t1\nab\t4\nb\t2\nc\t3"
    );
}

#[test]
fn entries_of_one_source_keep_their_order() {
    assert_eq!(
        glossary_tsv(&pairs(&[("k", "first"), ("a", "x"), (" k", "second"), ("k ", "third")])),
        "a\tx\nk\tfirst\nk\tsecond\nk\tthird"
    );
}

#[test]
fn sorting_is_as_of_strings() {
    let mut words = vec![
        "zebra", "Zebra", "", "a", "ab", "abc", "äb", "a b", "é", "e", "日本", "日", "~", "10", "9",
        "\u{10000}", "\u{ffff}",
    ];
    let entries: Vec<(String, String)> =
        words.iter().filter(|w| !w.is_empty()).map(|w| (w.to_string(), "x".to_string())).collect();
    words.retain(|w| !w.is_empty());
    words.sort();
    let expected: Vec<String> = words.iter().map(|w| format!("{}\tx", w)).collect();
    assert_eq!(glossary_tsv(&entries), expected.join("\n"));
    for a in &words {
        for b in &words {
            let x: Vec<char> = a.chars().collect();
            let y: Vec<char> = b.chars().collect();
            assert_eq!(chars_in_order(&x, &y), a <= b);
        }
    }
}

#[test]
fn trimming_is_as_of_strings() {
    for text in ["", " ", "a", " a", "a ", "  a b  ", "\t\n x \r\n", "\u{3000}x\u{a0}", "\u{200b}x", "x\u{85}"] {
        let trimmed: String = trim_chars(text).into_iter().collect();
        assert_eq!(trimmed, text.trim());
    }
    let mut code: u32 = 0;
    while code <= 0x10ffff {
        if let Some(c) = char::from_u32(code) {
            let text = format!("{}x{}", c, c);
            let trimmed: String = trim_chars(&text).into_iter().collect();
            assert_eq!(trimmed, text.trim());
        }
        code += 1;
    }
}

#[test]
fn a_glossary_holds_what_the_service_says() {
    let glossary = DeeplGlossary {
        glossary_id: "id".to_string(),
        name: "mine".to_string(),
        ready: true,
        source_lang: "en".to_string(),
        target_lang: "de".to_string(),
        creation_time: "2024-01-01T00:00:00Z".to_string(),
        entry_count: 2,
    };
    assert_eq!(glossary.clone(), glossary);
    assert_eq!(glossary.entry_count, 2);
}

#[test]
fn lib_plain_text_translation() {
    let deepl = client("key", &[]);
    let request = deepl.translate_strings_request(
        Language::En,
        Language::De,
        Formality::Informal,
        &vec!["Hello, World!".to_string()],
    );
    assert_eq!(request.method, Method::Post);
    assert_eq!(request.params.last(), Some(&("text".to_string(), "Hello, World!".to_string())));
    let resp = first_translation(vec!["Hallo, Welt!".to_string()]);
    assert_eq!(&resp, "Hallo, Welt!");
}

#[test]
fn deepl_plain_text_translation() {
    let deepl = client("key:fx", &[]);
    let request = deepl.translate_strings_request(
        Language::En,
        Language::De,
        Formality::Default,
        &vec!["Hello, World!".to_string()],
    );
    assert_eq!(
        request.params,
        pairs(&[
            ("source_lang", "en"),
            ("target_lang", "de"),
            ("preserve_formatting", "1"),
            ("formality", "default"),
            ("text", "Hello, World!"),
        ])
    );
    let resp = first_translation(vec!["Hallo, Welt!".to_string()]);
    assert_eq!(&resp, "Hallo, Welt!");
}
