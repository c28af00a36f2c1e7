//! The requests that go to the DeepL translation service, and what is made
//! of its answers. Nothing here touches the network: a [`Request`] says
//! what is to be sent, and sending it is the caller's part.

use vstd::prelude::*;
use crate::language::{Formality, Language};
use crate::mapping::is_known_tag;
use crate::text::{chars_of, join, joined, matches_at, occurs_at, texts_of};

verus! {

/// The key of the service and the glossaries to use, as the configuration
/// file gives them.
#[derive(Debug, PartialEq, Eq)]
pub struct DeeplConfig {
    pub api_key: String,
    /// Glossary ids by language pair: each entry holds a key made of the
    /// source code, `_` and the target code, and the id of a glossary.
    pub glossaries: Vec<(String, String)>,
}

/// Why no configuration could be had.
#[derive(Clone, Copy, Debug, PartialEq, Eq, Structural)]
pub enum ConfigError {
    /// There is no such file.
    NotFound,
    /// The file does not hold a configuration.
    InvalidData,
    /// The file could not be read.
    Unreadable,
}

/// How a request is sent.
#[derive(Clone, Copy, Debug, PartialEq, Eq, Structural)]
pub enum Method {
    Get,
    Post,
    Delete,
}

/// A request to the service: where it goes, how the sender proves who it
/// is, and the form fields in the order in which they are sent.
#[derive(Debug, PartialEq, Eq)]
pub struct Request {
    pub method: Method,
    pub url: String,
    /// The value of the `authorization` header.
    pub authorization: String,
    pub params: Vec<(String, String)>,
}

/// The mathematical view of a [`Request`].
pub struct RequestView {
    pub method: Method,
    pub url: Seq<char>,
    pub authorization: Seq<char>,
    pub params: Seq<(Seq<char>, Seq<char>)>,
}

/// The views of a sequence of pairs of strings.
pub open spec fn pairs_of(pairs: Seq<(String, String)>) -> Seq<(Seq<char>, Seq<char>)> {
    Seq::new(pairs.len(), |i: int| (pairs[i].0@, pairs[i].1@))
}

impl View for Request {
    type V = RequestView;

    open spec fn view(&self) -> RequestView {
        RequestView {
            method: self.method,
            url: self.url@,
            authorization: self.authorization@,
            params: pairs_of(self.params@),
        }
    }
}

/// Whether `text` ends with `suffix`.
pub open spec fn ends_with(text: Seq<char>, suffix: Seq<char>) -> bool {
    occurs_at(text, suffix, text.len() - suffix.len())
}

/// The address of an operation of the service: keys of the free plan end
/// with `:fx` and go to the free host, all others to the paid one.
pub open spec fn endpoint_url(api_key: Seq<char>, api: Seq<char>) -> Seq<char> {
    if ends_with(api_key, ":fx"@) {
        "https://api-free.deepl.com/v2/"@ + api
    } else {
        "https://api.deepl.com/v2/"@ + api
    }
}

/// The `authorization` header for a key.
pub open spec fn authorization_of(api_key: Seq<char>) -> Seq<char> {
    "DeepL-Auth-Key "@ + api_key
}

/// The key under which the glossary of a language pair is configured.
pub open spec fn glossary_key(from_lang: Language, to_lang: Language) -> Seq<char> {
    from_lang.source_code() + "_"@ + to_lang.target_code()
}

/// Whether entry `i` is the first entry under `key`.
pub open spec fn is_first_entry(entries: Seq<(String, String)>, key: Seq<char>, i: int) -> bool {
    &&& 0 <= i < entries.len()
    &&& entries[i].0@ == key
    &&& forall|j: int| 0 <= j < i ==> (#[trigger] entries[j]).0@ != key
}

/// The glossary id configured under `key`: that of the first entry under
/// the key.
pub open spec fn glossary_of(entries: Seq<(String, String)>, key: Seq<char>) -> Option<Seq<char>> {
    if exists|i: int| is_first_entry(entries, key, i) {
        Some(entries[choose|i: int| is_first_entry(entries, key, i)].1@)
    } else {
        None
    }
}

/// The fields that every translation request starts with.
pub open spec fn base_params(from_lang: Language, to_lang: Language, formality: Formality) -> Seq<
    (Seq<char>, Seq<char>),
> {
    seq![
        ("source_lang"@, from_lang.source_code()),
        ("target_lang"@, to_lang.target_code()),
        ("preserve_formatting"@, "1"@),
        ("formality"@, formality.request_name()),
    ]
}

/// The field that names the glossary, where there is one.
pub open spec fn glossary_params(glossary_id: Option<Seq<char>>) -> Seq<(Seq<char>, Seq<char>)> {
    match glossary_id {
        Some(id) => seq![("glossary_id"@, id)],
        None => Seq::empty(),
    }
}

/// One `text` field for each text, in order.
pub open spec fn text_params(texts: Seq<Seq<char>>) -> Seq<(Seq<char>, Seq<char>)> {
    Seq::new(texts.len(), |i: int| ("text"@, texts[i]))
}

/// The tags whose content the service must leave alone: they carry raw
/// text, never prose.
pub open spec fn ignore_tags() -> Seq<Seq<char>> {
    seq!["header"@, "embed"@, "object"@]
}

/// The tags at which the service may part the text into sentences.
pub open spec fn splitting_tags() -> Seq<Seq<char>> {
    seq![
        "blockquote"@,
        "li"@,
        "dt"@,
        "dd"@,
        "p"@,
        "h1"@,
        "h2"@,
        "h3"@,
        "h4"@,
        "h5"@,
        "h6"@,
        "th"@,
        "td"@,
    ]
}

/// The tags within which the service must keep a sentence whole.
pub open spec fn non_splitting_tags() -> Seq<Seq<char>> {
    seq!["embed"@, "em"@, "strong"@, "del"@, "a"@, "img"@]
}

/// The fields that tell the service how to treat the XML of a document.
pub open spec fn xml_params() -> Seq<(Seq<char>, Seq<char>)> {
    seq![
        ("tag_handling"@, "xml"@),
        ("ignore_tags"@, joined(ignore_tags(), ","@)),
        ("splitting_tags"@, joined(splitting_tags(), ","@)),
        ("non_splitting_tags"@, joined(non_splitting_tags(), ","@)),
    ]
}

/// Every tag that a request names to the service is a tag of the mapping
/// table.
pub proof fn lemma_service_tags_known()
    ensures
        forall|i: int| 0 <= i < ignore_tags().len() ==> is_known_tag(#[trigger] ignore_tags()[i]),
        forall|i: int|
            0 <= i < splitting_tags().len() ==> is_known_tag(#[trigger] splitting_tags()[i]),
        forall|i: int|
            0 <= i < non_splitting_tags().len() ==> is_known_tag(
                #[trigger] non_splitting_tags()[i],
            ),
{
}

/// The configuration that a search over several files ends with. The
/// files are tried in order; the first one that is there decides, whether
/// it holds a configuration or cannot be used; a file that is not there is
/// passed over; and where none is there, the search ends in `NotFound`.
pub open spec fn searched(loads: Seq<Result<DeeplConfig, ConfigError>>) -> Result<
    DeeplConfig,
    ConfigError,
>
    decreases loads.len(),
{
    if loads.len() == 0 {
        Err(ConfigError::NotFound)
    } else {
        match loads[0] {
            Err(ConfigError::NotFound) => searched(loads.skip(1)),
            decided => decided,
        }
    }
}

/// Whether a file was not there.
fn is_not_found(load: &Result<DeeplConfig, ConfigError>) -> (r: bool)
    ensures
        r == (*load == Err::<DeeplConfig, _>(ConfigError::NotFound)),
{
    match load {
        Err(ConfigError::NotFound) => true,
        _ => false,
    }
}

/// Adds a form field.
pub(crate) fn push_param(params: &mut Vec<(String, String)>, name: &str, value: &str)
    ensures
        pairs_of(final(params)@) == pairs_of(old(params)@).push((name@, value@)),
{
    params.push((String::from_str(name), String::from_str(value)));
    assert(pairs_of(params@) =~= pairs_of(old(params)@).push((name@, value@)));
}

/// The value of the field `ignore_tags`.
fn ignore_tag_list() -> (text: String)
    ensures
        text@ == joined(ignore_tags(), ","@),
{
    let tags = vec![String::from_str("header"), String::from_str("embed"), String::from_str("object")];
    assert(texts_of(tags@) =~= ignore_tags());
    join(&tags, ",")
}

/// The value of the field `splitting_tags`.
fn splitting_tag_list() -> (text: String)
    ensures
        text@ == joined(splitting_tags(), ","@),
{
    let tags = vec![
        String::from_str("blockquote"),
        String::from_str("li"),
        String::from_str("dt"),
        String::from_str("dd"),
        String::from_str("p"),
        String::from_str("h1"),
        String::from_str("h2"),
        String::from_str("h3"),
        String::from_str("h4"),
        String::from_str("h5"),
        String::from_str("h6"),
        String::from_str("th"),
        String::from_str("td"),
    ];
    assert(texts_of(tags@) =~= splitting_tags());
    join(&tags, ",")
}

/// The value of the field `non_splitting_tags`.
fn non_splitting_tag_list() -> (text: String)
    ensures
        text@ == joined(non_splitting_tags(), ","@),
{
    let tags = vec![
        String::from_str("embed"),
        String::from_str("em"),
        String::from_str("strong"),
        String::from_str("del"),
        String::from_str("a"),
        String::from_str("img"),
    ];
    assert(texts_of(tags@) =~= non_splitting_tags());
    join(&tags, ",")
}

impl DeeplConfig {
    /// The address of the operation `api` of the service.
    pub fn endpoint(&self, api: &str) -> (url: String)
        ensures
            url@ == endpoint_url(self.api_key@, api@),
    {
        let key = chars_of(self.api_key.as_str());
        let suffix = chars_of(":fx");
        let free = suffix.len() <= key.len() && matches_at(&key, &suffix, key.len() - suffix.len());
        let mut url = if free {
            String::from_str("https://api-free.deepl.com/v2/")
        } else {
            String::from_str("https://api.deepl.com/v2/")
        };
        url.append(api);
        url
    }

    /// The id of the glossary configured for a language pair.
    pub fn glossary(&self, from_lang: Language, to_lang: Language) -> (id: Option<&str>)
        ensures
            match id {
                Some(v) => glossary_of(self.glossaries@, glossary_key(from_lang, to_lang)) == Some(
                    v@,
                ),
                None => glossary_of(self.glossaries@, glossary_key(from_lang, to_lang)) is None,
            },
    {
        let mut key = String::from_str(from_lang.as_src_langcode());
        key.append("_");
        key.append(to_lang.as_langcode());
        let ghost wanted = glossary_key(from_lang, to_lang);
        let ghost entries = self.glossaries@;
        let mut i: usize = 0;
        while i < self.glossaries.len()
            invariant
                i <= self.glossaries.len(),
                key@ == wanted,
                wanted == glossary_key(from_lang, to_lang),
                entries == self.glossaries@,
                forall|j: int| 0 <= j < i ==> (#[trigger] entries[j]).0@ != wanted,
            decreases self.glossaries.len() - i,
        {
            if self.glossaries[i].0.as_str().eq(key.as_str()) {
                proof {
                    assert(is_first_entry(entries, wanted, i as int));
                    let chosen = choose|k: int| is_first_entry(entries, wanted, k);
                    assert(is_first_entry(entries, wanted, chosen));
                    if chosen < i {
                        assert(entries[chosen].0@ != wanted);
                    } else if i < chosen {
                        assert(entries[i as int].0@ != wanted);
                    }
                    assert(chosen == i);
                    assert(glossary_of(entries, wanted) == Some(entries[i as int].1@));
                }
                return Some(self.glossaries[i].1.as_str());
            }
            i += 1;
        }
        proof {
            assert forall|k: int| !is_first_entry(entries, wanted, k) by {
                if is_first_entry(entries, wanted, k) {
                    assert(entries[k].0@ != wanted);
                }
            }
        }
        None
    }
}

/// A client of the service: its configuration.
#[derive(Debug, PartialEq, Eq)]
pub struct Deepl {
    pub config: DeeplConfig,
}

impl Deepl {
    /// A client from the default configuration files. `loads` holds, for
    /// each file of the search in its order, the configuration that the
    /// file gave or the reason why it gave none.
    pub fn new(loads: Vec<Result<DeeplConfig, ConfigError>>) -> (r: Result<Deepl, ConfigError>)
        ensures
            match r {
                Ok(deepl) => searched(loads@) == Ok::<_, ConfigError>(deepl.config),
                Err(e) => searched(loads@) == Err::<DeeplConfig, _>(e),
            },
    {
        let mut i: usize = 0;
        assert(loads@.skip(0) =~= loads@);
        while i < loads.len() && is_not_found(&loads[i])
            invariant
                i <= loads.len(),
                searched(loads@) == searched(loads@.skip(i as int)),
            decreases loads.len() - i,
        {
            assert(loads@.skip(i as int).skip(1) =~= loads@.skip(i + 1));
            assert(loads@.skip(i as int)[0] == loads@[i as int]);
            i += 1;
        }
        if i < loads.len() {
            let ghost all = loads@;
            let mut loads = loads;
            let decided = loads.swap_remove(i);
            assert(decided == all.skip(i as int)[0]);
            match decided {
                Ok(config) => Ok(Deepl { config }),
                Err(e) => Err(e),
            }
        } else {
            Err(ConfigError::NotFound)
        }
    }

    /// A client from one configuration file: `loaded` is the configuration
    /// that the file gave, or the reason why it gave none.
    pub fn with_config(loaded: Result<DeeplConfig, ConfigError>) -> (r: Result<Deepl, ConfigError>)
        ensures
            match r {
                Ok(deepl) => loaded == Ok::<_, ConfigError>(deepl.config),
                Err(e) => loaded == Err::<DeeplConfig, _>(e),
            },
    {
        match loaded {
            Ok(config) => Ok(Deepl { config }),
            Err(e) => Err(e),
        }
    }

    /// A request to the operation `api` with the key of this client.
    pub(crate) fn request(&self, method: Method, api: &str, params: Vec<(String, String)>) -> (request:
        Request)
        ensures
            request@ == (RequestView {
                method,
                url: endpoint_url(self.config.api_key@, api@),
                authorization: authorization_of(self.config.api_key@),
                params: pairs_of(params@),
            }),
    {
        let mut authorization = String::from_str("DeepL-Auth-Key ");
        authorization.append(self.config.api_key.as_str());
        Request { method, url: self.config.endpoint(api), authorization, params }
    }

    /// The fields that every translation request starts with.
    fn translation_params(
        &self,
        from_lang: Language,
        to_lang: Language,
        formality: Formality,
    ) -> (params: Vec<(String, String)>)
        ensures
            pairs_of(params@) == base_params(from_lang, to_lang, formality),
    {
        let mut params: Vec<(String, String)> = Vec::new();
        assert(pairs_of(params@) =~= Seq::empty());
        push_param(&mut params, "source_lang", from_lang.as_src_langcode());
        push_param(&mut params, "target_lang", to_lang.as_langcode());
        push_param(&mut params, "preserve_formatting", "1");
        push_param(&mut params, "formality", formality.to_str());
        assert(pairs_of(params@) =~= base_params(from_lang, to_lang, formality));
        params
    }

    /// Adds the field that names the glossary of the language pair, where
    /// one is configured.
    fn push_glossary(&self, params: &mut Vec<(String, String)>, from_lang: Language, to_lang: Language)
        ensures
            pairs_of(final(params)@) == pairs_of(old(params)@) + glossary_params(
                glossary_of(self.config.glossaries@, glossary_key(from_lang, to_lang)),
            ),
    {
        match self.config.glossary(from_lang, to_lang) {
            Some(id) => {
                push_param(params, "glossary_id", id);
                assert(pairs_of(params@) =~= pairs_of(old(params)@) + seq![("glossary_id"@, id@)]);
            },
            None => {
                assert(pairs_of(params@) =~= pairs_of(old(params)@) + Seq::empty());
            },
        }
    }

    /// The request that asks for the translation of some texts: the
    /// languages, the formality, the glossary of the language pair where
    /// one is configured, and the texts in their order.
    pub fn translate_strings_request(
        &self,
        from_lang: Language,
        to_lang: Language,
        formality: Formality,
        body: &Vec<String>,
    ) -> (request: Request)
        ensures
            request@ == (RequestView {
                method: Method::Post,
                url: endpoint_url(self.config.api_key@, "translate"@),
                authorization: authorization_of(self.config.api_key@),
                params: base_params(from_lang, to_lang, formality) + glossary_params(
                    glossary_of(self.config.glossaries@, glossary_key(from_lang, to_lang)),
                ) + text_params(texts_of(body@)),
            }),
    {
        let mut params = self.translation_params(from_lang, to_lang, formality);
        self.push_glossary(&mut params, from_lang, to_lang);
        let ghost head = pairs_of(params@);
        let mut i: usize = 0;
        assert(pairs_of(params@) =~= head + text_params(texts_of(body@.take(0))));
        while i < body.len()
            invariant
                i <= body.len(),
                pairs_of(params@) == head + text_params(texts_of(body@.take(i as int))),
            decreases body.len() - i,
        {
            push_param(&mut params, "text", body[i].as_str());
            assert(pairs_of(params@) =~= head + text_params(texts_of(body@.take(i + 1))));
            i += 1;
        }
        assert(body@.take(i as int) =~= body@);
        self.request(Method::Post, "translate", params)
    }

    /// The request that asks for the translation of the XML of a document.
    /// It tells the service which tags carry raw text, at which tags it
    /// may part sentences, and within which it may not.
    pub fn translate_xml_request(
        &self,
        from_lang: Language,
        to_lang: Language,
        formality: Formality,
        xml_body: &str,
    ) -> (request: Request)
        ensures
            request@ == (RequestView {
                method: Method::Post,
                url: endpoint_url(self.config.api_key@, "translate"@),
                authorization: authorization_of(self.config.api_key@),
                params: base_params(from_lang, to_lang, formality) + xml_params()
                    + glossary_params(
                    glossary_of(self.config.glossaries@, glossary_key(from_lang, to_lang)),
                ) + seq![("text"@, xml_body@)],
            }),
    {
        let mut params = self.translation_params(from_lang, to_lang, formality);
        let ghost base = pairs_of(params@);
        let ignore = ignore_tag_list();
        let splitting = splitting_tag_list();
        let non_splitting = non_splitting_tag_list();
        push_param(&mut params, "tag_handling", "xml");
        push_param(&mut params, "ignore_tags", ignore.as_str());
        push_param(&mut params, "splitting_tags", splitting.as_str());
        push_param(&mut params, "non_splitting_tags", non_splitting.as_str());
        assert(pairs_of(params@) =~= base + xml_params());
        self.push_glossary(&mut params, from_lang, to_lang);
        let ghost head = pairs_of(params@);
        push_param(&mut params, "text", xml_body);
        assert(pairs_of(params@) =~= head + seq![("text"@, xml_body@)]);
        self.request(Method::Post, "translate", params)
    }

    /// The request that lists the glossaries registered with the service.
    pub fn list_glossaries_request(&self) -> (request: Request)
        ensures
            request@ == (RequestView {
                method: Method::Get,
                url: endpoint_url(self.config.api_key@, "glossaries"@),
                authorization: authorization_of(self.config.api_key@),
                params: Seq::empty(),
            }),
    {
        let params: Vec<(String, String)> = Vec::new();
        assert(pairs_of(params@) =~= Seq::empty());
        self.request(Method::Get, "glossaries", params)
    }

    /// The request that removes the glossary `id` from the service.
    pub fn remove_glossary_request(&self, id: &str) -> (request: Request)
        ensures
            request@ == (RequestView {
                method: Method::Delete,
                url: endpoint_url(self.config.api_key@, "glossaries/"@ + id@),
                authorization: authorization_of(self.config.api_key@),
                params: Seq::empty(),
            }),
    {
        let params: Vec<(String, String)> = Vec::new();
        assert(pairs_of(params@) =~= Seq::empty());
        let mut api = String::from_str("glossaries/");
        api.append(id);
        self.request(Method::Delete, api.as_str(), params)
    }

    /// The request that asks how many characters have been translated.
    pub fn usage_request(&self) -> (request: Request)
        ensures
            request@ == (RequestView {
                method: Method::Get,
                url: endpoint_url(self.config.api_key@, "usage"@),
                authorization: authorization_of(self.config.api_key@),
                params: Seq::empty(),
            }),
    {
        let params: Vec<(String, String)> = Vec::new();
        assert(pairs_of(params@) =~= Seq::empty());
        self.request(Method::Get, "usage", params)
    }
}

/// The translation of a single text: the first of the translations that
/// the service sent, and the empty text where it sent none.
pub fn first_translation(translations: Vec<String>) -> (text: String)
    ensures
        text@ == if translations@.len() > 0 {
            translations@[0]@
        } else {
            Seq::<char>::empty()
        },
{
    let mut translations = translations;
    if translations.len() > 0 {
        translations.swap_remove(0)
    } else {
        String::new()
    }
}

} // verus!
