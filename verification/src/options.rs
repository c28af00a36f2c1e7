//! How the CommonMark parser and serializer are set up. Both ends of the
//! pipeline take the same options, or what one writes the other does not
//! read back.

use vstd::prelude::*;

verus! {

/// The options of the extensions to CommonMark.
#[derive(Clone, Debug, PartialEq, Eq)]
pub struct ExtensionOptions {
    pub strikethrough: bool,
    pub tagfilter: bool,
    pub table: bool,
    pub autolink: bool,
    pub tasklist: bool,
    pub superscript: bool,
    pub header_ids: Option<String>,
    pub footnotes: bool,
    pub description_lists: bool,
    /// The line that opens and closes the front matter.
    pub front_matter_delimiter: Option<String>,
}

/// The options of parsing.
#[derive(Clone, Debug, PartialEq, Eq)]
pub struct ParseOptions {
    pub smart: bool,
    pub default_info_string: Option<String>,
}

/// The options of writing.
#[derive(Clone, Copy, Debug, PartialEq, Eq, Structural)]
pub struct RenderOptions {
    pub hardbreaks: bool,
    pub github_pre_lang: bool,
    pub width: usize,
    /// Whether raw HTML is written as it is.
    pub unsafe_: bool,
    pub escape: bool,
}

/// The options of the parser and of the serializer.
#[derive(Clone, Debug, PartialEq, Eq)]
pub struct Options {
    pub extension: ExtensionOptions,
    pub parse: ParseOptions,
    pub render: RenderOptions,
}

/// Whether the options are those under which a document survives the way
/// to XML and back: strikethrough and tables are on, every other
/// extension is off, the front matter is delimited by `+++`, raw HTML is
/// written as it is, and nothing else is changed on the way.
pub open spec fn is_fixed_setup(options: Options) -> bool {
    &&& options.extension.strikethrough
    &&& !options.extension.tagfilter
    &&& options.extension.table
    &&& !options.extension.autolink
    &&& !options.extension.tasklist
    &&& !options.extension.superscript
    &&& options.extension.header_ids is None
    &&& !options.extension.footnotes
    &&& !options.extension.description_lists
    &&& options.extension.front_matter_delimiter matches Some(delimiter) && delimiter@ == "+++"@
    &&& !options.parse.smart
    &&& options.parse.default_info_string is None
    &&& options.render == (RenderOptions {
        hardbreaks: false,
        github_pre_lang: false,
        width: 0,
        unsafe_: true,
        escape: false,
    })
}

/// The options for the conversion between CommonMark and XML, for the
/// parser and for the serializer alike.
pub fn comrak_options() -> (options: Options)
    ensures
        is_fixed_setup(options),
{
    Options {
        extension: ExtensionOptions {
            strikethrough: true,
            tagfilter: false,
            table: true,
            autolink: false,
            tasklist: false,
            superscript: false,
            header_ids: None,
            footnotes: false,
            description_lists: false,
            front_matter_delimiter: Some(String::from_str("+++")),
        },
        parse: ParseOptions { smart: false, default_info_string: None },
        render: RenderOptions {
            hardbreaks: false,
            github_pre_lang: false,
            width: 0,
            unsafe_: true,
            escape: false,
        },
    }
}

} // verus!
