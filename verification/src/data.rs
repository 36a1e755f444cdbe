//! Information about the page being parsed and the settings that govern parsing.

use vstd::prelude::*;

verus! {

/// Facts about the page whose wikitext is parsed.
#[derive(Debug)]
pub struct PageInfo {
    pub page: String,
    pub category: Option<String>,
    pub site: String,
    pub title: String,
    pub alt_title: Option<String>,
    pub tags: Vec<String>,
    pub language: String,
}

impl PageInfo {
    /// A placeholder page, for tests and tools that parse wikitext outside a site.
    pub fn dummy() -> (r: PageInfo)
        ensures
            r.page@ == "some-page"@,
            r.category is None,
            r.site@ == "sandbox"@,
            r.title@ == "A page for the age"@,
            r.alt_title is None,
            r.tags@.len() == 2,
            r.tags@[0]@ == "tale"@,
            r.tags@[1]@ == "_cc"@,
            r.language@ == "default"@,
    {
        let mut tags: Vec<String> = Vec::new();
        tags.push("tale".to_owned());
        tags.push("_cc".to_owned());
        PageInfo {
            page: "some-page".to_owned(),
            category: None,
            site: "sandbox".to_owned(),
            title: "A page for the age".to_owned(),
            alt_title: None,
            tags,
            language: "default".to_owned(),
        }
    }
}

/// Hooks through which the host of the parser answers questions about other pages.
pub trait PageCallbacks {

}

/// Callbacks that know of no other page.
#[derive(Debug)]
pub struct NullPageCallbacks {}

impl PageCallbacks for NullPageCallbacks {

}

/// The context in which wikitext is parsed.
#[derive(Clone, Copy, Debug, PartialEq, Eq, Structural)]
pub enum WikitextMode {
    Page,
    Draft,
    ForumPost,
    DirectMessage,
    List,
}

/// What parsing may do in a given context.
#[derive(Clone, Copy, Debug, PartialEq, Eq, Structural)]
pub struct WikitextSettings {
    pub mode: WikitextMode,
    /// Whether constructs that only make sense on a full page (such as a table of
    /// contents or included pages) are parsed.
    pub enable_page_syntax: bool,
    /// Whether element ids are used as written rather than prefixed.
    pub use_true_ids: bool,
    /// Whether links to files on this site may use local paths.
    pub allow_local_paths: bool,
}

impl WikitextSettings {
    /// The settings for a context: pages and drafts get everything, lists get
    /// page syntax and local paths but not true ids, forum posts and direct
    /// messages get none of the three.
    pub fn from_mode(mode: WikitextMode) -> (r: WikitextSettings)
        ensures
            r.mode == mode,
            r.enable_page_syntax == (mode == WikitextMode::Page || mode == WikitextMode::Draft
                || mode == WikitextMode::List),
            r.use_true_ids == (mode == WikitextMode::Page || mode == WikitextMode::Draft),
            r.allow_local_paths == (mode == WikitextMode::Page || mode == WikitextMode::Draft
                || mode == WikitextMode::List),
    {
        match mode {
            WikitextMode::Page | WikitextMode::Draft => WikitextSettings {
                mode,
                enable_page_syntax: true,
                use_true_ids: true,
                allow_local_paths: true,
            },
            WikitextMode::ForumPost | WikitextMode::DirectMessage => WikitextSettings {
                mode,
                enable_page_syntax: false,
                use_true_ids: false,
                allow_local_paths: false,
            },
            WikitextMode::List => WikitextSettings {
                mode,
                enable_page_syntax: true,
                use_true_ids: false,
                allow_local_paths: true,
            },
        }
    }
}

} // verus!
