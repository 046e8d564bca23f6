//! Markup: a text together with the language it is written in.

use vstd::prelude::*;
use vstd::string::StringExecFns;

verus! {

/// The language of a markup text.
#[derive(PartialEq, Debug, Eq, Clone, Copy, Structural)]
pub enum MarkupLang {
    Html,
    Md,
}

/// A text and its language. The text is owned; the language of a value
/// never changes.
#[derive(Debug)]
pub struct Markup {
    pub text: String,
    pub lang: MarkupLang,
}

/// The mathematical value of a markup.
pub ghost struct MarkupView {
    pub text: Seq<char>,
    pub lang: MarkupLang,
}

impl View for Markup {
    type V = MarkupView;

    open spec fn view(&self) -> MarkupView {
        MarkupView { text: self.text@, lang: self.lang }
    }
}

impl MarkupLang {
    /// A markup in this language.
    pub fn with_text(self, text: String) -> (r: Markup)
        ensures
            r@ == (MarkupView { text: text@, lang: self }),
    {
        Markup::new(text, self)
    }

    /// The language's short name: `html` or `md`.
    pub open spec fn name_spec(self) -> Seq<char> {
        match self {
            MarkupLang::Html => "html"@,
            MarkupLang::Md => "md"@,
        }
    }

    /// The language's short name: `html` or `md`.
    pub fn name(&self) -> (r: &'static str)
        ensures
            r@ == self.name_spec(),
    {
        match self {
            MarkupLang::Html => "html",
            MarkupLang::Md => "md",
        }
    }
}

impl Default for MarkupLang {
    fn default() -> (r: Self)
        ensures
            r == MarkupLang::Md,
    {
        MarkupLang::Md
    }
}

impl Markup {
    pub fn new(text: String, lang: MarkupLang) -> (r: Self)
        ensures
            r@ == (MarkupView { text: text@, lang }),
    {
        Self { text, lang }
    }

    pub fn html(text: String) -> (r: Self)
        ensures
            r@ == (MarkupView { text: text@, lang: MarkupLang::Html }),
    {
        Self { text, lang: MarkupLang::Html }
    }

    pub fn md(text: String) -> (r: Self)
        ensures
            r@ == (MarkupView { text: text@, lang: MarkupLang::Md }),
    {
        Self { text, lang: MarkupLang::Md }
    }

    pub fn html_str(text: &str) -> (r: Self)
        ensures
            r@ == (MarkupView { text: text@, lang: MarkupLang::Html }),
    {
        Self { text: String::from_str(text), lang: MarkupLang::Html }
    }

    pub fn md_str(text: &str) -> (r: Self)
        ensures
            r@ == (MarkupView { text: text@, lang: MarkupLang::Md }),
    {
        Self { text: String::from_str(text), lang: MarkupLang::Md }
    }

    /// A new markup in the same language, with `text` in place of the text.
    pub fn with_text(&self, text: String) -> (r: Self)
        ensures
            r@ == (MarkupView { text: text@, lang: self.lang }),
    {
        Self { text, lang: self.lang }
    }

    /// The text.
    pub fn markup(&self) -> (r: &String)
        ensures
            r@ == self@.text,
    {
        &self.text
    }

    /// The text, without the language.
    pub fn into_text(self) -> (r: String)
        ensures
            r@ == self@.text,
    {
        self.text
    }

    /// The markup as `lang[text]`, to show it.
    pub fn label(&self) -> (r: String)
        ensures
            r@ == self.lang.name_spec() + seq!['['] + self.text@ + seq![']'],
    {
        let mut r = String::from_str(self.lang.name());
        proof {
            reveal_strlit("[");
            reveal_strlit("]");
            assert("["@ =~= seq!['[']);
            assert("]"@ =~= seq![']']);
        }
        r.append("[");
        r.append(self.text.as_str());
        r.append("]");
        r
    }
}

impl Clone for Markup {
    fn clone(&self) -> (r: Self)
        ensures
            r@ == self@,
    {
        Self { text: self.text.clone(), lang: self.lang }
    }
}

impl Default for Markup {
    /// The empty Markdown text.
    fn default() -> (r: Self)
        ensures
            r@ == (MarkupView { text: Seq::empty(), lang: MarkupLang::Md }),
    {
        Self { text: String::new(), lang: MarkupLang::Md }
    }
}

impl PartialEq for Markup {
    fn eq(&self, other: &Self) -> (r: bool) {
        self.text == other.text && self.lang == other.lang
    }
}

impl Eq for Markup {

}

impl vstd::std_specs::cmp::PartialEqSpecImpl for Markup {
    open spec fn obeys_eq_spec() -> bool {
        true
    }

    open spec fn eq_spec(&self, other: &Self) -> bool {
        self@ == other@
    }
}

} // verus!
