//! Languages and message lookup.
pub mod es;

use vstd::prelude::*;

use crate::text::{chars_eq_str, chars_of, push_str, replace_all, replace_chars, string_of};

verus! {

/// A display language.
#[derive(PartialEq, Eq, Structural, Clone, Copy, Debug)]
pub enum Lang {
    Es,
    En,
    PtBr,
}

/// The lowercase form of `s` that `str::to_lowercase` gives.
pub uninterp spec fn lowercase(s: Seq<char>) -> Seq<char>;

/// Calls `str::to_lowercase`, which maps each character to its lowercase form
/// by the Unicode `Lowercase` property; the contract names the result
/// (`lowercase`) and states nothing more of it.
#[verifier::external_body]
pub(crate) fn lowercase_string(s: &str) -> (res: String)
    ensures
        res@ == lowercase(s@),
{
    s.to_lowercase()
}

/// The language that a lowercase locale name selects; Spanish by default.
pub open spec fn lang_for(lowered: Seq<char>) -> Lang {
    if lowered == "en"@ || lowered == "en-us"@ || lowered == "en-gb"@ {
        Lang::En
    } else if lowered == "pt"@ || lowered == "pt-br"@ || lowered == "pt_br"@ {
        Lang::PtBr
    } else {
        Lang::Es
    }
}

/// The text of `key` in `locale`: every language reads the Spanish catalogue.
pub open spec fn translation(locale: Lang, key: Seq<char>) -> Seq<char> {
    es::es_text(key)
}

/// The placeholder `{name}`.
pub open spec fn placeholder(name: Seq<char>) -> Seq<char> {
    seq!['{'] + name + seq!['}']
}

/// `template` with each `{name}` of `args` replaced by its value, the
/// arguments applied in order.
pub open spec fn fill(template: Seq<char>, args: Seq<(Seq<char>, Seq<char>)>) -> Seq<char>
    decreases args.len(),
{
    if args.len() == 0 {
        template
    } else {
        fill(replace_all(template, placeholder(args[0].0), args[0].1), args.drop_first())
    }
}

/// The arguments of a message by their text.
pub open spec fn args_view(args: Seq<(&str, &str)>) -> Seq<(Seq<char>, Seq<char>)> {
    args.map_values(|a: (&str, &str)| (a.0@, a.1@))
}

/// The text of message `key` in `locale`, its placeholders filled from `args`.
pub open spec fn message_text(locale: Lang, key: Seq<char>, args: Seq<(Seq<char>, Seq<char>)>) -> Seq<
    char,
> {
    fill(translation(locale, key), args)
}

impl Lang {
    /// The language a lowercase locale name selects.
    pub fn from_lowercase(lowered: &str) -> (res: Lang)
        ensures
            res == lang_for(lowered@),
    {
        let k = chars_of(lowered);
        if chars_eq_str(&k, "en") || chars_eq_str(&k, "en-us") || chars_eq_str(&k, "en-gb") {
            Lang::En
        } else if chars_eq_str(&k, "pt") || chars_eq_str(&k, "pt-br") || chars_eq_str(
            &k,
            "pt_br",
        ) {
            Lang::PtBr
        } else {
            Lang::Es
        }
    }

    /// The language a locale name selects, compared without regard to case.
    pub fn parse(value: &str) -> (res: Lang)
        ensures
            res == lang_for(lowercase(value@)),
    {
        let lowered = lowercase_string(value);
        Lang::from_lowercase(lowered.as_str())
    }
}

/// The text of `key` in `locale`.
fn translate(locale: Lang, key: &str) -> (res: &'static str)
    ensures
        res@ == translation(locale, key@),
{
    match locale {
        Lang::Es => es::translate(key),
        _ => es::translate(key),
    }
}

/// The text of `key` in `locale`, or empty text for an unknown key.
pub fn text(locale: Lang, key: &str) -> (res: String)
    ensures
        res@ == translation(locale, key@),
{
    translate(locale, key).to_owned()
}

/// The text of `key` in `locale`, each `{name}` of `args` replaced by its value.
pub fn message(locale: Lang, key: &str, args: &[(&str, &str)]) -> (res: String)
    ensures
        res@ == message_text(locale, key@, args_view(args@)),
{
    let mut template = chars_of(translate(locale, key));
    let mut i: usize = 0;
    assert(args_view(args@).skip(0) =~= args_view(args@));
    while i < args.len()
        invariant
            i <= args@.len(),
            message_text(locale, key@, args_view(args@)) == fill(
                template@,
                args_view(args@).skip(i as int),
            ),
        decreases args@.len() - i,
    {
        let (name, value) = args[i];
        let mut pat: Vec<char> = Vec::new();
        pat.push('{');
        push_str(&mut pat, name);
        pat.push('}');
        let val = chars_of(value);
        proof {
            assert(pat@ =~= placeholder(name@));
            let rest = args_view(args@).skip(i as int);
            assert(rest[0] == (name@, value@));
            assert(rest.drop_first() =~= args_view(args@).skip(i + 1));
        }
        template = replace_chars(&template, &pat, &val);
        i = i + 1;
    }
    string_of(&template)
}

/// The text of `key` in `locale`, for a key given as characters.
pub fn text_of(locale: Lang, key: &[char]) -> (res: String)
    ensures
        res@ == translation(locale, key@),
{
    let k = string_of(key);
    text(locale, k.as_str())
}

} // verus!
