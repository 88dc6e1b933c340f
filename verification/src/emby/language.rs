//! Languages of streams: codes, English names and what a subtitle's file name tells.

use vstd::prelude::*;
use vstd::string::*;

use crate::text::{
    contains_text, join3, lower, lower_char, lowered, occurs, occurs_at, opt, opt_str, same,
};

verus! {

/// The English name of a language code in lower case.
pub open spec fn lower_language_of(c: Seq<char>) -> Option<Seq<char>> {
    if c == "eng"@ || c == "en"@ {
        Some("English"@)
    } else if c == "jpn"@ || c == "ja"@ {
        Some("Japanese"@)
    } else if c == "chi"@ || c == "zho"@ || c == "cmn"@ || c == "zh"@ {
        Some("Chinese"@)
    } else if c == "spa"@ || c == "es"@ {
        Some("Spanish"@)
    } else if c == "por"@ || c == "pt"@ {
        Some("Portuguese"@)
    } else if c == "fre"@ || c == "fra"@ || c == "fr"@ {
        Some("French"@)
    } else if c == "ger"@ || c == "deu"@ || c == "de"@ {
        Some("German"@)
    } else if c == "ara"@ || c == "ar"@ {
        Some("Arabic"@)
    } else if c == "ita"@ || c == "it"@ {
        Some("Italian"@)
    } else if c == "rus"@ || c == "ru"@ {
        Some("Russian"@)
    } else if c == "tha"@ || c == "th"@ {
        Some("Thai"@)
    } else if c == "vie"@ || c == "vi"@ {
        Some("Vietnamese"@)
    } else if c == "ind"@ || c == "id"@ {
        Some("Indonesian"@)
    } else if c == "may"@ || c == "msa"@ || c == "ms"@ {
        Some("Malay"@)
    } else if c == "kor"@ || c == "ko"@ {
        Some("Korean"@)
    } else if c == "nld"@ || c == "dut"@ || c == "nl"@ {
        Some("Dutch"@)
    } else if c == "pol"@ || c == "pl"@ {
        Some("Polish"@)
    } else if c == "tur"@ || c == "tr"@ {
        Some("Turkish"@)
    } else if c == "swe"@ || c == "sv"@ {
        Some("Swedish"@)
    } else if c == "nor"@ || c == "no"@ {
        Some("Norwegian"@)
    } else if c == "dan"@ || c == "da"@ {
        Some("Danish"@)
    } else if c == "fin"@ || c == "fi"@ {
        Some("Finnish"@)
    } else if c == "heb"@ || c == "he"@ {
        Some("Hebrew"@)
    } else if c == "hin"@ || c == "hi"@ {
        Some("Hindi"@)
    } else if c == "ben"@ || c == "bn"@ {
        Some("Bengali"@)
    } else if c == "tam"@ || c == "ta"@ {
        Some("Tamil"@)
    } else if c == "tel"@ || c == "te"@ {
        Some("Telugu"@)
    } else if c == "ukr"@ || c == "uk"@ {
        Some("Ukrainian"@)
    } else if c == "ces"@ || c == "cze"@ || c == "cs"@ {
        Some("Czech"@)
    } else if c == "hun"@ || c == "hu"@ {
        Some("Hungarian"@)
    } else if c == "ell"@ || c == "gre"@ || c == "el"@ {
        Some("Greek"@)
    } else if c == "cat"@ || c == "ca"@ {
        Some("Catalan"@)
    } else if c == "yue"@ {
        Some("Chinese (Cantonese)"@)
    } else {
        None
    }
}

/// The English name of a language code, in whatever case it is written.
pub open spec fn language_of(code: Seq<char>) -> Option<Seq<char>> {
    lower_language_of(lower(code))
}

/// The English name of a language code.
pub fn language_name(code: &str) -> (r: Option<&'static str>)
    ensures
        opt_str(r) == language_of(code@),
{
    let l = lowered(code);
    let c = l.as_str();
    if same(c, "eng") || same(c, "en") {
        Some("English")
    } else if same(c, "jpn") || same(c, "ja") {
        Some("Japanese")
    } else if same(c, "chi") || same(c, "zho") || same(c, "cmn") || same(c, "zh") {
        Some("Chinese")
    } else if same(c, "spa") || same(c, "es") {
        Some("Spanish")
    } else if same(c, "por") || same(c, "pt") {
        Some("Portuguese")
    } else if same(c, "fre") || same(c, "fra") || same(c, "fr") {
        Some("French")
    } else if same(c, "ger") || same(c, "deu") || same(c, "de") {
        Some("German")
    } else if same(c, "ara") || same(c, "ar") {
        Some("Arabic")
    } else if same(c, "ita") || same(c, "it") {
        Some("Italian")
    } else if same(c, "rus") || same(c, "ru") {
        Some("Russian")
    } else if same(c, "tha") || same(c, "th") {
        Some("Thai")
    } else if same(c, "vie") || same(c, "vi") {
        Some("Vietnamese")
    } else if same(c, "ind") || same(c, "id") {
        Some("Indonesian")
    } else if same(c, "may") || same(c, "msa") || same(c, "ms") {
        Some("Malay")
    } else if same(c, "kor") || same(c, "ko") {
        Some("Korean")
    } else if same(c, "nld") || same(c, "dut") || same(c, "nl") {
        Some("Dutch")
    } else if same(c, "pol") || same(c, "pl") {
        Some("Polish")
    } else if same(c, "tur") || same(c, "tr") {
        Some("Turkish")
    } else if same(c, "swe") || same(c, "sv") {
        Some("Swedish")
    } else if same(c, "nor") || same(c, "no") {
        Some("Norwegian")
    } else if same(c, "dan") || same(c, "da") {
        Some("Danish")
    } else if same(c, "fin") || same(c, "fi") {
        Some("Finnish")
    } else if same(c, "heb") || same(c, "he") {
        Some("Hebrew")
    } else if same(c, "hin") || same(c, "hi") {
        Some("Hindi")
    } else if same(c, "ben") || same(c, "bn") {
        Some("Bengali")
    } else if same(c, "tam") || same(c, "ta") {
        Some("Tamil")
    } else if same(c, "tel") || same(c, "te") {
        Some("Telugu")
    } else if same(c, "ukr") || same(c, "uk") {
        Some("Ukrainian")
    } else if same(c, "ces") || same(c, "cze") || same(c, "cs") {
        Some("Czech")
    } else if same(c, "hun") || same(c, "hu") {
        Some("Hungarian")
    } else if same(c, "ell") || same(c, "gre") || same(c, "el") {
        Some("Greek")
    } else if same(c, "cat") || same(c, "ca") {
        Some("Catalan")
    } else if same(c, "yue") {
        Some("Chinese (Cantonese)")
    } else {
        None
    }
}

/// The English name of a language, or the code itself where it has none here.
pub open spec fn shown_language(code: Option<Seq<char>>) -> Option<Seq<char>> {
    match code {
        Some(c) => match language_of(c) {
            Some(name) => Some(name),
            None => Some(c),
        },
        None => None,
    }
}

/// The English name of a language, or the code itself where it has none here.
pub fn display_language(code: &Option<String>) -> (r: Option<String>)
    ensures
        opt(r) == shown_language(opt(*code)),
{
    match code {
        Some(c) => match language_name(c.as_str()) {
            Some(name) => Some(name.to_owned()),
            None => Some(c.clone()),
        },
        None => None,
    }
}

/// Whether `mark` stands between two dots of a file name, in whatever case.
pub open spec fn marked(title: Seq<char>, mark: Seq<char>) -> bool {
    occurs(lower(title), "."@ + mark + "."@)
}

/// The language that the marks in a subtitle's file name tell.
pub open spec fn marked_language(title: Seq<char>) -> Option<Seq<char>> {
    if marked(title, "zh"@) || marked(title, "chi"@) || marked(title, "chs"@)
        || marked(title, "cht"@) || marked(title, "sc"@) || marked(title, "tc"@)
        || marked(title, "cn"@) || marked(title, "yue"@) {
        Some("chi"@)
    } else if marked(title, "jp"@) || marked(title, "jpn"@) || marked(title, "ja"@)
        || marked(title, "jpsc"@) || marked(title, "jptc"@) {
        Some("jpn"@)
    } else if marked(title, "eng"@) || marked(title, "en"@) || marked(title, "gb"@)
        || marked(title, "us"@) {
        Some("eng"@)
    } else if marked(title, "kor"@) || marked(title, "ko"@) || marked(title, "kr"@) {
        Some("kor"@)
    } else if marked(title, "fre"@) || marked(title, "fr"@) || marked(title, "fra"@) {
        Some("fre"@)
    } else if marked(title, "ger"@) || marked(title, "de"@) || marked(title, "deu"@) {
        Some("ger"@)
    } else if marked(title, "spa"@) || marked(title, "es"@) || marked(title, "esp"@) {
        Some("spa"@)
    } else if marked(title, "ita"@) || marked(title, "it"@) {
        Some("ita"@)
    } else if marked(title, "rus"@) || marked(title, "ru"@) {
        Some("rus"@)
    } else if marked(title, "tha"@) || marked(title, "th"@) {
        Some("tha"@)
    } else if marked(title, "vie"@) || marked(title, "vi"@) {
        Some("vie"@)
    } else if marked(title, "por"@) || marked(title, "pt"@) {
        Some("por"@)
    } else if marked(title, "ara"@) || marked(title, "ar"@) {
        Some("ara"@)
    } else {
        None
    }
}

fn has_mark(title: &str, mark: &str) -> (r: bool)
    ensures
        r == marked(title@, mark@),
{
    let l = lowered(title);
    let pat = join3(".", mark, ".");
    contains_text(l.as_str(), pat.as_str())
}

fn mark_language(title: &str) -> (r: Option<&'static str>)
    ensures
        opt_str(r) == marked_language(title@),
{
    if has_mark(title, "zh") || has_mark(title, "chi") || has_mark(title, "chs")
        || has_mark(title, "cht") || has_mark(title, "sc") || has_mark(title, "tc")
        || has_mark(title, "cn") || has_mark(title, "yue") {
        Some("chi")
    } else if has_mark(title, "jp") || has_mark(title, "jpn") || has_mark(title, "ja")
        || has_mark(title, "jpsc") || has_mark(title, "jptc") {
        Some("jpn")
    } else if has_mark(title, "eng") || has_mark(title, "en") || has_mark(title, "gb")
        || has_mark(title, "us") {
        Some("eng")
    } else if has_mark(title, "kor") || has_mark(title, "ko") || has_mark(title, "kr") {
        Some("kor")
    } else if has_mark(title, "fre") || has_mark(title, "fr") || has_mark(title, "fra") {
        Some("fre")
    } else if has_mark(title, "ger") || has_mark(title, "de") || has_mark(title, "deu") {
        Some("ger")
    } else if has_mark(title, "spa") || has_mark(title, "es") || has_mark(title, "esp") {
        Some("spa")
    } else if has_mark(title, "ita") || has_mark(title, "it") {
        Some("ita")
    } else if has_mark(title, "rus") || has_mark(title, "ru") {
        Some("rus")
    } else if has_mark(title, "tha") || has_mark(title, "th") {
        Some("tha")
    } else if has_mark(title, "vie") || has_mark(title, "vi") {
        Some("vie")
    } else if has_mark(title, "por") || has_mark(title, "pt") {
        Some("por")
    } else if has_mark(title, "ara") || has_mark(title, "ar") {
        Some("ara")
    } else {
        None
    }
}

/// The language that the marks in a subtitle's file name tell.
pub fn external_subtitle_language(title: &str) -> (r: Option<String>)
    ensures
        opt(r) == marked_language(title@),
{
    match mark_language(title) {
        Some(l) => Some(l.to_owned()),
        None => None,
    }
}

// ---------------------------------------------------------------------------
// What codes stand for

proof fn lemma_code_letters()
    ensures
        "ar"@.len() == 2 && "ar"@[0] == 'a' && "ar"@[1] == 'r',
        "ara"@.len() == 3 && "ara"@[0] == 'a' && "ara"@[1] == 'r' && "ara"@[2] == 'a',
        "ben"@.len() == 3 && "ben"@[0] == 'b' && "ben"@[1] == 'e' && "ben"@[2] == 'n',
        "bn"@.len() == 2 && "bn"@[0] == 'b' && "bn"@[1] == 'n',
        "ca"@.len() == 2 && "ca"@[0] == 'c' && "ca"@[1] == 'a',
        "cat"@.len() == 3 && "cat"@[0] == 'c' && "cat"@[1] == 'a' && "cat"@[2] == 't',
        "ces"@.len() == 3 && "ces"@[0] == 'c' && "ces"@[1] == 'e' && "ces"@[2] == 's',
        "chi"@.len() == 3 && "chi"@[0] == 'c' && "chi"@[1] == 'h' && "chi"@[2] == 'i',
        "chs"@.len() == 3 && "chs"@[0] == 'c' && "chs"@[1] == 'h' && "chs"@[2] == 's',
        "cht"@.len() == 3 && "cht"@[0] == 'c' && "cht"@[1] == 'h' && "cht"@[2] == 't',
        "cmn"@.len() == 3 && "cmn"@[0] == 'c' && "cmn"@[1] == 'm' && "cmn"@[2] == 'n',
        "cn"@.len() == 2 && "cn"@[0] == 'c' && "cn"@[1] == 'n',
        "cs"@.len() == 2 && "cs"@[0] == 'c' && "cs"@[1] == 's',
        "cze"@.len() == 3 && "cze"@[0] == 'c' && "cze"@[1] == 'z' && "cze"@[2] == 'e',
        "da"@.len() == 2 && "da"@[0] == 'd' && "da"@[1] == 'a',
        "dan"@.len() == 3 && "dan"@[0] == 'd' && "dan"@[1] == 'a' && "dan"@[2] == 'n',
        "de"@.len() == 2 && "de"@[0] == 'd' && "de"@[1] == 'e',
        "deu"@.len() == 3 && "deu"@[0] == 'd' && "deu"@[1] == 'e' && "deu"@[2] == 'u',
        "dut"@.len() == 3 && "dut"@[0] == 'd' && "dut"@[1] == 'u' && "dut"@[2] == 't',
        "el"@.len() == 2 && "el"@[0] == 'e' && "el"@[1] == 'l',
        "ell"@.len() == 3 && "ell"@[0] == 'e' && "ell"@[1] == 'l' && "ell"@[2] == 'l',
        "en"@.len() == 2 && "en"@[0] == 'e' && "en"@[1] == 'n',
        "eng"@.len() == 3 && "eng"@[0] == 'e' && "eng"@[1] == 'n' && "eng"@[2] == 'g',
        "es"@.len() == 2 && "es"@[0] == 'e' && "es"@[1] == 's',
        "esp"@.len() == 3 && "esp"@[0] == 'e' && "esp"@[1] == 's' && "esp"@[2] == 'p',
        "fi"@.len() == 2 && "fi"@[0] == 'f' && "fi"@[1] == 'i',
        "fin"@.len() == 3 && "fin"@[0] == 'f' && "fin"@[1] == 'i' && "fin"@[2] == 'n',
        "fr"@.len() == 2 && "fr"@[0] == 'f' && "fr"@[1] == 'r',
        "fra"@.len() == 3 && "fra"@[0] == 'f' && "fra"@[1] == 'r' && "fra"@[2] == 'a',
        "fre"@.len() == 3 && "fre"@[0] == 'f' && "fre"@[1] == 'r' && "fre"@[2] == 'e',
        "gb"@.len() == 2 && "gb"@[0] == 'g' && "gb"@[1] == 'b',
        "ger"@.len() == 3 && "ger"@[0] == 'g' && "ger"@[1] == 'e' && "ger"@[2] == 'r',
        "gre"@.len() == 3 && "gre"@[0] == 'g' && "gre"@[1] == 'r' && "gre"@[2] == 'e',
        "he"@.len() == 2 && "he"@[0] == 'h' && "he"@[1] == 'e',
        "heb"@.len() == 3 && "heb"@[0] == 'h' && "heb"@[1] == 'e' && "heb"@[2] == 'b',
        "hi"@.len() == 2 && "hi"@[0] == 'h' && "hi"@[1] == 'i',
        "hin"@.len() == 3 && "hin"@[0] == 'h' && "hin"@[1] == 'i' && "hin"@[2] == 'n',
        "hu"@.len() == 2 && "hu"@[0] == 'h' && "hu"@[1] == 'u',
        "hun"@.len() == 3 && "hun"@[0] == 'h' && "hun"@[1] == 'u' && "hun"@[2] == 'n',
        "id"@.len() == 2 && "id"@[0] == 'i' && "id"@[1] == 'd',
        "ind"@.len() == 3 && "ind"@[0] == 'i' && "ind"@[1] == 'n' && "ind"@[2] == 'd',
        "it"@.len() == 2 && "it"@[0] == 'i' && "it"@[1] == 't',
        "ita"@.len() == 3 && "ita"@[0] == 'i' && "ita"@[1] == 't' && "ita"@[2] == 'a',
        "ja"@.len() == 2 && "ja"@[0] == 'j' && "ja"@[1] == 'a',
        "jp"@.len() == 2 && "jp"@[0] == 'j' && "jp"@[1] == 'p',
        "jpn"@.len() == 3 && "jpn"@[0] == 'j' && "jpn"@[1] == 'p' && "jpn"@[2] == 'n',
        "jpsc"@.len() == 4 && "jpsc"@[0] == 'j' && "jpsc"@[1] == 'p' && "jpsc"@[2] == 's' && "jpsc"@[3] == 'c',
        "jptc"@.len() == 4 && "jptc"@[0] == 'j' && "jptc"@[1] == 'p' && "jptc"@[2] == 't' && "jptc"@[3] == 'c',
        "ko"@.len() == 2 && "ko"@[0] == 'k' && "ko"@[1] == 'o',
        "kor"@.len() == 3 && "kor"@[0] == 'k' && "kor"@[1] == 'o' && "kor"@[2] == 'r',
        "kr"@.len() == 2 && "kr"@[0] == 'k' && "kr"@[1] == 'r',
        "may"@.len() == 3 && "may"@[0] == 'm' && "may"@[1] == 'a' && "may"@[2] == 'y',
        "ms"@.len() == 2 && "ms"@[0] == 'm' && "ms"@[1] == 's',
        "msa"@.len() == 3 && "msa"@[0] == 'm' && "msa"@[1] == 's' && "msa"@[2] == 'a',
        "nl"@.len() == 2 && "nl"@[0] == 'n' && "nl"@[1] == 'l',
        "nld"@.len() == 3 && "nld"@[0] == 'n' && "nld"@[1] == 'l' && "nld"@[2] == 'd',
        "no"@.len() == 2 && "no"@[0] == 'n' && "no"@[1] == 'o',
        "nor"@.len() == 3 && "nor"@[0] == 'n' && "nor"@[1] == 'o' && "nor"@[2] == 'r',
        "pl"@.len() == 2 && "pl"@[0] == 'p' && "pl"@[1] == 'l',
        "pol"@.len() == 3 && "pol"@[0] == 'p' && "pol"@[1] == 'o' && "pol"@[2] == 'l',
        "por"@.len() == 3 && "por"@[0] == 'p' && "por"@[1] == 'o' && "por"@[2] == 'r',
        "pt"@.len() == 2 && "pt"@[0] == 'p' && "pt"@[1] == 't',
        "ru"@.len() == 2 && "ru"@[0] == 'r' && "ru"@[1] == 'u',
        "rus"@.len() == 3 && "rus"@[0] == 'r' && "rus"@[1] == 'u' && "rus"@[2] == 's',
        "sc"@.len() == 2 && "sc"@[0] == 's' && "sc"@[1] == 'c',
        "spa"@.len() == 3 && "spa"@[0] == 's' && "spa"@[1] == 'p' && "spa"@[2] == 'a',
        "sv"@.len() == 2 && "sv"@[0] == 's' && "sv"@[1] == 'v',
        "swe"@.len() == 3 && "swe"@[0] == 's' && "swe"@[1] == 'w' && "swe"@[2] == 'e',
        "ta"@.len() == 2 && "ta"@[0] == 't' && "ta"@[1] == 'a',
        "tam"@.len() == 3 && "tam"@[0] == 't' && "tam"@[1] == 'a' && "tam"@[2] == 'm',
        "tc"@.len() == 2 && "tc"@[0] == 't' && "tc"@[1] == 'c',
        "te"@.len() == 2 && "te"@[0] == 't' && "te"@[1] == 'e',
        "tel"@.len() == 3 && "tel"@[0] == 't' && "tel"@[1] == 'e' && "tel"@[2] == 'l',
        "th"@.len() == 2 && "th"@[0] == 't' && "th"@[1] == 'h',
        "tha"@.len() == 3 && "tha"@[0] == 't' && "tha"@[1] == 'h' && "tha"@[2] == 'a',
        "tr"@.len() == 2 && "tr"@[0] == 't' && "tr"@[1] == 'r',
        "tur"@.len() == 3 && "tur"@[0] == 't' && "tur"@[1] == 'u' && "tur"@[2] == 'r',
        "uk"@.len() == 2 && "uk"@[0] == 'u' && "uk"@[1] == 'k',
        "ukr"@.len() == 3 && "ukr"@[0] == 'u' && "ukr"@[1] == 'k' && "ukr"@[2] == 'r',
        "us"@.len() == 2 && "us"@[0] == 'u' && "us"@[1] == 's',
        "vi"@.len() == 2 && "vi"@[0] == 'v' && "vi"@[1] == 'i',
        "vie"@.len() == 3 && "vie"@[0] == 'v' && "vie"@[1] == 'i' && "vie"@[2] == 'e',
        "yue"@.len() == 3 && "yue"@[0] == 'y' && "yue"@[1] == 'u' && "yue"@[2] == 'e',
        "zh"@.len() == 2 && "zh"@[0] == 'z' && "zh"@[1] == 'h',
        "zho"@.len() == 3 && "zho"@[0] == 'z' && "zho"@[1] == 'h' && "zho"@[2] == 'o',
{
    reveal_strlit("ar");
    reveal_strlit("ara");
    reveal_strlit("ben");
    reveal_strlit("bn");
    reveal_strlit("ca");
    reveal_strlit("cat");
    reveal_strlit("ces");
    reveal_strlit("chi");
    reveal_strlit("chs");
    reveal_strlit("cht");
    reveal_strlit("cmn");
    reveal_strlit("cn");
    reveal_strlit("cs");
    reveal_strlit("cze");
    reveal_strlit("da");
    reveal_strlit("dan");
    reveal_strlit("de");
    reveal_strlit("deu");
    reveal_strlit("dut");
    reveal_strlit("el");
    reveal_strlit("ell");
    reveal_strlit("en");
    reveal_strlit("eng");
    reveal_strlit("es");
    reveal_strlit("esp");
    reveal_strlit("fi");
    reveal_strlit("fin");
    reveal_strlit("fr");
    reveal_strlit("fra");
    reveal_strlit("fre");
    reveal_strlit("gb");
    reveal_strlit("ger");
    reveal_strlit("gre");
    reveal_strlit("he");
    reveal_strlit("heb");
    reveal_strlit("hi");
    reveal_strlit("hin");
    reveal_strlit("hu");
    reveal_strlit("hun");
    reveal_strlit("id");
    reveal_strlit("ind");
    reveal_strlit("it");
    reveal_strlit("ita");
    reveal_strlit("ja");
    reveal_strlit("jp");
    reveal_strlit("jpn");
    reveal_strlit("jpsc");
    reveal_strlit("jptc");
    reveal_strlit("ko");
    reveal_strlit("kor");
    reveal_strlit("kr");
    reveal_strlit("may");
    reveal_strlit("ms");
    reveal_strlit("msa");
    reveal_strlit("nl");
    reveal_strlit("nld");
    reveal_strlit("no");
    reveal_strlit("nor");
    reveal_strlit("pl");
    reveal_strlit("pol");
    reveal_strlit("por");
    reveal_strlit("pt");
    reveal_strlit("ru");
    reveal_strlit("rus");
    reveal_strlit("sc");
    reveal_strlit("spa");
    reveal_strlit("sv");
    reveal_strlit("swe");
    reveal_strlit("ta");
    reveal_strlit("tam");
    reveal_strlit("tc");
    reveal_strlit("te");
    reveal_strlit("tel");
    reveal_strlit("th");
    reveal_strlit("tha");
    reveal_strlit("tr");
    reveal_strlit("tur");
    reveal_strlit("uk");
    reveal_strlit("ukr");
    reveal_strlit("us");
    reveal_strlit("vi");
    reveal_strlit("vie");
    reveal_strlit("yue");
    reveal_strlit("zh");
    reveal_strlit("zho");
}

/// The languages by their codes of two and of three letters.
pub proof fn law_languages()
    ensures
        lower_language_of("eng"@) == Some("English"@),
        lower_language_of("en"@) == Some("English"@),
        lower_language_of("jpn"@) == Some("Japanese"@),
        lower_language_of("ja"@) == Some("Japanese"@),
        lower_language_of("chi"@) == Some("Chinese"@),
        lower_language_of("zho"@) == Some("Chinese"@),
        lower_language_of("cmn"@) == Some("Chinese"@),
        lower_language_of("zh"@) == Some("Chinese"@),
        lower_language_of("spa"@) == Some("Spanish"@),
        lower_language_of("es"@) == Some("Spanish"@),
        lower_language_of("por"@) == Some("Portuguese"@),
        lower_language_of("pt"@) == Some("Portuguese"@),
        lower_language_of("fre"@) == Some("French"@),
        lower_language_of("fra"@) == Some("French"@),
        lower_language_of("fr"@) == Some("French"@),
        lower_language_of("ger"@) == Some("German"@),
        lower_language_of("deu"@) == Some("German"@),
        lower_language_of("de"@) == Some("German"@),
        lower_language_of("ara"@) == Some("Arabic"@),
        lower_language_of("ar"@) == Some("Arabic"@),
        lower_language_of("ita"@) == Some("Italian"@),
        lower_language_of("it"@) == Some("Italian"@),
        lower_language_of("rus"@) == Some("Russian"@),
        lower_language_of("ru"@) == Some("Russian"@),
        lower_language_of("tha"@) == Some("Thai"@),
        lower_language_of("th"@) == Some("Thai"@),
        lower_language_of("vie"@) == Some("Vietnamese"@),
        lower_language_of("vi"@) == Some("Vietnamese"@),
        lower_language_of("ind"@) == Some("Indonesian"@),
        lower_language_of("id"@) == Some("Indonesian"@),
        lower_language_of("may"@) == Some("Malay"@),
        lower_language_of("msa"@) == Some("Malay"@),
        lower_language_of("ms"@) == Some("Malay"@),
        lower_language_of("kor"@) == Some("Korean"@),
        lower_language_of("ko"@) == Some("Korean"@),
        lower_language_of("nld"@) == Some("Dutch"@),
        lower_language_of("dut"@) == Some("Dutch"@),
        lower_language_of("nl"@) == Some("Dutch"@),
        lower_language_of("pol"@) == Some("Polish"@),
        lower_language_of("pl"@) == Some("Polish"@),
        lower_language_of("tur"@) == Some("Turkish"@),
        lower_language_of("tr"@) == Some("Turkish"@),
        lower_language_of("swe"@) == Some("Swedish"@),
        lower_language_of("sv"@) == Some("Swedish"@),
        lower_language_of("nor"@) == Some("Norwegian"@),
        lower_language_of("no"@) == Some("Norwegian"@),
        lower_language_of("dan"@) == Some("Danish"@),
        lower_language_of("da"@) == Some("Danish"@),
        lower_language_of("fin"@) == Some("Finnish"@),
        lower_language_of("fi"@) == Some("Finnish"@),
        lower_language_of("heb"@) == Some("Hebrew"@),
        lower_language_of("he"@) == Some("Hebrew"@),
        lower_language_of("hin"@) == Some("Hindi"@),
        lower_language_of("hi"@) == Some("Hindi"@),
        lower_language_of("ben"@) == Some("Bengali"@),
        lower_language_of("bn"@) == Some("Bengali"@),
        lower_language_of("tam"@) == Some("Tamil"@),
        lower_language_of("ta"@) == Some("Tamil"@),
        lower_language_of("tel"@) == Some("Telugu"@),
        lower_language_of("te"@) == Some("Telugu"@),
        lower_language_of("ukr"@) == Some("Ukrainian"@),
        lower_language_of("uk"@) == Some("Ukrainian"@),
        lower_language_of("ces"@) == Some("Czech"@),
        lower_language_of("cze"@) == Some("Czech"@),
        lower_language_of("cs"@) == Some("Czech"@),
        lower_language_of("hun"@) == Some("Hungarian"@),
        lower_language_of("hu"@) == Some("Hungarian"@),
        lower_language_of("ell"@) == Some("Greek"@),
        lower_language_of("gre"@) == Some("Greek"@),
        lower_language_of("el"@) == Some("Greek"@),
        lower_language_of("cat"@) == Some("Catalan"@),
        lower_language_of("ca"@) == Some("Catalan"@),
        lower_language_of("yue"@) == Some("Chinese (Cantonese)"@),
{
    lemma_code_letters();
}

/// A code that is too long is no language, and is shown as it is.
pub proof fn law_unknown_language(code: Seq<char>)
    requires
        code.len() > 3,
    ensures
        language_of(code) is None,
        shown_language(Some(code)) == Some(code),
        shown_language(None) is None,
{
    lemma_code_letters();
    assert(lower(code).len() == code.len());
}

proof fn lemma_only_mark(name: Seq<char>, mark: Seq<char>, ext: Seq<char>, other: Seq<char>)
    requires
        !name.contains('.') && !mark.contains('.') && !ext.contains('.') && !other.contains('.'),
    ensures
        occurs(name + "."@ + mark + "."@ + ext, "."@ + other + "."@) <==> mark == other,
{
    reveal_strlit(".");
    let s = name + "."@ + mark + "."@ + ext;
    let pat = "."@ + other + "."@;
    let a = name.len() as int;
    let b = a + 1 + mark.len();
    assert forall|i: int| 0 <= i < s.len() && #[trigger] s[i] == '.' implies i == a || i == b by {
        if i < a {
            assert(name[i] == '.');
        } else if a < i < b {
            assert(mark[i - a - 1] == '.');
        } else if i > b {
            assert(ext[i - b - 1] == '.');
        }
    }
    if mark == other {
        assert(s.subrange(a, a + pat.len()) =~= pat);
        assert(occurs_at(s, pat, a));
    }
    if occurs(s, pat) {
        let at = choose|at: int| #[trigger] occurs_at(s, pat, at);
        let part = s.subrange(at, at + pat.len());
        assert(part[0] == '.' && part[pat.len() - 1] == '.');
        assert(s[at] == '.' && s[at + pat.len() - 1] == '.');
        assert(pat.len() == other.len() + 2);
        assert(at == a && at + pat.len() - 1 == b);
        assert forall|i: int| 0 <= i < other.len() implies other[i] == mark[i] by {
            assert(part[i + 1] == other[i]);
            assert(s[at + i + 1] == mark[i]);
        }
        assert(other =~= mark);
    }
}

/// The mark of a subtitle file, between the last two dots of its name, tells its
/// language; a file without a known mark does not tell one.
pub proof fn law_marked_languages(name: Seq<char>, mark: Seq<char>, ext: Seq<char>)
    requires
        !name.contains('.') && !mark.contains('.') && !ext.contains('.'),
        lower(mark) == mark,
    ensures
        ({
            let title = name + "."@ + mark + "."@ + ext;
            let code = marked_language(title);
            &&& mark == "zh"@ || mark == "chi"@ || mark == "chs"@ || mark == "cht"@ || mark == "sc"@ || mark == "tc"@ || mark == "cn"@ || mark == "yue"@ ==> code == Some("chi"@)
            &&& mark == "jp"@ || mark == "jpn"@ || mark == "ja"@ || mark == "jpsc"@ || mark == "jptc"@ ==> code == Some("jpn"@)
            &&& mark == "eng"@ || mark == "en"@ || mark == "gb"@ || mark == "us"@ ==> code == Some("eng"@)
            &&& mark == "kor"@ || mark == "ko"@ || mark == "kr"@ ==> code == Some("kor"@)
            &&& mark == "fre"@ || mark == "fr"@ || mark == "fra"@ ==> code == Some("fre"@)
            &&& mark == "ger"@ || mark == "de"@ || mark == "deu"@ ==> code == Some("ger"@)
            &&& mark == "spa"@ || mark == "es"@ || mark == "esp"@ ==> code == Some("spa"@)
            &&& mark == "ita"@ || mark == "it"@ ==> code == Some("ita"@)
            &&& mark == "rus"@ || mark == "ru"@ ==> code == Some("rus"@)
            &&& mark == "tha"@ || mark == "th"@ ==> code == Some("tha"@)
            &&& mark == "vie"@ || mark == "vi"@ ==> code == Some("vie"@)
            &&& mark == "por"@ || mark == "pt"@ ==> code == Some("por"@)
            &&& mark == "ara"@ || mark == "ar"@ ==> code == Some("ara"@)
            &&& mark.len() > 4 || mark.len() < 2 ==> code is None
        }),
{
    lemma_code_letters();
    reveal_strlit(".");
    let title = name + "."@ + mark + "."@ + ext;
    let low = lower(name) + "."@ + lower(mark) + "."@ + lower(ext);
    assert(lower(title) =~= low);
    assert(!lower(name).contains('.') && !lower(ext).contains('.')) by {
        if lower(name).contains('.') {
            let i = choose|i: int| 0 <= i < lower(name).len() && lower(name)[i] == '.';
            assert(lower(name)[i] == lower_char(name[i]));
            assert(name[i] == '.');
        }
        if lower(ext).contains('.') {
            let i = choose|i: int| 0 <= i < lower(ext).len() && lower(ext)[i] == '.';
            assert(lower(ext)[i] == lower_char(ext[i]));
            assert(ext[i] == '.');
        }
    }
    lemma_only_mark(lower(name), mark, lower(ext), "zh"@);
    lemma_only_mark(lower(name), mark, lower(ext), "chi"@);
    lemma_only_mark(lower(name), mark, lower(ext), "chs"@);
    lemma_only_mark(lower(name), mark, lower(ext), "cht"@);
    lemma_only_mark(lower(name), mark, lower(ext), "sc"@);
    lemma_only_mark(lower(name), mark, lower(ext), "tc"@);
    lemma_only_mark(lower(name), mark, lower(ext), "cn"@);
    lemma_only_mark(lower(name), mark, lower(ext), "yue"@);
    lemma_only_mark(lower(name), mark, lower(ext), "jp"@);
    lemma_only_mark(lower(name), mark, lower(ext), "jpn"@);
    lemma_only_mark(lower(name), mark, lower(ext), "ja"@);
    lemma_only_mark(lower(name), mark, lower(ext), "jpsc"@);
    lemma_only_mark(lower(name), mark, lower(ext), "jptc"@);
    lemma_only_mark(lower(name), mark, lower(ext), "eng"@);
    lemma_only_mark(lower(name), mark, lower(ext), "en"@);
    lemma_only_mark(lower(name), mark, lower(ext), "gb"@);
    lemma_only_mark(lower(name), mark, lower(ext), "us"@);
    lemma_only_mark(lower(name), mark, lower(ext), "kor"@);
    lemma_only_mark(lower(name), mark, lower(ext), "ko"@);
    lemma_only_mark(lower(name), mark, lower(ext), "kr"@);
    lemma_only_mark(lower(name), mark, lower(ext), "fre"@);
    lemma_only_mark(lower(name), mark, lower(ext), "fr"@);
    lemma_only_mark(lower(name), mark, lower(ext), "fra"@);
    lemma_only_mark(lower(name), mark, lower(ext), "ger"@);
    lemma_only_mark(lower(name), mark, lower(ext), "de"@);
    lemma_only_mark(lower(name), mark, lower(ext), "deu"@);
    lemma_only_mark(lower(name), mark, lower(ext), "spa"@);
    lemma_only_mark(lower(name), mark, lower(ext), "es"@);
    lemma_only_mark(lower(name), mark, lower(ext), "esp"@);
    lemma_only_mark(lower(name), mark, lower(ext), "ita"@);
    lemma_only_mark(lower(name), mark, lower(ext), "it"@);
    lemma_only_mark(lower(name), mark, lower(ext), "rus"@);
    lemma_only_mark(lower(name), mark, lower(ext), "ru"@);
    lemma_only_mark(lower(name), mark, lower(ext), "tha"@);
    lemma_only_mark(lower(name), mark, lower(ext), "th"@);
    lemma_only_mark(lower(name), mark, lower(ext), "vie"@);
    lemma_only_mark(lower(name), mark, lower(ext), "vi"@);
    lemma_only_mark(lower(name), mark, lower(ext), "por"@);
    lemma_only_mark(lower(name), mark, lower(ext), "pt"@);
    lemma_only_mark(lower(name), mark, lower(ext), "ara"@);
    lemma_only_mark(lower(name), mark, lower(ext), "ar"@);
}

} // verus!
