//! Application language: which locale is active, the catalog of interface
//! and error texts, and how raw error text becomes what users see.
//!
//! Errors travel as English text so that logs stay readable; only the phrases
//! listed in the error table are translated, and anything else passes
//! through. User content and protocol metadata are never re-interpreted.
use vstd::prelude::*;
use crate::text::{
    ascii_lowercase, chars_of, contains, contains_chars, decimal, decimal_chars, extend_chars,
    find_char, first_index_of, join, lemma_first_index_bounds, parse_u16, parse_u16_chars,
    slice_chars, split_str, split_str_chars, starts_with, starts_with_chars, str_eq, string_of,
    substitute_chars, substituted, to_ascii_lowercase, views,
};

mod catalog;

pub use catalog::{CATALOG_SIZE, catalog_keys, catalog_of, error_key_of, lemma_error_keys_in_catalog};
use catalog::{catalog_entry, error_key};

verus! {

/// An interface language.
#[derive(Clone, Copy, Debug, PartialEq, Eq, Structural)]
pub enum Language {
    En,
    ZhCn,
}

/// A locale name lower-cased, with `_` read as `-`.
pub open spec fn normalized_locale(locale: Seq<char>) -> Seq<char> {
    ascii_lowercase(locale).map_values(|c: char| if c == '_' { '-' } else { c })
}

/// The language a locale name selects: Simplified Chinese for `zh` and the
/// `zh-CN`, `zh-SG` and `zh-Hans` families, English for everything else.
pub open spec fn locale_language(locale: Seq<char>) -> Language {
    let n = normalized_locale(locale);
    if n == "zh"@ || starts_with(n, "zh-cn"@) || starts_with(n, "zh-sg"@) || starts_with(n, "zh-hans"@) {
        Language::ZhCn
    } else {
        Language::En
    }
}

/// The language of the first locale variable that is set and not empty.
pub open spec fn environment_language(values: Seq<Option<Seq<char>>>) -> Language
    decreases values.len(),
{
    if values.len() == 0 {
        Language::En
    } else {
        match values[0] {
            Some(v) => if v.len() > 0 {
                locale_language(v)
            } else {
                environment_language(values.drop_first())
            },
            None => environment_language(values.drop_first()),
        }
    }
}

/// The views of optional strings.
pub open spec fn option_views(values: Seq<Option<String>>) -> Seq<Option<Seq<char>>> {
    values.map_values(|v: Option<String>| match v {
        Some(s) => Some(s@),
        None => None,
    })
}

/// The text of `key` in `lang`; a key the catalog lacks stands for itself.
pub open spec fn translation(lang: Language, key: Seq<char>) -> Seq<char> {
    match catalog_of(key) {
        Some((en, zh)) => match lang {
            Language::En => en,
            Language::ZhCn => zh,
        },
        None => key,
    }
}

/// The HTTP status of a protocol error: the protocol core formats them as
/// `409;Some("...")`, a code in the 400 to 599 range before the first `;`.
pub open spec fn http_status(error: Seq<char>) -> Option<u16> {
    match first_index_of(error, ';') {
        Some(i) => match parse_u16(error.subrange(0, i)) {
            Some(code) => if 400 <= code < 600 {
                Some(code)
            } else {
                None
            },
            None => None,
        },
        None => None,
    }
}

/// The key shown for an HTTP status.
pub open spec fn status_key(code: u16) -> Seq<char> {
    if code == 401 {
        "error.peer_pin"@
    } else if code == 403 {
        "error.peer_declined"@
    } else if code == 409 {
        "error.peer_busy"@
    } else if code == 422 {
        "error.checksum_retry"@
    } else {
        "error.transfer_generic"@
    }
}

/// One `: `-separated part of an error as shown: translated when it is a
/// known phrase, verbatim otherwise.
pub open spec fn shown_part(lang: Language, part: Seq<char>) -> Seq<char> {
    match error_key_of(part) {
        Some(k) => translation(lang, k),
        None => part,
    }
}

/// The parts of an error as shown.
pub open spec fn shown_parts(lang: Language, parts: Seq<Seq<char>>) -> Seq<Seq<char>>
    decreases parts.len(),
{
    if parts.len() == 0 {
        Seq::empty()
    } else {
        shown_parts(lang, parts.drop_last()).push(shown_part(lang, parts.last()))
    }
}

/// An error as shown: a protocol status never exposes the remote response
/// body, and every other error keeps its structure with known phrases
/// translated.
pub open spec fn shown_error(lang: Language, error: Seq<char>) -> Seq<char> {
    match http_status(error) {
        Some(code) => translation(lang, status_key(code)),
        None => join(shown_parts(lang, split_str(error, ": "@)), ": "@),
    }
}

/// The summary key of a transfer failure whose text reveals its cause.
pub open spec fn transfer_error_key(error: Seq<char>) -> Option<Seq<char>> {
    let d = ascii_lowercase(error);
    if contains(d, "certificate"@) || contains(d, "tls"@) {
        Some("error.peer_identity"@)
    } else if contains(d, "timed out"@) || contains(d, "timeout"@) {
        Some("error.peer_timeout"@)
    } else if contains(d, "error sending request"@) || contains(d, "connection refused"@)
        || contains(d, "connection reset"@) || contains(d, "connection closed"@) || contains(
        d,
        "network is unreachable"@,
    ) || contains(d, "dns error"@) {
        Some("error.peer_unreachable"@)
    } else {
        error_key_of(error)
    }
}

/// A transfer failure as shown: transport internals become an actionable
/// summary, and anything unrecognised the generic failure.
pub open spec fn shown_transfer_error(lang: Language, error: Seq<char>) -> Seq<char> {
    match transfer_error_key(error) {
        Some(k) => translation(lang, k),
        None => if http_status(error) is Some {
            shown_error(lang, error)
        } else {
            translation(lang, "error.transfer_generic"@)
        },
    }
}

/// Reads the HTTP status of a protocol error.
fn http_status_of(error: &[char]) -> (r: Option<u16>)
    ensures
        r == http_status(error@),
{
    proof {
        lemma_first_index_bounds(error@, ';');
    }
    match find_char(error, ';') {
        None => None,
        Some(i) => {
            let code = slice_chars(error, 0, i);
            match parse_u16_chars(code.as_slice()) {
                Some(c) => if 400 <= c && c < 600 {
                    Some(c)
                } else {
                    None
                },
                None => None,
            }
        },
    }
}

/// The key shown for an HTTP status.
fn status_key_of(code: u16) -> (r: &'static str)
    ensures
        r@ == status_key(code),
{
    if code == 401 {
        "error.peer_pin"
    } else if code == 403 {
        "error.peer_declined"
    } else if code == 409 {
        "error.peer_busy"
    } else if code == 422 {
        "error.checksum_retry"
    } else {
        "error.transfer_generic"
    }
}

impl Language {
    /// The language a locale name selects.
    pub fn from_locale(locale: &str) -> (r: Language)
        ensures
            r == locale_language(locale@),
    {
        let lower = to_ascii_lowercase(chars_of(locale).as_slice());
        let mut n: Vec<char> = Vec::new();
        let mut i: usize = 0;
        while i < lower.len()
            invariant
                i <= lower@.len(),
                n@ == lower@.subrange(0, i as int).map_values(|c: char| if c == '_' { '-' } else { c }),
            decreases lower@.len() - i,
        {
            let c = lower[i];
            n.push(if c == '_' { '-' } else { c });
            assert(lower@.subrange(0, i + 1).map_values(|c: char| if c == '_' { '-' } else { c })
                =~= lower@.subrange(0, i as int).map_values(|c: char| if c == '_' { '-' } else { c }).push(
                if c == '_' { '-' } else { c }));
            i += 1;
        }
        assert(lower@.subrange(0, lower@.len() as int) =~= lower@);
        assert(n@ =~= normalized_locale(locale@));
        let whole = string_of(n.as_slice());
        if str_eq(whole.as_str(), "zh") || starts_with_chars(n.as_slice(), chars_of("zh-cn").as_slice())
            || starts_with_chars(n.as_slice(), chars_of("zh-sg").as_slice()) || starts_with_chars(
            n.as_slice(),
            chars_of("zh-hans").as_slice(),
        ) {
            Language::ZhCn
        } else {
            Language::En
        }
    }

    /// The language of the first locale variable that is set and not empty
    /// (`LC_ALL`, `LC_MESSAGES` and `LANG`, in that order, as the caller
    /// reads them); English when none is.
    pub fn from_environment(values: &[Option<String>]) -> (r: Language)
        ensures
            r == environment_language(option_views(values@)),
    {
        let ghost all = option_views(values@);
        assert(all.subrange(0, all.len() as int) =~= all);
        let mut i: usize = 0;
        while i < values.len()
            invariant
                i <= values@.len(),
                all == option_views(values@),
                environment_language(all) == environment_language(all.subrange(i as int, all.len() as int)),
            decreases values@.len() - i,
        {
            let ghost rest = all.subrange(i as int, all.len() as int);
            assert(rest.drop_first() =~= all.subrange(i + 1, all.len() as int));
            assert(rest[0] == all[i as int]);
            assert(all[i as int] == (match values@[i as int] {
                Some(s) => Some(s@),
                None => None,
            }));
            match &values[i] {
                Some(v) => {
                    if !v.as_str().is_empty() {
                        return Language::from_locale(v.as_str());
                    }
                },
                None => {},
            }
            i += 1;
        }
        Language::En
    }

    /// The locale code the catalog knows this language by.
    pub fn code(self) -> (r: &'static str)
        ensures
            r@ == (match self {
                Language::En => "en"@,
                Language::ZhCn => "zh-CN"@,
            }),
    {
        match self {
            Language::En => "en",
            Language::ZhCn => "zh-CN",
        }
    }

    /// The text of `key`.
    pub fn text(self, key: &str) -> (r: String)
        ensures
            r@ == translation(self, key@),
    {
        match catalog_entry(key) {
            Some((en, zh)) => match self {
                Language::En => en.to_owned(),
                Language::ZhCn => zh.to_owned(),
            },
            None => key.to_owned(),
        }
    }

    /// The text of `key` with `%{name}` replaced by `value`. Only the catalog
    /// template is substituted: `value` is never re-interpreted.
    pub fn named(self, key: &str, value: &str) -> (r: String)
        ensures
            r@ == substituted(translation(self, key@), "%{name}"@, value@),
    {
        let text = self.text(key);
        let out = substitute_chars(
            chars_of(text.as_str()).as_slice(),
            chars_of("%{name}").as_slice(),
            chars_of(value).as_slice(),
        );
        string_of(out.as_slice())
    }

    /// The singular or plural text, by `count`, with `%{count}` replaced by
    /// the number.
    pub fn count(self, count: usize, singular: &str, plural: &str) -> (r: String)
        ensures
            r@ == substituted(
                translation(self, if count == 1 { singular@ } else { plural@ }),
                "%{count}"@,
                decimal(count as nat),
            ),
    {
        let text = if count == 1 {
            self.text(singular)
        } else {
            self.text(plural)
        };
        let number = decimal_chars(count as u64);
        let out = substitute_chars(
            chars_of(text.as_str()).as_slice(),
            chars_of("%{count}").as_slice(),
            number.as_slice(),
        );
        string_of(out.as_slice())
    }

    /// A transfer failure as users see it: transport internals become an
    /// actionable summary.
    pub fn transfer_error(self, error: &str) -> (r: String)
        ensures
            r@ == shown_transfer_error(self, error@),
    {
        let chars = chars_of(error);
        let d = to_ascii_lowercase(chars.as_slice());
        let key = if contains_chars(d.as_slice(), chars_of("certificate").as_slice())
            || contains_chars(d.as_slice(), chars_of("tls").as_slice()) {
            Some("error.peer_identity")
        } else if contains_chars(d.as_slice(), chars_of("timed out").as_slice()) || contains_chars(
            d.as_slice(),
            chars_of("timeout").as_slice(),
        ) {
            Some("error.peer_timeout")
        } else if contains_chars(d.as_slice(), chars_of("error sending request").as_slice())
            || contains_chars(d.as_slice(), chars_of("connection refused").as_slice())
            || contains_chars(d.as_slice(), chars_of("connection reset").as_slice())
            || contains_chars(d.as_slice(), chars_of("connection closed").as_slice())
            || contains_chars(d.as_slice(), chars_of("network is unreachable").as_slice())
            || contains_chars(d.as_slice(), chars_of("dns error").as_slice()) {
            Some("error.peer_unreachable")
        } else {
            error_key(error)
        };
        match key {
            Some(k) => self.text(k),
            None => {
                if http_status_of(chars.as_slice()).is_some() {
                    self.error(error)
                } else {
                    self.text("error.transfer_generic")
                }
            },
        }
    }

    /// An error as users see it: a protocol status shows only its meaning,
    /// never the remote response body; otherwise each `: `-separated part
    /// that is a known phrase is translated and the rest kept.
    pub fn error(self, error: &str) -> (r: String)
        ensures
            r@ == shown_error(self, error@),
    {
        let chars = chars_of(error);
        match http_status_of(chars.as_slice()) {
            Some(code) => {
                return self.text(status_key_of(code));
            },
            None => {},
        }
        let sep = chars_of(": ");
        proof {
            reveal_strlit(": ");
        }
        let parts = split_str_chars(chars.as_slice(), sep.as_slice(), 0);
        assert(chars@.subrange(0, chars@.len() as int) =~= chars@);
        let ghost ps = views(parts@);
        let mut out: Vec<char> = Vec::new();
        let mut i: usize = 0;
        while i < parts.len()
            invariant
                ps == views(parts@),
                sep@ == ": "@,
                i <= parts@.len(),
                out@ == join(shown_parts(self, ps.subrange(0, i as int)), ": "@),
            decreases parts@.len() - i,
        {
            assert(ps.subrange(0, i + 1).drop_last() =~= ps.subrange(0, i as int));
            assert(ps[i as int] == parts@[i as int]@);
            let ghost before = shown_parts(self, ps.subrange(0, i as int));
            let part = string_of(parts[i].as_slice());
            let shown = match error_key(part.as_str()) {
                Some(k) => chars_of(self.text(k).as_str()),
                None => slice_chars(parts[i].as_slice(), 0, parts[i].len()),
            };
            assert(parts@[i as int]@.subrange(0, parts@[i as int]@.len() as int) =~= parts@[i as int]@);
            if i > 0 {
                extend_chars(&mut out, sep.as_slice());
            }
            extend_chars(&mut out, shown.as_slice());
            proof {
                let after = shown_parts(self, ps.subrange(0, i + 1));
                assert(after == before.push(shown@));
                if i > 0 {
                    assert(after.drop_last() =~= before);
                } else {
                    assert(after =~= seq![shown@]);
                }
            }
            i += 1;
        }
        assert(ps.subrange(0, parts@.len() as int) =~= ps);
        string_of(out.as_slice())
    }
}

/// A protocol error shows only what its status means: two errors with the
/// same status show the same text, whatever response body they carry.
pub proof fn protocol_errors_show_only_their_status(lang: Language, a: Seq<char>, b: Seq<char>)
    requires
        http_status(a) is Some,
        http_status(a) == http_status(b),
    ensures
        shown_error(lang, a) == shown_error(lang, b),
{
}

/// A transfer failure is always shown as a text of the catalog in the
/// user's language, never as the raw detail it was reported with.
pub proof fn transfer_errors_show_catalog_text(lang: Language, error: Seq<char>)
    ensures
        exists|k: Seq<char>| #[trigger] catalog_of(k) is Some && shown_transfer_error(lang, error) == translation(lang, k),
{
    lemma_error_keys_in_catalog(error);
    assert(catalog_of("error.peer_identity"@) is Some);
    assert(catalog_of("error.peer_timeout"@) is Some);
    assert(catalog_of("error.peer_unreachable"@) is Some);
    assert(catalog_of("error.peer_pin"@) is Some);
    assert(catalog_of("error.peer_declined"@) is Some);
    assert(catalog_of("error.peer_busy"@) is Some);
    assert(catalog_of("error.checksum_retry"@) is Some);
    assert(catalog_of("error.transfer_generic"@) is Some);
    match transfer_error_key(error) {
        Some(k) => {
            assert(catalog_of(k) is Some);
        },
        None => match http_status(error) {
            Some(code) => {
                assert(catalog_of(status_key(code)) is Some);
            },
            None => {},
        },
    }
}

/// The catalog key a transfer failure is shown with.
pub open spec fn transfer_error_shown_key(error: Seq<char>) -> Seq<char> {
    match transfer_error_key(error) {
        Some(k) => k,
        None => match http_status(error) {
            Some(code) => status_key(code),
            None => "error.transfer_generic"@,
        },
    }
}

/// A transfer failure is shown by one catalog key in both languages, chosen
/// from the failure alone; a certificate or TLS failure is always shown as
/// an identity problem.
pub proof fn transfer_errors_use_one_key_in_both_languages(error: Seq<char>)
    ensures
        catalog_of(transfer_error_shown_key(error)) is Some,
        shown_transfer_error(Language::En, error) == translation(Language::En, transfer_error_shown_key(error)),
        shown_transfer_error(Language::ZhCn, error) == translation(Language::ZhCn, transfer_error_shown_key(error)),
        contains(ascii_lowercase(error), "certificate"@) || contains(ascii_lowercase(error), "tls"@)
            ==> transfer_error_shown_key(error) == "error.peer_identity"@,
{
    transfer_errors_show_catalog_text(Language::En, error);
    lemma_error_keys_in_catalog(error);
    assert(catalog_of("error.peer_identity"@) is Some);
    assert(catalog_of("error.peer_timeout"@) is Some);
    assert(catalog_of("error.peer_unreachable"@) is Some);
    assert(catalog_of("error.peer_pin"@) is Some);
    assert(catalog_of("error.peer_declined"@) is Some);
    assert(catalog_of("error.peer_busy"@) is Some);
    assert(catalog_of("error.checksum_retry"@) is Some);
    assert(catalog_of("error.transfer_generic"@) is Some);
}

} // verus!
