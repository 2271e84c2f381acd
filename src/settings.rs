//! User preferences and the choice of interface language from the locale.
use vstd::prelude::*;
use crate::text::{prefix_before, before_char};

verus! {

/// Preferences that persist between sessions.
pub struct AppSettings {
    pub language: String,
    pub start_on_login: bool,
    pub minimize_to_tray: bool,
    pub first_run_complete: bool,
    pub selected_model: String,
    pub persona: String,
}

pub const FALLBACK_LANGUAGE: &'static str = "en";

impl AppSettings {
    /// Defaults, with the given interface language.
    pub fn with_language(language: &str) -> (r: Self)
        ensures
            r.language@ == language@,
            r.start_on_login,
            r.minimize_to_tray,
            !r.first_run_complete,
            r.selected_model@ == "phi3:mini"@,
            r.persona@ == "adult"@,
    {
        AppSettings {
            language: language.to_owned(),
            start_on_login: true,
            minimize_to_tray: true,
            first_run_complete: false,
            selected_model: "phi3:mini".to_owned(),
            persona: "adult".to_owned(),
        }
    }
}

impl Default for AppSettings {
    /// Defaults in the fallback language.
    fn default() -> (r: Self)
        ensures
            r.language@ == FALLBACK_LANGUAGE@,
            r.start_on_login,
            r.minimize_to_tray,
            !r.first_run_complete,
            r.selected_model@ == "phi3:mini"@,
            r.persona@ == "adult"@,
    {
        AppSettings::with_language(FALLBACK_LANGUAGE)
    }
}

/// The lowercase form of a text.
pub uninterp spec fn lower_of(s: Seq<char>) -> Seq<char>;

/// Relies on `str::to_lowercase`: the lowercase form, a function of the text.
#[verifier::external_body]
fn lowercase(s: &str) -> (r: String)
    ensures
        r@ == lower_of(s@),
{
    s.to_lowercase()
}

/// The language code of a locale value such as `en_US.UTF-8`: the part
/// before `_` and `.`, unless it is empty or names no language (`C`, `POSIX`).
pub open spec fn locale_language(v: Seq<char>) -> Option<Seq<char>> {
    let code = prefix_before(prefix_before(v, '_'), '.');
    if code.len() == 0 || code == "C"@ || code == "POSIX"@ {
        None
    } else {
        Some(lower_of(code))
    }
}

pub fn language_from_locale(value: &str) -> (r: Option<String>)
    ensures
        match locale_language(value@) {
            Some(l) => r is Some && r->0@ == l,
            None => r is None,
        },
{
    let code = before_char(before_char(value, '_'), '.');
    let owned = code.to_owned();
    let c = "C".to_owned();
    let posix = "POSIX".to_owned();
    if code.is_empty() || owned == c || owned == posix {
        None
    } else {
        Some(lowercase(code))
    }
}

/// The environment variables read for the locale, in order.
pub fn language_variables() -> (r: Vec<&'static str>)
    ensures
        r@.len() == 4,
        r@[0]@ == "LANG"@,
        r@[1]@ == "LANGUAGE"@,
        r@[2]@ == "LC_ALL"@,
        r@[3]@ == "LC_MESSAGES"@,
{
    let mut r: Vec<&'static str> = Vec::new();
    r.push("LANG");
    r.push("LANGUAGE");
    r.push("LC_ALL");
    r.push("LC_MESSAGES");
    r
}

pub open spec fn values_view(values: Seq<Option<String>>) -> Seq<Option<Seq<char>>> {
    values.map_values(
        |o: Option<String>|
            match o {
                Some(s) => Some(s@),
                None => None,
            },
    )
}

/// The first set value that names a language wins; otherwise the fallback.
pub open spec fn pick_language(values: Seq<Option<Seq<char>>>) -> Seq<char>
    decreases values.len(),
{
    if values.len() == 0 {
        FALLBACK_LANGUAGE@
    } else {
        match values[0] {
            Some(v) => match locale_language(v) {
                Some(l) => l,
                None => pick_language(values.drop_first()),
            },
            None => pick_language(values.drop_first()),
        }
    }
}

/// The interface language from the values of `language_variables()`, in
/// order (`None` for an unset variable).
pub fn detect_system_language(values: &Vec<Option<String>>) -> (r: String)
    ensures
        r@ == pick_language(values_view(values@)),
{
    let ghost all = values_view(values@);
    let n = values.len();
    let mut i: usize = 0;
    proof {
        assert(all.subrange(0, n as int) =~= all);
    }
    while i < n
        invariant
            n == values@.len(),
            all == values_view(values@),
            i <= n,
            pick_language(all.subrange(i as int, n as int)) == pick_language(all),
        decreases n - i,
    {
        let ghost tail = all.subrange(i as int, n as int);
        proof {
            assert(tail.drop_first() =~= all.subrange(i + 1, n as int));
            assert(tail[0] == all[i as int]);
        }
        match &values[i] {
            Some(v) => {
                match language_from_locale(v.as_str()) {
                    Some(l) => {
                        return l;
                    },
                    None => {},
                }
            },
            None => {},
        }
        i += 1;
    }
    proof {
        assert(all.subrange(n as int, n as int).len() == 0);
    }
    FALLBACK_LANGUAGE.to_owned()
}

} // verus!
