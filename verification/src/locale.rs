//! The locale identifier model: language, optional script, optional region,
//! each carried in its canonical case, and the likely-subtags maximization
//! table used by locale negotiation.

use vstd::prelude::*;
use vstd::string::StringExecFns;

use crate::strutil::str_eq;

verus! {

/// A locale identifier: a language subtag with optional script and region
/// subtags, each expected in canonical case (lowercase language, titlecase
/// script, uppercase region).
#[derive(Debug, Clone, PartialEq)]
pub struct LocaleId {
    pub language: String,
    pub script: Option<String>,
    pub region: Option<String>,
}

/// The views of the three subtags, for contracts.
pub open spec fn loc_views(l: LocaleId) -> (Seq<char>, Option<Seq<char>>, Option<Seq<char>>) {
    (
        l.language@,
        match l.script {
            Some(s) => Some(s@),
            None => None,
        },
        match l.region {
            Some(s) => Some(s@),
            None => None,
        },
    )
}

/// Two locale identifiers name the same locale.
pub open spec fn loc_eq(a: LocaleId, b: LocaleId) -> bool {
    loc_views(a) == loc_views(b)
}

impl LocaleId {
    pub fn new(language: String, script: Option<String>, region: Option<String>) -> (r: LocaleId)
        ensures
            r == (LocaleId { language, script, region }),
    {
        LocaleId { language, script, region }
    }

    /// The canonical hyphen-joined form.
    pub open spec fn spec_locale_string(self) -> Seq<char> {
        self.language@ + (match self.script {
            Some(s) => seq!['-'] + s@,
            None => Seq::<char>::empty(),
        }) + (match self.region {
            Some(s) => seq!['-'] + s@,
            None => Seq::<char>::empty(),
        })
    }

    pub fn to_locale_string(&self) -> (r: String)
        ensures
            r@ == self.spec_locale_string(),
    {
        let mut out = String::from_str(self.language.as_str());
        if let Some(s) = &self.script {
            out.append("-");
            out.append(s.as_str());
        }
        if let Some(s) = &self.region {
            out.append("-");
            out.append(s.as_str());
        }
        proof {
            reveal_strlit("-");
            assert("-"@ =~= seq!['-']);
            assert(out@ =~= self.spec_locale_string());
        }
        out
    }

    /// A copy equal to the original, field for field.
    pub fn duplicate(&self) -> (r: LocaleId)
        ensures
            r == *self,
    {
        LocaleId {
            language: self.language.clone(),
            script: match &self.script {
                Some(s) => Some(s.clone()),
                None => None,
            },
            region: match &self.region {
                Some(s) => Some(s.clone()),
                None => None,
            },
        }
    }

    /// Equality of the three subtags.
    pub fn same_as(&self, other: &LocaleId) -> (r: bool)
        ensures
            r == loc_eq(*self, *other),
    {
        if !str_eq(self.language.as_str(), other.language.as_str()) {
            return false;
        }
        let s_ok = match (&self.script, &other.script) {
            (None, None) => true,
            (Some(a), Some(b)) => str_eq(a.as_str(), b.as_str()),
            _ => false,
        };
        if !s_ok {
            return false;
        }
        match (&self.region, &other.region) {
            (None, None) => true,
            (Some(a), Some(b)) => str_eq(a.as_str(), b.as_str()),
            _ => false,
        }
    }
}

/// The languages whose likely region is their own code uppercased, when no
/// more specific expansion is known.
pub open spec fn region_matching_key(lang: Seq<char>) -> Option<Seq<char>> {
    if lang == "az"@ {
        Some("AZ"@)
    } else if lang == "bg"@ {
        Some("BG"@)
    } else if lang == "cs"@ {
        Some("CS"@)
    } else if lang == "de"@ {
        Some("DE"@)
    } else if lang == "es"@ {
        Some("ES"@)
    } else if lang == "fi"@ {
        Some("FI"@)
    } else if lang == "fr"@ {
        Some("FR"@)
    } else if lang == "hu"@ {
        Some("HU"@)
    } else if lang == "it"@ {
        Some("IT"@)
    } else if lang == "lt"@ {
        Some("LT"@)
    } else if lang == "lv"@ {
        Some("LV"@)
    } else if lang == "nl"@ {
        Some("NL"@)
    } else if lang == "pl"@ {
        Some("PL"@)
    } else if lang == "ro"@ {
        Some("RO"@)
    } else if lang == "ru"@ {
        Some("RU"@)
    } else {
        None
    }
}

/// What maximization makes of a locale's subtag views: a static
/// language-to-(script, region) table for a few known identifiers, then the
/// shared-region fallback for the listed languages; anything else is left
/// unchanged (no result).
pub open spec fn spec_maximize(l: (Seq<char>, Option<Seq<char>>, Option<Seq<char>>)) -> Option<
    (Seq<char>, Option<Seq<char>>, Option<Seq<char>>),
> {
    if l == ("en"@, Option::<Seq<char>>::None, Option::<Seq<char>>::None) {
        Some(("en"@, Some("Latn"@), Some("US"@)))
    } else if l == ("fr"@, Option::<Seq<char>>::None, Option::<Seq<char>>::None) {
        Some(("fr"@, Some("Latn"@), Some("FR"@)))
    } else if l == ("sr"@, Option::<Seq<char>>::None, Option::<Seq<char>>::None) {
        Some(("sr"@, Some("Cyrl"@), Some("SR"@)))
    } else if l == ("sr"@, Option::<Seq<char>>::None, Some("RU"@)) {
        Some(("sr"@, Some("Latn"@), Some("SR"@)))
    } else if l == ("az"@, Option::<Seq<char>>::None, Some("IR"@)) {
        Some(("az"@, Some("Arab"@), Some("IR"@)))
    } else if l == ("zh"@, Option::<Seq<char>>::None, Some("GB"@)) {
        Some(("zh"@, Some("Hant"@), Some("GB"@)))
    } else if l == ("zh"@, Option::<Seq<char>>::None, Some("US"@)) {
        Some(("zh"@, Some("Hant"@), Some("US"@)))
    } else {
        match region_matching_key(l.0) {
            Some(reg) => Some((l.0, l.1, Some(reg))),
            None => None,
        }
    }
}

/// Likely-subtags maximization over a small static table: infers a plausible
/// script and region for a handful of known locales, falls back to a shared
/// region code for the listed languages, and reports whether anything
/// changed.
pub trait MockLikelySubtags {
    fn maximize(&mut self) -> bool;
}

impl MockLikelySubtags for LocaleId {
    /// Maximizes in place per [`spec_maximize`]; leaves the locale unchanged
    /// and reports `false` where the table knows nothing.
    fn maximize(&mut self) -> (r: bool)
        ensures
            match spec_maximize(loc_views(*old(self))) {
                Some(t) => r == true && loc_views(*final(self)) == t,
                None => r == false && *final(self) == *old(self),
            },
    {
        let none_script = self.script.is_none();
        let none_region = self.region.is_none();
        if none_script && none_region && str_eq(self.language.as_str(), "en") {
            self.script = Some(String::from_str("Latn"));
            self.region = Some(String::from_str("US"));
            return true;
        }
        if none_script && none_region && str_eq(self.language.as_str(), "fr") {
            self.script = Some(String::from_str("Latn"));
            self.region = Some(String::from_str("FR"));
            return true;
        }
        if none_script && none_region && str_eq(self.language.as_str(), "sr") {
            self.script = Some(String::from_str("Cyrl"));
            self.region = Some(String::from_str("SR"));
            return true;
        }
        let reg_eq: bool = match &self.region {
            Some(rg) => str_eq(rg.as_str(), "RU"),
            None => false,
        };
        if none_script && reg_eq && str_eq(self.language.as_str(), "sr") {
            self.script = Some(String::from_str("Latn"));
            self.region = Some(String::from_str("SR"));
            return true;
        }
        let reg_ir: bool = match &self.region {
            Some(rg) => str_eq(rg.as_str(), "IR"),
            None => false,
        };
        if none_script && reg_ir && str_eq(self.language.as_str(), "az") {
            self.script = Some(String::from_str("Arab"));
            return true;
        }
        let reg_gb: bool = match &self.region {
            Some(rg) => str_eq(rg.as_str(), "GB"),
            None => false,
        };
        if none_script && reg_gb && str_eq(self.language.as_str(), "zh") {
            self.script = Some(String::from_str("Hant"));
            return true;
        }
        let reg_us: bool = match &self.region {
            Some(rg) => str_eq(rg.as_str(), "US"),
            None => false,
        };
        if none_script && reg_us && str_eq(self.language.as_str(), "zh") {
            self.script = Some(String::from_str("Hant"));
            return true;
        }
        let key: Option<&'static str> = if str_eq(self.language.as_str(), "az") {
            Some("AZ")
        } else if str_eq(self.language.as_str(), "bg") {
            Some("BG")
        } else if str_eq(self.language.as_str(), "cs") {
            Some("CS")
        } else if str_eq(self.language.as_str(), "de") {
            Some("DE")
        } else if str_eq(self.language.as_str(), "es") {
            Some("ES")
        } else if str_eq(self.language.as_str(), "fi") {
            Some("FI")
        } else if str_eq(self.language.as_str(), "fr") {
            Some("FR")
        } else if str_eq(self.language.as_str(), "hu") {
            Some("HU")
        } else if str_eq(self.language.as_str(), "it") {
            Some("IT")
        } else if str_eq(self.language.as_str(), "lt") {
            Some("LT")
        } else if str_eq(self.language.as_str(), "lv") {
            Some("LV")
        } else if str_eq(self.language.as_str(), "nl") {
            Some("NL")
        } else if str_eq(self.language.as_str(), "pl") {
            Some("PL")
        } else if str_eq(self.language.as_str(), "ro") {
            Some("RO")
        } else if str_eq(self.language.as_str(), "ru") {
            Some("RU")
        } else {
            None
        };
        match key {
            Some(reg) => {
                self.region = Some(String::from_str(reg));
                true
            },
            None => false,
        }
    }
}

} // verus!
