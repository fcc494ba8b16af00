//! Localized values of desktop entry keys: `Key=value` for the default
//! locale and `Key[lang]=value` for the locale `lang`.

use vstd::prelude::*;

use crate::base_directories::{env_lookup, pair_views, spec_env_lookup};
use crate::desktop_entry::{spec_parse_strings, Error};
use crate::paths::{same_text, split_nonempty, split_on, spec_split_on, views};
use crate::text::{
    concat, contains_char, ends_with_char, spec_starts_with, spec_trim_end, starts_with, trim_end,
};

verus! {

/// The locale of a value: the default one, or a named language.
#[derive(Clone, Debug)]
pub enum LocaleLang {
    Default,
    Lang(String),
}

/// One localized string.
#[derive(Clone, Debug)]
pub struct Locale {
    pub lang: LocaleLang,
    pub value: String,
}

/// One localized list of strings.
#[derive(Clone, Debug)]
pub struct Locales {
    pub lang: LocaleLang,
    pub values: Vec<String>,
}

/// The localized variants of a string-valued key.
#[derive(Clone, Debug)]
pub struct LocaleString {
    pub locs: Vec<Locale>,
}

/// The localized variants of a list-valued key.
#[derive(Clone, Debug)]
pub struct LocaleStrings {
    pub locs: Vec<Locales>,
}

/// A locale as a plain value: `None` for the default one.
pub open spec fn lang_view(l: LocaleLang) -> Option<Seq<char>> {
    match l {
        LocaleLang::Default => None,
        LocaleLang::Lang(s) => Some(s@),
    }
}

impl View for LocaleString {
    type V = Seq<(Option<Seq<char>>, Seq<char>)>;

    open spec fn view(&self) -> Seq<(Option<Seq<char>>, Seq<char>)> {
        self.locs@.map_values(|l: Locale| (lang_view(l.lang), l.value@))
    }
}

impl View for LocaleStrings {
    type V = Seq<(Option<Seq<char>>, Seq<Seq<char>>)>;

    open spec fn view(&self) -> Seq<(Option<Seq<char>>, Seq<Seq<char>>)> {
        self.locs@.map_values(|l: Locales| (lang_view(l.lang), views(l.values@)))
    }
}

/// The value of the first entry of `locs` for the locale `lang`.
pub open spec fn spec_value_for<V>(locs: Seq<(Option<Seq<char>>, V)>, lang: Option<Seq<char>>) -> Option<
    V,
>
    decreases locs.len(),
{
    if locs.len() == 0 {
        None
    } else if locs[0].0 == lang {
        Some(locs[0].1)
    } else {
        spec_value_for(locs.drop_first(), lang)
    }
}

/// What [`parse_locale_strings`] makes of the entry `key=value`: the locale
/// named between `[` and `]` in the key (or the default one when the key has
/// no brackets) with the non-empty `;`-separated values, or a message.
pub open spec fn spec_parse_locale_strings(key: Seq<char>, value: Seq<char>) -> Result<
    (Option<Seq<char>>, Seq<Seq<char>>),
    Seq<char>,
> {
    let values = spec_parse_strings(value);
    if values.len() == 0 {
        Err(value + " is not a valid sequence of strings"@)
    } else if key.contains('[') {
        if key.len() > 0 && key.last() == ']' {
            Ok((Some(spec_trim_end(spec_split_on(key, '[')[1], ']')), values))
        } else {
            Err("Malformed locale string "@ + key)
        }
    } else if key.len() > 0 && key.last() == ']' {
        Err("Malformed locale string "@ + key)
    } else {
        Ok((None, values))
    }
}

/// The parsed entries of `map` whose key starts with `key`, in order;
/// nothing when one of them does not parse.
pub open spec fn spec_locales_from(map: Seq<(Seq<char>, Seq<char>)>, key: Seq<char>) -> Option<
    Seq<(Option<Seq<char>>, Seq<Seq<char>>)>,
>
    decreases map.len(),
{
    if map.len() == 0 {
        Some(Seq::empty())
    } else {
        match spec_locales_from(map.drop_last(), key) {
            None => None,
            Some(acc) => if spec_starts_with(map.last().0, key) {
                match spec_parse_locale_strings(map.last().0, map.last().1) {
                    Ok(l) => Some(acc.push(l)),
                    Err(_) => None,
                }
            } else {
                Some(acc)
            },
        }
    }
}

/// The localized variants of `key` in `map`: nothing when `key` itself is
/// absent or a variant does not parse.
pub open spec fn spec_locale_strings(map: Seq<(Seq<char>, Seq<char>)>, key: Seq<char>) -> Option<
    Seq<(Option<Seq<char>>, Seq<Seq<char>>)>,
> {
    if spec_env_lookup(map, key) is None {
        None
    } else {
        spec_locales_from(map, key)
    }
}

/// The first value of each localized list.
pub open spec fn spec_first_values(ls: Seq<(Option<Seq<char>>, Seq<Seq<char>>)>) -> Seq<
    (Option<Seq<char>>, Seq<char>),
> {
    ls.map_values(|l: (Option<Seq<char>>, Seq<Seq<char>>)| (l.0, l.1[0]))
}

/// Turns `Key[lang]=value` into the values of `value` for the locale `lang`,
/// and `Key=value` into those for the default locale.
pub fn parse_locale_strings(key: &str, value: &str) -> (r: Result<Locales, Error>)
    ensures
        match spec_parse_locale_strings(key@, value@) {
            Ok(l) => r matches Ok(loc) && lang_view(loc.lang) == l.0 && views(loc.values@) == l.1,
            Err(m) => r matches Err(e) && e@ == seq![m],
        },
{
    let values = split_nonempty(value, ';');
    if values.len() == 0 {
        return Err(Error::from_message(concat(value, " is not a valid sequence of strings")));
    }
    if contains_char(key, '[') {
        if ends_with_char(key, ']') {
            let parts = split_on(key, '[');
            if parts.len() < 2 {
                proof {
                    let k = choose|k: int| 0 <= k < key@.len() && key@[k] == '[';
                    lemma_split_count(key@, '[', k);
                }
                return Err(Error::from_message(concat("Malformed locale string ", key)));
            }
            let lang = trim_end(parts[1].as_str(), ']');
            Ok(Locales { lang: LocaleLang::Lang(lang), values })
        } else {
            Err(Error::from_message(concat("Malformed locale string ", key)))
        }
    } else if ends_with_char(key, ']') {
        Err(Error::from_message(concat("Malformed locale string ", key)))
    } else {
        Ok(Locales { lang: LocaleLang::Default, values })
    }
}

/// A separator at index `k` of `s` makes at least two pieces.
proof fn lemma_split_count(s: Seq<char>, sep: char, k: int)
    requires
        0 <= k < s.len(),
        s[k] == sep,
    ensures
        spec_split_on(s, sep).len() >= 2,
    decreases s.len(),
{
    crate::paths::lemma_split_on_nonempty(s.drop_last(), sep);
    if k < s.len() - 1 {
        lemma_split_count(s.drop_last(), sep, k);
    }
}

impl Locale {
    /// The first value of a localized list; an error for an empty list.
    pub fn from_locales(locales: &Locales) -> (r: Result<Locale, Error>)
        ensures
            locales.values@.len() > 0 ==> (r matches Ok(l) && lang_view(l.lang) == lang_view(
                locales.lang,
            ) && l.value@ == locales.values@[0]@),
            locales.values@.len() == 0 ==> (r matches Err(e) && e@ == seq![
                "Could not convert Locales to Locale"@,
            ]),
    {
        if locales.values.len() == 0 {
            Err(Error::from_message(String::from_str("Could not convert Locales to Locale")))
        } else {
            Ok(Locale { lang: copy_lang(&locales.lang), value: locales.values[0].clone() })
        }
    }
}

impl LocaleLang {
    /// Whether this is the default locale.
    pub fn is_default(&self) -> (r: bool)
        ensures
            r == (*self is Default),
    {
        match self {
            LocaleLang::Default => true,
            _ => false,
        }
    }

    /// Whether this is the language `lang`.
    fn is_lang(&self, lang: &str) -> (r: bool)
        ensures
            r == (lang_view(*self) == Some(lang@)),
    {
        match self {
            LocaleLang::Default => false,
            LocaleLang::Lang(l) => same_text(l.as_str(), lang),
        }
    }
}

impl LocaleString {
    pub fn len(&self) -> (r: usize)
        ensures
            r == self@.len(),
    {
        self.locs.len()
    }

    pub fn is_empty(&self) -> (r: bool)
        ensures
            r == (self@.len() == 0),
    {
        self.locs.len() == 0
    }

    /// The value for the language `lang`.
    pub fn get(&self, lang: &str) -> (r: Result<String, Error>)
        ensures
            match spec_value_for(self@, Some(lang@)) {
                Some(v) => r matches Ok(s) && s@ == v,
                None => r matches Err(e) && e@ == seq![Seq::<char>::empty()],
            },
    {
        let mut i: usize = 0;
        proof {
            assert(self@.subrange(0, self@.len() as int) =~= self@);
        }
        while i < self.locs.len()
            invariant
                i <= self@.len(),
                spec_value_for(self@, Some(lang@)) == spec_value_for(
                    self@.subrange(i as int, self@.len() as int),
                    Some(lang@),
                ),
            decreases self.locs.len() - i,
        {
            proof {
                let rest = self@.subrange(i as int, self@.len() as int);
                assert(rest.drop_first() =~= self@.subrange(i + 1, self@.len() as int));
            }
            if self.locs[i].lang.is_lang(lang) {
                return Ok(self.locs[i].value.clone());
            }
            i = i + 1;
        }
        Err(Error::from_message(String::new()))
    }

    /// The value for the default locale.
    pub fn get_default(&self) -> (r: Result<String, Error>)
        ensures
            match spec_value_for(self@, None) {
                Some(v) => r matches Ok(s) && s@ == v,
                None => r matches Err(e) && e@ == seq!["Default locale is missing"@],
            },
    {
        let mut i: usize = 0;
        proof {
            assert(self@.subrange(0, self@.len() as int) =~= self@);
        }
        while i < self.locs.len()
            invariant
                i <= self@.len(),
                spec_value_for(self@, None) == spec_value_for(
                    self@.subrange(i as int, self@.len() as int),
                    None,
                ),
            decreases self.locs.len() - i,
        {
            proof {
                let rest = self@.subrange(i as int, self@.len() as int);
                assert(rest.drop_first() =~= self@.subrange(i + 1, self@.len() as int));
            }
            if self.locs[i].lang.is_default() {
                return Ok(self.locs[i].value.clone());
            }
            i = i + 1;
        }
        Err(Error::from_message(String::from_str("Default locale is missing")))
    }

    /// The localized variants of the string-valued `key` in `map`, each with
    /// its first value.
    pub fn from_hashmap(key: &str, map: &Vec<(String, String)>) -> (r: Option<LocaleString>)
        ensures
            match spec_locale_strings(pair_views(map@), key@) {
                Some(ls) => r matches Some(s) && s@ == spec_first_values(ls),
                None => r is None,
            },
    {
        match LocaleStrings::from_hashmap(key, map) {
            None => None,
            Some(strings) => {
                proof {
                    lemma_locales_from_nonempty(pair_views(map@), key@);
                }
                let mut locs: Vec<Locale> = Vec::new();
                let mut i: usize = 0;
                while i < strings.locs.len()
                    invariant
                        i <= strings@.len(),
                        forall|j: int| 0 <= j < strings@.len() ==> #[trigger] strings@[j].1.len() > 0,
                        locs@.map_values(|l: Locale| (lang_view(l.lang), l.value@))
                            == spec_first_values(strings@.subrange(0, i as int)),
                    decreases strings.locs.len() - i,
                {
                    let ghost before = locs@;
                    let item = &strings.locs[i];
                    assert(strings@[i as int].1.len() > 0);
                    assert(views(item.values@)[0] == item.values@[0]@);
                    let loc = match Locale::from_locales(item) {
                        Ok(l) => l,
                        Err(_) => {
                            return None;
                        },
                    };
                    locs.push(loc);
                    proof {
                        assert(locs@.map_values(|l: Locale| (lang_view(l.lang), l.value@))
                            =~= before.map_values(|l: Locale| (lang_view(l.lang), l.value@)).push(
                            (lang_view(loc.lang), loc.value@),
                        ));
                        assert(strings@.subrange(0, i + 1) =~= strings@.subrange(0, i as int).push(
                            strings@[i as int],
                        ));
                        assert(spec_first_values(strings@.subrange(0, i + 1)) =~= spec_first_values(
                            strings@.subrange(0, i as int),
                        ).push((strings@[i as int].0, strings@[i as int].1[0])));
                    }
                    i = i + 1;
                }
                proof {
                    assert(strings@.subrange(0, strings@.len() as int) =~= strings@);
                }
                Some(LocaleString { locs })
            },
        }
    }
}

impl LocaleStrings {
    pub fn len(&self) -> (r: usize)
        ensures
            r == self@.len(),
    {
        self.locs.len()
    }

    pub fn is_empty(&self) -> (r: bool)
        ensures
            r == (self@.len() == 0),
    {
        self.locs.len() == 0
    }

    /// The values for the language `lang`.
    pub fn get(&self, lang: &str) -> (r: Result<Vec<String>, Error>)
        ensures
            match spec_value_for(self@, Some(lang@)) {
                Some(v) => r matches Ok(s) && views(s@) == v,
                None => r matches Err(e) && e@ == seq![Seq::<char>::empty()],
            },
    {
        let mut i: usize = 0;
        proof {
            assert(self@.subrange(0, self@.len() as int) =~= self@);
        }
        while i < self.locs.len()
            invariant
                i <= self@.len(),
                spec_value_for(self@, Some(lang@)) == spec_value_for(
                    self@.subrange(i as int, self@.len() as int),
                    Some(lang@),
                ),
            decreases self.locs.len() - i,
        {
            proof {
                let rest = self@.subrange(i as int, self@.len() as int);
                assert(rest.drop_first() =~= self@.subrange(i + 1, self@.len() as int));
            }
            if self.locs[i].lang.is_lang(lang) {
                return Ok(clone_strings(&self.locs[i].values));
            }
            i = i + 1;
        }
        Err(Error::from_message(String::new()))
    }

    /// The values for the default locale.
    pub fn get_default(&self) -> (r: Result<Vec<String>, Error>)
        ensures
            match spec_value_for(self@, None) {
                Some(v) => r matches Ok(s) && views(s@) == v,
                None => r matches Err(e) && e@ == seq!["Default locale is missing"@],
            },
    {
        let mut i: usize = 0;
        proof {
            assert(self@.subrange(0, self@.len() as int) =~= self@);
        }
        while i < self.locs.len()
            invariant
                i <= self@.len(),
                spec_value_for(self@, None) == spec_value_for(
                    self@.subrange(i as int, self@.len() as int),
                    None,
                ),
            decreases self.locs.len() - i,
        {
            proof {
                let rest = self@.subrange(i as int, self@.len() as int);
                assert(rest.drop_first() =~= self@.subrange(i + 1, self@.len() as int));
            }
            if self.locs[i].lang.is_default() {
                return Ok(clone_strings(&self.locs[i].values));
            }
            i = i + 1;
        }
        Err(Error::from_message(String::from_str("Default locale is missing")))
    }

    /// The localized variants of the list-valued `key` in `map`: every entry
    /// whose key starts with `key`, parsed by [`parse_locale_strings`].
    pub fn from_hashmap(key: &str, map: &Vec<(String, String)>) -> (r: Option<LocaleStrings>)
        ensures
            match spec_locale_strings(pair_views(map@), key@) {
                Some(ls) => r matches Some(s) && s@ == ls,
                None => r is None,
            },
    {
        if env_lookup(map, key).is_none() {
            return None;
        }
        let mut locs: Vec<Locales> = Vec::new();
        let mut i: usize = 0;
        let ghost m = pair_views(map@);
        proof {
            assert(m.subrange(0, 0) =~= Seq::<(Seq<char>, Seq<char>)>::empty());
            assert(locs@.map_values(|l: Locales| (lang_view(l.lang), views(l.values@))) =~= Seq::<
                (Option<Seq<char>>, Seq<Seq<char>>),
            >::empty());
        }
        while i < map.len()
            invariant
                i <= map@.len(),
                m == pair_views(map@),
                spec_locales_from(m.subrange(0, i as int), key@) == Some(
                    locs@.map_values(|l: Locales| (lang_view(l.lang), views(l.values@))),
                ),
            decreases map.len() - i,
        {
            let ghost before = locs@;
            proof {
                assert(m.subrange(0, i + 1).drop_last() =~= m.subrange(0, i as int));
                assert(m.subrange(0, i + 1).last() == (map@[i as int].0@, map@[i as int].1@));
            }
            let k = &map[i].0;
            if starts_with(k.as_str(), key) {
                match parse_locale_strings(k.as_str(), map[i].1.as_str()) {
                    Ok(l) => {
                        locs.push(l);
                        proof {
                            assert(locs@.map_values(
                                |l: Locales| (lang_view(l.lang), views(l.values@)),
                            ) =~= before.map_values(
                                |l: Locales| (lang_view(l.lang), views(l.values@)),
                            ).push((lang_view(l.lang), views(l.values@))));
                        }
                    },
                    Err(_) => {
                        proof {
                            lemma_locales_from_fails(m, key@, i + 1);
                            assert(m.subrange(0, map@.len() as int) =~= m);
                        }
                        return None;
                    },
                }
            }
            i = i + 1;
        }
        proof {
            assert(m.subrange(0, map@.len() as int) =~= m);
        }
        Some(LocaleStrings { locs })
    }
}

/// Once a prefix of `map` fails to parse, every longer prefix fails too.
proof fn lemma_locales_from_fails(map: Seq<(Seq<char>, Seq<char>)>, key: Seq<char>, i: int)
    requires
        0 <= i <= map.len(),
        spec_locales_from(map.subrange(0, i), key) is None,
    ensures
        spec_locales_from(map, key) is None,
    decreases map.len() - i,
{
    if i < map.len() {
        assert(map.subrange(0, i + 1).drop_last() =~= map.subrange(0, i));
        lemma_locales_from_fails(map, key, i + 1);
    } else {
        assert(map.subrange(0, i) =~= map);
    }
}

/// Every parsed variant has at least one value.
proof fn lemma_locales_from_nonempty(map: Seq<(Seq<char>, Seq<char>)>, key: Seq<char>)
    ensures
        spec_locales_from(map, key) matches Some(ls) ==> forall|j: int|
            0 <= j < ls.len() ==> #[trigger] ls[j].1.len() > 0,
    decreases map.len(),
{
    if map.len() > 0 {
        lemma_locales_from_nonempty(map.drop_last(), key);
    }
}

fn copy_lang(l: &LocaleLang) -> (r: LocaleLang)
    ensures
        lang_view(r) == lang_view(*l),
{
    match l {
        LocaleLang::Default => LocaleLang::Default,
        LocaleLang::Lang(s) => LocaleLang::Lang(s.clone()),
    }
}

/// A copy of `v`.
fn clone_strings(v: &Vec<String>) -> (r: Vec<String>)
    ensures
        views(r@) == views(v@),
{
    let mut r: Vec<String> = Vec::new();
    let mut i: usize = 0;
    while i < v.len()
        invariant
            i <= v@.len(),
            views(r@) == views(v@).subrange(0, i as int),
        decreases v.len() - i,
    {
        let ghost before = r@;
        r.push(v[i].clone());
        proof {
            assert(views(r@) =~= views(before).push(v@[i as int]@));
            assert(views(v@).subrange(0, i + 1) =~= views(v@).subrange(0, i as int).push(
                v@[i as int]@,
            ));
        }
        i = i + 1;
    }
    proof {
        assert(views(v@).subrange(0, v@.len() as int) =~= views(v@));
    }
    r
}

} // verus!
