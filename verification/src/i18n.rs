//! Localised messages: catalogs of dotted keys, flattened from nested JSON
//! objects, and lookup in the active locale with an English fallback.
use vstd::prelude::*;

use crate::text::{chars_of, extend_chars, str_eq, string_from_chars};

verus! {

/// A supported interface language.
#[derive(Clone, Copy, Debug, PartialEq, Eq, Hash, Structural)]
pub enum Locale {
    En,
    ZhCn,
}

/// A key and its message.
pub type MessageView = (Seq<char>, Seq<char>);

/// The entries as plain character sequences.
pub open spec fn entry_views(v: Seq<(String, String)>) -> Seq<MessageView> {
    v.map_values(|e: (String, String)| (e.0@, e.1@))
}

/// The message of the first entry with `key`.
pub open spec fn lookup(entries: Seq<MessageView>, key: Seq<char>) -> Option<Seq<char>>
    decreases entries.len(),
{
    if entries.len() == 0 {
        None
    } else if entries[0].0 == key {
        Some(entries[0].1)
    } else {
        lookup(entries.drop_first(), key)
    }
}

/// No key occurs twice.
pub open spec fn distinct_keys(entries: Seq<MessageView>) -> bool {
    forall|i: int, j: int| 0 <= i < j < entries.len() ==> #[trigger] entries[i].0 != #[trigger] entries[j].0
}

// ---------------------------------------------------------------------------
// Catalogs built from JSON objects
// ---------------------------------------------------------------------------

/// The parts of a JSON document a catalog reads: objects, strings, and
/// everything else (which carries no message).
#[derive(Debug)]
pub enum JsonTree {
    Object(Vec<(String, JsonTree)>),
    Text(String),
    Other,
}

/// The dotted key of a member `key` under `prefix`.
pub open spec fn child_key(prefix: Seq<char>, key: Seq<char>) -> Seq<char> {
    if prefix.len() == 0 {
        key
    } else {
        prefix + "."@ + key
    }
}

/// The messages of a JSON value under `prefix`, in document order: each
/// string at the dotted path of its object members.
pub open spec fn flatten(prefix: Seq<char>, t: JsonTree) -> Seq<MessageView>
    decreases t, 1nat, 0nat,
{
    match t {
        JsonTree::Object(members) => flatten_members(prefix, t, members@.len()),
        JsonTree::Text(m) => seq![(prefix, m@)],
        JsonTree::Other => Seq::empty(),
    }
}

/// The messages of the first `n` members of the object `t`.
pub open spec fn flatten_members(prefix: Seq<char>, t: JsonTree, n: nat) -> Seq<MessageView>
    decreases t, 0nat, n,
{
    match t {
        JsonTree::Object(members) => {
            if n == 0 || n > members@.len() {
                Seq::empty()
            } else {
                let m = members@[n - 1];
                flatten_members(prefix, t, (n - 1) as nat) + flatten(child_key(prefix, m.0@), m.1)
            }
        },
        _ => Seq::empty(),
    }
}

/// The messages of all parts, in order.
pub open spec fn flatten_parts(parts: Seq<JsonTree>) -> Seq<MessageView>
    decreases parts.len(),
{
    if parts.len() == 0 {
        Seq::empty()
    } else {
        flatten_parts(parts.drop_last()) + flatten(Seq::empty(), parts.last())
    }
}

/// The key of a member under a prefix.
fn child_key_of(prefix: &[char], key: &String) -> (r: Vec<char>)
    ensures
        r@ == child_key(prefix@, key@),
{
    let k = chars_of(key.as_str());
    if prefix.len() == 0 {
        k
    } else {
        let mut r: Vec<char> = Vec::new();
        extend_chars(&mut r, prefix);
        r.push('.');
        extend_chars(&mut r, &k);
        proof {
            reveal_strlit(".");
        }
        assert(r@ =~= prefix@ + "."@ + key@);
        r
    }
}

/// Appends the messages of a JSON value under `prefix` to `messages`.
fn flatten_json(prefix: &[char], value: &JsonTree, messages: &mut Vec<(String, String)>)
    ensures
        entry_views(final(messages)@) == entry_views(old(messages)@) + flatten(prefix@, *value),
    decreases value, 1nat,
{
    match value {
        JsonTree::Object(members) => {
            let mut i: usize = 0;
            let ghost start = entry_views(messages@);
            assert(flatten_members(prefix@, *value, 0) =~= Seq::<MessageView>::empty());
            while i < members.len()
                invariant
                    i <= members@.len(),
                    *value == JsonTree::Object(*members),
                    entry_views(messages@) == start + flatten_members(prefix@, *value, i as nat),
                decreases members.len() - i,
            {
                let key = child_key_of(prefix, &members[i].0);
                let ghost before = entry_views(messages@);
                assert(decreases_to!(*value => members@[i as int].1));
                flatten_json(&key, &members[i].1, messages);
                assert(flatten_members(prefix@, *value, (i + 1) as nat) == flatten_members(prefix@, *value, i as nat)
                    + flatten(child_key(prefix@, members@[i as int].0@), members@[i as int].1));
                i += 1;
            }
            assert(flatten(prefix@, *value) == flatten_members(prefix@, *value, members@.len()));
        },
        JsonTree::Text(m) => {
            let ghost before = messages@;
            messages.push((string_from_chars(prefix), m.clone()));
            assert(entry_views(messages@) =~= entry_views(before) + seq![(prefix@, m@)]);
        },
        JsonTree::Other => {
            assert(entry_views(messages@) =~= entry_views(messages@) + Seq::<MessageView>::empty());
        },
    }
}

/// The messages of all parts, in order.
fn flatten_all(parts: &[JsonTree]) -> (r: Vec<(String, String)>)
    ensures
        entry_views(r@) == flatten_parts(parts@),
{
    let mut r: Vec<(String, String)> = Vec::new();
    let mut i: usize = 0;
    let empty: Vec<char> = Vec::new();
    assert(entry_views(r@) =~= flatten_parts(parts@.take(0)));
    while i < parts.len()
        invariant
            i <= parts@.len(),
            empty@ == Seq::<char>::empty(),
            entry_views(r@) == flatten_parts(parts@.take(i as int)),
        decreases parts.len() - i,
    {
        assert(parts@.take(i as int + 1).drop_last() =~= parts@.take(i as int));
        flatten_json(&empty, &parts[i], &mut r);
        i += 1;
    }
    assert(parts@.take(parts@.len() as int) =~= parts@);
    r
}

/// The first key, in entry order, that repeats an earlier key.
pub open spec fn first_repeated_key(entries: Seq<MessageView>) -> Option<Seq<char>>
    decreases entries.len(),
{
    if entries.len() == 0 {
        None
    } else {
        match first_repeated_key(entries.drop_last()) {
            Some(k) => Some(k),
            None => if entry_keys(entries.drop_last()).contains(entries.last().0) {
                Some(entries.last().0)
            } else {
                None
            },
        }
    }
}

/// A repeated key found in a prefix stays the first one in longer prefixes.
proof fn lemma_first_repeated_prefix(ev: Seq<MessageView>, k: int, m: int)
    requires
        0 <= k <= m <= ev.len(),
        first_repeated_key(ev.take(k)) is Some,
    ensures
        first_repeated_key(ev.take(m)) == first_repeated_key(ev.take(k)),
    decreases m - k,
{
    if k < m {
        lemma_first_repeated_prefix(ev, k, m - 1);
        assert(ev.take(m).drop_last() =~= ev.take(m - 1));
    }
}

/// Without a repeated key the keys are distinct.
proof fn lemma_no_repeat_distinct(ev: Seq<MessageView>)
    ensures
        first_repeated_key(ev) is None <==> distinct_keys(ev),
    decreases ev.len(),
{
    if ev.len() > 0 {
        let init = ev.drop_last();
        lemma_no_repeat_distinct(init);
        let keys = entry_keys(init);
        if first_repeated_key(init) is None && !keys.contains(ev.last().0) {
            assert forall|i: int, j: int| 0 <= i < j < ev.len() implies #[trigger] ev[i].0 != #[trigger] ev[j].0 by {
                if j == ev.len() - 1 {
                    assert(keys[i] == ev[i].0);
                } else {
                    assert(init[i] == ev[i] && init[j] == ev[j]);
                }
            }
        } else if first_repeated_key(init) is None {
            let i = choose|i: int| 0 <= i < keys.len() && keys[i] == ev.last().0;
            assert(ev[i].0 == ev[ev.len() - 1].0);
        } else {
            assert(!distinct_keys(init));
            let (i, j) = choose|i: int, j: int| 0 <= i < j < init.len() && #[trigger] init[i].0 == #[trigger] init[j].0;
            assert(ev[i].0 == ev[j].0);
        }
    }
}

/// The first key that repeats an earlier one, if any.
fn repeated_key(entries: &Vec<(String, String)>) -> (r: Option<String>)
    ensures
        r is None <==> distinct_keys(entry_views(entries@)),
        match r {
            Some(k) => first_repeated_key(entry_views(entries@)) == Some(k@),
            None => first_repeated_key(entry_views(entries@)) is None,
        },
{
    let ghost ev = entry_views(entries@);
    proof {
        lemma_no_repeat_distinct(ev);
    }
    let mut j: usize = 0;
    assert(ev.take(0) =~= Seq::<MessageView>::empty());
    while j < entries.len()
        invariant
            j <= entries@.len(),
            ev == entry_views(entries@),
            first_repeated_key(ev.take(j as int)) is None,
        decreases entries.len() - j,
    {
        let ghost t = ev.take(j as int + 1);
        assert(t.drop_last() =~= ev.take(j as int));
        assert(t.last() == ev[j as int]);
        let mut i: usize = 0;
        while i < j
            invariant
                i <= j < entries@.len(),
                ev == entry_views(entries@),
                t == ev.take(j as int + 1),
                t.drop_last() == ev.take(j as int),
                t.last() == ev[j as int],
                first_repeated_key(ev.take(j as int)) is None,
                forall|a: int| 0 <= a < i ==> #[trigger] ev[a].0 != ev[j as int].0,
            decreases j - i,
        {
            if str_eq(entries[i].0.as_str(), entries[j].0.as_str()) {
                proof {
                    let keys = entry_keys(t.drop_last());
                    assert(keys[i as int] == ev[i as int].0);
                    assert(keys.contains(ev[j as int].0));
                    assert(first_repeated_key(t) == Some(ev[j as int].0));
                    lemma_first_repeated_prefix(ev, j as int + 1, ev.len() as int);
                    assert(ev.take(ev.len() as int) =~= ev);
                }
                return Some(entries[j].0.clone());
            }
            i += 1;
        }
        proof {
            let keys = entry_keys(t.drop_last());
            if keys.contains(ev[j as int].0) {
                let a = choose|a: int| 0 <= a < keys.len() && keys[a] == ev[j as int].0;
                assert(ev[a].0 == keys[a]);
            }
        }
        j += 1;
    }
    assert(ev.take(ev.len() as int) =~= ev);
    None
}

/// The messages of one locale, by dotted key.
#[derive(Clone, Debug)]
pub struct LocaleCatalog {
    messages: Vec<(String, String)>,
}

impl View for LocaleCatalog {
    type V = Seq<MessageView>;

    closed spec fn view(&self) -> Seq<MessageView> {
        entry_views(self.messages@)
    }
}

impl LocaleCatalog {
    /// The catalog of JSON parts: every string at its dotted key. Each key
    /// may occur once over all parts (see `duplicate_key`).
    pub fn from_json_parts(parts: &[JsonTree]) -> (r: Self)
        requires
            distinct_keys(flatten_parts(parts@)),
        ensures
            r@ == flatten_parts(parts@),
    {
        LocaleCatalog { messages: flatten_all(parts) }
    }

    /// The first dotted key, in document order, that JSON parts define a
    /// second time, if any.
    pub fn duplicate_key(parts: &[JsonTree]) -> (r: Option<String>)
        ensures
            r is None <==> distinct_keys(flatten_parts(parts@)),
            match r {
                Some(k) => first_repeated_key(flatten_parts(parts@)) == Some(k@),
                None => first_repeated_key(flatten_parts(parts@)) is None,
            },
    {
        let all = flatten_all(parts);
        repeated_key(&all)
    }

    /// The message of `key`.
    pub fn get(&self, key: &str) -> (r: Option<String>)
        ensures
            match r {
                Some(m) => lookup(self@, key@) == Some(m@),
                None => lookup(self@, key@) is None,
            },
    {
        let ghost all = entry_views(self.messages@);
        let mut i: usize = 0;
        assert(all.skip(0) =~= all);
        while i < self.messages.len()
            invariant
                i <= self.messages@.len(),
                all == entry_views(self.messages@),
                lookup(all, key@) == lookup(all.skip(i as int), key@),
            decreases self.messages.len() - i,
        {
            assert(all.skip(i as int).drop_first() =~= all.skip(i as int + 1));
            if str_eq(self.messages[i].0.as_str(), key) {
                return Some(self.messages[i].1.clone());
            }
            i += 1;
        }
        None
    }

    /// The number of messages.
    pub fn len(&self) -> (r: usize)
        ensures
            r == self@.len(),
    {
        self.messages.len()
    }
}

// ---------------------------------------------------------------------------
// Built-in catalogs
// ---------------------------------------------------------------------------

/// The built-in messages of a locale.
pub open spec fn builtin_messages(locale: Locale) -> Seq<MessageView> {
    match locale {
        Locale::En => seq![
            ("menu.new_terminal"@, "New Terminal"@),
            ("ssh.form.title"@, "New Connection"@),
            ("sidebar.panels.sessions"@, "Active Sessions"@),
            ("terminal.local_terminal"@, "Local Terminal"@),
            ("terminal.trzsz.completed_title"@, "Transfer Complete"@),
            ("language.english"@, "English"@),
            ("language.simplified_chinese"@, "简体中文"@),
        ],
        Locale::ZhCn => seq![
            ("menu.new_terminal"@, "新建终端"@),
            ("ssh.form.title"@, "新建连接"@),
            ("sidebar.panels.sessions"@, "活动会话"@),
            ("terminal.local_terminal"@, "本地终端"@),
            ("terminal.trzsz.completed_title"@, "传输已完成"@),
            ("language.english"@, "English"@),
            ("language.simplified_chinese"@, "简体中文"@),
        ],
    }
}

/// The messages of object members that are all texts, keyed by member name.
pub open spec fn text_members(members: Seq<(String, JsonTree)>) -> Seq<MessageView> {
    members.map_values(
        |m: (String, JsonTree)|
            (
                m.0@,
                match m.1 {
                    JsonTree::Text(s) => s@,
                    _ => Seq::empty(),
                },
            ),
    )
}

/// A text member of a JSON object.
fn text_member(key: &str, message: &str) -> (r: (String, JsonTree))
    ensures
        r.0@ == key@,
        r.1 matches JsonTree::Text(m) && m@ == message@,
{
    (string_from_chars(&chars_of(key)), JsonTree::Text(string_from_chars(&chars_of(message))))
}

/// A top-level object of text members flattens to those members, in order.
proof fn lemma_flat_text_object(members: Vec<(String, JsonTree)>, n: nat)
    requires
        n <= members@.len(),
        forall|i: int| 0 <= i < members@.len() ==> #[trigger] members@[i].1 is Text,
    ensures
        flatten_members(Seq::empty(), JsonTree::Object(members), n) == text_members(members@.take(n as int)),
    decreases n,
{
    let t = JsonTree::Object(members);
    if n == 0 {
        assert(text_members(members@.take(0)) =~= Seq::<MessageView>::empty());
    } else {
        lemma_flat_text_object(members, (n - 1) as nat);
        let m = members@[n - 1];
        assert(m.1 is Text);
        assert(child_key(Seq::empty(), m.0@) == m.0@);
        assert(flatten_members(Seq::empty(), t, n) == flatten_members(Seq::empty(), t, (n - 1) as nat)
            + flatten(m.0@, m.1));
        assert(text_members(seq![m]) =~= flatten(m.0@, m.1));
        assert(text_members(members@.take(n as int)) =~= text_members(members@.take(n - 1)) + text_members(
            seq![m],
        ));
        assert(members@.take(n as int).drop_last() =~= members@.take(n - 1));
    }
}

/// The built-in catalog parts of a locale: one object of dotted keys.
fn builtin_parts(locale: Locale) -> (r: Vec<JsonTree>)
    ensures
        flatten_parts(r@) == builtin_messages(locale),
{
    let mut m: Vec<(String, JsonTree)> = Vec::new();
    match locale {
        Locale::En => {
            m.push(text_member("menu.new_terminal", "New Terminal"));
            m.push(text_member("ssh.form.title", "New Connection"));
            m.push(text_member("sidebar.panels.sessions", "Active Sessions"));
            m.push(text_member("terminal.local_terminal", "Local Terminal"));
            m.push(text_member("terminal.trzsz.completed_title", "Transfer Complete"));
            m.push(text_member("language.english", "English"));
            m.push(text_member("language.simplified_chinese", "简体中文"));
        },
        Locale::ZhCn => {
            m.push(text_member("menu.new_terminal", "新建终端"));
            m.push(text_member("ssh.form.title", "新建连接"));
            m.push(text_member("sidebar.panels.sessions", "活动会话"));
            m.push(text_member("terminal.local_terminal", "本地终端"));
            m.push(text_member("terminal.trzsz.completed_title", "传输已完成"));
            m.push(text_member("language.english", "English"));
            m.push(text_member("language.simplified_chinese", "简体中文"));
        },
    }
    proof {
        assert(text_members(m@) =~= builtin_messages(locale));
        lemma_flat_text_object(m, m@.len());
        assert(m@.take(m@.len() as int) =~= m@);
    }
    let ghost members = m;
    let mut r: Vec<JsonTree> = Vec::new();
    r.push(JsonTree::Object(m));
    proof {
        assert(r@.drop_last() =~= Seq::<JsonTree>::empty());
        assert(flatten(Seq::empty(), r@.last()) == flatten_members(Seq::empty(), JsonTree::Object(members), members@.len()));
        assert(flatten_parts(r@) =~= flatten_parts(Seq::<JsonTree>::empty()) + flatten(Seq::empty(), r@.last()));
    }
    r
}

/// The catalog parts of every locale, each a sequence of JSON documents.
#[derive(Debug)]
pub struct CatalogSources {
    pub en: Vec<JsonTree>,
    pub zh_cn: Vec<JsonTree>,
}

impl CatalogSources {
    /// The parts of a locale.
    pub open spec fn spec_parts(&self, locale: Locale) -> Seq<JsonTree> {
        match locale {
            Locale::En => self.en@,
            Locale::ZhCn => self.zh_cn@,
        }
    }

    /// The messages of a locale: its parts flattened, in order.
    pub open spec fn messages(&self, locale: Locale) -> Seq<MessageView> {
        flatten_parts(self.spec_parts(locale))
    }

    /// No locale's parts define a key twice (see `LocaleCatalog::duplicate_key`).
    pub open spec fn valid(&self) -> bool {
        forall|l: Locale| #[trigger] distinct_keys(self.messages(l))
    }

    /// The parts of a locale.
    fn parts(&self, locale: Locale) -> (r: &[JsonTree])
        ensures
            r@ == self.spec_parts(locale),
    {
        match locale {
            Locale::En => self.en.as_slice(),
            Locale::ZhCn => self.zh_cn.as_slice(),
        }
    }

    /// The built-in catalog parts.
    pub fn builtin() -> (r: Self)
        ensures
            r.valid(),
            forall|l: Locale| #[trigger] r.messages(l) == builtin_messages(l),
    {
        let r = CatalogSources { en: builtin_parts(Locale::En), zh_cn: builtin_parts(Locale::ZhCn) };
        proof {
            lemma_builtin_keys_distinct(Locale::En);
            lemma_builtin_keys_distinct(Locale::ZhCn);
            assert forall|l: Locale| #[trigger] r.messages(l) == builtin_messages(l) by {
                match l {
                    Locale::En => {},
                    Locale::ZhCn => {},
                }
            }
            assert forall|l: Locale| #[trigger] distinct_keys(r.messages(l)) by {
                match l {
                    Locale::En => {},
                    Locale::ZhCn => {},
                }
            }
        }
        r
    }
}

// ---------------------------------------------------------------------------
// Lookup
// ---------------------------------------------------------------------------

/// The text shown for `key` with the active locale's messages and the English
/// ones: the active message, else the English message, else the key itself.
pub open spec fn catalog_text(active: Seq<MessageView>, english: Seq<MessageView>, key: Seq<char>) -> Seq<char> {
    match lookup(active, key) {
        Some(m) => m,
        None => match lookup(english, key) {
            Some(m) => m,
            None => key,
        },
    }
}

/// The text shown for `key` in `locale` with the built-in catalogs.
pub open spec fn localized_text(locale: Locale, key: Seq<char>) -> Seq<char> {
    catalog_text(builtin_messages(locale), builtin_messages(Locale::En), key)
}

/// Message lookup with the active locale and an English fallback. The
/// catalogs of the active and the fallback locale are loaded, and catalogs
/// are loaded only when a locale becomes active.
#[derive(Debug)]
pub struct I18n {
    locale: Locale,
    fallback_locale: Locale,
    sources: CatalogSources,
    catalogs: Vec<(Locale, LocaleCatalog)>,
}

/// The locales of loaded catalogs, in loading order.
pub open spec fn catalog_locales(catalogs: Seq<(Locale, LocaleCatalog)>) -> Seq<Locale> {
    catalogs.map_values(|e: (Locale, LocaleCatalog)| e.0)
}

impl I18n {
    /// The loaded catalogs are those of their locales' parts, English and the
    /// active locale among them, each loaded once.
    pub closed spec fn well_formed(&self) -> bool {
        &&& self.fallback_locale == Locale::En
        &&& self.sources.valid()
        &&& catalog_locales(self.catalogs@).no_duplicates()
        &&& catalog_locales(self.catalogs@).contains(Locale::En)
        &&& catalog_locales(self.catalogs@).contains(self.locale)
        &&& forall|i: int|
            0 <= i < self.catalogs@.len() ==> (#[trigger] self.catalogs@[i]).1@ == self.sources.messages(
                self.catalogs@[i].0,
            )
    }

    /// The active locale.
    pub closed spec fn active_locale(&self) -> Locale {
        self.locale
    }

    /// The locales whose catalogs are loaded, in loading order.
    pub closed spec fn loaded_locales(&self) -> Seq<Locale> {
        catalog_locales(self.catalogs@)
    }

    /// The messages of a locale, from its catalog parts.
    pub closed spec fn source_messages(&self, locale: Locale) -> Seq<MessageView> {
        self.sources.messages(locale)
    }

    /// The text shown for `key`.
    pub open spec fn text_of(&self, key: Seq<char>) -> Seq<char> {
        catalog_text(self.source_messages(self.active_locale()), self.source_messages(Locale::En), key)
    }

    /// A message lookup for `locale` over the given catalog parts, with the
    /// English and `locale` catalogs loaded.
    pub fn with_sources(locale: Locale, sources: CatalogSources) -> (r: Self)
        requires
            sources.valid(),
        ensures
            r.well_formed(),
            r.active_locale() == locale,
            r.loaded_locales() == if locale == Locale::En {
                seq![Locale::En]
            } else {
                seq![Locale::En, locale]
            },
            forall|l: Locale| #[trigger] r.source_messages(l) == sources.messages(l),
    {
        assert(distinct_keys(sources.messages(Locale::En)));
        assert(distinct_keys(sources.messages(locale)));
        let mut catalogs: Vec<(Locale, LocaleCatalog)> = Vec::new();
        catalogs.push((Locale::En, LocaleCatalog::from_json_parts(sources.parts(Locale::En))));
        if locale != Locale::En {
            catalogs.push((locale, LocaleCatalog::from_json_parts(sources.parts(locale))));
        }
        let ghost ls = catalog_locales(catalogs@);
        assert(ls =~= if locale == Locale::En {
            seq![Locale::En]
        } else {
            seq![Locale::En, locale]
        });
        assert(ls.contains(locale)) by {
            if locale == Locale::En {
                assert(ls[0] == locale);
            } else {
                assert(ls[1] == locale);
            }
        }
        assert(ls.contains(Locale::En)) by {
            assert(ls[0] == Locale::En);
        }
        I18n { locale, fallback_locale: Locale::En, sources, catalogs }
    }

    /// A message lookup for `locale` with the built-in catalogs.
    pub fn new(locale: Locale) -> (r: Self)
        ensures
            r.well_formed(),
            r.active_locale() == locale,
            r.loaded_locales() == if locale == Locale::En {
                seq![Locale::En]
            } else {
                seq![Locale::En, locale]
            },
            forall|l: Locale| #[trigger] r.source_messages(l) == builtin_messages(l),
            forall|key: Seq<char>| #[trigger] r.text_of(key) == localized_text(locale, key),
    {
        let r = Self::with_sources(locale, CatalogSources::builtin());
        assert(r.source_messages(locale) == builtin_messages(locale));
        assert(r.source_messages(Locale::En) == builtin_messages(Locale::En));
        r
    }

    /// The active locale.
    pub fn locale(&self) -> (r: Locale)
        ensures
            r == self.active_locale(),
    {
        self.locale
    }

    /// Makes `locale` active, loading its catalog if it is not loaded yet.
    pub fn set_locale(&mut self, locale: Locale)
        requires
            old(self).well_formed(),
        ensures
            final(self).well_formed(),
            final(self).active_locale() == locale,
            final(self).loaded_locales() == if old(self).loaded_locales().contains(locale) {
                old(self).loaded_locales()
            } else {
                old(self).loaded_locales().push(locale)
            },
            forall|l: Locale| #[trigger] final(self).source_messages(l) == old(self).source_messages(l),
    {
        let found = self.position_of(locale);
        if let Some(i) = found {
            assert(catalog_locales(self.catalogs@)[i as int] == locale);
        } else {
            let ghost before = self.catalogs@;
            assert(distinct_keys(self.sources.messages(locale)));
            let catalog = LocaleCatalog::from_json_parts(self.sources.parts(locale));
            proof {
                let after = before.push((locale, catalog));
                assert(catalog_locales(after) =~= catalog_locales(before).push(locale));
                assert(catalog_locales(after).contains(locale)) by {
                    assert(catalog_locales(after)[before.len() as int] == locale);
                }
                let k = choose|k: int| 0 <= k < catalog_locales(before).len() && catalog_locales(before)[k] == Locale::En;
                assert(catalog_locales(after)[k] == Locale::En);
                let k2 = choose|k: int| 0 <= k < catalog_locales(before).len() && catalog_locales(before)[k] == self.locale;
                assert(catalog_locales(after)[k2] == self.locale);
                assert forall|i: int| 0 <= i < after.len() implies (#[trigger] after[i]).1@ == self.sources.messages(
                    after[i].0,
                ) by {
                    if i < before.len() {
                        assert(after[i] == before[i]);
                    }
                }
            }
            self.catalogs.push((locale, catalog));
            assert(self.catalogs@ == before.push((locale, catalog)));
        }
        self.locale = locale;
    }

    /// The position of a locale among the loaded ones.
    fn position_of(&self, locale: Locale) -> (r: Option<usize>)
        ensures
            match r {
                Some(i) => i < self.catalogs@.len() && self.catalogs@[i as int].0 == locale,
                None => !self.loaded_locales().contains(locale),
            },
    {
        let mut i: usize = 0;
        while i < self.catalogs.len()
            invariant
                i <= self.catalogs@.len(),
                forall|k: int| 0 <= k < i ==> self.catalogs@[k].0 != locale,
            decreases self.catalogs.len() - i,
        {
            if self.catalogs[i].0 == locale {
                return Some(i);
            }
            i += 1;
        }
        None
    }

    /// The message of `key` in a loaded locale.
    fn catalog_message(&self, locale: Locale, key: &str) -> (r: Option<String>)
        requires
            self.well_formed(),
            self.loaded_locales().contains(locale),
        ensures
            match r {
                Some(m) => lookup(self.source_messages(locale), key@) == Some(m@),
                None => lookup(self.source_messages(locale), key@) is None,
            },
    {
        match self.position_of(locale) {
            Some(i) => self.catalogs[i].1.get(key),
            None => None,
        }
    }

    /// The text of `key`: the active locale's message, else the English one,
    /// else the key.
    pub fn t(&self, key: &str) -> (r: String)
        requires
            self.well_formed(),
        ensures
            r@ == self.text_of(key@),
    {
        match self.catalog_message(self.locale, key) {
            Some(m) => m,
            None => match self.catalog_message(self.fallback_locale, key) {
                Some(m) => m,
                None => string_from_chars(&chars_of(key)),
            },
        }
    }

    /// The number of loaded catalogs.
    pub fn loaded_catalog_count(&self) -> (r: usize)
        ensures
            r == self.loaded_locales().len(),
    {
        self.catalogs.len()
    }
}

impl Default for I18n {
    fn default() -> (r: Self)
        ensures
            r.well_formed(),
            r.active_locale() == Locale::ZhCn,
            r.loaded_locales() == seq![Locale::En, Locale::ZhCn],
            forall|l: Locale| #[trigger] r.source_messages(l) == builtin_messages(l),
    {
        Self::new(Locale::ZhCn)
    }
}

/// The keys of the entries, in order.
pub open spec fn entry_keys(entries: Seq<MessageView>) -> Seq<Seq<char>> {
    entries.map_values(|e: MessageView| e.0)
}

/// Entries with the same keys in the same order define the same keys.
proof fn lemma_lookup_same_keys(a: Seq<MessageView>, b: Seq<MessageView>, key: Seq<char>)
    requires
        entry_keys(a) == entry_keys(b),
    ensures
        lookup(a, key) is Some <==> lookup(b, key) is Some,
    decreases a.len(),
{
    assert(a.len() == entry_keys(a).len());
    assert(b.len() == entry_keys(b).len());
    if a.len() > 0 {
        assert(a[0].0 == entry_keys(a)[0]);
        assert(b[0].0 == entry_keys(b)[0]);
        assert(entry_keys(a.drop_first()) =~= entry_keys(a).drop_first());
        assert(entry_keys(b.drop_first()) =~= entry_keys(b).drop_first());
        lemma_lookup_same_keys(a.drop_first(), b.drop_first(), key);
    }
}

/// Every locale's built-in catalog defines exactly the keys of the English one.
pub proof fn lemma_builtin_catalogs_share_keys(locale: Locale, key: Seq<char>)
    ensures
        lookup(builtin_messages(locale), key) is Some <==> lookup(builtin_messages(Locale::En), key) is Some,
{
    assert(entry_keys(builtin_messages(locale)) =~= entry_keys(builtin_messages(Locale::En)));
    lemma_lookup_same_keys(builtin_messages(locale), builtin_messages(Locale::En), key);
}

/// Every key defined in English resolves, in any locale, to that locale's
/// own message and never falls back to the key itself.
pub proof fn lemma_defined_keys_resolve(locale: Locale, key: Seq<char>)
    requires
        lookup(builtin_messages(Locale::En), key) is Some,
    ensures
        lookup(builtin_messages(locale), key) matches Some(m) && localized_text(locale, key) == m,
{
    lemma_builtin_catalogs_share_keys(locale, key);
}

/// No built-in catalog defines a key twice.
pub proof fn lemma_builtin_keys_distinct(locale: Locale)
    ensures
        distinct_keys(builtin_messages(locale)),
{
    reveal_strlit("menu.new_terminal");
    reveal_strlit("ssh.form.title");
    reveal_strlit("sidebar.panels.sessions");
    reveal_strlit("terminal.local_terminal");
    reveal_strlit("terminal.trzsz.completed_title");
    reveal_strlit("language.english");
    reveal_strlit("language.simplified_chinese");
    assert("menu.new_terminal"@.len() == 17);
    assert("ssh.form.title"@.len() == 14);
    assert("sidebar.panels.sessions"@.len() == 23);
    assert("terminal.local_terminal"@.len() == 23);
    assert("terminal.trzsz.completed_title"@.len() == 30);
    assert("language.english"@.len() == 16);
    assert("language.simplified_chinese"@.len() == 27);
    assert("sidebar.panels.sessions"@[0] != "terminal.local_terminal"@[0]);
    let m = builtin_messages(locale);
    assert(m.len() == 7);
    assert forall|i: int, j: int| 0 <= i < j < m.len() implies #[trigger] m[i].0 != #[trigger] m[j].0 by {
        if m[i].0 == m[j].0 {
            assert(m[i].0.len() == m[j].0.len());
        }
    }
}

}
