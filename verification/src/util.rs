//! Keys and values in attributes.
//!
//! An attribute such as `#[attr(key, key2 = "value", key3 = name)]` holds a
//! list of keys, each alone or with a value. [`parse_kv_group`] reads the
//! tokens of such an attribute into a [`KvMap`].

use vstd::prelude::*;
use crate::declaration::{value_tokens, AttributeValue, Token};

verus! {

/// Whether two texts are the same.
pub fn same_text(a: &str, b: &str) -> (same: bool)
    ensures
        same == (a@ == b@),
{
    a.to_owned() == b.to_owned()
}

/// The texts of a sequence of strings.
pub open spec fn texts(strings: Seq<String>) -> Seq<Seq<char>> {
    strings.map_values(|s: String| s@)
}

/// The value that stands beside a key.
#[derive(Clone, Debug, PartialEq, Eq)]
pub enum KvValue {
    /// The key stands alone.
    Absent,
    /// A literal such as `"hello"`, `20` or `3.4`, by its source text.
    Lit(String),
    /// An identifier such as `hello`.
    Ident(String),
}

/// The model of a [`KvValue`].
pub enum KvValueView {
    /// The key stands alone.
    Absent,
    /// A literal, by its source text.
    Lit(Seq<char>),
    /// An identifier.
    Ident(Seq<char>),
}

impl View for KvValue {
    type V = KvValueView;

    open spec fn view(&self) -> KvValueView {
        match *self {
            KvValue::Absent => KvValueView::Absent,
            KvValue::Lit(text) => KvValueView::Lit(text@),
            KvValue::Ident(name) => KvValueView::Ident(name@),
        }
    }
}

/// The model of one entry of a [`KvMap`].
pub struct KvEntryView {
    /// The key.
    pub key: Seq<char>,
    /// The value beside it.
    pub value: KvValueView,
}

/// The place of the entry of `key` in `entries`, and the length of `entries`
/// where no entry has that key.
pub open spec fn kv_index(entries: Seq<KvEntryView>, key: Seq<char>) -> int
    decreases entries.len(),
{
    if entries.len() == 0 || entries[0].key == key {
        0
    } else {
        1 + kv_index(entries.drop_first(), key)
    }
}

/// Whether `entries` has an entry of `key`.
pub open spec fn kv_has(entries: Seq<KvEntryView>, key: Seq<char>) -> bool {
    kv_index(entries, key) < entries.len()
}

/// The value beside `key` in `entries`, if there is one.
pub open spec fn kv_get(entries: Seq<KvEntryView>, key: Seq<char>) -> Option<KvValueView> {
    if kv_has(entries, key) {
        Some(entries[kv_index(entries, key)].value)
    } else {
        None
    }
}

/// `entries` with `value` beside `key`: in place of the value that stood
/// there, or as a new entry at the end.
pub open spec fn kv_insert(entries: Seq<KvEntryView>, key: Seq<char>, value: KvValueView) -> Seq<
    KvEntryView,
> {
    if kv_has(entries, key) {
        entries.update(kv_index(entries, key), KvEntryView { key, value })
    } else {
        entries.push(KvEntryView { key, value })
    }
}

/// `entries` without the entry of `key`.
pub open spec fn kv_remove(entries: Seq<KvEntryView>, key: Seq<char>) -> Seq<KvEntryView> {
    if kv_has(entries, key) {
        entries.remove(kv_index(entries, key))
    } else {
        entries
    }
}

/// Whether no key occurs twice in `entries`.
pub open spec fn kv_distinct(entries: Seq<KvEntryView>) -> bool {
    forall|i: int, j: int|
        0 <= i < j < entries.len() ==> (#[trigger] entries[i]).key != (#[trigger] entries[j]).key
}

/// The keys of `entries`, in their order.
pub open spec fn kv_keys(entries: Seq<KvEntryView>) -> Seq<Seq<char>> {
    entries.map_values(|entry: KvEntryView| entry.key)
}

/// Where a key stands at `index` and nowhere before it, `index` is its place.
pub proof fn lemma_kv_index_found(entries: Seq<KvEntryView>, key: Seq<char>, index: int)
    requires
        0 <= index < entries.len(),
        entries[index].key == key,
        forall|j: int| 0 <= j < index ==> entries[j].key != key,
    ensures
        kv_index(entries, key) == index,
    decreases index,
{
    if index > 0 {
        assert(entries[0].key != key);
        let rest = entries.drop_first();
        assert forall|j: int| 0 <= j < index - 1 implies rest[j].key != key by {
            assert(rest[j] == entries[j + 1]);
        }
        lemma_kv_index_found(rest, key, index - 1);
    }
}

/// Where a key stands nowhere, its place is the length.
pub proof fn lemma_kv_index_missing(entries: Seq<KvEntryView>, key: Seq<char>)
    requires
        forall|j: int| 0 <= j < entries.len() ==> entries[j].key != key,
    ensures
        kv_index(entries, key) == entries.len(),
    decreases entries.len(),
{
    if entries.len() > 0 {
        assert(entries[0].key != key);
        let rest = entries.drop_first();
        assert forall|j: int| 0 <= j < rest.len() implies rest[j].key != key by {
            assert(rest[j] == entries[j + 1]);
        }
        lemma_kv_index_missing(rest, key);
    }
}

/// The place of a key is within the entries or just behind them, the entry
/// there has the key, and no entry before it has.
pub proof fn lemma_kv_index(entries: Seq<KvEntryView>, key: Seq<char>)
    ensures
        0 <= kv_index(entries, key) <= entries.len(),
        kv_has(entries, key) ==> entries[kv_index(entries, key)].key == key,
        forall|j: int| 0 <= j < kv_index(entries, key) ==> entries[j].key != key,
    decreases entries.len(),
{
    if entries.len() > 0 && entries[0].key != key {
        let rest = entries.drop_first();
        lemma_kv_index(rest, key);
        assert forall|j: int| 0 <= j < kv_index(entries, key) implies entries[j].key != key by {
            if j > 0 {
                assert(entries[j] == rest[j - 1]);
            }
        }
    }
}

/// Putting a value beside a key and taking an entry out both keep the keys
/// distinct.
pub proof fn lemma_kv_distinct(entries: Seq<KvEntryView>, key: Seq<char>, value: KvValueView)
    requires
        kv_distinct(entries),
    ensures
        kv_distinct(kv_insert(entries, key, value)),
        kv_distinct(kv_remove(entries, key)),
        !kv_has(kv_remove(entries, key), key),
        kv_get(kv_insert(entries, key, value), key) == Some(value),
{
    lemma_kv_index(entries, key);
    let index = kv_index(entries, key);
    let removed = kv_remove(entries, key);
    let inserted = kv_insert(entries, key, value);
    assert forall|j: int| 0 <= j < removed.len() implies removed[j].key != key by {
        if kv_has(entries, key) {
            if j < index {
                assert(removed[j] == entries[j]);
            } else {
                assert(removed[j] == entries[j + 1]);
                assert(entries[index].key != entries[j + 1].key);
            }
        }
    }
    lemma_kv_index_missing(removed, key);
    if kv_has(entries, key) {
        assert forall|j: int| 0 <= j < index implies inserted[j].key != key by {
            assert(inserted[j] == entries[j]);
        }
        lemma_kv_index_found(inserted, key, index);
    } else {
        assert forall|j: int| 0 <= j < entries.len() implies inserted[j].key != key by {
            assert(inserted[j] == entries[j]);
        }
        lemma_kv_index_found(inserted, key, entries.len() as int);
    }
}

struct KvEntry {
    key: String,
    value: KvValue,
}

impl View for KvEntry {
    type V = KvEntryView;

    closed spec fn view(&self) -> KvEntryView {
        KvEntryView { key: self.key@, value: self.value@ }
    }
}

/// The keys of an attribute with the values beside them. No key occurs
/// twice, and the entries keep the order in which their keys first came.
pub struct KvMap {
    entries: Vec<KvEntry>,
}

impl View for KvMap {
    type V = Seq<KvEntryView>;

    closed spec fn view(&self) -> Seq<KvEntryView> {
        self.entries@.map_values(|entry: KvEntry| entry@)
    }
}

impl KvMap {
    #[verifier::type_invariant]
    spec fn inv(self) -> bool {
        kv_distinct(self@)
    }

    /// A map without entries.
    pub fn new() -> (map: Self)
        ensures
            map@ == Seq::<KvEntryView>::empty(),
    {
        let map = KvMap { entries: Vec::new() };
        assert(map@ =~= Seq::<KvEntryView>::empty());
        map
    }

    /// The number of entries.
    pub fn len(&self) -> (n: usize)
        ensures
            n == self@.len(),
            kv_distinct(self@),
    {
        proof {
            use_type_invariant(self);
        }
        self.entries.len()
    }

    /// Whether the map has no entries.
    pub fn is_empty(&self) -> (empty: bool)
        ensures
            empty == (self@.len() == 0),
            kv_distinct(self@),
    {
        proof {
            use_type_invariant(self);
        }
        self.entries.len() == 0
    }

    /// The place of the entry of `key`, and the number of entries where
    /// there is none.
    fn position(&self, key: &str) -> (index: usize)
        ensures
            index == kv_index(self@, key@),
            index <= self@.len(),
    {
        let mut i: usize = 0;
        while i < self.entries.len()
            invariant
                i <= self.entries.len(),
                forall|j: int| 0 <= j < i ==> self@[j].key != key@,
            decreases self.entries.len() - i,
        {
            if same_text(self.entries[i].key.as_str(), key) {
                proof {
                    assert(self@[i as int].key == key@);
                    lemma_kv_index_found(self@, key@, i as int);
                }
                return i;
            }
            assert(self@[i as int].key != key@);
            i = i + 1;
        }
        proof {
            lemma_kv_index_missing(self@, key@);
        }
        i
    }

    /// Whether the map has an entry of `key`.
    pub fn contains_key(&self, key: &str) -> (has: bool)
        ensures
            has == kv_has(self@, key@),
    {
        self.position(key) < self.entries.len()
    }

    /// The value beside `key`, if there is one.
    pub fn get(&self, key: &str) -> (value: Option<&KvValue>)
        ensures
            match value {
                Some(value) => kv_get(self@, key@) == Some(value@),
                None => kv_get(self@, key@) is None,
            },
    {
        let index: usize = self.position(key);
        if index < self.entries.len() {
            Some(&self.entries[index].value)
        } else {
            None
        }
    }

    /// Puts `value` beside `key`: in place of the value that stood there,
    /// which is handed back, or as a new entry at the end.
    pub fn insert(&mut self, key: String, value: KvValue) -> (previous: Option<KvValue>)
        ensures
            final(self)@ == kv_insert(old(self)@, key@, value@),
            kv_distinct(final(self)@),
            match previous {
                Some(previous) => kv_get(old(self)@, key@) == Some(previous@),
                None => kv_get(old(self)@, key@) is None,
            },
    {
        proof {
            use_type_invariant(&*self);
            lemma_kv_distinct(self@, key@, value@);
        }
        let index: usize = self.position(key.as_str());
        let mut entries: Vec<KvEntry> = Vec::new();
        std::mem::swap(&mut entries, &mut self.entries);
        assert(self@ =~= Seq::<KvEntryView>::empty());
        let ghost before = entries@.map_values(|entry: KvEntry| entry@);
        let previous = if index < entries.len() {
            let entry = entries.remove(index);
            entries.insert(index, KvEntry { key, value });
            Some(entry.value)
        } else {
            entries.push(KvEntry { key, value });
            None
        };
        assert(entries@.map_values(|entry: KvEntry| entry@) =~= kv_insert(before, key@, value@));
        self.entries = entries;
        previous
    }

    /// Takes the entry of `key` out and hands its value back, if there is
    /// such an entry.
    pub fn remove(&mut self, key: &str) -> (value: Option<KvValue>)
        ensures
            final(self)@ == kv_remove(old(self)@, key@),
            kv_distinct(final(self)@),
            match value {
                Some(value) => kv_get(old(self)@, key@) == Some(value@),
                None => kv_get(old(self)@, key@) is None,
            },
    {
        proof {
            use_type_invariant(&*self);
            lemma_kv_distinct(self@, key@, KvValueView::Absent);
        }
        let index: usize = self.position(key);
        let mut entries: Vec<KvEntry> = Vec::new();
        std::mem::swap(&mut entries, &mut self.entries);
        assert(self@ =~= Seq::<KvEntryView>::empty());
        let ghost before = entries@.map_values(|entry: KvEntry| entry@);
        let value = if index < entries.len() {
            let entry = entries.remove(index);
            Some(entry.value)
        } else {
            None
        };
        assert(entries@.map_values(|entry: KvEntry| entry@) =~= kv_remove(before, key@));
        self.entries = entries;
        value
    }

    /// The keys of the map, in the order of its entries.
    pub fn keys(&self) -> (keys: Vec<String>)
        ensures
            texts(keys@) == kv_keys(self@),
    {
        let mut keys: Vec<String> = Vec::new();
        let mut i: usize = 0;
        while i < self.entries.len()
            invariant
                i <= self.entries.len(),
                keys@.len() == i,
                forall|j: int| 0 <= j < i ==> keys@[j]@ == self@[j].key,
            decreases self.entries.len() - i,
        {
            keys.push(self.entries[i].key.clone());
            i = i + 1;
        }
        assert(texts(keys@) =~= kv_keys(self@));
        keys
    }
}

/// Why the tokens of an attribute are no list of keys and values. Each
/// variant but the last holds the place of the token that is at fault.
#[derive(Copy, Clone, Debug, PartialEq, Eq, Structural)]
pub enum KvError {
    /// The list does not start with a key.
    ExpectedKey { at: usize },
    /// A key is followed by something else than `=` or `,`.
    ExpectedEqualsOrComma { at: usize },
    /// An equals sign is followed by something else than an identifier or
    /// a literal.
    ExpectedValue { at: usize },
    /// A value is followed by something else than `,`.
    ExpectedComma { at: usize },
    /// A comma is followed by something else than a key.
    ExpectedNextKey { at: usize },
    /// The list ends behind an equals sign.
    UnexpectedEnd,
}

/// How far a list of keys and values has been read.
pub enum KvState {
    /// Nothing has been read.
    Start,
    /// A key has been read.
    Key(Seq<char>),
    /// A key and an equals sign have been read.
    Equals(Seq<char>),
    /// A key, an equals sign and a value have been read.
    Value,
    /// A comma has been read.
    Comma,
}

/// What has been read of a list of keys and values.
pub struct KvParse {
    /// How far the current entry has been read.
    pub state: KvState,
    /// The entries that are complete.
    pub entries: Seq<KvEntryView>,
}

/// What has been read after one more token, `token`, which stands at `at`.
pub open spec fn kv_step(parse: KvParse, token: Token, at: usize) -> Result<KvParse, KvError> {
    match parse.state {
        KvState::Start => match token {
            Token::Ident(name) => Ok(KvParse { state: KvState::Key(name@), ..parse }),
            _ => Err(KvError::ExpectedKey { at }),
        },
        KvState::Key(key) => match token {
            Token::Punct(c) if c == '=' => Ok(KvParse { state: KvState::Equals(key), ..parse }),
            Token::Punct(c) if c == ',' => Ok(
                KvParse {
                    state: KvState::Comma,
                    entries: kv_insert(parse.entries, key, KvValueView::Absent),
                },
            ),
            _ => Err(KvError::ExpectedEqualsOrComma { at }),
        },
        KvState::Equals(key) => match token {
            Token::Ident(name) => Ok(
                KvParse {
                    state: KvState::Value,
                    entries: kv_insert(parse.entries, key, KvValueView::Ident(name@)),
                },
            ),
            Token::Literal(text) => Ok(
                KvParse {
                    state: KvState::Value,
                    entries: kv_insert(parse.entries, key, KvValueView::Lit(text@)),
                },
            ),
            _ => Err(KvError::ExpectedValue { at }),
        },
        KvState::Value => match token {
            Token::Punct(c) if c == ',' => Ok(KvParse { state: KvState::Comma, ..parse }),
            _ => Err(KvError::ExpectedComma { at }),
        },
        KvState::Comma => match token {
            Token::Ident(name) => Ok(KvParse { state: KvState::Key(name@), ..parse }),
            _ => Err(KvError::ExpectedNextKey { at }),
        },
    }
}

/// What has been read after all of `tokens`, or the first fault in them.
pub open spec fn kv_scan(tokens: Seq<Token>) -> Result<KvParse, KvError>
    decreases tokens.len(),
{
    if tokens.len() == 0 {
        Ok(KvParse { state: KvState::Start, entries: Seq::empty() })
    } else {
        match kv_scan(tokens.drop_last()) {
            Ok(parse) => kv_step(parse, tokens.last(), (tokens.len() - 1) as usize),
            Err(error) => Err(error),
        }
    }
}

/// The entries at the end of the tokens: a key that stands last stands
/// alone, and nothing may stand last behind an equals sign.
pub open spec fn kv_finish(parse: KvParse) -> Result<Seq<KvEntryView>, KvError> {
    match parse.state {
        KvState::Key(key) => Ok(kv_insert(parse.entries, key, KvValueView::Absent)),
        KvState::Equals(_) => Err(KvError::UnexpectedEnd),
        _ => Ok(parse.entries),
    }
}

/// The keys and values that `tokens` list.
///
/// The tokens are entries with a comma between any two of them and, if one
/// likes, a comma behind the last. An entry is a key, which is an
/// identifier, alone or followed by `=` and a value, which is an identifier
/// or a literal. A key that comes again takes the new value and keeps its
/// place.
pub open spec fn kv_group(tokens: Seq<Token>) -> Result<Seq<KvEntryView>, KvError> {
    match kv_scan(tokens) {
        Ok(parse) => kv_finish(parse),
        Err(error) => Err(error),
    }
}

/// Whether `path` is the one identifier `expected` and nothing else.
pub open spec fn is_single_path(path: Seq<Token>, expected: Seq<char>) -> bool {
    path.len() == 1 && (path[0] matches Token::Ident(name) && name@ == expected)
}

/// Whether `path` is the one identifier `expected` and nothing else.
pub fn path_is_single(path: &Vec<Token>, expected: &str) -> (single: bool)
    ensures
        single == is_single_path(path@, expected@),
{
    if path.len() == 1 {
        match &path[0] {
            Token::Ident(name) => same_text(name.as_str(), expected),
            _ => false,
        }
    } else {
        false
    }
}

enum Reading {
    Start,
    Key(String),
    Equals(String),
    Value,
    Comma,
}

impl View for Reading {
    type V = KvState;

    closed spec fn view(&self) -> KvState {
        match *self {
            Reading::Start => KvState::Start,
            Reading::Key(key) => KvState::Key(key@),
            Reading::Equals(key) => KvState::Equals(key@),
            Reading::Value => KvState::Value,
            Reading::Comma => KvState::Comma,
        }
    }
}

/// Reads the keys and values of an attribute's value. The answer is the
/// map of the entries that [`kv_group`] gives for the tokens of the value,
/// or its error.
pub fn parse_kv_group(value: &AttributeValue) -> (result: Result<KvMap, KvError>)
    ensures
        match result {
            Ok(map) => kv_group(value_tokens(*value)) == Ok::<Seq<KvEntryView>, KvError>(map@),
            Err(error) => kv_group(value_tokens(*value)) == Err::<Seq<KvEntryView>, KvError>(
                error,
            ),
        },
{
    let tokens = value.get_value_tokens();
    let mut map = KvMap::new();
    let mut reading = Reading::Start;
    let mut i: usize = 0;
    while i < tokens.len()
        invariant
            i <= tokens.len(),
            tokens@ == value_tokens(*value),
            kv_scan(tokens@.take(i as int)) == Ok::<KvParse, KvError>(
                KvParse { state: reading@, entries: map@ },
            ),
        decreases tokens.len() - i,
    {
        proof {
            assert(tokens@.take(i + 1).drop_last() =~= tokens@.take(i as int));
            assert(tokens@.take(i + 1).last() == tokens@[i as int]);
        }
        let ghost before = KvParse { state: reading@, entries: map@ };
        let mut current = Reading::Start;
        std::mem::swap(&mut current, &mut reading);
        let next = match current {
            Reading::Start => match &tokens[i] {
                Token::Ident(name) => Ok(Reading::Key(name.clone())),
                _ => Err(KvError::ExpectedKey { at: i }),
            },
            Reading::Key(key) => match &tokens[i] {
                Token::Punct(c) => {
                    if *c == '=' {
                        Ok(Reading::Equals(key))
                    } else if *c == ',' {
                        map.insert(key, KvValue::Absent);
                        Ok(Reading::Comma)
                    } else {
                        Err(KvError::ExpectedEqualsOrComma { at: i })
                    }
                },
                _ => Err(KvError::ExpectedEqualsOrComma { at: i }),
            },
            Reading::Equals(key) => match &tokens[i] {
                Token::Ident(name) => {
                    map.insert(key, KvValue::Ident(name.clone()));
                    Ok(Reading::Value)
                },
                Token::Literal(text) => {
                    map.insert(key, KvValue::Lit(text.clone()));
                    Ok(Reading::Value)
                },
                _ => Err(KvError::ExpectedValue { at: i }),
            },
            Reading::Value => match &tokens[i] {
                Token::Punct(c) => {
                    if *c == ',' {
                        Ok(Reading::Comma)
                    } else {
                        Err(KvError::ExpectedComma { at: i })
                    }
                },
                _ => Err(KvError::ExpectedComma { at: i }),
            },
            Reading::Comma => match &tokens[i] {
                Token::Ident(name) => Ok(Reading::Key(name.clone())),
                _ => Err(KvError::ExpectedNextKey { at: i }),
            },
        };
        match next {
            Ok(state) => {
                reading = state;
            },
            Err(error) => {
                proof {
                    assert(kv_step(before, tokens@[i as int], i) == Err::<KvParse, KvError>(error));
                    lemma_scan_fails(tokens@, i + 1);
                }
                return Err(error);
            },
        }
        assert(kv_step(before, tokens@[i as int], i) == Ok::<KvParse, KvError>(
            KvParse { state: reading@, entries: map@ },
        ));
        i = i + 1;
    }
    proof {
        assert(tokens@.take(i as int) =~= tokens@);
    }
    match reading {
        Reading::Key(key) => {
            map.insert(key, KvValue::Absent);
            Ok(map)
        },
        Reading::Equals(_) => Err(KvError::UnexpectedEnd),
        _ => Ok(map),
    }
}

/// A fault among the first tokens is the fault of all of them.
pub proof fn lemma_scan_fails(tokens: Seq<Token>, n: int)
    requires
        0 <= n <= tokens.len(),
        kv_scan(tokens.take(n)) is Err,
    ensures
        kv_scan(tokens) == kv_scan(tokens.take(n)),
    decreases tokens.len() - n,
{
    if n == tokens.len() {
        assert(tokens.take(n) =~= tokens);
    } else {
        assert(tokens.take(n + 1).drop_last() =~= tokens.take(n));
        lemma_scan_fails(tokens, n + 1);
    }
}

} // verus!
