//! Kernel configuration options and the set of options a build requires.

use crate::err::{Error, ErrorView};
use crate::text::{
    begins_with, concat2, concat3, lemma_split_is_not_empty, split, split_char, starts_with,
    str_eq, views,
};
use vstd::prelude::*;
use vstd::string::*;

verus! {

/// One option of the kernel configuration: `KEY` or `KEY=VALUE`.
#[derive(Debug, Clone, PartialEq, Eq)]
pub struct KConfig {
    /// The option's name, which begins with `CONFIG_`, such as `CONFIG_NET`.
    pub key: String,
    /// The value asked for; `y` is meant when there is none.
    pub value: Option<String>,
}

/// Mathematical model of a [`KConfig`].
pub struct KConfigView {
    pub key: Seq<char>,
    pub value: Option<Seq<char>>,
}

impl View for KConfig {
    type V = KConfigView;

    open spec fn view(&self) -> KConfigView {
        KConfigView {
            key: self.key@,
            value: match self.value {
                Some(v) => Some(v@),
                None => None,
            },
        }
    }
}

impl KConfigView {
    /// The value the option is set to: the one asked for, or `y`.
    pub open spec fn value_or_default(self) -> Seq<char> {
        match self.value {
            Some(v) => v,
            None => "y"@,
        }
    }

    /// The textual form: `KEY`, or `KEY=VALUE` when a value is asked for.
    pub open spec fn text(self) -> Seq<char> {
        match self.value {
            Some(v) => self.key + "="@ + v,
            None => self.key,
        }
    }
}

/// The models of a sequence of options.
pub open spec fn kconfig_views(v: Seq<KConfig>) -> Seq<KConfigView> {
    Seq::new(v.len(), |i: int| v[i]@)
}

/// Whether `key` names an option: it begins with `CONFIG_`.
pub open spec fn is_option_key(key: Seq<char>) -> bool {
    starts_with(key, "CONFIG_"@)
}

/// The option that `s` writes: the text before the `=` is the key and the
/// text after it the value; without `=` the whole is the key. Nothing when
/// the key does not begin with `CONFIG_`, and when `s` holds more than one
/// `=`.
pub open spec fn parsed_kconfig(s: Seq<char>) -> Option<KConfigView> {
    let parts = split(s, '=');
    if !is_option_key(parts[0]) {
        None
    } else if parts.len() == 1 {
        Some(KConfigView { key: parts[0], value: None })
    } else if parts.len() == 2 {
        Some(KConfigView { key: parts[0], value: Some(parts[1]) })
    } else {
        None
    }
}

/// What reading an option from `s` yields: the option, or the complaint
/// that quotes `s`.
pub open spec fn kconfig_from(s: Seq<char>) -> Result<KConfigView, ErrorView> {
    match parsed_kconfig(s) {
        Some(c) => Ok(c),
        None => Err(ErrorView::message("Invalid config option: "@ + s)),
    }
}

/// The model of a result that holds an option.
pub open spec fn kconfig_result_view(r: Result<KConfig, Error>) -> Result<KConfigView, ErrorView> {
    match r {
        Ok(c) => Ok(c@),
        Err(e) => Err(e@),
    }
}

impl KConfig {
    /// Reads an option from its textual form `KEY[=VALUE]`. A key that does
    /// not begin with `CONFIG_` is an error, and so is more than one `=`.
    pub fn parse(s: &str) -> (r: Result<KConfig, Error>)
        ensures
            kconfig_result_view(r) == kconfig_from(s@),
    {
        let mut parts = split_char(s, '=');
        assert(views(parts@).len() == parts@.len());
        proof {
            lemma_split_is_not_empty(s@, '=');
        }
        assert(views(parts@)[0] == parts@[0]@);
        if !begins_with(parts[0].as_str(), "CONFIG_") {
            Err(Error::new(concat2("Invalid config option: ", s).as_str()))
        } else if parts.len() == 1 {
            let ghost all = views(parts@);
            let key = parts.pop().unwrap();
            assert(key@ == all[0]);
            Ok(KConfig { key, value: None })
        } else if parts.len() == 2 {
            let ghost all = views(parts@);
            let value = parts.pop().unwrap();
            let key = parts.pop().unwrap();
            assert(value@ == all[1]);
            assert(key@ == all[0]);
            Ok(KConfig { key, value: Some(value) })
        } else {
            Err(Error::new(concat2("Invalid config option: ", s).as_str()))
        }
    }

    /// The value the option is set to: the one asked for, or `y`.
    pub fn value_or_default(&self) -> (r: String)
        ensures
            r@ == self@.value_or_default(),
    {
        match &self.value {
            Some(v) => v.clone(),
            None => "y".to_owned(),
        }
    }

    /// The textual form: `KEY`, or `KEY=VALUE` when a value is asked for.
    pub fn to_string(&self) -> (r: String)
        ensures
            r@ == self@.text(),
    {
        match &self.value {
            Some(v) => concat3(self.key.as_str(), "=", v.as_str()),
            None => self.key.clone(),
        }
    }

    /// A copy of the option.
    pub fn duplicate(&self) -> (r: KConfig)
        ensures
            r@ == self@,
    {
        KConfig {
            key: self.key.clone(),
            value: match &self.value {
                Some(v) => Some(v.clone()),
                None => None,
            },
        }
    }
}

impl std::str::FromStr for KConfig {
    type Err = Error;

    /// Reads an option from its textual form `KEY[=VALUE]`. A key that does
    /// not begin with `CONFIG_` is an error, and so is more than one `=`.
    fn from_str(s: &str) -> (r: Result<KConfig, Error>)
        ensures
            kconfig_result_view(r) == kconfig_from(s@),
    {
        KConfig::parse(s)
    }
}

/// Position of the first option named `key`, or the length when there is none.
pub open spec fn key_index(entries: Seq<KConfigView>, key: Seq<char>) -> int
    decreases entries.len(),
{
    if entries.len() == 0 {
        0
    } else if entries[0].key == key {
        0
    } else {
        1 + key_index(entries.drop_first(), key)
    }
}

/// Whether no two options share a key.
pub open spec fn distinct_keys(entries: Seq<KConfigView>) -> bool {
    forall|i: int, j: int|
        0 <= i < entries.len() && 0 <= j < entries.len() && i != j ==> entries[i].key
            != entries[j].key
}

/// The options after `cfg` was required: it takes the place of the option of
/// the same key, or comes last when no option has its key.
pub open spec fn inserted(entries: Seq<KConfigView>, cfg: KConfigView) -> Seq<KConfigView> {
    let i = key_index(entries, cfg.key);
    if 0 <= i < entries.len() {
        entries.update(i, cfg)
    } else {
        entries.push(cfg)
    }
}

/// The options after each of `more` was required, in order.
pub open spec fn inserted_all(entries: Seq<KConfigView>, more: Seq<KConfigView>) -> Seq<
    KConfigView,
>
    decreases more.len(),
{
    if more.len() == 0 {
        entries
    } else {
        inserted(inserted_all(entries, more.drop_last()), more.last())
    }
}

/// The options as a mapping from key to option; of two options with one key
/// the later counts.
pub open spec fn as_map(entries: Seq<KConfigView>) -> Map<Seq<char>, KConfigView>
    decreases entries.len(),
{
    if entries.len() == 0 {
        Map::empty()
    } else {
        as_map(entries.drop_last()).insert(entries.last().key, entries.last())
    }
}

/// `key_index` lands on the first option of that key.
pub proof fn lemma_key_index(entries: Seq<KConfigView>, key: Seq<char>)
    ensures
        0 <= key_index(entries, key) <= entries.len(),
        forall|k: int| 0 <= k < key_index(entries, key) ==> entries[k].key != key,
        key_index(entries, key) < entries.len() ==> entries[key_index(entries, key)].key == key,
    decreases entries.len(),
{
    if entries.len() > 0 && entries[0].key != key {
        let t = entries.drop_first();
        lemma_key_index(t, key);
        assert forall|k: int| 0 <= k < key_index(entries, key) implies entries[k].key != key by {
            if k > 0 {
                assert(entries[k] == t[k - 1]);
            }
        }
        if key_index(entries, key) < entries.len() {
            assert(entries[key_index(entries, key)] == t[key_index(t, key)]);
        }
    }
}

/// A position with the defining property of `key_index` is `key_index`.
pub proof fn lemma_key_index_is(entries: Seq<KConfigView>, key: Seq<char>, i: int)
    requires
        0 <= i <= entries.len(),
        forall|k: int| 0 <= k < i ==> entries[k].key != key,
        i < entries.len() ==> entries[i].key == key,
    ensures
        key_index(entries, key) == i,
{
    lemma_key_index(entries, key);
    let f = key_index(entries, key);
    if f < i {
        assert(entries[f].key == key);
    } else if f > i {
        assert(entries[i].key == key);
    }
}

/// The mapping holds exactly the keys of the options, and under a key the
/// option that carries it, as long as no two options share a key.
pub proof fn lemma_as_map(entries: Seq<KConfigView>)
    requires
        distinct_keys(entries),
    ensures
        forall|k: Seq<char>|
            as_map(entries).dom().contains(k) <==> key_index(entries, k) < entries.len(),
        forall|i: int|
            0 <= i < entries.len() ==> as_map(entries)[#[trigger] entries[i].key] == entries[i],
    decreases entries.len(),
{
    if entries.len() > 0 {
        let t = entries.drop_last();
        let l = entries.last();
        assert forall|i: int, j: int| 0 <= i < t.len() && 0 <= j < t.len() && i != j implies t[i].key
            != t[j].key by {
            assert(t[i] == entries[i] && t[j] == entries[j]);
        }
        lemma_as_map(t);
        assert forall|k: Seq<char>|
            as_map(entries).dom().contains(k) <==> key_index(entries, k) < entries.len() by {
            lemma_key_index(entries, k);
            lemma_key_index(t, k);
            if key_index(t, k) < t.len() {
                assert(entries[key_index(t, k)] == t[key_index(t, k)]);
                if key_index(entries, k) >= entries.len() {
                    assert(entries[key_index(t, k)].key != k);
                }
            }
            if key_index(entries, k) < entries.len() && k != l.key {
                let f = key_index(entries, k);
                assert(f < t.len());
                assert(t[f] == entries[f]);
                if key_index(t, k) >= t.len() {
                    assert(t[f].key != k);
                }
            }
        }
        assert forall|i: int| 0 <= i < entries.len() implies as_map(entries)[#[trigger] entries[i].key]
            == entries[i] by {
            if i < t.len() {
                assert(t[i] == entries[i]);
                assert(entries[i].key != entries[entries.len() - 1].key);
                assert(as_map(t)[t[i].key] == t[i]);
            }
        }
    }
}

/// Requiring an option keeps the keys distinct.
pub proof fn lemma_inserted_distinct(entries: Seq<KConfigView>, cfg: KConfigView)
    requires
        distinct_keys(entries),
    ensures
        distinct_keys(inserted(entries, cfg)),
{
    lemma_key_index(entries, cfg.key);
    let i = key_index(entries, cfg.key);
    let r = inserted(entries, cfg);
    assert forall|a: int, b: int| 0 <= a < r.len() && 0 <= b < r.len() && a != b implies r[a].key
        != r[b].key by {
        if i < entries.len() {
            assert(entries[i].key == cfg.key);
            if a != i && b != i {
                assert(r[a] == entries[a] && r[b] == entries[b]);
            } else if a == i {
                assert(r[b] == entries[b]);
                assert(entries[b].key != entries[i].key);
            } else {
                assert(r[a] == entries[a]);
                assert(entries[a].key != entries[i].key);
            }
        } else {
            if a < entries.len() && b < entries.len() {
                assert(r[a] == entries[a] && r[b] == entries[b]);
            } else if a < entries.len() {
                assert(r[a] == entries[a]);
            } else {
                assert(r[b] == entries[b]);
            }
        }
    }
}

/// Requiring an option maps its key to it and leaves every other key as it
/// was: a later writer overwrites an earlier one.
pub proof fn lemma_inserted_overwrites(entries: Seq<KConfigView>, cfg: KConfigView)
    requires
        distinct_keys(entries),
    ensures
        as_map(inserted(entries, cfg)) == as_map(entries).insert(cfg.key, cfg),
{
    lemma_inserted_distinct(entries, cfg);
    let r = inserted(entries, cfg);
    lemma_as_map(entries);
    lemma_as_map(r);
    lemma_key_index(entries, cfg.key);
    let i = key_index(entries, cfg.key);
    let lhs = as_map(r);
    let rhs = as_map(entries).insert(cfg.key, cfg);
    assert forall|k: Seq<char>| lhs.dom().contains(k) <==> rhs.dom().contains(k) by {
        lemma_key_index(entries, k);
        lemma_key_index(r, k);
        let f = key_index(entries, k);
        let g = key_index(r, k);
        if k == cfg.key {
            if i < entries.len() {
                assert(r[i].key == k);
            } else {
                assert(r[entries.len() as int].key == k);
            }
            assert(g < r.len());
        } else {
            if f < entries.len() {
                assert(r[f] == entries[f]);
                if g >= r.len() {
                    assert(r[f].key != k);
                }
            }
            if g < r.len() {
                assert(r[g].key == k);
                assert(g < entries.len() && r[g] == entries[g]);
                if f >= entries.len() {
                    assert(entries[g].key != k);
                }
            }
        }
    }
    assert forall|k: Seq<char>| lhs.dom().contains(k) implies lhs[k] == rhs[k] by {
        lemma_key_index(r, k);
        let g = key_index(r, k);
        assert(r[g].key == k);
        assert(lhs[r[g].key] == r[g]);
        if k != cfg.key {
            assert(g < entries.len() && r[g] == entries[g]);
            assert(as_map(entries)[entries[g].key] == entries[g]);
        } else {
            if i < entries.len() {
                assert(r[i].key == k);
                assert(g == i);
            } else {
                assert(g < entries.len() ==> r[g] == entries[g]);
                assert(g == entries.len());
            }
        }
    }
    assert(lhs =~= rhs);
}

/// The options a build requires, at most one for each key, in the order in
/// which their keys were first required.
#[derive(Debug)]
pub struct KConfigMap {
    entries: Vec<KConfig>,
}

impl View for KConfigMap {
    type V = Seq<KConfigView>;

    closed spec fn view(&self) -> Seq<KConfigView> {
        kconfig_views(self.entries@)
    }
}

impl Clone for KConfigMap {
    fn clone(&self) -> (r: KConfigMap)
        ensures
            r@ == self@,
    {
        let entries = self.values();
        KConfigMap { entries }
    }
}

impl KConfigMap {
    /// No two options share a key.
    #[verifier::type_invariant]
    spec fn keys_are_distinct(self) -> bool {
        distinct_keys(kconfig_views(self.entries@))
    }

    /// No options.
    pub fn new() -> (r: KConfigMap)
        ensures
            r@ == Seq::<KConfigView>::empty(),
    {
        let r = KConfigMap { entries: Vec::new() };
        assert(r@ =~= Seq::<KConfigView>::empty());
        r
    }

    /// The number of options.
    pub fn len(&self) -> (r: usize)
        ensures
            r == self@.len(),
            distinct_keys(self@),
    {
        proof {
            use_type_invariant(self);
        }
        self.entries.len()
    }

    /// Requires `cfg`: it takes the place of the option of the same key, or
    /// comes last when no option has its key.
    pub fn insert(&mut self, cfg: KConfig)
        ensures
            final(self)@ == inserted(old(self)@, cfg@),
            as_map(final(self)@) == as_map(old(self)@).insert(cfg@.key, cfg@),
            distinct_keys(final(self)@),
    {
        let ghost before = self@;
        let mut out: Vec<KConfig> = Vec::new();
        let mut found = false;
        let mut i: usize = 0;
        while i < self.entries.len()
            invariant
                i <= self.entries.len(),
                self@ == before,
                out@.len() == i,
                !found ==> kconfig_views(out@) == before.take(i as int),
                !found ==> forall|k: int| 0 <= k < i ==> before[k].key != cfg@.key,
                found ==> 0 <= key_index(before, cfg@.key) < i,
                found ==> kconfig_views(out@) == before.take(i as int).update(
                    key_index(before, cfg@.key),
                    cfg@,
                ),
            decreases self.entries.len() - i,
        {
            let ghost prev = kconfig_views(out@);
            assert(before[i as int] == self.entries@[i as int]@);
            if !found && str_eq(self.entries[i].key.as_str(), cfg.key.as_str()) {
                proof {
                    lemma_key_index_is(before, cfg@.key, i as int);
                }
                out.push(cfg.duplicate());
                found = true;
                assert(kconfig_views(out@) =~= prev.push(cfg@));
                assert(kconfig_views(out@) =~= before.take(i + 1).update(i as int, cfg@));
            } else {
                out.push(self.entries[i].duplicate());
                assert(kconfig_views(out@) =~= prev.push(before[i as int]));
                if found {
                    assert(kconfig_views(out@) =~= before.take(i + 1).update(
                        key_index(before, cfg@.key),
                        cfg@,
                    ));
                } else {
                    assert(kconfig_views(out@) =~= before.take(i + 1));
                }
            }
            i = i + 1;
        }
        assert(before.take(before.len() as int) =~= before);
        if !found {
            proof {
                lemma_key_index_is(before, cfg@.key, before.len() as int);
            }
            let ghost prev = kconfig_views(out@);
            out.push(cfg);
            assert(kconfig_views(out@) =~= prev.push(cfg@));
        }
        assert(kconfig_views(out@) == inserted(before, cfg@));
        proof {
            use_type_invariant(&*self);
            lemma_inserted_distinct(before, cfg@);
            lemma_inserted_overwrites(before, cfg@);
        }
        *self = KConfigMap { entries: out };
    }

    /// The option of that key, when one is required.
    pub fn get(&self, key: &str) -> (r: Option<KConfig>)
        ensures
            r is Some <==> as_map(self@).dom().contains(key@),
            r is Some ==> r->0@ == as_map(self@)[key@],
    {
        proof {
            use_type_invariant(self);
            lemma_as_map(self@);
        }
        let mut i: usize = 0;
        while i < self.entries.len() && !str_eq(self.entries[i].key.as_str(), key)
            invariant
                i <= self.entries.len(),
                forall|k: int| 0 <= k < i ==> self@[k].key != key@,
            decreases self.entries.len() - i,
        {
            i = i + 1;
        }
        proof {
            lemma_key_index_is(self@, key@, i as int);
        }
        if i < self.entries.len() {
            assert(self@[i as int].key == key@);
            Some(self.entries[i].duplicate())
        } else {
            None
        }
    }

    /// The options, in the order in which their keys were first required.
    pub fn values(&self) -> (r: Vec<KConfig>)
        ensures
            kconfig_views(r@) == self@,
            distinct_keys(self@),
    {
        proof {
            use_type_invariant(self);
        }
        let mut out: Vec<KConfig> = Vec::new();
        let mut i: usize = 0;
        while i < self.entries.len()
            invariant
                i <= self.entries.len(),
                kconfig_views(out@) == self@.take(i as int),
            decreases self.entries.len() - i,
        {
            let ghost prev = kconfig_views(out@);
            assert(self@[i as int] == self.entries@[i as int]@);
            out.push(self.entries[i].duplicate());
            assert(kconfig_views(out@) =~= prev.push(self@[i as int]));
            assert(kconfig_views(out@) =~= self@.take(i + 1));
            i = i + 1;
        }
        assert(self@.take(self.entries.len() as int) =~= self@);
        out
    }
}

} // verus!
