//! An ordered registry of namespace prefixes, and the compaction of IRIs
//! against it.

use vstd::prelude::*;
use vstd::string::*;
use crate::pattern::{
    captured_pair, leftmost_captures, pair_from, regex_captures, DECLARATION_PATTERN,
};
use crate::text::{chars_of, has_at, occurs_at, same_text};

verus! {

/// The registered pairs as mathematical values: `(name, namespace)`, in
/// registration order.
pub type Entries = Seq<(Seq<char>, Seq<char>)>;

/// A prefix name is non-empty and holds no colon, so that the first colon of
/// a compact form always ends the name.
pub open spec fn is_prefix_name(name: Seq<char>) -> bool {
    name.len() > 0 && !name.contains(':')
}

/// The characters a namespace IRI may hold: ASCII letters and digits, and
/// `/`, `:`, `#`, `.`.
pub open spec fn is_iri_char(c: char) -> bool {
    ||| 'a' <= c <= 'z'
    ||| 'A' <= c <= 'Z'
    ||| '0' <= c <= '9'
    ||| c == '/'
    ||| c == ':'
    ||| c == '#'
    ||| c == '.'
}

/// A namespace IRI is non-empty and made of IRI characters only.
pub open spec fn is_namespace(iri: Seq<char>) -> bool {
    iri.len() > 0 && forall|i: int| 0 <= i < iri.len() ==> is_iri_char(#[trigger] iri[i])
}

/// Every pair holds a prefix name and a namespace IRI.
pub open spec fn valid_entries(entries: Entries) -> bool {
    forall|i: int|
        0 <= i < entries.len() ==> is_prefix_name((#[trigger] entries[i]).0) && is_namespace(
            entries[i].1,
        )
}

/// The entries after offering `pair` to the registry: a pair of a prefix
/// name and a namespace IRI is appended, anything else changes nothing.
pub open spec fn with_pair(entries: Entries, pair: Option<(Seq<char>, Seq<char>)>) -> Entries {
    match pair {
        Some((name, namespace)) => if is_prefix_name(name) && is_namespace(namespace) {
            entries.push((name, namespace))
        } else {
            entries
        },
        None => entries,
    }
}

/// The entries after scanning `text` for a declaration.
pub open spec fn with_scanned(entries: Entries, text: Seq<char>) -> Entries {
    with_pair(entries, captured_pair(regex_captures(DECLARATION_PATTERN@, text)))
}

/// Decides [`is_prefix_name`].
pub fn check_prefix_name(name: &str) -> (ok: bool)
    ensures
        ok == is_prefix_name(name@),
{
    let text = chars_of(name);
    let mut i: usize = 0;
    while i < text.len()
        invariant
            i <= text.len(),
            text@ == name@,
            forall|j: int| 0 <= j < i ==> text@[j] != ':',
        decreases text.len() - i,
    {
        if text[i] == ':' {
            return false;
        }
        i += 1;
    }
    text.len() > 0
}

/// Decides [`is_iri_char`].
pub fn check_iri_char(c: char) -> (ok: bool)
    ensures
        ok == is_iri_char(c),
{
    ('a' <= c && c <= 'z') || ('A' <= c && c <= 'Z') || ('0' <= c && c <= '9') || c == '/' || c
        == ':' || c == '#' || c == '.'
}

/// Decides [`is_namespace`].
pub fn check_namespace(iri: &str) -> (ok: bool)
    ensures
        ok == is_namespace(iri@),
{
    let text = chars_of(iri);
    let mut i: usize = 0;
    while i < text.len()
        invariant
            i <= text.len(),
            text@ == iri@,
            forall|j: int| 0 <= j < i ==> is_iri_char(#[trigger] text@[j]),
        decreases text.len() - i,
    {
        if !check_iri_char(text[i]) {
            return false;
        }
        i += 1;
    }
    text.len() > 0
}

/// The text of a candidate without its leading delimiter.
pub open spec fn interior(s: Seq<char>) -> Seq<char> {
    if s.len() == 0 {
        s
    } else {
        s.subrange(1, s.len() as int)
    }
}

/// Whether `namespace` is a prefix of the interior of `s`.
pub open spec fn namespace_matches(namespace: Seq<char>, s: Seq<char>) -> bool {
    namespace.is_prefix_of(interior(s))
}

/// What follows a namespace of `skipped` characters inside `s`: everything
/// after the leading delimiter and the namespace, up to but excluding the
/// closing delimiter. Empty when nothing is left after the namespace.
pub open spec fn local_part(s: Seq<char>, skipped: nat) -> Seq<char> {
    if s.len() > skipped + 1 {
        s.subrange(skipped as int + 1, s.len() - 1)
    } else {
        Seq::empty()
    }
}

/// The short form of `s` under the pair `(name, namespace)`:
/// the name, a colon, and the local part.
pub open spec fn shortened(name: Seq<char>, namespace: Seq<char>, s: Seq<char>) -> Seq<char> {
    name + seq![':'] + local_part(s, namespace.len())
}

/// Whether entry `i` is the earliest registered pair whose namespace matches `s`.
pub open spec fn is_first_match(entries: Entries, s: Seq<char>, i: int) -> bool {
    &&& 0 <= i < entries.len()
    &&& namespace_matches(entries[i].1, s)
    &&& forall|j: int| 0 <= j < i ==> !namespace_matches(#[trigger] entries[j].1, s)
}

/// The compact form of `s`: shortened by the earliest matching pair, or `s`
/// itself when no registered namespace matches.
pub open spec fn compacted(entries: Entries, s: Seq<char>) -> Seq<char> {
    if exists|i: int| is_first_match(entries, s, i) {
        let i = choose|i: int| is_first_match(entries, s, i);
        shortened(entries[i].0, entries[i].1, s)
    } else {
        s
    }
}

/// Whether some registered pair carries exactly the name `name`.
pub open spec fn names_contain(entries: Entries, name: Seq<char>) -> bool {
    exists|i: int| 0 <= i < entries.len() && (#[trigger] entries[i]).0 == name
}

/// Two first matches of the same candidate are the same entry.
pub proof fn lemma_first_match_unique(entries: Entries, s: Seq<char>, i: int, j: int)
    requires
        is_first_match(entries, s, i),
        is_first_match(entries, s, j),
    ensures
        i == j,
{
}

/// Identity: a candidate that no registered namespace matches is its own
/// compact form.
pub proof fn lemma_compact_identity(entries: Entries, s: Seq<char>)
    requires
        forall|i: int| 0 <= i < entries.len() ==> !namespace_matches(#[trigger] entries[i].1, s),
    ensures
        compacted(entries, s) == s,
{
}

/// First match wins: the earliest matching pair alone determines the compact
/// form, whatever is registered after it.
pub proof fn lemma_first_match_wins(entries: Entries, s: Seq<char>, i: int)
    requires
        is_first_match(entries, s, i),
    ensures
        compacted(entries, s) == shortened(entries[i].0, entries[i].1, s),
{
    let chosen = choose|k: int| is_first_match(entries, s, k);
    lemma_first_match_unique(entries, s, i, chosen);
}

/// Among the pairs up to a matching one there is a first match.
pub proof fn lemma_first_match_exists(entries: Entries, s: Seq<char>, i: int) -> (k: int)
    requires
        0 <= i < entries.len(),
        namespace_matches(entries[i].1, s),
    ensures
        0 <= k <= i,
        is_first_match(entries, s, k),
    decreases i,
{
    if exists|j: int| 0 <= j < i && namespace_matches(#[trigger] entries[j].1, s) {
        let j = choose|j: int| 0 <= j < i && namespace_matches(#[trigger] entries[j].1, s);
        lemma_first_match_exists(entries, s, j)
    } else {
        i
    }
}

/// Of two matching pairs the one registered earlier decides: whatever is
/// registered after a matching pair is never looked at.
pub proof fn lemma_later_pairs_are_ignored(entries: Entries, s: Seq<char>, i: int)
    requires
        0 <= i < entries.len(),
        namespace_matches(entries[i].1, s),
    ensures
        compacted(entries, s) == compacted(entries.take(i + 1), s),
{
    let k = lemma_first_match_exists(entries, s, i);
    let kept = entries.take(i + 1);
    lemma_first_match_wins(entries, s, k);
    lemma_first_match_wins(kept, s, k);
}

/// Registering is append-only: offering a pair to the registry leaves the
/// pairs before it as they were and adds at most that one pair, which is then
/// a prefix name with a namespace IRI.
pub proof fn lemma_with_pair_appends(entries: Entries, pair: Option<(Seq<char>, Seq<char>)>)
    ensures
        entries.is_prefix_of(with_pair(entries, pair)),
        with_pair(entries, pair).len() <= entries.len() + 1,
        valid_entries(entries) ==> valid_entries(with_pair(entries, pair)),
{
}

/// Registering never changes the compact form of a candidate that some
/// registered namespace already matches.
pub proof fn lemma_registering_keeps_compact_forms(
    entries: Entries,
    pair: Option<(Seq<char>, Seq<char>)>,
    s: Seq<char>,
    i: int,
)
    requires
        0 <= i < entries.len(),
        namespace_matches(entries[i].1, s),
    ensures
        compacted(with_pair(entries, pair), s) == compacted(entries, s),
{
    let after = with_pair(entries, pair);
    lemma_with_pair_appends(entries, pair);
    lemma_later_pairs_are_ignored(after, s, i);
    lemma_later_pairs_are_ignored(entries, s, i);
    assert(after.take(i + 1) =~= entries.take(i + 1));
}

/// In a registry of valid pairs, a compact form names its prefix: it
/// starts with the name of the pair that shortened it, the first colon
/// follows that name directly, and the name is registered.
pub proof fn lemma_compact_form_names_its_prefix(entries: Entries, s: Seq<char>, i: int)
    requires
        valid_entries(entries),
        is_first_match(entries, s, i),
    ensures
        entries[i].0.is_prefix_of(compacted(entries, s)),
        compacted(entries, s)[entries[i].0.len() as int] == ':',
        forall|k: int| 0 <= k < entries[i].0.len() ==> compacted(entries, s)[k] != ':',
        names_contain(entries, entries[i].0),
{
    lemma_first_match_wins(entries, s, i);
}

/// An ordered, append-only list of `(name, namespace)` pairs.
pub struct PrefixMap {
    map: Vec<(String, String)>,
}

impl View for PrefixMap {
    type V = Entries;

    closed spec fn view(&self) -> Entries {
        self.map.deep_view()
    }
}

impl PrefixMap {
    #[verifier::type_invariant]
    spec fn well_formed(&self) -> bool {
        valid_entries(self.map.deep_view())
    }

    /// An empty registry.
    pub fn new() -> (registry: Self)
        ensures
            registry@ == Entries::empty(),
    {
        let map: Vec<(String, String)> = Vec::new();
        Self { map }
    }

    /// A registry holding what a scan of `data` finds.
    pub fn from_str(data: &str) -> (registry: Self)
        ensures
            registry@ == with_scanned(Entries::empty(), data@),
    {
        let mut registry = Self::new();
        registry.scan_and_add(data);
        registry
    }

    /// Scans `data` for the first prefix declaration and registers its pair.
    /// Text without a declaration changes nothing.
    ///
    /// Which text holds a declaration is decided by the `regex` crate on
    /// [`DECLARATION_PATTERN`]; what is done with its answer is
    /// [`PrefixMap::add_captured`].
    pub fn scan_and_add(&mut self, data: &str)
        ensures
            final(self)@ == with_scanned(old(self)@, data@),
    {
        self.add_captured(leftmost_captures(DECLARATION_PATTERN, data));
    }

    /// Registers the pair that a search result carries, if it carries one
    /// and the pair is a prefix name with a namespace IRI.
    pub fn add_captured(&mut self, groups: Option<Vec<Option<String>>>)
        ensures
            final(self)@ == with_pair(old(self)@, captured_pair(groups.deep_view())),
    {
        match pair_from(groups) {
            Some((name, namespace)) => {
                self.insert(name, namespace);
            },
            None => {},
        }
    }

    /// Appends `(name, namespace)` if the two are a prefix name and a
    /// namespace IRI; says whether it did.
    pub fn insert(&mut self, name: String, namespace: String) -> (added: bool)
        ensures
            added == (is_prefix_name(name@) && is_namespace(namespace@)),
            final(self)@ == with_pair(old(self)@, Some((name@, namespace@))),
    {
        if check_prefix_name(name.as_str()) && check_namespace(namespace.as_str()) {
            proof {
                use_type_invariant(&*self);
            }
            let mut map: Vec<(String, String)> = Vec::new();
            std::mem::swap(&mut self.map, &mut map);
            let ghost before = map.deep_view();
            map.push((name, namespace));
            assert(map.deep_view() =~= before.push((name@, namespace@)));
            self.map = map;
            true
        } else {
            false
        }
    }

    /// The registered pairs, in registration order.
    pub fn entries(&self) -> (pairs: &[(String, String)])
        ensures
            pairs.deep_view() == self@,
            valid_entries(self@),
    {
        proof {
            use_type_invariant(self);
        }
        self.map.as_slice()
    }

    /// Whether `prefix` is the name of some registered pair.
    pub fn has_prefix(&self, prefix: &str) -> (found: bool)
        ensures
            found == names_contain(self@, prefix@),
    {
        contains_key(self.map.as_slice(), prefix)
    }

    /// The compact form of `s`: the first registered pair whose namespace
    /// the interior of `s` starts with replaces that namespace by its name
    /// and a colon, and the delimiters around `s` are dropped; without
    /// such a pair `s` comes back unchanged.
    pub fn replace_with_prefix(&self, s: &str) -> (out: String)
        ensures
            out@ == compacted(self@, s@),
    {
        proof {
            use_type_invariant(self);
        }
        let text = chars_of(s);
        let mut i: usize = 0;
        while i < self.map.len()
            invariant
                i <= self.map.len(),
                text@ == s@,
                valid_entries(self@),
                forall|j: int| 0 <= j < i ==> !namespace_matches(#[trigger] self@[j].1, s@),
            decreases self.map.len() - i,
        {
            let namespace = chars_of(self.map[i].1.as_str());
            proof {
                assert(self@[i as int].1 == namespace@);
                lemma_match_occurs(namespace@, s@);
            }
            if has_at(&text, 1, &namespace) {
                assert(1 + namespace.len() <= text.len());
                let from: usize = namespace.len() + 1;
                let mut out = self.map[i].0.clone();
                out.append(":");
                if text.len() > from {
                    out.append(s.substring_char(from, text.len() - 1));
                }
                proof {
                    reveal_strlit(":");
                    lemma_first_match_wins(self@, s@, i as int);
                }
                return out;
            }
            i += 1;
        }
        proof {
            lemma_compact_identity(self@, s@);
        }
        s.to_owned()
    }
}

/// A non-empty namespace matches exactly when it occurs right after the
/// leading delimiter.
proof fn lemma_match_occurs(namespace: Seq<char>, s: Seq<char>)
    requires
        namespace.len() > 0,
    ensures
        namespace_matches(namespace, s) == occurs_at(s, 1, namespace),
{
    let inner = interior(s);
    if s.len() > 0 && namespace.len() <= inner.len() {
        assert(inner.subrange(0, namespace.len() as int) =~= s.subrange(
            1,
            1 + namespace.len() as int,
        ));
    }
}

/// Whether some pair of `map` has `key` as its first component.
pub fn contains_key(map: &[(String, String)], key: &str) -> (found: bool)
    ensures
        found == names_contain(map.deep_view(), key@),
{
    let mut i: usize = 0;
    while i < map.len()
        invariant
            i <= map.len(),
            forall|j: int| 0 <= j < i ==> (#[trigger] map.deep_view()[j]).0 != key@,
        decreases map.len() - i,
    {
        if same_text(map[i].0.as_str(), key) {
            assert(map.deep_view()[i as int].0 == key@);
            return true;
        }
        i += 1;
    }
    false
}

} // verus!
