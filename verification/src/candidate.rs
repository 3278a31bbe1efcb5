//! Optimization candidates: reversible parameter change sets.

use indexmap::IndexMap;
use vstd::prelude::*;

use crate::digest::{hex_lower, push_utf8, sha256, sha256_hex_prefix};
use crate::text::{i64_to_decimal, join, join_strings, signed_decimal, views};

verus! {

/// A typed parameter value that can be applied and rolled back.
///
/// Values the tuner handles are integers, flags and text; a real number is
/// carried as its decimal text.
#[derive(Debug, Clone)]
pub enum KnobValue {
    Int(i64),
    Real(String),
    Flag(bool),
    Text(String),
}

/// Model of a [`KnobValue`].
pub enum Knob {
    Int(int),
    Real(Seq<char>),
    Flag(bool),
    Text(Seq<char>),
}

impl View for KnobValue {
    type V = Knob;

    open spec fn view(&self) -> Knob {
        match self {
            KnobValue::Int(v) => Knob::Int(*v as int),
            KnobValue::Real(t) => Knob::Real(t@),
            KnobValue::Flag(b) => Knob::Flag(*b),
            KnobValue::Text(s) => Knob::Text(s@),
        }
    }
}

/// One reversible change relative to a known previous value.
#[derive(Debug, Clone)]
pub struct ParamChange {
    pub key: String,
    pub previous: KnobValue,
    pub next: KnobValue,
    pub rationale: String,
}

/// Model of a [`ParamChange`].
pub struct Move {
    pub key: Seq<char>,
    pub previous: Knob,
    pub next: Knob,
    pub rationale: Seq<char>,
}

impl View for ParamChange {
    type V = Move;

    open spec fn view(&self) -> Move {
        Move {
            key: self.key@,
            previous: self.previous@,
            next: self.next@,
            rationale: self.rationale@,
        }
    }
}

/// Models of a sequence of moves.
pub open spec fn move_views(v: Seq<ParamChange>) -> Seq<Move> {
    v.map_values(|m: ParamChange| m@)
}

/// The integer in a knob, or 0 for any other value (`as_i64().unwrap_or(0)`).
pub open spec fn knob_int(k: Knob) -> int {
    match k {
        Knob::Int(v) => v,
        _ => 0,
    }
}


/// Text of a value (`ParamValue::display`).
pub open spec fn knob_display(k: Knob) -> Seq<char> {
    match k {
        Knob::Int(v) => signed_decimal(v),
        Knob::Real(t) => t,
        Knob::Flag(b) => if b {
            "true"@
        } else {
            "false"@
        },
        Knob::Text(t) => t,
    }
}

impl KnobValue {
    /// The integer, when this is an integer.
    pub fn as_i64(&self) -> (r: Option<i64>)
        ensures
            r == (match self {
                KnobValue::Int(v) => Some(*v),
                _ => None::<i64>,
            }),
    {
        match self {
            KnobValue::Int(v) => Some(*v),
            _ => None,
        }
    }

    /// The integer as a `usize`, when this is an integer that fits.
    pub fn as_usize(&self) -> (r: Option<usize>)
        ensures
            r == (match self {
                KnobValue::Int(v) => if 0 <= *v && *v <= usize::MAX {
                    Some(*v as usize)
                } else {
                    None::<usize>
                },
                _ => None::<usize>,
            }),
    {
        match self {
            KnobValue::Int(v) => if *v >= 0 && (*v as u64) <= (usize::MAX as u64) {
                Some(*v as usize)
            } else {
                None
            },
            _ => None,
        }
    }

    /// Human-readable text of the value.
    pub fn display(&self) -> (s: String)
        ensures
            s@ == knob_display(self@),
    {
        match self {
            KnobValue::Int(v) => i64_to_decimal(*v),
            KnobValue::Real(t) => t.clone(),
            KnobValue::Flag(b) => if *b {
                String::from_str("true")
            } else {
                String::from_str("false")
            },
            KnobValue::Text(t) => t.clone(),
        }
    }

    /// Equality of values.
    pub fn same_as(&self, other: &KnobValue) -> (r: bool)
        ensures
            r == (self@ == other@),
    {
        match (self, other) {
            (KnobValue::Int(a), KnobValue::Int(b)) => *a == *b,
            (KnobValue::Real(a), KnobValue::Real(b)) => crate::text::str_eq(a.as_str(), b.as_str()),
            (KnobValue::Flag(a), KnobValue::Flag(b)) => *a == *b,
            (KnobValue::Text(a), KnobValue::Text(b)) => crate::text::str_eq(a.as_str(), b.as_str()),
            _ => false,
        }
    }

    /// A copy with the same model.
    pub fn duplicate(&self) -> (r: KnobValue)
        ensures
            r@ == self@,
    {
        match self {
            KnobValue::Int(v) => KnobValue::Int(*v),
            KnobValue::Real(t) => KnobValue::Real(t.clone()),
            KnobValue::Flag(b) => KnobValue::Flag(*b),
            KnobValue::Text(t) => KnobValue::Text(t.clone()),
        }
    }
}

impl ParamChange {
    /// A copy with the same model.
    pub fn duplicate(&self) -> (r: ParamChange)
        ensures
            r@ == self@,
    {
        ParamChange {
            key: self.key.clone(),
            previous: self.previous.duplicate(),
            next: self.next.duplicate(),
            rationale: self.rationale.clone(),
        }
    }
}

#[verifier::external_type_specification]
#[verifier::external_body]
#[verifier::reject_recursive_types(K)]
#[verifier::reject_recursive_types(V)]
#[verifier::reject_recursive_types(S)]
pub struct ExIndexMap<K, V, S>(IndexMap<K, V, S>);

/// `Clone for IndexMap`: accepted so that candidates can be cloned; nothing
/// is stated of the copy, since the map's entries are named only for
/// `String` keys and values.
pub assume_specification<K, V, S>[ <IndexMap<K, V, S> as Clone>::clone ](m: &IndexMap<K, V, S>) -> (r:
    IndexMap<K, V, S>) where K: Clone, V: Clone, S: Clone
;

/// The entries of a metadata map, keys and values, in insertion order.
pub uninterp spec fn meta_entries(m: IndexMap<String, String>) -> Seq<(Seq<char>, Seq<char>)>;

/// No key occurs twice.
pub open spec fn meta_keys_distinct(s: Seq<(Seq<char>, Seq<char>)>) -> bool {
    forall|i: int, j: int| 0 <= i < j < s.len() ==> (#[trigger] s[i]).0 != (#[trigger] s[j]).0
}

/// The position of the entry with key `k`, if there is one.
pub open spec fn meta_position(s: Seq<(Seq<char>, Seq<char>)>, k: Seq<char>) -> Option<int> {
    if exists|i: int| 0 <= i < s.len() && (#[trigger] s[i]).0 == k {
        Some(choose|i: int| 0 <= i < s.len() && (#[trigger] s[i]).0 == k)
    } else {
        None
    }
}

/// `IndexMap::new`: an empty map.
#[verifier::external_body]
pub(crate) fn meta_new() -> (m: IndexMap<String, String>)
    ensures
        meta_entries(m) == Seq::<(Seq<char>, Seq<char>)>::empty(),
{
    IndexMap::new()
}

/// `IndexMap::insert`: an existing key keeps its place and takes the new
/// value, and its old value is returned; a new key is appended last. Each
/// key of an `IndexMap` occurs once.
#[verifier::external_body]
pub(crate) fn meta_insert(m: &mut IndexMap<String, String>, key: String, value: String) -> (r: Option<String>)
    ensures
        meta_keys_distinct(meta_entries(*final(m))),
        match meta_position(meta_entries(*old(m)), key@) {
            Some(i) => {
                &&& meta_entries(*final(m)) == meta_entries(*old(m)).update(i, (key@, value@))
                &&& r matches Some(v) && v@ == meta_entries(*old(m))[i].1
            },
            None => {
                &&& meta_entries(*final(m)) == meta_entries(*old(m)).push((key@, value@))
                &&& r is None
            },
        },
{
    m.insert(key, value)
}

/// A named set of parameter changes forming one experiment candidate.
#[derive(Debug, Clone)]
pub struct Candidate {
    pub id: String,
    pub label: String,
    pub changes: Vec<ParamChange>,
    /// Extra metadata (strategy generation, etc.), in insertion order.
    pub meta: IndexMap<String, String>,
}

/// `key=previous\u{2192}next` for one change.
pub open spec fn change_summary(m: Move) -> Seq<char> {
    m.key + "="@ + knob_display(m.previous) + "\u{2192}"@ + knob_display(m.next)
}

/// Summary of a change list: `no changes`, or each change summarised, joined by `, `.
pub open spec fn summary_of_changes(changes: Seq<Move>) -> Seq<char> {
    if changes.len() == 0 {
        "no changes"@
    } else {
        join(changes.map_values(|m: Move| change_summary(m)), ", "@)
    }
}

/// Lexicographic order of character sequences (the order of `str`).
pub open spec fn lex_le(a: Seq<char>, b: Seq<char>) -> bool
    decreases a.len(),
{
    if a.len() == 0 {
        true
    } else if b.len() == 0 {
        false
    } else if a[0] < b[0] {
        true
    } else if a[0] > b[0] {
        false
    } else {
        lex_le(a.drop_first(), b.drop_first())
    }
}

/// Insert `k` after every key that orders at or before it.
pub open spec fn insert_key(s: Seq<Seq<char>>, k: Seq<char>) -> Seq<Seq<char>>
    decreases s.len(),
{
    if s.len() == 0 {
        seq![k]
    } else if lex_le(s.last(), k) {
        s.push(k)
    } else {
        insert_key(s.drop_last(), k).push(s.last())
    }
}

/// The keys in ascending order.
pub open spec fn sort_keys(s: Seq<Seq<char>>) -> Seq<Seq<char>>
    decreases s.len(),
{
    if s.len() == 0 {
        Seq::empty()
    } else {
        insert_key(sort_keys(s.drop_last()), s.last())
    }
}

/// Index of the first change with key `k`.
pub open spec fn first_with_key(changes: Seq<Move>, k: Seq<char>) -> Option<int>
    decreases changes.len(),
{
    if changes.len() == 0 {
        None
    } else {
        match first_with_key(changes.drop_last(), k) {
            Some(i) => Some(i),
            None => if changes.last().key == k {
                Some(changes.len() - 1)
            } else {
                None
            },
        }
    }
}

/// `key=next;` for the first change of each key, keys taken in the order given.
pub open spec fn hash_entries(keys: Seq<Seq<char>>, changes: Seq<Move>) -> Seq<u8>
    decreases keys.len(),
{
    if keys.len() == 0 {
        Seq::empty()
    } else {
        hash_entries(keys.drop_last(), changes) + match first_with_key(changes, keys.last()) {
            Some(i) => vstd::utf8::encode_utf8(keys.last()) + seq![61u8] + vstd::utf8::encode_utf8(
                knob_display(changes[i].next),
            ) + seq![59u8],
            None => Seq::empty(),
        }
    }
}

/// Content hash of a change list: 16 hex digits of the SHA-256 of its
/// `key=next;` entries in key order.
pub open spec fn content_hash_of(changes: Seq<Move>) -> Seq<char> {
    hex_lower(
        sha256(hash_entries(sort_keys(changes.map_values(|m: Move| m.key)), changes)),
    ).take(16)
}

/// Whether `a` orders at or before `b`.
pub fn str_le(a: &str, b: &str) -> (r: bool)
    ensures
        r == lex_le(a@, b@),
{
    let va = crate::text::chars_of(a);
    let vb = crate::text::chars_of(b);
    let mut i: usize = 0;
    assert(a@.skip(0) =~= a@);
    assert(b@.skip(0) =~= b@);
    while i < va.len() && i < vb.len()
        invariant
            i <= va@.len(),
            i <= vb@.len(),
            va@ == a@,
            vb@ == b@,
            lex_le(a@, b@) == lex_le(a@.skip(i as int), b@.skip(i as int)),
        decreases va.len() - i,
    {
        let x = va[i];
        let y = vb[i];
        proof {
            assert(a@.skip(i as int)[0] == x);
            assert(b@.skip(i as int)[0] == y);
        }
        if x < y {
            return true;
        }
        if x > y {
            return false;
        }
        proof {
            assert(a@.skip(i as int).drop_first() =~= a@.skip(i + 1));
            assert(b@.skip(i as int).drop_first() =~= b@.skip(i + 1));
        }
        i = i + 1;
    }
    proof {
        if i == va.len() {
            assert(a@.skip(i as int).len() == 0);
        } else {
            assert(b@.skip(i as int).len() == 0);
        }
    }
    i == va.len()
}

proof fn lemma_insert_key_at(s: Seq<Seq<char>>, k: Seq<char>, p: int)
    requires
        0 <= p <= s.len(),
        forall|i: int| p <= i < s.len() ==> !lex_le(#[trigger] s[i], k),
        p > 0 ==> lex_le(s[p - 1], k),
    ensures
        insert_key(s, k) == s.insert(p, k),
    decreases s.len(),
{
    if s.len() == 0 {
        assert(seq![k] =~= s.insert(p, k));
    } else if lex_le(s.last(), k) {
        assert(p == s.len());
        assert(s.push(k) =~= s.insert(p, k));
    } else {
        lemma_insert_key_at(s.drop_last(), k, p);
        assert(s.drop_last().insert(p, k).push(s.last()) =~= s.insert(p, k));
    }
}

fn sorted_keys(changes: &Vec<ParamChange>) -> (v: Vec<String>)
    ensures
        views(v@) == sort_keys(move_views(changes@).map_values(|m: Move| m.key)),
{
    let ghost keys = move_views(changes@).map_values(|m: Move| m.key);
    let mut out: Vec<String> = Vec::new();
    for n in 0..changes.len()
        invariant
            keys == move_views(changes@).map_values(|m: Move| m.key),
            views(out@) == sort_keys(keys.take(n as int)),
    {
        let k = changes[n].key.clone();
        let ghost s = views(out@);
        let mut p = out.len();
        while p > 0
            invariant
                p <= out.len(),
                s == views(out@),
                forall|i: int| p <= i < out.len() ==> !lex_le(#[trigger] s[i], k@),
            ensures
                p <= out.len(),
                forall|i: int| p <= i < out.len() ==> !lex_le(#[trigger] s[i], k@),
                p > 0 ==> lex_le(s[p - 1], k@),
            decreases p,
        {
            if str_le(out[p - 1].as_str(), k.as_str()) {
                break;
            }
            p = p - 1;
        }
        proof {
            lemma_insert_key_at(s, k@, p as int);
            assert(keys.take(n + 1).drop_last() =~= keys.take(n as int));
            assert(keys.take(n + 1).last() == k@);
        }
        out.insert(p, k);
        assert(views(out@) =~= s.insert(p as int, k@));
    }
    assert(keys.take(changes.len() as int) =~= keys);
    out
}

pub(crate) fn find_first_with_key(changes: &Vec<ParamChange>, key: &str) -> (r: Option<usize>)
    ensures
        (match r {
            Some(i) => i < changes@.len() && first_with_key(move_views(changes@), key@) == Some(
                i as int,
            ),
            None => first_with_key(move_views(changes@), key@) is None,
        }),
{
    let ghost all = move_views(changes@);
    let mut i: usize = 0;
    while i < changes.len()
        invariant
            i <= changes.len(),
            all == move_views(changes@),
            first_with_key(all.take(i as int), key@) is None,
        decreases changes.len() - i,
    {
        let ghost t = all.take(i + 1);
        proof {
            assert(t.drop_last() =~= all.take(i as int));
        }
        if crate::text::str_eq(changes[i].key.as_str(), key) {
            proof {
                lemma_first_with_key_prefix(all, key@, i as int + 1);
            }
            return Some(i);
        }
        i = i + 1;
    }
    assert(all.take(changes.len() as int) =~= all);
    None
}

proof fn lemma_first_with_key_prefix(all: Seq<Move>, k: Seq<char>, n: int)
    requires
        0 <= n <= all.len(),
        first_with_key(all.take(n), k) is Some,
    ensures
        first_with_key(all, k) == first_with_key(all.take(n), k),
    decreases all.len() - n,
{
    if n < all.len() {
        assert(all.take(n + 1).drop_last() =~= all.take(n));
        lemma_first_with_key_prefix(all, k, n + 1);
    } else {
        assert(all.take(n) =~= all);
    }
}

impl Candidate {
    /// The baseline candidate: no changes.
    pub fn identity() -> (c: Candidate)
        ensures
            c.id@ == "identity"@,
            c.label@ == "no changes"@,
            c.changes@.len() == 0,
            meta_entries(c.meta) == Seq::<(Seq<char>, Seq<char>)>::empty(),
    {
        Candidate {
            id: String::from_str("identity"),
            label: String::from_str("no changes"),
            changes: Vec::new(),
            meta: meta_new(),
        }
    }

    /// A candidate without changes is the baseline.
    pub fn is_identity(&self) -> (b: bool)
        ensures
            b == (self.changes@.len() == 0),
    {
        self.changes.len() == 0
    }

    /// Stable hash of what the candidate sets: for each key in ascending
    /// order, `key=next;` of the first change with that key, hashed with
    /// SHA-256; the first 16 hex digits.
    pub fn content_hash(&self) -> (h: String)
        ensures
            h@ == content_hash_of(move_views(self.changes@)),
    {
        let keys = sorted_keys(&self.changes);
        let ghost all = move_views(self.changes@);
        let ghost ks = views(keys@);
        let mut bytes: Vec<u8> = Vec::new();
        for j in 0..keys.len()
            invariant
                ks == views(keys@),
                all == move_views(self.changes@),
                bytes@ == hash_entries(ks.take(j as int), all),
        {
            proof {
                assert(ks.take(j + 1).drop_last() =~= ks.take(j as int));
                assert(ks.take(j + 1).last() == keys@[j as int]@);
            }
            let found = find_first_with_key(&self.changes, keys[j].as_str());
            match found {
                Some(i) => {
                    push_utf8(&mut bytes, keys[j].as_str());
                    bytes.push(61u8);
                    let d = self.changes[i].next.display();
                    push_utf8(&mut bytes, d.as_str());
                    bytes.push(59u8);
                    proof {
                        assert(all[i as int] == self.changes@[i as int]@);
                        assert(bytes@ =~= hash_entries(ks.take(j + 1), all));
                    }
                },
                None => {
                    assert(bytes@ =~= hash_entries(ks.take(j + 1), all));
                },
            }
        }
        assert(ks.take(keys.len() as int) =~= ks);
        sha256_hex_prefix(&bytes, 16)
    }

    /// One line: `no changes`, or `key=previous\u{2192}next` per change, joined by `, `.
    pub fn summary_line(&self) -> (s: String)
        ensures
            s@ == summary_of_changes(move_views(self.changes@)),
    {
        if self.changes.len() == 0 {
            return String::from_str("no changes");
        }
        let mut parts: Vec<String> = Vec::new();
        let ghost all = move_views(self.changes@);
        for i in 0..self.changes.len()
            invariant
                all == move_views(self.changes@),
                views(parts@) == all.take(i as int).map_values(|m: Move| change_summary(m)),
        {
            let c = &self.changes[i];
            let mut p = c.key.clone();
            p.append("=");
            let a = c.previous.display();
            p.append(a.as_str());
            p.append("\u{2192}");
            let b = c.next.display();
            p.append(b.as_str());
            let ghost before = views(parts@);
            parts.push(p);
            proof {
                assert(views(parts@) =~= before.push(p@));
                assert(all.take(i + 1).map_values(|m: Move| change_summary(m)) =~= all.take(
                    i as int,
                ).map_values(|m: Move| change_summary(m)).push(change_summary(all[i as int])));
            }
        }
        assert(all.take(self.changes.len() as int) =~= all);
        join_strings(&parts, ", ")
    }
}

/// `a` orders strictly before `b`.
pub open spec fn lex_lt(a: Seq<char>, b: Seq<char>) -> bool {
    lex_le(a, b) && a != b
}

/// Law: any two character sequences are ordered one way or the other.
pub proof fn lemma_lex_total(a: Seq<char>, b: Seq<char>)
    ensures
        lex_le(a, b) || lex_le(b, a),
    decreases a.len(),
{
    if a.len() > 0 && b.len() > 0 && a[0] == b[0] {
        lemma_lex_total(a.drop_first(), b.drop_first());
    }
}

/// Law: sequences ordered both ways are equal.
pub proof fn lemma_lex_antisymmetric(a: Seq<char>, b: Seq<char>)
    requires
        lex_le(a, b),
        lex_le(b, a),
    ensures
        a == b,
    decreases a.len(),
{
    if a.len() == 0 {
        assert(b.len() == 0);
        assert(a =~= b);
    } else {
        assert(b.len() > 0);
        assert(a[0] == b[0]);
        lemma_lex_antisymmetric(a.drop_first(), b.drop_first());
        assert(a =~= seq![a[0]] + a.drop_first());
        assert(b =~= seq![b[0]] + b.drop_first());
    }
}

/// Law: the order is transitive.
pub proof fn lemma_lex_transitive(a: Seq<char>, b: Seq<char>, c: Seq<char>)
    requires
        lex_le(a, b),
        lex_le(b, c),
    ensures
        lex_le(a, c),
    decreases a.len(),
{
    if a.len() > 0 && b.len() > 0 && c.len() > 0 && a[0] == b[0] && b[0] == c[0] {
        lemma_lex_transitive(a.drop_first(), b.drop_first(), c.drop_first());
    }
}

/// `best` with `ch` folded in: the first change of the same key takes
/// `ch`'s target and rationale (keeping its key and starting value);
/// otherwise `ch` is appended.
pub open spec fn folded(best: Seq<Move>, ch: Move) -> Seq<Move> {
    match first_with_key(best, ch.key) {
        Some(i) => best.update(
            i,
            Move { key: best[i].key, previous: best[i].previous, next: ch.next, rationale: ch.rationale },
        ),
        None => best.push(ch),
    }
}

/// Fold one proposed change into a copy of the current best's changes.
pub fn fold_change(best: &Vec<ParamChange>, change: ParamChange) -> (r: Vec<ParamChange>)
    ensures
        move_views(r@) == folded(move_views(best@), change@),
{
    let mut out: Vec<ParamChange> = Vec::new();
    for i in 0..best.len()
        invariant
            move_views(out@) == move_views(best@).take(i as int),
    {
        let c = best[i].duplicate();
        let ghost before = out@;
        out.push(c);
        proof {
            assert(move_views(out@) =~= move_views(before).push(c@));
            assert(move_views(best@).take(i + 1) =~= move_views(best@).take(i as int).push(best@[i as int]@));
        }
    }
    assert(move_views(best@).take(best.len() as int) =~= move_views(best@));
    match find_first_with_key(&out, change.key.as_str()) {
        Some(p) => {
            let merged = ParamChange {
                key: out[p].key.clone(),
                previous: out[p].previous.duplicate(),
                next: change.next,
                rationale: change.rationale,
            };
            out.set(p, merged);
        },
        None => {
            out.push(change);
        },
    }
    assert(move_views(out@) =~= folded(move_views(best@), change@));
    out
}

/// No two changes set the same key.
pub open spec fn keys_distinct(s: Seq<Move>) -> bool {
    forall|i: int, j: int| 0 <= i < j < s.len() ==> (#[trigger] s[i]).key != (#[trigger] s[j]).key
}

/// Keys in strictly ascending order.
pub open spec fn strictly_ascending(s: Seq<Seq<char>>) -> bool {
    forall|i: int, j: int| 0 <= i < j < s.len() ==> lex_lt(#[trigger] s[i], #[trigger] s[j])
}

/// No key occurs twice.
pub open spec fn all_distinct(s: Seq<Seq<char>>) -> bool {
    forall|i: int, j: int| 0 <= i < j < s.len() ==> #[trigger] s[i] != #[trigger] s[j]
}

proof fn lemma_insert_key(s: Seq<Seq<char>>, k: Seq<char>)
    ensures
        insert_key(s, k).len() == s.len() + 1,
        forall|x: Seq<char>| #[trigger] insert_key(s, k).contains(x) <==> (s.contains(x) || x == k),
        strictly_ascending(s) && !s.contains(k) ==> strictly_ascending(insert_key(s, k)),
    decreases s.len(),
{
    let r = insert_key(s, k);
    if s.len() == 0 {
        assert forall|x: Seq<char>| #[trigger] r.contains(x) <==> (s.contains(x) || x == k) by {
            if r.contains(x) {
                assert(r[0] == k);
            }
            if x == k {
                assert(r[0] == k);
            }
        }
    } else if lex_le(s.last(), k) {
        assert forall|x: Seq<char>| #[trigger] r.contains(x) <==> (s.contains(x) || x == k) by {
            if r.contains(x) {
                let i = choose|i: int| 0 <= i < r.len() && r[i] == x;
                if i < s.len() {
                    assert(s[i] == x);
                }
            }
            if s.contains(x) {
                let i = choose|i: int| 0 <= i < s.len() && s[i] == x;
                assert(r[i] == x);
            }
            if x == k {
                assert(r[s.len() as int] == k);
            }
        }
        if strictly_ascending(s) && !s.contains(k) {
            assert forall|i: int, j: int| 0 <= i < j < r.len() implies lex_lt(#[trigger] r[i], #[trigger] r[j]) by {
                if j == s.len() {
                    assert(r[j] == k);
                    assert(s[i] != k);
                    if i < s.len() - 1 {
                        assert(lex_lt(s[i], s[s.len() - 1]));
                        lemma_lex_transitive(s[i], s.last(), k);
                    }
                }
            }
        }
    } else {
        let d = s.drop_last();
        lemma_insert_key(d, k);
        let r0 = insert_key(d, k);
        assert(r == r0.push(s.last()));
        assert forall|x: Seq<char>| #[trigger] r.contains(x) <==> (s.contains(x) || x == k) by {
            if r.contains(x) {
                let i = choose|i: int| 0 <= i < r.len() && r[i] == x;
                if i < r0.len() {
                    assert(r0.contains(x));
                    if d.contains(x) {
                        let t = choose|t: int| 0 <= t < d.len() && d[t] == x;
                        assert(s[t] == x);
                    }
                } else {
                    assert(s[s.len() - 1] == x);
                }
            }
            if s.contains(x) {
                let i = choose|i: int| 0 <= i < s.len() && s[i] == x;
                if i < s.len() - 1 {
                    assert(d[i] == x);
                    assert(r0.contains(x));
                    let t = choose|t: int| 0 <= t < r0.len() && r0[t] == x;
                    assert(r[t] == x);
                } else {
                    assert(r[r.len() - 1] == x);
                }
            }
            if x == k {
                assert(r0.contains(k));
                let t = choose|t: int| 0 <= t < r0.len() && r0[t] == k;
                assert(r[t] == k);
            }
        }
        if strictly_ascending(s) && !s.contains(k) {
            assert(strictly_ascending(d));
            assert(!d.contains(k)) by {
                if d.contains(k) {
                    let t = choose|t: int| 0 <= t < d.len() && d[t] == k;
                    assert(s[t] == k);
                }
            }
            assert forall|i: int, j: int| 0 <= i < j < r.len() implies lex_lt(#[trigger] r[i], #[trigger] r[j]) by {
                if j == r.len() - 1 {
                    assert(r[j] == s.last());
                    let x = r0[i];
                    assert(r[i] == x);
                    assert(r0.contains(x));
                    if x == k {
                        lemma_lex_total(s.last(), k);
                        assert(s[s.len() - 1] != k);
                    } else {
                        assert(d.contains(x));
                        let t = choose|t: int| 0 <= t < d.len() && d[t] == x;
                        assert(s[t] == x);
                        assert(lex_lt(s[t], s[s.len() - 1]));
                    }
                } else {
                    assert(r[i] == r0[i] && r[j] == r0[j]);
                }
            }
        }
    }
}

proof fn lemma_sort_keys(s: Seq<Seq<char>>)
    ensures
        sort_keys(s).len() == s.len(),
        forall|x: Seq<char>| #[trigger] sort_keys(s).contains(x) <==> s.contains(x),
        all_distinct(s) ==> strictly_ascending(sort_keys(s)),
    decreases s.len(),
{
    if s.len() > 0 {
        let d = s.drop_last();
        lemma_sort_keys(d);
        lemma_insert_key(sort_keys(d), s.last());
        assert forall|x: Seq<char>| #[trigger] sort_keys(s).contains(x) <==> s.contains(x) by {
            if s.contains(x) {
                let i = choose|i: int| 0 <= i < s.len() && s[i] == x;
                if i < s.len() - 1 {
                    assert(d[i] == x);
                    assert(d.contains(x));
                }
            }
            if d.contains(x) {
                let i = choose|i: int| 0 <= i < d.len() && d[i] == x;
                assert(s[i] == x);
            }
        }
        if all_distinct(s) {
            assert(all_distinct(d));
            assert(!sort_keys(d).contains(s.last())) by {
                if d.contains(s.last()) {
                    let i = choose|i: int| 0 <= i < d.len() && d[i] == s.last();
                    assert(s[i] == s[s.len() - 1]);
                }
            }
        }
    }
}

proof fn lemma_ascending_unique(s: Seq<Seq<char>>, t: Seq<Seq<char>>)
    requires
        strictly_ascending(s),
        strictly_ascending(t),
        forall|x: Seq<char>| #[trigger] s.contains(x) <==> t.contains(x),
    ensures
        s == t,
    decreases s.len(),
{
    if s.len() == 0 {
        if t.len() > 0 {
            assert(t.contains(t[0]));
            assert(s.contains(t[0]));
        }
        assert(s =~= t);
    } else if t.len() == 0 {
        assert(s.contains(s[0]));
    } else {
        let a = s.last();
        let b = t.last();
        assert(s.contains(a));
        assert(t.contains(a));
        assert(t.contains(b));
        assert(s.contains(b));
        let j = choose|j: int| 0 <= j < t.len() && t[j] == a;
        let i = choose|i: int| 0 <= i < s.len() && s[i] == b;
        if j < t.len() - 1 {
            assert(lex_lt(t[j], t[t.len() - 1]));
            if i < s.len() - 1 {
                assert(lex_lt(s[i], s[s.len() - 1]));
                lemma_lex_antisymmetric(a, b);
            }
        } else if i < s.len() - 1 {
            assert(lex_lt(s[i], s[s.len() - 1]));
        }
        assert(a == b);
        let ds = s.drop_last();
        let dt = t.drop_last();
        assert forall|x: Seq<char>| #[trigger] ds.contains(x) <==> dt.contains(x) by {
            if ds.contains(x) {
                let p = choose|p: int| 0 <= p < ds.len() && ds[p] == x;
                assert(s[p] == x);
                assert(lex_lt(s[p], s[s.len() - 1]));
                assert(s.contains(x));
                assert(t.contains(x));
                let q = choose|q: int| 0 <= q < t.len() && t[q] == x;
                if q == t.len() - 1 {
                    assert(x == b);
                }
                assert(dt[q] == x);
            }
            if dt.contains(x) {
                let q = choose|q: int| 0 <= q < dt.len() && dt[q] == x;
                assert(t[q] == x);
                assert(lex_lt(t[q], t[t.len() - 1]));
                assert(t.contains(x));
                assert(s.contains(x));
                let p = choose|p: int| 0 <= p < s.len() && s[p] == x;
                if p == s.len() - 1 {
                    assert(x == a);
                }
                assert(ds[p] == x);
            }
        }
        lemma_ascending_unique(ds, dt);
        assert(s =~= ds.push(a));
        assert(t =~= dt.push(b));
    }
}

proof fn lemma_first_with_key_distinct(c: Seq<Move>, j: int)
    requires
        keys_distinct(c),
        0 <= j < c.len(),
    ensures
        first_with_key(c, c[j].key) == Some(j),
    decreases c.len(),
{
    if j < c.len() - 1 {
        let d = c.drop_last();
        assert(keys_distinct(d));
        assert(d[j] == c[j]);
        lemma_first_with_key_distinct(d, j);
    } else {
        assert(first_with_key(c.drop_last(), c[j].key) is None) by {
            lemma_first_with_key_absent(c.drop_last(), c[j].key);
        }
    }
}

proof fn lemma_first_with_key_absent(c: Seq<Move>, k: Seq<char>)
    requires
        forall|i: int| 0 <= i < c.len() ==> (#[trigger] c[i]).key != k,
    ensures
        first_with_key(c, k) is None,
    decreases c.len(),
{
    if c.len() > 0 {
        lemma_first_with_key_absent(c.drop_last(), k);
    }
}

proof fn lemma_hash_entries_agree(ks: Seq<Seq<char>>, a: Seq<Move>, b: Seq<Move>)
    requires
        forall|i: int|
            0 <= i < ks.len() ==> ((first_with_key(a, #[trigger] ks[i]), first_with_key(b, ks[i])) matches (
                Some(p),
                Some(q),
            ) && 0 <= p < a.len() && 0 <= q < b.len() && a[p].next == b[q].next),
    ensures
        hash_entries(ks, a) == hash_entries(ks, b),
    decreases ks.len(),
{
    if ks.len() > 0 {
        let d = ks.drop_last();
        assert forall|i: int| 0 <= i < d.len() implies ((first_with_key(a, #[trigger] d[i]), first_with_key(b, d[i]))
            matches (Some(p), Some(q)) && 0 <= p < a.len() && 0 <= q < b.len() && a[p].next == b[q].next) by {
            assert(d[i] == ks[i]);
        }
        lemma_hash_entries_agree(d, a, b);
        assert(ks.last() == ks[ks.len() - 1]);
    }
}

/// Law: the content hash depends only on which value each key is set to.
/// Two change lists, each setting every key at most once, that set the same
/// keys to the same values hash alike, whatever the order of their changes
/// and whatever their starting values and rationales.
pub proof fn lemma_content_hash_order_independent(a: Seq<Move>, b: Seq<Move>)
    requires
        keys_distinct(a),
        keys_distinct(b),
        forall|i: int|
            0 <= i < a.len() ==> exists|j: int|
                0 <= j < b.len() && (#[trigger] b[j]).key == (#[trigger] a[i]).key && b[j].next == a[i].next,
        forall|j: int|
            0 <= j < b.len() ==> exists|i: int|
                0 <= i < a.len() && (#[trigger] a[i]).key == (#[trigger] b[j]).key && a[i].next == b[j].next,
    ensures
        content_hash_of(a) == content_hash_of(b),
{
    let ka = a.map_values(|m: Move| m.key);
    let kb = b.map_values(|m: Move| m.key);
    assert(all_distinct(ka));
    assert(all_distinct(kb));
    lemma_sort_keys(ka);
    lemma_sort_keys(kb);
    assert forall|x: Seq<char>| #[trigger] ka.contains(x) <==> kb.contains(x) by {
        if ka.contains(x) {
            let i = choose|i: int| 0 <= i < ka.len() && ka[i] == x;
            assert(a[i].key == x);
            let j = choose|j: int| 0 <= j < b.len() && (#[trigger] b[j]).key == a[i].key && b[j].next == a[i].next;
            assert(kb[j] == x);
        }
        if kb.contains(x) {
            let j = choose|j: int| 0 <= j < kb.len() && kb[j] == x;
            assert(b[j].key == x);
            let i = choose|i: int| 0 <= i < a.len() && (#[trigger] a[i]).key == b[j].key && a[i].next == b[j].next;
            assert(ka[i] == x);
        }
    }
    let s = sort_keys(ka);
    assert forall|x: Seq<char>| #[trigger] s.contains(x) <==> sort_keys(kb).contains(x) by {
    }
    lemma_ascending_unique(s, sort_keys(kb));
    assert forall|n: int| 0 <= n < s.len() implies ((first_with_key(a, #[trigger] s[n]), first_with_key(b, s[n]))
        matches (Some(p), Some(q)) && 0 <= p < a.len() && 0 <= q < b.len() && a[p].next == b[q].next) by {
        let x = s[n];
        assert(s.contains(x));
        assert(ka.contains(x));
        let i = choose|i: int| 0 <= i < ka.len() && ka[i] == x;
        assert(a[i].key == x);
        let j = choose|j: int| 0 <= j < b.len() && (#[trigger] b[j]).key == a[i].key && b[j].next == a[i].next;
        lemma_first_with_key_distinct(a, i);
        lemma_first_with_key_distinct(b, j);
    }
    lemma_hash_entries_agree(s, a, b);
}

} // verus!
