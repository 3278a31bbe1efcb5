//! Experiment lineage: which experiments belong to a focus experiment's tree.
//!
//! Node contents (scores, kinds) are assembled at the edge of the program; the
//! selection and the root are decided here.

use vstd::prelude::*;

use crate::text::{has_prefix, starts_with, str_eq};

verus! {

/// An experiment's id and its parent's id, as text.
#[derive(Debug, Clone)]
pub struct LineageEntry {
    pub id: String,
    pub parent_id: Option<String>,
}

/// Model of an entry.
pub open spec fn entry_view(e: LineageEntry) -> (Seq<char>, Option<Seq<char>>) {
    (e.id@, match e.parent_id {
        Some(p) => Some(p@),
        None => None,
    })
}

/// Models of the entries.
pub open spec fn entry_views(v: Seq<LineageEntry>) -> Seq<(Seq<char>, Option<Seq<char>>)> {
    v.map_values(|e: LineageEntry| entry_view(e))
}

/// The first entry whose id is `focus` or starts with it.
pub open spec fn focus_of(es: Seq<(Seq<char>, Option<Seq<char>>)>, focus: Seq<char>) -> Option<int>
    decreases es.len(),
{
    if es.len() == 0 {
        None
    } else {
        match focus_of(es.drop_last(), focus) {
            Some(i) => Some(i),
            None => if es.last().0 == focus || has_prefix(es.last().0, focus) {
                Some(es.len() - 1)
            } else {
                None
            },
        }
    }
}

/// The parent of the first entry with id `id`, if that entry exists.
pub open spec fn parent_of(es: Seq<(Seq<char>, Option<Seq<char>>)>, id: Seq<char>) -> Option<Seq<char>>
    decreases es.len(),
{
    if es.len() == 0 {
        None
    } else if es[0].0 == id {
        es[0].1
    } else {
        parent_of(es.drop_first(), id)
    }
}

/// `x` is on the ancestor chain that starts at `cur`, following parent links
/// at most `fuel` times.
pub open spec fn on_chain(es: Seq<(Seq<char>, Option<Seq<char>>)>, cur: Option<Seq<char>>, fuel: nat, x: Seq<char>) -> bool
    decreases fuel,
{
    if fuel == 0 {
        false
    } else {
        match cur {
            None => false,
            Some(pid) => pid == x || on_chain(es, parent_of(es, pid), (fuel - 1) as nat, x),
        }
    }
}

/// `x` belongs to the lineage of the entry at `f`: the entry itself, its
/// ancestors (at most one per entry plus one), or an entry sharing its parent.
pub open spec fn in_lineage(es: Seq<(Seq<char>, Option<Seq<char>>)>, f: int, x: Seq<char>) -> bool {
    ||| x == es[f].0
    ||| on_chain(es, es[f].1, es.len() + 1, x)
    ||| (es[f].1 is Some && exists|j: int| 0 <= j < es.len() && (#[trigger] es[j]).1 == es[f].1 && es[j].0 == x)
}

/// Whether entry `i` is shown for the focus id.
pub open spec fn lineage_selected(es: Seq<(Seq<char>, Option<Seq<char>>)>, focus: Seq<char>, i: int) -> bool {
    ||| (focus_of(es, focus) matches Some(f) && in_lineage(es, f, es[i].0))
    ||| has_prefix(es[i].0, focus)
}

/// The lineage's root: the focus's parent, else the focus, else the id asked for.
pub open spec fn lineage_root(es: Seq<(Seq<char>, Option<Seq<char>>)>, focus: Seq<char>) -> Seq<char> {
    match focus_of(es, focus) {
        Some(f) => match es[f].1 {
            Some(p) => p,
            None => es[f].0,
        },
        None => focus,
    }
}

/// Some string of `v` has the characters `x`.
pub open spec fn listed(v: Seq<String>, x: Seq<char>) -> bool {
    exists|k: int| 0 <= k < v.len() && (#[trigger] v[k])@ == x
}

fn find_focus(es: &Vec<LineageEntry>, focus: &str) -> (r: Option<usize>)
    ensures
        (match r {
            Some(i) => i < es@.len() && focus_of(entry_views(es@), focus@) == Some(i as int),
            None => focus_of(entry_views(es@), focus@) is None,
        }),
{
    let ghost s = entry_views(es@);
    for i in 0..es.len()
        invariant
            s == entry_views(es@),
            focus_of(s.take(i as int), focus@) is None,
    {
        proof {
            assert(s.take(i + 1).drop_last() =~= s.take(i as int));
            assert(s.take(i + 1).last() == entry_view(es@[i as int]));
        }
        if str_eq(es[i].id.as_str(), focus) || starts_with(es[i].id.as_str(), focus) {
            proof {
                lemma_focus_prefix(s, focus@, i + 1);
            }
            return Some(i);
        }
    }
    assert(s.take(es.len() as int) =~= s);
    None
}

proof fn lemma_focus_prefix(s: Seq<(Seq<char>, Option<Seq<char>>)>, focus: Seq<char>, n: int)
    requires
        0 <= n <= s.len(),
        focus_of(s.take(n), focus) is Some,
    ensures
        focus_of(s, focus) == focus_of(s.take(n), focus),
    decreases s.len() - n,
{
    if n < s.len() {
        assert(s.take(n + 1).drop_last() =~= s.take(n));
        lemma_focus_prefix(s, focus, n + 1);
    } else {
        assert(s.take(n) =~= s);
    }
}

fn find_parent(es: &Vec<LineageEntry>, id: &str) -> (r: Option<String>)
    ensures
        (match r {
            Some(p) => parent_of(entry_views(es@), id@) == Some(p@),
            None => parent_of(entry_views(es@), id@) is None,
        }),
{
    let ghost s = entry_views(es@);
    let mut i: usize = 0;
    assert(s.skip(0) =~= s);
    while i < es.len()
        invariant
            i <= es.len(),
            s == entry_views(es@),
            parent_of(s, id@) == parent_of(s.skip(i as int), id@),
        decreases es.len() - i,
    {
        proof {
            assert(s.skip(i as int)[0] == entry_view(es@[i as int]));
            assert(s.skip(i as int).drop_first() =~= s.skip(i + 1));
        }
        if str_eq(es[i].id.as_str(), id) {
            return match &es[i].parent_id {
                Some(p) => Some(p.clone()),
                None => None,
            };
        }
        i = i + 1;
    }
    assert(s.skip(i as int).len() == 0);
    None
}

fn opt_same(a: &Option<String>, b: &Option<String>) -> (r: bool)
    ensures
        r == ((match a {
            Some(x) => Some(x@),
            None => None::<Seq<char>>,
        }) == (match b {
            Some(x) => Some(x@),
            None => None::<Seq<char>>,
        })),
{
    match (a, b) {
        (Some(x), Some(y)) => str_eq(x.as_str(), y.as_str()),
        (None, None) => true,
        _ => false,
    }
}

fn contains_id(v: &Vec<String>, x: &str) -> (r: bool)
    ensures
        r == listed(v@, x@),
{
    for k in 0..v.len()
        invariant
            forall|t: int| 0 <= t < k ==> (#[trigger] v@[t])@ != x@,
    {
        if str_eq(v[k].as_str(), x) {
            return true;
        }
    }
    false
}

/// Which experiments a lineage view shows for `focus_id`, and its root: the
/// focus (the first experiment whose id is `focus_id` or starts with it), its
/// ancestors, the experiments sharing its parent, and any experiment whose id
/// starts with `focus_id`.
pub fn lineage_selection(es: &Vec<LineageEntry>, focus_id: &str) -> (r: (String, Vec<bool>))
    requires
        es@.len() < usize::MAX,
    ensures
        r.0@ == lineage_root(entry_views(es@), focus_id@),
        r.1@.len() == es@.len(),
        forall|i: int| 0 <= i < es@.len() ==> r.1@[i] == lineage_selected(entry_views(es@), focus_id@, i),
{
    let ghost s = entry_views(es@);
    let focus = find_focus(es, focus_id);
    let root = match focus {
        Some(f) => match &es[f].parent_id {
            Some(p) => p.clone(),
            None => es[f].id.clone(),
        },
        None => String::from_str(focus_id),
    };
    let mut chain: Vec<String> = Vec::new();
    if let Some(f) = focus {
        let mut cur: Option<String> = match &es[f].parent_id {
            Some(p) => Some(p.clone()),
            None => None,
        };
        let mut fuel: usize = es.len() + 1;
        let ghost start = s[f as int].1;
        while fuel > 0
            invariant
                s == entry_views(es@),
                f < es@.len(),
                start == s[f as int].1,
                fuel <= es@.len() + 1,
                forall|x: Seq<char>|
                    #[trigger] on_chain(s, start, (es@.len() + 1) as nat, x) <==> (listed(chain@, x) || on_chain(
                        s,
                        match cur {
                            Some(c) => Some(c@),
                            None => None,
                        },
                        fuel as nat,
                        x,
                    )),
            ensures
                forall|x: Seq<char>|
                    #[trigger] on_chain(s, start, (es@.len() + 1) as nat, x) <==> listed(chain@, x),
            decreases fuel,
        {
            let c = match cur {
                Some(c) => c,
                None => {
                    break;
                },
            };
            let next = find_parent(es, c.as_str());
            let ghost old_chain = chain@;
            let ghost cv = c@;
            chain.push(c);
            proof {
                assert forall|x: Seq<char>| #[trigger] listed(chain@, x) <==> (listed(old_chain, x) || x == cv) by {
                    if x == cv {
                        assert(chain@[old_chain.len() as int]@ == x);
                    }
                    if listed(old_chain, x) {
                        let k = choose|k: int| 0 <= k < old_chain.len() && (#[trigger] old_chain[k])@ == x;
                        assert(chain@[k] == old_chain[k]);
                    }
                    if listed(chain@, x) {
                        let k = choose|k: int| 0 <= k < chain@.len() && (#[trigger] chain@[k])@ == x;
                        if k < old_chain.len() {
                            assert(chain@[k] == old_chain[k]);
                        }
                    }
                }
            }
            cur = next;
            fuel = fuel - 1;
        }
    }
    let ghost chain_v = chain@;
    let mut selected: Vec<bool> = Vec::new();
    for i in 0..es.len()
        invariant
            s == entry_views(es@),
            chain@ == chain_v,
            selected@.len() == i,
            (match focus {
                Some(f) => f < es@.len() && focus_of(s, focus_id@) == Some(f as int) && forall|x: Seq<char>|
                    #[trigger] on_chain(s, s[f as int].1, (es@.len() + 1) as nat, x) <==> listed(chain_v, x),
                None => focus_of(s, focus_id@) is None,
            }),
            forall|t: int| 0 <= t < i ==> selected@[t] == lineage_selected(s, focus_id@, t),
    {
        assert(s[i as int] == entry_view(es@[i as int]));
        let id = es[i].id.as_str();
        let mut member = false;
        if let Some(f) = focus {
            if str_eq(id, es[f].id.as_str()) || contains_id(&chain, id) {
                member = true;
            } else if es[f].parent_id.is_some() {
                let mut j: usize = 0;
                while j < es.len()
                    invariant
                        s == entry_views(es@),
                        f < es@.len(),
                        i < es@.len(),
                        j <= es@.len(),
                        id@ == s[i as int].0,
                        member == exists|t: int| 0 <= t < j && (#[trigger] s[t]).1 == s[f as int].1 && s[t].0 == s[i as int].0,
                    decreases es.len() - j,
                {
                    assert(s[j as int] == entry_view(es@[j as int]));
                    assert(s[f as int] == entry_view(es@[f as int]));
                    assert(s[i as int] == entry_view(es@[i as int]));
                    if opt_same(&es[j].parent_id, &es[f].parent_id) && str_eq(es[j].id.as_str(), id) {
                        member = true;
                    }
                    j = j + 1;
                }
            }
        }
        let pick = member || starts_with(id, focus_id);
        selected.push(pick);
        proof {
            match focus {
                Some(f) => {
                    assert(s[f as int] == entry_view(es@[f as int]));
                },
                None => {},
            }
        }
    }
    (root, selected)
}

} // verus!
