//! The depots that a Lua file names.
use crate::text::{
    all_digits, before, hex_digit_value, is_white, lemma_before_irreflexive, lemma_before_total,
    lemma_before_transitive, lemma_prefix_set, occurs_in, texts,
};
use crate::text::{same_text, text_before};
use regex::Regex;
use vstd::prelude::*;

verus! {

// ---------------------------------------------------------------------------
// Sorted lists without duplicates
// ---------------------------------------------------------------------------

/// The texts stand in strictly ascending order, so none occurs twice.
pub open spec fn ascending(items: Seq<Seq<char>>) -> bool {
    forall|i: int, j: int|
        0 <= i < j < items.len() ==> before(#[trigger] items[i], #[trigger] items[j])
}

/// Adds a text to an ascending list, unless it is there already.
pub fn insert_unique(items: &mut Vec<String>, item: String)
    requires
        ascending(texts(old(items)@)),
    ensures
        ascending(texts(final(items)@)),
        texts(final(items)@).to_set() == texts(old(items)@).to_set().insert(item@),
{
    let ghost was = texts(items@);
    let mut i: usize = 0;
    while i < items.len() && text_before(items[i].as_str(), item.as_str())
        invariant
            i <= items@.len(),
            was == texts(items@),
            forall|k: int| 0 <= k < i ==> before(#[trigger] was[k], item@),
        decreases items@.len() - i,
    {
        assert(was[i as int] == items@[i as int]@);
        i += 1;
    }
    if i < items.len() && same_text(items[i].as_str(), item.as_str()) {
        proof {
            assert(was[i as int] == item@);
            assert(was.contains(item@));
            assert(was.to_set() =~= was.to_set().insert(item@));
        }
        return;
    }
    proof {
        assert forall|k: int| i <= k < was.len() implies before(item@, #[trigger] was[k]) by {
            assert(was[i as int] == items@[i as int]@);
            lemma_before_total(was[i as int], item@);
            if k > i {
                lemma_before_transitive(item@, was[i as int], was[k]);
            }
        }
    }
    let ghost added = item@;
    items.insert(i, item);
    proof {
        let now = texts(items@);
        assert(now =~= was.insert(i as int, added));
        assert forall|a: int, b: int| 0 <= a < b < now.len() implies before(
            #[trigger] now[a],
            #[trigger] now[b],
        ) by {
            let x = if a < i {
                a
            } else {
                a - 1
            };
            let y = if b < i {
                b
            } else {
                b - 1
            };
            if a != i {
                assert(now[a] == was[x]);
            }
            if b != i {
                assert(now[b] == was[y]);
            }
        }
        assert forall|t: Seq<char>| now.to_set().contains(t) == #[trigger] was.to_set().insert(
            added,
        ).contains(t) by {
            if now.contains(t) {
                let k = choose|k: int| 0 <= k < now.len() && now[k] == t;
                if k < i {
                    assert(was[k] == t);
                } else if k > i {
                    assert(was[k - 1] == t);
                }
            }
            if was.contains(t) {
                let k = choose|k: int| 0 <= k < was.len() && was[k] == t;
                if k < i {
                    assert(now[k] == t);
                } else {
                    assert(now[k + 1] == t);
                }
            }
            assert(now[i as int] == added);
        }
        assert(now.to_set() =~= was.to_set().insert(added));
    }
}

/// There is one ascending list of a given set of texts.
pub proof fn law_ascending_list_is_unique(a: Seq<Seq<char>>, b: Seq<Seq<char>>)
    requires
        ascending(a),
        ascending(b),
        a.to_set() == b.to_set(),
    ensures
        a == b,
    decreases a.len(),
{
    if a.len() == 0 {
        if b.len() > 0 {
            assert(b.to_set().contains(b[0]));
            assert(a.contains(b[0]));
        }
        assert(a =~= b);
    } else {
        assert(a.to_set().contains(a.last()));
        assert(b.contains(a.last()));
        let i = choose|i: int| 0 <= i < b.len() && b[i] == a.last();
        assert(b.to_set().contains(b.last()));
        assert(a.contains(b.last()));
        let j = choose|j: int| 0 <= j < a.len() && a[j] == b.last();
        assert(a.last() == b.last()) by {
            if i < b.len() - 1 {
                assert(before(b[i], b[b.len() - 1]));
                if j < a.len() - 1 {
                    assert(before(a[j], a[a.len() - 1]));
                    lemma_before_transitive(a.last(), b.last(), a.last());
                }
                lemma_before_irreflexive(a.last());
            }
        }
        let x = a.drop_last();
        let y = b.drop_last();
        assert forall|t: Seq<char>| x.contains(t) == #[trigger] y.contains(t) by {
            if x.contains(t) {
                let k = choose|k: int| 0 <= k < x.len() && x[k] == t;
                assert(a[k] == t);
                assert(before(a[k], a[a.len() - 1]));
                lemma_before_irreflexive(t);
                assert(a.to_set().contains(t));
                assert(b.contains(t));
                let m = choose|m: int| 0 <= m < b.len() && b[m] == t;
                assert(y[m] == t);
            }
            if y.contains(t) {
                let k = choose|k: int| 0 <= k < y.len() && y[k] == t;
                assert(b[k] == t);
                assert(before(b[k], b[b.len() - 1]));
                lemma_before_irreflexive(t);
                assert(b.to_set().contains(t));
                assert(a.contains(t));
                let m = choose|m: int| 0 <= m < a.len() && a[m] == t;
                assert(x[m] == t);
            }
        }
        assert(x.to_set() =~= y.to_set());
        law_ascending_list_is_unique(x, y);
        assert(a =~= x.push(a.last()));
        assert(b =~= y.push(b.last()));
    }
}

// ---------------------------------------------------------------------------
// Lua files
// ---------------------------------------------------------------------------

/// The regular expression for a call that adds a depot together with its key. The first
/// group is the depot id.
pub open spec fn depot_pattern() -> Seq<char> {
    "addappid\\s*\\(\\s*(\\d+)\\s*,\\s*\\d+\\s*,\\s*\"[a-fA-F0-9]+\""@
}

/// Every character is white space.
pub open spec fn blank(s: Seq<char>) -> bool {
    forall|i: int| 0 <= i < s.len() ==> is_white(#[trigger] s[i])
}

/// Every character is a hexadecimal digit.
pub open spec fn all_hex(s: Seq<char>) -> bool {
    forall|i: int| 0 <= i < s.len() ==> hex_digit_value(#[trigger] s[i]) is Some
}

/// What may stand between the parts of a call that adds a depot.
pub struct CallSpacing {
    pub before_paren: Seq<char>,
    pub before_id: Seq<char>,
    pub after_id: Seq<char>,
    pub before_flag: Seq<char>,
    pub after_flag: Seq<char>,
    pub before_key: Seq<char>,
}

impl CallSpacing {
    /// There is nothing but white space between the parts.
    pub open spec fn is_blank(self) -> bool {
        &&& blank(self.before_paren)
        &&& blank(self.before_id)
        &&& blank(self.after_id)
        &&& blank(self.before_flag)
        &&& blank(self.after_flag)
        &&& blank(self.before_key)
    }
}

/// A call that adds a depot together with its key: `addappid(id, flag, "key"`.
pub open spec fn depot_call(
    id: Seq<char>,
    flag: Seq<char>,
    key: Seq<char>,
    space: CallSpacing,
) -> Seq<char> {
    "addappid"@ + space.before_paren + "("@ + space.before_id + id + space.after_id + ","@
        + space.before_flag + flag + space.after_flag + ","@ + space.before_key + "\""@ + key + "\""@
}

/// Somewhere in the text stands a call that adds the depot together with its key.
pub open spec fn names_depot(text: Seq<char>, id: Seq<char>) -> bool {
    &&& id.len() > 0
    &&& all_digits(id)
    &&& exists|flag: Seq<char>, key: Seq<char>, space: CallSpacing|
        {
            &&& flag.len() > 0
            &&& all_digits(flag)
            &&& key.len() > 0
            &&& all_hex(key)
            &&& space.is_blank()
            &&& occurs_in(#[trigger] depot_call(id, flag, key, space), text)
        }
}

/// The texts of the first group of all matches of a regular expression, from left to
/// right, as `regex::Regex::captures_iter` finds them.
pub uninterp spec fn first_groups(pattern: Seq<char>, text: Seq<char>) -> Seq<Seq<char>>;

/// `regex::Regex::captures_iter`, with the expression compiled by `regex::Regex::new`:
/// the text of the first group of every match, in order. The expression is the one for
/// depots, which compiles, and in which the first group takes part in every match. A
/// match contains the literal `addappid`, and its first group is a part of the text that
/// has at least one character. Matches cannot overlap, since none has `addappid` inside
/// it, and the class `\s` is white space and `\d` holds the ten digits: so the id of
/// every call that the text holds is one of the first groups. In an ASCII text `\d` holds
/// no other characters, and there are no other first groups. Which other parts of a text
/// with further decimal digits match is not stated.
#[verifier::external_body]
fn capture_first_groups(pattern: &str, text: &str) -> (r: Vec<String>)
    requires
        pattern@ == r#"addappid\s*\(\s*(\d+)\s*,\s*\d+\s*,\s*"[a-fA-F0-9]+""#@,
    ensures
        texts(r@) == first_groups(pattern@, text@),
        forall|i: int|
            0 <= i < r@.len() ==> (#[trigger] r@[i])@.len() > 0 && occurs_in(r@[i]@, text@),
        r@.len() > 0 ==> occurs_in("addappid"@, text@),
        forall|id: Seq<char>| #[trigger] names_depot(text@, id) ==> texts(r@).contains(id),
        vstd::utf8::is_ascii_chars(text@) ==> forall|id: Seq<char>| #[trigger]
            texts(r@).contains(id) ==> names_depot(text@, id),
{
    Regex::new(pattern).unwrap().captures_iter(text).map(|found| found[1].to_string()).collect()
}

/// The different texts of a list, in ascending order.
pub fn unique_depot_ids(found: Vec<String>) -> (ids: Vec<String>)
    ensures
        ascending(texts(ids@)),
        texts(ids@).to_set() == texts(found@).to_set(),
{
    let ghost all = texts(found@);
    let mut ids: Vec<String> = Vec::new();
    let mut i: usize = 0;
    proof {
        assert(texts(ids@) =~= Seq::<Seq<char>>::empty());
        assert(all.take(0) =~= Seq::<Seq<char>>::empty());
    }
    while i < found.len()
        invariant
            i <= found@.len(),
            all == texts(found@),
            ascending(texts(ids@)),
            texts(ids@).to_set() == all.take(i as int).to_set(),
        decreases found@.len() - i,
    {
        proof {
            lemma_prefix_set(all, i as int);
        }
        insert_unique(&mut ids, found[i].clone());
        i += 1;
    }
    assert(all.take(i as int) =~= all);
    ids
}

/// The ids of the depots that a Lua file adds with a key: each once, in ascending order.
pub fn extract_depot_ids(content: &str) -> (ids: Vec<String>)
    ensures
        ascending(texts(ids@)),
        texts(ids@).to_set() == first_groups(depot_pattern(), content@).to_set(),
        forall|i: int|
            0 <= i < ids@.len() ==> (#[trigger] ids@[i])@.len() > 0 && occurs_in(
                ids@[i]@,
                content@,
            ),
        !occurs_in("addappid"@, content@) ==> ids@.len() == 0,
        forall|id: Seq<char>| #[trigger] names_depot(content@, id) ==> texts(ids@).contains(id),
        vstd::utf8::is_ascii_chars(content@) ==> forall|id: Seq<char>| #[trigger]
            texts(ids@).contains(id) ==> names_depot(content@, id),
{
    let pattern: &str = "addappid\\s*\\(\\s*(\\d+)\\s*,\\s*\\d+\\s*,\\s*\"[a-fA-F0-9]+\"";
    let found: Vec<String> = capture_first_groups(pattern, content);
    let ghost all = found@;
    let ids: Vec<String> = unique_depot_ids(found);
    proof {
        assert forall|i: int| 0 <= i < ids@.len() implies (#[trigger] ids@[i])@.len() > 0
            && occurs_in(ids@[i]@, content@) && all.len() > 0 by {
            assert(texts(ids@)[i] == ids@[i]@);
            assert(texts(ids@).to_set().contains(ids@[i]@));
            assert(texts(all).contains(ids@[i]@));
            let k = choose|k: int| 0 <= k < texts(all).len() && texts(all)[k] == ids@[i]@;
            assert(all[k]@ == ids@[i]@);
        }
        if ids@.len() > 0 {
            assert(ids@[0]@.len() > 0);
        }
        assert forall|id: Seq<char>| texts(all).contains(id) == #[trigger] texts(ids@).contains(
            id,
        ) by {
            assert(texts(ids@).to_set().contains(id) == texts(all).to_set().contains(id));
        }
    }
    ids
}

/// A call that adds a depot with its key is read wherever it stands: for every number as
/// the id, every number as the flag, a key of any length, and any white space between the
/// parts.
pub proof fn law_every_call_names_its_depot(
    before: Seq<char>,
    id: Seq<char>,
    flag: Seq<char>,
    key: Seq<char>,
    space: CallSpacing,
    after: Seq<char>,
)
    requires
        id.len() > 0,
        forall|i: int| 0 <= i < id.len() ==> '0' <= #[trigger] id[i] <= '9',
        flag.len() > 0,
        forall|i: int| 0 <= i < flag.len() ==> '0' <= #[trigger] flag[i] <= '9',
        key.len() > 0,
        forall|i: int|
            0 <= i < key.len() ==> '0' <= #[trigger] key[i] <= '9' || 'a' <= key[i] <= 'f' || 'A'
                <= key[i] <= 'F',
        forall|i: int|
            0 <= i < space.before_paren.len() ==> is_white(#[trigger] space.before_paren[i]),
        forall|i: int| 0 <= i < space.before_id.len() ==> is_white(#[trigger] space.before_id[i]),
        forall|i: int| 0 <= i < space.after_id.len() ==> is_white(#[trigger] space.after_id[i]),
        forall|i: int|
            0 <= i < space.before_flag.len() ==> is_white(#[trigger] space.before_flag[i]),
        forall|i: int|
            0 <= i < space.after_flag.len() ==> is_white(#[trigger] space.after_flag[i]),
        forall|i: int|
            0 <= i < space.before_key.len() ==> is_white(#[trigger] space.before_key[i]),
    ensures
        names_depot(
            before + ("addappid"@ + space.before_paren + "("@ + space.before_id + id
                + space.after_id + ","@ + space.before_flag + flag + space.after_flag + ","@
                + space.before_key + "\""@ + key + "\""@) + after,
            id,
        ),
{
    let call = "addappid"@ + space.before_paren + "("@ + space.before_id + id + space.after_id
        + ","@ + space.before_flag + flag + space.after_flag + ","@ + space.before_key + "\""@ + key
        + "\""@;
    let text = before + call + after;
    assert(call == depot_call(id, flag, key, space));
    let n = before.len() as int;
    assert(text.subrange(n, n + call.len()) =~= call);
    assert(occurs_in(depot_call(id, flag, key, space), text));
}

/// A depot is named only by such a call.
pub proof fn law_a_named_depot_has_its_call(text: Seq<char>, id: Seq<char>)
    requires
        names_depot(text, id),
    ensures
        id.len() > 0,
        forall|i: int| 0 <= i < id.len() ==> '0' <= #[trigger] id[i] <= '9',
        exists|flag: Seq<char>, key: Seq<char>, space: CallSpacing, at: int|
            {
                &&& 0 <= at
                &&& at + depot_call(id, flag, key, space).len() <= text.len()
                &&& #[trigger] text.subrange(at, at + depot_call(id, flag, key, space).len())
                    == "addappid"@ + space.before_paren + "("@ + space.before_id + id
                    + space.after_id + ","@ + space.before_flag + flag + space.after_flag + ","@
                    + space.before_key + "\""@ + key + "\""@
                &&& flag.len() > 0
                &&& key.len() > 0
                &&& forall|i: int| 0 <= i < flag.len() ==> '0' <= #[trigger] flag[i] <= '9'
                &&& forall|i: int|
                    0 <= i < key.len() ==> '0' <= #[trigger] key[i] <= '9' || 'a' <= key[i] <= 'f'
                        || 'A' <= key[i] <= 'F'
            },
{
    let (flag, key, space) = choose|flag: Seq<char>, key: Seq<char>, space: CallSpacing|
        flag.len() > 0 && all_digits(flag) && key.len() > 0 && all_hex(key) && space.is_blank()
            && occurs_in(#[trigger] depot_call(id, flag, key, space), text);
    let call = depot_call(id, flag, key, space);
    let at = choose|at: int|
        0 <= at <= text.len() - call.len() && #[trigger] text.subrange(at, at + call.len()) == call;
    assert(text.subrange(at, at + depot_call(id, flag, key, space).len()) == call);
    assert forall|i: int| 0 <= i < key.len() implies '0' <= #[trigger] key[i] <= '9' || 'a'
        <= key[i] <= 'f' || 'A' <= key[i] <= 'F' by {
        assert(hex_digit_value(key[i]) is Some);
    }
}

/// The list of depots is in strictly ascending order, so none stands in it twice; and every
/// text found is in the list.
pub proof fn law_ascending_lists_have_no_repetition(items: Seq<Seq<char>>, i: int, j: int)
    requires
        ascending(items),
        0 <= i < j < items.len(),
    ensures
        items[i] != items[j],
{
    assert(before(items[i], items[j]));
    lemma_before_irreflexive(items[i]);
}

/// The list of depots is sorted: each stands before all that follow it.
pub proof fn law_ascending_lists_are_sorted(items: Seq<Seq<char>>)
    ensures
        ascending(items) <==> forall|i: int, j: int|
            0 <= i < j < items.len() ==> before(#[trigger] items[i], #[trigger] items[j]),
{
}

} // verus!
