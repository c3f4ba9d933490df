use vstd::prelude::*;
use crate::errors::KakError;
use crate::register::Register;
use crate::text::{decimal, decimal_text, str_eq};
use crate::types::{SelectionDesc, SelectionWithDesc};
use crate::utils::{trim_str, trimmed};
use linked_hash_map::LinkedHashMap;
use linked_hash_set::LinkedHashSet;

verus! {

/// A set operation between two sources of selections.
#[derive(Clone, Copy, Debug, PartialEq, Eq, Structural)]
pub enum Operation {
    Intersect,
    Subtract,
    Union,
    Compare,
}

pub open spec fn op_symbol(o: Operation) -> char {
    match o {
        Operation::Intersect => '&',
        Operation::Subtract => '-',
        Operation::Union => '+',
        Operation::Compare => '?',
    }
}

/// The operation that a word names, if any.
pub open spec fn op_named(s: Seq<char>) -> Option<Operation> {
    if s == "intersect"@ || s == "and"@ || s == "&"@ {
        Some(Operation::Intersect)
    } else if s == "subtract"@ || s == "not"@ || s == "minus"@ || s == "-"@ || s == "\\"@ {
        Some(Operation::Subtract)
    } else if s == "union"@ || s == "or"@ || s == "plus"@ || s == "+"@ {
        Some(Operation::Union)
    } else if s == "compare"@ || s == "cmp"@ || s == "?"@ || s == "="@ {
        Some(Operation::Compare)
    } else {
        None
    }
}

impl Operation {
    pub fn to_char(&self) -> (r: char)
        ensures
            r == op_symbol(*self),
    {
        match self {
            Operation::Intersect => '&',
            Operation::Subtract => '-',
            Operation::Union => '+',
            Operation::Compare => '?',
        }
    }

    /// Parses an operation from its symbol or one of its names.
    pub fn from_str(s: &str) -> (r: Result<Operation, KakError>)
        ensures
            match r {
                Ok(o) => op_named(s@) == Some(o),
                Err(e) => op_named(s@) is None && e is Parse,
            },
    {
        proof {
            reveal_strlit("intersect");
            reveal_strlit("and");
            reveal_strlit("&");
            reveal_strlit("subtract");
            reveal_strlit("not");
            reveal_strlit("minus");
            reveal_strlit("-");
            reveal_strlit("\\");
            reveal_strlit("union");
            reveal_strlit("or");
            reveal_strlit("plus");
            reveal_strlit("+");
            reveal_strlit("compare");
            reveal_strlit("cmp");
            reveal_strlit("?");
            reveal_strlit("=");
        }
        if str_eq(s, "intersect") || str_eq(s, "and") || str_eq(s, "&") {
            return Ok(Operation::Intersect);
        }
        if str_eq(s, "subtract") || str_eq(s, "not") || str_eq(s, "minus") || str_eq(s, "-") || str_eq(s, "\\") {
            return Ok(Operation::Subtract);
        }
        if str_eq(s, "union") || str_eq(s, "or") || str_eq(s, "plus") || str_eq(s, "+") {
            return Ok(Operation::Union);
        }
        if str_eq(s, "compare") || str_eq(s, "cmp") || str_eq(s, "?") || str_eq(s, "=") {
            return Ok(Operation::Compare);
        }
        let mut msg = String::from_str("Set operation '");
        msg.append(s);
        msg.append("' could not be parsed");
        Err(KakError::Parse(msg))
    }
}

/// The words of the arguments: the characters of the one trimmed argument, or
/// the arguments themselves.
pub open spec fn argument_words(args: Seq<String>) -> Seq<Seq<char>> {
    if args.len() == 1 {
        let t = trimmed(args[0]@);
        Seq::new(t.len(), |i: int| seq![t[i]])
    } else {
        args.map_values(|a: String| a@)
    }
}

/// The words name the left register, the operation and the right register.
/// With two words, the missing side is the current selection (`_`).
pub open spec fn denotes(w: Seq<Seq<char>>, l: Register, o: Operation, r: Register) -> bool {
    ||| w.len() == 2 && op_named(w[0]) == Some(o) && op_named(w[1]) is None && l
        == Register::Underscore && r.named_by(w[1])
    ||| w.len() == 2 && op_named(w[0]) is None && op_named(w[1]) == Some(o) && l.named_by(w[0]) && r
        == Register::Underscore
    ||| w.len() == 3 && l.named_by(w[0]) && op_named(w[1]) == Some(o) && r.named_by(w[2])
}

fn words_of(args: &Vec<String>) -> (r: Vec<String>)
    ensures
        r@.map_values(|a: String| a@) == argument_words(args@),
{
    let mut out: Vec<String> = Vec::new();
    if args.len() == 1 {
        let t = trim_str(args[0].as_str());
        let n = t.as_str().unicode_len();
        let mut i: usize = 0;
        while i < n
            invariant
                n == t@.len(),
                t@ == trimmed(args@[0]@),
                i <= n,
                out@.len() == i,
                forall|j: int| 0 <= j < i ==> (#[trigger] out@[j])@ == seq![t@[j]],
            decreases n - i,
        {
            let c = t.as_str().substring_char(i, i + 1);
            proof {
                assert(c@ =~= seq![t@[i as int]]);
            }
            out.push(String::from_str(c));
            i = i + 1;
        }
        proof {
            assert(out@.map_values(|a: String| a@) =~= argument_words(args@));
        }
    } else {
        let mut i: usize = 0;
        while i < args.len()
            invariant
                args.len() != 1,
                i <= args.len(),
                out@.len() == i,
                forall|j: int| 0 <= j < i ==> (#[trigger] out@[j])@ == args@[j]@,
            decreases args.len() - i,
        {
            out.push(args[i].clone());
            i = i + 1;
        }
        proof {
            assert(out@.map_values(|a: String| a@) =~= argument_words(args@));
        }
    }
    out
}

/// Parses the arguments of a set operation: `a-b` or `+b` as one argument,
/// `- b` as two, or `a - b` as three.
pub fn parse_arguments(args: &Vec<String>) -> (r: Result<(Register, Operation, Register), KakError>)
    ensures
        match r {
            Ok((l, o, rr)) => denotes(argument_words(args@), l, o, rr) && l != rr,
            Err(_) => (forall|l: Register, o: Operation, rr: Register|
                !#[trigger] denotes(argument_words(args@), l, o, rr)) || (exists|l: Register, o: Operation|
                #[trigger] denotes(argument_words(args@), l, o, l)),
        },
{
    let words = words_of(args);
    let ghost w = argument_words(args@);
    proof {
        assert(words@.len() == w.len());
        assert(forall|j: int| 0 <= j < words@.len() ==> (#[trigger] words@[j])@ == w[j]);
    }
    let (left, op, right) = if words.len() == 2 {
        let lw = words[0].as_str();
        let rw = words[1].as_str();
        match (Operation::from_str(lw), Operation::from_str(rw)) {
            (Ok(o), Err(_)) => (Register::Underscore, o, Register::from_str(rw)?),
            (Err(_), Ok(o)) => (Register::from_str(lw)?, o, Register::Underscore),
            (Ok(_), Ok(_)) => {
                let mut msg = String::from_str("Arguments '");
                msg.append(lw);
                msg.append("' and '");
                msg.append(rw);
                msg.append("' cannot both be operations");
                return Err(KakError::Custom(msg));
            },
            (Err(_), Err(_)) => {
                return Err(KakError::Custom(String::from_str("One argument must be an operation")));
            },
        }
    } else if words.len() == 3 {
        let l = Register::from_str(words[0].as_str())?;
        let o = Operation::from_str(words[1].as_str())?;
        let r = Register::from_str(words[2].as_str())?;
        (l, o, r)
    } else {
        return Err(KakError::Custom(String::from_str("Invalid arguments to set command")));
    };
    if left == right {
        let mut msg = String::from_str("Registers passed are the same: '");
        msg.append(register_text(left));
        msg.append("'");
        proof {
            assert(denotes(w, left, op, left));
        }
        return Err(KakError::Custom(msg));
    }
    Ok((left, op, right))
}

pub open spec fn views(v: Seq<String>) -> Seq<Seq<char>> {
    v.map_values(|s: String| s@)
}

/// How many times `k` occurs in `keys`.
pub open spec fn count_in(keys: Seq<Seq<char>>, k: Seq<char>) -> nat
    decreases keys.len(),
{
    if keys.len() == 0 {
        0
    } else {
        count_in(keys.drop_last(), k) + if keys.last() == k {
            1nat
        } else {
            0nat
        }
    }
}

/// The distinct non-empty keys, in the order of their first occurrence.
pub open spec fn first_seen(keys: Seq<Seq<char>>) -> Seq<Seq<char>>
    decreases keys.len(),
{
    if keys.len() == 0 {
        Seq::empty()
    } else {
        let prev = first_seen(keys.drop_last());
        if keys.last().len() > 0 && !prev.contains(keys.last()) {
            prev.push(keys.last())
        } else {
            prev
        }
    }
}

#[verifier::external_type_specification]
#[verifier::external_body]
#[verifier::reject_recursive_types(K)]
#[verifier::reject_recursive_types(V)]
#[verifier::reject_recursive_types(S)]
pub struct ExLinkedHashMap<K, V, S>(LinkedHashMap<K, V, S>);

/// The count stored for each key of the map.
pub uninterp spec fn counted(m: LinkedHashMap<String, usize>) -> Map<Seq<char>, usize>;

/// The keys of the map, from the first inserted to the last.
pub uninterp spec fn counted_order(m: LinkedHashMap<String, usize>) -> Seq<Seq<char>>;

/// Relies on `LinkedHashMap::new`: a map with no keys.
#[verifier::external_body]
fn new_count_map() -> (r: LinkedHashMap<String, usize>)
    ensures
        counted(r).dom() == Set::<Seq<char>>::empty(),
        counted_order(r) == Seq::<Seq<char>>::empty(),
{
    LinkedHashMap::new()
}

/// Relies on `LinkedHashMap::get`: the value stored for the key, if any.
#[verifier::external_body]
fn count_entry(m: &LinkedHashMap<String, usize>, k: &str) -> (r: Option<usize>)
    ensures
        r == (if counted(*m).contains_key(k@) {
            Some(counted(*m)[k@])
        } else {
            None
        }),
{
    m.get(k).copied()
}

/// Relies on `LinkedHashMap::entry` and `Entry::or_insert`: a new key is
/// stored with `v` after all others; a key already there keeps its place and
/// its value becomes `v`.
#[verifier::external_body]
fn store_count(m: &mut LinkedHashMap<String, usize>, k: String, v: usize)
    ensures
        counted(*final(m)) == counted(*old(m)).insert(k@, v),
        counted_order(*final(m)) == if counted(*old(m)).contains_key(k@) {
            counted_order(*old(m))
        } else {
            counted_order(*old(m)).push(k@)
        },
{
    *m.entry(k).or_insert(v) = v;
}

/// Relies on `LinkedHashMap::keys`: the keys from the first inserted to the last.
#[verifier::external_body]
fn keys_in_order(m: &LinkedHashMap<String, usize>) -> (r: Vec<String>)
    ensures
        views(r@) == counted_order(*m),
{
    m.keys().cloned().collect()
}

/// The distinct non-empty keys of one side, in order of first occurrence,
/// each with the number of times it occurs.
pub struct OrderedCounts {
    pub map: LinkedHashMap<String, usize>,
}

impl OrderedCounts {
    /// The counts describe exactly the list of keys `all`.
    pub open spec fn counts_of(&self, all: Seq<Seq<char>>) -> bool {
        &&& counted_order(self.map) == first_seen(all)
        &&& forall|k: Seq<char>| #[trigger] counted(self.map).contains_key(k) <==> first_seen(all).contains(k)
        &&& forall|k: Seq<char>|
            #[trigger] counted(self.map).contains_key(k) ==> counted(self.map)[k] == count_in(all, k)
    }

    /// The number of times `key` was counted; 0 for a key that was not.
    pub open spec fn count_for(&self, key: Seq<char>) -> usize {
        if counted(self.map).contains_key(key) {
            counted(self.map)[key]
        } else {
            0
        }
    }

    pub fn count(&self, key: &str) -> (r: usize)
        ensures
            r == self.count_for(key@),
    {
        match count_entry(&self.map, key) {
            Some(c) => c,
            None => 0,
        }
    }

    /// The keys in order of first occurrence.
    pub fn keys(&self) -> (r: Vec<String>)
        ensures
            views(r@) == counted_order(self.map),
    {
        keys_in_order(&self.map)
    }

    /// The keys as an ordered set.
    pub fn key_set(&self) -> (r: LinkedHashSet<String>)
        ensures
            set_order(r) == distinct_order(counted_order(self.map)),
    {
        key_set(&self.keys())
    }
}

/// Index of the first string of `v` equal to `key`.
pub fn position(v: &Vec<String>, key: &str) -> (r: Option<usize>)
    ensures
        match r {
            Some(i) => i < v.len() && v@[i as int]@ == key@ && forall|j: int|
                0 <= j < i ==> (#[trigger] v@[j])@ != key@,
            None => !views(v@).contains(key@),
        },
{
    let mut i: usize = 0;
    while i < v.len()
        invariant
            i <= v.len(),
            forall|j: int| 0 <= j < i ==> (#[trigger] v@[j])@ != key@,
        decreases v.len() - i,
    {
        if str_eq(v[i].as_str(), key) {
            return Some(i);
        }
        i = i + 1;
    }
    proof {
        if views(v@).contains(key@) {
            let j = choose|j: int| 0 <= j < views(v@).len() && views(v@)[j] == key@;
            assert(v@[j]@ == key@);
        }
    }
    None
}

proof fn lemma_count_absent(keys: Seq<Seq<char>>, k: Seq<char>)
    requires
        !keys.contains(k),
    ensures
        count_in(keys, k) == 0,
    decreases keys.len(),
{
    if keys.len() > 0 {
        assert(!keys.drop_last().contains(k)) by {
            if keys.drop_last().contains(k) {
                let j = choose|j: int| 0 <= j < keys.drop_last().len() && keys.drop_last()[j] == k;
                assert(keys[j] == k);
            }
        }
        assert(keys.last() != k) by {
            assert(keys[keys.len() - 1] == keys.last());
        }
        lemma_count_absent(keys.drop_last(), k);
    }
}

proof fn lemma_first_seen_has(keys: Seq<Seq<char>>, k: Seq<char>)
    requires
        first_seen(keys).contains(k),
    ensures
        keys.contains(k),
        k.len() > 0,
    decreases keys.len(),
{
    if keys.len() > 0 {
        let prev = first_seen(keys.drop_last());
        if prev.contains(k) {
            lemma_first_seen_has(keys.drop_last(), k);
            let j = choose|j: int| 0 <= j < keys.drop_last().len() && keys.drop_last()[j] == k;
            assert(keys[j] == k);
        } else {
            assert(first_seen(keys) == prev.push(keys.last()));
            let j = choose|j: int| 0 <= j < prev.push(keys.last()).len() && prev.push(keys.last())[j] == k;
            assert(keys[keys.len() - 1] == k);
        }
    }
}

/// Counts the non-empty keys, keeping the order in which each first occurs.
pub fn to_ordered_counts(keys: &Vec<String>) -> (r: OrderedCounts)
    ensures
        r.counts_of(views(keys@)),
{
    let mut map = new_count_map();
    let mut k: usize = 0;
    proof {
        assert(views(keys@).subrange(0, 0) =~= Seq::<Seq<char>>::empty());
    }
    while k < keys.len()
        invariant
            k <= keys.len(),
            (OrderedCounts { map }).counts_of(views(keys@).subrange(0, k as int)),
            forall|x: Seq<char>| #[trigger] counted(map).contains_key(x) ==> counted(map)[x] <= k,
        decreases keys.len() - k,
    {
        let ghost all = views(keys@).subrange(0, k + 1);
        let ghost prev = views(keys@).subrange(0, k as int);
        proof {
            assert(all.drop_last() =~= prev);
            assert(all.last() == keys@[k as int]@);
        }
        let key = keys[k].as_str();
        if key.unicode_len() == 0 {
            proof {
                assert forall|x: Seq<char>| #[trigger] counted(map).contains_key(x) implies counted(
                    map,
                )[x] == count_in(all, x) by {
                    lemma_first_seen_has(prev, x);
                }
            }
        } else {
            let ghost old_map = map;
            match count_entry(&map, key) {
                Some(c) => {
                    store_count(&mut map, String::from_str(key), c + 1);
                    proof {
                        assert(first_seen(all) == first_seen(prev));
                        assert forall|x: Seq<char>| #[trigger] counted(map).contains_key(x) implies counted(
                            map,
                        )[x] == count_in(all, x) by {
                            if x != key@ {
                                assert(counted(old_map).contains_key(x));
                            }
                        }
                    }
                },
                None => {
                    store_count(&mut map, String::from_str(key), 1);
                    proof {
                        assert(!first_seen(prev).contains(key@));
                        assert(first_seen(all) == first_seen(prev).push(key@));
                        assert(!prev.contains(key@)) by {
                            if prev.contains(key@) {
                                lemma_seen_in_first_seen(prev, key@);
                            }
                        }
                        lemma_count_absent(prev, key@);
                        assert forall|x: Seq<char>| #[trigger] counted(map).contains_key(x) <==> first_seen(
                            all,
                        ).contains(x) by {
                            lemma_contains_push_keys(first_seen(prev), key@, x);
                        }
                        assert forall|x: Seq<char>| #[trigger] counted(map).contains_key(x) implies counted(
                            map,
                        )[x] == count_in(all, x) by {
                            if x != key@ {
                                assert(counted(old_map).contains_key(x));
                            }
                        }
                    }
                },
            }
        }
        k = k + 1;
    }
    proof {
        assert(views(keys@).subrange(0, keys@.len() as int) =~= views(keys@));
    }
    OrderedCounts { map }
}

pub(crate) proof fn lemma_contains_push_keys(s: Seq<Seq<char>>, a: Seq<char>, x: Seq<char>)
    ensures
        s.push(a).contains(x) <==> (s.contains(x) || x == a),
{
    if s.contains(x) {
        let j = choose|j: int| 0 <= j < s.len() && s[j] == x;
        assert(s.push(a)[j] == x);
    }
    if x == a {
        assert(s.push(a)[s.len() as int] == x);
    }
    if s.push(a).contains(x) && x != a {
        let j = choose|j: int| 0 <= j < s.push(a).len() && s.push(a)[j] == x;
        assert(s[j] == x);
    }
}

proof fn lemma_seen_in_first_seen(keys: Seq<Seq<char>>, k: Seq<char>)
    requires
        keys.contains(k),
        k.len() > 0,
    ensures
        first_seen(keys).contains(k),
    decreases keys.len(),
{
    let prev = first_seen(keys.drop_last());
    if keys.last() == k {
        if !prev.contains(k) {
            assert(first_seen(keys) == prev.push(k));
            assert(first_seen(keys)[prev.len() as int] == k);
        }
    } else {
        let j = choose|j: int| 0 <= j < keys.len() && keys[j] == k;
        assert(keys.drop_last()[j] == k);
        lemma_seen_in_first_seen(keys.drop_last(), k);
    }
    if prev.contains(k) {
        let j = choose|j: int| 0 <= j < prev.len() && prev[j] == k;
        if keys.last().len() > 0 && !prev.contains(keys.last()) {
            assert(first_seen(keys)[j] == k);
        } else {
            assert(first_seen(keys)[j] == k);
        }
    }
}

/// The keys of `a`, in order, that are (`want`) or are not (`!want`) in `b`.
pub open spec fn keep_if_in(a: Seq<Seq<char>>, b: Seq<Seq<char>>, want: bool) -> Seq<Seq<char>>
    decreases a.len(),
{
    if a.len() == 0 {
        a
    } else {
        keep_if_in(a.drop_last(), b, want) + if b.contains(a.last()) == want {
            seq![a.last()]
        } else {
            Seq::empty()
        }
    }
}

/// The keys that an operation yields: the common keys, the keys of the left
/// side only, or the left keys followed by the keys found only on the right.
pub open spec fn set_result(op: Operation, l: Seq<Seq<char>>, r: Seq<Seq<char>>) -> Seq<Seq<char>> {
    match op {
        Operation::Intersect => keep_if_in(l, r, true),
        Operation::Subtract => keep_if_in(l, r, false),
        _ => l + keep_if_in(r, l, false),
    }
}

#[verifier::external_type_specification]
#[verifier::external_body]
#[verifier::reject_recursive_types(T)]
#[verifier::reject_recursive_types(S)]
pub struct ExLinkedHashSet<T, S>(LinkedHashSet<T, S>);

/// The items of the set, from the first inserted to the last.
pub uninterp spec fn set_order(s: LinkedHashSet<String>) -> Seq<Seq<char>>;

/// Relies on `LinkedHashSet::new`: a set with no items.
#[verifier::external_body]
fn new_key_set() -> (r: LinkedHashSet<String>)
    ensures
        set_order(r) == Seq::<Seq<char>>::empty(),
{
    LinkedHashSet::new()
}

/// Relies on `LinkedHashSet::contains`: whether the set holds the item.
#[verifier::external_body]
fn key_set_contains(s: &LinkedHashSet<String>, k: &str) -> (r: bool)
    ensures
        r == set_order(*s).contains(k@),
{
    s.contains(k)
}

/// Relies on `LinkedHashSet::insert`: an item not yet in the set goes after
/// all others.
#[verifier::external_body]
fn key_set_insert(s: &mut LinkedHashSet<String>, k: String)
    requires
        !set_order(*old(s)).contains(k@),
    ensures
        set_order(*final(s)) == set_order(*old(s)).push(k@),
{
    s.insert(k);
}

/// Relies on `LinkedHashSet::intersection`, collected: the items of `a`, in
/// the order of `a`, that `b` holds.
#[verifier::external_body]
fn key_set_intersection(a: &LinkedHashSet<String>, b: &LinkedHashSet<String>) -> (r: LinkedHashSet<String>)
    ensures
        set_order(r) == keep_if_in(set_order(*a), set_order(*b), true),
{
    a.intersection(b).cloned().collect()
}

/// Relies on `LinkedHashSet::difference`, collected: the items of `a`, in
/// the order of `a`, that `b` does not hold.
#[verifier::external_body]
fn key_set_difference(a: &LinkedHashSet<String>, b: &LinkedHashSet<String>) -> (r: LinkedHashSet<String>)
    ensures
        set_order(r) == keep_if_in(set_order(*a), set_order(*b), false),
{
    a.difference(b).cloned().collect()
}

/// Relies on `LinkedHashSet::union`, collected: the items of `a` in order,
/// then those of `b` that `a` does not hold, in the order of `b`.
#[verifier::external_body]
fn key_set_union(a: &LinkedHashSet<String>, b: &LinkedHashSet<String>) -> (r: LinkedHashSet<String>)
    ensures
        set_order(r) == set_order(*a) + keep_if_in(set_order(*b), set_order(*a), false),
{
    a.union(b).cloned().collect()
}

/// Relies on `LinkedHashSet::iter`: the items from the first inserted to the last.
#[verifier::external_body]
fn key_set_items(s: &LinkedHashSet<String>) -> (r: Vec<String>)
    ensures
        views(r@) == set_order(*s),
{
    s.iter().cloned().collect()
}

/// The items of `s` without repeats, each where it first occurs.
pub open spec fn distinct_order(s: Seq<Seq<char>>) -> Seq<Seq<char>>
    decreases s.len(),
{
    if s.len() == 0 {
        s
    } else {
        let prev = distinct_order(s.drop_last());
        if prev.contains(s.last()) {
            prev
        } else {
            prev.push(s.last())
        }
    }
}

/// An ordered set of the keys, each where it first occurs.
pub fn key_set(keys: &Vec<String>) -> (r: LinkedHashSet<String>)
    ensures
        set_order(r) == distinct_order(views(keys@)),
{
    let mut set = new_key_set();
    let mut k: usize = 0;
    proof {
        assert(views(keys@).subrange(0, 0) =~= Seq::<Seq<char>>::empty());
    }
    while k < keys.len()
        invariant
            k <= keys.len(),
            set_order(set) == distinct_order(views(keys@).subrange(0, k as int)),
        decreases keys.len() - k,
    {
        let ghost t = views(keys@).subrange(0, k + 1);
        proof {
            assert(t.drop_last() =~= views(keys@).subrange(0, k as int));
            assert(t.last() == keys@[k as int]@);
        }
        if !key_set_contains(&set, keys[k].as_str()) {
            key_set_insert(&mut set, keys[k].clone());
        }
        k = k + 1;
    }
    proof {
        assert(views(keys@).subrange(0, keys@.len() as int) =~= views(keys@));
    }
    set
}

/// The items of the set, in order.
pub fn set_items(s: &LinkedHashSet<String>) -> (r: Vec<String>)
    ensures
        views(r@) == set_order(*s),
{
    key_set_items(s)
}

/// Performs a set operation on two ordered sets of keys.
pub fn key_set_operation(
    operation: &Operation,
    left_keys: &LinkedHashSet<String>,
    right_keys: &LinkedHashSet<String>,
) -> (r: LinkedHashSet<String>)
    ensures
        set_order(r) == set_result(*operation, set_order(*left_keys), set_order(*right_keys)),
{
    match operation {
        Operation::Intersect => key_set_intersection(left_keys, right_keys),
        Operation::Subtract => key_set_difference(left_keys, right_keys),
        _ => key_set_union(left_keys, right_keys),
    }
}

/// The name of a register as one character.
fn register_text(r: Register) -> (s: &'static str)
    ensures
        s@ == seq![r.name_char()],
{
    if r == Register::Dquote {
        proof {
            reveal_strlit("\"");
        }
        "\""
    } else {
        r.kak_escaped()
    }
}

/// The relation of a key's counts on the two sides: on both, on the left
/// only, on the right only, or on neither.
pub open spec fn relation(left_count: usize, right_count: usize) -> Seq<char> {
    if left_count > 0 && right_count > 0 {
        seq!['=']
    } else if left_count > 0 {
        seq!['>']
    } else if right_count > 0 {
        seq!['<']
    } else {
        seq!['?']
    }
}

/// One line of the comparison table: relation, counts and key, tab separated.
pub open spec fn compare_line(key: Seq<char>, left_count: usize, right_count: usize) -> Seq<char> {
    relation(left_count, right_count) + seq!['\t'] + decimal_text(left_count as nat) + seq!['\t']
        + decimal_text(right_count as nat) + seq!['\t'] + key
}

/// The header line of the comparison table.
pub open spec fn compare_header(l: Register, r: Register) -> Seq<char> {
    seq!['?', '\t', l.name_char(), '\t', r.name_char(), '\t'] + "selection"@
}

/// The comparison table: a header naming the two registers, then one line
/// per key of the result.
pub fn compare_table(
    left_register: Register,
    right_register: Register,
    result: &LinkedHashSet<String>,
    left_ordered_counts: &OrderedCounts,
    right_ordered_counts: &OrderedCounts,
) -> (r: Vec<String>)
    ensures
        r@.len() == set_order(*result).len() + 1,
        r@[0]@ == compare_header(left_register, right_register),
        forall|i: int|
            0 <= i < set_order(*result).len() ==> (#[trigger] r@[i + 1])@ == compare_line(
                set_order(*result)[i],
                left_ordered_counts.count_for(set_order(*result)[i]),
                right_ordered_counts.count_for(set_order(*result)[i]),
            ),
{
    let mut header = String::from_str("?\t");
    header.append(register_text(left_register));
    header.append("\t");
    header.append(register_text(right_register));
    header.append("\tselection");
    proof {
        reveal_strlit("?\t");
        reveal_strlit("\t");
        reveal_strlit("\tselection");
        reveal_strlit("selection");
        assert(header@ =~= compare_header(left_register, right_register));
    }
    let items = key_set_items(result);
    let mut out: Vec<String> = Vec::new();
    out.push(header);
    let mut k: usize = 0;
    while k < items.len()
        invariant
            views(items@) == set_order(*result),
            k <= items.len(),
            out@.len() == k + 1,
            out@[0]@ == compare_header(left_register, right_register),
            forall|i: int|
                0 <= i < k ==> (#[trigger] out@[i + 1])@ == compare_line(
                    items@[i]@,
                    left_ordered_counts.count_for(items@[i]@),
                    right_ordered_counts.count_for(items@[i]@),
                ),
        decreases items.len() - k,
    {
        let key = items[k].as_str();
        let lc = left_ordered_counts.count(key);
        let rc = right_ordered_counts.count(key);
        let rel: &str = if lc > 0 && rc > 0 {
            "="
        } else if lc > 0 {
            ">"
        } else if rc > 0 {
            "<"
        } else {
            "?"
        };
        proof {
            reveal_strlit("=");
            reveal_strlit(">");
            reveal_strlit("<");
            reveal_strlit("?");
            reveal_strlit("\t");
        }
        let mut line = String::from_str(rel);
        line.append("\t");
        let lc_text = decimal(lc);
        line.append(lc_text.as_str());
        line.append("\t");
        let rc_text = decimal(rc);
        line.append(rc_text.as_str());
        line.append("\t");
        line.append(key);
        proof {
            assert(line@ =~= compare_line(key@, lc, rc));
        }
        out.push(line);
        k = k + 1;
    }
    proof {
        assert forall|i: int| 0 <= i < items@.len() implies items@[i]@ == set_order(*result)[i] by {
            assert(views(items@)[i] == items@[i]@);
        }
    }
    out
}

/// The ranges of the selections whose key is among `result`, in the order given.
pub open spec fn kept_descs(sels: Seq<SelectionWithDesc>, keys: Seq<Seq<char>>, result: Seq<Seq<char>>) -> Seq<
    SelectionDesc,
>
    decreases sels.len(),
{
    if sels.len() == 0 || keys.len() < sels.len() {
        Seq::empty()
    } else {
        kept_descs(sels.drop_last(), keys, result) + if result.contains(keys[sels.len() - 1]) {
            seq![sels.last().desc]
        } else {
            Seq::empty()
        }
    }
}

/// Keeps the ranges of the selections whose key is in the result of a set
/// operation; `keys` holds the key of each selection.
pub fn reduce_selections(selections: &Vec<SelectionWithDesc>, keys: &Vec<String>, result: &LinkedHashSet<String>) -> (r:
    Vec<SelectionDesc>)
    requires
        keys.len() == selections.len(),
    ensures
        r@ == kept_descs(selections@, views(keys@), set_order(*result)),
{
    let mut out: Vec<SelectionDesc> = Vec::new();
    let mut k: usize = 0;
    while k < selections.len()
        invariant
            keys.len() == selections.len(),
            k <= selections.len(),
            out@ == kept_descs(selections@.subrange(0, k as int), views(keys@), set_order(*result)),
        decreases selections.len() - k,
    {
        let ghost t = selections@.subrange(0, k + 1);
        proof {
            assert(t.drop_last() =~= selections@.subrange(0, k as int));
            assert(t.last() == selections@[k as int]);
            assert(views(keys@)[k as int] == keys@[k as int]@);
        }
        let found = key_set_contains(result, keys[k].as_str());
        if found {
            out.push(selections[k].desc);
            proof {
                assert(out@ =~= kept_descs(selections@.subrange(0, k as int), views(keys@), set_order(*result))
                    + seq![selections@[k as int].desc]);
            }
        } else {
            proof {
                assert(out@ =~= kept_descs(selections@.subrange(0, k as int), views(keys@), set_order(*result))
                    + Seq::<SelectionDesc>::empty());
            }
        }
        k = k + 1;
    }
    proof {
        assert(selections@.subrange(0, selections@.len() as int) =~= selections@);
    }
    out
}

/// The status line of a set operation: `Compared n selections`, or the
/// operands, the operation and the number of selections in the result.
pub open spec fn set_message_text(l: Register, op: Operation, r: Register, n: usize) -> Seq<char> {
    if op == Operation::Compare {
        "Compared "@ + decimal_text(n as nat) + " selections"@
    } else {
        seq![l.name_char(), op_symbol(op), r.name_char()] + " returned "@ + decimal_text(n as nat)
            + " selections"@
    }
}

pub fn set_message(left_register: Register, operation: Operation, right_register: Register, count: usize) -> (r:
    String)
    ensures
        r@ == set_message_text(left_register, operation, right_register, count),
{
    proof {
        reveal_strlit("Compared ");
        reveal_strlit(" selections");
        reveal_strlit(" returned ");
        reveal_strlit("&");
        reveal_strlit("-");
        reveal_strlit("+");
        reveal_strlit("?");
    }
    let n = decimal(count);
    if operation == Operation::Compare {
        let mut out = String::from_str("Compared ");
        out.append(n.as_str());
        out.append(" selections");
        out
    } else {
        let mut out = String::from_str(register_text(left_register));
        let symbol: &str = match operation {
            Operation::Intersect => "&",
            Operation::Subtract => "-",
            Operation::Union => "+",
            Operation::Compare => "?",
        };
        out.append(symbol);
        out.append(register_text(right_register));
        out.append(" returned ");
        out.append(n.as_str());
        out.append(" selections");
        proof {
            assert(out@ =~= set_message_text(left_register, operation, right_register, count));
        }
        out
    }
}

} // verus!
