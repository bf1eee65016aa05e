//! A finite set of names.

use vstd::prelude::*;
use crate::text::{
    less, lemma_lex_irreflexive, lemma_lex_total, lemma_lex_transitive, lex_less, text_eq, texts,
};

verus! {

/// A set of names, kept in the order in which they were first inserted.
#[derive(Debug)]
pub struct NameSet {
    names: Vec<String>,
}

impl View for NameSet {
    type V = Set<Seq<char>>;

    closed spec fn view(&self) -> Set<Seq<char>> {
        self.seq().to_set()
    }
}

impl NameSet {
    /// The names in insertion order.
    pub closed spec fn seq(&self) -> Seq<Seq<char>> {
        Seq::new(self.names@.len(), |i: int| self.names@[i]@)
    }

    /// No name occurs twice.
    pub closed spec fn wf(&self) -> bool {
        self.seq().no_duplicates()
    }

    /// What a well-formed set's sequence and view have to do with each
    /// other.
    pub proof fn lemma_seq(&self)
        requires
            self.wf(),
        ensures
            self.seq().no_duplicates(),
            self.seq().to_set() == self@,
            self@.finite(),
            self@.len() == self.seq().len(),
            forall|name: Seq<char>| self@.contains(name) <==> self.seq().contains(name),
    {
        self.seq().unique_seq_to_set();
    }

    pub fn new() -> (r: NameSet)
        ensures
            r.wf(),
            r@ == Set::<Seq<char>>::empty(),
            r.seq() == Seq::<Seq<char>>::empty(),
    {
        let r = NameSet { names: Vec::new() };
        assert(r.seq() =~= Seq::<Seq<char>>::empty());
        assert(r.seq().to_set() =~= Set::<Seq<char>>::empty());
        r
    }

    pub fn len(&self) -> (r: usize)
        requires
            self.wf(),
        ensures
            r == self@.len(),
            r == self.seq().len(),
    {
        proof {
            self.lemma_seq();
        }
        self.names.len()
    }

    pub fn is_empty(&self) -> (r: bool)
        requires
            self.wf(),
        ensures
            r == (self@ == Set::<Seq<char>>::empty()),
    {
        proof {
            self.lemma_seq();
            if self.seq().len() == 0 {
                assert(self@ =~= Set::<Seq<char>>::empty());
            }
        }
        self.names.len() == 0
    }

    /// The name at a position of the insertion order.
    pub fn name_at(&self, index: usize) -> (r: &String)
        requires
            index < self.seq().len(),
        ensures
            r@ == self.seq()[index as int],
    {
        &self.names[index]
    }

    /// The position of a name in the insertion order.
    fn position(&self, name: &str) -> (r: Option<usize>)
        ensures
            match r {
                Some(i) => i < self.seq().len() && self.seq()[i as int] == name@,
                None => !self@.contains(name@),
            },
    {
        let mut i: usize = 0;
        while i < self.names.len()
            invariant
                i <= self.names@.len(),
                forall|j: int| 0 <= j < i ==> self.seq()[j] != name@,
            decreases self.names@.len() - i,
        {
            if text_eq(self.names[i].as_str(), name) {
                return Some(i);
            }
            i += 1;
        }
        None
    }

    pub fn contains(&self, name: &str) -> (r: bool)
        ensures
            r == self@.contains(name@),
    {
        match self.position(name) {
            Some(i) => {
                assert(self.seq().contains(name@));
                true
            },
            None => false,
        }
    }

    /// Adds a name. Returns whether it was new.
    pub fn insert(&mut self, name: String) -> (r: bool)
        requires
            old(self).wf(),
        ensures
            final(self).wf(),
            final(self)@ == old(self)@.insert(name@),
            r == !old(self)@.contains(name@),
            final(self).seq() == if r {
                old(self).seq().push(name@)
            } else {
                old(self).seq()
            },
    {
        if self.contains(name.as_str()) {
            assert(self@.insert(name@) =~= self@);
            false
        } else {
            let ghost before = self.seq();
            self.names.push(name);
            assert(self.seq() =~= before.push(name@));
            assert forall|x: Seq<char>|
                self.seq().to_set().contains(x) <==> before.to_set().insert(name@).contains(
                    x,
                ) by {
                if before.to_set().insert(name@).contains(x) {
                    if x == name@ {
                        assert(self.seq()[before.len() as int] == x);
                    } else {
                        let j = choose|j: int| 0 <= j < before.len() && before[j] == x;
                        assert(self.seq()[j] == x);
                    }
                }
            }
            assert(self.seq().to_set() =~= before.to_set().insert(name@));
            true
        }
    }

    /// Takes a name out. Returns whether it was there.
    pub fn remove(&mut self, name: &str) -> (r: bool)
        requires
            old(self).wf(),
        ensures
            final(self).wf(),
            final(self)@ == old(self)@.remove(name@),
            r == old(self)@.contains(name@),
    {
        match self.position(name) {
            Some(i) => {
                let ghost before = self.seq();
                assert(before.contains(name@));
                self.names.remove(i);
                assert(self.seq() =~= before.remove(i as int));
                assert forall|x: Seq<char>|
                    self.seq().to_set().contains(x) <==> before.to_set().remove(name@).contains(
                        x,
                    ) by {
                    if self.seq().to_set().contains(x) {
                        let j = choose|j: int| 0 <= j < self.seq().len() && self.seq()[j] == x;
                        if j < i {
                            assert(before[j] == x);
                        } else {
                            assert(before[j + 1] == x);
                        }
                    }
                    if before.to_set().remove(name@).contains(x) {
                        let j = choose|j: int| 0 <= j < before.len() && before[j] == x;
                        if j < i {
                            assert(self.seq()[j] == x);
                        } else {
                            assert(self.seq()[j - 1] == x);
                        }
                    }
                }
                assert(self.seq().to_set() =~= before.to_set().remove(name@));
                true
            },
            None => {
                assert(self@.remove(name@) =~= self@);
                false
            },
        }
    }

    /// Adds every name of another set.
    pub fn extend(&mut self, other: &NameSet)
        requires
            old(self).wf(),
        ensures
            final(self).wf(),
            final(self)@ == old(self)@.union(other@),
    {
        let mut i: usize = 0;
        while i < other.names.len()
            invariant
                self.wf(),
                i <= other.names@.len(),
                self@ == old(self)@.union(other.seq().take(i as int).to_set()),
            decreases other.names@.len() - i,
        {
            self.insert(other.names[i].clone());
            i += 1;
            assert(other.seq().take(i as int) =~= other.seq().take(i - 1).push(
                other.seq()[i - 1],
            ));
            assert(other.seq().take(i as int).to_set() =~= other.seq().take(i - 1).to_set().insert(
                other.seq()[i - 1],
            )) by {
                other.seq().take(i - 1).lemma_push_to_set_commute(other.seq()[i - 1]);
            }
            assert(self@ =~= old(self)@.union(other.seq().take(i as int).to_set()));
        }
        assert(other.seq().take(i as int) =~= other.seq());
    }

    /// The names as a list, in insertion order.
    pub fn to_vec(&self) -> (r: Vec<String>)
        ensures
            r@.len() == self.seq().len(),
            forall|i: int| 0 <= i < r@.len() ==> r@[i]@ == self.seq()[i],
    {
        let mut out: Vec<String> = Vec::new();
        let mut i: usize = 0;
        while i < self.names.len()
            invariant
                i <= self.names@.len(),
                out@.len() == i,
                forall|j: int| 0 <= j < i ==> out@[j]@ == self.seq()[j],
            decreases self.names@.len() - i,
        {
            out.push(self.names[i].clone());
            i += 1;
        }
        out
    }
}

/// The names stand in lexical order, each before all that follow.
pub open spec fn is_sorted(names: Seq<Seq<char>>) -> bool {
    forall|i: int, j: int|
        0 <= i < j < names.len() ==> lex_less(#[trigger] names[i], #[trigger] names[j])
}

/// The names of a finite set in lexical order. There is one such list
/// of a set, whatever order its names were met in.
pub open spec fn sorted_names(set: Set<Seq<char>>) -> Seq<Seq<char>> {
    choose|names: Seq<Seq<char>>| is_sorted(names) && names.to_set() == set
}

/// In a sorted list no name occurs twice.
pub proof fn lemma_sorted_no_duplicates(names: Seq<Seq<char>>)
    requires
        is_sorted(names),
    ensures
        names.no_duplicates(),
{
    assert forall|i: int, j: int| 0 <= i < names.len() && 0 <= j < names.len() && i != j implies names[i]
        != names[j] by {
        lemma_lex_irreflexive(names[i]);
        if i < j {
            assert(lex_less(names[i], names[j]));
        } else {
            assert(lex_less(names[j], names[i]));
        }
    }
}

/// Two sorted lists of the same names are the same list.
pub proof fn lemma_sorted_unique(first: Seq<Seq<char>>, second: Seq<Seq<char>>)
    requires
        is_sorted(first),
        is_sorted(second),
        first.to_set() == second.to_set(),
    ensures
        first == second,
    decreases first.len(),
{
    lemma_sorted_no_duplicates(first);
    lemma_sorted_no_duplicates(second);
    first.unique_seq_to_set();
    second.unique_seq_to_set();
    if first.len() == 0 {
        assert(first =~= second);
    } else {
        assert(first.to_set().contains(first[0]));
        assert(second.to_set().contains(second[0]));
        let j = choose|j: int| 0 <= j < second.len() && second[j] == first[0];
        let i = choose|i: int| 0 <= i < first.len() && first[i] == second[0];
        if i > 0 && j > 0 {
            assert(lex_less(first[0], first[i]));
            assert(lex_less(second[0], second[j]));
            lemma_lex_transitive(first[0], second[0], first[0]);
            lemma_lex_irreflexive(first[0]);
        }
        assert(first[0] == second[0]);
        let rest = first.skip(1);
        let other = second.skip(1);
        assert forall|x: Seq<char>| rest.to_set().contains(x) <==> other.to_set().contains(x) by {
            if rest.to_set().contains(x) {
                let a = choose|a: int| 0 <= a < rest.len() && rest[a] == x;
                assert(first[a + 1] == x);
                assert(second.to_set().contains(x));
                let b = choose|b: int| 0 <= b < second.len() && second[b] == x;
                assert(b != 0);
                assert(other[b - 1] == x);
            }
            if other.to_set().contains(x) {
                let b = choose|b: int| 0 <= b < other.len() && other[b] == x;
                assert(second[b + 1] == x);
                assert(first.to_set().contains(x));
                let a = choose|a: int| 0 <= a < first.len() && first[a] == x;
                assert(a != 0);
                assert(rest[a - 1] == x);
            }
        }
        assert(rest.to_set() =~= other.to_set());
        assert(is_sorted(rest)) by {
            assert forall|a: int, b: int| 0 <= a < b < rest.len() implies lex_less(
                #[trigger] rest[a],
                #[trigger] rest[b],
            ) by {
                assert(lex_less(first[a + 1], first[b + 1]));
            }
        }
        assert(is_sorted(other)) by {
            assert forall|a: int, b: int| 0 <= a < b < other.len() implies lex_less(
                #[trigger] other[a],
                #[trigger] other[b],
            ) by {
                assert(lex_less(second[a + 1], second[b + 1]));
            }
        }
        lemma_sorted_unique(rest, other);
        assert(first =~= seq![first[0]] + rest);
        assert(second =~= seq![second[0]] + other);
    }
}

/// Of every finite set of names there is a sorted list.
pub proof fn lemma_sorted_list_exists(set: Set<Seq<char>>)
    requires
        set.finite(),
    ensures
        exists|names: Seq<Seq<char>>| is_sorted(names) && names.to_set() == set,
    decreases set.len(),
{
    if set.len() == 0 {
        let names = Seq::<Seq<char>>::empty();
        assert(set =~= Set::<Seq<char>>::empty());
        assert(names.to_set() =~= set);
        assert(is_sorted(names) && names.to_set() == set);
    } else {
        let x = set.choose();
        let rest = set.remove(x);
        lemma_sorted_list_exists(rest);
        let names = choose|names: Seq<Seq<char>>| is_sorted(names) && names.to_set() == rest;
        lemma_insert_sorted(names, x);
        let at = choose|at: int|
            0 <= at <= names.len() && #[trigger] is_sorted(names.insert(at, x));
        let more = names.insert(at, x);
        assert forall|y: Seq<char>| more.to_set().contains(y) <==> set.contains(y) by {
            if more.to_set().contains(y) {
                let a = choose|a: int| 0 <= a < more.len() && more[a] == y;
                if a < at {
                    assert(names[a] == y);
                    assert(names.to_set().contains(y));
                } else if a > at {
                    assert(names[a - 1] == y);
                    assert(names.to_set().contains(y));
                }
            }
            if set.contains(y) {
                if y == x {
                    assert(more[at] == y);
                } else {
                    assert(rest.contains(y));
                    assert(names.to_set().contains(y));
                    let a = choose|a: int| 0 <= a < names.len() && names[a] == y;
                    if a < at {
                        assert(more[a] == y);
                    } else {
                        assert(more[a + 1] == y);
                    }
                }
            }
        }
        assert(more.to_set() =~= set);
        assert(is_sorted(more) && more.to_set() == set);
    }
}

/// A name that a sorted list does not hold has a place in it.
proof fn lemma_insert_sorted(names: Seq<Seq<char>>, name: Seq<char>)
    requires
        is_sorted(names),
        !names.to_set().contains(name),
    ensures
        exists|at: int| 0 <= at <= names.len() && #[trigger] is_sorted(names.insert(at, name)),
{
    // The place is before the first name that the new one stands before.
    let at = first_after(names, name, 0);
    lemma_first_after(names, name, 0);
    let more = names.insert(at, name);
    assert forall|a: int, b: int| 0 <= a < b < more.len() implies lex_less(
        #[trigger] more[a],
        #[trigger] more[b],
    ) by {
        if b < at {
            assert(lex_less(names[a], names[b]));
        } else if b == at {
            assert(lex_less(names[a], name));
        } else if a < at {
            assert(lex_less(names[a], names[b - 1]));
        } else if a == at {
            assert(names.to_set().contains(names[at]));
            lemma_lex_total(name, names[at]);
            if b - 1 > at {
                assert(lex_less(names[at], names[b - 1]));
                lemma_lex_transitive(name, names[at], names[b - 1]);
            }
        } else {
            assert(lex_less(names[a - 1], names[b - 1]));
        }
    }
    assert(is_sorted(names.insert(at, name)));
}

/// The first place at or after `from` whose name does not stand before
/// `name`; the length of the list if there is none.
spec fn first_after(names: Seq<Seq<char>>, name: Seq<char>, from: int) -> int
    decreases names.len() - from,
{
    if 0 <= from < names.len() && lex_less(names[from], name) {
        first_after(names, name, from + 1)
    } else if from < 0 {
        0
    } else if from > names.len() {
        names.len() as int
    } else {
        from
    }
}

proof fn lemma_first_after(names: Seq<Seq<char>>, name: Seq<char>, from: int)
    requires
        0 <= from <= names.len(),
        forall|j: int| 0 <= j < from ==> lex_less(#[trigger] names[j], name),
    ensures
        from <= first_after(names, name, from) <= names.len(),
        forall|j: int| 0 <= j < first_after(names, name, from) ==> lex_less(#[trigger] names[j], name),
        first_after(names, name, from) < names.len() ==> !lex_less(
            names[first_after(names, name, from)],
            name,
        ),
        first_after(names, name, 0) == first_after(names, name, from),
    decreases names.len() - from,
{
    if from < names.len() && lex_less(names[from], name) {
        lemma_first_after(names, name, from + 1);
    }
    lemma_first_after_same(names, name, from);
}

proof fn lemma_first_after_same(names: Seq<Seq<char>>, name: Seq<char>, from: int)
    requires
        0 <= from <= names.len(),
        forall|j: int| 0 <= j < from ==> lex_less(#[trigger] names[j], name),
    ensures
        first_after(names, name, 0) == first_after(names, name, from),
    decreases from,
{
    if from > 0 {
        lemma_first_after_same(names, name, from - 1);
    }
}

/// A sorted list of the names of a set is the sorted list of the set.
pub proof fn lemma_sorted_names(names: Seq<Seq<char>>, set: Set<Seq<char>>)
    requires
        is_sorted(names),
        names.to_set() == set,
    ensures
        sorted_names(set) == names,
{
    lemma_sorted_unique(sorted_names(set), names);
}

/// The names of a list without duplicates, in lexical order.
pub fn sorted(names: &Vec<String>) -> (r: Vec<String>)
    requires
        texts(names@).no_duplicates(),
    ensures
        is_sorted(texts(r@)),
        texts(r@).to_set() == texts(names@).to_set(),
        texts(r@) == sorted_names(texts(names@).to_set()),
        r@.len() == names@.len(),
{
    let mut out: Vec<String> = Vec::new();
    let mut i: usize = 0;
    assert(texts(out@).to_set() =~= texts(names@).take(0).to_set());
    while i < names.len()
        invariant
            i <= names@.len(),
            out@.len() == i,
            texts(names@).no_duplicates(),
            is_sorted(texts(out@)),
            texts(out@).to_set() == texts(names@).take(i as int).to_set(),
        decreases names@.len() - i,
    {
        let name = &names[i];
        let ghost before = texts(out@);
        let ghost listed = texts(names@);
        assert(listed[i as int] == name@);
        let mut at: usize = 0;
        while at < out.len() && less(out[at].as_str(), name.as_str())
            invariant
                at <= out@.len(),
                before == texts(out@),
                forall|j: int| 0 <= j < at ==> lex_less(#[trigger] before[j], name@),
            decreases out@.len() - at,
        {
            at += 1;
        }
        proof {
            assert(!before.to_set().contains(name@)) by {
                if before.to_set().contains(name@) {
                    let earlier = listed.take(i as int);
                    let j = choose|j: int| 0 <= j < earlier.len() && earlier[j] == name@;
                    assert(listed[j] == listed[i as int]);
                }
            }
            if at < before.len() {
                assert(before.to_set().contains(before[at as int]));
                lemma_lex_total(name@, before[at as int]);
            }
        }
        out.insert(at, name.clone());
        proof {
            let after = texts(out@);
            assert(after =~= before.insert(at as int, name@));
            assert forall|a: int, b: int| 0 <= a < b < after.len() implies lex_less(
                #[trigger] after[a],
                #[trigger] after[b],
            ) by {
                if b < at {
                    assert(lex_less(before[a], before[b]));
                } else if b == at {
                    assert(lex_less(before[a], name@));
                } else if a < at {
                    assert(lex_less(before[a], before[b - 1]));
                } else if a == at {
                    if b - 1 > at {
                        assert(lex_less(before[at as int], before[b - 1]));
                        lemma_lex_transitive(name@, before[at as int], before[b - 1]);
                    }
                } else {
                    assert(lex_less(before[a - 1], before[b - 1]));
                }
            }
            let earlier = listed.take(i as int);
            let now = listed.take(i + 1);
            assert(now =~= earlier.push(name@));
            assert forall|x: Seq<char>| after.to_set().contains(x) <==> now.to_set().contains(
                x,
            ) by {
                if after.to_set().contains(x) {
                    let a = choose|a: int| 0 <= a < after.len() && after[a] == x;
                    if a < at {
                        assert(before[a] == x);
                        assert(before.to_set().contains(x));
                    } else if a > at {
                        assert(before[a - 1] == x);
                        assert(before.to_set().contains(x));
                    }
                    if x != name@ {
                        let b = choose|b: int| 0 <= b < earlier.len() && earlier[b] == x;
                        assert(now[b] == x);
                    } else {
                        assert(now[i as int] == x);
                    }
                }
                if now.to_set().contains(x) {
                    let b = choose|b: int| 0 <= b < now.len() && now[b] == x;
                    if b < i {
                        assert(earlier[b] == x);
                        assert(before.to_set().contains(x));
                        let a = choose|a: int| 0 <= a < before.len() && before[a] == x;
                        if a < at {
                            assert(after[a] == x);
                        } else {
                            assert(after[a + 1] == x);
                        }
                    } else {
                        assert(after[at as int] == x);
                    }
                }
            }
            assert(after.to_set() =~= now.to_set());
        }
        i += 1;
    }
    proof {
        assert(texts(names@).take(i as int) =~= texts(names@));
        lemma_sorted_names(texts(out@), texts(names@).to_set());
    }
    out
}

} // verus!
