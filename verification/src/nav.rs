//! Paths as the path bar shows them, parents and children of paths, and the back and forward
//! history of a pane.

use vstd::prelude::*;

use crate::text::{
    lemma_pieces_non_empty, names, pieces, same_text, split_names, texts, trim_end_slashes,
    without_end_slashes,
};

verus! {

/// The path made of the given names, each behind a separator.
pub open spec fn path_of(parts: Seq<Seq<char>>) -> Seq<char>
    decreases parts.len(),
{
    if parts.len() == 0 {
        Seq::<char>::empty()
    } else {
        path_of(parts.drop_last()) + seq!['/'] + parts.last()
    }
}

/// The trail of a path: the root, then each name with the path that ends in it.
pub open spec fn trail(path: Seq<char>) -> Seq<(Seq<char>, Seq<char>)> {
    Seq::new(
        names(path).len() + 1,
        |i: int|
            if i == 0 {
                (seq!['/'], seq!['/'])
            } else {
                (names(path)[i - 1], path_of(names(path).take(i)))
            },
    )
}

/// The contents of a list of labelled paths.
pub open spec fn trail_texts(v: Seq<(String, String)>) -> Seq<(Seq<char>, Seq<char>)> {
    v.map_values(|s: (String, String)| (s.0@, s.1@))
}

/// Splits an absolute path into breadcrumb segments, each a label and the path it stands for.
///
/// The first is always the root.
pub fn breadcrumb_segments(path: &str) -> (r: Vec<(String, String)>)
    ensures
        trail_texts(r@) == trail(path@),
{
    let parts = split_names(path);
    let mut out: Vec<(String, String)> = Vec::new();
    proof {
        reveal_strlit("/");
        assert("/"@ =~= seq!['/']);
    }
    out.push(("/".to_string(), "/".to_string()));
    let mut acc = String::new();
    let mut i: usize = 0;
    assert(names(path@).take(0) =~= Seq::<Seq<char>>::empty());
    assert(trail_texts(out@) =~= trail(path@).take(1));
    while i < parts.len()
        invariant
            i <= parts@.len(),
            texts(parts@) == names(path@),
            "/"@ == seq!['/'],
            acc@ == path_of(names(path@).take(i as int)),
            trail_texts(out@) == trail(path@).take(i + 1),
        decreases parts@.len() - i,
    {
        let ghost before = out@;
        let ghost front = names(path@).take(i + 1);
        assert(front.drop_last() =~= names(path@).take(i as int));
        assert(front.last() == parts@[i as int]@);
        acc.append("/");
        acc.append(parts[i].as_str());
        out.push((parts[i].clone(), acc.clone()));
        assert(trail(path@)[i + 1] == (parts@[i as int]@, acc@));
        assert(trail_texts(out@) =~= trail_texts(before).push((parts@[i as int]@, acc@)));
        assert(trail(path@).take(i + 2) =~= trail(path@).take(i + 1).push(trail(path@)[i + 1]));
        i += 1;
    }
    assert(trail(path@).take(i + 1) =~= trail(path@));
    out
}

/// The segments shown of a trail: all of a short one; of a long one the first, a gap, and the
/// last two.
pub open spec fn shown_segments(count: nat) -> Seq<Option<int>> {
    if count <= 5 {
        Seq::new(count, |i: int| Some(i))
    } else {
        seq![Some(0), None, Some(count - 2), Some(count - 1)]
    }
}

/// The segments to render of a trail of the given length; `None` is a gap that leads nowhere.
pub fn breadcrumb_display_indices(segment_count: usize) -> (r: Vec<Option<usize>>)
    ensures
        r@.len() == shown_segments(segment_count as nat).len(),
        forall|i: int|
            0 <= i < r@.len() ==> {
                &&& (r@[i] is None <==> #[trigger] shown_segments(segment_count as nat)[i] is None)
                &&& r@[i] is Some ==> r@[i]->0 == shown_segments(segment_count as nat)[i]->0
            },
{
    let mut out: Vec<Option<usize>> = Vec::new();
    if segment_count <= 5 {
        let mut i: usize = 0;
        while i < segment_count
            invariant
                i <= segment_count <= 5,
                out@.len() == i,
                forall|j: int| 0 <= j < i ==> #[trigger] out@[j] == Some(j as usize),
            decreases segment_count - i,
        {
            out.push(Some(i));
            i += 1;
        }
        return out;
    }
    out.push(Some(0));
    out.push(None);
    out.push(Some(segment_count - 2));
    out.push(Some(segment_count - 1));
    out
}

proof fn lemma_pieces_plus_name(s: Seq<char>, part: Seq<char>)
    requires
        !part.contains('/'),
    ensures
        pieces(s + seq!['/'] + part) == pieces(s).push(part),
    decreases part.len(),
{
    let whole = s + seq!['/'] + part;
    if part.len() == 0 {
        assert(whole =~= s.push('/'));
        assert(whole.drop_last() =~= s);
        assert(part =~= Seq::<char>::empty());
    } else {
        let shorter = part.drop_last();
        assert forall|c: char| shorter.contains(c) implies part.contains(c) by {
            let k = choose|k: int| 0 <= k < shorter.len() && shorter[k] == c;
            assert(part[k] == c);
        }
        lemma_pieces_plus_name(s, shorter);
        assert(whole.drop_last() =~= s + seq!['/'] + shorter);
        assert(whole.last() == part.last());
        assert(part[part.len() - 1] == part.last());
        assert(part.last() != '/');
        assert(shorter.push(part.last()) =~= part);
        assert(pieces(s).push(shorter).update(pieces(s).len() as int, part) =~= pieces(s).push(
            part,
        ));
    }
}

/// A plain name behind a separator is one more name.
pub proof fn lemma_names_plus_name(s: Seq<char>, part: Seq<char>)
    requires
        !part.contains('/'),
        part.len() > 0,
    ensures
        names(s + seq!['/'] + part) == names(s).push(part),
{
    lemma_pieces_plus_name(s, part);
    reveal(Seq::filter);
    assert(pieces(s).push(part).drop_last() =~= pieces(s));
}

proof fn lemma_pieces_without_separator(s: Seq<char>)
    ensures
        forall|i: int| 0 <= i < pieces(s).len() ==> !(#[trigger] pieces(s)[i]).contains('/'),
    decreases s.len(),
{
    if s.len() > 0 {
        lemma_pieces_without_separator(s.drop_last());
        lemma_pieces_non_empty(s.drop_last());
        let front = pieces(s.drop_last());
        assert forall|i: int| 0 <= i < pieces(s).len() implies !(#[trigger] pieces(s)[i]).contains(
            '/',
        ) by {
            if s.last() != '/' && i == front.len() - 1 {
                let grown = front.last().push(s.last());
                assert forall|k: int| 0 <= k < grown.len() implies grown[k] != '/' by {
                    if k < front.last().len() {
                        assert(front.last()[k] == grown[k]);
                        assert(!front[front.len() - 1].contains('/'));
                    }
                }
            } else if i < front.len() {
                assert(pieces(s)[i] == front[i]);
            }
        }
    }
}

/// Every name in a path is non-empty and holds no separator.
pub proof fn lemma_names_are_plain(s: Seq<char>)
    ensures
        forall|i: int|
            0 <= i < names(s).len() ==> (#[trigger] names(s)[i]).len() > 0 && !names(s)[i].contains(
                '/',
            ),
{
    lemma_pieces_without_separator(s);
    let keep = |p: Seq<char>| p.len() > 0;
    assert forall|i: int| 0 <= i < names(s).len() implies (#[trigger] names(s)[i]).len() > 0
        && !names(s)[i].contains('/') by {
        pieces(s).lemma_filter_contains_rev(keep, names(s)[i]);
        assert(names(s).contains(names(s)[i]));
        assert(pieces(s).contains(names(s)[i]));
    }
}

/// A path made of plain names has those names.
pub proof fn lemma_names_of_path(parts: Seq<Seq<char>>)
    requires
        forall|i: int|
            0 <= i < parts.len() ==> (#[trigger] parts[i]).len() > 0 && !parts[i].contains('/'),
    ensures
        names(path_of(parts)) == parts,
    decreases parts.len(),
{
    if parts.len() == 0 {
        reveal_with_fuel(Seq::filter, 2);
        assert(pieces(Seq::<char>::empty()) =~= seq![Seq::<char>::empty()]);
        assert(pieces(Seq::<char>::empty()).drop_last() =~= Seq::<Seq<char>>::empty());
        assert(names(path_of(parts)) =~= parts);
    } else {
        lemma_names_of_path(parts.drop_last());
        assert(parts[parts.len() - 1] == parts.last());
        lemma_names_plus_name(path_of(parts.drop_last()), parts.last());
        assert(parts.drop_last().push(parts.last()) =~= parts);
    }
}

/// Going to the path of a breadcrumb leaves the trail up to and with that breadcrumb.
pub proof fn law_breadcrumb_leads_to_its_trail(path: Seq<char>, i: int)
    requires
        0 <= i < trail(path).len(),
    ensures
        trail(trail(path)[i].1) == trail(path).take(i + 1),
{
    lemma_names_are_plain(path);
    let front = names(path).take(i);
    if i == 0 {
        lemma_names_of_path(Seq::<Seq<char>>::empty());
        reveal_with_fuel(Seq::filter, 3);
        reveal_with_fuel(pieces, 2);
        assert(seq!['/'].drop_last() =~= Seq::<char>::empty());
        let empty = Seq::<char>::empty();
        assert(pieces(seq!['/']) =~= seq![empty, empty]);
        assert(seq![empty, empty].drop_last() =~= seq![empty]);
        assert(seq![empty].drop_last() =~= Seq::<Seq<char>>::empty());
        assert(names(seq!['/']) =~= Seq::<Seq<char>>::empty());
    } else {
        lemma_names_of_path(front);
    }
    assert(names(trail(path)[i].1) =~= front);
    assert forall|k: int| 0 <= k <= i implies trail(trail(path)[i].1)[k] == trail(path)[k] by {
        if k > 0 {
            assert(front.take(k) =~= names(path).take(k));
        }
    }
    assert(trail(trail(path)[i].1) =~= trail(path).take(i + 1));
}

/// The directory that holds a path, if the path is not the root.
pub open spec fn parent(path: Seq<char>) -> Option<Seq<char>> {
    if names(path).len() == 0 {
        None
    } else if names(path).len() == 1 {
        Some(seq!['/'])
    } else {
        Some(path_of(names(path).drop_last()))
    }
}

/// The directory that holds a path, if the path is not the root.
pub fn parent_of(path: &str) -> (r: Option<String>)
    ensures
        r is Some <==> parent(path@) is Some,
        r is Some ==> r->0@ == parent(path@)->0,
{
    let mut segments = breadcrumb_segments(path);
    let count: usize = segments.len();
    assert(count == trail(path@).len());
    if count < 2 {
        return None;
    }
    let ghost all = segments@;
    let _ = segments.pop();
    let last = segments.pop();
    match last {
        Some((_, held)) => {
            assert(trail_texts(all)[count - 2] == trail(path@)[count - 2]);
            assert(count > 2 ==> names(path@).take(count - 2) =~= names(path@).drop_last());
            Some(held)
        },
        None => None,
    }
}

/// The path of a child with the given name.
pub open spec fn child(directory: Seq<char>, name: Seq<char>) -> Seq<char> {
    without_end_slashes(directory) + seq!['/'] + name
}

/// The path of a child with the given name.
pub fn child_of(directory: &str, name: &str) -> (r: String)
    ensures
        r@ == child(directory@, name@),
{
    proof {
        reveal_strlit("/");
        assert("/"@ =~= seq!['/']);
    }
    let mut out = trim_end_slashes(directory);
    out.append("/");
    out.append(name);
    out
}

/// The places that a pane was at before, and those that it came back from. The rules for what a
/// step records and forgets are chosen here: those of a browser's back and forward.
#[derive(PartialEq, Eq, Debug)]
pub struct PathHistory {
    pub back: Vec<String>,
    pub forward: Vec<String>,
}

impl PathHistory {
    /// The places before, oldest first.
    pub open spec fn past(&self) -> Seq<Seq<char>> {
        texts(self.back@)
    }

    /// The places ahead, farthest first.
    pub open spec fn ahead(&self) -> Seq<Seq<char>> {
        texts(self.forward@)
    }

    /// The history of a pane that is at the given place.
    pub open spec fn at(&self, place: Seq<char>) -> HistoryView {
        HistoryView { past: self.past(), ahead: self.ahead(), at: place }
    }

    pub fn new() -> (r: Self)
        ensures
            r.past().len() == 0,
            r.ahead().len() == 0,
    {
        PathHistory { back: Vec::new(), forward: Vec::new() }
    }

    /// Whether there is a place to go back to.
    pub fn can_back(&self) -> (r: bool)
        ensures
            r == (self.past().len() > 0),
    {
        self.back.len() > 0
    }

    /// Whether there is a place to go forward to.
    pub fn can_forward(&self) -> (r: bool)
        ensures
            r == (self.ahead().len() > 0),
    {
        self.forward.len() > 0
    }

    /// Records a step from `current` to another place: the place left joins the past, and what
    /// was ahead is forgotten. A step to the same place, or from nowhere, records nothing.
    pub fn push_navigating_from(&mut self, current: Option<&str>, target: &str)
        ensures
            current is Some ==> final(self).at(target@) == after_push(
                old(self).at(current->0@),
                target@,
            ),
            current is None ==> *final(self) == *old(self),
    {
        if let Some(current) = current {
            if !same_text(current, target) {
                let ghost held = self.back@;
                let place = current.to_string();
                self.back.push(place);
                self.forward.clear();
                assert(texts(self.back@) =~= texts(held).push(place@));
                assert(self.ahead() =~= Seq::<Seq<char>>::empty());
            }
        }
    }

    /// Goes back: `current` joins what is ahead.
    pub fn go_back(&mut self, current: &str) -> (r: Option<String>)
        ensures
            r is Some <==> old(self).past().len() > 0,
            r is Some ==> {
                &&& r->0@ == old(self).past().last()
                &&& final(self).at(r->0@) == after_back(old(self).at(current@))
            },
            r is None ==> *final(self) == *old(self),
    {
        if self.back.len() == 0 {
            return None;
        }
        let ghost held = self.forward@;
        let ghost past = self.back@;
        let target = self.back.pop();
        let place = current.to_string();
        self.forward.push(place);
        assert(texts(self.forward@) =~= texts(held).push(place@));
        assert(texts(self.back@) =~= texts(past).drop_last());
        target
    }

    /// Goes forward: `current` joins the past.
    pub fn go_forward(&mut self, current: &str) -> (r: Option<String>)
        ensures
            r is Some <==> old(self).ahead().len() > 0,
            r is Some ==> {
                &&& r->0@ == old(self).ahead().last()
                &&& final(self).at(r->0@) == after_forward(old(self).at(current@))
            },
            r is None ==> *final(self) == *old(self),
    {
        if self.forward.len() == 0 {
            return None;
        }
        let ghost held = self.back@;
        let ghost next = self.forward@;
        let target = self.forward.pop();
        let place = current.to_string();
        self.back.push(place);
        assert(texts(self.back@) =~= texts(held).push(place@));
        assert(texts(self.forward@) =~= texts(next).drop_last());
        target
    }
}

/// The state of a history, and the place that the pane is at.
pub struct HistoryView {
    pub past: Seq<Seq<char>>,
    pub ahead: Seq<Seq<char>>,
    pub at: Seq<char>,
}

/// The state after a step to another place.
pub open spec fn after_push(h: HistoryView, target: Seq<char>) -> HistoryView {
    if h.at == target {
        h
    } else {
        HistoryView { past: h.past.push(h.at), ahead: Seq::empty(), at: target }
    }
}

/// The state after a step back, where there is one.
pub open spec fn after_back(h: HistoryView) -> HistoryView
    recommends
        h.past.len() > 0,
{
    HistoryView { past: h.past.drop_last(), ahead: h.ahead.push(h.at), at: h.past.last() }
}

/// The state after a step forward, where there is one.
pub open spec fn after_forward(h: HistoryView) -> HistoryView
    recommends
        h.ahead.len() > 0,
{
    HistoryView { past: h.past.push(h.at), ahead: h.ahead.drop_last(), at: h.ahead.last() }
}

/// Going back and then forward leaves the history as it was.
pub proof fn law_forward_undoes_back(h: HistoryView)
    requires
        h.past.len() > 0,
    ensures
        after_forward(after_back(h)) == h,
{
    assert(h.past.drop_last().push(h.past.last()) =~= h.past);
    assert(h.ahead.push(h.at).drop_last() =~= h.ahead);
}

/// Going forward and then back leaves the history as it was.
pub proof fn law_back_undoes_forward(h: HistoryView)
    requires
        h.ahead.len() > 0,
    ensures
        after_back(after_forward(h)) == h,
{
    assert(h.ahead.drop_last().push(h.ahead.last()) =~= h.ahead);
    assert(h.past.push(h.at).drop_last() =~= h.past);
}

/// Going back from a place just reached returns to where the step began, with that place ahead.
pub proof fn law_back_returns_from_a_step(h: HistoryView, target: Seq<char>)
    requires
        h.at != target,
    ensures
        after_back(after_push(h, target)).at == h.at,
        after_back(after_push(h, target)).past == h.past,
        after_back(after_push(h, target)).ahead == seq![target],
{
    assert(h.past.push(h.at).drop_last() =~= h.past);
    assert(Seq::<Seq<char>>::empty().push(target) =~= seq![target]);
}

}
