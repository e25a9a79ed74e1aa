//! Rendering of a chain as text: the payloads in order, with an arrow between
//! neighbours, and a fixed marker for the empty list.

use crate::list::{List, Node};
use std::fmt::Display;
use vstd::prelude::*;
use vstd::string::to_string_from_display_ensures;

verus! {

/// The characters of each string of a sequence.
pub open spec fn texts(parts: Seq<String>) -> Seq<Seq<char>> {
    parts.map_values(|part: String| part@)
}

/// The parts written one after another, with `->` between neighbours: a
/// single part alone, else the first part, an arrow and the rest joined.
pub open spec fn arrow_joined(parts: Seq<Seq<char>>) -> Seq<char>
    decreases parts.len(),
{
    if parts.len() == 0 {
        Seq::empty()
    } else if parts.len() == 1 {
        parts.first()
    } else {
        parts.first() + "->"@ + arrow_joined(parts.drop_first())
    }
}

/// Joining one more part behind others puts an arrow and the part behind
/// what the others are joined to.
proof fn lemma_join_one_more(parts: Seq<Seq<char>>, part: Seq<char>)
    requires
        parts.len() > 0,
    ensures
        arrow_joined(parts.push(part)) == arrow_joined(parts) + "->"@ + part,
    decreases parts.len(),
{
    let more = parts.push(part);
    assert(more.drop_first() =~= parts.drop_first().push(part));
    if parts.len() > 1 {
        lemma_join_one_more(parts.drop_first(), part);
        assert(arrow_joined(more) =~= arrow_joined(parts) + "->"@ + part);
    } else {
        assert(arrow_joined(more.drop_first()) == part);
    }
}

/// Each part is a text that `to_string` may give for the item at its place.
pub open spec fn shown_as<T: Display>(items: Seq<T>, parts: Seq<String>) -> bool {
    &&& parts.len() == items.len()
    &&& forall|i: int|
        0 <= i < items.len() ==> to_string_from_display_ensures::<T>(&items[i], #[trigger] parts[i])
}

/// `text` is the items, each as `to_string` shows it, joined by arrows.
pub open spec fn rendering_of<T: Display>(items: Seq<T>, text: Seq<char>) -> bool {
    exists|parts: Seq<String>|
        #[trigger] shown_as(items, parts) && text == arrow_joined(texts(parts))
}

/// Writes the parts one after another, with `->` between neighbours.
pub fn join_with_arrows(parts: &Vec<String>) -> (text: String)
    ensures
        text@ == arrow_joined(texts(parts@)),
{
    let mut text = String::new();
    let mut i: usize = 0;
    while i < parts.len()
        invariant
            i <= parts.len(),
            text@ == arrow_joined(texts(parts@.take(i as int))),
        decreases parts.len() - i,
    {
        if i > 0 {
            text.append("->");
        }
        text.append(parts[i].as_str());
        proof {
            let done = texts(parts@.take(i as int));
            assert(texts(parts@.take(i + 1)) =~= done.push(parts@[i as int]@));
            if i > 0 {
                lemma_join_one_more(done, parts@[i as int]@);
            }
        }
        i = i + 1;
    }
    assert(parts@.take(i as int) =~= parts@);
    text
}

/// Walks the chain and shows every payload by `to_string`.
fn payload_texts<T: Display>(first: &Node<T>) -> (parts: Vec<String>)
    ensures
        shown_as(first@, parts@),
{
    let ghost items = first@;
    let mut parts: Vec<String> = Vec::new();
    let mut cur: Option<&Node<T>> = Some(first);
    proof {
        first.lemma_nonempty();
    }
    while cur.is_some()
        invariant
            parts@.len() <= items.len(),
            cur is None <==> parts@.len() == items.len(),
            cur is Some ==> cur.unwrap()@ == items.skip(parts@.len() as int),
            shown_as(items.take(parts@.len() as int), parts@),
        decreases items.len() - parts@.len(),
    {
        let node = cur.unwrap();
        parts.push(node.data().to_string());
        cur = node.next();
        proof {
            let shown: int = parts@.len() as int;
            assert(items.skip(shown - 1).drop_first() =~= items.skip(shown));
            if let Some(rest) = cur {
                rest.lemma_nonempty();
            }
        }
    }
    assert(items.take(parts@.len() as int) =~= items);
    parts
}

impl<T: Display> Node<T> {
    /// The chain as text: the payload alone for a chain of one link, else the
    /// payload, an arrow and the text of what follows.
    pub fn render(&self) -> (text: String)
        ensures
            rendering_of(self@, text@),
    {
        let parts = payload_texts(self);
        join_with_arrows(&parts)
    }
}

impl<T: Display> List<T> {
    /// The list as text: `<Empty>` for the empty list, else the text of its
    /// chain.
    pub fn render(&self) -> (text: String)
        ensures
            self@.len() == 0 ==> text@ == "<Empty>"@,
            self@.len() > 0 ==> rendering_of(self@, text@),
    {
        match self.first() {
            Some(node) => node.render(),
            None => "<Empty>".to_owned(),
        }
    }
}

} // verus!
