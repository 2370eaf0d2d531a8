//! Docker containers as `docker ps --format '{{json .}}'` lists them.
use vstd::prelude::*;
use crate::selection::{next_index, next_of, previous_index, previous_of, Selection};
use crate::text::{chars_of, lines, split_lines, string_of, views};

verus! {

/// A container, one JSON object of `docker ps` output.
#[allow(non_snake_case)]
pub struct DockerContainer {
    pub ID: String,
    pub Image: String,
    pub Command: String,
    pub CreatedAt: String,
    pub Status: String,
    pub Ports: String,
    pub Name: String,
}

pub struct DockerState {
    pub containers: Vec<DockerContainer>,
    pub container_state: Selection,
}

impl DockerState {
    /// Selects the previous container, wrapping around.
    pub fn previous_container(&mut self)
        ensures
            final(self).containers == old(self).containers,
            final(self).container_state.selected == previous_of(
                old(self).container_state.selected,
                old(self).containers@.len() as usize,
            ),
    {
        let n = self.containers.len();
        previous_index(&mut self.container_state, n);
    }

    /// Selects the next container, wrapping around.
    pub fn next_container(&mut self)
        requires
            old(self).container_state.selected != Some(usize::MAX),
        ensures
            final(self).containers == old(self).containers,
            final(self).container_state.selected == next_of(
                old(self).container_state.selected,
                old(self).containers@.len() as usize,
            ),
    {
        let n = self.containers.len();
        next_index(&mut self.container_state, n);
    }

    /// Replaces the list of containers, keeping the selection.
    pub fn refresh(&mut self, containers: Vec<DockerContainer>)
        ensures
            final(self).containers == containers,
            final(self).container_state == old(self).container_state,
    {
        self.containers = containers;
    }
}

/// The pieces joined, `sep` between each two.
pub open spec fn join(pieces: Seq<Seq<char>>, sep: Seq<char>) -> Seq<char>
    decreases pieces.len(),
{
    if pieces.len() == 0 {
        Seq::empty()
    } else if pieces.len() == 1 {
        pieces[0]
    } else {
        join(pieces.drop_last(), sep) + sep + pieces.last()
    }
}

/// The JSON array of the objects that `docker ps --format '{{json .}}'`
/// prints one per line: `[`, the lines joined by `,`, `]`.
pub fn json_array_of_lines(text: &str) -> (json: String)
    ensures
        json@ == "["@ + join(lines(text@), ","@) + "]"@,
{
    let cs = chars_of(text);
    let ls = split_lines(&cs);
    let comma = chars_of(",");
    let mut out = chars_of("[");
    let ghost open = out@;
    let ghost all = lines(text@);
    let n = ls.len();
    assert(all.take(0) =~= Seq::<Seq<char>>::empty());
    assert(out@ =~= open + join(all.take(0), ","@));
    for k in 0..n
        invariant
            n == ls@.len(),
            views(ls@) == all,
            all == lines(text@),
            comma@ == ","@,
            out@ == open + join(all.take(k as int), ","@),
    {
        assert(all.take(k + 1).drop_last() =~= all.take(k as int));
        assert(all.take(k + 1).last() == ls@[k as int]@);
        let ghost before = out@;
        if k > 0 {
            let mut c = comma.clone();
            out.append(&mut c);
        }
        let mut l = ls[k].clone();
        out.append(&mut l);
        if k == 0 {
            assert(all.take(1) =~= seq![ls@[0]@]);
            assert(out@ =~= open + join(all.take(1), ","@));
        } else {
            assert(out@ =~= open + join(all.take(k as int), ","@) + ","@ + ls@[k as int]@);
        }
    }
    assert(all.take(n as int) =~= all);
    let mut close = chars_of("]");
    out.append(&mut close);
    string_of(&out)
}

} // verus!
