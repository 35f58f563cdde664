//! The result sinks: consumers of "a line matched" that print or tally hits.
use vstd::prelude::*;
use crate::text::{decimal, join_colon, push_char, push_decimal, push_field};

verus! {

/// A consumer of hits. `start_new_file` is called once per source, before
/// any of its hits; `handle_hit` once per hit of that source.
pub trait HitHandler: Sized {
    /// Whether the sink can take a hit now.
    spec fn ready(&self) -> bool;

    fn start_new_file(&mut self, file_path: &str)
        ensures
            final(self).ready(),
    ;

    fn handle_hit(&mut self, file_path: &str, line: usize, hit: &str)
        requires
            old(self).ready(),
    ;
}

/// The fields of a printed hit that the three switches keep, in the order
/// source name, line ordinal, line text.
pub open spec fn hit_fields(
    print_file_path: bool,
    print_line: bool,
    print_hit: bool,
    file_path: Seq<char>,
    line: nat,
    hit: Seq<char>,
) -> Seq<Seq<char>> {
    (if print_file_path { seq![file_path] } else { Seq::empty() })
        + (if print_line { seq![decimal(line)] } else { Seq::empty() })
        + (if print_hit { seq![hit] } else { Seq::empty() })
}

/// The output line of one hit: the kept fields joined by `:`, then a newline.
pub open spec fn hit_line(
    print_file_path: bool,
    print_line: bool,
    print_hit: bool,
    file_path: Seq<char>,
    line: nat,
    hit: Seq<char>,
) -> Seq<char> {
    join_colon(hit_fields(print_file_path, print_line, print_hit, file_path, line, hit)).push('\n')
}

/// A sink that prints one line per hit into its output buffer.
pub struct HitPrinter {
    print_file_path: bool,
    print_line: bool,
    print_hit: bool,
    out: String,
}

impl HitPrinter {
    pub closed spec fn prints_file_path(&self) -> bool {
        self.print_file_path
    }

    pub closed spec fn prints_line(&self) -> bool {
        self.print_line
    }

    pub closed spec fn prints_hit(&self) -> bool {
        self.print_hit
    }

    /// What has been printed and not yet taken.
    pub closed spec fn printed(&self) -> Seq<char> {
        self.out@
    }

    /// The output line of a hit under this printer's switches.
    pub open spec fn line_of(&self, file_path: Seq<char>, line: nat, hit: Seq<char>) -> Seq<char> {
        hit_line(self.prints_file_path(), self.prints_line(), self.prints_hit(), file_path, line, hit)
    }

    pub fn new(print_file_path: bool, print_line: bool, print_hit: bool) -> (r: Self)
        ensures
            r.prints_file_path() == print_file_path,
            r.prints_line() == print_line,
            r.prints_hit() == print_hit,
            r.printed() == Seq::<char>::empty(),
    {
        HitPrinter { print_file_path, print_line, print_hit, out: String::new() }
    }

    /// Hands out what has been printed and empties the buffer.
    pub fn take_output(&mut self) -> (r: String)
        ensures
            r@ == old(self).printed(),
            final(self).printed() == Seq::<char>::empty(),
            final(self).prints_file_path() == old(self).prints_file_path(),
            final(self).prints_line() == old(self).prints_line(),
            final(self).prints_hit() == old(self).prints_hit(),
    {
        let r = self.out.clone();
        self.out = String::new();
        r
    }
}

impl HitHandler for HitPrinter {
    open spec fn ready(&self) -> bool {
        true
    }

    fn start_new_file(&mut self, file_path: &str)
        ensures
            *final(self) == *old(self),
    {
    }

    fn handle_hit(&mut self, file_path: &str, line: usize, hit: &str)
        ensures
            final(self).printed() == old(self).printed() + old(self).line_of(file_path@, line as nat, hit@),
            final(self).prints_file_path() == old(self).prints_file_path(),
            final(self).prints_line() == old(self).prints_line(),
            final(self).prints_hit() == old(self).prints_hit(),
    {
        let ghost fields = hit_fields(self.print_file_path, self.print_line, self.print_hit, file_path@, line as nat, hit@);
        let mut s = String::new();
        let ghost mut parts: Seq<Seq<char>> = Seq::empty();
        let mut first = true;
        if self.print_file_path {
            push_field(&mut s, Ghost(parts), first, file_path);
            proof { parts = parts.push(file_path@); }
            first = false;
        }
        if self.print_line {
            let mut number = String::new();
            push_decimal(&mut number, line);
            assert(number@ =~= decimal(line as nat));
            push_field(&mut s, Ghost(parts), first, number.as_str());
            proof { parts = parts.push(decimal(line as nat)); }
            first = false;
        }
        if self.print_hit {
            push_field(&mut s, Ghost(parts), first, hit);
            proof { parts = parts.push(hit@); }
        }
        assert(parts =~= fields);
        push_char(&mut s, '\n');
        self.out.append(s.as_str());
    }
}

/// A sink that tallies hits per source, in the order the sources were begun.
pub struct HitCounter {
    hits: Vec<(String, usize)>,
}

impl View for HitCounter {
    type V = Seq<(Seq<char>, nat)>;

    closed spec fn view(&self) -> Seq<(Seq<char>, nat)> {
        self.hits@.map_values(|e: (String, usize)| (e.0@, e.1 as nat))
    }
}

impl HitCounter {
    pub fn new() -> (r: Self)
        ensures
            r@ == Seq::<(Seq<char>, nat)>::empty(),
    {
        let r = HitCounter { hits: Vec::new() };
        assert(r@ =~= Seq::<(Seq<char>, nat)>::empty());
        r
    }

    /// The number of sources begun so far.
    pub fn len(&self) -> (r: usize)
        ensures
            r == self@.len(),
    {
        self.hits.len()
    }

    /// The tally entries, source name and count, in the order begun.
    pub fn iter<'a>(&'a self) -> (r: HitCounterIter<'a>)
        ensures
            r.wf(),
            r.remaining() == self@,
    {
        HitCounterIter::from_hit_counter(self)
    }
}

impl HitHandler for HitCounter {
    open spec fn ready(&self) -> bool {
        self@.len() > 0 && self@.last().1 < usize::MAX
    }

    fn start_new_file(&mut self, file_path: &str)
        ensures
            final(self)@ == old(self)@.push((file_path@, 0nat)),
    {
        let name = String::from_str(file_path);
        self.hits.push((name, 0));
        assert(self@ =~= old(self)@.push((file_path@, 0nat)));
    }

    fn handle_hit(&mut self, file_path: &str, line: usize, hit: &str)
        ensures
            final(self)@ == old(self)@.update(old(self)@.len() - 1, (old(self)@.last().0, old(self)@.last().1 + 1)),
    {
        let ghost before = self@;
        match self.hits.pop() {
            Some((name, count)) => {
                self.hits.push((name, count + 1));
            }
            None => {}
        }
        assert(self@ =~= before.update(before.len() - 1, (before.last().0, before.last().1 + 1)));
    }
}

/// A walk over a tally's entries, from the first source begun to the last.
pub struct HitCounterIter<'a> {
    counter: &'a HitCounter,
    pos: usize,
}

impl<'a> HitCounterIter<'a> {
    /// The entries not yet handed out.
    pub closed spec fn remaining(&self) -> Seq<(Seq<char>, nat)> {
        self.counter@.subrange(self.pos as int, self.counter@.len() as int)
    }

    pub closed spec fn wf(&self) -> bool {
        self.pos <= self.counter@.len()
    }

    fn from_hit_counter(hit_counter: &'a HitCounter) -> (r: Self)
        ensures
            r.wf(),
            r.remaining() == hit_counter@,
    {
        let r = HitCounterIter { counter: hit_counter, pos: 0 };
        assert(r.remaining() =~= hit_counter@);
        r
    }

    /// The next entry, or `None` once all have been handed out.
    pub fn next(&mut self) -> (r: Option<(&'a str, usize)>)
        requires
            old(self).wf(),
        ensures
            final(self).wf(),
            old(self).remaining().len() == 0 ==> r is None && final(self).remaining() == old(self).remaining(),
            old(self).remaining().len() > 0 ==> (r matches Some(e) && e.0@ == old(self).remaining()[0].0
                && e.1 as nat == old(self).remaining()[0].1
                && final(self).remaining() == old(self).remaining().drop_first()),
    {
        if self.pos < self.counter.hits.len() {
            let c: &'a HitCounter = self.counter;
            let e = &c.hits[self.pos];
            let r = (e.0.as_str(), e.1);
            self.pos = self.pos + 1;
            assert(self.remaining() =~= old(self).remaining().drop_first());
            Some(r)
        } else {
            None
        }
    }
}

} // verus!
