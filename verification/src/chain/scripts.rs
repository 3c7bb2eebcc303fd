//! The scripts that are looked out for.
use crate::types::slices_eq;
use vstd::prelude::*;

verus! {

/// A set of scripts.
pub struct ScriptSet {
    scripts: Vec<Vec<u8>>,
}

/// The scripts of a list.
pub open spec fn scripts_view(scripts: Seq<Vec<u8>>) -> Seq<Seq<u8>> {
    scripts.map_values(|s: Vec<u8>| s@)
}

impl View for ScriptSet {
    type V = Seq<Seq<u8>>;

    /// The scripts, in the order in which they were registered.
    closed spec fn view(&self) -> Seq<Seq<u8>> {
        scripts_view(self.scripts@)
    }
}

impl ScriptSet {
    pub fn new() -> (set: Self)
        ensures
            set@ == Seq::<Seq<u8>>::empty(),
    {
        let set = ScriptSet { scripts: Vec::new() };
        assert(set@ =~= Seq::empty());
        set
    }

    /// Whether a script is registered.
    pub fn contains(&self, script: &Vec<u8>) -> (found: bool)
        ensures
            found == self@.contains(script@),
    {
        let mut i: usize = 0;
        while i < self.scripts.len()
            invariant
                i <= self.scripts@.len(),
                self@ == scripts_view(self.scripts@),
                forall|j: int| 0 <= j < i ==> self.scripts@[j]@ != script@,
            decreases self.scripts@.len() - i,
        {
            if slices_eq(self.scripts[i].as_slice(), script.as_slice()) {
                assert(self@[i as int] == script@);
                return true;
            }
            i += 1;
        }
        assert(!self@.contains(script@)) by {
            if self@.contains(script@) {
                let j = choose|j: int| 0 <= j < self@.len() && self@[j] == script@;
                assert(self.scripts@[j]@ == script@);
            }
        }
        false
    }

    /// Registers a script, once.
    pub fn register(&mut self, script: Vec<u8>)
        ensures
            final(self)@ == (if old(self)@.contains(script@) {
                old(self)@
            } else {
                old(self)@.push(script@)
            }),
    {
        if !self.contains(&script) {
            let ghost before = self@;
            self.scripts.push(script);
            assert(self@ =~= before.push(script@));
        }
    }

    /// All scripts that are looked out for: those that the wallet watches, then the registered ones.
    pub fn with_watched(&self, watched: Vec<Vec<u8>>) -> (all: Vec<Vec<u8>>)
        ensures
            scripts_view(all@) == scripts_view(watched@) + self@,
    {
        let mut all = watched;
        let ghost watched = all@;
        let mut i: usize = 0;
        assert(scripts_view(all@) =~= scripts_view(watched) + self@.subrange(0, 0));
        while i < self.scripts.len()
            invariant
                i <= self.scripts@.len(),
                self@ == scripts_view(self.scripts@),
                scripts_view(all@) == scripts_view(watched) + self@.subrange(0, i as int),
            decreases self.scripts@.len() - i,
        {
            let ghost before = all@;
            let script = self.scripts[i].clone();
            assert(script@ =~= self.scripts@[i as int]@);
            all.push(script);
            i += 1;
            assert(scripts_view(all@) =~= scripts_view(before).push(script@));
            assert(self@.subrange(0, i as int) =~= self@.subrange(0, i - 1).push(script@));
            assert(scripts_view(all@) =~= scripts_view(watched) + self@.subrange(0, i as int));
        }
        assert(self@.subrange(0, i as int) =~= self@);
        all
    }
}

/// The scripts of a list are those that it holds, byte for byte and in order.
pub proof fn law_scripts_are_told_by_their_bytes(scripts: Seq<Vec<u8>>, i: int)
    ensures
        scripts_view(scripts).len() == scripts.len(),
        0 <= i < scripts.len() ==> scripts_view(scripts)[i] == scripts[i]@,
{
}

/// A script that is registered is there from then on, once, and all others stay in their order.
pub proof fn law_scripts_are_registered_once(
    set: &mut ScriptSet,
    script: Vec<u8>,
    before: bool,
    again: bool,
)
    requires
        call_ensures(ScriptSet::contains, (&*old(set), &script), before),
        call_ensures(ScriptSet::register, (set, script), ()),
        call_ensures(ScriptSet::contains, (&*final(set), &script), again),
    ensures
        again,
        before ==> final(set)@ == old(set)@,
        !before ==> final(set)@ == old(set)@.push(script@),
{
    if !before {
        assert(final(set)@[old(set)@.len() as int] == script@);
    }
}

} // verus!
