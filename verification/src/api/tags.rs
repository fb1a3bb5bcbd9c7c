//! Resolving tag names to Core tag ids, creating the missing tags.
//!
//! The requests themselves (listing and creating tags) are made by the caller;
//! this state machine decides which request comes next and what it means.
use vstd::prelude::*;

use crate::api::client::Tag;
use crate::error::AppError;
use crate::text::{self, contains_seq, trim_seq};

verus! {

/// The id that a name maps to among (name, id) pairs: the last pair with that
/// name wins, as in a map filled in order.
pub open spec fn lookup(known: Seq<(Seq<char>, Seq<char>)>, name: Seq<char>) -> Option<Seq<char>>
    decreases known.len(),
{
    if known.len() == 0 {
        None
    } else if known.last().0 == name {
        Some(known.last().1)
    } else {
        lookup(known.drop_last(), name)
    }
}

/// `ids` with `id` appended, unless it is already there.
pub open spec fn push_unseen(ids: Seq<Seq<char>>, id: Seq<char>) -> Seq<Seq<char>> {
    if ids.contains(id) {
        ids
    } else {
        ids.push(id)
    }
}

/// One requested name taken in: blank names are skipped, known ones add their id.
pub open spec fn take_name(
    ids: Seq<Seq<char>>,
    known: Seq<(Seq<char>, Seq<char>)>,
    raw: Seq<char>,
) -> Seq<Seq<char>> {
    let name = trim_seq(raw);
    if name.len() == 0 {
        ids
    } else {
        match lookup(known, name) {
            Some(id) => push_unseen(ids, id),
            None => ids,
        }
    }
}

/// Requested names taken in, in order, against the same known tags.
pub open spec fn take_names(
    ids: Seq<Seq<char>>,
    known: Seq<(Seq<char>, Seq<char>)>,
    names: Seq<Seq<char>>,
) -> Seq<Seq<char>>
    decreases names.len(),
{
    if names.len() == 0 {
        ids
    } else {
        take_name(take_names(ids, known, names.drop_last()), known, names.last())
    }
}

/// No id occurs twice.
pub open spec fn distinct(ids: Seq<Seq<char>>) -> bool {
    forall|i: int, j: int| 0 <= i < j < ids.len() ==> ids[i] != ids[j]
}

/// (name, id) pairs of tags.
pub open spec fn tag_pairs(tags: Seq<Tag>) -> Seq<(Seq<char>, Seq<char>)> {
    tags.map_values(|t: Tag| (t.name@, t.id@))
}

/// What the caller does next.
#[derive(Debug)]
pub enum TagStep {
    /// Create a tag with this name and report the outcome.
    Create(String),
    /// Every name is resolved: these are the ids, in order.
    Done(Vec<String>),
}

/// The progress of resolving a list of tag names.
#[derive(Debug)]
pub struct TagIdResolver {
    names: Vec<String>,
    pos: usize,
    known_names: Vec<String>,
    known_ids: Vec<String>,
    ids: Vec<String>,
}

impl TagIdResolver {
    /// The requested names.
    pub closed spec fn names(&self) -> Seq<Seq<char>> {
        crate::text::views(self.names@)
    }

    /// How many names are resolved.
    pub closed spec fn pos(&self) -> int {
        self.pos as int
    }

    /// The tags known so far, as (name, id) pairs in the order they became known.
    pub closed spec fn known(&self) -> Seq<(Seq<char>, Seq<char>)> {
        Seq::new(self.known_names@.len(), |i: int| (self.known_names@[i]@, self.known_ids@[i]@))
    }

    /// The ids resolved so far.
    pub closed spec fn ids(&self) -> Seq<Seq<char>> {
        crate::text::views(self.ids@)
    }

    pub closed spec fn wf(&self) -> bool {
        &&& self.pos <= self.names@.len()
        &&& self.known_names@.len() == self.known_ids@.len()
        &&& distinct(self.ids())
    }

    /// The name waiting for a creation: the trimmed name at the position.
    pub open spec fn pending(&self) -> Seq<char> {
        trim_seq(self.names()[self.pos()])
    }

    /// A resolver for `names`, knowing the tags that Core listed.
    pub fn new(names: Vec<String>, tags: &Vec<Tag>) -> (r: TagIdResolver)
        ensures
            r.wf(),
            r.names() == crate::text::views(names@),
            r.pos() == 0,
            r.known() == tag_pairs(tags@),
            r.ids() == Seq::<Seq<char>>::empty(),
    {
        let mut r = TagIdResolver {
            names,
            pos: 0,
            known_names: Vec::new(),
            known_ids: Vec::new(),
            ids: Vec::new(),
        };
        r.replace_known(tags);
        proof {
            assert(r.ids() =~= Seq::<Seq<char>>::empty());
        }
        r
    }

    fn replace_known(&mut self, tags: &Vec<Tag>)
        requires
            old(self).wf(),
        ensures
            final(self).wf(),
            final(self).names() == old(self).names(),
            final(self).pos() == old(self).pos(),
            final(self).ids() == old(self).ids(),
            final(self).known() == tag_pairs(tags@),
    {
        let mut kn: Vec<String> = Vec::new();
        let mut ki: Vec<String> = Vec::new();
        let mut i: usize = 0;
        while i < tags.len()
            invariant
                i <= tags.len(),
                kn@.len() == i,
                ki@.len() == i,
                forall|k: int| 0 <= k < i ==> kn@[k]@ == tags@[k].name@ && ki@[k]@ == tags@[k].id@,
            decreases tags.len() - i,
        {
            kn.push(tags[i].name.clone());
            ki.push(tags[i].id.clone());
            i = i + 1;
        }
        self.known_names = kn;
        self.known_ids = ki;
        proof {
            assert(self.known() =~= tag_pairs(tags@));
        }
    }

    /// The id a name maps to among the known tags.
    fn find(&self, name: &str) -> (r: Option<String>)
        requires
            self.wf(),
        ensures
            match r {
                Some(id) => lookup(self.known(), name@) == Some(id@),
                None => lookup(self.known(), name@) is None,
            },
    {
        let mut i: usize = self.known_names.len();
        proof {
            assert(self.known().subrange(0, i as int) =~= self.known());
        }
        while i > 0
            invariant
                self.wf(),
                i <= self.known_names@.len(),
                lookup(self.known(), name@) == lookup(self.known().subrange(0, i as int), name@),
            decreases i,
        {
            let k = i - 1;
            proof {
                assert(self.known().subrange(0, i as int).drop_last() =~= self.known().subrange(0, k as int));
            }
            if text::str_eq(self.known_names[k].as_str(), name) {
                return Some(self.known_ids[k].clone());
            }
            i = k;
        }
        None
    }

    /// Adds `id` to the result unless it is already there.
    fn push_id(&mut self, id: String)
        requires
            old(self).wf(),
        ensures
            final(self).wf(),
            final(self).names() == old(self).names(),
            final(self).pos() == old(self).pos(),
            final(self).known() == old(self).known(),
            final(self).ids() == push_unseen(old(self).ids(), id@),
    {
        let mut i: usize = 0;
        while i < self.ids.len()
            invariant
                self.wf(),
                i <= self.ids@.len(),
                forall|k: int| 0 <= k < i ==> self.ids@[k]@ != id@,
            decreases self.ids@.len() - i,
        {
            if text::str_eq(self.ids[i].as_str(), id.as_str()) {
                proof {
                    assert(self.ids()[i as int] == id@);
                }
                return;
            }
            i = i + 1;
        }
        proof {
            assert(!self.ids().contains(id@)) by {
                if self.ids().contains(id@) {
                    let k = choose|k: int| 0 <= k < self.ids().len() && self.ids()[k] == id@;
                    assert(self.ids@[k]@ == id@);
                }
            }
        }
        let ghost before = self.ids();
        self.ids.push(id);
        proof {
            assert(self.ids() =~= before.push(id@));
            lemma_push_unseen_distinct(before, id@);
        }
    }

    /// Takes in names that need no creation, up to the next unknown one.
    pub fn next(&mut self) -> (step: TagStep)
        requires
            old(self).wf(),
        ensures
            final(self).wf(),
            final(self).names() == old(self).names(),
            final(self).known() == old(self).known(),
            old(self).pos() <= final(self).pos(),
            final(self).ids() == take_names(
                old(self).ids(),
                old(self).known(),
                old(self).names().subrange(old(self).pos(), final(self).pos()),
            ),
            distinct(final(self).ids()),
            match step {
                TagStep::Done(ids) => final(self).pos() == final(self).names().len()
                    && crate::text::views(ids@) == final(self).ids(),
                TagStep::Create(name) => final(self).pos() < final(self).names().len()
                    && name@ == final(self).pending() && name@.len() > 0
                    && lookup(final(self).known(), name@) is None,
            },
    {
        let ghost start = self.pos as int;
        let ghost ids0 = self.ids();
        loop
            invariant
                self.wf(),
                self.names() == old(self).names(),
                self.known() == old(self).known(),
                start == old(self).pos(),
                ids0 == old(self).ids(),
                start <= self.pos(),
                self.ids() == take_names(ids0, self.known(), self.names().subrange(start, self.pos())),
            decreases self.names@.len() - self.pos,
        {
            assert(self.names().len() == self.names@.len());
            if self.pos >= self.names.len() {
                let mut out: Vec<String> = Vec::new();
                let mut i: usize = 0;
                while i < self.ids.len()
                    invariant
                        i <= self.ids@.len(),
                        self.ids().len() == self.ids@.len(),
                        crate::text::views(out@) == self.ids().subrange(0, i as int),
                    decreases self.ids@.len() - i,
                {
                    let ghost prev = out@;
                    out.push(self.ids[i].clone());
                    proof {
                        assert(self.ids()[i as int] == self.ids@[i as int]@);
                        assert(crate::text::views(out@) =~= crate::text::views(prev).push(self.ids@[i as int]@));
                        assert(crate::text::views(out@) =~= self.ids().subrange(0, i + 1));
                    }
                    i = i + 1;
                }
                proof {
                    assert(self.ids().subrange(0, self.ids@.len() as int) =~= self.ids());
                }
                return TagStep::Done(out);
            }
            let ghost p = self.pos as int;
            proof {
                assert(self.names().subrange(start, p + 1).drop_last() =~= self.names().subrange(start, p));
                assert(self.names().subrange(start, p + 1).last() == self.names()[p]);
            }
            let name = text::trim(self.names[self.pos].as_str());
            if name.unicode_len() > 0 {
                match self.find(name) {
                    Some(id) => {
                        self.push_id(id);
                    },
                    None => {
                        proof {
                            assert(self.names()[p] == self.names@[p]@);
                        }
                        return TagStep::Create(String::from_str(name));
                    },
                }
            }
            self.pos = self.pos + 1;
        }
    }

    /// The pending name was created with this id: it becomes known and its id
    /// is taken in.
    pub fn created(&mut self, id: String)
        requires
            old(self).wf(),
            old(self).pos() < old(self).names().len(),
        ensures
            final(self).wf(),
            final(self).names() == old(self).names(),
            final(self).pos() == old(self).pos() + 1,
            final(self).known() == old(self).known().push((old(self).pending(), id@)),
            final(self).ids() == push_unseen(old(self).ids(), id@),
            distinct(final(self).ids()),
    {
        assert(self.names().len() == self.names@.len());
        let name = String::from_str(text::trim(self.names[self.pos].as_str()));
        let ghost k0 = self.known();
        self.known_names.push(name);
        self.known_ids.push(id.clone());
        proof {
            assert(self.names()[self.pos as int] == self.names@[self.pos as int]@);
            assert(self.known() =~= k0.push((old(self).pending(), id@)));
        }
        self.push_id(id);
        assert(self.names().len() == self.names@.len());
        let _n = self.names.len();
        self.pos = self.pos + 1;
    }

    /// Whether a failed creation was a conflict (the tag exists after all),
    /// after which the caller lists the tags again.
    pub fn is_conflict(e: &AppError) -> (r: bool)
        ensures
            r == contains_seq(e.message_seq(), "409"@),
    {
        let m = e.message();
        text::contains(m.as_str(), "409")
    }

    /// After a conflict, the tags as listed again: when the pending name is
    /// among them its id is taken in and `true` returned; otherwise the
    /// creation's error stands and `false` is returned.
    pub fn relisted(&mut self, tags: &Vec<Tag>) -> (found: bool)
        requires
            old(self).wf(),
            old(self).pos() < old(self).names().len(),
        ensures
            final(self).wf(),
            final(self).names() == old(self).names(),
            final(self).known() == tag_pairs(tags@),
            found == lookup(tag_pairs(tags@), old(self).pending()) is Some,
            found ==> final(self).pos() == old(self).pos() + 1 && final(self).ids() == push_unseen(
                old(self).ids(),
                lookup(tag_pairs(tags@), old(self).pending())->0,
            ),
            !found ==> final(self).pos() == old(self).pos() && final(self).ids() == old(self).ids(),
    {
        assert(self.names().len() == self.names@.len());
        self.replace_known(tags);
        let name = text::trim(self.names[self.pos].as_str());
        proof {
            assert(self.names()[self.pos as int] == self.names@[self.pos as int]@);
        }
        match self.find(name) {
            Some(id) => {
                self.push_id(id);
                assert(self.names().len() == self.names@.len());
                let _n = self.names.len();
                self.pos = self.pos + 1;
                true
            },
            None => false,
        }
    }
}

/// Taking in an id never repeats one: the resolved ids stay distinct.
pub proof fn lemma_push_unseen_distinct(ids: Seq<Seq<char>>, id: Seq<char>)
    requires
        distinct(ids),
    ensures
        distinct(push_unseen(ids, id)),
        push_unseen(ids, id).contains(id),
{
    if !ids.contains(id) {
        assert(ids.push(id)[ids.len() as int] == id);
    }
}

} // verus!
