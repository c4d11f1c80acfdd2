//! The sound clips that were fetched, by tag.

use vstd::prelude::*;
use vstd::string::*;

use crate::text::same;

verus! {

/// A fetched clip: a whole WAV file, and the volume, from 0 to 100.
pub struct SoundClip {
    tag: String,
    bytes: Vec<u8>,
    volume: i32,
}

/// What a clip holds.
pub struct Clip {
    pub bytes: Seq<u8>,
    pub volume: i32,
}

/// The clips, in the order of their first entry. Every volume is one from 0 to 100.
pub struct SoundClips {
    list: Vec<SoundClip>,
}

spec fn clip(c: SoundClip) -> Clip {
    Clip { bytes: c.bytes@, volume: c.volume }
}

spec fn clip_map(v: Seq<SoundClip>) -> Map<Seq<char>, Clip>
    decreases v.len(),
{
    if v.len() == 0 {
        Map::empty()
    } else {
        clip_map(v.drop_last()).insert(v.last().tag@, clip(v.last()))
    }
}

spec fn last_at(v: Seq<SoundClip>, tag: Seq<char>) -> int
    decreases v.len(),
{
    if v.len() == 0 {
        -1
    } else if v.last().tag@ == tag {
        v.len() - 1
    } else {
        last_at(v.drop_last(), tag)
    }
}

proof fn last_at_clip(v: Seq<SoundClip>, tag: Seq<char>)
    ensures
        -1 <= last_at(v, tag) < v.len(),
        clip_map(v).contains_key(tag) <==> last_at(v, tag) >= 0,
        last_at(v, tag) >= 0 ==> v[last_at(v, tag)].tag@ == tag && clip_map(v)[tag] == clip(
            v[last_at(v, tag)],
        ),
    decreases v.len(),
{
    if v.len() > 0 {
        last_at_clip(v.drop_last(), tag);
    }
}

proof fn clip_map_update(v: Seq<SoundClip>, tag: Seq<char>, c: SoundClip)
    requires
        last_at(v, tag) >= 0,
        c.tag@ == tag,
    ensures
        last_at(v, tag) < v.len(),
        clip_map(v.update(last_at(v, tag), c)) == clip_map(v).insert(tag, clip(c)),
    decreases v.len(),
{
    last_at_clip(v, tag);
    let w = v.update(last_at(v, tag), c);
    if v.last().tag@ == tag {
        assert(w.drop_last() =~= v.drop_last());
    } else {
        clip_map_update(v.drop_last(), tag, c);
        assert(w.drop_last() =~= v.drop_last().update(last_at(v, tag), c));
    }
    assert(clip_map(w) =~= clip_map(v).insert(tag, clip(c)));
}

impl View for SoundClips {
    type V = Map<Seq<char>, Clip>;

    closed spec fn view(&self) -> Map<Seq<char>, Clip> {
        clip_map(self.list@)
    }
}

/// Whether every volume is one from 0 to 100.
pub open spec fn volumes_in_range(m: Map<Seq<char>, Clip>) -> bool {
    forall|t: Seq<char>| m.contains_key(t) ==> 0 <= (#[trigger] m[t]).volume <= 100
}

impl SoundClips {
    /// Every volume is one from 0 to 100.
    #[verifier::type_invariant]
    pub open spec fn wf(self) -> bool {
        volumes_in_range(self@)
    }

    /// No clips.
    pub fn new() -> (r: SoundClips)
        ensures
            r@ == Map::<Seq<char>, Clip>::empty(),
    {
        SoundClips { list: Vec::new() }
    }

    fn find(&self, tag: &str) -> (r: Option<usize>)
        ensures
            match r {
                Some(i) => last_at(self.list@, tag@) == i,
                None => last_at(self.list@, tag@) == -1,
            },
    {
        let v = &self.list;
        let mut n: usize = v.len();
        assert(v@.take(n as int) =~= v@);
        while n > 0
            invariant
                n <= v.len(),
                *v == self.list,
                last_at(v@, tag@) == last_at(v@.take(n as int), tag@),
            decreases n,
        {
            assert(v@.take(n as int).last() == v@[n - 1]);
            if same(v[n - 1].tag.as_str(), tag) {
                return Some(n - 1);
            }
            assert(v@.take(n as int).drop_last() =~= v@.take(n - 1));
            n -= 1;
        }
        None
    }

    /// Whether there is a clip of this tag.
    pub fn contains(&self, tag: &str) -> (r: bool)
        ensures
            r == self@.contains_key(tag@),
    {
        proof {
            last_at_clip(self.list@, tag@);
        }
        self.find(tag).is_some()
    }

    /// The bytes and the volume of the clip of this tag.
    pub fn get(&self, tag: &str) -> (r: Option<(&Vec<u8>, i32)>)
        ensures
            match r {
                Some((b, v)) => self@.contains_key(tag@) && self@[tag@] == (Clip {
                    bytes: b@,
                    volume: v,
                }) && 0 <= v <= 100,
                None => !self@.contains_key(tag@),
            },
    {
        proof {
            use_type_invariant(self);
            last_at_clip(self.list@, tag@);
        }
        match self.find(tag) {
            Some(i) => Some((&self.list[i].bytes, self.list[i].volume)),
            None => None,
        }
    }

    /// Enters the clip of this tag, in the place of one that there was.
    pub fn insert(&mut self, tag: &str, bytes: Vec<u8>, volume: i32)
        requires
            0 <= volume <= 100,
        ensures
            final(self)@ == old(self)@.insert(tag@, Clip { bytes: bytes@, volume }),
    {
        let c = SoundClip { tag: tag.to_owned(), bytes, volume };
        proof {
            use_type_invariant(&*self);
            last_at_clip(self.list@, tag@);
        }
        let at = self.find(tag);
        let mut list: Vec<SoundClip> = Vec::new();
        std::mem::swap(&mut list, &mut self.list);
        let ghost before = list@;
        match at {
            Some(i) => {
                proof {
                    clip_map_update(before, tag@, c);
                }
                let _ = list.remove(i);
                list.insert(i, c);
                assert(list@ =~= before.update(i as int, c));
            },
            None => {
                list.push(c);
                assert(list@.drop_last() =~= before);
            },
        }
        self.list = list;
    }

    /// Forgets all clips.
    pub fn clear(&mut self)
        ensures
            final(self)@ == Map::<Seq<char>, Clip>::empty(),
    {
        self.list = Vec::new();
    }
}

} // verus!
